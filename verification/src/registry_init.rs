//! Preparing downloaded packages so that they can be compared with local ones.

use crate::cargo::CARGO_VCS_INFO;
use crate::package::{Package, PackageView};
use crate::path::{join, joined_path, parent, parent_path};
use crate::registry_packages::{registry_views, RegistryPackage, RegistryPackageView};
use crate::text::{optional_text, starts_with, texts, trim, trimmed};
use vstd::prelude::*;

verus! {

/// A package and the directory that it is in.
#[derive(Debug)]
pub struct LocatedPackage {
    pub package: Package,
    pub directory: String,
}

/// The model of a [`LocatedPackage`].
pub struct LocatedPackageView {
    pub package: PackageView,
    pub directory: Seq<char>,
}

impl View for LocatedPackage {
    type V = LocatedPackageView;

    open spec fn view(&self) -> LocatedPackageView {
        LocatedPackageView { package: self.package@, directory: self.directory@ }
    }
}

/// The models of a list of located packages.
pub open spec fn located_views(packages: Seq<LocatedPackage>) -> Seq<LocatedPackageView> {
    packages.map_values(|package: LocatedPackage| package@)
}

/// The directory of a package: the one of its manifest.
pub fn package_directory(package: &Package) -> (r: Option<String>)
    ensures
        optional_text(r) == parent_path(package@.manifest_path),
{
    parent(package.manifest_path.as_str())
}

/// Why a package could not be prepared.
#[derive(Debug)]
pub enum InitError<S> {
    /// A file could not be removed: its path and what was said about it.
    NotRemoved { path: S, message: S },
    /// `git` failed in this directory: what was said about it.
    GitFailed { directory: S, message: S },
}

impl View for InitError<String> {
    type V = InitError<Seq<char>>;

    open spec fn view(&self) -> InitError<Seq<char>> {
        match self {
            InitError::NotRemoved { path, message } => InitError::NotRemoved {
                path: path@,
                message: message@,
            },
            InitError::GitFailed { directory, message } => InitError::GitFailed {
                directory: directory@,
                message: message@,
            },
        }
    }
}

/// The model of the result of a preparation.
pub open spec fn init_result(result: Result<Vec<RegistryPackage>, InitError<String>>) -> Result<
    Seq<RegistryPackageView>,
    InitError<Seq<char>>,
> {
    match result {
        Ok(packages) => Ok(registry_views(packages@)),
        Err(error) => Err(error@),
    }
}

/// What the caller is asked to do to prepare packages.
#[derive(Debug)]
pub enum InitAction {
    /// Say whether this path exists.
    Probe(String),
    /// Read the hash of the commit in this file.
    ReadSha1(String),
    /// Remove this file.
    RemoveFile(String),
    /// Run `git` with these arguments in a directory.
    Git { directory: String, arguments: Vec<String> },
    /// Nothing more: the packages.
    Finish(Result<Vec<RegistryPackage>, InitError<String>>),
}

/// The model of an [`InitAction`].
pub enum InitActionView {
    Probe(Seq<char>),
    ReadSha1(Seq<char>),
    RemoveFile(Seq<char>),
    Git { directory: Seq<char>, arguments: Seq<Seq<char>> },
    Finish(Result<Seq<RegistryPackageView>, InitError<Seq<char>>>),
}

impl View for InitAction {
    type V = InitActionView;

    open spec fn view(&self) -> InitActionView {
        match self {
            InitAction::Probe(path) => InitActionView::Probe(path@),
            InitAction::ReadSha1(path) => InitActionView::ReadSha1(path@),
            InitAction::RemoveFile(path) => InitActionView::RemoveFile(path@),
            InitAction::Git { directory, arguments } => InitActionView::Git {
                directory: directory@,
                arguments: texts(arguments@),
            },
            InitAction::Finish(result) => InitActionView::Finish(init_result(*result)),
        }
    }
}

/// What came of an [`InitAction`].
#[derive(Debug)]
pub enum InitEvent<S> {
    /// Whether the path exists.
    Exists(bool),
    /// The hash in the file, where it has one.
    Sha1(Option<S>),
    /// It was done.
    Done,
    /// It failed: what was said about it.
    Failed(S),
}

impl View for InitEvent<String> {
    type V = InitEvent<Seq<char>>;

    open spec fn view(&self) -> InitEvent<Seq<char>> {
        match self {
            InitEvent::Exists(exists) => InitEvent::Exists(*exists),
            InitEvent::Sha1(sha1) => InitEvent::Sha1(optional_text(*sha1)),
            InitEvent::Done => InitEvent::Done,
            InitEvent::Failed(message) => InitEvent::Failed(message@),
        }
    }
}

/// How far the preparation of a package is.
#[derive(Debug, Clone, Copy, PartialEq, Eq, Structural)]
pub enum InitStage {
    /// Is there a file that names the commit?
    ProbingInfo,
    ReadingInfo,
    /// Removing it, for it is not part of the package.
    RemovingInfo,
    /// Is there a repository?
    ProbingRepository,
    Initializing,
    Adding,
    Committing,
    SettingEmail,
    SettingName,
    CommittingAgain,
    Finished,
}

/// The preparation of packages under way.
#[derive(Debug)]
pub struct PackageInit {
    packages: Vec<LocatedPackage>,
    /// The package at hand.
    next: usize,
    /// The commit of the package at hand.
    sha1: Option<String>,
    /// The commits of those before it.
    sha1s: Vec<Option<String>>,
    stage: InitStage,
}

/// The model of a [`PackageInit`].
#[verifier::ext_equal]
pub struct PackageInitView {
    pub packages: Seq<LocatedPackageView>,
    pub next: int,
    pub sha1: Option<Seq<char>>,
    pub sha1s: Seq<Option<Seq<char>>>,
    pub stage: InitStage,
}

impl View for PackageInit {
    type V = PackageInitView;

    closed spec fn view(&self) -> PackageInitView {
        PackageInitView {
            packages: located_views(self.packages@),
            next: self.next as int,
            sha1: optional_text(self.sha1),
            sha1s: self.sha1s@.map_values(|sha1: Option<String>| optional_text(sha1)),
            stage: self.stage,
        }
    }
}

/// What commits everything in a new repository.
pub open spec fn commit_arguments() -> Seq<Seq<char>> {
    seq!["commit"@, "-m"@, "init"@]
}

/// What `git` says where it does not know who commits.
pub open spec fn is_identity_unknown(message: Seq<char>) -> bool {
    "Author identity unknown"@.is_prefix_of(trimmed(message))
}

impl PackageInitView {
    /// What a stage goes with.
    pub open spec fn is_valid(self) -> bool {
        self.stage == InitStage::Finished || (0 <= self.next < self.packages.len()
            && self.sha1s.len() == self.next)
    }

    /// An event that can follow the last action.
    pub open spec fn expects(self, event: InitEvent<Seq<char>>) -> bool {
        match self.stage {
            InitStage::ProbingInfo | InitStage::ProbingRepository => event is Exists,
            InitStage::ReadingInfo => event is Sha1,
            InitStage::Finished => false,
            _ => event is Done || event is Failed,
        }
    }

    /// The directory of the package at hand.
    pub open spec fn directory(self) -> Seq<char> {
        self.packages[self.next].directory
    }

    /// The file that names the commit of the package at hand.
    pub open spec fn info(self) -> Seq<char> {
        joined_path(self.directory(), ".cargo_vcs_info.json"@)
    }

    /// The packages with their commits.
    pub open spec fn released(self) -> Seq<RegistryPackageView> {
        Seq::new(
            self.packages.len(),
            |i: int|
                RegistryPackageView {
                    package: self.packages[i].package,
                    sha1: self.sha1s[i],
                    released_workspace: None,
                },
        )
    }

    /// The end, with a result.
    pub open spec fn ending(
        self,
        result: Result<Seq<RegistryPackageView>, InitError<Seq<char>>>,
    ) -> (PackageInitView, InitActionView) {
        (PackageInitView { stage: InitStage::Finished, ..self }, InitActionView::Finish(result))
    }

    /// Begin with the package at hand; end where there is none.
    pub open spec fn beginning(self) -> (PackageInitView, InitActionView) {
        if self.next < self.packages.len() {
            (
                PackageInitView { stage: InitStage::ProbingInfo, ..self },
                InitActionView::Probe(self.info()),
            )
        } else {
            self.ending(Ok(self.released()))
        }
    }

    /// The package at hand is ready.
    pub open spec fn moving_on(self) -> (PackageInitView, InitActionView) {
        (PackageInitView {
            next: self.next + 1,
            sha1: None,
            sha1s: self.sha1s.push(self.sha1),
            ..self
        }).beginning()
    }

    /// Look for the repository of the package at hand.
    pub open spec fn probing_repository(self) -> (PackageInitView, InitActionView) {
        (
            PackageInitView { stage: InitStage::ProbingRepository, ..self },
            InitActionView::Probe(joined_path(self.directory(), ".git"@)),
        )
    }

    /// Run `git` in the directory of the package at hand.
    pub open spec fn running(self, stage: InitStage, arguments: Seq<Seq<char>>) -> (
        PackageInitView,
        InitActionView,
    ) {
        (
            PackageInitView { stage, ..self },
            InitActionView::Git { directory: self.directory(), arguments },
        )
    }

    /// The end, because `git` failed.
    pub open spec fn failing(self, message: Seq<char>) -> (PackageInitView, InitActionView) {
        self.ending(Err(InitError::GitFailed { directory: self.directory(), message }))
    }

    /// The next state and action.
    pub open spec fn after(self, event: InitEvent<Seq<char>>) -> (PackageInitView, InitActionView) {
        match (self.stage, event) {
            (InitStage::ProbingInfo, InitEvent::Exists(exists)) => if exists {
                (
                    PackageInitView { stage: InitStage::ReadingInfo, ..self },
                    InitActionView::ReadSha1(self.info()),
                )
            } else {
                self.probing_repository()
            },
            (InitStage::ReadingInfo, InitEvent::Sha1(sha1)) => (
                PackageInitView { stage: InitStage::RemovingInfo, sha1, ..self },
                InitActionView::RemoveFile(self.info()),
            ),
            (InitStage::RemovingInfo, InitEvent::Done) => self.probing_repository(),
            (InitStage::RemovingInfo, InitEvent::Failed(message)) => self.ending(
                Err(InitError::NotRemoved { path: self.info(), message }),
            ),
            (InitStage::ProbingRepository, InitEvent::Exists(exists)) => if exists {
                self.moving_on()
            } else {
                self.running(InitStage::Initializing, seq!["init"@])
            },
            (InitStage::Initializing, InitEvent::Done) => self.running(
                InitStage::Adding,
                seq!["add"@, "."@],
            ),
            (InitStage::Adding, InitEvent::Done) => self.running(
                InitStage::Committing,
                commit_arguments(),
            ),
            (InitStage::Committing, InitEvent::Done) => self.moving_on(),
            // Any identity will do, since the repository only serves to compare packages. A
            // commit that fails for another reason is left out.
            (InitStage::Committing, InitEvent::Failed(message)) => if is_identity_unknown(
                message,
            ) {
                self.running(
                    InitStage::SettingEmail,
                    seq!["config"@, "user.email"@, "test@registry"@],
                )
            } else {
                self.moving_on()
            },
            (InitStage::SettingEmail, InitEvent::Done) => self.running(
                InitStage::SettingName,
                seq!["config"@, "user.name"@, "test"@],
            ),
            (InitStage::SettingName, InitEvent::Done) => self.running(
                InitStage::CommittingAgain,
                commit_arguments(),
            ),
            (InitStage::CommittingAgain, InitEvent::Done) => self.moving_on(),
            (_, InitEvent::Failed(message)) => self.failing(message),
            _ => self.ending(Ok(seq![])),
        }
    }
}

fn words1(a: &str) -> (r: Vec<String>)
    ensures
        texts(r@) == seq![a@],
{
    let mut r: Vec<String> = Vec::new();
    r.push(a.to_owned());
    assert(texts(r@) =~= seq![a@]);
    r
}

fn words2(a: &str, b: &str) -> (r: Vec<String>)
    ensures
        texts(r@) == seq![a@, b@],
{
    let mut r: Vec<String> = Vec::new();
    r.push(a.to_owned());
    r.push(b.to_owned());
    assert(texts(r@) =~= seq![a@, b@]);
    r
}

fn words3(a: &str, b: &str, c: &str) -> (r: Vec<String>)
    ensures
        texts(r@) == seq![a@, b@, c@],
{
    let mut r: Vec<String> = Vec::new();
    r.push(a.to_owned());
    r.push(b.to_owned());
    r.push(c.to_owned());
    assert(texts(r@) =~= seq![a@, b@, c@]);
    r
}

impl PackageInit {
    /// The preparation of `packages`, and the first action.
    pub fn start(packages: Vec<LocatedPackage>) -> (r: (PackageInit, InitAction))
        ensures
            (r.0@, r.1@) == (PackageInitView {
                packages: located_views(packages@),
                next: 0,
                sha1: None,
                sha1s: seq![],
                stage: InitStage::Finished,
            }).beginning(),
            r.0@.is_valid(),
    {
        let init = PackageInit {
            packages,
            next: 0,
            sha1: None,
            sha1s: Vec::new(),
            stage: InitStage::Finished,
        };
        assert(init@.sha1s =~= seq![]);
        init.begin()
    }

    fn finish(self, result: Result<Vec<RegistryPackage>, InitError<String>>) -> (r: (
        PackageInit,
        InitAction,
    ))
        ensures
            (r.0@, r.1@) == self@.ending(init_result(result)),
            r.0@.is_valid(),
    {
        (PackageInit { stage: InitStage::Finished, ..self }, InitAction::Finish(result))
    }

    fn directory(&self) -> (r: String)
        requires
            self.next < self.packages@.len(),
        ensures
            r@ == self@.directory(),
    {
        assert(self@.packages[self.next as int] == self.packages@[self.next as int]@);
        self.packages[self.next].directory.clone()
    }

    fn info(&self) -> (r: String)
        requires
            self.next < self.packages@.len(),
        ensures
            r@ == self@.info(),
    {
        join(self.directory().as_str(), CARGO_VCS_INFO)
    }

    /// The packages with their commits.
    fn release(&self) -> (r: Vec<RegistryPackage>)
        requires
            self.sha1s@.len() == self.packages@.len(),
        ensures
            registry_views(r@) == self@.released(),
    {
        let mut r: Vec<RegistryPackage> = Vec::new();
        let mut i: usize = 0;
        while i < self.packages.len()
            invariant
                i <= self.packages@.len(),
                self.sha1s@.len() == self.packages@.len(),
                r@.len() == i,
                forall|j: int| 0 <= j < i ==> #[trigger] r@[j]@ == self@.released()[j],
            decreases self.packages@.len() - i,
        {
            let sha1 = crate::text::copy_optional(&self.sha1s[i]);
            let package = self.packages[i].package.copy();
            assert(self@.packages[i as int] == self.packages@[i as int]@);
            r.push(RegistryPackage::new(package, sha1));
            i += 1;
        }
        assert(registry_views(r@) =~= self@.released());
        r
    }

    fn begin(self) -> (r: (PackageInit, InitAction))
        requires
            self.next <= self.packages@.len(),
            self.sha1s@.len() == self.next,
        ensures
            (r.0@, r.1@) == self@.beginning(),
            r.0@.is_valid(),
    {
        if self.next < self.packages.len() {
            let path = self.info();
            (PackageInit { stage: InitStage::ProbingInfo, ..self }, InitAction::Probe(path))
        } else {
            let packages = self.release();
            self.finish(Ok(packages))
        }
    }

    fn move_on(self) -> (r: (PackageInit, InitAction))
        requires
            self.next < self.packages@.len(),
            self.sha1s@.len() == self.next,
        ensures
            (r.0@, r.1@) == self@.moving_on(),
            r.0@.is_valid(),
    {
        let ghost before = self@;
        let count: usize = self.packages.len();
        assert(self.next < count);
        let PackageInit { packages, next, sha1, sha1s, stage } = self;
        let mut sha1s = sha1s;
        sha1s.push(sha1);
        let init = PackageInit { packages, next: next + 1, sha1: None, sha1s, stage };
        assert(init@.sha1s =~= before.sha1s.push(before.sha1));
        init.begin()
    }

    fn probe_repository(self) -> (r: (PackageInit, InitAction))
        requires
            self.next < self.packages@.len(),
            self.sha1s@.len() == self.next,
        ensures
            (r.0@, r.1@) == self@.probing_repository(),
            r.0@.is_valid(),
    {
        let path = join(self.directory().as_str(), ".git");
        (PackageInit { stage: InitStage::ProbingRepository, ..self }, InitAction::Probe(path))
    }

    fn run(self, stage: InitStage, arguments: Vec<String>) -> (r: (PackageInit, InitAction))
        requires
            self.next < self.packages@.len(),
            self.sha1s@.len() == self.next,
        ensures
            (r.0@, r.1@) == self@.running(stage, texts(arguments@)),
            r.0@.is_valid(),
    {
        let directory = self.directory();
        (PackageInit { stage, ..self }, InitAction::Git { directory, arguments })
    }

    fn fail(self, message: String) -> (r: (PackageInit, InitAction))
        requires
            self.next < self.packages@.len(),
        ensures
            (r.0@, r.1@) == self@.failing(message@),
            r.0@.is_valid(),
    {
        let directory = self.directory();
        self.finish(Err(InitError::GitFailed { directory, message }))
    }

    /// The next state and action, after what came of the last action.
    pub fn step(self, event: InitEvent<String>) -> (r: (PackageInit, InitAction))
        requires
            self@.is_valid(),
            self@.expects(event@),
        ensures
            (r.0@, r.1@) == self@.after(event@),
            r.0@.is_valid(),
    {
        match (self.stage, event) {
            (InitStage::ProbingInfo, InitEvent::Exists(exists)) => if exists {
                let path = self.info();
                (PackageInit { stage: InitStage::ReadingInfo, ..self }, InitAction::ReadSha1(path))
            } else {
                self.probe_repository()
            },
            (InitStage::ReadingInfo, InitEvent::Sha1(sha1)) => {
                let path = self.info();
                (
                    PackageInit { stage: InitStage::RemovingInfo, sha1, ..self },
                    InitAction::RemoveFile(path),
                )
            },
            (InitStage::RemovingInfo, InitEvent::Done) => self.probe_repository(),
            (InitStage::RemovingInfo, InitEvent::Failed(message)) => {
                let path = self.info();
                self.finish(Err(InitError::NotRemoved { path, message }))
            },
            (InitStage::ProbingRepository, InitEvent::Exists(exists)) => if exists {
                self.move_on()
            } else {
                self.run(InitStage::Initializing, words1("init"))
            },
            (InitStage::Initializing, InitEvent::Done) => self.run(
                InitStage::Adding,
                words2("add", "."),
            ),
            (InitStage::Adding, InitEvent::Done) => self.run(
                InitStage::Committing,
                words3("commit", "-m", "init"),
            ),
            (InitStage::Committing, InitEvent::Done) => self.move_on(),
            (InitStage::Committing, InitEvent::Failed(message)) => {
                if starts_with(trim(message.as_str()), "Author identity unknown") {
                    self.run(
                        InitStage::SettingEmail,
                        words3("config", "user.email", "test@registry"),
                    )
                } else {
                    self.move_on()
                }
            },
            (InitStage::SettingEmail, InitEvent::Done) => self.run(
                InitStage::SettingName,
                words3("config", "user.name", "test"),
            ),
            (InitStage::SettingName, InitEvent::Done) => self.run(
                InitStage::CommittingAgain,
                words3("commit", "-m", "init"),
            ),
            (InitStage::CommittingAgain, InitEvent::Done) => self.move_on(),
            (_, InitEvent::Failed(message)) => self.fail(message),
            _ => self.finish(Ok(Vec::new())),
        }
    }
}

/// What a preparation finds, where that does not change meanwhile.
pub struct InitWorld {
    /// Whether a path exists.
    pub exists: spec_fn(Seq<char>) -> bool,
    /// The hash of a commit in a file.
    pub sha1: spec_fn(Seq<char>) -> Option<Seq<char>>,
    /// What is said where something fails at a stage for the package in a directory.
    pub failure: spec_fn(Seq<char>, InitStage) -> Option<Seq<char>>,
}

impl InitWorld {
    /// What comes of an action.
    pub open spec fn answer(self, init: PackageInitView, action: InitActionView) -> InitEvent<
        Seq<char>,
    > {
        match action {
            InitActionView::Probe(path) => InitEvent::Exists((self.exists)(path)),
            InitActionView::ReadSha1(path) => InitEvent::Sha1((self.sha1)(path)),
            _ => match (self.failure)(init.directory(), init.stage) {
                Some(message) => InitEvent::Failed(message),
                None => InitEvent::Done,
            },
        }
    }
}

/// How many steps a stage can be from the next package.
pub open spec fn distance(stage: InitStage) -> int {
    match stage {
        InitStage::ProbingInfo => 10,
        InitStage::ReadingInfo => 9,
        InitStage::RemovingInfo => 8,
        InitStage::ProbingRepository => 7,
        InitStage::Initializing => 6,
        InitStage::Adding => 5,
        InitStage::Committing => 4,
        InitStage::SettingEmail => 3,
        InitStage::SettingName => 2,
        InitStage::CommittingAgain => 1,
        InitStage::Finished => 0,
    }
}

/// What is removed and run, from a state and its action on, and the result.
pub open spec fn run(init: PackageInitView, action: InitActionView, world: InitWorld) -> (
    Seq<InitActionView>,
    Result<Seq<RegistryPackageView>, InitError<Seq<char>>>,
)
    decreases init.packages.len() - init.next, distance(init.stage),
{
    match action {
        InitActionView::Finish(result) => (seq![], result),
        _ => if init.stage == InitStage::Finished || init.next >= init.packages.len() {
            (seq![], Ok(seq![]))
        } else {
            let (next, then) = init.after(world.answer(init, action));
            let (effects, result) = run(next, then, world);
            (if action is RemoveFile || action is Git {
                seq![action] + effects
            } else {
                effects
            }, result)
        },
    }
}

/// What is run in turn, each unless one before it fails, and the failure.
pub open spec fn commands(
    world: InitWorld,
    directory: Seq<char>,
    list: Seq<(InitStage, Seq<Seq<char>>)>,
) -> (Seq<InitActionView>, Option<InitError<Seq<char>>>)
    decreases list.len(),
{
    if list.len() == 0 {
        (seq![], None)
    } else {
        let action = InitActionView::Git { directory, arguments: list[0].1 };
        match (world.failure)(directory, list[0].0) {
            Some(message) => (seq![action], Some(InitError::GitFailed { directory, message })),
            None => {
                let (rest, failure) = commands(world, directory, list.drop_first());
                (seq![action] + rest, failure)
            },
        }
    }
}

/// What makes a repository of a directory, up to the commit.
pub open spec fn initialization() -> Seq<(InitStage, Seq<Seq<char>>)> {
    seq![
        (InitStage::Initializing, seq!["init"@]),
        (InitStage::Adding, seq!["add"@, "."@]),
    ]
}

/// What commits with an identity made up for it.
pub open spec fn identified_commit() -> Seq<(InitStage, Seq<Seq<char>>)> {
    seq![
        (InitStage::SettingEmail, seq!["config"@, "user.email"@, "test@registry"@]),
        (InitStage::SettingName, seq!["config"@, "user.name"@, "test"@]),
        (InitStage::CommittingAgain, commit_arguments()),
    ]
}

/// What gives a package a repository with everything committed, and a failure.
pub open spec fn repository_effects(world: InitWorld, directory: Seq<char>) -> (
    Seq<InitActionView>,
    Option<InitError<Seq<char>>>,
) {
    let commit = InitActionView::Git { directory, arguments: commit_arguments() };
    let (first, failure) = commands(world, directory, initialization());
    if (world.exists)(joined_path(directory, ".git"@)) {
        (seq![], None)
    } else if failure is Some {
        (first, failure)
    } else {
        match (world.failure)(directory, InitStage::Committing) {
            Some(message) => if is_identity_unknown(message) {
                let (second, failure) = commands(world, directory, identified_commit());
                (first.push(commit) + second, failure)
            } else {
                (first.push(commit), None)
            },
            None => (first.push(commit), None),
        }
    }
}

/// The file in a directory that names a commit.
pub open spec fn info_of(directory: Seq<char>) -> Seq<char> {
    joined_path(directory, ".cargo_vcs_info.json"@)
}

/// All that is done to prepare a package, and a failure.
pub open spec fn package_effects(world: InitWorld, directory: Seq<char>) -> (
    Seq<InitActionView>,
    Option<InitError<Seq<char>>>,
) {
    let info = info_of(directory);
    let (rest, failure) = repository_effects(world, directory);
    if !(world.exists)(info) {
        (rest, failure)
    } else {
        match (world.failure)(directory, InitStage::RemovingInfo) {
            Some(message) => (
                seq![InitActionView::RemoveFile(info)],
                Some(InitError::NotRemoved { path: info, message }),
            ),
            None => (seq![InitActionView::RemoveFile(info)] + rest, failure),
        }
    }
}

/// The commit of a package: the one that its file names, where it has the file.
pub open spec fn commit_of(world: InitWorld, directory: Seq<char>) -> Option<Seq<char>> {
    if (world.exists)(info_of(directory)) {
        (world.sha1)(info_of(directory))
    } else {
        None
    }
}

/// The packages with their commits.
pub open spec fn released_packages(world: InitWorld, packages: Seq<LocatedPackageView>) -> Seq<
    RegistryPackageView,
> {
    packages.map_values(
        |package: LocatedPackageView|
            RegistryPackageView {
                package: package.package,
                sha1: commit_of(world, package.directory),
                released_workspace: None,
            },
    )
}

/// All that is done to prepare the packages from `next` on, up to the first failure.
pub open spec fn preparation(world: InitWorld, packages: Seq<LocatedPackageView>, next: int) -> (
    Seq<InitActionView>,
    Result<Seq<RegistryPackageView>, InitError<Seq<char>>>,
)
    decreases packages.len() - next,
{
    if next >= packages.len() {
        (seq![], Ok(released_packages(world, packages)))
    } else {
        let (first, failure) = package_effects(world, packages[next].directory);
        match failure {
            Some(error) => (first, Err(error)),
            None => {
                let (rest, result) = preparation(world, packages, next + 1);
                (first + rest, result)
            },
        }
    }
}

proof fn lemma_run_step(
    init: PackageInitView,
    action: InitActionView,
    world: InitWorld,
    next: PackageInitView,
    then: InitActionView,
)
    requires
        init.stage != InitStage::Finished,
        init.next < init.packages.len(),
        !(action is Finish),
        init.after(world.answer(init, action)) == (next, then),
    ensures
        run(init, action, world).1 == run(next, then, world).1,
        run(init, action, world).0 == if action is RemoveFile || action is Git {
            seq![action] + run(next, then, world).0
        } else {
            run(next, then, world).0
        },
{
}

/// The commits of the packages before the one at hand are known.
pub open spec fn commits_are_known(world: InitWorld, init: PackageInitView) -> bool {
    &&& 0 <= init.next <= init.packages.len()
    &&& init.sha1s.len() == init.next
    &&& forall|i: int|
        0 <= i < init.next ==> #[trigger] init.sha1s[i] == commit_of(
            world,
            init.packages[i].directory,
        )
}

/// What follows where the package at hand is ready.
proof fn lemma_moving_on(world: InitWorld, init: PackageInitView)
    requires
        init.next < init.packages.len(),
        commits_are_known(world, init),
        init.sha1 == commit_of(world, init.directory()),
    ensures
        run(init.moving_on().0, init.moving_on().1, world) == preparation(
            world,
            init.packages,
            init.next + 1,
        ),
    decreases init.packages.len() - init.next, 0int,
{
    let next = PackageInitView {
        next: init.next + 1,
        sha1: None,
        sha1s: init.sha1s.push(init.sha1),
        ..init
    };
    assert(commits_are_known(world, next));
    packages_are_prepared(world, next);
}

/// What the failure of a command comes to.
proof fn lemma_failing(world: InitWorld, init: PackageInitView, arguments: Seq<Seq<char>>)
    requires
        init.stage != InitStage::Finished && init.stage != InitStage::Committing && init.stage
            != InitStage::RemovingInfo && init.stage != InitStage::ProbingInfo && init.stage
            != InitStage::ProbingRepository && init.stage != InitStage::ReadingInfo,
        init.next < init.packages.len(),
        (world.failure)(init.directory(), init.stage) is Some,
    ensures
        ({
            let action = InitActionView::Git { directory: init.directory(), arguments };
            run(init, action, world) == (
                seq![action],
                Err::<Seq<RegistryPackageView>, InitError<Seq<char>>>(
                    InitError::GitFailed {
                        directory: init.directory(),
                        message: (world.failure)(init.directory(), init.stage)->0,
                    },
                ),
            )
        }),
{
    let action = InitActionView::Git { directory: init.directory(), arguments };
    let message = (world.failure)(init.directory(), init.stage)->0;
    let (next, then) = init.failing(message);
    lemma_run_step(init, action, world, next, then);
    assert(seq![action] + seq![] =~= seq![action]);
}

/// What follows where the commit failed for want of an identity.
proof fn lemma_identified_commit(world: InitWorld, init: PackageInitView)
    requires
        init.next < init.packages.len(),
        commits_are_known(world, init),
        init.sha1 == commit_of(world, init.directory()),
    ensures
        ({
            let (email, action) = init.running(
                InitStage::SettingEmail,
                seq!["config"@, "user.email"@, "test@registry"@],
            );
            let (effects, failure) = commands(world, init.directory(), identified_commit());
            let (rest, result) = preparation(world, init.packages, init.next + 1);
            run(email, action, world) == match failure {
                Some(error) => (effects, Err(error)),
                None => (effects + rest, result),
            }
        }),
    decreases init.packages.len() - init.next, 1int,
{
    reveal_with_fuel(commands, 4);
    let list = identified_commit();
    let directory = init.directory();
    assert(list.drop_first() =~= seq![list[1], list[2]]);
    assert(list.drop_first().drop_first() =~= seq![list[2]]);
    assert(list.drop_first().drop_first().drop_first() =~= seq![]);
    let (email, set_email) = init.running(InitStage::SettingEmail, list[0].1);
    let (name, set_name) = init.running(InitStage::SettingName, list[1].1);
    let (again, commit) = init.running(InitStage::CommittingAgain, list[2].1);
    let rest = preparation(world, init.packages, init.next + 1).0;
    if (world.failure)(directory, InitStage::SettingEmail) is Some {
        lemma_failing(world, email, list[0].1);
    } else {
        lemma_run_step(email, set_email, world, name, set_name);
        if (world.failure)(directory, InitStage::SettingName) is Some {
            lemma_failing(world, name, list[1].1);
        } else {
            lemma_run_step(name, set_name, world, again, commit);
            if (world.failure)(directory, InitStage::CommittingAgain) is Some {
                lemma_failing(world, again, list[2].1);
            } else {
                let (next, then) = again.moving_on();
                lemma_run_step(again, commit, world, next, then);
                lemma_moving_on(world, again);
                assert(seq![commit] + seq![] =~= seq![commit]);
                assert(seq![set_email] + (seq![set_name] + (seq![commit] + rest)) =~= seq![
                    set_email,
                ] + (seq![set_name] + seq![commit]) + rest);
            }
        }
    }
}

/// What follows where the package at hand has to be committed.
proof fn lemma_commit(world: InitWorld, init: PackageInitView)
    requires
        init.next < init.packages.len(),
        commits_are_known(world, init),
        init.sha1 == commit_of(world, init.directory()),
    ensures
        ({
            let (committing, commit) = init.running(InitStage::Committing, commit_arguments());
            let (effects, failure) = commands(world, init.directory(), identified_commit());
            let (rest, result) = preparation(world, init.packages, init.next + 1);
            let message = (world.failure)(init.directory(), InitStage::Committing);
            run(committing, commit, world) == if message is Some && is_identity_unknown(
                message->0,
            ) {
                match failure {
                    Some(error) => (seq![commit] + effects, Err(error)),
                    None => (seq![commit] + (effects + rest), result),
                }
            } else {
                (seq![commit] + rest, result)
            }
        }),
    decreases init.packages.len() - init.next, 2int,
{
    let (committing, commit) = init.running(InitStage::Committing, commit_arguments());
    let message = (world.failure)(init.directory(), InitStage::Committing);
    if message is Some && is_identity_unknown(message->0) {
        let (next, then) = committing.running(
            InitStage::SettingEmail,
            seq!["config"@, "user.email"@, "test@registry"@],
        );
        lemma_run_step(committing, commit, world, next, then);
        lemma_identified_commit(world, committing);
    } else {
        let (next, then) = committing.moving_on();
        lemma_run_step(committing, commit, world, next, then);
        lemma_moving_on(world, committing);
    }
}

/// What follows where the repository of the package at hand is looked for.
proof fn lemma_repository(world: InitWorld, init: PackageInitView)
    requires
        init.next < init.packages.len(),
        commits_are_known(world, init),
        init.sha1 == commit_of(world, init.directory()),
    ensures
        ({
            let (probing, probe) = init.probing_repository();
            let (effects, failure) = repository_effects(world, init.directory());
            let (rest, result) = preparation(world, init.packages, init.next + 1);
            run(probing, probe, world) == match failure {
                Some(error) => (effects, Err(error)),
                None => (effects + rest, result),
            }
        }),
    decreases init.packages.len() - init.next, 3int,
{
    reveal_with_fuel(commands, 3);
    let list = initialization();
    assert(list.drop_first() =~= seq![list[1]]);
    assert(list.drop_first().drop_first() =~= seq![]);
    let directory = init.directory();
    let (probing, probe) = init.probing_repository();
    let (rest, result) = preparation(world, init.packages, init.next + 1);
    if (world.exists)(joined_path(directory, ".git"@)) {
        let (next, then) = probing.moving_on();
        lemma_run_step(probing, probe, world, next, then);
        lemma_moving_on(world, probing);
        assert(seq![] + rest =~= rest);
    } else {
        let (initializing, init_command) = init.running(InitStage::Initializing, list[0].1);
        let (adding, add_command) = init.running(InitStage::Adding, list[1].1);
        let (committing, commit) = init.running(InitStage::Committing, commit_arguments());
        lemma_run_step(probing, probe, world, initializing, init_command);
        if (world.failure)(directory, InitStage::Initializing) is Some {
            lemma_failing(world, initializing, list[0].1);
        } else {
            lemma_run_step(initializing, init_command, world, adding, add_command);
            if (world.failure)(directory, InitStage::Adding) is Some {
                lemma_failing(world, adding, list[1].1);
            } else {
                lemma_run_step(adding, add_command, world, committing, commit);
                lemma_commit(world, adding);
                let (second, failure) = commands(world, directory, identified_commit());
                let first = commands(world, directory, list).0;
                assert(first =~= seq![init_command, add_command]);
                assert(seq![init_command] + (seq![add_command] + (seq![commit] + second)) =~= first.push(
                    commit,
                ) + second);
                assert(seq![init_command] + (seq![add_command] + (seq![commit] + (second + rest)))
                    =~= first.push(commit) + second + rest);
                assert(seq![init_command] + (seq![add_command] + (seq![commit] + rest)) =~= first.push(
                    commit,
                ) + rest);
            }
        }
    }
}

/// The packages are prepared one after the other: the file that names the commit is read and
/// removed where it is there, and a package without a repository gets one with everything
/// committed. The result has the packages in their order, each with its commit. The first
/// failure ends it; a commit that fails is one only where it was tried with an identity.
pub proof fn packages_are_prepared(world: InitWorld, init: PackageInitView)
    requires
        commits_are_known(world, init),
        init.sha1 is None,
    ensures
        run(init.beginning().0, init.beginning().1, world) == preparation(
            world,
            init.packages,
            init.next,
        ),
    decreases init.packages.len() - init.next, 4int,
{
    if init.next < init.packages.len() {
        let directory = init.directory();
        let info = init.info();
        let (probing, probe) = init.beginning();
        let (effects, failure) = repository_effects(world, directory);
        let (rest, result) = preparation(world, init.packages, init.next + 1);
        if !(world.exists)(info) {
            let (next, then) = probing.probing_repository();
            lemma_run_step(probing, probe, world, next, then);
            lemma_repository(world, probing);
        } else {
            let sha1 = (world.sha1)(info);
            let reading = PackageInitView { stage: InitStage::ReadingInfo, ..init };
            let read = InitActionView::ReadSha1(info);
            let removing = PackageInitView { stage: InitStage::RemovingInfo, sha1, ..init };
            let remove = InitActionView::RemoveFile(info);
            lemma_run_step(probing, probe, world, reading, read);
            lemma_run_step(reading, read, world, removing, remove);
            match (world.failure)(directory, InitStage::RemovingInfo) {
                Some(message) => {
                    let (next, then) = removing.ending(
                        Err(InitError::NotRemoved { path: info, message }),
                    );
                    lemma_run_step(removing, remove, world, next, then);
                    assert(seq![remove] + seq![] =~= seq![remove]);
                },
                None => {
                    let (next, then) = removing.probing_repository();
                    lemma_run_step(removing, remove, world, next, then);
                    lemma_repository(world, removing);
                    assert(seq![remove] + (effects + rest) =~= seq![remove] + effects + rest);
                },
            }
        }
    } else {
        assert(init.released() =~= released_packages(world, init.packages));
    }
}

/// A package is in the directory of its manifest.
pub proof fn packages_are_in_the_directory_of_their_manifest(package: &Package, r: Option<String>)
    requires
        call_ensures(package_directory, (package,), r),
    ensures
        r is Some <==> parent_path(package.manifest_path@) is Some,
        r matches Some(directory) ==> parent_path(package.manifest_path@) == Some(directory@),
{
}

/// The preparation begins with the file in the first package that names its commit. Without
/// packages it ends.
pub proof fn preparation_begins_with_the_first_package(
    packages: Vec<LocatedPackage>,
    r: (PackageInit, InitAction),
)
    requires
        call_ensures(PackageInit::start, (packages,), r),
    ensures
        packages@.len() == 0 ==> r.1@ == InitActionView::Finish(Ok(seq![])),
        packages@.len() > 0 ==> {
            &&& r.1@ == InitActionView::Probe(
                joined_path(packages@[0].directory@, ".cargo_vcs_info.json"@),
            )
            &&& r.0@.stage == InitStage::ProbingInfo
            &&& r.0@.packages == located_views(packages@)
            &&& r.0@.next == 0
            &&& r.0@.sha1 is None
            &&& r.0@.sha1s.len() == 0
        },
{
    assert(located_views(packages@).len() == packages@.len());
    if packages@.len() == 0 {
        let bare = PackageInitView {
            packages: located_views(packages@),
            next: 0,
            sha1: None,
            sha1s: seq![],
            stage: InitStage::Finished,
        };
        assert(bare.released() =~= seq![]);
    } else {
        assert(located_views(packages@)[0] == packages@[0]@);
    }
}

/// The preparation goes from state to state as [`PackageInitView::after`] says.
pub proof fn preparation_goes_on_by_its_state(
    init: PackageInit,
    event: InitEvent<String>,
    r: (PackageInit, InitAction),
)
    requires
        call_ensures(PackageInit::step, (init, event), r),
    ensures
        (r.0@, r.1@) == init@.after(event@),
{
}

/// What follows once the package at hand is ready: the next one, and behind the last all packages,
/// each with its own commit.
pub open spec fn is_ready(
    init: PackageInitView,
    r: (PackageInitView, InitActionView),
) -> bool {
    let sha1s = init.sha1s.push(init.sha1);
    if init.next + 1 < init.packages.len() {
        &&& r.1 == InitActionView::Probe(
            joined_path(init.packages[init.next + 1].directory, ".cargo_vcs_info.json"@),
        )
        &&& r.0.stage == InitStage::ProbingInfo
        &&& r.0.packages == init.packages
        &&& r.0.next == init.next + 1
        &&& r.0.sha1 is None
        &&& r.0.sha1s == sha1s
    } else {
        r.1 matches InitActionView::Finish(Ok(list)) && list.len() == init.packages.len() && (
        forall|i: int|
            0 <= i < list.len() ==> (#[trigger] list[i]).package == init.packages[i].package
                && list[i].sha1 == sha1s[i] && list[i].released_workspace is None)
    }
}

/// The commit of a package is read from the file that names it, and then the file is removed; a
/// package without the file has no commit. Then its repository is looked for.
pub proof fn commit_is_read_before_its_file_is_removed(
    init: PackageInitView,
    sha1: Option<Seq<char>>,
    message: Seq<char>,
)
    requires
        init.is_valid(),
        init.stage == InitStage::ProbingInfo,
    ensures
        ({
            let directory = init.packages[init.next].directory;
            let info = joined_path(directory, ".cargo_vcs_info.json"@);
            let (reading, read) = init.after(InitEvent::Exists(true));
            let (removing, remove) = reading.after(InitEvent::Sha1(sha1));
            let (probing, probe) = removing.after(InitEvent::Done);
            let (without, probe_without) = init.after(InitEvent::Exists(false));
            &&& read == InitActionView::ReadSha1(info)
            &&& remove == InitActionView::RemoveFile(info)
            &&& probe == InitActionView::Probe(joined_path(directory, ".git"@))
            &&& probing == (PackageInitView {
                stage: InitStage::ProbingRepository,
                sha1,
                ..init
            })
            &&& removing.after(InitEvent::Failed(message)).1 == InitActionView::Finish(
                Err(InitError::NotRemoved { path: info, message }),
            )
            &&& probe_without == InitActionView::Probe(joined_path(directory, ".git"@))
            &&& without == (PackageInitView { stage: InitStage::ProbingRepository, ..init })
        }),
{
}

/// A package that has a repository is ready. One without gets one, with all its files committed.
/// A commit that fails for want of an identity is made again with one; one that fails for
/// another reason is left out.
pub proof fn packages_get_a_repository(
    init: PackageInitView,
    message: Seq<char>,
)
    requires
        init.is_valid(),
        init.stage == InitStage::ProbingRepository,
    ensures
        ({
            let directory = init.packages[init.next].directory;
            let (initializing, git_init) = init.after(InitEvent::Exists(false));
            let (adding, git_add) = initializing.after(InitEvent::Done);
            let (committing, git_commit) = adding.after(InitEvent::Done);
            let (email, git_email) = committing.after(InitEvent::Failed(message));
            let (name, git_name) = email.after(InitEvent::Done);
            let (again, git_again) = name.after(InitEvent::Done);
            &&& is_ready(init, init.after(InitEvent::Exists(true)))
            &&& git_init == InitActionView::Git { directory, arguments: seq!["init"@] }
            &&& git_add == InitActionView::Git { directory, arguments: seq!["add"@, "."@] }
            &&& git_commit == InitActionView::Git {
                directory,
                arguments: seq!["commit"@, "-m"@, "init"@],
            }
            &&& is_ready(init, committing.after(InitEvent::Done))
            &&& !"Author identity unknown"@.is_prefix_of(trimmed(message)) ==> is_ready(
                init,
                (email, git_email),
            )
            &&& "Author identity unknown"@.is_prefix_of(trimmed(message)) ==> {
                &&& git_email == InitActionView::Git {
                    directory,
                    arguments: seq!["config"@, "user.email"@, "test@registry"@],
                }
                &&& git_name == InitActionView::Git {
                    directory,
                    arguments: seq!["config"@, "user.name"@, "test"@],
                }
                &&& git_again == InitActionView::Git {
                    directory,
                    arguments: seq!["commit"@, "-m"@, "init"@],
                }
                &&& is_ready(init, again.after(InitEvent::Done))
            }
        }),
{
    let sha1s = init.sha1s.push(init.sha1);
    assert(sha1s.len() == init.next + 1);
}

/// A command of `git` that fails ends the preparation, with what was said about it and where.
pub proof fn failing_commands_end_the_preparation(init: PackageInitView, message: Seq<char>)
    requires
        init.is_valid(),
        init.stage == InitStage::Initializing || init.stage == InitStage::Adding || init.stage
            == InitStage::SettingEmail || init.stage == InitStage::SettingName || init.stage
            == InitStage::CommittingAgain,
    ensures
        init.after(InitEvent::Failed(message)).1 == InitActionView::Finish(
            Err(
                InitError::GitFailed {
                    directory: init.packages[init.next].directory,
                    message,
                },
            ),
        ),
{
}

/// The preparation goes on from each state that it reaches, whatever comes of its action.
pub proof fn preparation_takes_what_can_come(init: PackageInit, event: InitEvent<String>)
    requires
        init@.is_valid(),
    ensures
        match init@.stage {
            InitStage::ProbingInfo | InitStage::ProbingRepository => event is Exists,
            InitStage::ReadingInfo => event is Sha1,
            InitStage::Finished => false,
            _ => event is Done || event is Failed,
        } ==> call_requires(PackageInit::step, (init, event)),
{
}

}
