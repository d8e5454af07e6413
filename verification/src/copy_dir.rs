//! Copying a directory, with the Git metadata and the tracked files that ignore rules skip.

use crate::copy_entry::{copy_result, CopyError, CopyJob, FileKind};
use crate::path::{
    are_plain, final_component, is_plain, join, joined_path, last_component, path_below,
    path_components, same_path, strip_prefix, takes_names,
};
use crate::text::{optional_text, same_text};
use vstd::prelude::*;

verus! {

/// What the caller is asked to do to copy a directory into another one.
#[derive(Debug)]
pub enum CopyAction<S> {
    /// Say whether this path is a directory.
    CheckDirectory(S),
    /// Say whether this path exists.
    Probe(S),
    /// Create a directory and its ancestors, where they are missing.
    CreateDirAll(S),
    /// Copy what a directory holds into one that is there.
    CopyDirectory(CopyJob<S>),
    /// Nothing more: the result.
    Finish(Result<(), CopyError<S>>),
}

impl View for CopyAction<String> {
    type V = CopyAction<Seq<char>>;

    open spec fn view(&self) -> CopyAction<Seq<char>> {
        match self {
            CopyAction::CheckDirectory(path) => CopyAction::CheckDirectory(path@),
            CopyAction::Probe(path) => CopyAction::Probe(path@),
            CopyAction::CreateDirAll(path) => CopyAction::CreateDirAll(path@),
            CopyAction::CopyDirectory(job) => CopyAction::CopyDirectory(job@),
            CopyAction::Finish(result) => CopyAction::Finish(copy_result(*result)),
        }
    }
}

/// What came of a [`CopyAction`].
#[derive(Debug)]
pub enum CopyEvent<S> {
    /// Whether it is so.
    Answer(bool),
    /// Whether the directory was created.
    Created(bool),
    /// What came of the copy.
    Copied(Result<(), CopyError<S>>),
}

impl View for CopyEvent<String> {
    type V = CopyEvent<Seq<char>>;

    open spec fn view(&self) -> CopyEvent<Seq<char>> {
        match self {
            CopyEvent::Answer(yes) => CopyEvent::Answer(*yes),
            CopyEvent::Created(created) => CopyEvent::Created(*created),
            CopyEvent::Copied(result) => CopyEvent::Copied(copy_result(*result)),
        }
    }
}

/// How far the copy of a directory into another one is.
#[derive(Debug, Clone, Copy, PartialEq, Eq, Structural)]
pub enum CopyStage {
    CheckingSource,
    ProbingTarget,
    CreatingTarget,
    Copying,
    Finished,
}

/// The copy of the directory `from` into the directory `to` under way.
#[derive(Debug)]
pub struct DirCopy<S> {
    pub from: S,
    pub to: S,
    /// The copy of `from`, once it is known.
    pub target: S,
    pub stage: CopyStage,
}

impl View for DirCopy<String> {
    type V = DirCopy<Seq<char>>;

    open spec fn view(&self) -> DirCopy<Seq<char>> {
        DirCopy { from: self.from@, to: self.to@, target: self.target@, stage: self.stage }
    }
}

impl DirCopy<Seq<char>> {
    /// An event that can follow the last action.
    pub open spec fn expects(self, event: CopyEvent<Seq<char>>) -> bool {
        match self.stage {
            CopyStage::CheckingSource | CopyStage::ProbingTarget => event is Answer,
            CopyStage::CreatingTarget => event is Created,
            CopyStage::Copying => event is Copied,
            CopyStage::Finished => false,
        }
    }

    /// The end, with a result.
    pub open spec fn ending(self, result: Result<(), CopyError<Seq<char>>>) -> (
        DirCopy<Seq<char>>,
        CopyAction<Seq<char>>,
    ) {
        (DirCopy { stage: CopyStage::Finished, ..self }, CopyAction::Finish(result))
    }

    /// The copy of what the directory holds. It is the root of the copy.
    pub open spec fn copying(self) -> (DirCopy<Seq<char>>, CopyAction<Seq<char>>) {
        (
            DirCopy { stage: CopyStage::Copying, ..self },
            CopyAction::CopyDirectory(
                CopyJob {
                    root_from: self.from,
                    root_to: self.target,
                    source: self.from,
                    destination: self.target,
                },
            ),
        )
    }

    /// The next state and action.
    pub open spec fn after(self, event: CopyEvent<Seq<char>>) -> (
        DirCopy<Seq<char>>,
        CopyAction<Seq<char>>,
    ) {
        match (self.stage, event) {
            (CopyStage::CheckingSource, CopyEvent::Answer(is_dir)) => if !is_dir {
                self.ending(Err(CopyError::NotADirectory(self.from)))
            } else {
                match last_component(self.from) {
                    Some(name) => {
                        let target = joined_path(self.to, name);
                        (
                            DirCopy { target, stage: CopyStage::ProbingTarget, ..self },
                            CopyAction::Probe(target),
                        )
                    },
                    None => self.ending(Err(CopyError::InvalidPath(self.from))),
                }
            },
            (CopyStage::ProbingTarget, CopyEvent::Answer(exists)) => if exists {
                self.copying()
            } else {
                (
                    DirCopy { stage: CopyStage::CreatingTarget, ..self },
                    CopyAction::CreateDirAll(self.target),
                )
            },
            (CopyStage::CreatingTarget, CopyEvent::Created(created)) => if created {
                self.copying()
            } else {
                self.ending(Err(CopyError::NotCreated(self.target)))
            },
            (CopyStage::Copying, CopyEvent::Copied(result)) => self.ending(result),
            _ => self.ending(Ok(())),
        }
    }
}

/// `target` is the directory in `to` that is called like `from`, where that has a name; names can
/// be joined onto it.
pub open spec fn is_called_like(from: Seq<char>, to: Seq<char>, target: Seq<char>) -> bool {
    last_component(from) matches Some(name) ==> (is_plain(name) && takes_names(to)
        ==> path_components(target) == path_components(to).push(name) && takes_names(target))
}

impl DirCopy<String> {
    /// The copy of `from` into `to`, and the first action.
    pub fn start(from: &str, to: &str) -> (r: (DirCopy<String>, CopyAction<String>))
        ensures
            r.0@ == (DirCopy {
                from: from@,
                to: to@,
                target: seq![],
                stage: CopyStage::CheckingSource,
            }),
            r.1@ == CopyAction::CheckDirectory(from@),
    {
        (
            DirCopy {
                from: from.to_owned(),
                to: to.to_owned(),
                target: String::new(),
                stage: CopyStage::CheckingSource,
            },
            CopyAction::CheckDirectory(from.to_owned()),
        )
    }

    fn finish(self, result: Result<(), CopyError<String>>) -> (r: (
        DirCopy<String>,
        CopyAction<String>,
    ))
        ensures
            (r.0@, r.1@) == self@.ending(copy_result(result)),
    {
        (DirCopy { stage: CopyStage::Finished, ..self }, CopyAction::Finish(result))
    }

    fn copy(self) -> (r: (DirCopy<String>, CopyAction<String>))
        ensures
            (r.0@, r.1@) == self@.copying(),
    {
        let job = CopyJob {
            root_from: self.from.clone(),
            root_to: self.target.clone(),
            source: self.from.clone(),
            destination: self.target.clone(),
        };
        (DirCopy { stage: CopyStage::Copying, ..self }, CopyAction::CopyDirectory(job))
    }

    /// The next state and action, after what came of the last action.
    pub fn step(self, event: CopyEvent<String>) -> (r: (DirCopy<String>, CopyAction<String>))
        requires
            self@.expects(event@),
        ensures
            (r.0@, r.1@) == self@.after(event@),
            self.stage == CopyStage::CheckingSource && r.1@ is Probe ==> is_called_like(
                self.from@,
                self.to@,
                r.0.target@,
            ),
    {
        match (self.stage, event) {
            (CopyStage::CheckingSource, CopyEvent::Answer(is_dir)) => {
                if !is_dir {
                    let path = self.from.clone();
                    return self.finish(Err(CopyError::NotADirectory(path)));
                }
                match final_component(self.from.as_str()) {
                    Some(name) => {
                        let target = join(self.to.as_str(), name.as_str());
                        assert(path_components(self.to@) + seq![name@] =~= path_components(
                            self.to@,
                        ).push(name@));
                        let action = CopyAction::Probe(target.clone());
                        (DirCopy { target, stage: CopyStage::ProbingTarget, ..self }, action)
                    },
                    None => {
                        let path = self.from.clone();
                        self.finish(Err(CopyError::InvalidPath(path)))
                    },
                }
            },
            (CopyStage::ProbingTarget, CopyEvent::Answer(exists)) => if exists {
                self.copy()
            } else {
                let target = self.target.clone();
                (
                    DirCopy { stage: CopyStage::CreatingTarget, ..self },
                    CopyAction::CreateDirAll(target),
                )
            },
            (CopyStage::CreatingTarget, CopyEvent::Created(created)) => if created {
                self.copy()
            } else {
                let target = self.target.clone();
                self.finish(Err(CopyError::NotCreated(target)))
            },
            (CopyStage::Copying, CopyEvent::Copied(result)) => self.finish(result),
            _ => self.finish(Ok(())),
        }
    }
}

/// The copy of a directory that has a name goes into a directory of that name, which is created
/// only where it is missing; the copied directory is the root of the copy.
pub proof fn directory_is_copied_under_its_name(copy: DirCopy<Seq<char>>, exists: bool)
    requires
        copy.stage == CopyStage::CheckingSource,
        last_component(copy.from) is Some,
    ensures
        ({
            let target = joined_path(copy.to, last_component(copy.from)->0);
            let (probing, probe) = copy.after(CopyEvent::Answer(true));
            let (next, then) = probing.after(CopyEvent::Answer(exists));
            let last = if exists {
                then
            } else {
                next.after(CopyEvent::Created(true)).1
            };
            &&& probe == CopyAction::Probe(target)
            &&& !exists ==> then == CopyAction::CreateDirAll(target)
            &&& last == CopyAction::CopyDirectory(
                CopyJob {
                    root_from: copy.from,
                    root_to: target,
                    source: copy.from,
                    destination: target,
                },
            )
        }),
{
}

/// Where the entry at `path` of the copied directory `from` goes below `to`.
pub open spec fn entry_destination(to: Seq<char>, path: Seq<char>, from: Seq<char>) -> Option<
    Seq<char>,
> {
    match path_below(path, from) {
        Some(rest) => Some(joined_path(to, rest)),
        None => None,
    }
}

/// `moved` is `path` with `to` in place of `from`, where it is `from` or below it.
pub open spec fn is_moved(
    from: Seq<char>,
    to: Seq<char>,
    path: Seq<char>,
    moved: Option<Seq<char>>,
) -> bool {
    let depth = path_components(from).len() as int;
    path_components(from).is_prefix_of(path_components(path)) && are_plain(
        path_components(path).skip(depth),
    ) ==> (moved matches Some(moved) && path_components(moved) == path_components(to)
        + path_components(path).skip(depth))
}

/// Where the entry at `path` of the copied directory `from` goes below `to`; nothing where the
/// entry is not below `from`.
pub fn destination_path(to: &str, path: &str, from: &str) -> (r: Option<String>)
    ensures
        optional_text(r) == entry_destination(to@, path@, from@),
        r matches Some(destination) ==> exists|rest: Seq<char>|
            same_path(joined_path(from@, rest), path@) && #[trigger] joined_path(to@, rest)
                == destination@,
        takes_names(to@) ==> is_moved(from@, to@, path@, optional_text(r)),
{
    match strip_prefix(path, from) {
        Some(rest) => {
            let destination = join(to, rest.as_str());
            assert(joined_path(to@, rest@) == destination@);
            Some(destination)
        },
        None => None,
    }
}

/// A walk through a directory.
#[derive(Debug, Clone, Copy, PartialEq, Eq, Structural)]
pub enum Walk {
    /// Through the directory, by the ignore rules of its repository, and without its `.git`.
    Files,
    /// Through its `.git`, without ignore rules.
    GitMetadata,
}

/// What a walk passes over.
#[derive(Debug, Clone, Copy, PartialEq, Eq, Structural)]
pub struct WalkRules {
    /// Hidden files.
    pub hidden: bool,
    /// What `.ignore` files say.
    pub ignore: bool,
    /// What the ignore files of the directories above say.
    pub parents: bool,
    /// What `.gitignore` files say.
    pub git_ignore: bool,
    /// What the user's own `.gitignore` says. It might name `.git`, without which the copy is no
    /// repository.
    pub git_global: bool,
    /// What `.git/info/exclude` says.
    pub git_exclude: bool,
    /// The `.git` of the directory itself.
    pub root_git: bool,
}

/// What a walk passes over. In the Git metadata a pattern such as `tags` means nothing, so
/// nothing is passed over there.
pub open spec fn rules_of(walk: Walk) -> WalkRules {
    match walk {
        Walk::Files => WalkRules {
            hidden: false,
            ignore: false,
            parents: true,
            git_ignore: true,
            git_global: false,
            git_exclude: true,
            root_git: true,
        },
        Walk::GitMetadata => WalkRules {
            hidden: false,
            ignore: false,
            parents: false,
            git_ignore: false,
            git_global: false,
            git_exclude: false,
            root_git: false,
        },
    }
}

/// What a walk passes over.
pub fn walk_rules(walk: Walk) -> (r: WalkRules)
    ensures
        r == rules_of(walk),
{
    match walk {
        Walk::Files => WalkRules {
            hidden: false,
            ignore: false,
            parents: true,
            git_ignore: true,
            git_global: false,
            git_exclude: true,
            root_git: true,
        },
        Walk::GitMetadata => WalkRules {
            hidden: false,
            ignore: false,
            parents: false,
            git_ignore: false,
            git_global: false,
            git_exclude: false,
            root_git: false,
        },
    }
}

/// Whether a walk visits an entry of this name at `depth` below where it starts, as far as ignore
/// rules do not decide: the walk through the files leaves out the `.git` of the directory itself,
/// which has a walk of its own.
pub fn is_walked(walk: Walk, depth: usize, file_name: &str) -> (r: bool)
    ensures
        r == !(rules_of(walk).root_git && depth == 1 && file_name@ == ".git"@),
{
    !(walk_rules(walk).root_git && depth == 1 && same_text(file_name, ".git"))
}

/// What the caller is asked to do to copy what a directory holds.
#[derive(Debug)]
pub enum DirectoryAction<S> {
    /// Say whether this path exists, symlinks followed.
    Probe(S),
    /// Say whether this path is a symlink.
    CheckSymlink(S),
    /// Say what comes next in a walk.
    NextEntry(Walk),
    /// Copy one entry of this kind.
    CopyEntry(CopyJob<S>, FileKind),
    /// Copy the tracked files.
    CopyTracked(CopyJob<S>),
    /// Nothing more: the result.
    Finish(Result<(), CopyError<S>>),
}

impl View for DirectoryAction<String> {
    type V = DirectoryAction<Seq<char>>;

    open spec fn view(&self) -> DirectoryAction<Seq<char>> {
        match self {
            DirectoryAction::Probe(path) => DirectoryAction::Probe(path@),
            DirectoryAction::CheckSymlink(path) => DirectoryAction::CheckSymlink(path@),
            DirectoryAction::NextEntry(walk) => DirectoryAction::NextEntry(*walk),
            DirectoryAction::CopyEntry(job, kind) => DirectoryAction::CopyEntry(job@, *kind),
            DirectoryAction::CopyTracked(job) => DirectoryAction::CopyTracked(job@),
            DirectoryAction::Finish(result) => DirectoryAction::Finish(copy_result(*result)),
        }
    }
}

/// What came of a [`DirectoryAction`].
#[derive(Debug)]
pub enum DirectoryEvent<S> {
    /// Whether the path exists; `None` where that could not be found out.
    Exists(Option<bool>),
    /// Whether the path is a symlink.
    Symlink(bool),
    /// An entry: its path, where it is UTF-8, and what it is, where that is known.
    Entry { path: Option<S>, kind: Option<FileKind> },
    /// The walk failed.
    InvalidEntry,
    /// The walk has no more entries.
    End,
    /// What came of a copy.
    Copied(Result<(), CopyError<S>>),
}

impl View for DirectoryEvent<String> {
    type V = DirectoryEvent<Seq<char>>;

    open spec fn view(&self) -> DirectoryEvent<Seq<char>> {
        match self {
            DirectoryEvent::Exists(exists) => DirectoryEvent::Exists(*exists),
            DirectoryEvent::Symlink(symlink) => DirectoryEvent::Symlink(*symlink),
            DirectoryEvent::Entry { path, kind } => DirectoryEvent::Entry {
                path: optional_text(*path),
                kind: *kind,
            },
            DirectoryEvent::InvalidEntry => DirectoryEvent::InvalidEntry,
            DirectoryEvent::End => DirectoryEvent::End,
            DirectoryEvent::Copied(result) => DirectoryEvent::Copied(copy_result(*result)),
        }
    }
}

/// How far the copy of what a directory holds is.
#[derive(Debug, Clone, Copy, PartialEq, Eq, Structural)]
pub enum DirectoryStage {
    ProbingGit,
    CheckingGitLink,
    Walking,
    CopyingEntry,
    CopyingTracked,
    Finished,
}

/// The copy of what a directory holds under way. The walk through the files comes first, then
/// the one through the Git metadata, where there is any, then the tracked files.
#[derive(Debug)]
pub struct DirectoryCopy<S> {
    pub job: CopyJob<S>,
    /// There is Git metadata.
    pub git: bool,
    pub walk: Walk,
    pub stage: DirectoryStage,
}

impl View for DirectoryCopy<String> {
    type V = DirectoryCopy<Seq<char>>;

    open spec fn view(&self) -> DirectoryCopy<Seq<char>> {
        DirectoryCopy { job: self.job@, git: self.git, walk: self.walk, stage: self.stage }
    }
}

impl DirectoryCopy<Seq<char>> {
    /// An event that can follow the last action.
    pub open spec fn expects(self, event: DirectoryEvent<Seq<char>>) -> bool {
        match self.stage {
            DirectoryStage::ProbingGit => event is Exists,
            DirectoryStage::CheckingGitLink => event is Symlink,
            DirectoryStage::Walking => event is Entry || event is InvalidEntry || event is End,
            DirectoryStage::CopyingEntry | DirectoryStage::CopyingTracked => event is Copied,
            DirectoryStage::Finished => false,
        }
    }

    /// The end, with a result.
    pub open spec fn ending(self, result: Result<(), CopyError<Seq<char>>>) -> (
        DirectoryCopy<Seq<char>>,
        DirectoryAction<Seq<char>>,
    ) {
        (
            DirectoryCopy { stage: DirectoryStage::Finished, ..self },
            DirectoryAction::Finish(result),
        )
    }

    /// Ask for the next entry of a walk.
    pub open spec fn walking(self, walk: Walk) -> (
        DirectoryCopy<Seq<char>>,
        DirectoryAction<Seq<char>>,
    ) {
        (
            DirectoryCopy { walk, stage: DirectoryStage::Walking, ..self },
            DirectoryAction::NextEntry(walk),
        )
    }

    /// The next state and action.
    pub open spec fn after(self, event: DirectoryEvent<Seq<char>>) -> (
        DirectoryCopy<Seq<char>>,
        DirectoryAction<Seq<char>>,
    ) {
        let git_path = joined_path(self.job.source, ".git"@);
        match (self.stage, event) {
            (DirectoryStage::ProbingGit, DirectoryEvent::Exists(exists)) => match exists {
                Some(true) => (DirectoryCopy { git: true, ..self }).walking(Walk::Files),
                // A symlink that leads nowhere does not exist.
                Some(false) => (
                    DirectoryCopy { stage: DirectoryStage::CheckingGitLink, ..self },
                    DirectoryAction::CheckSymlink(git_path),
                ),
                None => self.ending(Err(CopyError::NotInspected(git_path))),
            },
            (DirectoryStage::CheckingGitLink, DirectoryEvent::Symlink(symlink)) => (
                DirectoryCopy { git: symlink, ..self }).walking(Walk::Files),
            (DirectoryStage::Walking, DirectoryEvent::Entry { path, kind }) => match path {
                None => self.ending(Err(CopyError::EntryNotUtf8)),
                Some(path) => match entry_destination(
                    self.job.destination,
                    path,
                    self.job.source,
                ) {
                    None => self.ending(
                        Err(CopyError::EntryOutside { path, root: self.job.source }),
                    ),
                    Some(destination) => match kind {
                        None => self.ending(Err(CopyError::UnknownFileType(path))),
                        Some(kind) => (
                            DirectoryCopy { stage: DirectoryStage::CopyingEntry, ..self },
                            DirectoryAction::CopyEntry(
                                CopyJob { source: path, destination, ..self.job },
                                kind,
                            ),
                        ),
                    },
                },
            },
            (DirectoryStage::Walking, DirectoryEvent::InvalidEntry) => self.ending(
                Err(CopyError::InvalidEntry),
            ),
            (DirectoryStage::Walking, DirectoryEvent::End) => if self.walk == Walk::Files
                && self.git {
                self.walking(Walk::GitMetadata)
            } else {
                (
                    DirectoryCopy { stage: DirectoryStage::CopyingTracked, ..self },
                    DirectoryAction::CopyTracked(self.job),
                )
            },
            (DirectoryStage::CopyingEntry, DirectoryEvent::Copied(result)) => match result {
                Ok(_) => self.walking(self.walk),
                Err(error) => self.ending(Err(error)),
            },
            (DirectoryStage::CopyingTracked, DirectoryEvent::Copied(result)) => self.ending(result),
            _ => self.ending(Ok(())),
        }
    }
}

impl CopyJob<String> {
    fn copy(&self) -> (r: CopyJob<String>)
        ensures
            r@ == self@,
    {
        CopyJob {
            root_from: self.root_from.clone(),
            root_to: self.root_to.clone(),
            source: self.source.clone(),
            destination: self.destination.clone(),
        }
    }
}

impl DirectoryCopy<String> {
    /// The copy of what the directory `job.source` holds to `job.destination`, which is there,
    /// and the first action.
    pub fn start(job: CopyJob<String>) -> (r: (DirectoryCopy<String>, DirectoryAction<String>))
        ensures
            r.0@ == (DirectoryCopy {
                job: job@,
                git: false,
                walk: Walk::Files,
                stage: DirectoryStage::ProbingGit,
            }),
            r.1@ == DirectoryAction::Probe(joined_path(job@.source, ".git"@)),
    {
        let path = join(job.source.as_str(), ".git");
        (
            DirectoryCopy { job, git: false, walk: Walk::Files, stage: DirectoryStage::ProbingGit },
            DirectoryAction::Probe(path),
        )
    }

    fn finish(self, result: Result<(), CopyError<String>>) -> (r: (
        DirectoryCopy<String>,
        DirectoryAction<String>,
    ))
        ensures
            (r.0@, r.1@) == self@.ending(copy_result(result)),
    {
        (
            DirectoryCopy { stage: DirectoryStage::Finished, ..self },
            DirectoryAction::Finish(result),
        )
    }

    fn walk_on(self, walk: Walk) -> (r: (DirectoryCopy<String>, DirectoryAction<String>))
        ensures
            (r.0@, r.1@) == self@.walking(walk),
    {
        (
            DirectoryCopy { walk, stage: DirectoryStage::Walking, ..self },
            DirectoryAction::NextEntry(walk),
        )
    }

    /// The next state and action, after what came of the last action.
    pub fn step(self, event: DirectoryEvent<String>) -> (r: (
        DirectoryCopy<String>,
        DirectoryAction<String>,
    ))
        requires
            self@.expects(event@),
        ensures
            (r.0@, r.1@) == self@.after(event@),
            r.1@ matches DirectoryAction::CopyEntry(entry, _) ==> (takes_names(
                self@.job.destination,
            ) ==> is_moved(
                self@.job.source,
                self@.job.destination,
                entry.source,
                Some(entry.destination),
            )),
    {
        match (self.stage, event) {
            (DirectoryStage::ProbingGit, DirectoryEvent::Exists(exists)) => match exists {
                Some(true) => {
                    let copy = DirectoryCopy { git: true, ..self };
                    copy.walk_on(Walk::Files)
                },
                Some(false) => {
                    let path = join(self.job.source.as_str(), ".git");
                    (
                        DirectoryCopy { stage: DirectoryStage::CheckingGitLink, ..self },
                        DirectoryAction::CheckSymlink(path),
                    )
                },
                None => {
                    let path = join(self.job.source.as_str(), ".git");
                    self.finish(Err(CopyError::NotInspected(path)))
                },
            },
            (DirectoryStage::CheckingGitLink, DirectoryEvent::Symlink(symlink)) => {
                let copy = DirectoryCopy { git: symlink, ..self };
                copy.walk_on(Walk::Files)
            },
            (DirectoryStage::Walking, DirectoryEvent::Entry { path, kind }) => {
                let path = match path {
                    Some(path) => path,
                    None => {
                        return self.finish(Err(CopyError::EntryNotUtf8));
                    },
                };
                let destination = destination_path(
                    self.job.destination.as_str(),
                    path.as_str(),
                    self.job.source.as_str(),
                );
                match (destination, kind) {
                    (Some(destination), Some(kind)) => {
                        let job = self.job.copy();
                        (
                            DirectoryCopy { stage: DirectoryStage::CopyingEntry, ..self },
                            DirectoryAction::CopyEntry(
                                CopyJob { source: path, destination, ..job },
                                kind,
                            ),
                        )
                    },
                    (Some(_), None) => self.finish(Err(CopyError::UnknownFileType(path))),
                    (None, _) => {
                        let root = self.job.source.clone();
                        self.finish(Err(CopyError::EntryOutside { path, root }))
                    },
                }
            },
            (DirectoryStage::Walking, DirectoryEvent::InvalidEntry) => self.finish(
                Err(CopyError::InvalidEntry),
            ),
            (DirectoryStage::Walking, DirectoryEvent::End) => if self.walk == Walk::Files
                && self.git {
                self.walk_on(Walk::GitMetadata)
            } else {
                let job = self.job.copy();
                (
                    DirectoryCopy { stage: DirectoryStage::CopyingTracked, ..self },
                    DirectoryAction::CopyTracked(job),
                )
            },
            (DirectoryStage::CopyingEntry, DirectoryEvent::Copied(result)) => match result {
                Ok(_) => {
                    let walk = self.walk;
                    self.walk_on(walk)
                },
                Err(error) => self.finish(Err(error)),
            },
            (DirectoryStage::CopyingTracked, DirectoryEvent::Copied(result)) => self.finish(result),
            _ => self.finish(Ok(())),
        }
    }
}

/// How many steps a stage can be from the end, where the walks have no more entries.
pub open spec fn distance(copy: DirectoryCopy<Seq<char>>) -> int {
    match copy.stage {
        DirectoryStage::ProbingGit => 6,
        DirectoryStage::CheckingGitLink => 5,
        DirectoryStage::CopyingEntry => 4,
        DirectoryStage::Walking => if copy.walk == Walk::Files {
            3
        } else {
            2
        },
        DirectoryStage::CopyingTracked => 1,
        DirectoryStage::Finished => 0,
    }
}

/// What the walk at hand comes to next, and what is left of it.
pub open spec fn next_of_walk(entries: Seq<DirectoryEvent<Seq<char>>>) -> (
    DirectoryEvent<Seq<char>>,
    Seq<DirectoryEvent<Seq<char>>>,
) {
    if entries.len() == 0 {
        (DirectoryEvent::End, entries)
    } else {
        (entries[0], entries.drop_first())
    }
}

/// What is copied from a state and its action on, in order, and the result, where the two
/// walks come to these entries and each copy succeeds.
pub open spec fn run(
    copy: DirectoryCopy<Seq<char>>,
    action: DirectoryAction<Seq<char>>,
    files: Seq<DirectoryEvent<Seq<char>>>,
    metadata: Seq<DirectoryEvent<Seq<char>>>,
) -> (Seq<DirectoryAction<Seq<char>>>, Result<(), CopyError<Seq<char>>>)
    decreases files.len() + metadata.len(), distance(copy),
{
    match action {
        DirectoryAction::NextEntry(Walk::Files) => {
            let (event, rest) = next_of_walk(files);
            let (next, then) = copy.after(event);
            if copy.stage == DirectoryStage::Walking && copy.walk == Walk::Files {
                run(next, then, rest, metadata)
            } else {
                (seq![], Ok(()))
            }
        },
        DirectoryAction::NextEntry(Walk::GitMetadata) => {
            let (event, rest) = next_of_walk(metadata);
            let (next, then) = copy.after(event);
            if copy.stage == DirectoryStage::Walking && copy.walk == Walk::GitMetadata {
                run(next, then, files, rest)
            } else {
                (seq![], Ok(()))
            }
        },
        DirectoryAction::CopyEntry(..) | DirectoryAction::CopyTracked(_) => {
            let (next, then) = copy.after(DirectoryEvent::Copied(Ok(())));
            if copy.stage == DirectoryStage::CopyingEntry || copy.stage
                == DirectoryStage::CopyingTracked {
                let (copies, result) = run(next, then, files, metadata);
                (seq![action] + copies, result)
            } else {
                (seq![], Ok(()))
            }
        },
        DirectoryAction::Finish(result) => (seq![], result),
        _ => (seq![], Ok(())),
    }
}

/// The copy that an entry of a walk asks for, or why there is none.
pub open spec fn entry_copy(job: CopyJob<Seq<char>>, entry: DirectoryEvent<Seq<char>>) -> Result<
    DirectoryAction<Seq<char>>,
    CopyError<Seq<char>>,
> {
    match entry {
        DirectoryEvent::Entry { path: None, .. } => Err(CopyError::EntryNotUtf8),
        DirectoryEvent::Entry { path: Some(path), kind } => match (
            entry_destination(job.destination, path, job.source),
            kind,
        ) {
            (None, _) => Err(CopyError::EntryOutside { path, root: job.source }),
            (_, None) => Err(CopyError::UnknownFileType(path)),
            (Some(destination), Some(kind)) => Ok(
                DirectoryAction::CopyEntry(CopyJob { source: path, destination, ..job }, kind),
            ),
        },
        _ => Err(CopyError::InvalidEntry),
    }
}

/// The copies that the entries of a walk ask for, up to the first that asks for none.
pub open spec fn walk_copies(
    job: CopyJob<Seq<char>>,
    entries: Seq<DirectoryEvent<Seq<char>>>,
) -> (Seq<DirectoryAction<Seq<char>>>, Result<(), CopyError<Seq<char>>>)
    decreases entries.len(),
{
    if entries.len() == 0 {
        (seq![], Ok(()))
    } else {
        match entry_copy(job, entries[0]) {
            Err(error) => (seq![], Err(error)),
            Ok(copy) => {
                let (copies, result) = walk_copies(job, entries.drop_first());
                (seq![copy] + copies, result)
            },
        }
    }
}

/// All copies of a directory: those of the files, then those of the Git metadata, where there
/// is any, then the tracked files; up to the first failure.
pub open spec fn directory_copies(
    job: CopyJob<Seq<char>>,
    git: bool,
    files: Seq<DirectoryEvent<Seq<char>>>,
    metadata: Seq<DirectoryEvent<Seq<char>>>,
) -> (Seq<DirectoryAction<Seq<char>>>, Result<(), CopyError<Seq<char>>>) {
    let last = DirectoryAction::CopyTracked(job);
    let first = walk_copies(job, files);
    let second = walk_copies(job, metadata);
    if first.1 is Err {
        first
    } else if !git {
        (first.0.push(last), Ok(()))
    } else if second.1 is Err {
        (first.0 + second.0, second.1)
    } else {
        ((first.0 + second.0).push(last), Ok(()))
    }
}

/// The events of a walk are entries and failures.
pub open spec fn is_walk(entries: Seq<DirectoryEvent<Seq<char>>>) -> bool {
    forall|i: int|
        0 <= i < entries.len() ==> (#[trigger] entries[i]) is Entry || entries[i] is InvalidEntry
}

proof fn lemma_walk_drops_first(entries: Seq<DirectoryEvent<Seq<char>>>)
    requires
        is_walk(entries),
        entries.len() > 0,
    ensures
        is_walk(entries.drop_first()),
{
    let rest = entries.drop_first();
    assert forall|i: int| 0 <= i < rest.len() implies (#[trigger] rest[i]) is Entry
        || rest[i] is InvalidEntry by {
        assert(rest[i] == entries[i + 1]);
    }
}

/// The end of a walk through the Git metadata.
proof fn lemma_metadata_is_copied(
    copy: DirectoryCopy<Seq<char>>,
    files: Seq<DirectoryEvent<Seq<char>>>,
    metadata: Seq<DirectoryEvent<Seq<char>>>,
)
    requires
        is_walk(metadata),
    ensures
        ({
            let (walking, action) = copy.walking(Walk::GitMetadata);
            let (copies, result) = walk_copies(copy.job, metadata);
            run(walking, action, files, metadata) == if result is Err {
                (copies, result)
            } else {
                (copies.push(DirectoryAction::CopyTracked(copy.job)), Ok(()))
            }
        }),
    decreases metadata.len(),
{
    reveal_with_fuel(run, 3);
    let (walking, action) = copy.walking(Walk::GitMetadata);
    let (copies, result) = walk_copies(copy.job, metadata);
    let last = DirectoryAction::CopyTracked(copy.job);
    if metadata.len() > 0 {
        lemma_walk_drops_first(metadata);
        assert(metadata[0] is Entry || metadata[0] is InvalidEntry);
        if let Ok(first) = entry_copy(copy.job, metadata[0]) {
            let rest = metadata.drop_first();
            let (copying, then) = walking.after(metadata[0]);
            lemma_metadata_is_copied(copying, files, rest);
            let others = walk_copies(copy.job, rest).0;
            assert((seq![first] + others).push(last) =~= seq![first] + others.push(last));
        }
    } else {
        assert(seq![last] + seq![] =~= copies.push(last));
    }
}

/// A copy of a directory copies exactly the entries of its walks, each to the same place below
/// the copy, and then the tracked files; it fails at the first entry that it cannot copy.
pub proof fn walks_are_copied(
    copy: DirectoryCopy<Seq<char>>,
    files: Seq<DirectoryEvent<Seq<char>>>,
    metadata: Seq<DirectoryEvent<Seq<char>>>,
)
    requires
        is_walk(files),
        is_walk(metadata),
    ensures
        ({
            let (walking, action) = copy.walking(Walk::Files);
            run(walking, action, files, metadata) == directory_copies(
                copy.job,
                copy.git,
                files,
                metadata,
            )
        }),
    decreases files.len(),
{
    reveal_with_fuel(run, 3);
    let (walking, action) = copy.walking(Walk::Files);
    let last = DirectoryAction::CopyTracked(copy.job);
    let second = walk_copies(copy.job, metadata).0;
    if files.len() > 0 {
        lemma_walk_drops_first(files);
        assert(files[0] is Entry || files[0] is InvalidEntry);
        if let Ok(first) = entry_copy(copy.job, files[0]) {
            let rest = files.drop_first();
            let (copying, then) = walking.after(files[0]);
            walks_are_copied(copying, rest, metadata);
            let others = walk_copies(copy.job, rest).0;
            assert((seq![first] + others).push(last) =~= seq![first] + others.push(last));
            assert((seq![first] + others) + second =~= seq![first] + (others + second));
            assert(((seq![first] + others) + second).push(last) =~= seq![first] + (others
                + second).push(last));
        }
    } else if copy.git {
        lemma_metadata_is_copied(walking, files, metadata);
        assert(seq![] + second =~= second);
    } else {
        assert(seq![last] + seq![] =~= Seq::empty().push(last));
    }
}

/// There is Git metadata where `.git` exists or is a symlink, even one that leads nowhere.
pub proof fn git_metadata_is_found(copy: DirectoryCopy<Seq<char>>, symlink: bool)
    requires
        copy.stage == DirectoryStage::ProbingGit,
    ensures
        copy.after(DirectoryEvent::Exists(Some(true))) == (DirectoryCopy {
            git: true,
            ..copy
        }).walking(Walk::Files),
        copy.after(DirectoryEvent::Exists(Some(false))).0.after(DirectoryEvent::Symlink(symlink))
            == (DirectoryCopy { git: symlink, ..copy }).walking(Walk::Files),
{
}

/// A copy of a directory begins with the question whether it is one. What is none is refused, and
/// so is a path without a last component; otherwise its copy is called like it.
pub proof fn directories_are_copied_under_their_names(
    from: &str,
    to: &str,
    start: (DirCopy<String>, CopyAction<String>),
    is_dir: bool,
    r: (DirCopy<String>, CopyAction<String>),
)
    requires
        call_ensures(DirCopy::<String>::start, (from, to), start),
        call_ensures(DirCopy::<String>::step, (start.0, CopyEvent::Answer(is_dir)), r),
    ensures
        start.1@ == CopyAction::CheckDirectory(from@),
        !is_dir ==> r.1@ == CopyAction::Finish(Err(CopyError::NotADirectory(from@))),
        is_dir && path_components(from@).len() == 0 ==> r.1@ == CopyAction::Finish(
            Err(CopyError::InvalidPath(from@)),
        ),
        is_dir && path_components(from@).len() > 0 ==> {
            let target = joined_path(to@, path_components(from@).last());
            &&& r.1@ == CopyAction::Probe(target)
            &&& r.0@ == (DirCopy {
                from: from@,
                to: to@,
                target,
                stage: CopyStage::ProbingTarget,
            })
        },
{
}

/// The target is created where it is missing, and then the directory is copied into it, as the
/// root of the copy; what comes of that is the result.
pub proof fn target_is_created_and_filled(
    copy: DirCopy<String>,
    event: CopyEvent<String>,
    r: (DirCopy<String>, CopyAction<String>),
)
    requires
        copy@.expects(event@),
        call_ensures(DirCopy::<String>::step, (copy, event), r),
    ensures
        ({
            let fill = CopyAction::CopyDirectory(
                CopyJob {
                    root_from: copy.from@,
                    root_to: copy.target@,
                    source: copy.from@,
                    destination: copy.target@,
                },
            );
            &&& copy.stage == CopyStage::ProbingTarget && event@ == CopyEvent::<
                Seq<char>,
            >::Answer(true) ==> r.1@ == fill && r.0@.stage == CopyStage::Copying
            &&& copy.stage == CopyStage::ProbingTarget && event@ == CopyEvent::<
                Seq<char>,
            >::Answer(false) ==> r.1@ == CopyAction::CreateDirAll(copy.target@) && r.0@ == (DirCopy {
                stage: CopyStage::CreatingTarget,
                ..copy@
            })
            &&& copy.stage == CopyStage::CreatingTarget && event@ == CopyEvent::<
                Seq<char>,
            >::Created(true) ==> r.1@ == fill && r.0@.stage == CopyStage::Copying
            &&& copy.stage == CopyStage::CreatingTarget && event@ == CopyEvent::<
                Seq<char>,
            >::Created(false) ==> r.1@ == CopyAction::Finish(
                Err(CopyError::NotCreated(copy.target@)),
            )
            &&& copy.stage == CopyStage::Copying ==> (event@ matches CopyEvent::Copied(result)
                ==> r.1@ == CopyAction::Finish(result))
        }),
{
}

/// The copy of a directory goes from state to state as [`DirCopy::after`] says.
pub proof fn copy_goes_on_by_its_state(
    copy: DirCopy<String>,
    event: CopyEvent<String>,
    r: (DirCopy<String>, CopyAction<String>),
)
    requires
        call_ensures(DirCopy::<String>::step, (copy, event), r),
    ensures
        (r.0@, r.1@) == copy@.after(event@),
{
}

/// What is left of the path of an entry below the copied directory is put behind the copy; what is
/// not below it has no place there.
pub proof fn entries_are_put_behind_the_copy(to: &str, path: &str, from: &str, r: Option<String>)
    requires
        call_ensures(destination_path, (to, path, from), r),
    ensures
        r is Some <==> path_below(path@, from@) is Some,
        path_below(path@, from@) matches Some(rest) ==> r->0@ == joined_path(to@, rest),
{
}

/// Hidden files are copied, and ignore files other than those of Git are passed by. The files are
/// walked by the rules of the repository and of the directories above, but not by those of the
/// user; the Git metadata is walked without rules. The `.git` of the directory itself is walked
/// apart.
pub proof fn walks_go_by_the_rules_of_the_repository(
    walk: Walk,
    rules: WalkRules,
    depth: usize,
    file_name: &str,
    walked: bool,
)
    requires
        call_ensures(walk_rules, (walk,), rules),
        call_ensures(is_walked, (walk, depth, file_name), walked),
    ensures
        !rules.hidden,
        !rules.ignore,
        !rules.git_global,
        rules.git_ignore <==> walk == Walk::Files,
        rules.git_exclude <==> walk == Walk::Files,
        rules.parents <==> walk == Walk::Files,
        rules.root_git <==> walk == Walk::Files,
        walked <==> !(walk == Walk::Files && depth == 1 && file_name@ == ".git"@),
{
}

/// A copy of what a directory holds begins with its `.git`. That counts as there where it exists
/// or is a symlink; where it cannot be inspected, the copy fails. Then the files are walked.
pub proof fn git_metadata_is_looked_for_first(
    job: CopyJob<String>,
    start: (DirectoryCopy<String>, DirectoryAction<String>),
    symlink: bool,
)
    requires
        call_ensures(DirectoryCopy::<String>::start, (job,), start),
    ensures
        ({
            let git = joined_path(job.source@, ".git"@);
            let begun = start.0@;
            let (found, walk) = begun.after(DirectoryEvent::Exists(Some(true)));
            let (checking, check) = begun.after(DirectoryEvent::Exists(Some(false)));
            let (checked, walk_checked) = checking.after(DirectoryEvent::Symlink(symlink));
            let files = DirectoryAction::<Seq<char>>::NextEntry(Walk::Files);
            &&& start.1@ == DirectoryAction::Probe(git)
            &&& begun.job == job@
            &&& begun.after(DirectoryEvent::Exists(None)).1 == DirectoryAction::Finish(
                Err(CopyError::NotInspected(git)),
            )
            &&& walk == files
            &&& found == (DirectoryCopy {
                job: job@,
                git: true,
                walk: Walk::Files,
                stage: DirectoryStage::Walking,
            })
            &&& check == DirectoryAction::CheckSymlink(git)
            &&& walk_checked == files
            &&& checked == (DirectoryCopy {
                job: job@,
                git: symlink,
                walk: Walk::Files,
                stage: DirectoryStage::Walking,
            })
        }),
{
}

/// The copy of what a directory holds goes from state to state as [`DirectoryCopy::after`] says.
pub proof fn directory_copy_goes_on_by_its_state(
    copy: DirectoryCopy<String>,
    event: DirectoryEvent<String>,
    r: (DirectoryCopy<String>, DirectoryAction<String>),
)
    requires
        call_ensures(DirectoryCopy::<String>::step, (copy, event), r),
    ensures
        (r.0@, r.1@) == copy@.after(event@),
{
}

/// Each entry of a walk is copied to the same place below the copy, with the roots of the whole
/// copy, as what it is; then the walk goes on. An entry that is not below the directory, has no
/// UTF-8 path or is of unknown kind ends the copy, and so does a walk that fails.
pub proof fn entries_of_a_walk_are_copied(
    copy: DirectoryCopy<Seq<char>>,
    path: Seq<char>,
    kind: Option<FileKind>,
    error: CopyError<Seq<char>>,
)
    requires
        copy.stage == DirectoryStage::Walking,
    ensures
        ({
            let entry = DirectoryEvent::Entry { path: Some(path), kind };
            let (copying, action) = copy.after(entry);
            &&& path_below(path, copy.job.source) is None ==> action == DirectoryAction::Finish(
                Err(CopyError::EntryOutside { path, root: copy.job.source }),
            )
            &&& path_below(path, copy.job.source) is Some && kind is None ==> action
                == DirectoryAction::Finish(Err(CopyError::UnknownFileType(path)))
            &&& path_below(path, copy.job.source) is Some && kind is Some ==> {
                &&& action == DirectoryAction::CopyEntry(
                    CopyJob {
                        root_from: copy.job.root_from,
                        root_to: copy.job.root_to,
                        source: path,
                        destination: joined_path(
                            copy.job.destination,
                            path_below(path, copy.job.source)->0,
                        ),
                    },
                    kind->0,
                )
                &&& copying.after(DirectoryEvent::Copied(Ok(()))) == (
                    copy,
                    DirectoryAction::<Seq<char>>::NextEntry(copy.walk),
                )
                &&& copying.after(DirectoryEvent::Copied(Err(error))).1 == DirectoryAction::Finish(
                    Err(error),
                )
            }
            &&& copy.after(DirectoryEvent::Entry { path: None, kind }).1 == DirectoryAction::Finish(
                Err(CopyError::<Seq<char>>::EntryNotUtf8),
            )
            &&& copy.after(DirectoryEvent::InvalidEntry).1 == DirectoryAction::Finish(
                Err(CopyError::<Seq<char>>::InvalidEntry),
            )
        }),
{
}

/// Behind the files the Git metadata is walked, where there is any, and behind that the tracked
/// files are copied; what comes of these is the result.
pub proof fn metadata_and_tracked_files_follow(
    copy: DirectoryCopy<Seq<char>>,
    result: Result<(), CopyError<Seq<char>>>,
)
    requires
        copy.stage == DirectoryStage::Walking,
    ensures
        ({
            let (next, following) = copy.after(DirectoryEvent::End);
            if copy.walk == Walk::Files && copy.git {
                &&& following == DirectoryAction::<Seq<char>>::NextEntry(Walk::GitMetadata)
                &&& next == (DirectoryCopy { walk: Walk::GitMetadata, ..copy })
            } else {
                &&& following == DirectoryAction::CopyTracked(copy.job)
                &&& next.after(DirectoryEvent::Copied(result)).1 == DirectoryAction::Finish(result)
            }
        }),
{
}

/// The copy goes on from each state, whatever comes of its action.
pub proof fn copy_takes_what_can_come(copy: DirCopy<String>, event: CopyEvent<String>)
    ensures
        match copy.stage {
            CopyStage::CheckingSource | CopyStage::ProbingTarget => event is Answer,
            CopyStage::CreatingTarget => event is Created,
            CopyStage::Copying => event is Copied,
            CopyStage::Finished => false,
        } ==> call_requires(DirCopy::<String>::step, (copy, event)),
{
}

/// The copy goes on from each state, whatever comes of its action.
pub proof fn directory_copy_takes_what_can_come(copy: DirectoryCopy<String>, event: DirectoryEvent<String>)
    ensures
        match copy.stage {
            DirectoryStage::ProbingGit => event is Exists,
            DirectoryStage::CheckingGitLink => event is Symlink,
            DirectoryStage::Walking => event is Entry || event is InvalidEntry || event is End,
            DirectoryStage::CopyingEntry | DirectoryStage::CopyingTracked => event is Copied,
            DirectoryStage::Finished => false,
        } ==> call_requires(DirectoryCopy::<String>::step, (copy, event)),
{
}

}
