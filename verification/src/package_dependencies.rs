//! Which dependencies of a package have to follow the packages that are updated.

use crate::manifest::{
    dependencies, dependency_views, path_dependencies, DepKind, PathDependency, PathDependencyView,
};
use crate::package::Package;
use crate::path::{parent, parent_path, paths_equal, same_path};
use crate::toml_tree::{optional_view, parse_toml, parsed_toml, InvalidToml, Toml};
use vstd::prelude::*;

verus! {

/// What becomes of a version requirement when the package it is about is updated.
#[derive(Debug, Clone, Copy, PartialEq, Eq, Structural)]
pub enum RequirementUpgrade {
    /// It stays as it is.
    Unchanged,
    /// It has to be rewritten.
    Rewritten,
    /// It is not a version requirement.
    Invalid,
}

/// Why it cannot be said which dependencies have to follow.
#[derive(Debug)]
pub enum DependencyError {
    /// The directory of an updated package cannot be found.
    PackageNotLocated(usize),
    /// A dependency on an updated package has an invalid requirement.
    InvalidRequirement { requirement: String, package: usize },
}

/// The model of a [`DependencyError`].
pub enum DependencyErrorView {
    PackageNotLocated(int),
    InvalidRequirement { requirement: Seq<char>, package: int },
}

impl View for DependencyError {
    type V = DependencyErrorView;

    open spec fn view(&self) -> DependencyErrorView {
        match self {
            DependencyError::PackageNotLocated(package) => DependencyErrorView::PackageNotLocated(
                *package as int,
            ),
            DependencyError::InvalidRequirement { requirement, package } => {
                DependencyErrorView::InvalidRequirement {
                    requirement: requirement@,
                    package: *package as int,
                }
            },
        }
    }
}

/// The model of a list of indices.
pub open spec fn indices(list: Seq<usize>) -> Seq<int> {
    list.map_values(|index: usize| index as int)
}

/// The model of the result of a scan.
pub open spec fn scan_result(result: Result<Vec<usize>, DependencyError>) -> Result<
    Seq<int>,
    DependencyErrorView,
> {
    match result {
        Ok(list) => Ok(indices(list@)),
        Err(error) => Err(error@),
    }
}

/// What the caller is asked to do for a scan. Updated packages are named by their index.
#[derive(Debug)]
pub enum ScanAction {
    /// Say where the directory of an updated package is, in canonical form.
    LocatePackage(usize),
    /// Say what the canonical form of this path is.
    Canonicalize(String),
    /// Say what becomes of a requirement when it has to admit the next version of a package.
    Upgrade { requirement: String, package: usize },
    /// Nothing more: the updated packages that the dependencies have to follow.
    Finish(Result<Vec<usize>, DependencyError>),
}

/// The model of a [`ScanAction`].
pub enum ScanActionView {
    LocatePackage(int),
    Canonicalize(Seq<char>),
    Upgrade { requirement: Seq<char>, package: int },
    Finish(Result<Seq<int>, DependencyErrorView>),
}

impl View for ScanAction {
    type V = ScanActionView;

    open spec fn view(&self) -> ScanActionView {
        match self {
            ScanAction::LocatePackage(package) => ScanActionView::LocatePackage(*package as int),
            ScanAction::Canonicalize(path) => ScanActionView::Canonicalize(path@),
            ScanAction::Upgrade { requirement, package } => ScanActionView::Upgrade {
                requirement: requirement@,
                package: *package as int,
            },
            ScanAction::Finish(result) => ScanActionView::Finish(scan_result(*result)),
        }
    }
}

/// What came of a [`ScanAction`]. `S` is the type of a text.
#[derive(Debug)]
pub enum ScanEvent<S> {
    /// A canonical path; `None` where there is none.
    Located(Option<S>),
    /// What becomes of a requirement.
    Upgraded(RequirementUpgrade),
}

impl View for ScanEvent<String> {
    type V = ScanEvent<Seq<char>>;

    open spec fn view(&self) -> ScanEvent<Seq<char>> {
        match self {
            ScanEvent::Located(path) => ScanEvent::Located(crate::text::optional_text(*path)),
            ScanEvent::Upgraded(upgrade) => ScanEvent::Upgraded(*upgrade),
        }
    }
}

/// How far a scan is.
#[derive(Debug, Clone, Copy, PartialEq, Eq, Structural)]
pub enum ScanStage {
    /// Where is the updated package?
    LocatingPackage,
    /// Where is the dependency?
    LocatingDependency,
    /// What becomes of the requirement?
    Upgrading,
    Finished,
}

/// A scan of the dependencies of a package for those that refer to updated packages.
#[derive(Debug)]
pub struct DependencyScan {
    dependencies: Vec<PathDependency>,
    /// How many packages are updated.
    updated: usize,
    /// Dependencies without a requirement count as well, where they are part of what is
    /// released.
    include_versionless: bool,
    /// The updated package at hand.
    package: usize,
    /// Where it is.
    package_path: String,
    /// The dependency at hand.
    dependency: usize,
    /// The updated packages found so far that dependencies have to follow.
    selected: Vec<usize>,
    stage: ScanStage,
}

/// The model of a [`DependencyScan`].
#[verifier::ext_equal]
pub struct DependencyScanView {
    pub dependencies: Seq<PathDependencyView>,
    pub updated: int,
    pub include_versionless: bool,
    pub package: int,
    pub package_path: Seq<char>,
    pub dependency: int,
    pub selected: Seq<int>,
    pub stage: ScanStage,
}

impl View for DependencyScan {
    type V = DependencyScanView;

    closed spec fn view(&self) -> DependencyScanView {
        DependencyScanView {
            dependencies: dependency_views(self.dependencies@),
            updated: self.updated as int,
            include_versionless: self.include_versionless,
            package: self.package as int,
            package_path: self.package_path@,
            dependency: self.dependency as int,
            selected: indices(self.selected@),
            stage: self.stage,
        }
    }
}

/// What a dependency without a requirement comes to: it counts for what is released from Git
/// only, and only where it is a part of what is released.
pub open spec fn versionless_counts(include_versionless: bool, kind: DepKind) -> bool {
    include_versionless && kind != DepKind::Development
}

/// Whether a dependency on an updated package means that the dependent package has to be
/// released, where the requirement, if it has one, comes to `upgrade`.
///
/// A dependency with a requirement counts when that has to be rewritten. One without has
/// nothing to rewrite, so it counts only for releases from Git, which follow the dependencies
/// that are part of the released package: not those that only its tests need.
pub fn should_update_dependency(
    dependency: &PathDependency,
    upgrade: RequirementUpgrade,
    include_versionless: bool,
) -> (r: Option<bool>)
    ensures
        r == match dependency@.requirement {
            None => Some(versionless_counts(include_versionless, dependency@.kind)),
            Some(_) => match upgrade {
                RequirementUpgrade::Unchanged => Some(false),
                RequirementUpgrade::Rewritten => Some(true),
                RequirementUpgrade::Invalid => None,
            },
        },
{
    match &dependency.requirement {
        None => Some(include_versionless && dependency.kind != DepKind::Development),
        Some(_) => match upgrade {
            RequirementUpgrade::Unchanged => Some(false),
            RequirementUpgrade::Rewritten => Some(true),
            RequirementUpgrade::Invalid => None,
        },
    }
}

/// A dependency at the canonical path `located` refers to the package at `package_path`.
pub open spec fn refers(located: Option<Seq<char>>, package_path: Seq<char>) -> bool {
    match located {
        Some(path) => same_path(path, package_path),
        None => false,
    }
}

/// Whether a dependency whose canonical path is `located` refers to the package at
/// `package_path`. One that cannot be located refers to none.
pub fn is_dependency_referred_to_package(located: &Option<String>, package_path: &str) -> (r: bool)
    ensures
        r == refers(crate::text::optional_text(*located), package_path@),
{
    match located {
        Some(path) => paths_equal(path.as_str(), package_path),
        None => false,
    }
}

impl DependencyScanView {
    /// What a stage goes with.
    pub open spec fn is_valid(self) -> bool {
        match self.stage {
            ScanStage::LocatingPackage => 0 <= self.package < self.updated,
            ScanStage::LocatingDependency => 0 <= self.package < self.updated && 0
                <= self.dependency < self.dependencies.len(),
            ScanStage::Upgrading => 0 <= self.package < self.updated && 0 <= self.dependency
                < self.dependencies.len() && self.dependencies[self.dependency].requirement is Some,
            ScanStage::Finished => true,
        }
    }

    /// An event that can follow the last action.
    pub open spec fn expects(self, event: ScanEvent<Seq<char>>) -> bool {
        match self.stage {
            ScanStage::LocatingPackage | ScanStage::LocatingDependency => event is Located,
            ScanStage::Upgrading => event is Upgraded,
            ScanStage::Finished => false,
        }
    }

    /// The end, with a result.
    pub open spec fn ending(self, result: Result<Seq<int>, DependencyErrorView>) -> (
        DependencyScanView,
        ScanActionView,
    ) {
        (DependencyScanView { stage: ScanStage::Finished, ..self }, ScanActionView::Finish(result))
    }

    /// Go on with an updated package; end behind the last one.
    pub open spec fn visiting(self, package: int) -> (DependencyScanView, ScanActionView) {
        if package < self.updated {
            (
                DependencyScanView { stage: ScanStage::LocatingPackage, package, ..self },
                ScanActionView::LocatePackage(package),
            )
        } else {
            self.ending(Ok(self.selected))
        }
    }

    /// Go on with a dependency; behind the last one, with the next package.
    pub open spec fn scanning(self, dependency: int) -> (DependencyScanView, ScanActionView) {
        if dependency < self.dependencies.len() {
            (
                DependencyScanView { stage: ScanStage::LocatingDependency, dependency, ..self },
                ScanActionView::Canonicalize(self.dependencies[dependency].path),
            )
        } else {
            self.visiting(self.package + 1)
        }
    }

    /// The package at hand has to be followed. It is selected once, whatever else refers to it.
    pub open spec fn selecting(self) -> (DependencyScanView, ScanActionView) {
        (DependencyScanView { selected: self.selected.push(self.package), ..self }).visiting(
            self.package + 1,
        )
    }

    /// The next state and action.
    pub open spec fn after(self, event: ScanEvent<Seq<char>>) -> (
        DependencyScanView,
        ScanActionView,
    ) {
        let dependency = self.dependencies[self.dependency];
        match (self.stage, event) {
            (ScanStage::LocatingPackage, ScanEvent::Located(located)) => match located {
                Some(package_path) => (DependencyScanView { package_path, ..self }).scanning(0),
                None => self.ending(Err(DependencyErrorView::PackageNotLocated(self.package))),
            },
            (ScanStage::LocatingDependency, ScanEvent::Located(located)) => {
                if !refers(located, self.package_path) {
                    self.scanning(self.dependency + 1)
                } else {
                    match dependency.requirement {
                        Some(requirement) => (
                            DependencyScanView { stage: ScanStage::Upgrading, ..self },
                            ScanActionView::Upgrade { requirement, package: self.package },
                        ),
                        None => if versionless_counts(self.include_versionless, dependency.kind) {
                            self.selecting()
                        } else {
                            self.scanning(self.dependency + 1)
                        },
                    }
                }
            },
            (ScanStage::Upgrading, ScanEvent::Upgraded(upgrade)) => match upgrade {
                RequirementUpgrade::Rewritten => self.selecting(),
                RequirementUpgrade::Unchanged => self.scanning(self.dependency + 1),
                RequirementUpgrade::Invalid => self.ending(
                    Err(
                        DependencyErrorView::InvalidRequirement {
                            requirement: dependency.requirement->0,
                            package: self.package,
                        },
                    ),
                ),
            },
            _ => self.ending(Ok(self.selected)),
        }
    }
}

impl DependencyScan {
    /// The scan of `dependencies` for the first `updated` packages, and the first action.
    pub fn start(dependencies: Vec<PathDependency>, updated: usize, include_versionless: bool) -> (r: (
        DependencyScan,
        ScanAction,
    ))
        ensures
            (r.0@, r.1@) == (DependencyScanView {
                dependencies: dependency_views(dependencies@),
                updated: updated as int,
                include_versionless,
                package: 0,
                package_path: seq![],
                dependency: 0,
                selected: seq![],
                stage: ScanStage::Finished,
            }).visiting(0),
            r.0@.is_valid(),
    {
        let scan = DependencyScan {
            dependencies,
            updated,
            include_versionless,
            package: 0,
            package_path: String::new(),
            dependency: 0,
            selected: Vec::new(),
            stage: ScanStage::Finished,
        };
        assert(scan@.selected =~= seq![]);
        scan.visit(0)
    }

    fn finish(self, result: Result<Vec<usize>, DependencyError>) -> (r: (DependencyScan, ScanAction))
        ensures
            (r.0@, r.1@) == self@.ending(scan_result(result)),
            r.0@.is_valid(),
    {
        (DependencyScan { stage: ScanStage::Finished, ..self }, ScanAction::Finish(result))
    }

    fn visit(self, package: usize) -> (r: (DependencyScan, ScanAction))
        ensures
            (r.0@, r.1@) == self@.visiting(package as int),
            r.0@.is_valid(),
    {
        if package < self.updated {
            (
                DependencyScan { stage: ScanStage::LocatingPackage, package, ..self },
                ScanAction::LocatePackage(package),
            )
        } else {
            let mut selected: Vec<usize> = Vec::new();
            let mut i: usize = 0;
            while i < self.selected.len()
                invariant
                    i <= self.selected@.len(),
                    selected@ =~= self.selected@.take(i as int),
                decreases self.selected@.len() - i,
            {
                selected.push(self.selected[i]);
                i += 1;
            }
            assert(selected@ =~= self.selected@);
            self.finish(Ok(selected))
        }
    }

    fn scan(self, dependency: usize) -> (r: (DependencyScan, ScanAction))
        requires
            self.package < self.updated,
        ensures
            (r.0@, r.1@) == self@.scanning(dependency as int),
            r.0@.is_valid(),
    {
        if dependency < self.dependencies.len() {
            let path = self.dependencies[dependency].path.clone();
            assert(path@ == self@.dependencies[dependency as int].path);
            (
                DependencyScan { stage: ScanStage::LocatingDependency, dependency, ..self },
                ScanAction::Canonicalize(path),
            )
        } else {
            let next: usize = self.package + 1;
            self.visit(next)
        }
    }

    fn select(self) -> (r: (DependencyScan, ScanAction))
        requires
            self.package < self.updated,
        ensures
            (r.0@, r.1@) == self@.selecting(),
            r.0@.is_valid(),
    {
        let next: usize = self.package + 1;
        let ghost before = self@;
        let mut selected = self.selected;
        selected.push(self.package);
        let scan = DependencyScan { selected, ..self };
        assert(scan@.selected =~= before.selected.push(before.package));
        scan.visit(next)
    }

    /// The next state and action, after what came of the last action.
    pub fn step(self, event: ScanEvent<String>) -> (r: (DependencyScan, ScanAction))
        requires
            self@.is_valid(),
            self@.expects(event@),
        ensures
            (r.0@, r.1@) == self@.after(event@),
            r.0@.is_valid(),
    {
        match (self.stage, event) {
            (ScanStage::LocatingPackage, ScanEvent::Located(located)) => match located {
                Some(package_path) => {
                    let scan = DependencyScan { package_path, ..self };
                    scan.scan(0)
                },
                None => {
                    let package: usize = self.package;
                    self.finish(Err(DependencyError::PackageNotLocated(package)))
                },
            },
            (ScanStage::LocatingDependency, ScanEvent::Located(located)) => {
                let count: usize = self.dependencies.len();
                assert(self.dependency < count);
                let next: usize = self.dependency + 1;
                let ghost dependency = self@.dependencies[self.dependency as int];
                assert(dependency == self.dependencies@[self.dependency as int]@);
                if !is_dependency_referred_to_package(&located, self.package_path.as_str()) {
                    return self.scan(next);
                }
                match &self.dependencies[self.dependency].requirement {
                    Some(requirement) => {
                        let action = ScanAction::Upgrade {
                            requirement: requirement.clone(),
                            package: self.package,
                        };
                        (DependencyScan { stage: ScanStage::Upgrading, ..self }, action)
                    },
                    None => {
                        let counts = should_update_dependency(
                            &self.dependencies[self.dependency],
                            RequirementUpgrade::Unchanged,
                            self.include_versionless,
                        );
                        match counts {
                            Some(true) => self.select(),
                            _ => self.scan(next),
                        }
                    },
                }
            },
            (ScanStage::Upgrading, ScanEvent::Upgraded(upgrade)) => {
                let count: usize = self.dependencies.len();
                assert(self.dependency < count);
                let next: usize = self.dependency + 1;
                let ghost dependency = self@.dependencies[self.dependency as int];
                assert(dependency == self.dependencies@[self.dependency as int]@);
                let counts = should_update_dependency(
                    &self.dependencies[self.dependency],
                    upgrade,
                    self.include_versionless,
                );
                match counts {
                    Some(true) => self.select(),
                    Some(false) => self.scan(next),
                    None => {
                        let package: usize = self.package;
                        let requirement = match &self.dependencies[self.dependency].requirement {
                            Some(requirement) => requirement.clone(),
                            None => String::new(),
                        };
                        self.finish(
                            Err(DependencyError::InvalidRequirement { requirement, package }),
                        )
                    },
                }
            },
            _ => self.finish(Ok(Vec::new())),
        }
    }
}

/// Why the dependencies of a package cannot be read.
#[derive(Debug)]
pub enum ManifestError {
    /// The manifest is not TOML.
    Invalid(InvalidToml),
    /// The manifest at this path has no directory.
    NoDirectory(String),
}

/// What has dependencies on other packages.
pub trait PackageDependencies {
    /// Where its manifest is.
    spec fn manifest(&self) -> Seq<char>;

    /// Starts the scan of the dependencies that `manifest`, the text of the manifest,
    /// declares, for those that have to follow the first `updated` packages. Releases from
    /// Git only also follow dependencies without version requirements.
    fn dependencies_to_update(
        &self,
        manifest: &str,
        updated: usize,
        workspace_dependencies: Option<&Toml>,
        workspace_dir: &str,
        include_versionless: bool,
    ) -> (r: Result<(DependencyScan, ScanAction), ManifestError>)
        ensures
            r is Ok <==> parsed_toml(manifest@) is Some && parent_path(self.manifest()) is Some,
            r matches Ok((scan, action)) ==> (scan@, action@) == (DependencyScanView {
                dependencies: dependencies(
                    parsed_toml(manifest@)->0,
                    optional_view(workspace_dependencies),
                    parent_path(self.manifest())->0,
                    workspace_dir@,
                ),
                updated: updated as int,
                include_versionless,
                package: 0,
                package_path: seq![],
                dependency: 0,
                selected: seq![],
                stage: ScanStage::Finished,
            }).visiting(0) && scan@.is_valid(),
            r matches Err(ManifestError::Invalid(_)) <==> parsed_toml(manifest@) is None,
            r matches Err(ManifestError::NoDirectory(path)) ==> path@ == self.manifest(),
    ;
}

impl PackageDependencies for Package {
    open spec fn manifest(&self) -> Seq<char> {
        self@.manifest_path
    }

    fn dependencies_to_update(
        &self,
        manifest: &str,
        updated: usize,
        workspace_dependencies: Option<&Toml>,
        workspace_dir: &str,
        include_versionless: bool,
    ) -> (r: Result<(DependencyScan, ScanAction), ManifestError>) {
        let manifest = match parse_toml(manifest) {
            Ok(manifest) => manifest,
            Err(error) => {
                return Err(ManifestError::Invalid(error));
            },
        };
        match parent(self.manifest_path.as_str()) {
            Some(package_dir) => {
                let dependencies = path_dependencies(
                    &manifest,
                    workspace_dependencies,
                    package_dir.as_str(),
                    workspace_dir,
                );
                Ok(DependencyScan::start(dependencies, updated, include_versionless))
            },
            None => Err(ManifestError::NoDirectory(self.manifest_path.clone())),
        }
    }
}

/// What a scan is told, where that does not change meanwhile.
pub struct Answers {
    /// Where an updated package is.
    pub package: spec_fn(int) -> Option<Seq<char>>,
    /// The canonical form of a path.
    pub canonical: spec_fn(Seq<char>) -> Option<Seq<char>>,
    /// What becomes of a requirement on an updated package.
    pub upgrade: spec_fn(Seq<char>, int) -> RequirementUpgrade,
}

impl Answers {
    /// What comes of an action.
    pub open spec fn event(self, action: ScanActionView) -> ScanEvent<Seq<char>> {
        match action {
            ScanActionView::LocatePackage(package) => ScanEvent::Located((self.package)(package)),
            ScanActionView::Canonicalize(path) => ScanEvent::Located((self.canonical)(path)),
            ScanActionView::Upgrade { requirement, package } => ScanEvent::Upgraded(
                (self.upgrade)(requirement, package),
            ),
            ScanActionView::Finish(_) => ScanEvent::Located(None),
        }
    }
}

/// How many kinds of stages are left for the package at hand.
pub open spec fn distance(stage: ScanStage) -> int {
    match stage {
        ScanStage::LocatingPackage => 2,
        ScanStage::LocatingDependency | ScanStage::Upgrading => 1,
        ScanStage::Finished => 0,
    }
}

/// The result of a scan, from a state and its action on.
pub open spec fn run(scan: DependencyScanView, action: ScanActionView, answers: Answers) -> Result<
    Seq<int>,
    DependencyErrorView,
>
    decreases
            scan.updated - scan.package,
            distance(scan.stage),
            scan.dependencies.len() - scan.dependency,
            if scan.stage == ScanStage::LocatingDependency {
                1int
            } else {
                0int
            },
{
    match action {
        ScanActionView::Finish(result) => result,
        _ => if scan.stage == ScanStage::Finished {
            Ok(scan.selected)
        } else {
            let (next, then) = scan.after(answers.event(action));
            run(next, then, answers)
        },
    }
}

/// What a dependency says of an updated package.
pub enum Verdict {
    /// It need not follow the package, or it does not refer to it.
    Stay,
    /// It has to follow the package.
    Follow,
    /// Its requirement is invalid.
    Invalid(Seq<char>),
}

/// What a dependency says of the updated package at `package_path`.
pub open spec fn verdict(
    answers: Answers,
    include_versionless: bool,
    dependency: PathDependencyView,
    package: int,
    package_path: Seq<char>,
) -> Verdict {
    if !refers((answers.canonical)(dependency.path), package_path) {
        Verdict::Stay
    } else {
        match dependency.requirement {
            None => if versionless_counts(include_versionless, dependency.kind) {
                Verdict::Follow
            } else {
                Verdict::Stay
            },
            Some(requirement) => match (answers.upgrade)(requirement, package) {
                RequirementUpgrade::Unchanged => Verdict::Stay,
                RequirementUpgrade::Rewritten => Verdict::Follow,
                RequirementUpgrade::Invalid => Verdict::Invalid(requirement),
            },
        }
    }
}

impl DependencyScanView {
    /// What dependency `i` says of an updated package.
    pub open spec fn verdict_of(
        self,
        answers: Answers,
        i: int,
        package: int,
        package_path: Seq<char>,
    ) -> Verdict {
        verdict(answers, self.include_versionless, self.dependencies[i], package, package_path)
    }

    /// The first of the dependencies from `from` on that does not stay decides.
    pub open spec fn decision(
        self,
        answers: Answers,
        package: int,
        package_path: Seq<char>,
        from: int,
    ) -> Verdict
        decreases self.dependencies.len() - from,
    {
        if from >= self.dependencies.len() {
            Verdict::Stay
        } else {
            match self.verdict_of(answers, from, package, package_path) {
                Verdict::Stay => self.decision(answers, package, package_path, from + 1),
                decided => decided,
            }
        }
    }

    /// The updated packages from `package` on that the dependencies have to follow, behind
    /// those that are selected; or the first error.
    pub open spec fn outcome(self, answers: Answers, package: int, selected: Seq<int>) -> Result<
        Seq<int>,
        DependencyErrorView,
    >
        decreases self.updated - package,
    {
        if package >= self.updated {
            Ok(selected)
        } else {
            match (answers.package)(package) {
                None => Err(DependencyErrorView::PackageNotLocated(package)),
                Some(path) => match self.decision(answers, package, path, 0) {
                    Verdict::Stay => self.outcome(answers, package + 1, selected),
                    Verdict::Follow => self.outcome(answers, package + 1, selected.push(package)),
                    Verdict::Invalid(requirement) => Err(
                        DependencyErrorView::InvalidRequirement { requirement, package },
                    ),
                },
            }
        }
    }

    /// The two scans are about the same packages and dependencies.
    pub open spec fn is_about(self, other: DependencyScanView) -> bool {
        &&& self.dependencies == other.dependencies
        &&& self.updated == other.updated
        &&& self.include_versionless == other.include_versionless
    }
}

proof fn lemma_decision_depends_on_the_list(
    a: DependencyScanView,
    b: DependencyScanView,
    answers: Answers,
    package: int,
    package_path: Seq<char>,
    from: int,
)
    requires
        a.is_about(b),
    ensures
        a.decision(answers, package, package_path, from) == b.decision(
            answers,
            package,
            package_path,
            from,
        ),
    decreases a.dependencies.len() - from,
{
    if from < a.dependencies.len() {
        lemma_decision_depends_on_the_list(a, b, answers, package, package_path, from + 1);
    }
}

proof fn lemma_outcome_depends_on_the_list(
    a: DependencyScanView,
    b: DependencyScanView,
    answers: Answers,
    package: int,
    selected: Seq<int>,
)
    requires
        a.is_about(b),
    ensures
        a.outcome(answers, package, selected) == b.outcome(answers, package, selected),
    decreases a.updated - package,
{
    if package < a.updated {
        if let Some(path) = (answers.package)(package) {
            lemma_decision_depends_on_the_list(a, b, answers, package, path, 0);
        }
        lemma_outcome_depends_on_the_list(a, b, answers, package + 1, selected);
        lemma_outcome_depends_on_the_list(a, b, answers, package + 1, selected.push(package));
    }
}

/// The result of a scan that goes on with dependency `from` of the package at hand.
pub open spec fn rest_of_scan(scan: DependencyScanView, answers: Answers, from: int) -> Result<
    Seq<int>,
    DependencyErrorView,
> {
    match scan.decision(answers, scan.package, scan.package_path, from) {
        Verdict::Stay => scan.outcome(answers, scan.package + 1, scan.selected),
        Verdict::Follow => scan.outcome(
            answers,
            scan.package + 1,
            scan.selected.push(scan.package),
        ),
        Verdict::Invalid(requirement) => Err(
            DependencyErrorView::InvalidRequirement { requirement, package: scan.package },
        ),
    }
}

proof fn lemma_dependencies_are_scanned(scan: DependencyScanView, answers: Answers, from: int)
    requires
        0 <= scan.package < scan.updated,
        0 <= from <= scan.dependencies.len(),
    ensures
        run(scan.scanning(from).0, scan.scanning(from).1, answers) == rest_of_scan(
            scan,
            answers,
            from,
        ),
    decreases scan.updated - scan.package, 1int, scan.dependencies.len() - from,
{
    reveal_with_fuel(run, 3);
    if from < scan.dependencies.len() {
        let (now, asking) = scan.scanning(from);
        let dependency = scan.dependencies[from];
        let found = scan.verdict_of(answers, from, scan.package, scan.package_path);
        lemma_dependencies_are_scanned(now, answers, from + 1);
        lemma_decision_depends_on_the_list(
            now,
            scan,
            answers,
            scan.package,
            scan.package_path,
            from + 1,
        );
        lemma_outcome_depends_on_the_list(now, scan, answers, scan.package + 1, scan.selected);
        let more = scan.selected.push(scan.package);
        lemma_outcome_depends_on_the_list(now, scan, answers, scan.package + 1, more);
        let upgrading = DependencyScanView { stage: ScanStage::Upgrading, ..now };
        lemma_dependencies_are_scanned(upgrading, answers, from + 1);
        lemma_decision_depends_on_the_list(
            upgrading,
            scan,
            answers,
            scan.package,
            scan.package_path,
            from + 1,
        );
        lemma_outcome_depends_on_the_list(upgrading, scan, answers, scan.package + 1, scan.selected);
        let chosen = DependencyScanView { selected: more, ..now };
        scan_comes_to_its_outcome(chosen, answers, scan.package + 1);
        lemma_outcome_depends_on_the_list(chosen, scan, answers, scan.package + 1, more);
        let chosen = DependencyScanView { selected: more, ..upgrading };
        scan_comes_to_its_outcome(chosen, answers, scan.package + 1);
        lemma_outcome_depends_on_the_list(chosen, scan, answers, scan.package + 1, more);
    } else {
        scan_comes_to_its_outcome(scan, answers, scan.package + 1);
    }
}

/// A scan comes to its outcome: it goes through the updated packages in their order, and for
/// each the first dependency that does not stay decides.
pub proof fn scan_comes_to_its_outcome(scan: DependencyScanView, answers: Answers, package: int)
    requires
        0 <= package,
    ensures
        run(scan.visiting(package).0, scan.visiting(package).1, answers) == scan.outcome(
            answers,
            package,
            scan.selected,
        ),
    decreases scan.updated - package, 2int, 0int,
{
    reveal_with_fuel(run, 2);
    if package < scan.updated {
        if let Some(package_path) = (answers.package)(package) {
            let (now, asking) = scan.visiting(package);
            let located = DependencyScanView { package_path, ..now };
            lemma_dependencies_are_scanned(located, answers, 0);
            lemma_decision_depends_on_the_list(located, scan, answers, package, package_path, 0);
            lemma_outcome_depends_on_the_list(located, scan, answers, package + 1, scan.selected);
            let more = scan.selected.push(package);
            lemma_outcome_depends_on_the_list(located, scan, answers, package + 1, more);
        }
    }
}

/// A dependency has to follow the updated package.
pub open spec fn has_follower(scan: DependencyScanView, answers: Answers, package: int) -> bool {
    exists|i: int|
        0 <= i < scan.dependencies.len() && (answers.package)(package) is Some
            && #[trigger] scan.verdict_of(answers, i, package, (answers.package)(package)->0)
            is Follow
}

proof fn lemma_decision_has_a_reason(
    scan: DependencyScanView,
    answers: Answers,
    package: int,
    package_path: Seq<char>,
    from: int,
)
    requires
        0 <= from,
    ensures
        scan.decision(answers, package, package_path, from) is Follow ==> exists|i: int|
            from <= i < scan.dependencies.len() && #[trigger] scan.verdict_of(
                answers,
                i,
                package,
                package_path,
            ) is Follow,
        scan.decision(answers, package, package_path, from) is Stay ==> forall|i: int|
            from <= i < scan.dependencies.len() ==> #[trigger] scan.verdict_of(
                answers,
                i,
                package,
                package_path,
            ) is Stay,
    decreases scan.dependencies.len() - from,
{
    if from < scan.dependencies.len() {
        lemma_decision_has_a_reason(scan, answers, package, package_path, from + 1);
    }
}

/// Each index is greater than those before it.
pub open spec fn is_increasing(list: Seq<int>) -> bool {
    forall|i: int, j: int| 0 <= i < j < list.len() ==> list[i] < list[j]
}

proof fn lemma_outcome_selects(
    scan: DependencyScanView,
    answers: Answers,
    package: int,
    selected: Seq<int>,
)
    requires
        0 <= package,
        is_increasing(selected),
        forall|k: int| 0 <= k < selected.len() ==> 0 <= #[trigger] selected[k] < package,
        forall|p: int|
            0 <= p < package ==> (selected.contains(p) <==> #[trigger] has_follower(scan, answers, p)),
        package <= scan.updated,
    ensures
        scan.outcome(answers, package, selected) matches Ok(list) ==> is_increasing(list) && (
        forall|p: int|
            0 <= p < scan.updated ==> (list.contains(p) <==> #[trigger] has_follower(
                scan,
                answers,
                p,
            ))) && (forall|k: int| 0 <= k < list.len() ==> 0 <= #[trigger] list[k] < scan.updated),
    decreases scan.updated - package,
{
    if package < scan.updated {
        if let Some(path) = (answers.package)(package) {
            lemma_decision_has_a_reason(scan, answers, package, path, 0);
            match scan.decision(answers, package, path, 0) {
                Verdict::Stay => {
                    assert(!selected.contains(package));
                    assert(!has_follower(scan, answers, package));
                    lemma_outcome_selects(scan, answers, package + 1, selected);
                },
                Verdict::Follow => {
                    let more = selected.push(package);
                    assert(more[selected.len() as int] == package);
                    assert(has_follower(scan, answers, package));
                    assert forall|p: int| 0 <= p < package + 1 implies (more.contains(p)
                        <==> #[trigger] has_follower(scan, answers, p)) by {
                        if p < package {
                            if selected.contains(p) {
                                let k = selected.index_of(p);
                                assert(more[k] == p);
                            }
                            if more.contains(p) {
                                let k = more.index_of(p);
                                assert(selected[k] == p);
                            }
                        }
                    }
                    lemma_outcome_selects(scan, answers, package + 1, more);
                },
                Verdict::Invalid(_) => {},
            }
        }
    }
}

/// Where a scan succeeds, it names an updated package if and only if a dependency has to
/// follow it, and it names each once, in their order.
pub proof fn packages_with_followers_are_named_once(scan: DependencyScanView, answers: Answers)
    requires
        scan.updated >= 0,
        scan.selected == Seq::<int>::empty(),
    ensures
        run(scan.visiting(0).0, scan.visiting(0).1, answers) matches Ok(list) ==> is_increasing(
            list,
        ) && list.no_duplicates() && (forall|p: int|
            0 <= p < scan.updated ==> (list.contains(p) <==> #[trigger] has_follower(
                scan,
                answers,
                p,
            ))) && (forall|k: int| 0 <= k < list.len() ==> 0 <= #[trigger] list[k] < scan.updated),
{
    scan_comes_to_its_outcome(scan, answers, 0);
    lemma_outcome_selects(scan, answers, 0, scan.selected);
}

/// A package that is needed without a requirement, and by tests alone, is not followed.
pub proof fn versionless_test_dependencies_are_not_followed(
    scan: DependencyScanView,
    answers: Answers,
    package: int,
)
    requires
        forall|i: int|
            0 <= i < scan.dependencies.len() ==> (#[trigger] scan.dependencies[i]).requirement
                is None && scan.dependencies[i].kind == DepKind::Development,
    ensures
        !has_follower(scan, answers, package),
{
}

/// Without releases from Git, only a requirement that has to be rewritten makes a dependency
/// follow.
pub proof fn only_rewritten_requirements_are_followed(
    answers: Answers,
    dependency: PathDependencyView,
    package: int,
    package_path: Seq<char>,
)
    ensures
        verdict(answers, false, dependency, package, package_path) is Follow
            <==> dependency.requirement is Some && refers(
            (answers.canonical)(dependency.path),
            package_path,
        ) && (answers.upgrade)(dependency.requirement->0, package) == RequirementUpgrade::Rewritten,
{
}

/// A dependency with a requirement that has to be rewritten is followed, whatever it is
/// needed for.
pub proof fn rewritten_requirements_are_followed(
    answers: Answers,
    include_versionless: bool,
    dependency: PathDependencyView,
    package: int,
    package_path: Seq<char>,
)
    requires
        refers((answers.canonical)(dependency.path), package_path),
        dependency.requirement is Some,
        (answers.upgrade)(dependency.requirement->0, package) == RequirementUpgrade::Rewritten,
    ensures
        verdict(answers, include_versionless, dependency, package, package_path) is Follow,
{
}

/// A dependency with a requirement follows where that has to be rewritten. One without follows
/// where such dependencies count and it is not for tests alone.
pub proof fn dependencies_follow_by_their_requirement(
    dependency: &PathDependency,
    upgrade: RequirementUpgrade,
    include_versionless: bool,
    r: Option<bool>,
)
    requires
        call_ensures(should_update_dependency, (dependency, upgrade, include_versionless), r),
    ensures
        dependency.requirement is None ==> r == Some(
            include_versionless && (dependency.kind == DepKind::Normal || dependency.kind
                == DepKind::Build),
        ),
        dependency.requirement is Some ==> {
            &&& r == Some(true) <==> upgrade == RequirementUpgrade::Rewritten
            &&& r == Some(false) <==> upgrade == RequirementUpgrade::Unchanged
            &&& r is None <==> upgrade == RequirementUpgrade::Invalid
        },
{
}

/// A dependency refers to a package where it is found at the path of the package.
pub proof fn dependencies_refer_by_their_path(
    located: &Option<String>,
    package_path: &str,
    r: bool,
)
    requires
        call_ensures(is_dependency_referred_to_package, (located, package_path), r),
    ensures
        r <==> (*located matches Some(path) && same_path(path@, package_path@)),
{
}

/// The scan goes from state to state as [`DependencyScanView::after`] says.
pub proof fn scan_goes_on_by_its_state(
    scan: DependencyScan,
    event: ScanEvent<String>,
    r: (DependencyScan, ScanAction),
)
    requires
        call_ensures(DependencyScan::step, (scan, event), r),
    ensures
        (r.0@, r.1@) == scan@.after(event@),
{
}

/// A scan begins with the first updated package; without one it ends with none.
pub proof fn scan_begins_with_the_first_package(
    dependencies: Vec<PathDependency>,
    updated: usize,
    include_versionless: bool,
    r: (DependencyScan, ScanAction),
)
    requires
        call_ensures(DependencyScan::start, (dependencies, updated, include_versionless), r),
    ensures
        r.0@.dependencies == dependency_views(dependencies@),
        r.0@.updated == updated,
        r.0@.include_versionless == include_versionless,
        r.0@.selected.len() == 0,
        updated > 0 ==> r.0@.stage == ScanStage::LocatingPackage && r.0@.package == 0 && r.1@
            == ScanActionView::LocatePackage(0),
        updated == 0 ==> r.1@ == ScanActionView::Finish(Ok(seq![])),
{
}

/// A package is scanned for the dependencies that its manifest declares, as seen from the
/// directory of the manifest. What is not TOML is refused, and so is a manifest without a
/// directory.
pub proof fn package_is_scanned_for_what_it_declares(
    package: &Package,
    manifest: &str,
    updated: usize,
    workspace: Option<&Toml>,
    workspace_dir: &str,
    include_versionless: bool,
    r: Result<(DependencyScan, ScanAction), ManifestError>,
)
    requires
        call_ensures(
            <Package as PackageDependencies>::dependencies_to_update,
            (package, manifest, updated, workspace, workspace_dir, include_versionless),
            r,
        ),
    ensures
        r is Ok <==> parsed_toml(manifest@) is Some && parent_path(package.manifest_path@) is Some,
        r matches Err(ManifestError::Invalid(_)) <==> parsed_toml(manifest@) is None,
        r matches Err(ManifestError::NoDirectory(path)) ==> path@ == package.manifest_path@,
        r matches Ok((scan, action)) ==> {
            &&& scan@.dependencies == dependencies(
                parsed_toml(manifest@)->0,
                optional_view(workspace),
                parent_path(package.manifest_path@)->0,
                workspace_dir@,
            )
            &&& scan@.updated == updated
            &&& scan@.include_versionless == include_versionless
            &&& scan@.selected.len() == 0
            &&& updated > 0 ==> scan@.stage == ScanStage::LocatingPackage && scan@.package == 0
                && action@ == ScanActionView::LocatePackage(0)
            &&& updated == 0 ==> action@ == ScanActionView::Finish(Ok(seq![]))
        },
{
}

/// Dependency `i` is found at the path of an updated package.
pub open spec fn is_found_at(
    scan: DependencyScanView,
    answers: Answers,
    i: int,
    package: int,
) -> bool {
    (answers.package)(package) matches Some(package_path) && ((answers.canonical)(
        scan.dependencies[i].path,
    ) matches Some(path) && same_path(path, package_path))
}

/// Dependency `i` makes a package follow an updated package that it refers to.
pub open spec fn is_to_follow(
    scan: DependencyScanView,
    answers: Answers,
    i: int,
    package: int,
) -> bool {
    match scan.dependencies[i].requirement {
        Some(requirement) => (answers.upgrade)(requirement, package)
            == RequirementUpgrade::Rewritten,
        None => scan.include_versionless && (scan.dependencies[i].kind == DepKind::Normal
            || scan.dependencies[i].kind == DepKind::Build),
    }
}

/// A scan that succeeds names an updated package if and only if a dependency is found at its path
/// whose requirement has to be rewritten, or which counts without one. It names each once, in
/// their order.
pub proof fn updated_packages_are_named_for_their_dependencies(
    scan: DependencyScanView,
    answers: Answers,
    action: ScanActionView,
    package: int,
)
    requires
        scan.updated > 0,
        scan.stage == ScanStage::LocatingPackage,
        scan.package == 0,
        scan.selected == Seq::<int>::empty(),
        action == ScanActionView::LocatePackage(0),
        0 <= package < scan.updated,
    ensures
        run(scan, action, answers) matches Ok(list) ==> {
            &&& list.contains(package) <==> exists|i: int|
                0 <= i < scan.dependencies.len() && #[trigger] is_found_at(scan, answers, i, package)
                    && is_to_follow(scan, answers, i, package)
            &&& forall|i: int, j: int| 0 <= i < j < list.len() ==> list[i] < list[j]
            &&& forall|k: int| 0 <= k < list.len() ==> 0 <= #[trigger] list[k] < scan.updated
        },
{
    packages_with_followers_are_named_once(scan, answers);
    assert(scan.visiting(0).0 == scan);
    assert(run(scan.visiting(0).0, scan.visiting(0).1, answers) == run(scan, action, answers));
    if has_follower(scan, answers, package) {
        let i = choose|i: int|
            0 <= i < scan.dependencies.len() && (answers.package)(package) is Some
                && #[trigger] scan.verdict_of(answers, i, package, (answers.package)(package)->0)
                is Follow;
        assert(is_found_at(scan, answers, i, package) && is_to_follow(scan, answers, i, package));
    }
    if exists|i: int|
        0 <= i < scan.dependencies.len() && #[trigger] is_found_at(scan, answers, i, package)
            && is_to_follow(scan, answers, i, package) {
        let i = choose|i: int|
            0 <= i < scan.dependencies.len() && #[trigger] is_found_at(scan, answers, i, package)
                && is_to_follow(scan, answers, i, package);
        assert(scan.verdict_of(answers, i, package, (answers.package)(package)->0) is Follow);
    }
}

/// Dependency `i` is found at the path of an updated package, and has an invalid requirement.
pub open spec fn is_invalid(
    scan: DependencyScanView,
    answers: Answers,
    i: int,
    package: int,
) -> bool {
    is_found_at(scan, answers, i, package) && (scan.dependencies[i].requirement matches Some(
        requirement,
    ) && (answers.upgrade)(requirement, package) == RequirementUpgrade::Invalid)
}

/// A scan fails only for an updated package that is not located, or for an invalid requirement of
/// a dependency that is found at the path of one; where there is neither, it succeeds.
pub proof fn scans_fail_for_a_reason(
    scan: DependencyScanView,
    answers: Answers,
    action: ScanActionView,
)
    requires
        scan.updated > 0,
        scan.stage == ScanStage::LocatingPackage,
        scan.package == 0,
        action == ScanActionView::LocatePackage(0),
    ensures
        match run(scan, action, answers) {
            Ok(_) => forall|p: int|
                0 <= p < scan.updated ==> (#[trigger] (answers.package)(p)) is Some,
            Err(DependencyErrorView::PackageNotLocated(package)) => 0 <= package < scan.updated && (
            answers.package)(package) is None,
            Err(DependencyErrorView::InvalidRequirement { requirement, package }) => exists|i: int|
                0 <= i < scan.dependencies.len() && #[trigger] is_invalid(scan, answers, i, package)
                    && scan.dependencies[i].requirement == Some(requirement) && 0 <= package
                    < scan.updated,
        },
{
    scan_comes_to_its_outcome(scan, answers, 0);
    assert(scan.visiting(0).0 == scan);
    lemma_outcomes_have_a_reason(scan, answers, 0, scan.selected);
}

proof fn lemma_outcomes_have_a_reason(
    scan: DependencyScanView,
    answers: Answers,
    package: int,
    selected: Seq<int>,
)
    requires
        0 <= package,
    ensures
        match scan.outcome(answers, package, selected) {
            Ok(_) => forall|p: int|
                package <= p < scan.updated ==> (#[trigger] (answers.package)(p)) is Some,
            Err(DependencyErrorView::PackageNotLocated(p)) => 0 <= p < scan.updated && (
            answers.package)(p) is None,
            Err(DependencyErrorView::InvalidRequirement { requirement, package: p }) => exists|
                i: int,
            |
                0 <= i < scan.dependencies.len() && #[trigger] is_invalid(scan, answers, i, p)
                    && scan.dependencies[i].requirement == Some(requirement) && 0 <= p
                    < scan.updated,
        },
    decreases scan.updated - package,
{
    if package < scan.updated {
        if let Some(path) = (answers.package)(package) {
            lemma_invalid_has_a_reason(scan, answers, package, path, 0);
            match scan.decision(answers, package, path, 0) {
                Verdict::Stay => {
                    lemma_outcomes_have_a_reason(scan, answers, package + 1, selected);
                },
                Verdict::Follow => {
                    lemma_outcomes_have_a_reason(
                        scan,
                        answers,
                        package + 1,
                        selected.push(package),
                    );
                },
                Verdict::Invalid(requirement) => {
                    let i = choose|i: int|
                        0 <= i < scan.dependencies.len() && #[trigger] scan.verdict_of(
                            answers,
                            i,
                            package,
                            path,
                        ) == Verdict::Invalid(requirement);
                    assert(is_invalid(scan, answers, i, package));
                },
            }
        }
    }
}

proof fn lemma_invalid_has_a_reason(
    scan: DependencyScanView,
    answers: Answers,
    package: int,
    package_path: Seq<char>,
    from: int,
)
    requires
        0 <= from,
    ensures
        scan.decision(answers, package, package_path, from) matches Verdict::Invalid(requirement)
            ==> exists|i: int|
            from <= i < scan.dependencies.len() && #[trigger] scan.verdict_of(
                answers,
                i,
                package,
                package_path,
            ) == Verdict::Invalid(requirement),
    decreases scan.dependencies.len() - from,
{
    if from < scan.dependencies.len() {
        lemma_invalid_has_a_reason(scan, answers, package, package_path, from + 1);
    }
}

/// Where each updated package is located and no requirement of a dependency on it is invalid, the
/// scan succeeds.
pub proof fn scans_without_invalid_requirements_succeed(
    scan: DependencyScanView,
    answers: Answers,
    action: ScanActionView,
)
    requires
        scan.updated > 0,
        scan.stage == ScanStage::LocatingPackage,
        scan.package == 0,
        action == ScanActionView::LocatePackage(0),
        forall|p: int| 0 <= p < scan.updated ==> (#[trigger] (answers.package)(p)) is Some,
        forall|i: int, p: int|
            0 <= i < scan.dependencies.len() && 0 <= p < scan.updated ==> !#[trigger] is_invalid(
                scan,
                answers,
                i,
                p,
            ),
    ensures
        run(scan, action, answers) is Ok,
{
    scans_fail_for_a_reason(scan, answers, action);
}

/// Of several dependencies on an updated package, the first decides that is not to be left: an
/// invalid requirement behind one that follows is no error.
pub proof fn first_decisive_dependency_decides(
    scan: DependencyScanView,
    answers: Answers,
    i: int,
)
    requires
        scan.is_valid(),
        scan.stage == ScanStage::LocatingDependency,
        scan.dependency == i,
        (answers.package)(scan.package) == Some(scan.package_path),
        is_found_at(scan, answers, i, scan.package),
        is_to_follow(scan, answers, i, scan.package),
    ensures
        ({
            let canonical = (answers.canonical)(scan.dependencies[i].path);
            let (next, following) = scan.after(ScanEvent::Located(canonical));
            let decided = if following is Upgrade {
                next.after(ScanEvent::Upgraded(RequirementUpgrade::Rewritten))
            } else {
                (next, following)
            };
            &&& following is Upgrade <==> scan.dependencies[i].requirement is Some
            &&& following matches ScanActionView::Upgrade { requirement, package }
                ==> scan.dependencies[i].requirement == Some(requirement) && package == scan.package
            &&& decided.0.selected == scan.selected.push(scan.package)
            &&& scan.package + 1 < scan.updated ==> decided.1 == ScanActionView::LocatePackage(
                scan.package + 1,
            )
            &&& scan.package + 1 == scan.updated ==> decided.1 == ScanActionView::Finish(
                Ok(scan.selected.push(scan.package)),
            )
        }),
{
}

/// What follows a dependency that is left: the next one, and behind the last one the next updated
/// package. Behind the last package the scan ends with those that were selected.
pub open spec fn leaves_the_dependency(
    scan: DependencyScanView,
    dependency: int,
    r: (DependencyScanView, ScanActionView),
) -> bool {
    if dependency < scan.dependencies.len() {
        &&& r.1 == ScanActionView::Canonicalize(scan.dependencies[dependency].path)
        &&& r.0 == (DependencyScanView {
            stage: ScanStage::LocatingDependency,
            dependency,
            ..scan
        })
    } else if scan.package + 1 < scan.updated {
        &&& r.1 == ScanActionView::LocatePackage(scan.package + 1)
        &&& r.0 == (DependencyScanView {
            stage: ScanStage::LocatingPackage,
            package: scan.package + 1,
            ..scan
        })
    } else {
        r.1 == ScanActionView::Finish(Ok(scan.selected))
    }
}

/// Once an updated package is located, its dependencies are gone through from the first on. One
/// that is not located is an error.
pub proof fn dependencies_are_gone_through(scan: DependencyScanView, path: Seq<char>)
    requires
        scan.is_valid(),
        scan.stage == ScanStage::LocatingPackage,
    ensures
        leaves_the_dependency(
            DependencyScanView { package_path: path, ..scan },
            0,
            scan.after(ScanEvent::Located(Some(path))),
        ),
        scan.after(ScanEvent::Located(None)).1 == ScanActionView::Finish(
            Err(DependencyErrorView::PackageNotLocated(scan.package)),
        ),
{
}

/// A dependency that is found elsewhere, or not at all, is left. So is one that has no requirement
/// and does not count without, and one whose requirement stays as it is. An invalid requirement
/// ends the scan with an error, whatever follows.
pub proof fn dependencies_that_need_not_follow_are_left(
    scan: DependencyScanView,
    located: Option<Seq<char>>,
)
    requires
        scan.is_valid(),
        scan.stage == ScanStage::LocatingDependency,
    ensures
        ({
            let dependency = scan.dependencies[scan.dependency];
            let found = located is Some && same_path(located->0, scan.package_path);
            let r = scan.after(ScanEvent::Located(located));
            &&& !found ==> leaves_the_dependency(scan, scan.dependency + 1, r)
            &&& found && dependency.requirement is None && !(scan.include_versionless && (
            dependency.kind == DepKind::Normal || dependency.kind == DepKind::Build))
                ==> leaves_the_dependency(scan, scan.dependency + 1, r)
            &&& found ==> (dependency.requirement matches Some(requirement) ==> {
                &&& r.1 == ScanActionView::Upgrade { requirement, package: scan.package }
                &&& leaves_the_dependency(
                    scan,
                    scan.dependency + 1,
                    r.0.after(ScanEvent::Upgraded(RequirementUpgrade::Unchanged)),
                )
                &&& r.0.after(ScanEvent::Upgraded(RequirementUpgrade::Invalid)).1
                    == ScanActionView::Finish(
                    Err(
                        DependencyErrorView::InvalidRequirement {
                            requirement,
                            package: scan.package,
                        },
                    ),
                )
            })
        }),
{
    let r = scan.after(ScanEvent::Located(located));
    let left = r.0.after(ScanEvent::Upgraded(RequirementUpgrade::Unchanged));
    if scan.dependency + 1 < scan.dependencies.len() {
        assert(left.0 =~= DependencyScanView {
            stage: ScanStage::LocatingDependency,
            dependency: scan.dependency + 1,
            ..scan
        } || !(r.0.stage == ScanStage::Upgrading));
    }
}

/// The scan goes on from each state that it reaches, whatever comes of its action.
pub proof fn scan_takes_what_can_come(scan: DependencyScan, event: ScanEvent<String>)
    requires
        scan@.is_valid(),
    ensures
        match scan@.stage {
            ScanStage::LocatingPackage | ScanStage::LocatingDependency => event is Located,
            ScanStage::Upgrading => event is Upgraded,
            ScanStage::Finished => false,
        } ==> call_requires(DependencyScan::step, (scan, event)),
{
}

}
