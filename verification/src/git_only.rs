//! Packages whose last release is found by Git tags.

use crate::cargo::CARGO_TOML;
use crate::name_map::NameMap;
use crate::package::{package_views, Package, PackageView};
use crate::path::{join, joined_path, parent_path};
use crate::registry_packages::{
    models, share, RegistryPackage, RegistryPackageView, ReleasedWorkspace, ReleasedWorkspaceView,
    WorkspaceLockfile,
};
use crate::text::optional_text;
use crate::update_request::UpdateRequest;
use crate::workspace::{
    first_named, first_of_a_name_is_found, found_package_has_the_name, workspace_package, Metadata,
};
use std::sync::Arc;
use vstd::prelude::*;

verus! {

/// Why the released packages could not be collected.
#[derive(Debug)]
pub enum GitOnlyError<S> {
    /// The local manifest has no directory.
    NoManifestDir(S),
    /// The repository could not be opened.
    NotOpened(S),
    /// The release tag of this package could not be looked for.
    TagNotSearched(S),
    /// This tag has no commit.
    CommitNotFound(S),
    /// There is no worktree for this package.
    WorktreeNotAdded(S),
    /// The worktree for this package could not be opened.
    WorktreeNotOpened(S),
    /// This commit could not be checked out.
    NotCheckedOut(S),
    /// The path of the worktree is not UTF-8.
    WorktreeNotUtf8,
    /// Cargo cannot describe the workspace at this commit.
    NotDescribed(S),
    /// The lockfile at this commit could not be read.
    LockfileNotLoaded(S),
    /// The workspace at the release has no package of this name.
    PackageNotFound { package_name: S, workspace_root: S },
}

impl View for GitOnlyError<String> {
    type V = GitOnlyError<Seq<char>>;

    open spec fn view(&self) -> GitOnlyError<Seq<char>> {
        match self {
            GitOnlyError::NoManifestDir(manifest) => GitOnlyError::NoManifestDir(manifest@),
            GitOnlyError::NotOpened(directory) => GitOnlyError::NotOpened(directory@),
            GitOnlyError::TagNotSearched(name) => GitOnlyError::TagNotSearched(name@),
            GitOnlyError::CommitNotFound(tag) => GitOnlyError::CommitNotFound(tag@),
            GitOnlyError::WorktreeNotAdded(name) => GitOnlyError::WorktreeNotAdded(name@),
            GitOnlyError::WorktreeNotOpened(name) => GitOnlyError::WorktreeNotOpened(name@),
            GitOnlyError::NotCheckedOut(commit) => GitOnlyError::NotCheckedOut(commit@),
            GitOnlyError::WorktreeNotUtf8 => GitOnlyError::WorktreeNotUtf8,
            GitOnlyError::NotDescribed(commit) => GitOnlyError::NotDescribed(commit@),
            GitOnlyError::LockfileNotLoaded(commit) => GitOnlyError::LockfileNotLoaded(commit@),
            GitOnlyError::PackageNotFound { package_name, workspace_root } => {
                GitOnlyError::PackageNotFound {
                    package_name: package_name@,
                    workspace_root: workspace_root@,
                }
            },
        }
    }
}

/// The models of workspaces by their commits.
pub open spec fn workspace_models(workspaces: Map<Seq<char>, Arc<ReleasedWorkspace>>) -> Map<
    Seq<char>,
    ReleasedWorkspaceView,
> {
    workspaces.map_values(|workspace: Arc<ReleasedWorkspace>| workspace@)
}

/// The packages that were found, and the workspaces that they were released from.
#[derive(Debug)]
pub struct GitOnlyPackages {
    /// The packages by their names.
    pub packages: NameMap<RegistryPackage>,
    /// The workspaces by their commits. Their worktrees have to stay while the packages are
    /// used.
    pub workspaces: NameMap<Arc<ReleasedWorkspace>>,
}

/// The model of [`GitOnlyPackages`].
#[verifier::ext_equal]
pub struct GitOnlyPackagesView {
    pub packages: Map<Seq<char>, RegistryPackageView>,
    pub workspaces: Map<Seq<char>, ReleasedWorkspaceView>,
}

impl View for GitOnlyPackages {
    type V = GitOnlyPackagesView;

    open spec fn view(&self) -> GitOnlyPackagesView {
        GitOnlyPackagesView {
            packages: models(self.packages@),
            workspaces: workspace_models(self.workspaces@),
        }
    }
}

/// The model of the result of a collection.
pub open spec fn git_only_result(result: Result<GitOnlyPackages, GitOnlyError<String>>) -> Result<
    GitOnlyPackagesView,
    GitOnlyError<Seq<char>>,
> {
    match result {
        Ok(packages) => Ok(packages@),
        Err(error) => Err(error@),
    }
}

/// What the caller is asked to do to collect released packages.
#[derive(Debug)]
pub enum GitOnlyAction {
    /// Open the repository in this directory.
    OpenRepository(String),
    /// Find the tag of the last release of a package, by the template of its tags.
    FindTag { template: String, package_name: String },
    /// Find the commit of this tag.
    FindCommit(String),
    /// Add a temporary worktree for this package.
    AddWorktree(String),
    /// Open the repository in the worktree.
    OpenWorktree,
    /// Check out this commit in the worktree.
    Checkout(String),
    /// Have Cargo describe the workspace of a manifest. Cargo runs in the given directory, since
    /// it looks for its configuration there.
    Describe { directory: String, manifest: String },
    /// Read the lockfile of the workspace, before Cargo does anything else there.
    LoadLockfile { workspace_root: String, commit: String },
    /// Nothing more: the packages.
    Finish(Result<GitOnlyPackages, GitOnlyError<String>>),
}

/// The model of a [`GitOnlyAction`].
pub enum GitOnlyActionView {
    OpenRepository(Seq<char>),
    FindTag { template: Seq<char>, package_name: Seq<char> },
    FindCommit(Seq<char>),
    AddWorktree(Seq<char>),
    OpenWorktree,
    Checkout(Seq<char>),
    Describe { directory: Seq<char>, manifest: Seq<char> },
    LoadLockfile { workspace_root: Seq<char>, commit: Seq<char> },
    Finish(Result<GitOnlyPackagesView, GitOnlyError<Seq<char>>>),
}

impl View for GitOnlyAction {
    type V = GitOnlyActionView;

    open spec fn view(&self) -> GitOnlyActionView {
        match self {
            GitOnlyAction::OpenRepository(directory) => GitOnlyActionView::OpenRepository(
                directory@,
            ),
            GitOnlyAction::FindTag { template, package_name } => GitOnlyActionView::FindTag {
                template: template@,
                package_name: package_name@,
            },
            GitOnlyAction::FindCommit(tag) => GitOnlyActionView::FindCommit(tag@),
            GitOnlyAction::AddWorktree(name) => GitOnlyActionView::AddWorktree(name@),
            GitOnlyAction::OpenWorktree => GitOnlyActionView::OpenWorktree,
            GitOnlyAction::Checkout(commit) => GitOnlyActionView::Checkout(commit@),
            GitOnlyAction::Describe { directory, manifest } => GitOnlyActionView::Describe {
                directory: directory@,
                manifest: manifest@,
            },
            GitOnlyAction::LoadLockfile { workspace_root, commit } => {
                GitOnlyActionView::LoadLockfile {
                    workspace_root: workspace_root@,
                    commit: commit@,
                }
            },
            GitOnlyAction::Finish(result) => GitOnlyActionView::Finish(git_only_result(*result)),
        }
    }
}

/// What came of a [`GitOnlyAction`].
#[derive(Debug)]
pub enum GitOnlyEvent {
    /// It was done.
    Done,
    /// The tag of the last release.
    Tag(String),
    /// There is no release tag.
    NoTag,
    /// The commit of the tag.
    Commit(String),
    /// A worktree was added: its path, where that is UTF-8.
    Worktree(Option<String>),
    /// The workspace, as Cargo describes it.
    Described(Metadata),
    /// The lockfile, where there is one.
    Lockfile(Option<WorkspaceLockfile>),
    /// It failed.
    Failed,
}

/// How far a collection is.
#[derive(Debug, Clone, Copy, PartialEq, Eq, Structural)]
pub enum GitOnlyStage {
    OpeningRepository,
    FindingTag,
    FindingCommit,
    AddingWorktree,
    OpeningWorktree,
    CheckingOut,
    Describing,
    LoadingLockfile,
    Finished,
}

/// A package whose release is looked for, and the template of its tags.
#[derive(Debug)]
pub struct TagRequest {
    pub package_name: String,
    pub template: String,
}

/// The model of a [`TagRequest`].
pub struct TagRequestView {
    pub package_name: Seq<char>,
    pub template: Seq<char>,
}

impl View for TagRequest {
    type V = TagRequestView;

    open spec fn view(&self) -> TagRequestView {
        TagRequestView { package_name: self.package_name@, template: self.template@ }
    }
}

/// The models of a list of requests.
pub open spec fn request_views(requests: Seq<TagRequest>) -> Seq<TagRequestView> {
    requests.map_values(|request: TagRequest| request@)
}

/// A collection of released packages under way.
#[derive(Debug)]
pub struct GitOnlyCollection {
    directory: String,
    requests: Vec<TagRequest>,
    /// The package at hand.
    next: usize,
    /// The packages found so far.
    packages: NameMap<RegistryPackage>,
    /// The workspaces reconstructed so far.
    workspaces: NameMap<Arc<ReleasedWorkspace>>,
    /// The release tag of the package at hand.
    tag: String,
    /// The commit of that tag.
    commit: String,
    /// The path of the worktree for that commit.
    worktree: Option<String>,
    /// The workspace in that worktree.
    metadata: Option<Metadata>,
    stage: GitOnlyStage,
}

/// The model of a [`GitOnlyCollection`].
#[verifier::ext_equal]
pub struct GitOnlyCollectionView {
    pub directory: Seq<char>,
    pub requests: Seq<TagRequestView>,
    pub next: int,
    pub packages: Map<Seq<char>, RegistryPackageView>,
    pub workspaces: Map<Seq<char>, ReleasedWorkspaceView>,
    pub tag: Seq<char>,
    pub commit: Seq<char>,
    pub worktree: Option<Seq<char>>,
    pub metadata: Option<Metadata>,
    pub stage: GitOnlyStage,
}

impl View for GitOnlyCollection {
    type V = GitOnlyCollectionView;

    closed spec fn view(&self) -> GitOnlyCollectionView {
        GitOnlyCollectionView {
            directory: self.directory@,
            requests: request_views(self.requests@),
            next: self.next as int,
            packages: models(self.packages@),
            workspaces: workspace_models(self.workspaces@),
            tag: self.tag@,
            commit: self.commit@,
            worktree: optional_text(self.worktree),
            metadata: self.metadata,
            stage: self.stage,
        }
    }
}

impl GitOnlyCollectionView {
    /// What a stage goes with.
    pub open spec fn is_valid(self) -> bool {
        match self.stage {
            GitOnlyStage::OpeningRepository | GitOnlyStage::Finished => 0 <= self.next
                <= self.requests.len(),
            GitOnlyStage::LoadingLockfile => 0 <= self.next < self.requests.len()
                && self.metadata is Some,
            _ => 0 <= self.next < self.requests.len(),
        }
    }

    /// An event that can follow the last action.
    pub open spec fn expects(self, event: GitOnlyEvent) -> bool {
        match self.stage {
            GitOnlyStage::OpeningRepository
            | GitOnlyStage::OpeningWorktree
            | GitOnlyStage::CheckingOut => event is Done || event is Failed,
            GitOnlyStage::FindingTag => event is Tag || event is NoTag || event is Failed,
            GitOnlyStage::FindingCommit => event is Commit || event is Failed,
            GitOnlyStage::AddingWorktree => event is Worktree || event is Failed,
            GitOnlyStage::Describing => event is Described || event is Failed,
            GitOnlyStage::LoadingLockfile => event is Lockfile || event is Failed,
            GitOnlyStage::Finished => false,
        }
    }

    /// The name of the package at hand.
    pub open spec fn package_name(self) -> Seq<char> {
        self.requests[self.next].package_name
    }

    /// The end, with an error.
    pub open spec fn failing(self, error: GitOnlyError<Seq<char>>) -> (
        GitOnlyCollectionView,
        GitOnlyActionView,
    ) {
        (
            GitOnlyCollectionView { stage: GitOnlyStage::Finished, ..self },
            GitOnlyActionView::Finish(Err(error)),
        )
    }

    /// Look for the release of the package at hand; end where there is none.
    pub open spec fn taking(self) -> (GitOnlyCollectionView, GitOnlyActionView) {
        if self.next < self.requests.len() {
            (
                GitOnlyCollectionView { stage: GitOnlyStage::FindingTag, ..self },
                GitOnlyActionView::FindTag {
                    template: self.requests[self.next].template,
                    package_name: self.package_name(),
                },
            )
        } else {
            (
                GitOnlyCollectionView {
                    stage: GitOnlyStage::Finished,
                    packages: Map::empty(),
                    workspaces: Map::empty(),
                    ..self
                },
                GitOnlyActionView::Finish(
                    Ok(
                        GitOnlyPackagesView {
                            packages: self.packages,
                            workspaces: self.workspaces,
                        },
                    ),
                ),
            )
        }
    }

    /// Take the package at hand from the workspace that it was released from.
    pub open spec fn collecting(self, workspace: ReleasedWorkspaceView) -> (
        GitOnlyCollectionView,
        GitOnlyActionView,
    ) {
        match first_named(package_views(workspace.metadata.members()), self.package_name()) {
            Some(package) => (GitOnlyCollectionView {
                next: self.next + 1,
                packages: self.packages.insert(
                    package.name,
                    RegistryPackageView {
                        package,
                        sha1: Some(self.commit),
                        released_workspace: Some(workspace),
                    },
                ),
                ..self
            }).taking(),
            None => self.failing(
                GitOnlyError::PackageNotFound {
                    package_name: self.package_name(),
                    workspace_root: workspace.metadata.workspace_root@,
                },
            ),
        }
    }

    /// The next state and action. Packages that were released at the same commit share a
    /// workspace.
    pub open spec fn after(self, event: GitOnlyEvent) -> (
        GitOnlyCollectionView,
        GitOnlyActionView,
    ) {
        match (self.stage, event) {
            (GitOnlyStage::OpeningRepository, GitOnlyEvent::Done) => self.taking(),
            (GitOnlyStage::OpeningRepository, _) => self.failing(
                GitOnlyError::NotOpened(self.directory),
            ),
            (GitOnlyStage::FindingTag, GitOnlyEvent::Tag(tag)) => (
                GitOnlyCollectionView { stage: GitOnlyStage::FindingCommit, tag: tag@, ..self },
                GitOnlyActionView::FindCommit(tag@),
            ),
            (GitOnlyStage::FindingTag, GitOnlyEvent::NoTag) => (GitOnlyCollectionView {
                next: self.next + 1,
                ..self
            }).taking(),
            (GitOnlyStage::FindingTag, _) => self.failing(
                GitOnlyError::TagNotSearched(self.package_name()),
            ),
            (GitOnlyStage::FindingCommit, GitOnlyEvent::Commit(commit)) => {
                let at_commit = GitOnlyCollectionView { commit: commit@, ..self };
                if self.workspaces.contains_key(commit@) {
                    at_commit.collecting(self.workspaces[commit@])
                } else {
                    (
                        GitOnlyCollectionView { stage: GitOnlyStage::AddingWorktree, ..at_commit },
                        GitOnlyActionView::AddWorktree(self.package_name()),
                    )
                }
            },
            (GitOnlyStage::FindingCommit, _) => self.failing(
                GitOnlyError::CommitNotFound(self.tag),
            ),
            (GitOnlyStage::AddingWorktree, GitOnlyEvent::Worktree(path)) => (
                GitOnlyCollectionView {
                    stage: GitOnlyStage::OpeningWorktree,
                    worktree: optional_text(path),
                    ..self
                },
                GitOnlyActionView::OpenWorktree,
            ),
            (GitOnlyStage::AddingWorktree, _) => self.failing(
                GitOnlyError::WorktreeNotAdded(self.package_name()),
            ),
            (GitOnlyStage::OpeningWorktree, GitOnlyEvent::Done) => (
                GitOnlyCollectionView { stage: GitOnlyStage::CheckingOut, ..self },
                GitOnlyActionView::Checkout(self.commit),
            ),
            (GitOnlyStage::OpeningWorktree, _) => self.failing(
                GitOnlyError::WorktreeNotOpened(self.package_name()),
            ),
            (GitOnlyStage::CheckingOut, GitOnlyEvent::Done) => match self.worktree {
                Some(directory) => (
                    GitOnlyCollectionView { stage: GitOnlyStage::Describing, ..self },
                    GitOnlyActionView::Describe {
                        directory,
                        manifest: joined_path(directory, "Cargo.toml"@),
                    },
                ),
                None => self.failing(GitOnlyError::WorktreeNotUtf8),
            },
            (GitOnlyStage::CheckingOut, _) => self.failing(
                GitOnlyError::NotCheckedOut(self.commit),
            ),
            (GitOnlyStage::Describing, GitOnlyEvent::Described(metadata)) => (
                GitOnlyCollectionView {
                    stage: GitOnlyStage::LoadingLockfile,
                    metadata: Some(metadata),
                    ..self
                },
                GitOnlyActionView::LoadLockfile {
                    workspace_root: metadata.workspace_root@,
                    commit: self.commit,
                },
            ),
            (GitOnlyStage::Describing, _) => self.failing(GitOnlyError::NotDescribed(self.commit)),
            (GitOnlyStage::LoadingLockfile, GitOnlyEvent::Lockfile(lockfile)) => {
                let workspace = ReleasedWorkspaceView {
                    metadata: self.metadata->0,
                    lockfile,
                    commit: self.commit,
                };
                (GitOnlyCollectionView {
                    metadata: None,
                    workspaces: self.workspaces.insert(self.commit, workspace),
                    ..self
                }).collecting(workspace)
            },
            (GitOnlyStage::LoadingLockfile, _) => self.failing(
                GitOnlyError::LockfileNotLoaded(self.commit),
            ),
            _ => self.failing(GitOnlyError::WorktreeNotUtf8),
        }
    }
}

/// The packages and the templates of their tags.
pub open spec fn tag_requests(
    packages: Seq<PackageView>,
    request: UpdateRequest,
    is_multi_package: bool,
) -> Seq<TagRequestView> {
    packages.map_values(
        |package: PackageView|
            TagRequestView {
                package_name: package.name,
                template: request.template_of(package.name, is_multi_package),
            },
    )
}

/// The packages and the templates of their tags.
pub fn release_tags(packages: &Vec<Package>, request: &UpdateRequest, is_multi_package: bool) -> (r:
    Vec<TagRequest>)
    ensures
        request_views(r@) == tag_requests(package_views(packages@), *request, is_multi_package),
{
    let mut r: Vec<TagRequest> = Vec::new();
    let mut i: usize = 0;
    while i < packages.len()
        invariant
            i <= packages@.len(),
            r@.len() == i,
            forall|j: int|
                0 <= j < i ==> #[trigger] r@[j]@ == tag_requests(
                    package_views(packages@),
                    *request,
                    is_multi_package,
                )[j],
        decreases packages@.len() - i,
    {
        let name = &packages[i].name;
        let template = request.tag_name_template(name.as_str(), is_multi_package);
        assert(package_views(packages@)[i as int] == packages@[i as int]@);
        r.push(TagRequest { package_name: name.clone(), template });
        i += 1;
    }
    assert(request_views(r@) =~= tag_requests(package_views(packages@), *request, is_multi_package));
    r
}

impl GitOnlyCollection {
    /// The collection of the last releases of `packages`, and the first action. Without
    /// packages the repository is not even opened.
    pub fn start(packages: &Vec<Package>, request: &UpdateRequest, is_multi_package: bool) -> (r: (
        GitOnlyCollection,
        GitOnlyAction,
    ))
        ensures
            ({
                let beginning = GitOnlyCollectionView {
                    directory: match parent_path(request.local_manifest@) {
                        Some(directory) => directory,
                        None => seq![],
                    },
                    requests: tag_requests(package_views(packages@), *request, is_multi_package),
                    next: 0,
                    packages: Map::empty(),
                    workspaces: Map::empty(),
                    tag: seq![],
                    commit: seq![],
                    worktree: None,
                    metadata: None,
                    stage: GitOnlyStage::OpeningRepository,
                };
                (r.0@, r.1@) == if packages@.len() == 0 {
                    beginning.taking()
                } else {
                    match parent_path(request.local_manifest@) {
                        Some(directory) => (
                            beginning,
                            GitOnlyActionView::OpenRepository(directory),
                        ),
                        None => beginning.failing(
                            GitOnlyError::NoManifestDir(request.local_manifest@),
                        ),
                    }
                }
            }),
            r.0@.is_valid(),
    {
        let located = request.local_manifest_dir();
        let directory = match &located {
            Some(directory) => directory.clone(),
            None => String::new(),
        };
        let collection = GitOnlyCollection {
            directory,
            requests: release_tags(packages, request, is_multi_package),
            next: 0,
            packages: NameMap::new(),
            workspaces: NameMap::new(),
            tag: String::new(),
            commit: String::new(),
            worktree: None,
            metadata: None,
            stage: GitOnlyStage::OpeningRepository,
        };
        proof {
            assert(collection@.packages =~= Map::empty());
            assert(collection@.workspaces =~= Map::empty());
            assert(collection@.requests.len() == packages@.len());
        }
        if packages.is_empty() {
            return collection.take();
        }
        match located {
            Some(directory) => (collection, GitOnlyAction::OpenRepository(directory)),
            None => {
                let manifest = request.local_manifest.clone();
                collection.fail(GitOnlyError::NoManifestDir(manifest))
            },
        }
    }

    fn fail(self, error: GitOnlyError<String>) -> (r: (GitOnlyCollection, GitOnlyAction))
        requires
            self.next <= self.requests@.len(),
        ensures
            (r.0@, r.1@) == self@.failing(error@),
            r.0@.is_valid(),
    {
        (
            GitOnlyCollection { stage: GitOnlyStage::Finished, ..self },
            GitOnlyAction::Finish(Err(error)),
        )
    }

    fn package_name(&self) -> (r: String)
        requires
            self.next < self.requests@.len(),
        ensures
            r@ == self@.package_name(),
    {
        assert(self@.requests[self.next as int] == self.requests@[self.next as int]@);
        self.requests[self.next].package_name.clone()
    }

    fn take(self) -> (r: (GitOnlyCollection, GitOnlyAction))
        requires
            self.next <= self.requests@.len(),
        ensures
            (r.0@, r.1@) == self@.taking(),
            r.0@.is_valid(),
    {
        if self.next < self.requests.len() {
            assert(self@.requests[self.next as int] == self.requests@[self.next as int]@);
            let template = self.requests[self.next].template.clone();
            let package_name = self.package_name();
            (
                GitOnlyCollection { stage: GitOnlyStage::FindingTag, ..self },
                GitOnlyAction::FindTag { template, package_name },
            )
        } else {
            let GitOnlyCollection {
                directory,
                requests,
                next,
                packages,
                workspaces,
                tag,
                commit,
                worktree,
                metadata,
                stage: _,
            } = self;
            let collection = GitOnlyCollection {
                directory,
                requests,
                next,
                packages: NameMap::new(),
                workspaces: NameMap::new(),
                tag,
                commit,
                worktree,
                metadata,
                stage: GitOnlyStage::Finished,
            };
            assert(collection@.packages =~= Map::empty());
            assert(collection@.workspaces =~= Map::empty());
            (collection, GitOnlyAction::Finish(Ok(GitOnlyPackages { packages, workspaces })))
        }
    }

    /// Takes the package at hand from the workspace that it was released from.
    fn collect(self, workspace: Arc<ReleasedWorkspace>) -> (r: (GitOnlyCollection, GitOnlyAction))
        requires
            self.next < self.requests@.len(),
        ensures
            (r.0@, r.1@) == self@.collecting(workspace@),
            r.0@.is_valid(),
    {
        let name = self.package_name();
        let found = match workspace_package(&workspace.metadata, name.as_str()) {
            Ok(package) => Ok(package.copy()),
            Err(error) => Err(error),
        };
        match found {
            Ok(package) => {
                let ghost before = self@;
                let count: usize = self.requests.len();
                assert(self.next < count);
                let key = package.name.clone();
                let released = RegistryPackage::new(package, Some(self.commit.clone()));
                let released = released.with_released_workspace(workspace);
                let GitOnlyCollection {
                    directory,
                    requests,
                    next,
                    packages,
                    workspaces,
                    tag,
                    commit,
                    worktree,
                    metadata,
                    stage,
                } = self;
                let collection = GitOnlyCollection {
                    directory,
                    requests,
                    next: next + 1,
                    packages: packages.insert(key, released),
                    workspaces,
                    tag,
                    commit,
                    worktree,
                    metadata,
                    stage,
                };
                assert(collection@.packages =~= before.packages.insert(key@, released@));
                collection.take()
            },
            Err(error) => self.fail(
                GitOnlyError::PackageNotFound {
                    package_name: error.package_name,
                    workspace_root: error.workspace_root,
                },
            ),
        }
    }

    /// The next state and action, after what came of the last action.
    pub fn step(self, event: GitOnlyEvent) -> (r: (GitOnlyCollection, GitOnlyAction))
        requires
            self@.is_valid(),
            self@.expects(event),
        ensures
            (r.0@, r.1@) == self@.after(event),
            r.0@.is_valid(),
    {
        match (self.stage, event) {
            (GitOnlyStage::OpeningRepository, GitOnlyEvent::Done) => self.take(),
            (GitOnlyStage::OpeningRepository, _) => {
                let directory = self.directory.clone();
                self.fail(GitOnlyError::NotOpened(directory))
            },
            (GitOnlyStage::FindingTag, GitOnlyEvent::Tag(tag)) => {
                let action = GitOnlyAction::FindCommit(tag.clone());
                (GitOnlyCollection { stage: GitOnlyStage::FindingCommit, tag, ..self }, action)
            },
            (GitOnlyStage::FindingTag, GitOnlyEvent::NoTag) => {
                let count: usize = self.requests.len();
                assert(self.next < count);
                let next: usize = self.next + 1;
                let collection = GitOnlyCollection { next, ..self };
                collection.take()
            },
            (GitOnlyStage::FindingTag, _) => {
                let name = self.package_name();
                self.fail(GitOnlyError::TagNotSearched(name))
            },
            (GitOnlyStage::FindingCommit, GitOnlyEvent::Commit(commit)) => {
                let shared = match self.workspaces.get(commit.as_str()) {
                    Some(workspace) => Some(share(workspace)),
                    None => None,
                };
                let name = self.package_name();
                let collection = GitOnlyCollection { commit, ..self };
                match shared {
                    Some(workspace) => collection.collect(workspace),
                    None => (
                        GitOnlyCollection { stage: GitOnlyStage::AddingWorktree, ..collection },
                        GitOnlyAction::AddWorktree(name),
                    ),
                }
            },
            (GitOnlyStage::FindingCommit, _) => {
                let tag = self.tag.clone();
                self.fail(GitOnlyError::CommitNotFound(tag))
            },
            (GitOnlyStage::AddingWorktree, GitOnlyEvent::Worktree(worktree)) => (
                GitOnlyCollection { stage: GitOnlyStage::OpeningWorktree, worktree, ..self },
                GitOnlyAction::OpenWorktree,
            ),
            (GitOnlyStage::AddingWorktree, _) => {
                let name = self.package_name();
                self.fail(GitOnlyError::WorktreeNotAdded(name))
            },
            (GitOnlyStage::OpeningWorktree, GitOnlyEvent::Done) => {
                let commit = self.commit.clone();
                (
                    GitOnlyCollection { stage: GitOnlyStage::CheckingOut, ..self },
                    GitOnlyAction::Checkout(commit),
                )
            },
            (GitOnlyStage::OpeningWorktree, _) => {
                let name = self.package_name();
                self.fail(GitOnlyError::WorktreeNotOpened(name))
            },
            (GitOnlyStage::CheckingOut, GitOnlyEvent::Done) => match &self.worktree {
                Some(path) => {
                    let action = GitOnlyAction::Describe {
                        directory: path.clone(),
                        manifest: join(path.as_str(), CARGO_TOML),
                    };
                    (GitOnlyCollection { stage: GitOnlyStage::Describing, ..self }, action)
                },
                None => self.fail(GitOnlyError::WorktreeNotUtf8),
            },
            (GitOnlyStage::CheckingOut, _) => {
                let commit = self.commit.clone();
                self.fail(GitOnlyError::NotCheckedOut(commit))
            },
            (GitOnlyStage::Describing, GitOnlyEvent::Described(metadata)) => {
                let action = GitOnlyAction::LoadLockfile {
                    workspace_root: metadata.workspace_root.clone(),
                    commit: self.commit.clone(),
                };
                (
                    GitOnlyCollection {
                        stage: GitOnlyStage::LoadingLockfile,
                        metadata: Some(metadata),
                        ..self
                    },
                    action,
                )
            },
            (GitOnlyStage::Describing, _) => {
                let commit = self.commit.clone();
                self.fail(GitOnlyError::NotDescribed(commit))
            },
            (GitOnlyStage::LoadingLockfile, GitOnlyEvent::Lockfile(lockfile)) => {
                let ghost before = self@;
                let GitOnlyCollection {
                    directory,
                    requests,
                    next,
                    packages,
                    workspaces,
                    tag,
                    commit,
                    worktree,
                    metadata,
                    stage,
                } = self;
                match metadata {
                    Some(metadata) => {
                        let workspace = Arc::new(
                            ReleasedWorkspace::new(metadata, lockfile, commit.clone()),
                        );
                        let shared = share(&workspace);
                        let collection = GitOnlyCollection {
                            directory,
                            requests,
                            next,
                            packages,
                            workspaces: workspaces.insert(commit.clone(), shared),
                            tag,
                            commit,
                            worktree,
                            metadata: None,
                            stage,
                        };
                        assert(collection@.workspaces =~= before.workspaces.insert(
                            commit@,
                            workspace@,
                        ));
                        collection.collect(workspace)
                    },
                    None => {
                        let collection = GitOnlyCollection {
                            directory,
                            requests,
                            next,
                            packages,
                            workspaces,
                            tag,
                            commit,
                            worktree,
                            metadata: None,
                            stage,
                        };
                        collection.fail(GitOnlyError::WorktreeNotUtf8)
                    },
                }
            },
            (GitOnlyStage::LoadingLockfile, _) => {
                let commit = self.commit.clone();
                self.fail(GitOnlyError::LockfileNotLoaded(commit))
            },
            _ => self.fail(GitOnlyError::WorktreeNotUtf8),
        }
    }
}

/// What a collection finds in a repository, where nothing fails.
pub struct Repository {
    /// The release tag of a package.
    pub tag: spec_fn(TagRequestView) -> Option<String>,
    /// The commit of a tag.
    pub commit: spec_fn(Seq<char>) -> String,
    /// The path of the worktree that is added for a package.
    pub worktree: spec_fn(Seq<char>) -> String,
    /// The workspace at a commit.
    pub metadata: spec_fn(Seq<char>) -> Metadata,
    /// The lockfile at a commit.
    pub lockfile: spec_fn(Seq<char>) -> Option<WorkspaceLockfile>,
}

impl Repository {
    /// What comes of an action.
    pub open spec fn answer(
        self,
        collection: GitOnlyCollectionView,
        action: GitOnlyActionView,
    ) -> GitOnlyEvent {
        match action {
            GitOnlyActionView::FindTag { .. } => match (self.tag)(
                collection.requests[collection.next],
            ) {
                Some(tag) => GitOnlyEvent::Tag(tag),
                None => GitOnlyEvent::NoTag,
            },
            GitOnlyActionView::FindCommit(tag) => GitOnlyEvent::Commit((self.commit)(tag)),
            GitOnlyActionView::AddWorktree(name) => GitOnlyEvent::Worktree(
                Some((self.worktree)(name)),
            ),
            GitOnlyActionView::Describe { .. } => GitOnlyEvent::Described(
                (self.metadata)(collection.commit),
            ),
            GitOnlyActionView::LoadLockfile { commit, .. } => GitOnlyEvent::Lockfile(
                (self.lockfile)(commit),
            ),
            _ => GitOnlyEvent::Done,
        }
    }

    /// The commit that a package was last released from.
    pub open spec fn release_of(self, request: TagRequestView) -> Option<Seq<char>> {
        match (self.tag)(request) {
            Some(tag) => Some((self.commit)(tag@)@),
            None => None,
        }
    }

    /// The workspace at a commit.
    pub open spec fn workspace_at(self, commit: Seq<char>) -> ReleasedWorkspaceView {
        ReleasedWorkspaceView {
            metadata: (self.metadata)(commit),
            lockfile: (self.lockfile)(commit),
            commit,
        }
    }
}

/// How many steps a stage can be from the next package.
pub open spec fn distance(stage: GitOnlyStage) -> int {
    match stage {
        GitOnlyStage::OpeningRepository => 8,
        GitOnlyStage::FindingTag => 7,
        GitOnlyStage::FindingCommit => 6,
        GitOnlyStage::AddingWorktree => 5,
        GitOnlyStage::OpeningWorktree => 4,
        GitOnlyStage::CheckingOut => 3,
        GitOnlyStage::Describing => 2,
        GitOnlyStage::LoadingLockfile => 1,
        GitOnlyStage::Finished => 0,
    }
}

/// The commits that worktrees are added for, from a state and its action on, and the result.
pub open spec fn run(
    collection: GitOnlyCollectionView,
    action: GitOnlyActionView,
    repository: Repository,
) -> (Seq<Seq<char>>, Result<GitOnlyPackagesView, GitOnlyError<Seq<char>>>)
    decreases collection.requests.len() - collection.next, distance(collection.stage),
{
    match action {
        GitOnlyActionView::Finish(result) => (seq![], result),
        _ => if collection.stage == GitOnlyStage::Finished || collection.next
            >= collection.requests.len() {
            (seq![], Err(GitOnlyError::WorktreeNotUtf8))
        } else {
            let (next, then) = collection.after(repository.answer(collection, action));
            let (commits, result) = run(next, then, repository);
            (if action is AddWorktree {
                seq![collection.commit] + commits
            } else {
                commits
            }, result)
        },
    }
}

/// The commits that are reconstructed for the packages from `next` on, and the result, where
/// these packages were found before.
pub open spec fn releases(
    repository: Repository,
    requests: Seq<TagRequestView>,
    next: int,
    found: GitOnlyPackagesView,
) -> (Seq<Seq<char>>, Result<GitOnlyPackagesView, GitOnlyError<Seq<char>>>)
    decreases requests.len() - next,
{
    if next >= requests.len() {
        (seq![], Ok(found))
    } else {
        match repository.release_of(requests[next]) {
            None => releases(repository, requests, next + 1, found),
            Some(commit) => {
                let workspace = repository.workspace_at(commit);
                let name = requests[next].package_name;
                let (commits, result) = match first_named(
                    package_views(workspace.metadata.members()),
                    name,
                ) {
                    Some(package) => {
                        let released = RegistryPackageView {
                            package,
                            sha1: Some(commit),
                            released_workspace: Some(workspace),
                        };
                        releases(
                            repository,
                            requests,
                            next + 1,
                            GitOnlyPackagesView {
                                packages: found.packages.insert(package.name, released),
                                workspaces: found.workspaces.insert(commit, workspace),
                            },
                        )
                    },
                    None => (
                        seq![],
                        Err(
                            GitOnlyError::PackageNotFound {
                                package_name: name,
                                workspace_root: workspace.metadata.workspace_root@,
                            },
                        ),
                    ),
                };
                (if found.workspaces.contains_key(commit) {
                    commits
                } else {
                    seq![commit] + commits
                }, result)
            },
        }
    }
}

/// What a collection has found.
pub open spec fn found_by(collection: GitOnlyCollectionView) -> GitOnlyPackagesView {
    GitOnlyPackagesView { packages: collection.packages, workspaces: collection.workspaces }
}

/// Each workspace is the one at its commit.
pub open spec fn workspaces_are_genuine(
    repository: Repository,
    workspaces: Map<Seq<char>, ReleasedWorkspaceView>,
) -> bool {
    forall|commit: Seq<char>| #[trigger]
        workspaces.contains_key(commit) ==> workspaces[commit] == repository.workspace_at(commit)
}

proof fn lemma_run_step(
    collection: GitOnlyCollectionView,
    action: GitOnlyActionView,
    repository: Repository,
    next: GitOnlyCollectionView,
    then: GitOnlyActionView,
)
    requires
        collection.stage != GitOnlyStage::Finished,
        collection.next < collection.requests.len(),
        !(action is Finish),
        collection.after(repository.answer(collection, action)) == (next, then),
    ensures
        run(collection, action, repository).1 == run(next, then, repository).1,
        run(collection, action, repository).0 == if action is AddWorktree {
            seq![collection.commit] + run(next, then, repository).0
        } else {
            run(next, then, repository).0
        },
{
}

/// What follows where the package at hand is taken from its workspace.
proof fn lemma_collecting(
    repository: Repository,
    collection: GitOnlyCollectionView,
    workspaces: Map<Seq<char>, ReleasedWorkspaceView>,
)
    requires
        0 <= collection.next < collection.requests.len(),
        workspaces_are_genuine(repository, collection.workspaces),
        collection.workspaces == workspaces.insert(
            collection.commit,
            repository.workspace_at(collection.commit),
        ),
        repository.release_of(collection.requests[collection.next]) == Some(collection.commit),
    ensures
        ({
            let (next, then) = collection.collecting(repository.workspace_at(collection.commit));
            let (commits, result) = run(next, then, repository);
            (if workspaces.contains_key(collection.commit) {
                commits
            } else {
                seq![collection.commit] + commits
            }, result) == releases(
                repository,
                collection.requests,
                collection.next,
                GitOnlyPackagesView { packages: collection.packages, workspaces },
            )
        }),
    decreases collection.requests.len() - collection.next, 0int,
{
    let workspace = repository.workspace_at(collection.commit);
    if let Some(package) = first_named(
        package_views(workspace.metadata.members()),
        collection.package_name(),
    ) {
        let released = RegistryPackageView {
            package,
            sha1: Some(collection.commit),
            released_workspace: Some(workspace),
        };
        let next = GitOnlyCollectionView {
            next: collection.next + 1,
            packages: collection.packages.insert(package.name, released),
            ..collection
        };
        releases_are_collected(repository, next);
    }
}

/// A collection comes to the releases of the packages that are left.
pub proof fn releases_are_collected(repository: Repository, collection: GitOnlyCollectionView)
    requires
        0 <= collection.next <= collection.requests.len(),
        workspaces_are_genuine(repository, collection.workspaces),
    ensures
        run(collection.taking().0, collection.taking().1, repository) == releases(
            repository,
            collection.requests,
            collection.next,
            found_by(collection),
        ),
    decreases collection.requests.len() - collection.next, 2int,
{
    if collection.next < collection.requests.len() {
        let request = collection.requests[collection.next];
        let (finding, find) = collection.taking();
        match (repository.tag)(request) {
            None => {
                let skipped = GitOnlyCollectionView { next: collection.next + 1, ..finding };
                let (next, then) = skipped.taking();
                lemma_run_step(finding, find, repository, next, then);
                releases_are_collected(repository, skipped);
            },
            Some(tag) => {
                let commit = (repository.commit)(tag@)@;
                let tagged = GitOnlyCollectionView {
                    stage: GitOnlyStage::FindingCommit,
                    tag: tag@,
                    ..collection
                };
                let find_commit = GitOnlyActionView::FindCommit(tag@);
                lemma_run_step(finding, find, repository, tagged, find_commit);
                let at_commit = GitOnlyCollectionView { commit, ..tagged };
                let workspace = repository.workspace_at(commit);
                if collection.workspaces.contains_key(commit) {
                    let (next, then) = at_commit.collecting(workspace);
                    lemma_run_step(tagged, find_commit, repository, next, then);
                    assert(collection.workspaces.insert(commit, workspace)
                        =~= collection.workspaces);
                    lemma_collecting(repository, at_commit, collection.workspaces);
                } else {
                    lemma_new_workspace(repository, tagged, commit);
                }
            },
        }
    }
}

/// What follows where the workspace of the package at hand has to be reconstructed.
proof fn lemma_new_workspace(
    repository: Repository,
    tagged: GitOnlyCollectionView,
    commit: Seq<char>,
)
    requires
        0 <= tagged.next < tagged.requests.len(),
        tagged.stage == GitOnlyStage::FindingCommit,
        workspaces_are_genuine(repository, tagged.workspaces),
        !tagged.workspaces.contains_key(commit),
        (repository.commit)(tagged.tag)@ == commit,
        repository.release_of(tagged.requests[tagged.next]) == Some(commit),
    ensures
        run(tagged, GitOnlyActionView::FindCommit(tagged.tag), repository) == releases(
            repository,
            tagged.requests,
            tagged.next,
            found_by(tagged),
        ),
    decreases tagged.requests.len() - tagged.next, 1int,
{
    let name = tagged.package_name();
    let directory = (repository.worktree)(name)@;
    let metadata = (repository.metadata)(commit);
    let find_commit = GitOnlyActionView::FindCommit(tagged.tag);
    let adding = GitOnlyCollectionView { commit, stage: GitOnlyStage::AddingWorktree, ..tagged };
    let add = GitOnlyActionView::AddWorktree(name);
    lemma_run_step(tagged, find_commit, repository, adding, add);
    let opening = GitOnlyCollectionView {
        stage: GitOnlyStage::OpeningWorktree,
        worktree: Some(directory),
        ..adding
    };
    let open = GitOnlyActionView::OpenWorktree;
    lemma_run_step(adding, add, repository, opening, open);
    let checking_out = GitOnlyCollectionView { stage: GitOnlyStage::CheckingOut, ..opening };
    let checkout = GitOnlyActionView::Checkout(commit);
    lemma_run_step(opening, open, repository, checking_out, checkout);
    let describing = GitOnlyCollectionView { stage: GitOnlyStage::Describing, ..opening };
    let describe = GitOnlyActionView::Describe {
        directory,
        manifest: joined_path(directory, "Cargo.toml"@),
    };
    lemma_run_step(checking_out, checkout, repository, describing, describe);
    let loading = GitOnlyCollectionView {
        stage: GitOnlyStage::LoadingLockfile,
        metadata: Some(metadata),
        ..opening
    };
    let load = GitOnlyActionView::LoadLockfile {
        workspace_root: metadata.workspace_root@,
        commit,
    };
    lemma_run_step(describing, describe, repository, loading, load);
    let workspace = repository.workspace_at(commit);
    let reconstructed = GitOnlyCollectionView {
        metadata: None,
        workspaces: tagged.workspaces.insert(commit, workspace),
        ..loading
    };
    let (next, then) = reconstructed.collecting(workspace);
    lemma_run_step(loading, load, repository, next, then);
    lemma_collecting(repository, reconstructed, tagged.workspaces);
}

/// Each package was released from the workspace at its commit, and is called by its name.
pub open spec fn packages_share_workspaces(found: GitOnlyPackagesView) -> bool {
    forall|name: Seq<char>| #[trigger]
        found.packages.contains_key(name) ==> {
            let package = found.packages[name];
            &&& package.package.name == name
            &&& package.sha1 is Some
            &&& found.workspaces.contains_key(package.sha1->0)
            &&& package.released_workspace == Some(found.workspaces[package.sha1->0])
        }
}

/// Packages that were released from the same commit share one workspace, the one at that
/// commit; and one worktree is added for each commit, however many packages it released.
pub proof fn one_workspace_for_each_commit(
    repository: Repository,
    requests: Seq<TagRequestView>,
    next: int,
    found: GitOnlyPackagesView,
)
    requires
        workspaces_are_genuine(repository, found.workspaces),
        packages_share_workspaces(found),
    ensures
        ({
            let (commits, result) = releases(repository, requests, next, found);
            &&& commits.no_duplicates()
            &&& forall|commit: Seq<char>|
                commits.contains(commit) ==> !(#[trigger] found.workspaces.contains_key(commit))
            &&& result matches Ok(all) ==> {
                &&& workspaces_are_genuine(repository, all.workspaces)
                &&& packages_share_workspaces(all)
                &&& forall|commit: Seq<char>| #[trigger]
                    all.workspaces.contains_key(commit) <==> found.workspaces.contains_key(commit)
                        || commits.contains(commit)
            }
        }),
    decreases requests.len() - next,
{
    if next < requests.len() {
        match repository.release_of(requests[next]) {
            None => one_workspace_for_each_commit(repository, requests, next + 1, found),
            Some(commit) => {
                let workspace = repository.workspace_at(commit);
                let members = package_views(workspace.metadata.members());
                let name = requests[next].package_name;
                found_package_has_the_name(members, name);
                match first_named(members, name) {
                    Some(package) => {
                        let released = RegistryPackageView {
                            package,
                            sha1: Some(commit),
                            released_workspace: Some(workspace),
                        };
                        let more = GitOnlyPackagesView {
                            packages: found.packages.insert(package.name, released),
                            workspaces: found.workspaces.insert(commit, workspace),
                        };
                        assert(packages_share_workspaces(more)) by {
                            assert forall|other: Seq<char>| #[trigger]
                                more.packages.contains_key(other) implies ({
                                let package = more.packages[other];
                                &&& package.package.name == other
                                &&& package.sha1 is Some
                                &&& more.workspaces.contains_key(package.sha1->0)
                                &&& package.released_workspace == Some(
                                    more.workspaces[package.sha1->0],
                                )
                            }) by {
                                if other != package.name {
                                    assert(found.packages.contains_key(other));
                                }
                            }
                        }
                        one_workspace_for_each_commit(repository, requests, next + 1, more);
                        let (commits, result) = releases(repository, requests, next + 1, more);
                        assert(!commits.contains(commit)) by {
                            assert(more.workspaces.contains_key(commit));
                        }
                        assert forall|c: Seq<char>| commits.contains(c) implies !(
                        #[trigger] found.workspaces.contains_key(c)) by {
                            assert(!more.workspaces.contains_key(c));
                        }
                        let with_new = seq![commit] + commits;
                        assert(with_new.no_duplicates()) by {
                            assert forall|i: int, j: int|
                                0 <= i < with_new.len() && 0 <= j < with_new.len() && i
                                    != j implies with_new[i] != with_new[j] by {
                                if i > 0 && j > 0 {
                                    assert(commits[i - 1] != commits[j - 1]);
                                } else if i == 0 {
                                    assert(with_new[j] == commits[j - 1]);
                                    assert(commits.contains(commits[j - 1]));
                                } else {
                                    assert(with_new[i] == commits[i - 1]);
                                    assert(commits.contains(commits[i - 1]));
                                }
                            }
                        }
                        assert forall|c: Seq<char>| with_new.contains(c) <==> c == commit
                            || commits.contains(c) by {
                            assert(with_new[0] == commit);
                            if commits.contains(c) {
                                let k = commits.index_of(c);
                                assert(with_new[k + 1] == c);
                            }
                            if with_new.contains(c) {
                                let k = with_new.index_of(c);
                                if k > 0 {
                                    assert(commits[k - 1] == c);
                                }
                            }
                        }
                    },
                    None => {
                        assert(seq![commit] + Seq::<Seq<char>>::empty() =~= seq![commit]);
                    },
                }
            },
        }
    }
}

/// A package without a release tag is not collected: it is a first release.
pub proof fn untagged_packages_are_first_releases(
    repository: Repository,
    requests: Seq<TagRequestView>,
    next: int,
    found: GitOnlyPackagesView,
    name: Seq<char>,
)
    requires
        0 <= next,
        forall|i: int|
            next <= i < requests.len() && (#[trigger] requests[i]).package_name == name
                ==> repository.release_of(requests[i]) is None,
    ensures
        releases(repository, requests, next, found).1 matches Ok(all) ==> (
        all.packages.contains_key(name) <==> found.packages.contains_key(name)),
    decreases requests.len() - next,
{
    if next < requests.len() {
        match repository.release_of(requests[next]) {
            None => untagged_packages_are_first_releases(
                repository,
                requests,
                next + 1,
                found,
                name,
            ),
            Some(commit) => {
                let workspace = repository.workspace_at(commit);
                let members = package_views(workspace.metadata.members());
                found_package_has_the_name(members, requests[next].package_name);
                if let Some(package) = first_named(members, requests[next].package_name) {
                    let released = RegistryPackageView {
                        package,
                        sha1: Some(commit),
                        released_workspace: Some(workspace),
                    };
                    let more = GitOnlyPackagesView {
                        packages: found.packages.insert(package.name, released),
                        workspaces: found.workspaces.insert(commit, workspace),
                    };
                    untagged_packages_are_first_releases(
                        repository,
                        requests,
                        next + 1,
                        more,
                        name,
                    );
                }
            },
        }
    }
}

/// Each package is looked for by its own name and by the tag template that is configured for it;
/// one without a template is looked for by the default.
pub proof fn packages_are_looked_for_by_their_templates(
    packages: &Vec<Package>,
    request: &UpdateRequest,
    is_multi_package: bool,
    r: Vec<TagRequest>,
    i: int,
)
    requires
        call_ensures(release_tags, (packages, request, is_multi_package), r),
        0 <= i < packages@.len(),
    ensures
        r@.len() == packages@.len(),
        r@[i].package_name@ == packages@[i].name@,
        is_template_for(*request, packages@[i].name@, is_multi_package, r@[i].template@),
{
    assert(request_views(r@).len() == r@.len());
    assert(request_views(r@)[i] == r@[i]@);
    assert(package_views(packages@)[i] == packages@[i]@);
}

/// The tag template that a package has: the one of its configuration, or of the default one where
/// it has none of its own; and where that says nothing, the usual one.
pub open spec fn is_template_for(
    request: UpdateRequest,
    name: Seq<char>,
    is_multi_package: bool,
    template: Seq<char>,
) -> bool {
    let configured = if request.overrides@.contains_key(name) {
        request.overrides@[name].tag_name_template
    } else {
        request.default_config.tag_name_template
    };
    match configured {
        Some(configured) => template == configured@,
        None => template == if is_multi_package {
            "{{ package }}-v{{ version }}"@
        } else {
            "v{{ version }}"@
        },
    }
}

/// A collection begins in the repository of the local manifest. Without packages it ends with
/// nothing, and a manifest without a directory is an error.
pub proof fn collection_begins_in_the_repository(
    packages: &Vec<Package>,
    request: &UpdateRequest,
    is_multi_package: bool,
    r: (GitOnlyCollection, GitOnlyAction),
    i: int,
)
    requires
        call_ensures(GitOnlyCollection::start, (packages, request, is_multi_package), r),
    ensures
        packages@.len() == 0 ==> r.1@ == GitOnlyActionView::Finish(
            Ok(GitOnlyPackagesView { packages: Map::empty(), workspaces: Map::empty() }),
        ),
        packages@.len() > 0 ==> {
            match parent_path(request.local_manifest@) {
                Some(directory) => {
                    &&& r.1@ == GitOnlyActionView::OpenRepository(directory)
                    &&& r.0@.stage == GitOnlyStage::OpeningRepository
                    &&& r.0@.directory == directory
                    &&& r.0@.next == 0
                    &&& r.0@.packages == Map::<Seq<char>, RegistryPackageView>::empty()
                    &&& r.0@.workspaces == Map::<Seq<char>, ReleasedWorkspaceView>::empty()
                    &&& r.0@.requests.len() == packages@.len()
                    &&& 0 <= i < packages@.len() ==> r.0@.requests[i].package_name
                        == packages@[i].name@ && is_template_for(
                        *request,
                        packages@[i].name@,
                        is_multi_package,
                        r.0@.requests[i].template,
                    )
                },
                None => r.1@ == GitOnlyActionView::Finish(
                    Err(GitOnlyError::NoManifestDir(request.local_manifest@)),
                ),
            }
        },
{
    assert(package_views(packages@).len() == packages@.len());
    if 0 <= i < packages@.len() {
        assert(package_views(packages@)[i] == packages@[i]@);
    }
}

/// The collection goes from state to state as [`GitOnlyCollectionView::after`] says.
pub proof fn collection_goes_on_by_its_state(
    collection: GitOnlyCollection,
    event: GitOnlyEvent,
    r: (GitOnlyCollection, GitOnlyAction),
)
    requires
        call_ensures(GitOnlyCollection::step, (collection, event), r),
    ensures
        (r.0@, r.1@) == collection@.after(event),
{
}

/// What follows once nothing is left to do for the package at hand: the tag of the next package is
/// looked for, and behind the last one all that was found is handed out.
pub open spec fn goes_on(
    collection: GitOnlyCollectionView,
    packages: Map<Seq<char>, RegistryPackageView>,
    workspaces: Map<Seq<char>, ReleasedWorkspaceView>,
    next: int,
    r: (GitOnlyCollectionView, GitOnlyActionView),
) -> bool {
    if next < collection.requests.len() {
        &&& r.1 == GitOnlyActionView::FindTag {
            template: collection.requests[next].template,
            package_name: collection.requests[next].package_name,
        }
        &&& r.0.stage == GitOnlyStage::FindingTag
        &&& r.0.requests == collection.requests
        &&& r.0.next == next
        &&& r.0.packages == packages
        &&& r.0.workspaces == workspaces
    } else {
        r.1 == GitOnlyActionView::Finish(Ok(GitOnlyPackagesView { packages, workspaces }))
    }
}

/// The tag of each package is looked for by its template. The commit of a tag that is found is
/// asked for; a package without a tag is passed over, and has no release.
pub proof fn tags_are_looked_for_in_turn(collection: GitOnlyCollectionView, tag: String)
    requires
        collection.is_valid(),
    ensures
        collection.stage == GitOnlyStage::OpeningRepository ==> goes_on(
            collection,
            collection.packages,
            collection.workspaces,
            collection.next,
            collection.after(GitOnlyEvent::Done),
        ),
        collection.stage == GitOnlyStage::FindingTag ==> collection.after(GitOnlyEvent::Tag(tag))
            == (
            GitOnlyCollectionView {
                stage: GitOnlyStage::FindingCommit,
                tag: tag@,
                ..collection
            },
            GitOnlyActionView::FindCommit(tag@),
        ),
        collection.stage == GitOnlyStage::FindingTag ==> goes_on(
            collection,
            collection.packages,
            collection.workspaces,
            collection.next + 1,
            collection.after(GitOnlyEvent::NoTag),
        ),
{
}

/// A package whose release was made at a commit that is known is taken from the workspace of that
/// commit: the first member of its name, with the commit and the workspace.
pub proof fn packages_of_a_known_commit_are_taken(
    collection: GitOnlyCollectionView,
    commit: String,
    i: int,
)
    requires
        collection.is_valid(),
        collection.stage == GitOnlyStage::FindingCommit,
        collection.workspaces.contains_key(commit@),
        ({
            let members = package_views(collection.workspaces[commit@].metadata.members());
            let name = collection.requests[collection.next].package_name;
            0 <= i <= members.len() && (i < members.len() ==> members[i].name == name) && forall|
                j: int,
            |
                0 <= j < i ==> (#[trigger] members[j]).name != name
        }),
    ensures
        ({
            let workspace = collection.workspaces[commit@];
            let members = package_views(workspace.metadata.members());
            let name = collection.requests[collection.next].package_name;
            let r = collection.after(GitOnlyEvent::Commit(commit));
            &&& i < members.len() ==> goes_on(
                collection,
                collection.packages.insert(
                    name,
                    RegistryPackageView {
                        package: members[i],
                        sha1: Some(commit@),
                        released_workspace: Some(workspace),
                    },
                ),
                collection.workspaces,
                collection.next + 1,
                r,
            )
            &&& i == members.len() ==> r.1 == GitOnlyActionView::Finish(
                Err(
                    GitOnlyError::PackageNotFound {
                        package_name: name,
                        workspace_root: workspace.metadata.workspace_root@,
                    },
                ),
            )
        }),
{
    let members = package_views(collection.workspaces[commit@].metadata.members());
    let name = collection.requests[collection.next].package_name;
    first_of_a_name_is_found(members, name, i);
}

/// For a commit that is not known yet, a worktree is added, the commit is checked out in it, Cargo
/// describes the workspace from there, and its lockfile is read, in this order. Then the package
/// is taken from that workspace, which is kept for the packages of the same commit.
pub proof fn workspace_of_a_new_commit_is_reconstructed(
    collection: GitOnlyCollectionView,
    commit: String,
    directory: String,
    metadata: Metadata,
    lockfile: Option<WorkspaceLockfile>,
    i: int,
)
    requires
        collection.is_valid(),
        collection.stage == GitOnlyStage::FindingCommit,
        !collection.workspaces.contains_key(commit@),
        ({
            let members = package_views(metadata.members());
            let name = collection.requests[collection.next].package_name;
            0 <= i <= members.len() && (i < members.len() ==> members[i].name == name) && forall|
                j: int,
            |
                0 <= j < i ==> (#[trigger] members[j]).name != name
        }),
    ensures
        ({
            let name = collection.requests[collection.next].package_name;
            let members = package_views(metadata.members());
            let workspace = ReleasedWorkspaceView { metadata, lockfile, commit: commit@ };
            let (adding, add) = collection.after(GitOnlyEvent::Commit(commit));
            let (opening, open) = adding.after(GitOnlyEvent::Worktree(Some(directory)));
            let (checking_out, check_out) = opening.after(GitOnlyEvent::Done);
            let (describing, describe) = checking_out.after(GitOnlyEvent::Done);
            let (loading, load) = describing.after(GitOnlyEvent::Described(metadata));
            let r = loading.after(GitOnlyEvent::Lockfile(lockfile));
            &&& add == GitOnlyActionView::AddWorktree(name)
            &&& open == GitOnlyActionView::OpenWorktree
            &&& check_out == GitOnlyActionView::Checkout(commit@)
            &&& describe == GitOnlyActionView::Describe {
                directory: directory@,
                manifest: joined_path(directory@, "Cargo.toml"@),
            }
            &&& load == GitOnlyActionView::LoadLockfile {
                workspace_root: metadata.workspace_root@,
                commit: commit@,
            }
            &&& i < members.len() ==> goes_on(
                collection,
                collection.packages.insert(
                    name,
                    RegistryPackageView {
                        package: members[i],
                        sha1: Some(commit@),
                        released_workspace: Some(workspace),
                    },
                ),
                collection.workspaces.insert(commit@, workspace),
                collection.next + 1,
                r,
            )
            &&& i == members.len() ==> r.1 == GitOnlyActionView::Finish(
                Err(
                    GitOnlyError::PackageNotFound {
                        package_name: name,
                        workspace_root: metadata.workspace_root@,
                    },
                ),
            )
            &&& adding.after(GitOnlyEvent::Failed).1 == GitOnlyActionView::Finish(
                Err(GitOnlyError::WorktreeNotAdded(name)),
            )
            &&& opening.after(GitOnlyEvent::Failed).1 == GitOnlyActionView::Finish(
                Err(GitOnlyError::WorktreeNotOpened(name)),
            )
            &&& checking_out.after(GitOnlyEvent::Failed).1 == GitOnlyActionView::Finish(
                Err(GitOnlyError::NotCheckedOut(commit@)),
            )
            &&& describing.after(GitOnlyEvent::Failed).1 == GitOnlyActionView::Finish(
                Err(GitOnlyError::NotDescribed(commit@)),
            )
            &&& loading.after(GitOnlyEvent::Failed).1 == GitOnlyActionView::Finish(
                Err(GitOnlyError::LockfileNotLoaded(commit@)),
            )
            &&& adding.after(GitOnlyEvent::Worktree(None)).0.after(GitOnlyEvent::Done).0.after(
                GitOnlyEvent::Done,
            ).1 == GitOnlyActionView::Finish(Err(GitOnlyError::WorktreeNotUtf8))
        }),
{
    let members = package_views(metadata.members());
    let name = collection.requests[collection.next].package_name;
    first_of_a_name_is_found(members, name, i);
    if i < members.len() {
        found_package_has_the_name(members, name);
    }
}

/// A repository that cannot be opened, a tag that cannot be looked for and a tag without a commit
/// end the collection, each with an error that says which it is.
pub proof fn failures_end_the_collection(collection: GitOnlyCollectionView, tag: String)
    requires
        collection.is_valid(),
    ensures
        collection.stage == GitOnlyStage::OpeningRepository ==> collection.after(
            GitOnlyEvent::Failed,
        ).1 == GitOnlyActionView::Finish(Err(GitOnlyError::NotOpened(collection.directory))),
        collection.stage == GitOnlyStage::FindingTag ==> collection.after(GitOnlyEvent::Failed).1
            == GitOnlyActionView::Finish(
            Err(
                GitOnlyError::TagNotSearched(collection.requests[collection.next].package_name),
            ),
        ),
        collection.stage == GitOnlyStage::FindingTag ==> collection.after(
            GitOnlyEvent::Tag(tag),
        ).0.after(GitOnlyEvent::Failed).1 == GitOnlyActionView::Finish(
            Err(GitOnlyError::CommitNotFound(tag@)),
        ),
{
}

/// The collection goes on from each state that it reaches, whatever comes of its action.
pub proof fn collection_takes_what_can_come(collection: GitOnlyCollection, event: GitOnlyEvent)
    requires
        collection@.is_valid(),
    ensures
        match collection@.stage {
            GitOnlyStage::FindingTag => event is Tag || event is NoTag || event is Failed,
            GitOnlyStage::FindingCommit => event is Commit || event is Failed,
            GitOnlyStage::AddingWorktree => event is Worktree || event is Failed,
            GitOnlyStage::Describing => event is Described || event is Failed,
            GitOnlyStage::LoadingLockfile => event is Lockfile || event is Failed,
            GitOnlyStage::Finished => false,
            _ => event is Done || event is Failed,
        } ==> call_requires(GitOnlyCollection::step, (collection, event)),
{
}

}
