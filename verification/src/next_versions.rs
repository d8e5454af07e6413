//! Determining the next versions: which packages are compared with which releases.

use crate::name_map::NameMap;
use crate::package::{package_views, Package, PackageView};
use crate::registry_fetch::CollectionView;
use crate::registry_packages::{models, PackagesCollection, RegistryPackage, RegistryPackageView};
use crate::text::{contains_text, texts};
use crate::update_request::UpdateRequest;
use crate::workspace::{
    conditions_that_agree_keep_the_same, kept_items_were_there, lemma_filter_step,
    workspace_packages,
};
use vstd::prelude::*;

verus! {

/// The version of a package is determined by Git tags.
pub open spec fn uses_git_only(request: UpdateRequest) -> spec_fn(PackageView) -> bool {
    |package: PackageView| request.config_of(package.name).git_only
}

/// The version of a package is determined by a registry.
pub open spec fn uses_registry(request: UpdateRequest) -> spec_fn(PackageView) -> bool {
    |package: PackageView| !request.config_of(package.name).git_only
}

/// The packages whose versions are determined by Git tags, and the others.
pub fn split_by_git_only(packages: Vec<Package>, request: &UpdateRequest) -> (r: (
    Vec<Package>,
    Vec<Package>,
))
    ensures
        package_views(r.0@) == package_views(packages@).filter(uses_git_only(*request)),
        package_views(r.1@) == package_views(packages@).filter(uses_registry(*request)),
{
    let ghost list = packages@;
    let ghost views = package_views(packages@);
    let ghost first = uses_git_only(*request);
    let ghost second = uses_registry(*request);
    let mut git_only: Vec<Package> = Vec::new();
    let mut registry: Vec<Package> = Vec::new();
    proof {
        reveal(Seq::filter);
        assert(package_views(git_only@) =~= views.take(0).filter(first));
        assert(package_views(registry@) =~= views.take(0).filter(second));
    }
    for package in it: packages.into_iter()
        invariant
            it.seq() == list,
            views == package_views(list),
            first == uses_git_only(*request),
            second == uses_registry(*request),
            package_views(git_only@) == views.take(it.index()).filter(first),
            package_views(registry@) == views.take(it.index()).filter(second),
    {
        proof {
            lemma_filter_step(views, first, it.index());
            lemma_filter_step(views, second, it.index());
            assert(views[it.index()] == package@);
        }
        if request.should_use_git_only(package.name.as_str()) {
            let ghost earlier = git_only@;
            git_only.push(package);
            assert(package_views(git_only@) =~= package_views(earlier).push(package@));
        } else {
            let ghost earlier = registry@;
            registry.push(package);
            assert(package_views(registry@) =~= package_views(earlier).push(package@));
        }
    }
    assert(views.take(list.len() as int) =~= views);
    (git_only, registry)
}

/// The package is one of those that can be published.
pub open spec fn is_one_of(publishable: Seq<Seq<char>>) -> spec_fn(PackageView) -> bool {
    |package: PackageView| publishable.contains(package.name)
}

/// Copies of those of `packages` whose names are among `publishable`, in their order.
pub fn only_publishable(packages: &Vec<Package>, publishable: &Vec<String>) -> (r: Vec<Package>)
    ensures
        package_views(r@) == package_views(packages@).filter(is_one_of(texts(publishable@))),
{
    let ghost views = package_views(packages@);
    let ghost names = texts(publishable@);
    let ghost keep = is_one_of(names);
    let mut r: Vec<Package> = Vec::new();
    let mut i: usize = 0;
    proof {
        reveal(Seq::filter);
        assert(package_views(r@) =~= views.take(0).filter(keep));
    }
    while i < packages.len()
        invariant
            i <= packages@.len(),
            views == package_views(packages@),
            names == texts(publishable@),
            keep == is_one_of(names),
            package_views(r@) == views.take(i as int).filter(keep),
        decreases packages@.len() - i,
    {
        let package = &packages[i];
        let found = contains_text(publishable, package.name.as_str());
        proof {
            lemma_filter_step(views, keep, i as int);
            assert(views[i as int] == package@);
            if found {
                let k = choose|k: int|
                    0 <= k < publishable@.len() && #[trigger] publishable@[k]@ == package.name@;
                assert(names[k] == package.name@);
            }
            if names.contains(package.name@) {
                let k = names.index_of(package.name@);
                assert(publishable@[k]@ == package.name@);
            }
        }
        if found {
            let ghost earlier = r@;
            r.push(package.copy());
            assert(package_views(r@) =~= package_views(earlier).push(package@));
        }
        i += 1;
    }
    assert(views.take(i as int) =~= views);
    r
}

/// Those of the published packages that have one of these names.
pub open spec fn selected(
    names: Seq<Seq<char>>,
    published: Map<Seq<char>, RegistryPackageView>,
) -> Map<Seq<char>, RegistryPackageView> {
    Map::new(
        |name: Seq<char>| names.contains(name) && published.contains_key(name),
        |name: Seq<char>|
            RegistryPackageView {
                package: published[name].package,
                sha1: published[name].sha1,
                released_workspace: None,
            },
    )
}

/// Copies of those of the published packages that have one of these names. A package that was
/// never published has none.
pub fn select_published(names: &Vec<String>, published: &PackagesCollection) -> (r: NameMap<
    RegistryPackage,
>)
    ensures
        models(r@) == selected(texts(names@), published@),
{
    let ghost list = texts(names@);
    let mut r: NameMap<RegistryPackage> = NameMap::new();
    let mut i: usize = 0;
    assert(models(r@) =~= selected(list.take(0), published@));
    while i < names.len()
        invariant
            i <= names@.len(),
            list == texts(names@),
            models(r@) == selected(list.take(i as int), published@),
        decreases names@.len() - i,
    {
        let name = &names[i];
        let ghost before = r@;
        proof {
            assert(list[i as int] == name@);
            assert(list.take(i + 1) =~= list.take(i as int).push(name@));
            assert forall|k: Seq<char>| list.take(i + 1).contains(k) <==> list.take(
                i as int,
            ).contains(k) || k == name@ by {
                let longer = list.take(i as int).push(name@);
                assert(longer[i as int] == name@);
                if list.take(i as int).contains(k) {
                    let p = list.take(i as int).index_of(k);
                    assert(longer[p] == k);
                }
                if longer.contains(k) {
                    let p = longer.index_of(k);
                    if p < i {
                        assert(list.take(i as int)[p] == k);
                    }
                }
            }
        }
        match published.get_registry_package(name.as_str()) {
            Some(found) => {
                let sha1 = match found.published_at_sha1() {
                    Some(sha1) => Some(sha1.to_owned()),
                    None => None,
                };
                let released = RegistryPackage::new(found.package.copy(), sha1);
                r = r.insert(name.clone(), released);
                proof {
                    let next = selected(list.take(i + 1), published@);
                    assert(list.take(i + 1)[i as int] == name@);
                    assert(next.contains_key(name@));
                    assert(released@ == next[name@]);
                    assert(models(r@) =~= models(before).insert(name@, released@));
                    assert(models(r@) =~= next);
                }
            },
            None => {
                assert(models(r@) =~= selected(list.take(i + 1), published@));
            },
        }
        i += 1;
    }
    assert(list.take(i as int) =~= list);
    r
}

/// What a repository comes to that is clean or not.
#[derive(Debug, Clone, Copy, PartialEq, Eq, Structural)]
pub enum CleanStep {
    Proceed,
    /// There are uncommitted changes, and they are not allowed.
    Refuse,
    /// There are uncommitted changes; they are set aside, so that other commits can be
    /// checked out.
    Stash,
}

/// What a repository comes to that is clean or not.
pub open spec fn clean_step_of(allow_dirty: bool, is_clean: bool) -> CleanStep {
    if is_clean {
        CleanStep::Proceed
    } else if allow_dirty {
        CleanStep::Stash
    } else {
        CleanStep::Refuse
    }
}

/// What a repository comes to that is clean or not.
pub fn clean_step(allow_dirty: bool, is_clean: bool) -> (r: CleanStep)
    ensures
        r == clean_step_of(allow_dirty, is_clean),
{
    if is_clean {
        CleanStep::Proceed
    } else if allow_dirty {
        CleanStep::Stash
    } else {
        CleanStep::Refuse
    }
}

/// What sets uncommitted changes aside.
pub open spec fn stash_words() -> Seq<Seq<char>> {
    seq![
        "stash"@,
        "push"@,
        "--include-untracked"@,
        "-m"@,
        "uncommitted changes stashed by release-plz"@,
    ]
}

/// The arguments of `git` that set uncommitted changes aside. The repository is a copy, so
/// this has no effect on the one of the user.
pub fn stash_arguments() -> (r: Vec<String>)
    ensures
        texts(r@) == stash_words(),
{
    let mut r: Vec<String> = Vec::new();
    r.push("stash".to_owned());
    r.push("push".to_owned());
    r.push("--include-untracked".to_owned());
    r.push("-m".to_owned());
    r.push("uncommitted changes stashed by release-plz".to_owned());
    assert(texts(r@) =~= stash_words());
    r
}

/// Why the next versions could not be determined.
#[derive(Debug, Clone, Copy, PartialEq, Eq, Structural)]
pub enum NextVersionsError {
    ProjectNotLoaded,
    /// The releases that are found by Git tags could not be collected.
    GitOnlyNotCollected,
    /// The published packages could not be got.
    NotFetched,
    RepositoryNotFound,
    /// There are uncommitted changes.
    Dirty,
    NotStashed,
    NotUpdated,
}

/// What the caller is asked to do to determine the next versions.
#[derive(Debug)]
pub enum NextVersionsAction {
    /// Load the local project.
    LoadProject,
    /// Collect the releases of these packages by Git tags.
    CollectGitOnly { packages: Vec<Package>, is_multi_package: bool },
    /// Get these packages as they were last published.
    FetchPublished(Vec<Package>),
    /// Make a copy of the repository of the project.
    OpenRepository,
    /// Say whether the copy is free of uncommitted changes.
    CheckClean,
    /// Run `git` with these arguments in the copy.
    Stash(Vec<String>),
    /// Compare the project with these releases.
    Update(PackagesCollection),
    /// Nothing more.
    Finish(Result<(), NextVersionsError>),
}

/// The model of a [`NextVersionsAction`].
pub enum NextVersionsActionView {
    LoadProject,
    CollectGitOnly { packages: Seq<PackageView>, is_multi_package: bool },
    FetchPublished(Seq<PackageView>),
    OpenRepository,
    CheckClean,
    Stash(Seq<Seq<char>>),
    Update(CollectionView),
    Finish(Result<(), NextVersionsError>),
}

/// The model of a collection.
pub open spec fn collection_view(collection: PackagesCollection) -> CollectionView {
    CollectionView { packages: collection@, temp_dir: collection.temp_dir() }
}

impl View for NextVersionsAction {
    type V = NextVersionsActionView;

    open spec fn view(&self) -> NextVersionsActionView {
        match self {
            NextVersionsAction::LoadProject => NextVersionsActionView::LoadProject,
            NextVersionsAction::CollectGitOnly { packages, is_multi_package } => {
                NextVersionsActionView::CollectGitOnly {
                    packages: package_views(packages@),
                    is_multi_package: *is_multi_package,
                }
            },
            NextVersionsAction::FetchPublished(packages) => NextVersionsActionView::FetchPublished(
                package_views(packages@),
            ),
            NextVersionsAction::OpenRepository => NextVersionsActionView::OpenRepository,
            NextVersionsAction::CheckClean => NextVersionsActionView::CheckClean,
            NextVersionsAction::Stash(arguments) => NextVersionsActionView::Stash(
                texts(arguments@),
            ),
            NextVersionsAction::Update(collection) => NextVersionsActionView::Update(
                collection_view(*collection),
            ),
            NextVersionsAction::Finish(result) => NextVersionsActionView::Finish(*result),
        }
    }
}

/// What came of a [`NextVersionsAction`].
#[derive(Debug)]
pub enum NextVersionsEvent {
    /// The names of the packages of the project that can be published, and whether the
    /// project releases more than one package.
    Project { publishable: Vec<String>, is_multi_package: bool },
    /// The releases that were found by Git tags, by the names of the packages.
    GitOnly(NameMap<RegistryPackage>),
    /// The published packages.
    Published(PackagesCollection),
    /// Whether the repository is clean.
    Clean(bool),
    /// It was done.
    Done,
    /// It failed.
    Failed,
}

/// How far the determination is.
#[derive(Debug, Clone, Copy, PartialEq, Eq, Structural)]
pub enum NextVersionsStage {
    LoadingProject,
    CollectingGitOnly,
    Fetching,
    OpeningRepository,
    CheckingClean,
    Stashing,
    Updating,
    Finished,
}

/// The determination of the next versions under way.
#[derive(Debug)]
pub struct NextVersions {
    allow_dirty: bool,
    /// The packages whose versions are determined by Git tags.
    git_only: Vec<Package>,
    /// The packages whose versions are determined by a registry.
    registry: Vec<Package>,
    /// The names of the packages that can be published.
    publishable: Vec<String>,
    /// The names of the published packages that are wanted.
    names: Vec<String>,
    /// The releases found so far.
    packages: NameMap<RegistryPackage>,
    /// All releases.
    collection: Option<PackagesCollection>,
    stage: NextVersionsStage,
}

/// The model of a [`NextVersions`].
#[verifier::ext_equal]
pub struct NextVersionsView {
    pub allow_dirty: bool,
    pub git_only: Seq<PackageView>,
    pub registry: Seq<PackageView>,
    pub publishable: Seq<Seq<char>>,
    pub names: Seq<Seq<char>>,
    pub packages: Map<Seq<char>, RegistryPackageView>,
    pub collection: Option<CollectionView>,
    pub stage: NextVersionsStage,
}

impl View for NextVersions {
    type V = NextVersionsView;

    closed spec fn view(&self) -> NextVersionsView {
        NextVersionsView {
            allow_dirty: self.allow_dirty,
            git_only: package_views(self.git_only@),
            registry: package_views(self.registry@),
            publishable: texts(self.publishable@),
            names: texts(self.names@),
            packages: models(self.packages@),
            collection: match self.collection {
                Some(collection) => Some(collection_view(collection)),
                None => None,
            },
            stage: self.stage,
        }
    }
}

/// The names of packages.
pub open spec fn names_of(packages: Seq<PackageView>) -> Seq<Seq<char>> {
    packages.map_values(|package: PackageView| package.name)
}

impl NextVersionsView {
    /// What a stage goes with.
    pub open spec fn is_valid(self) -> bool {
        match self.stage {
            NextVersionsStage::OpeningRepository
            | NextVersionsStage::CheckingClean
            | NextVersionsStage::Stashing => self.collection is Some,
            _ => true,
        }
    }

    /// An event that can follow the last action.
    pub open spec fn expects(self, event: NextVersionsEvent) -> bool {
        match self.stage {
            NextVersionsStage::LoadingProject => event is Project || event is Failed,
            NextVersionsStage::CollectingGitOnly => event is GitOnly || event is Failed,
            NextVersionsStage::Fetching => event is Published || event is Failed,
            NextVersionsStage::CheckingClean => event is Clean,
            NextVersionsStage::OpeningRepository
            | NextVersionsStage::Stashing
            | NextVersionsStage::Updating => event is Done || event is Failed,
            NextVersionsStage::Finished => false,
        }
    }

    /// The end, with a result.
    pub open spec fn ending(self, result: Result<(), NextVersionsError>) -> (
        NextVersionsView,
        NextVersionsActionView,
    ) {
        (
            NextVersionsView { stage: NextVersionsStage::Finished, ..self },
            NextVersionsActionView::Finish(result),
        )
    }

    /// The packages whose last published versions are wanted: those that can be published.
    pub open spec fn wanted(self) -> Seq<PackageView> {
        self.registry.filter(is_one_of(self.publishable))
    }

    /// All releases are known: those found by Git tags, and the published ones that are
    /// wanted. They are where the published ones are.
    pub open spec fn collecting(self, published: CollectionView) -> (
        NextVersionsView,
        NextVersionsActionView,
    ) {
        (
            NextVersionsView {
                stage: NextVersionsStage::OpeningRepository,
                packages: Map::empty(),
                collection: Some(
                    CollectionView {
                        packages: self.packages.union_prefer_right(
                            selected(self.names, published.packages),
                        ),
                        temp_dir: published.temp_dir,
                    },
                ),
                ..self
            },
            NextVersionsActionView::OpenRepository,
        )
    }

    /// Compare the project with the releases.
    pub open spec fn updating(self) -> (NextVersionsView, NextVersionsActionView) {
        (
            NextVersionsView { stage: NextVersionsStage::Updating, collection: None, ..self },
            NextVersionsActionView::Update(self.collection->0),
        )
    }

    /// The next state and action.
    pub open spec fn after(self, event: NextVersionsEvent) -> (
        NextVersionsView,
        NextVersionsActionView,
    ) {
        match (self.stage, event) {
            (
                NextVersionsStage::LoadingProject,
                NextVersionsEvent::Project { publishable, is_multi_package },
            ) => (
                NextVersionsView {
                    stage: NextVersionsStage::CollectingGitOnly,
                    git_only: seq![],
                    publishable: texts(publishable@),
                    ..self
                },
                NextVersionsActionView::CollectGitOnly {
                    packages: self.git_only,
                    is_multi_package,
                },
            ),
            (NextVersionsStage::LoadingProject, _) => self.ending(
                Err(NextVersionsError::ProjectNotLoaded),
            ),
            (NextVersionsStage::CollectingGitOnly, NextVersionsEvent::GitOnly(packages)) => {
                let found = NextVersionsView {
                    packages: models(packages@),
                    names: names_of(self.wanted()),
                    ..self
                };
                if self.wanted().len() == 0 {
                    found.collecting(CollectionView { packages: Map::empty(), temp_dir: None })
                } else {
                    (
                        NextVersionsView { stage: NextVersionsStage::Fetching, ..found },
                        NextVersionsActionView::FetchPublished(self.wanted()),
                    )
                }
            },
            (NextVersionsStage::CollectingGitOnly, _) => self.ending(
                Err(NextVersionsError::GitOnlyNotCollected),
            ),
            (NextVersionsStage::Fetching, NextVersionsEvent::Published(collection)) => {
                self.collecting(collection_view(collection))
            },
            (NextVersionsStage::Fetching, _) => self.ending(Err(NextVersionsError::NotFetched)),
            (NextVersionsStage::OpeningRepository, NextVersionsEvent::Done) => (
                NextVersionsView { stage: NextVersionsStage::CheckingClean, ..self },
                NextVersionsActionView::CheckClean,
            ),
            (NextVersionsStage::OpeningRepository, _) => self.ending(
                Err(NextVersionsError::RepositoryNotFound),
            ),
            (NextVersionsStage::CheckingClean, NextVersionsEvent::Clean(is_clean)) => {
                match clean_step_of(self.allow_dirty, is_clean) {
                    CleanStep::Proceed => self.updating(),
                    CleanStep::Refuse => self.ending(Err(NextVersionsError::Dirty)),
                    CleanStep::Stash => (
                        NextVersionsView { stage: NextVersionsStage::Stashing, ..self },
                        NextVersionsActionView::Stash(stash_words()),
                    ),
                }
            },
            (NextVersionsStage::Stashing, NextVersionsEvent::Done) => self.updating(),
            (NextVersionsStage::Stashing, _) => self.ending(Err(NextVersionsError::NotStashed)),
            (NextVersionsStage::Updating, NextVersionsEvent::Done) => self.ending(Ok(())),
            (NextVersionsStage::Updating, _) => self.ending(Err(NextVersionsError::NotUpdated)),
            _ => self.ending(Ok(())),
        }
    }
}

fn package_names(packages: &Vec<Package>) -> (r: Vec<String>)
    ensures
        texts(r@) == names_of(package_views(packages@)),
{
    let mut r: Vec<String> = Vec::new();
    let mut i: usize = 0;
    while i < packages.len()
        invariant
            i <= packages@.len(),
            r@.len() == i,
            forall|j: int| 0 <= j < i ==> #[trigger] r@[j]@ == packages@[j]@.name,
        decreases packages@.len() - i,
    {
        r.push(packages[i].name.clone());
        i += 1;
    }
    assert(texts(r@) =~= names_of(package_views(packages@)));
    r
}

impl NextVersions {
    /// The determination of the next versions of the packages of the workspace, and the first
    /// action.
    pub fn start(request: &UpdateRequest) -> (r: (NextVersions, NextVersionsAction))
        ensures
            r.0@ == (NextVersionsView {
                allow_dirty: request.allow_dirty,
                git_only: package_views(request.metadata.members()).filter(
                    uses_git_only(*request),
                ),
                registry: package_views(request.metadata.members()).filter(
                    uses_registry(*request),
                ),
                publishable: seq![],
                names: seq![],
                packages: Map::empty(),
                collection: None,
                stage: NextVersionsStage::LoadingProject,
            }),
            r.0@.is_valid(),
            r.1@ == NextVersionsActionView::LoadProject,
    {
        let (git_only, registry) = split_by_git_only(
            workspace_packages(&request.metadata),
            request,
        );
        let determination = NextVersions {
            allow_dirty: request.allow_dirty,
            git_only,
            registry,
            publishable: Vec::new(),
            names: Vec::new(),
            packages: NameMap::new(),
            collection: None,
            stage: NextVersionsStage::LoadingProject,
        };
        assert(determination@.publishable =~= seq![]);
        assert(determination@.names =~= seq![]);
        assert(determination@.packages =~= Map::empty());
        (determination, NextVersionsAction::LoadProject)
    }

    fn finish(self, result: Result<(), NextVersionsError>) -> (r: (
        NextVersions,
        NextVersionsAction,
    ))
        ensures
            (r.0@, r.1@) == self@.ending(result),
            r.0@.is_valid(),
    {
        (
            NextVersions { stage: NextVersionsStage::Finished, ..self },
            NextVersionsAction::Finish(result),
        )
    }

    fn collect(self, published: PackagesCollection) -> (r: (NextVersions, NextVersionsAction))
        ensures
            (r.0@, r.1@) == self@.collecting(collection_view(published)),
            r.0@.is_valid(),
    {
        let ghost before = self@;
        let NextVersions {
            allow_dirty,
            git_only,
            registry,
            publishable,
            names,
            packages,
            collection: _,
            stage: _,
        } = self;
        let chosen = select_published(&names, &published);
        let all = packages.extend(chosen);
        assert(models(all@) =~= before.packages.union_prefer_right(models(chosen@)));
        let determination = NextVersions {
            allow_dirty,
            git_only,
            registry,
            publishable,
            names,
            packages: NameMap::new(),
            collection: Some(published.with_packages(all)),
            stage: NextVersionsStage::OpeningRepository,
        };
        assert(determination@.packages =~= Map::empty());
        (determination, NextVersionsAction::OpenRepository)
    }

    fn update(self) -> (r: (NextVersions, NextVersionsAction))
        requires
            self.collection is Some,
        ensures
            (r.0@, r.1@) == self@.updating(),
            r.0@.is_valid(),
    {
        let NextVersions {
            allow_dirty,
            git_only,
            registry,
            publishable,
            names,
            packages,
            collection,
            stage: _,
        } = self;
        let determination = NextVersions {
            allow_dirty,
            git_only,
            registry,
            publishable,
            names,
            packages,
            collection: None,
            stage: NextVersionsStage::Updating,
        };
        match collection {
            Some(collection) => (determination, NextVersionsAction::Update(collection)),
            None => (determination, NextVersionsAction::LoadProject),
        }
    }

    /// The next state and action, after what came of the last action.
    pub fn step(self, event: NextVersionsEvent) -> (r: (NextVersions, NextVersionsAction))
        requires
            self@.is_valid(),
            self@.expects(event),
        ensures
            (r.0@, r.1@) == self@.after(event),
            r.0@.is_valid(),
    {
        match (self.stage, event) {
            (
                NextVersionsStage::LoadingProject,
                NextVersionsEvent::Project { publishable, is_multi_package },
            ) => {
                let NextVersions {
                    allow_dirty,
                    git_only,
                    registry,
                    publishable: _,
                    names,
                    packages,
                    collection,
                    stage: _,
                } = self;
                let determination = NextVersions {
                    allow_dirty,
                    git_only: Vec::new(),
                    registry,
                    publishable,
                    names,
                    packages,
                    collection,
                    stage: NextVersionsStage::CollectingGitOnly,
                };
                assert(determination@.git_only =~= seq![]);
                (
                    determination,
                    NextVersionsAction::CollectGitOnly { packages: git_only, is_multi_package },
                )
            },
            (NextVersionsStage::LoadingProject, _) => self.finish(
                Err(NextVersionsError::ProjectNotLoaded),
            ),
            (NextVersionsStage::CollectingGitOnly, NextVersionsEvent::GitOnly(packages)) => {
                let wanted = only_publishable(&self.registry, &self.publishable);
                let names = package_names(&wanted);
                let found = NextVersions { packages, names, ..self };
                if wanted.is_empty() {
                    found.collect(PackagesCollection::default())
                } else {
                    (
                        NextVersions { stage: NextVersionsStage::Fetching, ..found },
                        NextVersionsAction::FetchPublished(wanted),
                    )
                }
            },
            (NextVersionsStage::CollectingGitOnly, _) => self.finish(
                Err(NextVersionsError::GitOnlyNotCollected),
            ),
            (NextVersionsStage::Fetching, NextVersionsEvent::Published(collection)) => self.collect(
                collection,
            ),
            (NextVersionsStage::Fetching, _) => self.finish(Err(NextVersionsError::NotFetched)),
            (NextVersionsStage::OpeningRepository, NextVersionsEvent::Done) => (
                NextVersions { stage: NextVersionsStage::CheckingClean, ..self },
                NextVersionsAction::CheckClean,
            ),
            (NextVersionsStage::OpeningRepository, _) => self.finish(
                Err(NextVersionsError::RepositoryNotFound),
            ),
            (NextVersionsStage::CheckingClean, NextVersionsEvent::Clean(is_clean)) => {
                match clean_step(self.allow_dirty, is_clean) {
                    CleanStep::Proceed => self.update(),
                    CleanStep::Refuse => self.finish(Err(NextVersionsError::Dirty)),
                    CleanStep::Stash => (
                        NextVersions { stage: NextVersionsStage::Stashing, ..self },
                        NextVersionsAction::Stash(stash_arguments()),
                    ),
                }
            },
            (NextVersionsStage::Stashing, NextVersionsEvent::Done) => self.update(),
            (NextVersionsStage::Stashing, _) => self.finish(Err(NextVersionsError::NotStashed)),
            (NextVersionsStage::Updating, NextVersionsEvent::Done) => self.finish(Ok(())),
            (NextVersionsStage::Updating, _) => self.finish(Err(NextVersionsError::NotUpdated)),
            _ => self.finish(Ok(())),
        }
    }
}

/// Each package is either released from Git only or through a registry, and none is lost.
pub proof fn split_loses_nothing(packages: Seq<PackageView>, request: UpdateRequest)
    ensures
        packages.filter(uses_git_only(request)).len() + packages.filter(
            uses_registry(request),
        ).len() == packages.len(),
        forall|package: PackageView| #[trigger]
            packages.contains(package) ==> if request.config_of(package.name).git_only {
                packages.filter(uses_git_only(request)).contains(package) && !packages.filter(
                    uses_registry(request),
                ).contains(package)
            } else {
                packages.filter(uses_registry(request)).contains(package) && !packages.filter(
                    uses_git_only(request),
                ).contains(package)
            },
    decreases packages.len(),
{
    broadcast use vstd::seq_lib::group_seq_properties;

    reveal(Seq::filter);
    if packages.len() > 0 {
        split_loses_nothing(packages.drop_last(), request);
    }
    let first = uses_git_only(request);
    let second = uses_registry(request);
    assert forall|package: PackageView| #[trigger] packages.contains(package) implies if request.config_of(
        package.name,
    ).git_only {
        packages.filter(first).contains(package) && !packages.filter(second).contains(package)
    } else {
        packages.filter(second).contains(package) && !packages.filter(first).contains(package)
    } by {
        let i = packages.index_of(package);
        assert(packages[i] == package);
        if first(package) {
            packages.lemma_filter_contains(first, i);
            if packages.filter(second).contains(package) {
                let k = packages.filter(second).index_of(package);
                packages.lemma_filter_pred(second, k);
            }
        } else {
            packages.lemma_filter_contains(second, i);
            if packages.filter(first).contains(package) {
                let k = packages.filter(first).index_of(package);
                packages.lemma_filter_pred(first, k);
            }
        }
    }
}

/// The state after the published packages are known; where none are wanted, they are not asked
/// for.
pub open spec fn with_releases(
    determination: NextVersionsView,
    git_only: NameMap<RegistryPackage>,
    published: PackagesCollection,
) -> NextVersionsView {
    let found = determination.after(NextVersionsEvent::GitOnly(git_only)).0;
    if determination.wanted().len() == 0 {
        found
    } else {
        found.after(NextVersionsEvent::Published(published)).0
    }
}

/// The action after the repository is opened and found clean or not, and uncommitted changes
/// are set aside.
pub open spec fn after_opening(determination: NextVersionsView, is_clean: bool) -> NextVersionsActionView {
    let checking = determination.after(NextVersionsEvent::Done).0;
    let (next, then) = checking.after(NextVersionsEvent::Clean(is_clean));
    if then is Stash {
        next.after(NextVersionsEvent::Done).1
    } else {
        then
    }
}

/// The project is compared with the releases that were found by Git tags and with the
/// published packages that are wanted, in the directory of the latter; unless there are
/// uncommitted changes that are not allowed.
pub proof fn all_releases_reach_the_update(
    determination: NextVersionsView,
    git_only: NameMap<RegistryPackage>,
    published: PackagesCollection,
    is_clean: bool,
)
    requires
        determination.stage == NextVersionsStage::CollectingGitOnly,
    ensures
        ({
            let ready = with_releases(determination, git_only, published);
            let wanted = determination.wanted();
            after_opening(ready, is_clean) == if !is_clean && !determination.allow_dirty {
                NextVersionsActionView::Finish(Err(NextVersionsError::Dirty))
            } else {
                NextVersionsActionView::Update(
                    CollectionView {
                        packages: models(git_only@).union_prefer_right(
                            selected(
                                names_of(wanted),
                                if wanted.len() == 0 {
                                    Map::empty()
                                } else {
                                    published@
                                },
                            ),
                        ),
                        temp_dir: if wanted.len() == 0 {
                            None
                        } else {
                            published.temp_dir()
                        },
                    },
                )
            }
        }),
{
}

/// Uncommitted changes are set aside where they are allowed, and a clean repository is left
/// as it is.
pub proof fn only_dirty_repositories_are_stashed(determination: NextVersionsView, is_clean: bool)
    requires
        determination.stage == NextVersionsStage::CheckingClean,
    ensures
        determination.after(NextVersionsEvent::Clean(is_clean)).1 is Stash <==> !is_clean
            && determination.allow_dirty,
        determination.after(NextVersionsEvent::Clean(is_clean)).1 is Finish <==> !is_clean
            && !determination.allow_dirty,
{
}

/// Whether the request has the versions of a package determined by Git tags: as the package's own
/// configuration says, and where it has none, as the default says.
pub open spec fn asks_for_git_only(request: UpdateRequest, name: Seq<char>) -> bool {
    if request.overrides@.contains_key(name) {
        request.overrides@[name].git_only
    } else {
        request.default_config.git_only
    }
}

/// Packages are split by what the request asks for, and each part keeps their order.
pub proof fn packages_are_split_by_the_request(
    packages: Vec<Package>,
    request: &UpdateRequest,
    r: (Vec<Package>, Vec<Package>),
)
    requires
        call_ensures(split_by_git_only, (packages, request), r),
    ensures
        package_views(r.0@) == package_views(packages@).filter(
            |package: PackageView| asks_for_git_only(*request, package.name),
        ),
        package_views(r.1@) == package_views(packages@).filter(
            |package: PackageView| !asks_for_git_only(*request, package.name),
        ),
{
    conditions_that_agree_keep_the_same(
        package_views(packages@),
        uses_git_only(*request),
        |package: PackageView| asks_for_git_only(*request, package.name),
    );
    conditions_that_agree_keep_the_same(
        package_views(packages@),
        uses_registry(*request),
        |package: PackageView| !asks_for_git_only(*request, package.name),
    );
}

/// A package is among the publishable ones if and only if its name is, whatever else its manifest
/// says; their order is kept.
pub proof fn packages_are_publishable_by_their_names(
    packages: &Vec<Package>,
    publishable: &Vec<String>,
    r: Vec<Package>,
)
    requires
        call_ensures(only_publishable, (packages, publishable), r),
    ensures
        package_views(r@) == package_views(packages@).filter(
            |package: PackageView| texts(publishable@).contains(package.name),
        ),
{
    conditions_that_agree_keep_the_same(
        package_views(packages@),
        is_one_of(texts(publishable@)),
        |package: PackageView| texts(publishable@).contains(package.name),
    );
}

/// A published package is selected if and only if its name is wanted. What is known of it is what
/// was published, and the commit that it was published from; it has no workspace of its own.
pub proof fn published_packages_are_selected_by_their_names(
    names: &Vec<String>,
    published: &PackagesCollection,
    r: NameMap<RegistryPackage>,
    name: Seq<char>,
)
    requires
        call_ensures(select_published, (names, published), r),
    ensures
        r@.contains_key(name) <==> texts(names@).contains(name) && published@.contains_key(name),
        r@.contains_key(name) ==> r@[name]@.package == published@[name].package && r@[name]@.sha1
            == published@[name].sha1 && r@[name]@.released_workspace is None,
{
    assert(models(r@).contains_key(name) == r@.contains_key(name));
    if r@.contains_key(name) {
        assert(models(r@)[name] == r@[name]@);
    }
}

/// A clean repository is used as it is. One with uncommitted changes is refused, unless they are
/// allowed; then they are set aside.
pub proof fn uncommitted_changes_are_refused_or_set_aside(
    allow_dirty: bool,
    is_clean: bool,
    r: CleanStep,
)
    requires
        call_ensures(clean_step, (allow_dirty, is_clean), r),
    ensures
        is_clean <==> r == CleanStep::Proceed,
        !is_clean && !allow_dirty <==> r == CleanStep::Refuse,
        !is_clean && allow_dirty <==> r == CleanStep::Stash,
{
}

/// Untracked files are set aside too, under a message of their own.
pub proof fn untracked_files_are_set_aside_too(r: Vec<String>)
    requires
        call_ensures(stash_arguments, (), r),
    ensures
        texts(r@) == seq![
            "stash"@,
            "push"@,
            "--include-untracked"@,
            "-m"@,
            "uncommitted changes stashed by release-plz"@,
        ],
{
}

/// The determination begins with the project. It knows the members of the workspace, split by
/// what the request asks for.
pub proof fn determination_is_about_the_members(
    request: &UpdateRequest,
    r: (NextVersions, NextVersionsAction),
)
    requires
        call_ensures(NextVersions::start, (request,), r),
    ensures
        r.1@ == NextVersionsActionView::LoadProject,
        r.0@.stage == NextVersionsStage::LoadingProject,
        r.0@.allow_dirty == request.allow_dirty,
        r.0@.packages == Map::<Seq<char>, RegistryPackageView>::empty(),
        r.0@.collection is None,
        r.0@.git_only == package_views(request.metadata.members()).filter(
            |package: PackageView| asks_for_git_only(*request, package.name),
        ),
        r.0@.registry == package_views(request.metadata.members()).filter(
            |package: PackageView| !asks_for_git_only(*request, package.name),
        ),
{
    let members = package_views(request.metadata.members());
    conditions_that_agree_keep_the_same(
        members,
        uses_git_only(*request),
        |package: PackageView| asks_for_git_only(*request, package.name),
    );
    conditions_that_agree_keep_the_same(
        members,
        uses_registry(*request),
        |package: PackageView| !asks_for_git_only(*request, package.name),
    );
}

/// The determination goes from state to state as [`NextVersionsView::after`] says.
pub proof fn determination_goes_on_by_its_state(
    determination: NextVersions,
    event: NextVersionsEvent,
    r: (NextVersions, NextVersionsAction),
)
    requires
        call_ensures(NextVersions::step, (determination, event), r),
    ensures
        (r.0@, r.1@) == determination@.after(event),
{
}

/// Once the project is known, the releases of the Git-only packages are collected, and the other
/// packages are fetched if and only if the project names them among the publishable ones.
/// Where it names none, nothing is fetched.
pub proof fn publishable_packages_are_fetched(
    determination: NextVersionsView,
    publishable: Vec<String>,
    is_multi_package: bool,
    git_only: NameMap<RegistryPackage>,
)
    requires
        determination.stage == NextVersionsStage::LoadingProject,
    ensures
        ({
            let (collecting, collect) = determination.after(
                NextVersionsEvent::Project { publishable, is_multi_package },
            );
            let (next, following) = collecting.after(NextVersionsEvent::GitOnly(git_only));
            let wanted = determination.registry.filter(
                |package: PackageView| texts(publishable@).contains(package.name),
            );
            &&& collect == NextVersionsActionView::CollectGitOnly {
                packages: determination.git_only,
                is_multi_package,
            }
            &&& collecting.stage == NextVersionsStage::CollectingGitOnly
            &&& collecting.registry == determination.registry
            &&& collecting.publishable == texts(publishable@)
            &&& collecting.allow_dirty == determination.allow_dirty
            &&& wanted.len() > 0 ==> next.after(NextVersionsEvent::Failed).1
                == NextVersionsActionView::Finish(Err(NextVersionsError::NotFetched))
            &&& wanted.len() > 0 ==> following == NextVersionsActionView::FetchPublished(wanted)
            &&& wanted.len() == 0 ==> following == NextVersionsActionView::OpenRepository
        }),
{
    conditions_that_agree_keep_the_same(
        determination.registry,
        is_one_of(texts(publishable@)),
        |package: PackageView| texts(publishable@).contains(package.name),
    );
}

/// The project is compared with a release of a package if and only if that was found by a Git
/// tag, or the package is wanted and published. What was published goes first. The releases are
/// compared in the directory that the published ones are in.
pub proof fn project_is_compared_with_the_releases(
    determination: NextVersionsView,
    git_only: NameMap<RegistryPackage>,
    published: PackagesCollection,
    is_clean: bool,
    name: Seq<char>,
)
    requires
        determination.stage == NextVersionsStage::CollectingGitOnly,
        is_clean || determination.allow_dirty,
    ensures
        ({
            let found = determination.after(NextVersionsEvent::GitOnly(git_only)).0;
            let wanted = exists|i: int|
                0 <= i < determination.registry.len() && (
                #[trigger] determination.registry[i]).name == name
                    && determination.publishable.contains(name);
            let fetches = exists|i: int|
                0 <= i < determination.registry.len() && determination.publishable.contains(
                    (#[trigger] determination.registry[i]).name,
                );
            let ready = if fetches {
                found.after(NextVersionsEvent::Published(published)).0
            } else {
                found
            };
            let comparing = after_opening(ready, is_clean);
            &&& comparing is Update
            &&& comparing->Update_0.temp_dir == if fetches {
                published.temp_dir()
            } else {
                None
            }
            &&& comparing->Update_0.packages.contains_key(name) <==> git_only@.contains_key(name)
                || (wanted && published@.contains_key(name))
            &&& wanted && published@.contains_key(name) ==> comparing->Update_0.packages[name] == (
            RegistryPackageView {
                package: published@[name].package,
                sha1: published@[name].sha1,
                released_workspace: None,
            })
            &&& !(wanted && published@.contains_key(name)) && git_only@.contains_key(name)
                ==> comparing->Update_0.packages[name] == git_only@[name]@
        }),
{
    all_releases_reach_the_update(determination, git_only, published, is_clean);
    let registry = determination.registry;
    let keep = is_one_of(determination.publishable);
    let kept = determination.wanted();
    assert(models(git_only@).contains_key(name) == git_only@.contains_key(name));
    if git_only@.contains_key(name) {
        assert(models(git_only@)[name] == git_only@[name]@);
    }
    if exists|i: int|
        0 <= i < registry.len() && determination.publishable.contains(
            (#[trigger] registry[i]).name,
        ) {
        let i = choose|i: int|
            0 <= i < registry.len() && determination.publishable.contains(
                (#[trigger] registry[i]).name,
            );
        registry.lemma_filter_contains(keep, i);
        assert(kept.contains(registry[i]));
    }
    if kept.len() > 0 {
        registry.lemma_filter_pred(keep, 0);
        kept_items_were_there(registry, keep, 0);
        let i = choose|i: int| 0 <= i < registry.len() && registry[i] == kept[0];
        assert(determination.publishable.contains(registry[i].name));
    }
    if exists|i: int|
        0 <= i < registry.len() && (#[trigger] registry[i]).name == name
            && determination.publishable.contains(name) {
        let i = choose|i: int|
            0 <= i < registry.len() && (#[trigger] registry[i]).name == name
                && determination.publishable.contains(name);
        registry.lemma_filter_contains(keep, i);
        let k = kept.index_of(registry[i]);
        assert(names_of(kept)[k] == name);
    }
    if names_of(kept).contains(name) {
        let k = names_of(kept).index_of(name);
        assert(kept[k].name == name);
        registry.lemma_filter_pred(keep, k);
        kept_items_were_there(registry, keep, k);
        let i = choose|i: int| 0 <= i < registry.len() && registry[i] == kept[k];
        assert(registry[i].name == name);
    }
}

/// Uncommitted changes that are not allowed end the determination before anything is compared;
/// those that are allowed are set aside first.
pub proof fn changes_are_set_aside_before_the_comparison(
    determination: NextVersionsView,
    is_clean: bool,
)
    requires
        determination.stage == NextVersionsStage::OpeningRepository,
        determination.collection is Some,
    ensures
        ({
            let (checking, check) = determination.after(NextVersionsEvent::Done);
            let (next, following) = checking.after(NextVersionsEvent::Clean(is_clean));
            let compare = NextVersionsActionView::Update(determination.collection->0);
            let well = NextVersionsActionView::Finish(Ok(()));
            let badly = NextVersionsActionView::Finish(Err(NextVersionsError::NotUpdated));
            &&& check == NextVersionsActionView::CheckClean
            &&& is_clean ==> following == compare && next.after(NextVersionsEvent::Done).1 == well
                && next.after(NextVersionsEvent::Failed).1 == badly
            &&& !is_clean && determination.allow_dirty ==> next.after(
                NextVersionsEvent::Done,
            ).0.after(NextVersionsEvent::Done).1 == well && next.after(
                NextVersionsEvent::Done,
            ).0.after(NextVersionsEvent::Failed).1 == badly
            &&& !is_clean && !determination.allow_dirty ==> following
                == NextVersionsActionView::Finish(Err(NextVersionsError::Dirty))
            &&& !is_clean && determination.allow_dirty ==> following
                == NextVersionsActionView::Stash(
                seq![
                    "stash"@,
                    "push"@,
                    "--include-untracked"@,
                    "-m"@,
                    "uncommitted changes stashed by release-plz"@,
                ],
            ) && next.after(NextVersionsEvent::Done).1 == compare && next.after(
                NextVersionsEvent::Failed,
            ).1 == NextVersionsActionView::Finish(Err(NextVersionsError::NotStashed))
        }),
{
}

/// What fails ends the determination, with an error of its own; what succeeds last ends it well.
pub proof fn failures_end_the_determination(determination: NextVersionsView)
    ensures
        determination.after(NextVersionsEvent::Failed).1 == match determination.stage {
            NextVersionsStage::LoadingProject => NextVersionsActionView::Finish(
                Err(NextVersionsError::ProjectNotLoaded),
            ),
            NextVersionsStage::CollectingGitOnly => NextVersionsActionView::Finish(
                Err(NextVersionsError::GitOnlyNotCollected),
            ),
            NextVersionsStage::Fetching => NextVersionsActionView::Finish(
                Err(NextVersionsError::NotFetched),
            ),
            NextVersionsStage::OpeningRepository => NextVersionsActionView::Finish(
                Err(NextVersionsError::RepositoryNotFound),
            ),
            NextVersionsStage::Stashing => NextVersionsActionView::Finish(
                Err(NextVersionsError::NotStashed),
            ),
            NextVersionsStage::Updating => NextVersionsActionView::Finish(
                Err(NextVersionsError::NotUpdated),
            ),
            _ => NextVersionsActionView::Finish(Ok(())),
        },
        determination.stage == NextVersionsStage::Updating ==> determination.after(
            NextVersionsEvent::Done,
        ).1 == NextVersionsActionView::Finish(Ok(())),
{
}

/// The determination goes on from each state that it reaches, whatever comes of its action.
pub proof fn determination_takes_what_can_come(determination: NextVersions, event: NextVersionsEvent)
    requires
        determination@.is_valid(),
    ensures
        match determination@.stage {
            NextVersionsStage::LoadingProject => event is Project || event is Failed,
            NextVersionsStage::CollectingGitOnly => event is GitOnly || event is Failed,
            NextVersionsStage::Fetching => event is Published || event is Failed,
            NextVersionsStage::CheckingClean => event is Clean,
            NextVersionsStage::Finished => false,
            _ => event is Done || event is Failed,
        } ==> call_requires(NextVersions::step, (determination, event)),
{
}

}
