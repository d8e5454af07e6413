//! Getting the packages as they were last published.

use crate::package::{package_views, Package, PackageView, TargetKindView};
use crate::registry_init::{init_result, InitError};
use crate::registry_packages::{
    by_name, collected_packages_have_their_names, download_groups, group_views, groups,
    groups_hold_the_packages, names_in, optional_str, packages_by_name, registry_views, DownloadGroup, DownloadGroupView, PackagesCollection, RegistryPackage,
    RegistryPackageView,
};
use crate::text::{copy_optional, copy_texts};
use crate::workspace::{kept_items_were_there, publishable_members, Metadata};
use vstd::prelude::*;

verus! {

/// Why the published packages could not be got.
#[derive(Debug)]
pub enum FetchError<S> {
    /// The workspace of this manifest could not be read.
    ManifestNotRead(S),
    /// There is no temporary directory.
    NoTempDir,
    /// The path of the temporary directory is not UTF-8.
    InvalidTempDirPath,
    /// Packages could not be downloaded.
    NotDownloaded,
    /// The downloaded packages could not be prepared.
    NotInitialized(InitError<S>),
}

impl View for FetchError<String> {
    type V = FetchError<Seq<char>>;

    open spec fn view(&self) -> FetchError<Seq<char>> {
        match self {
            FetchError::ManifestNotRead(manifest) => FetchError::ManifestNotRead(manifest@),
            FetchError::NoTempDir => FetchError::NoTempDir,
            FetchError::InvalidTempDirPath => FetchError::InvalidTempDirPath,
            FetchError::NotDownloaded => FetchError::NotDownloaded,
            FetchError::NotInitialized(error) => FetchError::NotInitialized(error@),
        }
    }
}

/// The model of a collection: the packages, and the directory that they are in.
pub struct CollectionView {
    pub packages: Map<Seq<char>, RegistryPackageView>,
    pub temp_dir: Option<tempfile::TempDir>,
}

/// The model of the result of a fetch.
pub open spec fn fetch_result(result: Result<PackagesCollection, FetchError<String>>) -> Result<
    CollectionView,
    FetchError<Seq<char>>,
> {
    match result {
        Ok(collection) => Ok(
            CollectionView { packages: collection@, temp_dir: collection.temp_dir() },
        ),
        Err(error) => Err(error@),
    }
}

/// What the caller is asked to do to get the published packages.
#[derive(Debug)]
pub enum FetchAction {
    /// Describe the workspace of this manifest.
    ReadManifest(String),
    /// Create a temporary directory.
    CreateTempDir,
    /// Download packages into a directory. Groups are downloaded one after the other, since a
    /// download holds a lock of Cargo.
    Download { group: DownloadGroup, directory: String },
    /// Prepare the downloaded packages.
    Initialize(Vec<Package>),
    /// Nothing more: the packages.
    Finish(Result<PackagesCollection, FetchError<String>>),
}

/// The model of a [`FetchAction`].
pub enum FetchActionView {
    ReadManifest(Seq<char>),
    CreateTempDir,
    Download { group: DownloadGroupView, directory: Seq<char> },
    Initialize(Seq<PackageView>),
    Finish(Result<CollectionView, FetchError<Seq<char>>>),
}

impl View for FetchAction {
    type V = FetchActionView;

    open spec fn view(&self) -> FetchActionView {
        match self {
            FetchAction::ReadManifest(manifest) => FetchActionView::ReadManifest(manifest@),
            FetchAction::CreateTempDir => FetchActionView::CreateTempDir,
            FetchAction::Download { group, directory } => FetchActionView::Download {
                group: group@,
                directory: directory@,
            },
            FetchAction::Initialize(packages) => FetchActionView::Initialize(
                package_views(packages@),
            ),
            FetchAction::Finish(result) => FetchActionView::Finish(fetch_result(*result)),
        }
    }
}

/// What came of a [`FetchAction`].
#[derive(Debug)]
pub enum FetchEvent {
    /// The workspace, where it could be read.
    Manifest(Option<Metadata>),
    /// The temporary directory and its path; the path is `None` where it is not UTF-8.
    TempDir { directory: tempfile::TempDir, path: Option<String> },
    /// There is no temporary directory.
    NoTempDir,
    /// The packages, where they could be downloaded.
    Downloaded(Option<Vec<Package>>),
    /// The prepared packages.
    Initialized(Result<Vec<RegistryPackage>, InitError<String>>),
}

/// How far a fetch is.
#[derive(Debug, Clone, Copy, PartialEq, Eq, Structural)]
pub enum FetchStage {
    ReadingManifest,
    CreatingTempDir,
    Downloading,
    Initializing,
    Finished,
}

/// A fetch under way.
#[derive(Debug)]
pub struct RegistryFetch {
    /// The manifest that the packages are read from.
    manifest: String,
    /// The packages to download.
    groups: Vec<DownloadGroup>,
    /// The group that is downloaded.
    next: usize,
    /// The downloaded packages.
    packages: Vec<Package>,
    temp_dir: Option<tempfile::TempDir>,
    /// The path of the temporary directory.
    directory: String,
    stage: FetchStage,
}

/// The model of a [`RegistryFetch`].
#[verifier::ext_equal]
pub struct RegistryFetchView {
    pub manifest: Seq<char>,
    pub groups: Seq<DownloadGroupView>,
    pub next: int,
    pub packages: Seq<PackageView>,
    pub temp_dir: Option<tempfile::TempDir>,
    pub directory: Seq<char>,
    pub stage: FetchStage,
}

impl View for RegistryFetch {
    type V = RegistryFetchView;

    closed spec fn view(&self) -> RegistryFetchView {
        RegistryFetchView {
            manifest: self.manifest@,
            groups: group_views(self.groups@),
            next: self.next as int,
            packages: package_views(self.packages@),
            temp_dir: self.temp_dir,
            directory: self.directory@,
            stage: self.stage,
        }
    }
}

/// Packages of which only the description is known.
pub open spec fn described(packages: Seq<PackageView>) -> Seq<RegistryPackageView> {
    packages.map_values(
        |package: PackageView|
            RegistryPackageView { package, sha1: None, released_workspace: None },
    )
}

impl RegistryFetchView {
    /// What a stage goes with.
    pub open spec fn is_valid(self) -> bool {
        self.stage == FetchStage::Downloading ==> 0 <= self.next < self.groups.len()
    }

    /// An event that can follow the last action.
    pub open spec fn expects(self, event: FetchEvent) -> bool {
        match self.stage {
            FetchStage::ReadingManifest => event is Manifest,
            FetchStage::CreatingTempDir => event is TempDir || event is NoTempDir,
            FetchStage::Downloading => event is Downloaded,
            FetchStage::Initializing => event is Initialized,
            FetchStage::Finished => false,
        }
    }

    /// The end, with an error.
    pub open spec fn failing(self, error: FetchError<Seq<char>>) -> (
        RegistryFetchView,
        FetchActionView,
    ) {
        (
            RegistryFetchView { stage: FetchStage::Finished, ..self },
            FetchActionView::Finish(Err(error)),
        )
    }

    /// The end, with packages, which are in the temporary directory where there is one.
    pub open spec fn ending(self, packages: Seq<RegistryPackageView>) -> (
        RegistryFetchView,
        FetchActionView,
    ) {
        (
            RegistryFetchView { stage: FetchStage::Finished, temp_dir: None, ..self },
            FetchActionView::Finish(
                Ok(CollectionView { packages: by_name(packages), temp_dir: self.temp_dir }),
            ),
        )
    }

    /// Download the next group; prepare the packages behind the last one.
    pub open spec fn downloading(self) -> (RegistryFetchView, FetchActionView) {
        if self.next < self.groups.len() {
            (
                RegistryFetchView { stage: FetchStage::Downloading, ..self },
                FetchActionView::Download {
                    group: self.groups[self.next],
                    directory: self.directory,
                },
            )
        } else {
            (
                RegistryFetchView { stage: FetchStage::Initializing, packages: seq![], ..self },
                FetchActionView::Initialize(self.packages),
            )
        }
    }

    /// The next state and action.
    pub open spec fn after(self, event: FetchEvent) -> (RegistryFetchView, FetchActionView) {
        match (self.stage, event) {
            (FetchStage::ReadingManifest, FetchEvent::Manifest(metadata)) => match metadata {
                Some(metadata) => self.ending(
                    described(
                        package_views(metadata.members()).filter(
                            |p: PackageView| p.is_publishable(),
                        ),
                    ),
                ),
                None => self.failing(FetchError::ManifestNotRead(self.manifest)),
            },
            (FetchStage::CreatingTempDir, FetchEvent::TempDir { directory, path }) => match path {
                Some(path) => (RegistryFetchView {
                    temp_dir: Some(directory),
                    directory: path@,
                    ..self
                }).downloading(),
                None => self.failing(FetchError::InvalidTempDirPath),
            },
            (FetchStage::CreatingTempDir, _) => self.failing(FetchError::NoTempDir),
            (FetchStage::Downloading, FetchEvent::Downloaded(packages)) => match packages {
                Some(packages) => (RegistryFetchView {
                    next: self.next + 1,
                    packages: self.packages + package_views(packages@),
                    ..self
                }).downloading(),
                None => self.failing(FetchError::NotDownloaded),
            },
            (FetchStage::Initializing, FetchEvent::Initialized(result)) => match init_result(
                result,
            ) {
                Ok(packages) => self.ending(packages),
                Err(error) => self.failing(FetchError::NotInitialized(error)),
            },
            _ => self.failing(FetchError::NotDownloaded),
        }
    }
}

impl RegistryFetch {
    /// The fetch of the packages as they were last published, and the first action.
    ///
    /// - With `registry_manifest` the packages are those of a workspace in the file system,
    ///   as far as they can be published.
    /// - Else `local_packages` are downloaded, from `registry`, or where there is none, each
    ///   from the first registry that it may be published to, or from crates.io.
    pub fn start(
        registry_manifest: Option<&str>,
        local_packages: &Vec<Package>,
        registry: Option<&str>,
    ) -> (r: (RegistryFetch, FetchAction))
        ensures
            r.0@ == (RegistryFetchView {
                manifest: match registry_manifest {
                    Some(manifest) => manifest@,
                    None => seq![],
                },
                groups: groups(package_views(local_packages@), optional_str(registry)),
                next: 0,
                packages: seq![],
                temp_dir: None,
                directory: seq![],
                stage: match registry_manifest {
                    Some(_) => FetchStage::ReadingManifest,
                    None => FetchStage::CreatingTempDir,
                },
            }),
            r.0@.is_valid(),
            r.1@ == match registry_manifest {
                Some(manifest) => FetchActionView::ReadManifest(manifest@),
                None => FetchActionView::CreateTempDir,
            },
    {
        let groups = download_groups(local_packages, registry);
        let (manifest, stage, action) = match registry_manifest {
            Some(manifest) => (
                manifest.to_owned(),
                FetchStage::ReadingManifest,
                FetchAction::ReadManifest(manifest.to_owned()),
            ),
            None => (String::new(), FetchStage::CreatingTempDir, FetchAction::CreateTempDir),
        };
        let fetch = RegistryFetch {
            manifest,
            groups,
            next: 0,
            packages: Vec::new(),
            temp_dir: None,
            directory: String::new(),
            stage,
        };
        assert(fetch@.packages =~= seq![]);
        (fetch, action)
    }

    fn fail(self, error: FetchError<String>) -> (r: (RegistryFetch, FetchAction))
        ensures
            (r.0@, r.1@) == self@.failing(error@),
            r.0@.is_valid(),
    {
        (RegistryFetch { stage: FetchStage::Finished, ..self }, FetchAction::Finish(Err(error)))
    }

    fn finish(self, packages: Vec<RegistryPackage>) -> (r: (RegistryFetch, FetchAction))
        ensures
            (r.0@, r.1@) == self@.ending(registry_views(packages@)),
            r.0@.is_valid(),
    {
        let RegistryFetch { manifest, groups, next, packages: downloaded, temp_dir, directory, .. } =
            self;
        let collection = PackagesCollection::new(packages_by_name(packages), temp_dir);
        (
            RegistryFetch {
                manifest,
                groups,
                next,
                packages: downloaded,
                temp_dir: None,
                directory,
                stage: FetchStage::Finished,
            },
            FetchAction::Finish(Ok(collection)),
        )
    }

    fn download(self) -> (r: (RegistryFetch, FetchAction))
        ensures
            (r.0@, r.1@) == self@.downloading(),
            r.0@.is_valid(),
    {
        if self.next < self.groups.len() {
            let given = &self.groups[self.next];
            assert(self@.groups[self.next as int] == given@);
            let group = DownloadGroup {
                registry: copy_optional(&given.registry),
                names: copy_texts(&given.names),
            };
            let directory = self.directory.clone();
            (
                RegistryFetch { stage: FetchStage::Downloading, ..self },
                FetchAction::Download { group, directory },
            )
        } else {
            let RegistryFetch { manifest, groups, next, packages, temp_dir, directory, .. } = self;
            let fetch = RegistryFetch {
                manifest,
                groups,
                next,
                packages: Vec::new(),
                temp_dir,
                directory,
                stage: FetchStage::Initializing,
            };
            assert(fetch@.packages =~= seq![]);
            (fetch, FetchAction::Initialize(packages))
        }
    }

    /// The next state and action, after what came of the last action.
    pub fn step(self, event: FetchEvent) -> (r: (RegistryFetch, FetchAction))
        requires
            self@.is_valid(),
            self@.expects(event),
        ensures
            (r.0@, r.1@) == self@.after(event),
            r.0@.is_valid(),
    {
        match (self.stage, event) {
            (FetchStage::ReadingManifest, FetchEvent::Manifest(metadata)) => match metadata {
                Some(metadata) => {
                    let members = publishable_members(&metadata);
                    let packages = described_packages(members);
                    self.finish(packages)
                },
                None => {
                    let manifest = self.manifest.clone();
                    self.fail(FetchError::ManifestNotRead(manifest))
                },
            },
            (FetchStage::CreatingTempDir, FetchEvent::TempDir { directory, path }) => match path {
                Some(path) => {
                    let fetch = RegistryFetch {
                        temp_dir: Some(directory),
                        directory: path,
                        ..self
                    };
                    fetch.download()
                },
                None => self.fail(FetchError::InvalidTempDirPath),
            },
            (FetchStage::CreatingTempDir, _) => self.fail(FetchError::NoTempDir),
            (FetchStage::Downloading, FetchEvent::Downloaded(downloaded)) => match downloaded {
                Some(downloaded) => {
                    let count: usize = self.groups.len();
                    assert(self.next < count);
                    let ghost before = self@;
                    let ghost added = package_views(downloaded@);
                    let RegistryFetch { manifest, groups, next, packages, temp_dir, directory, stage } =
                        self;
                    let mut packages = packages;
                    let mut downloaded = downloaded;
                    packages.append(&mut downloaded);
                    let fetch = RegistryFetch {
                        manifest,
                        groups,
                        next: next + 1,
                        packages,
                        temp_dir,
                        directory,
                        stage,
                    };
                    assert(fetch@.packages =~= before.packages + added);
                    fetch.download()
                },
                None => self.fail(FetchError::NotDownloaded),
            },
            (FetchStage::Initializing, FetchEvent::Initialized(result)) => match result {
                Ok(packages) => self.finish(packages),
                Err(error) => self.fail(FetchError::NotInitialized(error)),
            },
            _ => self.fail(FetchError::NotDownloaded),
        }
    }
}

fn described_packages(packages: Vec<Package>) -> (r: Vec<RegistryPackage>)
    ensures
        registry_views(r@) == described(package_views(packages@)),
{
    let ghost list = packages@;
    let mut r: Vec<RegistryPackage> = Vec::new();
    for package in it: packages.into_iter()
        invariant
            it.seq() == list,
            r@.len() == it.index(),
            forall|j: int|
                0 <= j < it.index() ==> #[trigger] r@[j]@ == described(package_views(list))[j],
    {
        assert(package_views(list)[it.index()] == package@);
        r.push(RegistryPackage::new(package, None));
    }
    assert(registry_views(r@) =~= described(package_views(list)));
    r
}

/// The state and action after the groups from the one at hand on came to these packages.
pub open spec fn after_downloads(
    fetch: RegistryFetchView,
    action: FetchActionView,
    downloads: Seq<Vec<Package>>,
) -> (RegistryFetchView, FetchActionView)
    decreases downloads.len(),
{
    if downloads.len() == 0 {
        (fetch, action)
    } else {
        let (next, then) = fetch.after(FetchEvent::Downloaded(Some(downloads[0])));
        after_downloads(next, then, downloads.drop_first())
    }
}

/// All packages of some downloads.
pub open spec fn all_packages(downloads: Seq<Vec<Package>>) -> Seq<PackageView>
    decreases downloads.len(),
{
    if downloads.len() == 0 {
        seq![]
    } else {
        package_views(downloads[0]@) + all_packages(downloads.drop_first())
    }
}

/// Once each group is downloaded, all packages are prepared, in the order of the groups.
pub proof fn groups_are_downloaded_in_turn(
    fetch: RegistryFetchView,
    downloads: Seq<Vec<Package>>,
)
    requires
        0 <= fetch.next <= fetch.groups.len(),
        downloads.len() == fetch.groups.len() - fetch.next,
    ensures
        ({
            let (now, action) = fetch.downloading();
            let (last, then) = after_downloads(now, action, downloads);
            then == FetchActionView::Initialize(fetch.packages + all_packages(downloads))
                && last.stage == FetchStage::Initializing && last.temp_dir == fetch.temp_dir
        }),
    decreases downloads.len(),
{
    if downloads.len() > 0 {
        let (now, action) = fetch.downloading();
        let next = RegistryFetchView {
            next: now.next + 1,
            packages: now.packages + package_views(downloads[0]@),
            ..now
        };
        groups_are_downloaded_in_turn(next, downloads.drop_first());
        assert(fetch.packages + (package_views(downloads[0]@) + all_packages(
            downloads.drop_first(),
        )) =~= (fetch.packages + package_views(downloads[0]@)) + all_packages(
            downloads.drop_first(),
        ));
    } else {
        assert(fetch.packages + all_packages(downloads) =~= fetch.packages);
    }
}

/// Downloaded packages stay where they are: the collection holds the temporary directory that
/// they were downloaded into.
pub proof fn collection_holds_the_directory(
    fetch: RegistryFetchView,
    packages: Vec<RegistryPackage>,
)
    requires
        fetch.stage == FetchStage::Initializing,
    ensures
        fetch.after(FetchEvent::Initialized(Ok(packages))).1 == FetchActionView::Finish(
            Ok(
                CollectionView {
                    packages: by_name(registry_views(packages@)),
                    temp_dir: fetch.temp_dir,
                },
            ),
        ),
{
}

/// With a manifest, the packages are read from its workspace; without one, they are downloaded.
pub proof fn packages_are_read_or_downloaded(
    registry_manifest: Option<&str>,
    local_packages: &Vec<Package>,
    registry: Option<&str>,
    r: (RegistryFetch, FetchAction),
)
    requires
        call_ensures(RegistryFetch::start, (registry_manifest, local_packages, registry), r),
    ensures
        registry_manifest matches Some(manifest) ==> r.1@ == FetchActionView::ReadManifest(manifest@)
            && r.0@.stage == FetchStage::ReadingManifest && r.0@.manifest == manifest@,
        registry_manifest is None ==> r.1@ == FetchActionView::CreateTempDir && r.0@.stage
            == FetchStage::CreatingTempDir,
        names_in(r.0@.groups) == package_views(local_packages@).map_values(
            |package: PackageView| package.name,
        ),
        r.0@.next == 0,
        r.0@.packages.len() == 0,
        r.0@.temp_dir is None,
{
    groups_hold_the_packages(package_views(local_packages@), optional_str(registry));
}

/// Each group that is downloaded is of the packages of one registry, and the packages are
/// downloaded from it.
pub proof fn downloads_are_grouped_by_registry(
    local_packages: &Vec<Package>,
    registry: Option<&str>,
    r: (RegistryFetch, FetchAction),
    groups_of: Vec<DownloadGroup>,
)
    requires
        call_ensures(RegistryFetch::start, (None::<&str>, local_packages, registry), r),
        call_ensures(download_groups, (local_packages, registry), groups_of),
    ensures
        r.0@.groups == group_views(groups_of@),
{
}

/// The fetch goes from state to state as [`RegistryFetchView::after`] says.
pub proof fn fetch_goes_on_by_its_state(
    fetch: RegistryFetch,
    event: FetchEvent,
    r: (RegistryFetch, FetchAction),
)
    requires
        call_ensures(RegistryFetch::step, (fetch, event), r),
    ensures
        (r.0@, r.1@) == fetch@.after(event),
{
}

/// Of a workspace that is read, a package is known if and only if it is a member that can be
/// published: by its own name, without a commit and without a directory. One that cannot be read
/// is named.
pub proof fn publishable_members_are_read(
    fetch: RegistryFetchView,
    metadata: Metadata,
    name: Seq<char>,
)
    requires
        fetch.stage == FetchStage::ReadingManifest,
        fetch.temp_dir is None,
    ensures
        fetch.after(FetchEvent::Manifest(None)).1 == FetchActionView::Finish(
            Err(FetchError::ManifestNotRead(fetch.manifest)),
        ),
        ({
            let last = fetch.after(FetchEvent::Manifest(Some(metadata))).1;
            let members = package_views(metadata.members());
            &&& last matches FetchActionView::Finish(Ok(_))
            &&& last->Finish_0->Ok_0.temp_dir is None
            &&& last->Finish_0->Ok_0.packages.contains_key(name) <==> exists|i: int|
                0 <= i < members.len() && is_publishable_member(#[trigger] members[i], name)
            &&& last->Finish_0->Ok_0.packages.contains_key(name) ==> {
                let known = last->Finish_0->Ok_0.packages[name];
                &&& known.sha1 is None
                &&& known.released_workspace is None
                &&& is_publishable_member(known.package, name)
                &&& members.contains(known.package)
            }
        }),
{
    let members = package_views(metadata.members());
    let keep = |p: PackageView| p.is_publishable();
    let kept = members.filter(keep);
    let all = described(kept);
    collected_packages_have_their_names(all, name);
    if by_name(all).contains_key(name) {
        let found = by_name(all)[name];
        let k = all.index_of(found);
        assert(found == all[k] && found.package == kept[k]);
        members.lemma_filter_pred(keep, k);
        kept_items_were_there(members, keep, k);
        let i = choose|i: int| 0 <= i < members.len() && members[i] == kept[k];
        assert(is_publishable_member(members[i], name));
    }
    if exists|i: int| 0 <= i < members.len() && is_publishable_member(#[trigger] members[i], name) {
        let i = choose|i: int|
            0 <= i < members.len() && is_publishable_member(#[trigger] members[i], name);
        assert(keep(members[i]));
        members.lemma_filter_contains(keep, i);
        let k = kept.index_of(members[i]);
        assert(all[k].package.name == name);
    }
}

/// A package of this name that names a registry, or leaves that open and has a target that is not
/// just an example.
pub open spec fn is_publishable_member(package: PackageView, name: Seq<char>) -> bool {
    &&& package.name == name
    &&& match package.publish {
        Some(list) => list.len() > 0,
        None => exists|i: int|
            0 <= i < package.targets.len() && #[trigger] package.targets[i] != seq![
                TargetKindView::Example,
            ],
    }
}

/// The groups are downloaded into the temporary directory, one after the other, from the first
/// on; then all that was downloaded is prepared. What is prepared is collected by name, in that
/// directory.
pub proof fn groups_are_downloaded_into_the_directory(
    fetch: RegistryFetchView,
    directory: tempfile::TempDir,
    path: String,
    downloads: Seq<Vec<Package>>,
    prepared: Vec<RegistryPackage>,
)
    requires
        fetch.stage == FetchStage::CreatingTempDir,
        fetch.next == 0,
        fetch.packages.len() == 0,
        downloads.len() == fetch.groups.len(),
    ensures
        ({
            let (first, download) = fetch.after(
                FetchEvent::TempDir { directory, path: Some(path) },
            );
            let (last, prepare) = after_downloads(first, download, downloads);
            &&& fetch.groups.len() > 0 ==> download == FetchActionView::Download {
                group: fetch.groups[0],
                directory: path@,
            } && first == (RegistryFetchView {
                stage: FetchStage::Downloading,
                temp_dir: Some(directory),
                directory: path@,
                ..fetch
            })
            &&& prepare == FetchActionView::Initialize(all_packages(downloads))
            &&& last.after(FetchEvent::Initialized(Ok(prepared))).1 == FetchActionView::Finish(
                Ok(
                    CollectionView {
                        packages: by_name(registry_views(prepared@)),
                        temp_dir: Some(directory),
                    },
                ),
            )
        }),
{
    let created = RegistryFetchView { temp_dir: Some(directory), directory: path@, ..fetch };
    groups_are_downloaded_in_turn(created, downloads);
    assert(fetch.packages + all_packages(downloads) =~= all_packages(downloads));
}

/// Behind each group that is not the last, the next one is downloaded, into the same directory;
/// what was downloaded is kept.
pub proof fn next_group_follows(fetch: RegistryFetchView, packages: Vec<Package>)
    requires
        fetch.stage == FetchStage::Downloading,
        fetch.is_valid(),
    ensures
        ({
            let (next, following) = fetch.after(FetchEvent::Downloaded(Some(packages)));
            let all = fetch.packages + package_views(packages@);
            &&& fetch.next + 1 < fetch.groups.len() ==> next == (RegistryFetchView {
                next: fetch.next + 1,
                packages: all,
                ..fetch
            }) && following == FetchActionView::Download {
                group: fetch.groups[fetch.next + 1],
                directory: fetch.directory,
            }
            &&& fetch.next + 1 == fetch.groups.len() ==> following == FetchActionView::Initialize(
                all,
            )
            &&& next.temp_dir == fetch.temp_dir
        }),
{
}

/// What fails ends the fetch, with an error of its own.
pub proof fn failures_end_the_fetch(
    fetch: RegistryFetchView,
    directory: tempfile::TempDir,
    error: InitError<String>,
)
    ensures
        fetch.stage == FetchStage::CreatingTempDir ==> fetch.after(FetchEvent::NoTempDir).1
            == FetchActionView::Finish(Err(FetchError::NoTempDir)),
        fetch.stage == FetchStage::CreatingTempDir ==> fetch.after(
            FetchEvent::TempDir { directory, path: None },
        ).1 == FetchActionView::Finish(Err(FetchError::InvalidTempDirPath)),
        fetch.stage == FetchStage::Downloading ==> fetch.after(FetchEvent::Downloaded(None)).1
            == FetchActionView::Finish(Err(FetchError::NotDownloaded)),
        fetch.stage == FetchStage::Initializing ==> fetch.after(
            FetchEvent::Initialized(Err(error)),
        ).1 == FetchActionView::Finish(Err(FetchError::NotInitialized(error@))),
{
}

/// The fetch goes on from each state that it reaches, whatever comes of its action.
pub proof fn fetch_takes_what_can_come(fetch: RegistryFetch, event: FetchEvent)
    requires
        fetch@.is_valid(),
    ensures
        match fetch@.stage {
            FetchStage::ReadingManifest => event is Manifest,
            FetchStage::CreatingTempDir => event is TempDir || event is NoTempDir,
            FetchStage::Downloading => event is Downloaded,
            FetchStage::Initializing => event is Initialized,
            FetchStage::Finished => false,
        } ==> call_requires(RegistryFetch::step, (fetch, event)),
{
}

}
