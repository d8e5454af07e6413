//! Packages as they were last released.

use crate::name_map::NameMap;
use crate::package::{package_views, Package, PackageView};
use crate::text::{optional_text, same_text, texts};
use crate::workspace::Metadata;
use std::sync::Arc;
use vstd::prelude::*;

verus! {

/// `tempfile::TempDir`.
#[verifier::external_type_specification]
#[verifier::external_body]
pub struct ExTempDir(tempfile::TempDir);

/// The Cargo.lock that was committed at a release.
#[derive(Debug)]
pub struct WorkspaceLockfile {
    pub text: String,
}

/// The workspace of a package that is released from Git only, as it was at the commit that
/// the package was released from.
#[derive(Debug)]
pub struct ReleasedWorkspace {
    pub metadata: Metadata,
    /// Read as soon as the workspace is there, before Cargo can rewrite a stale one.
    pub lockfile: Option<WorkspaceLockfile>,
    /// The commit that the workspace was reconstructed from.
    pub commit: String,
}

/// The model of a [`ReleasedWorkspace`].
pub struct ReleasedWorkspaceView {
    pub metadata: Metadata,
    pub lockfile: Option<WorkspaceLockfile>,
    pub commit: Seq<char>,
}

impl View for ReleasedWorkspace {
    type V = ReleasedWorkspaceView;

    open spec fn view(&self) -> ReleasedWorkspaceView {
        ReleasedWorkspaceView {
            metadata: self.metadata,
            lockfile: self.lockfile,
            commit: self.commit@,
        }
    }
}

impl ReleasedWorkspace {
    /// The workspace that `metadata` describes, as it was at `commit`.
    pub fn new(metadata: Metadata, lockfile: Option<WorkspaceLockfile>, commit: String) -> (r: Self)
        ensures
            r@ == (ReleasedWorkspaceView { metadata, lockfile, commit: commit@ }),
    {
        ReleasedWorkspace { metadata, lockfile, commit }
    }

    /// The lockfile that was committed at the release, where there was one.
    pub fn lockfile(&self) -> (r: Option<&WorkspaceLockfile>)
        ensures
            r is Some <==> self.lockfile is Some,
            r matches Some(lockfile) ==> self.lockfile == Some(*lockfile),
    {
        match &self.lockfile {
            Some(lockfile) => Some(lockfile),
            None => None,
        }
    }
}

/// A package as it was last released.
#[derive(Debug)]
pub struct RegistryPackage {
    pub package: Package,
    /// The hash of the commit that the package was published from.
    pub sha1: Option<String>,
    /// The workspace that is shared by the packages released from the same commit.
    pub released_workspace: Option<Arc<ReleasedWorkspace>>,
}

/// The model of a [`RegistryPackage`].
#[verifier::ext_equal]
pub struct RegistryPackageView {
    pub package: PackageView,
    pub sha1: Option<Seq<char>>,
    pub released_workspace: Option<ReleasedWorkspaceView>,
}

impl View for RegistryPackage {
    type V = RegistryPackageView;

    open spec fn view(&self) -> RegistryPackageView {
        RegistryPackageView {
            package: self.package@,
            sha1: optional_text(self.sha1),
            released_workspace: match self.released_workspace {
                Some(workspace) => Some(workspace@),
                None => None,
            },
        }
    }
}

impl RegistryPackage {
    /// A package that was published from the commit `sha1`.
    pub fn new(package: Package, sha1: Option<String>) -> (r: Self)
        ensures
            r@ == (RegistryPackageView {
                package: package@,
                sha1: optional_text(sha1),
                released_workspace: None,
            }),
            r.package == package,
    {
        RegistryPackage { package, sha1, released_workspace: None }
    }

    /// The package, released from this workspace.
    pub fn with_released_workspace(self, workspace: Arc<ReleasedWorkspace>) -> (r: Self)
        ensures
            r@ == (RegistryPackageView { released_workspace: Some(workspace@), ..self@ }),
            r.package == self.package,
    {
        RegistryPackage { released_workspace: Some(workspace), ..self }
    }

    /// The workspace that the package was released from, where it is known.
    pub fn released_workspace(&self) -> (r: Option<&ReleasedWorkspace>)
        ensures
            r is Some <==> self@.released_workspace is Some,
            r matches Some(workspace) ==> self@.released_workspace == Some(workspace@),
    {
        match &self.released_workspace {
            Some(workspace) => Some(workspace),
            None => None,
        }
    }

    /// The hash of the commit that the package was published from, where it is known.
    pub fn published_at_sha1(&self) -> (r: Option<&str>)
        ensures
            r is Some <==> self@.sha1 is Some,
            r matches Some(sha1) ==> self@.sha1 == Some(sha1@),
    {
        match &self.sha1 {
            Some(sha1) => Some(sha1.as_str()),
            None => None,
        }
    }
}

/// `Arc::clone`: another pointer to the same workspace.
#[verifier::external_body]
pub(crate) fn share(workspace: &Arc<ReleasedWorkspace>) -> (r: Arc<ReleasedWorkspace>)
    ensures
        r == *workspace,
{
    Arc::clone(workspace)
}

/// Packages as they were last released, by their names.
#[derive(Debug)]
pub struct PackagesCollection {
    packages: NameMap<RegistryPackage>,
    /// The directory that downloaded packages are in; it is deleted with the collection.
    _temp_dir: Option<tempfile::TempDir>,
}

/// The models of packages by their names.
pub open spec fn models(packages: Map<Seq<char>, RegistryPackage>) -> Map<
    Seq<char>,
    RegistryPackageView,
> {
    packages.map_values(|package: RegistryPackage| package@)
}

impl View for PackagesCollection {
    type V = Map<Seq<char>, RegistryPackageView>;

    closed spec fn view(&self) -> Map<Seq<char>, RegistryPackageView> {
        models(self.packages@)
    }
}

impl Default for PackagesCollection {
    /// The collection without packages.
    fn default() -> (r: Self)
        ensures
            r@ == Map::<Seq<char>, RegistryPackageView>::empty(),
            r.temp_dir() is None,
    {
        let r = PackagesCollection { packages: NameMap::new(), _temp_dir: None };
        assert(r@ =~= Map::<Seq<char>, RegistryPackageView>::empty());
        r
    }
}

impl PackagesCollection {
    /// The directory that the downloaded packages are in.
    pub closed spec fn temp_dir(self) -> Option<tempfile::TempDir> {
        self._temp_dir
    }

    /// The collection of these packages, which may be in a temporary directory.
    pub fn new(packages: NameMap<RegistryPackage>, temp_dir: Option<tempfile::TempDir>) -> (r: Self)
        ensures
            r@ == models(packages@),
            r.temp_dir() == temp_dir,
    {
        PackagesCollection { packages, _temp_dir: temp_dir }
    }

    /// The package of this name.
    pub fn get_package(&self, package_name: &str) -> (r: Option<&Package>)
        ensures
            r is Some <==> self@.contains_key(package_name@),
            r matches Some(package) ==> package@ == self@[package_name@].package,
    {
        match self.packages.get(package_name) {
            Some(registry_package) => Some(&registry_package.package),
            None => None,
        }
    }

    /// The released package of this name.
    pub fn get_registry_package(&self, package_name: &str) -> (r: Option<&RegistryPackage>)
        ensures
            r is Some <==> self@.contains_key(package_name@),
            r matches Some(package) ==> package@ == self@[package_name@],
    {
        self.packages.get(package_name)
    }

    /// The collection with these packages in place of its own. The temporary directory is
    /// kept.
    pub fn with_packages(self, packages: NameMap<RegistryPackage>) -> (r: Self)
        ensures
            r@ == models(packages@),
            r.temp_dir() == self.temp_dir(),
    {
        PackagesCollection { packages, ..self }
    }
}

/// The models of a list of released packages.
pub open spec fn registry_views(packages: Seq<RegistryPackage>) -> Seq<RegistryPackageView> {
    packages.map_values(|package: RegistryPackage| package@)
}

/// Packages by their names; of those with the same name the last.
pub open spec fn by_name(packages: Seq<RegistryPackageView>) -> Map<Seq<char>, RegistryPackageView>
    decreases packages.len(),
{
    if packages.len() == 0 {
        Map::empty()
    } else {
        by_name(packages.drop_last()).insert(packages.last().package.name, packages.last())
    }
}

/// The packages by their names; of those with the same name the last.
pub fn packages_by_name(packages: Vec<RegistryPackage>) -> (r: NameMap<RegistryPackage>)
    ensures
        models(r@) == by_name(registry_views(packages@)),
{
    let ghost list = packages@;
    let ghost views = registry_views(packages@);
    let mut r: NameMap<RegistryPackage> = NameMap::new();
    assert(models(r@) =~= by_name(views.take(0)));
    for package in it: packages.into_iter()
        invariant
            it.seq() == list,
            views == registry_views(list),
            models(r@) == by_name(views.take(it.index())),
    {
        let name = package.package.name.clone();
        let ghost before = r@;
        proof {
            assert(views.take(it.index() + 1).drop_last() =~= views.take(it.index()));
            assert(views.take(it.index() + 1).last() == package@);
        }
        r = r.insert(name, package);
        assert(models(r@) =~= models(before).insert(name@, package@));
    }
    assert(views.take(list.len() as int) =~= views);
    r
}

/// The collection has a package of a name if and only if there is one in the list, and what
/// it has is called that.
pub proof fn collected_packages_have_their_names(
    packages: Seq<RegistryPackageView>,
    name: Seq<char>,
)
    ensures
        by_name(packages).contains_key(name) <==> exists|i: int|
            0 <= i < packages.len() && #[trigger] packages[i].package.name == name,
        by_name(packages).contains_key(name) ==> by_name(packages)[name].package.name == name
            && packages.contains(by_name(packages)[name]),
    decreases packages.len(),
{
    if packages.len() > 0 {
        let rest = packages.drop_last();
        collected_packages_have_their_names(rest, name);
        assert(packages.last() == packages[packages.len() - 1]);
        if exists|i: int| 0 <= i < rest.len() && #[trigger] rest[i].package.name == name {
            let i = choose|i: int| 0 <= i < rest.len() && #[trigger] rest[i].package.name == name;
            assert(packages[i].package.name == name);
        }
        if exists|i: int| 0 <= i < packages.len() && #[trigger] packages[i].package.name == name {
            let i = choose|i: int|
                0 <= i < packages.len() && #[trigger] packages[i].package.name == name;
            if i < rest.len() {
                assert(rest[i].package.name == name);
            }
        }
        if by_name(rest).contains_key(name) {
            let k = rest.index_of(by_name(rest)[name]);
            assert(packages[k] == by_name(rest)[name]);
        }
    }
}

/// The registry that a package is downloaded from: the given one, else the first that it may
/// be published to.
pub open spec fn registry_of(package: PackageView, registry: Option<Seq<char>>) -> Option<
    Seq<char>,
> {
    match registry {
        Some(registry) => Some(registry),
        None => match package.publish {
            Some(list) => if list.len() > 0 {
                Some(list[0])
            } else {
                None
            },
            None => None,
        },
    }
}

/// The view of an optional text.
pub open spec fn optional_str(text: Option<&str>) -> Option<Seq<char>> {
    match text {
        Some(text) => Some(text@),
        None => None,
    }
}

/// The registry that a package is downloaded from; `None` stands for crates.io.
pub fn package_registry<'a>(package: &'a Package, registry: Option<&'a str>) -> (r: Option<&'a str>)
    ensures
        optional_str(r) == registry_of(package@, optional_str(registry)),
{
    match registry {
        Some(registry) => Some(registry),
        None => match &package.publish {
            Some(list) => if list.len() > 0 {
                assert(texts(list@)[0] == list@[0]@);
                Some(list[0].as_str())
            } else {
                None
            },
            None => None,
        },
    }
}

/// Packages that are downloaded from one registry.
#[derive(Debug)]
pub struct DownloadGroup {
    /// The registry; `None` stands for crates.io.
    pub registry: Option<String>,
    pub names: Vec<String>,
}

/// The model of a [`DownloadGroup`].
#[verifier::ext_equal]
pub struct DownloadGroupView {
    pub registry: Option<Seq<char>>,
    pub names: Seq<Seq<char>>,
}

impl View for DownloadGroup {
    type V = DownloadGroupView;

    open spec fn view(&self) -> DownloadGroupView {
        DownloadGroupView { registry: optional_text(self.registry), names: texts(self.names@) }
    }
}

/// The models of a list of groups.
pub open spec fn group_views(groups: Seq<DownloadGroup>) -> Seq<DownloadGroupView> {
    groups.map_values(|group: DownloadGroup| group@)
}

/// The packages in groups: one that follows a package of the same registry is in its group.
pub open spec fn groups(packages: Seq<PackageView>, registry: Option<Seq<char>>) -> Seq<
    DownloadGroupView,
>
    decreases packages.len(),
{
    if packages.len() == 0 {
        seq![]
    } else {
        let rest = groups(packages.drop_last(), registry);
        let name = packages.last().name;
        let own = registry_of(packages.last(), registry);
        if rest.len() > 0 && rest.last().registry == own {
            rest.drop_last().push(
                DownloadGroupView { registry: own, names: rest.last().names.push(name) },
            )
        } else {
            rest.push(DownloadGroupView { registry: own, names: seq![name] })
        }
    }
}

fn same_registry(a: &Option<String>, b: Option<&str>) -> (r: bool)
    ensures
        r == (optional_text(*a) == optional_str(b)),
{
    match (a, b) {
        (Some(a), Some(b)) => same_text(a.as_str(), b),
        (None, None) => true,
        _ => false,
    }
}

/// The packages in groups by registry. Neighbours with the same registry share a group.
pub fn download_groups(packages: &Vec<Package>, registry: Option<&str>) -> (r: Vec<DownloadGroup>)
    ensures
        group_views(r@) == groups(package_views(packages@), optional_str(registry)),
{
    let ghost list = package_views(packages@);
    let ghost given = optional_str(registry);
    let mut r: Vec<DownloadGroup> = Vec::new();
    let mut i: usize = 0;
    assert(group_views(r@) =~= groups(list.take(0), given));
    while i < packages.len()
        invariant
            i <= packages@.len(),
            list == package_views(packages@),
            given == optional_str(registry),
            group_views(r@) == groups(list.take(i as int), given),
        decreases packages@.len() - i,
    {
        let package = &packages[i];
        let ghost before = r@;
        let own = package_registry(package, registry);
        proof {
            assert(list.take(i + 1).drop_last() =~= list.take(i as int));
            assert(list.take(i + 1).last() == package@);
        }
        let last = r.pop();
        match last {
            Some(group) => {
                assert(group@ == group_views(before).last());
                if same_registry(&group.registry, own) {
                    let ghost earlier = group@;
                    let mut names = group.names;
                    names.push(package.name.clone());
                    let group = DownloadGroup { names, ..group };
                    assert(group@.names =~= earlier.names.push(package@.name));
                    r.push(group);
                    assert(group_views(r@) =~= group_views(before).drop_last().push(group@));
                } else {
                    r.push(group);
                    r.push(new_group(package, own));
                    assert(group_views(r@) =~= group_views(before).push(r@.last()@));
                }
            },
            None => {
                assert(group_views(before).len() == 0);
                r.push(new_group(package, own));
                assert(group_views(r@) =~= group_views(before).push(r@.last()@));
            },
        }
        i += 1;
    }
    assert(list.take(i as int) =~= list);
    r
}

fn new_group(package: &Package, registry: Option<&str>) -> (r: DownloadGroup)
    ensures
        r@ == (DownloadGroupView {
            registry: optional_str(registry),
            names: seq![package@.name],
        }),
{
    let mut names: Vec<String> = Vec::new();
    names.push(package.name.clone());
    let registry = match registry {
        Some(registry) => Some(registry.to_owned()),
        None => None,
    };
    let r = DownloadGroup { registry, names };
    assert(r@.names =~= seq![package@.name]);
    r
}

/// The names in all groups.
pub open spec fn names_in(groups: Seq<DownloadGroupView>) -> Seq<Seq<char>>
    decreases groups.len(),
{
    if groups.len() == 0 {
        seq![]
    } else {
        names_in(groups.drop_last()) + groups.last().names
    }
}

/// The registries of the packages in all groups.
pub open spec fn registries_in(groups: Seq<DownloadGroupView>) -> Seq<Option<Seq<char>>>
    decreases groups.len(),
{
    if groups.len() == 0 {
        seq![]
    } else {
        registries_in(groups.drop_last()) + Seq::new(
            groups.last().names.len(),
            |i: int| groups.last().registry,
        )
    }
}

/// Each package is downloaded from its registry.
pub proof fn groups_are_of_one_registry(packages: Seq<PackageView>, registry: Option<Seq<char>>)
    ensures
        registries_in(groups(packages, registry)) == packages.map_values(
            |p: PackageView| registry_of(p, registry),
        ),
    decreases packages.len(),
{
    let all = groups(packages, registry);
    let wanted = packages.map_values(|p: PackageView| registry_of(p, registry));
    if packages.len() > 0 {
        let rest = groups(packages.drop_last(), registry);
        let own = registry_of(packages.last(), registry);
        groups_are_of_one_registry(packages.drop_last(), registry);
        assert(wanted =~= packages.drop_last().map_values(
            |p: PackageView| registry_of(p, registry),
        ).push(own));
        if rest.len() > 0 && rest.last().registry == own {
            assert(all.drop_last() =~= rest.drop_last());
            assert(all.last().names.len() == rest.last().names.len() + 1);
            assert(registries_in(all) =~= registries_in(rest).push(own));
        } else {
            assert(all.drop_last() =~= rest);
            assert(registries_in(all) =~= registries_in(rest).push(own));
        }
    } else {
        assert(wanted =~= seq![]);
    }
}

/// The groups hold each package once, in the order of the packages; no group is empty; and
/// neighbouring groups are of different registries.
pub proof fn groups_hold_the_packages(packages: Seq<PackageView>, registry: Option<Seq<char>>)
    ensures
        names_in(groups(packages, registry)) == packages.map_values(|p: PackageView| p.name),
        forall|i: int|
            0 <= i < groups(packages, registry).len() ==> (#[trigger] groups(
                packages,
                registry,
            )[i]).names.len() > 0,
        forall|i: int, j: int|
            0 <= i && j == i + 1 && j < groups(packages, registry).len() ==> (#[trigger] groups(
                packages,
                registry,
            )[i]).registry != (#[trigger] groups(packages, registry)[j]).registry,
        packages.len() > 0 ==> groups(packages, registry).len() > 0 && groups(
            packages,
            registry,
        ).last().registry == registry_of(packages.last(), registry),
    decreases packages.len(),
{
    let all = groups(packages, registry);
    let named = packages.map_values(|p: PackageView| p.name);
    if packages.len() > 0 {
        let rest = groups(packages.drop_last(), registry);
        groups_hold_the_packages(packages.drop_last(), registry);
        let name = packages.last().name;
        let own = registry_of(packages.last(), registry);
        assert(named =~= packages.drop_last().map_values(|p: PackageView| p.name).push(name));
        if rest.len() > 0 && rest.last().registry == own {
            assert(all.drop_last() =~= rest.drop_last());
            assert(all.last().names == rest.last().names.push(name));
            assert(names_in(rest.drop_last()) + rest.last().names.push(name) =~= (names_in(
                rest.drop_last(),
            ) + rest.last().names).push(name));
            assert forall|i: int| 0 <= i < all.len() implies (#[trigger] all[i]).names.len() > 0 by {
                assert(rest[i].names.len() > 0);
            }
            assert forall|i: int, j: int|
                0 <= i && j == i + 1 && j < all.len() implies (#[trigger] all[i]).registry != (
            #[trigger] all[j]).registry by {
                assert(rest[i].registry != rest[j].registry);
            }
        } else {
            assert(all.drop_last() =~= rest);
            assert(names_in(rest) + seq![name] =~= names_in(rest).push(name));
            assert forall|i: int| 0 <= i < all.len() implies (#[trigger] all[i]).names.len() > 0 by {
                if i < rest.len() {
                    assert(rest[i].names.len() > 0);
                }
            }
            assert forall|i: int, j: int|
                0 <= i && j == i + 1 && j < all.len() implies (#[trigger] all[i]).registry != (
            #[trigger] all[j]).registry by {
                if j < rest.len() {
                    assert(rest[i].registry != rest[j].registry);
                } else {
                    assert(all[i] == rest.last());
                }
            }
        }
    } else {
        assert(named =~= seq![]);
    }
}

/// A package is downloaded from the given registry; without one, from the first that it may be
/// published to; and where it names none, from crates.io.
pub proof fn packages_come_from_their_registry<'a>(
    package: &'a Package,
    registry: Option<&'a str>,
    r: Option<&'a str>,
)
    requires
        call_ensures(package_registry, (package, registry), r),
    ensures
        registry matches Some(given) ==> (r matches Some(own) && own@ == given@),
        registry is None && package.publish is None ==> r is None,
        registry is None ==> (package.publish matches Some(list) ==> {
            &&& list@.len() == 0 ==> r is None
            &&& list@.len() > 0 ==> (r matches Some(own) && own@ == list@[0]@)
        }),
{
    assert(optional_str(r) == registry_of(package@, optional_str(registry)));
    if let Some(list) = package.publish {
        assert(package@.publish == Some(texts(list@)));
    }
}

/// The registry that a package would be asked for.
pub open spec fn is_own_registry(
    package: PackageView,
    registry: Option<Seq<char>>,
    own: Option<Seq<char>>,
) -> bool {
    if registry is Some {
        own == registry
    } else if package.publish is Some && package.publish->0.len() > 0 {
        own == Some(package.publish->0[0])
    } else {
        own is None
    }
}

/// Taken one after the other, the groups name each package once, with its own registry: behind
/// the packages of a list, one more package joins the last group where that is of its registry,
/// and has a group of its own otherwise.
pub proof fn packages_join_the_group_of_their_registry(
    packages: Vec<Package>,
    more: Vec<Package>,
    registry: Option<&str>,
    r: Vec<DownloadGroup>,
    of_more: Vec<DownloadGroup>,
    own: Option<Seq<char>>,
)
    requires
        call_ensures(download_groups, (&packages, registry), r),
        call_ensures(download_groups, (&more, registry), of_more),
        more@.len() > 0,
        package_views(packages@) == package_views(more@).drop_last(),
        is_own_registry(more@.last()@, optional_str(registry), own),
    ensures
        ({
            let before = group_views(r@);
            let after = group_views(of_more@);
            let name = more@.last().name@;
            if before.len() > 0 && before.last().registry == own {
                &&& after.len() == before.len()
                &&& after.drop_last() == before.drop_last()
                &&& after.last().registry == own
                &&& after.last().names == before.last().names.push(name)
            } else {
                &&& after.len() == before.len() + 1
                &&& after.drop_last() == before
                &&& after.last().registry == own
                &&& after.last().names == seq![name]
            }
        }),
{
    let views = package_views(more@);
    assert(views.last() == more@.last()@);
    let rest = groups(views.drop_last(), optional_str(registry));
    let all = groups(views, optional_str(registry));
    assert(all.drop_last() =~= if rest.len() > 0 && rest.last().registry == own {
        rest.drop_last()
    } else {
        rest
    });
}

/// Without packages there is nothing to download.
pub proof fn no_packages_are_in_no_group(
    packages: &Vec<Package>,
    registry: Option<&str>,
    r: Vec<DownloadGroup>,
)
    requires
        call_ensures(download_groups, (packages, registry), r),
        packages@.len() == 0,
    ensures
        r@.len() == 0,
{
    assert(group_views(r@).len() == r@.len());
    assert(package_views(packages@).len() == 0);
}

/// Of the packages of one name the last is found by the name; a name that no package has is not
/// found.
pub proof fn last_of_a_name_is_found(
    packages: Vec<RegistryPackage>,
    r: NameMap<RegistryPackage>,
    name: Seq<char>,
    i: int,
)
    requires
        call_ensures(packages_by_name, (packages,), r),
        0 <= i < packages@.len(),
        packages@[i].package.name@ == name,
        forall|j: int| i < j < packages@.len() ==> (#[trigger] packages@[j]).package.name@ != name,
    ensures
        r@.contains_key(name),
        r@[name]@ == packages@[i]@,
{
    let views = registry_views(packages@);
    lemma_last_of_a_name(views, name, i);
    assert(models(r@).contains_key(name));
    assert(models(r@)[name] == r@[name]@);
}

/// Only the names of packages are found.
pub proof fn only_names_of_packages_are_found(
    packages: Vec<RegistryPackage>,
    r: NameMap<RegistryPackage>,
    name: Seq<char>,
)
    requires
        call_ensures(packages_by_name, (packages,), r),
        r@.contains_key(name),
    ensures
        exists|i: int| 0 <= i < packages@.len() && (#[trigger] packages@[i]).package.name@ == name,
{
    let views = registry_views(packages@);
    collected_packages_have_their_names(views, name);
    assert(models(r@).contains_key(name));
    let i = choose|i: int| 0 <= i < views.len() && #[trigger] views[i].package.name == name;
    assert(packages@[i].package.name@ == name);
}

proof fn lemma_last_of_a_name(packages: Seq<RegistryPackageView>, name: Seq<char>, i: int)
    requires
        0 <= i < packages.len(),
        packages[i].package.name == name,
        forall|j: int| i < j < packages.len() ==> (#[trigger] packages[j]).package.name != name,
    ensures
        by_name(packages).contains_key(name),
        by_name(packages)[name] == packages[i],
    decreases packages.len(),
{
    if i < packages.len() - 1 {
        let rest = packages.drop_last();
        assert forall|j: int| i < j < rest.len() implies (#[trigger] rest[j]).package.name != name by {
            assert(rest[j] == packages[j]);
        }
        lemma_last_of_a_name(rest, name, i);
        assert(packages[packages.len() - 1].package.name != name);
    }
}

/// A collection gives back the packages that it was made of, and keeps the directory that they
/// are in, also where it gets other packages.
pub proof fn collections_give_back_their_packages(
    packages: NameMap<RegistryPackage>,
    temp_dir: Option<tempfile::TempDir>,
    collection: PackagesCollection,
    others: NameMap<RegistryPackage>,
    changed: PackagesCollection,
    name: &str,
    package: Option<&Package>,
    released: Option<&RegistryPackage>,
    other: Option<&RegistryPackage>,
)
    requires
        call_ensures(PackagesCollection::new, (packages, temp_dir), collection),
        call_ensures(PackagesCollection::with_packages, (collection, others), changed),
        call_ensures(PackagesCollection::get_package, (&collection, name), package),
        call_ensures(PackagesCollection::get_registry_package, (&collection, name), released),
        call_ensures(PackagesCollection::get_registry_package, (&changed, name), other),
    ensures
        package is Some <==> packages@.contains_key(name@),
        package matches Some(package) ==> package@ == packages@[name@].package@,
        released is Some <==> packages@.contains_key(name@),
        released matches Some(released) ==> released@ == packages@[name@]@,
        other is Some <==> others@.contains_key(name@),
        other matches Some(other) ==> other@ == others@[name@]@,
        collection.temp_dir() == temp_dir,
        changed.temp_dir() == temp_dir,
{
    assert(models(packages@).contains_key(name@) == packages@.contains_key(name@));
    assert(models(others@).contains_key(name@) == others@.contains_key(name@));
    if packages@.contains_key(name@) {
        assert(models(packages@)[name@] == packages@[name@]@);
    }
    if others@.contains_key(name@) {
        assert(models(others@)[name@] == others@[name@]@);
    }
}

/// A released package gives back what it was made of.
pub proof fn released_packages_give_back_what_they_are(
    package: Package,
    sha1: Option<String>,
    released: RegistryPackage,
    workspace: Arc<ReleasedWorkspace>,
    moved: RegistryPackage,
    found_sha1: Option<&str>,
    no_workspace: Option<&ReleasedWorkspace>,
    found_workspace: Option<&ReleasedWorkspace>,
)
    requires
        call_ensures(RegistryPackage::new, (package, sha1), released),
        call_ensures(RegistryPackage::with_released_workspace, (released, workspace), moved),
        call_ensures(RegistryPackage::published_at_sha1, (&moved,), found_sha1),
        call_ensures(RegistryPackage::released_workspace, (&released,), no_workspace),
        call_ensures(RegistryPackage::released_workspace, (&moved,), found_workspace),
    ensures
        released.package == package,
        moved.package == package,
        found_sha1 is Some <==> sha1 is Some,
        sha1 matches Some(sha1) ==> found_sha1->0@ == sha1@,
        no_workspace is None,
        found_workspace matches Some(found) && found@ == workspace@,
{
}

/// A released workspace gives back what it was made of.
pub proof fn released_workspaces_give_back_what_they_are(
    metadata: Metadata,
    lockfile: Option<WorkspaceLockfile>,
    commit: String,
    workspace: ReleasedWorkspace,
    found: Option<&WorkspaceLockfile>,
)
    requires
        call_ensures(ReleasedWorkspace::new, (metadata, lockfile, commit), workspace),
        call_ensures(ReleasedWorkspace::lockfile, (&workspace,), found),
    ensures
        workspace.metadata == metadata,
        workspace.lockfile == lockfile,
        workspace.commit@ == commit@,
        found is Some <==> lockfile is Some,
        found matches Some(found) ==> lockfile == Some(*found),
{
    assert(workspace@.metadata == metadata);
    assert(workspace@.lockfile == lockfile);
    assert(workspace@.commit == commit@);
}

/// A new collection holds nothing.
pub proof fn new_collections_are_empty(
    collection: PackagesCollection,
    name: &str,
    package: Option<&Package>,
)
    requires
        call_ensures(<PackagesCollection as Default>::default, (), collection),
        call_ensures(PackagesCollection::get_package, (&collection, name), package),
    ensures
        package is None,
        collection.temp_dir() is None,
{
}

}
