//! The packages of a workspace.

use crate::package::{package_views, Package, PackageView, Publishable};
use crate::text::{contains_text, debug_format, debug_text, same_text, texts};
use vstd::prelude::*;

verus! {

/// What Cargo says of a workspace.
#[derive(Debug)]
pub struct Metadata {
    /// The packages that Cargo knows of, members or not.
    pub packages: Vec<Package>,
    /// The ids of the members.
    pub workspace_members: Vec<String>,
    pub workspace_root: String,
}

/// The package is a member of a workspace whose members have the given ids.
pub open spec fn is_member(ids: Seq<Seq<char>>) -> spec_fn(Package) -> bool {
    |p: Package| ids.contains(p.id@)
}

impl Metadata {
    /// The members of the workspace, in the order of the packages.
    pub open spec fn members(self) -> Seq<Package> {
        self.packages@.filter(is_member(texts(self.workspace_members@)))
    }
}

/// How a filter goes through a list.
pub(crate) proof fn lemma_filter_step<A>(list: Seq<A>, keep: spec_fn(A) -> bool, i: int)
    requires
        0 <= i < list.len(),
    ensures
        list.take(i + 1).filter(keep) == if keep(list[i]) {
            list.take(i).filter(keep).push(list[i])
        } else {
            list.take(i).filter(keep)
        },
{
    reveal(Seq::filter);
    assert(list.take(i + 1).drop_last() =~= list.take(i));
}

/// The members of the workspace, in the order of its packages.
fn workspace_members(metadata: &Metadata) -> (r: Vec<&Package>)
    ensures
        r@.unref() == metadata.members(),
{
    let ghost keep = is_member(texts(metadata.workspace_members@));
    let mut r: Vec<&Package> = Vec::new();
    let mut i: usize = 0;
    assert(metadata.packages@.take(0).filter(keep) =~= Seq::<Package>::empty()) by {
        reveal(Seq::filter);
    }
    while i < metadata.packages.len()
        invariant
            i <= metadata.packages@.len(),
            keep == is_member(texts(metadata.workspace_members@)),
            r@.unref() == metadata.packages@.take(i as int).filter(keep),
        decreases metadata.packages@.len() - i,
    {
        let package = &metadata.packages[i];
        let member = contains_text(&metadata.workspace_members, package.id.as_str());
        proof {
            lemma_filter_step(metadata.packages@, keep, i as int);
            let ids = texts(metadata.workspace_members@);
            if member {
                let k = choose|k: int|
                    0 <= k < metadata.workspace_members@.len()
                        && #[trigger] metadata.workspace_members@[k]@ == package.id@;
                assert(ids[k] == package.id@);
            }
            if ids.contains(package.id@) {
                let k = ids.index_of(package.id@);
                assert(metadata.workspace_members@[k]@ == package.id@);
            }
            assert(member == keep(*package));
        }
        if member {
            let ghost earlier = r@;
            r.push(package);
            assert(r@.unref() =~= earlier.unref().push(*package));
        }
        i += 1;
    }
    assert(metadata.packages@.take(i as int) =~= metadata.packages@);
    r
}

impl Metadata {
    /// The members of the workspace, in the order of its packages.
    pub fn workspace_packages(&self) -> (r: Vec<&Package>)
        ensures
            r@.unref() == self.members(),
    {
        workspace_members(self)
    }
}

/// Copies of the members of the workspace, in the order of its packages.
pub fn workspace_packages(metadata: &Metadata) -> (r: Vec<Package>)
    ensures
        package_views(r@) == package_views(metadata.members()),
{
    let members = workspace_members(metadata);
    let ghost list = metadata.members();
    let mut r: Vec<Package> = Vec::new();
    let mut i: usize = 0;
    while i < members.len()
        invariant
            i <= members@.len(),
            list == members@.unref(),
            r@.len() == i,
            forall|j: int| 0 <= j < i ==> #[trigger] r@[j]@ == list[j]@,
        decreases members@.len() - i,
    {
        r.push(members[i].copy());
        i += 1;
    }
    assert(package_views(r@) =~= package_views(list));
    r
}

/// A workspace that has no member of a given name.
#[derive(Debug)]
pub struct PackageNotFound {
    pub package_name: String,
    pub workspace_root: String,
}

impl PackageNotFound {
    /// The message for the user.
    pub fn message(&self) -> (r: String)
        ensures
            r@ == "cannot find package "@ + debug_text(self.package_name@) + " in workspace "@
                + debug_text(self.workspace_root@),
    {
        let mut r = "cannot find package ".to_owned();
        r.append(debug_format(self.package_name.as_str()).as_str());
        r.append(" in workspace ");
        r.append(debug_format(self.workspace_root.as_str()).as_str());
        r
    }
}

/// `found` is the first of `packages` that is called `name`.
pub open spec fn is_first_named(packages: Seq<Package>, name: Seq<char>, found: Package) -> bool {
    exists|i: int| 
        0 <= i < packages.len() && #[trigger] packages[i] == found && found.name@ == name
            && forall|j: int| 0 <= j < i ==> #[trigger] packages[j].name@ != name
}

/// The first of `packages` that is called `name`.
pub open spec fn first_named(packages: Seq<PackageView>, name: Seq<char>) -> Option<PackageView>
    decreases packages.len(),
{
    if packages.len() == 0 {
        None
    } else if packages[0].name == name {
        Some(packages[0])
    } else {
        first_named(packages.drop_first(), name)
    }
}

/// What is found by a name is called that.
pub proof fn found_package_has_the_name(packages: Seq<PackageView>, name: Seq<char>)
    ensures
        first_named(packages, name) matches Some(package) ==> package.name == name
            && packages.contains(package),
    decreases packages.len(),
{
    if packages.len() > 0 && packages[0].name != name {
        let rest = packages.drop_first();
        found_package_has_the_name(rest, name);
        if let Some(package) = first_named(rest, name) {
            let i = rest.index_of(package);
            assert(packages[i + 1] == package);
        }
    }
}

proof fn lemma_first_named(packages: Seq<Package>, name: Seq<char>, i: int)
    requires
        0 <= i <= packages.len(),
        forall|j: int| 0 <= j < i ==> #[trigger] packages[j].name@ != name,
        i < packages.len() ==> packages[i].name@ == name,
    ensures
        first_named(package_views(packages), name) == if i < packages.len() {
            Some(packages[i]@)
        } else {
            None
        },
    decreases packages.len(),
{
    if packages.len() > 0 {
        assert(package_views(packages)[0] == packages[0]@);
        if i > 0 {
            let rest = packages.drop_first();
            assert forall|j: int| 0 <= j < i - 1 implies #[trigger] rest[j].name@ != name by {
                assert(rest[j] == packages[j + 1]);
            }
            lemma_first_named(rest, name, i - 1);
            assert(package_views(packages).drop_first() =~= package_views(rest));
        }
    }
}

/// None of `packages` is called `name`.
pub open spec fn none_named(packages: Seq<Package>, name: Seq<char>) -> bool {
    forall|i: int| 0 <= i < packages.len() ==> #[trigger] packages[i].name@ != name
}

/// The first member of the workspace that is called `package_name`.
pub fn workspace_package<'a>(metadata: &'a Metadata, package_name: &str) -> (r: Result<
    &'a Package,
    PackageNotFound,
>)
    ensures
        r is Err <==> none_named(metadata.members(), package_name@),
        r matches Ok(package) ==> is_first_named(metadata.members(), package_name@, *package),
        (match r {
            Ok(package) => Some(package@),
            Err(_) => None,
        }) == first_named(package_views(metadata.members()), package_name@),
        r matches Err(error) ==> error.package_name@ == package_name@ && error.workspace_root@
            == metadata.workspace_root@,
{
    let members = workspace_members(metadata);
    let ghost list = metadata.members();
    let mut i: usize = 0;
    while i < members.len()
        invariant
            i <= members@.len(),
            list == members@.unref(),
            list == metadata.members(),
            forall|j: int| 0 <= j < i ==> #[trigger] list[j].name@ != package_name@,
        decreases members@.len() - i,
    {
        assert(list[i as int] == *members@[i as int]);
        if same_text(members[i].name.as_str(), package_name) {
            assert(is_first_named(list, package_name@, list[i as int]));
            proof {
                lemma_first_named(list, package_name@, i as int);
            }
            return Ok(members[i]);
        }
        i += 1;
    }
    proof {
        lemma_first_named(list, package_name@, i as int);
    }
    Err(
        PackageNotFound {
            package_name: package_name.to_owned(),
            workspace_root: metadata.workspace_root.clone(),
        },
    )
}

/// Those of `packages` that can be published, in their order.
pub fn publishable_packages(packages: Vec<Package>) -> (r: Vec<Package>)
    ensures
        r@ == packages@.filter(|p: Package| p@.is_publishable()),
        package_views(r@) == package_views(packages@).filter(|p: PackageView| p.is_publishable()),
{
    let ghost keep = |p: Package| p@.is_publishable();
    let ghost keep_view = |p: PackageView| p.is_publishable();
    let ghost list = packages@;
    let ghost views = package_views(packages@);
    let mut r: Vec<Package> = Vec::new();
    proof {
        reveal(Seq::filter);
        assert(list.take(0).filter(keep) =~= Seq::<Package>::empty());
        assert(package_views(r@) =~= views.take(0).filter(keep_view));
    }
    for package in it: packages.into_iter()
        invariant
            it.seq() == list,
            views == package_views(list),
            keep == |p: Package| p@.is_publishable(),
            keep_view == |p: PackageView| p.is_publishable(),
            r@ == list.take(it.index()).filter(keep),
            package_views(r@) == views.take(it.index()).filter(keep_view),
    {
        proof {
            lemma_filter_step(list, keep, it.index());
            lemma_filter_step(views, keep_view, it.index());
            assert(views[it.index()] == package@);
        }
        if package.is_publishable() {
            let ghost earlier = r@;
            r.push(package);
            assert(package_views(r@) =~= package_views(earlier).push(package@));
        }
    }
    assert(list.take(list.len() as int) =~= list);
    assert(views.take(list.len() as int) =~= views);
    r
}

/// Copies of the members of the workspace that can be published, in their order.
pub fn publishable_members(metadata: &Metadata) -> (r: Vec<Package>)
    ensures
        package_views(r@) == package_views(metadata.members()).filter(
            |p: PackageView| p.is_publishable(),
        ),
{
    publishable_packages(workspace_packages(metadata))
}

/// Two conditions that agree on a list keep the same of it.
pub proof fn conditions_that_agree_keep_the_same<A>(
    list: Seq<A>,
    a: spec_fn(A) -> bool,
    b: spec_fn(A) -> bool,
)
    requires
        forall|i: int| 0 <= i < list.len() ==> a(#[trigger] list[i]) == b(list[i]),
    ensures
        list.filter(a) == list.filter(b),
    decreases list.len(),
{
    reveal(Seq::filter);
    if list.len() > 0 {
        let rest = list.drop_last();
        assert forall|i: int| 0 <= i < rest.len() implies a(#[trigger] rest[i]) == b(rest[i]) by {
            assert(rest[i] == list[i]);
        }
        conditions_that_agree_keep_the_same(rest, a, b);
        assert(a(list[list.len() - 1]) == b(list[list.len() - 1]));
    }
}

/// What is kept of a list was in it.
pub proof fn kept_items_were_there<A>(list: Seq<A>, keep: spec_fn(A) -> bool, k: int)
    requires
        0 <= k < list.filter(keep).len(),
    ensures
        exists|i: int| 0 <= i < list.len() && list[i] == list.filter(keep)[k],
    decreases list.len(),
{
    reveal(Seq::filter);
    if list.len() > 0 {
        let rest = list.drop_last();
        if k < rest.filter(keep).len() {
            kept_items_were_there(rest, keep, k);
            let i = choose|i: int| 0 <= i < rest.len() && rest[i] == rest.filter(keep)[k];
            assert(list[i] == rest[i]);
        } else {
            assert(list[list.len() - 1] == list.filter(keep)[k]);
        }
    }
}

/// The members of a workspace are the packages whose ids it lists, in the order of the packages.
pub proof fn members_are_the_listed_packages(metadata: &Metadata, r: Vec<Package>)
    requires
        call_ensures(workspace_packages, (metadata,), r),
    ensures
        package_views(r@) == package_views(
            metadata.packages@.filter(
                |package: Package| texts(metadata.workspace_members@).contains(package.id@),
            ),
        ),
{
    conditions_that_agree_keep_the_same(
        metadata.packages@,
        is_member(texts(metadata.workspace_members@)),
        |package: Package| texts(metadata.workspace_members@).contains(package.id@),
    );
}

/// A package is a member if and only if the workspace lists its id.
pub proof fn packages_are_members_by_their_id(
    metadata: &Metadata,
    r: Vec<&Package>,
    package: Package,
)
    requires
        call_ensures(Metadata::workspace_packages, (metadata,), r),
        metadata.packages@.contains(package),
    ensures
        r@.unref().contains(package) <==> texts(metadata.workspace_members@).contains(package.id@),
{
    let listed = is_member(texts(metadata.workspace_members@));
    let k = metadata.packages@.index_of(package);
    if listed(package) {
        metadata.packages@.lemma_filter_contains(listed, k);
    }
    let kept = metadata.packages@.filter(listed);
    if kept.contains(package) {
        let i = kept.index_of(package);
        metadata.packages@.lemma_filter_pred(listed, i);
        assert(listed(kept[i]));
    }
}

/// A package is found by its name where the workspace has a member of that name, and then it is
/// the first one; otherwise the name and the workspace are told.
pub proof fn members_are_found_by_name<'a>(
    metadata: &'a Metadata,
    name: &str,
    r: Result<&'a Package, PackageNotFound>,
    i: int,
)
    requires
        call_ensures(workspace_package, (metadata, name), r),
        0 <= i <= metadata.members().len(),
        forall|j: int| 0 <= j < i ==> (#[trigger] metadata.members()[j]).name@ != name@,
    ensures
        i < metadata.members().len() && metadata.members()[i].name@ == name@ ==> (r matches Ok(
            package,
        ) && *package == metadata.members()[i]),
        i == metadata.members().len() ==> r is Err,
        r matches Err(error) ==> error.package_name@ == name@ && error.workspace_root@
            == metadata.workspace_root@,
        r matches Ok(package) ==> package.name@ == name@ && metadata.members().contains(*package),
{
}

/// What is said of a package that is not found names it and the workspace.
pub proof fn missing_package_is_named(error: &PackageNotFound, r: String)
    requires
        call_ensures(PackageNotFound::message, (error,), r),
    ensures
        r@ == "cannot find package "@ + debug_text(error.package_name@) + " in workspace "@
            + debug_text(error.workspace_root@),
{
}

/// Of packages, those are kept that can be published, in their order.
pub proof fn publishable_packages_are_kept(packages: Vec<Package>, r: Vec<Package>)
    requires
        call_ensures(publishable_packages, (packages,), r),
    ensures
        r@ == packages@.filter(|package: Package| package.can_be_published()),
{
    conditions_that_agree_keep_the_same(
        packages@,
        |p: Package| p@.is_publishable(),
        |package: Package| package.can_be_published(),
    );
}

/// Of the members of a workspace, those are copied that can be published, in their order.
pub proof fn publishable_members_are_kept(metadata: &Metadata, r: Vec<Package>)
    requires
        call_ensures(publishable_members, (metadata,), r),
    ensures
        package_views(r@) == package_views(metadata.members()).filter(
            |package: PackageView|
                match package.publish {
                    Some(list) => list.len() > 0,
                    None => exists|i: int|
                        0 <= i < package.targets.len() && #[trigger] package.targets[i] != seq![
                            crate::package::TargetKindView::Example,
                        ],
                },
        ),
{
    conditions_that_agree_keep_the_same(
        package_views(metadata.members()),
        |p: PackageView| p.is_publishable(),
        |package: PackageView|
            match package.publish {
                Some(list) => list.len() > 0,
                None => exists|i: int|
                    0 <= i < package.targets.len() && #[trigger] package.targets[i] != seq![
                        crate::package::TargetKindView::Example,
                    ],
            },
    );
}

/// The first package of a name is the one that is found; where none has the name, none is found.
pub proof fn first_of_a_name_is_found(packages: Seq<PackageView>, name: Seq<char>, i: int)
    requires
        0 <= i <= packages.len(),
        forall|j: int| 0 <= j < i ==> (#[trigger] packages[j]).name != name,
    ensures
        i < packages.len() && packages[i].name == name ==> first_named(packages, name) == Some(
            packages[i],
        ),
        i == packages.len() ==> first_named(packages, name) is None,
    decreases packages.len(),
{
    if packages.len() > 0 && i > 0 {
        assert(packages[0].name != name);
        let rest = packages.drop_first();
        assert forall|j: int| 0 <= j < i - 1 implies (#[trigger] rest[j]).name != name by {
            assert(rest[j] == packages[j + 1]);
        }
        first_of_a_name_is_found(rest, name, i - 1);
    }
}

}
