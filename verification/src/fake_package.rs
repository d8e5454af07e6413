//! Packages made up for tests.

use crate::package::{
    kind_named, registries, Dependency, Package, PackageView, Target, TargetKind,
};
use crate::text::texts;
use vstd::prelude::*;

verus! {

/// A dependency of a made-up package.
#[derive(Clone, Debug)]
pub struct FakeDependency {
    name: String,
}

impl View for FakeDependency {
    type V = Seq<char>;

    closed spec fn view(&self) -> Seq<char> {
        self.name@
    }
}

impl FakeDependency {
    /// A dependency on the package called `name`.
    pub fn new(name: &str) -> (r: Self)
        ensures
            r@ == name@,
    {
        FakeDependency { name: name.to_owned() }
    }

    /// The name of the package depended on.
    pub fn name(&self) -> (r: &str)
        ensures
            r@ == self@,
    {
        self.name.as_str()
    }
}

/// A made-up package.
#[derive(Clone, Debug)]
pub struct FakePackage {
    name: String,
    dependencies: Vec<FakeDependency>,
    /// The `publish` field of Cargo.toml.
    publish: Option<Vec<String>>,
    /// Target kinds, such as `lib`, `bin` or `example`. One target per kind.
    targets: Vec<String>,
}

/// The model of a [`FakePackage`].
#[verifier::ext_equal]
pub struct FakePackageView {
    pub name: Seq<char>,
    pub dependencies: Seq<Seq<char>>,
    pub publish: Option<Seq<Seq<char>>>,
    pub targets: Seq<Seq<char>>,
}

/// The names of a list of dependencies.
pub open spec fn dependency_names(dependencies: Seq<FakeDependency>) -> Seq<Seq<char>> {
    dependencies.map_values(|d: FakeDependency| d@)
}

impl View for FakePackage {
    type V = FakePackageView;

    closed spec fn view(&self) -> FakePackageView {
        FakePackageView {
            name: self.name@,
            dependencies: dependency_names(self.dependencies@),
            publish: registries(self.publish),
            targets: texts(self.targets@),
        }
    }
}

impl FakePackage {
    /// A package without dependencies and targets that can be published anywhere.
    pub fn new(name: &str) -> (r: Self)
        ensures
            r@ == (FakePackageView {
                name: name@,
                dependencies: seq![],
                publish: None,
                targets: seq![],
            }),
    {
        let r = FakePackage {
            name: name.to_owned(),
            dependencies: Vec::new(),
            publish: None,
            targets: Vec::new(),
        };
        assert(r@.dependencies =~= seq![]);
        assert(r@.targets =~= seq![]);
        r
    }

    /// The package with these dependencies in place of its own.
    pub fn with_dependencies(self, dependencies: Vec<FakeDependency>) -> (r: Self)
        ensures
            r@ == (FakePackageView { dependencies: dependency_names(dependencies@), ..self@ }),
    {
        FakePackage { dependencies, ..self }
    }

    /// The package with this `publish` field.
    ///
    /// `None` is the default (publishable anywhere), a list restricts the package to the
    /// registries it names. Use [`Self::unpublishable`] for `publish = false`.
    pub fn with_publish(self, publish: Option<Vec<String>>) -> (r: Self)
        ensures
            r@ == (FakePackageView { publish: registries(publish), ..self@ }),
    {
        FakePackage { publish, ..self }
    }

    /// The package with `publish = false`: it cannot be published anywhere.
    pub fn unpublishable(self) -> (r: Self)
        ensures
            r@ == (FakePackageView { publish: Some(seq![]), ..self@ }),
    {
        let r = FakePackage { publish: Some(Vec::new()), ..self };
        assert(r@.publish->0 =~= seq![]);
        r
    }

    /// The package with one target for each of `kinds`, such as `lib`, `bin` or `example`,
    /// in place of its own targets.
    pub fn with_targets(self, kinds: &[&str]) -> (r: Self)
        ensures
            r@ == (FakePackageView { targets: kinds@.map_values(|kind: &str| kind@), ..self@ }),
    {
        let mut targets: Vec<String> = Vec::new();
        let mut i: usize = 0;
        while i < kinds.len()
            invariant
                i <= kinds@.len(),
                targets@.len() == i,
                forall|j: int| 0 <= j < i ==> #[trigger] targets@[j]@ == kinds@[j]@,
            decreases kinds@.len() - i,
        {
            targets.push(kinds[i].to_owned());
            i += 1;
        }
        let r = FakePackage { targets, ..self };
        assert(r@.targets =~= kinds@.map_values(|kind: &str| kind@));
        r
    }
}

/// The package that Cargo would describe for a made-up one.
pub open spec fn described(fake: FakePackageView) -> PackageView {
    PackageView {
        name: fake.name,
        version: "0.1.0"@,
        id: fake.name,
        publish: fake.publish,
        dependencies: fake.dependencies,
        manifest_path: fake.name + "/Cargo.toml"@,
        targets: fake.targets.map_values(|kind: Seq<char>| seq![kind_named(kind)]),
    }
}

impl vstd::std_specs::convert::FromSpecImpl<FakePackage> for Package {
    open spec fn obeys_from_spec() -> bool {
        false
    }

    open spec fn from_spec(fake: FakePackage) -> Package {
        arbitrary()
    }
}

impl From<FakePackage> for Package {
    /// The package that Cargo would describe: at version 0.1.0, in a directory of its name,
    /// with one target for each kind.
    fn from(fake: FakePackage) -> (r: Package)
        ensures
            r@ == described(fake@),
    {
        let FakePackage { name, dependencies: fake_dependencies, publish, targets: kinds } = fake;
        let mut dependencies: Vec<Dependency> = Vec::new();
        for dependency in it: fake_dependencies.into_iter()
            invariant
                it.seq() == fake_dependencies@,
                dependencies@.len() == it.index(),
                forall|j: int|
                    0 <= j < it.index() ==> #[trigger] dependencies@[j].name@ == fake_dependencies@[j]@,
        {
            dependencies.push(Dependency { name: dependency.name });
        }
        let mut targets: Vec<Target> = Vec::new();
        let mut i: usize = 0;
        while i < kinds.len()
            invariant
                i <= kinds@.len(),
                targets@.len() == i,
                forall|j: int|
                    0 <= j < i ==> #[trigger] targets@[j]@ == seq![kind_named(kinds@[j]@)],
            decreases kinds@.len() - i,
        {
            let mut kind: Vec<TargetKind> = Vec::new();
            kind.push(TargetKind::named(kinds[i].as_str()));
            let target = Target { kind };
            assert(target@ =~= seq![kind_named(kinds@[i as int]@)]);
            targets.push(target);
            i += 1;
        }
        let mut manifest_path = name.clone();
        manifest_path.append("/Cargo.toml");
        let r = Package {
            id: name.clone(),
            name,
            version: "0.1.0".to_owned(),
            publish,
            dependencies,
            manifest_path,
            targets,
        };
        assert(r@.dependencies =~= fake@.dependencies);
        assert(r@.targets =~= described(fake@).targets);
        r
    }
}

/// A made-up package that sets nothing takes part in no release: it has no target that is
/// not an example. One that is unpublishable takes part in Git-only releases alone.
pub proof fn made_up_packages_in_a_release(fake: FakePackageView, git_only: bool)
    ensures
        fake.publish is None && fake.targets.len() == 0 ==> !described(fake).takes_part_in_release(
            git_only,
        ),
        fake.publish == Some(Seq::<Seq<char>>::empty()) ==> described(
            fake,
        ).takes_part_in_release(git_only) == git_only,
{
}

/// A made-up package is described with what it was given: its name, its dependencies, its
/// registries, and one target for each of its kinds.
pub proof fn made_up_packages_are_described(
    name: &str,
    new: FakePackage,
    dependencies: Vec<FakeDependency>,
    with_dependencies: FakePackage,
    publish: Option<Vec<String>>,
    with_publish: FakePackage,
    kinds: &[&str],
    with_targets: FakePackage,
    r: Package,
)
    requires
        call_ensures(FakePackage::new, (name,), new),
        call_ensures(FakePackage::with_dependencies, (new, dependencies), with_dependencies),
        call_ensures(FakePackage::with_publish, (with_dependencies, publish), with_publish),
        call_ensures(FakePackage::with_targets, (with_publish, kinds), with_targets),
        call_ensures(<Package as From<FakePackage>>::from, (with_targets,), r),
    ensures
        r@.name == name@,
        r@.id == name@,
        r@.version == "0.1.0"@,
        r@.manifest_path == name@ + "/Cargo.toml"@,
        r@.dependencies == dependencies@.map_values(|dependency: FakeDependency| dependency@),
        publish is None ==> r@.publish is None,
        publish matches Some(list) ==> r@.publish == Some(texts(list@)),
        r@.targets.len() == kinds@.len(),
        forall|i: int|
            0 <= i < kinds@.len() ==> #[trigger] r@.targets[i] == seq![kind_named(kinds@[i]@)],
{
    assert(r@.dependencies =~= dependencies@.map_values(
        |dependency: FakeDependency| dependency@,
    ));
}

/// A new made-up package leaves open where it is published and has no targets and dependencies;
/// one that is unpublishable may be published nowhere.
pub proof fn new_made_up_packages_are_bare(
    name: &str,
    new: FakePackage,
    bare: Package,
    fake: FakePackage,
    unpublishable: FakePackage,
)
    requires
        call_ensures(FakePackage::new, (name,), new),
        call_ensures(<Package as From<FakePackage>>::from, (new,), bare),
        call_ensures(FakePackage::unpublishable, (fake,), unpublishable),
    ensures
        bare@.name == name@,
        bare@.publish is None,
        bare@.targets.len() == 0,
        bare@.dependencies.len() == 0,
        unpublishable@.publish matches Some(list) && list.len() == 0,
        unpublishable@.name == fake@.name,
        unpublishable@.dependencies == fake@.dependencies,
        unpublishable@.targets == fake@.targets,
{
}

/// A made-up dependency has the name that it was given.
pub proof fn made_up_dependencies_have_their_names(
    name: &str,
    dependency: FakeDependency,
    found: &str,
)
    requires
        call_ensures(FakeDependency::new, (name,), dependency),
        call_ensures(FakeDependency::name, (&dependency,), found),
    ensures
        found@ == name@,
{
}

}
