//! Packages of a Cargo workspace and whether they take part in a release.

use crate::text::{copy_texts, texts};
use vstd::prelude::*;

verus! {

/// What a target of a package is built as.
#[derive(Debug)]
pub enum TargetKind {
    Bench,
    Bin,
    CustomBuild,
    CDyLib,
    DyLib,
    Example,
    Lib,
    ProcMacro,
    RLib,
    StaticLib,
    Test,
    /// A kind that has no name of its own here.
    Unknown(String),
}

/// The model of a [`TargetKind`].
pub enum TargetKindView {
    Bench,
    Bin,
    CustomBuild,
    CDyLib,
    DyLib,
    Example,
    Lib,
    ProcMacro,
    RLib,
    StaticLib,
    Test,
    Unknown(Seq<char>),
}

impl View for TargetKind {
    type V = TargetKindView;

    open spec fn view(&self) -> TargetKindView {
        match self {
            TargetKind::Bench => TargetKindView::Bench,
            TargetKind::Bin => TargetKindView::Bin,
            TargetKind::CustomBuild => TargetKindView::CustomBuild,
            TargetKind::CDyLib => TargetKindView::CDyLib,
            TargetKind::DyLib => TargetKindView::DyLib,
            TargetKind::Example => TargetKindView::Example,
            TargetKind::Lib => TargetKindView::Lib,
            TargetKind::ProcMacro => TargetKindView::ProcMacro,
            TargetKind::RLib => TargetKindView::RLib,
            TargetKind::StaticLib => TargetKindView::StaticLib,
            TargetKind::Test => TargetKindView::Test,
            TargetKind::Unknown(name) => TargetKindView::Unknown(name@),
        }
    }
}

/// The kind that a name stands for.
pub open spec fn kind_named(name: Seq<char>) -> TargetKindView {
    if name == "example"@ {
        TargetKindView::Example
    } else if name == "test"@ {
        TargetKindView::Test
    } else if name == "bench"@ {
        TargetKindView::Bench
    } else if name == "custom-build"@ {
        TargetKindView::CustomBuild
    } else if name == "bin"@ {
        TargetKindView::Bin
    } else if name == "lib"@ {
        TargetKindView::Lib
    } else if name == "rlib"@ {
        TargetKindView::RLib
    } else if name == "dylib"@ {
        TargetKindView::DyLib
    } else if name == "cdylib"@ {
        TargetKindView::CDyLib
    } else if name == "staticlib"@ {
        TargetKindView::StaticLib
    } else if name == "proc-macro"@ {
        TargetKindView::ProcMacro
    } else {
        TargetKindView::Unknown(name)
    }
}

/// `From<&str>` of `cargo_metadata::TargetKind`: the kind that Cargo calls `name`, or an
/// unknown kind that keeps the name.
#[verifier::external_body]
pub(crate) fn kind_from_name(name: &str) -> (r: TargetKind)
    ensures
        r@ == kind_named(name@),
{
    match cargo_metadata::TargetKind::from(name) {
        cargo_metadata::TargetKind::Bench => TargetKind::Bench,
        cargo_metadata::TargetKind::Bin => TargetKind::Bin,
        cargo_metadata::TargetKind::CustomBuild => TargetKind::CustomBuild,
        cargo_metadata::TargetKind::CDyLib => TargetKind::CDyLib,
        cargo_metadata::TargetKind::DyLib => TargetKind::DyLib,
        cargo_metadata::TargetKind::Example => TargetKind::Example,
        cargo_metadata::TargetKind::Lib => TargetKind::Lib,
        cargo_metadata::TargetKind::ProcMacro => TargetKind::ProcMacro,
        cargo_metadata::TargetKind::RLib => TargetKind::RLib,
        cargo_metadata::TargetKind::StaticLib => TargetKind::StaticLib,
        cargo_metadata::TargetKind::Test => TargetKind::Test,
        other => TargetKind::Unknown(other.to_string()),
    }
}

/// The name of a kind.
pub open spec fn name_of_kind(kind: TargetKindView) -> Seq<char> {
    match kind {
        TargetKindView::Bench => "bench"@,
        TargetKindView::Bin => "bin"@,
        TargetKindView::CustomBuild => "custom-build"@,
        TargetKindView::CDyLib => "cdylib"@,
        TargetKindView::DyLib => "dylib"@,
        TargetKindView::Example => "example"@,
        TargetKindView::Lib => "lib"@,
        TargetKindView::ProcMacro => "proc-macro"@,
        TargetKindView::RLib => "rlib"@,
        TargetKindView::StaticLib => "staticlib"@,
        TargetKindView::Test => "test"@,
        TargetKindView::Unknown(name) => name,
    }
}

/// The kind that a name stands for has that name.
pub proof fn named_kind_keeps_name(name: Seq<char>)
    ensures
        name_of_kind(kind_named(name)) == name,
{
}

impl TargetKind {
    /// The kind that Cargo calls `name`.
    pub fn named(name: &str) -> (r: TargetKind)
        ensures
            r@ == kind_named(name@),
    {
        kind_from_name(name)
    }

    /// The name that Cargo has for the kind.
    pub fn name(&self) -> (r: &str)
        ensures
            r@ == name_of_kind(self@),
    {
        match self {
            TargetKind::Bench => "bench",
            TargetKind::Bin => "bin",
            TargetKind::CustomBuild => "custom-build",
            TargetKind::CDyLib => "cdylib",
            TargetKind::DyLib => "dylib",
            TargetKind::Example => "example",
            TargetKind::Lib => "lib",
            TargetKind::ProcMacro => "proc-macro",
            TargetKind::RLib => "rlib",
            TargetKind::StaticLib => "staticlib",
            TargetKind::Test => "test",
            TargetKind::Unknown(name) => name.as_str(),
        }
    }

    fn copy(&self) -> (r: TargetKind)
        ensures
            r@ == self@,
    {
        match self {
            TargetKind::Bench => TargetKind::Bench,
            TargetKind::Bin => TargetKind::Bin,
            TargetKind::CustomBuild => TargetKind::CustomBuild,
            TargetKind::CDyLib => TargetKind::CDyLib,
            TargetKind::DyLib => TargetKind::DyLib,
            TargetKind::Example => TargetKind::Example,
            TargetKind::Lib => TargetKind::Lib,
            TargetKind::ProcMacro => TargetKind::ProcMacro,
            TargetKind::RLib => TargetKind::RLib,
            TargetKind::StaticLib => TargetKind::StaticLib,
            TargetKind::Test => TargetKind::Test,
            TargetKind::Unknown(name) => TargetKind::Unknown(name.clone()),
        }
    }
}

/// A target of a package.
#[derive(Debug)]
pub struct Target {
    pub kind: Vec<TargetKind>,
}

impl View for Target {
    type V = Seq<TargetKindView>;

    open spec fn view(&self) -> Seq<TargetKindView> {
        self.kind@.map_values(|kind: TargetKind| kind@)
    }
}

impl Target {
    fn copy(&self) -> (r: Target)
        ensures
            r@ == self@,
    {
        let mut kind: Vec<TargetKind> = Vec::new();
        let mut i: usize = 0;
        while i < self.kind.len()
            invariant
                i <= self.kind@.len(),
                kind@.len() == i,
                forall|j: int| 0 <= j < i ==> #[trigger] kind@[j]@ == self.kind@[j]@,
            decreases self.kind@.len() - i,
        {
            kind.push(self.kind[i].copy());
            i += 1;
        }
        let r = Target { kind };
        assert(r@ =~= self@);
        r
    }

    /// Whether the target is built as an example and as nothing else.
    fn is_example(&self) -> (r: bool)
        ensures
            r == (self@ == seq![TargetKindView::Example]),
    {
        if self.kind.len() != 1 {
            return false;
        }
        assert(self@[0] == self.kind@[0]@);
        match &self.kind[0] {
            TargetKind::Example => {
                assert(self@ =~= seq![TargetKindView::Example]);
                true
            },
            _ => false,
        }
    }
}

/// A dependency of a package.
#[derive(Debug)]
pub struct Dependency {
    pub name: String,
}

/// A package, as Cargo describes it.
#[derive(Debug)]
pub struct Package {
    pub name: String,
    pub version: String,
    pub id: String,
    /// The registries that the package may be published to; `None` stands for all of them.
    pub publish: Option<Vec<String>>,
    pub dependencies: Vec<Dependency>,
    pub manifest_path: String,
    pub targets: Vec<Target>,
}

/// The model of a [`Package`].
#[verifier::ext_equal]
pub struct PackageView {
    pub name: Seq<char>,
    pub version: Seq<char>,
    pub id: Seq<char>,
    pub publish: Option<Seq<Seq<char>>>,
    pub dependencies: Seq<Seq<char>>,
    pub manifest_path: Seq<char>,
    pub targets: Seq<Seq<TargetKindView>>,
}

/// The registries of a `publish` field.
pub open spec fn registries(publish: Option<Vec<String>>) -> Option<Seq<Seq<char>>> {
    match publish {
        Some(list) => Some(texts(list@)),
        None => None,
    }
}

impl View for Package {
    type V = PackageView;

    open spec fn view(&self) -> PackageView {
        PackageView {
            name: self.name@,
            version: self.version@,
            id: self.id@,
            publish: registries(self.publish),
            dependencies: self.dependencies@.map_values(|d: Dependency| d.name@),
            manifest_path: self.manifest_path@,
            targets: self.targets@.map_values(|t: Target| t@),
        }
    }
}

/// The models of a list of packages.
pub open spec fn package_views(packages: Seq<Package>) -> Seq<PackageView> {
    packages.map_values(|p: Package| p@)
}

impl PackageView {
    /// All the targets of the package are examples.
    pub open spec fn is_example(self) -> bool {
        forall|i: int|
            0 <= i < self.targets.len() ==> #[trigger] self.targets[i] == seq![TargetKindView::Example]
    }

    /// The package can be published to at least one registry: it names one, or it names
    /// none and is not an example.
    pub open spec fn is_publishable(self) -> bool {
        match self.publish {
            Some(list) => list.len() > 0,
            None => !self.is_example(),
        }
    }

    /// The package takes part in a release: it can be published, or it is released from
    /// Git only and is not an example without a `publish` field.
    pub open spec fn takes_part_in_release(self, git_only: bool) -> bool {
        self.is_publishable() || (git_only && !(self.publish is None && self.is_example()))
    }
}

/// What can be published.
pub trait Publishable {
    /// Whether it can be published.
    spec fn can_be_published(&self) -> bool;

    /// Whether it can be published.
    fn is_publishable(&self) -> (r: bool)
        ensures
            r == self.can_be_published(),
    ;
}

impl Publishable for Package {
    open spec fn can_be_published(&self) -> bool {
        self@.is_publishable()
    }

    /// Whether the package can be published to at least one registry.
    fn is_publishable(&self) -> (r: bool) {
        match &self.publish {
            // An empty list is `publish = false`.
            Some(publish) => !publish.is_empty(),
            // A package that is not an example can be published anywhere.
            None => !is_example_package(self),
        }
    }
}

/// Whether the package takes part in a release.
pub fn takes_part_in_release(package: &Package, git_only: bool) -> (r: bool)
    ensures
        r == package@.takes_part_in_release(git_only),
{
    package.is_publishable() || (git_only && !is_unpublished_example(package))
}

/// Whether the package is an example that does not set `publish`: nobody depends on such a
/// package, so it never takes part in a release. Setting `publish` opts it in.
pub fn is_unpublished_example(package: &Package) -> (r: bool)
    ensures
        r == (package@.publish is None && package@.is_example()),
{
    package.publish.is_none() && is_example_package(package)
}

/// Whether all the targets of the package are examples.
pub fn is_example_package(package: &Package) -> (r: bool)
    ensures
        r == package@.is_example(),
{
    let mut i: usize = 0;
    while i < package.targets.len()
        invariant
            i <= package.targets@.len(),
            forall|j: int|
                0 <= j < i ==> #[trigger] package@.targets[j] == seq![TargetKindView::Example],
        decreases package.targets@.len() - i,
    {
        assert(package@.targets[i as int] == package.targets@[i as int]@);
        if !package.targets[i].is_example() {
            return false;
        }
        i += 1;
    }
    true
}

/// A package that can be published takes part in a release of either kind.
pub proof fn publishable_packages_take_part(package: PackageView, git_only: bool)
    ensures
        package.is_publishable() ==> package.takes_part_in_release(git_only),
        package.takes_part_in_release(false) == package.is_publishable(),
{
}

/// What is released from a registry is released from Git only as well.
pub proof fn git_only_releases_no_less(package: PackageView)
    ensures
        package.takes_part_in_release(false) ==> package.takes_part_in_release(true),
{
}

/// A package that sets `publish` takes part in a Git-only release; one that does not, and
/// is an example, takes part in none.
pub proof fn publish_field_opts_in(package: PackageView, git_only: bool)
    ensures
        package.publish is Some ==> package.takes_part_in_release(true),
        package.publish is None && package.is_example() ==> !package.takes_part_in_release(git_only),
        package.publish is None && !package.is_example() ==> package.takes_part_in_release(git_only),
{
}

impl Package {
    /// A copy of the package.
    pub fn copy(&self) -> (r: Package)
        ensures
            r@ == self@,
    {
        let mut dependencies: Vec<Dependency> = Vec::new();
        let mut i: usize = 0;
        while i < self.dependencies.len()
            invariant
                i <= self.dependencies@.len(),
                dependencies@.len() == i,
                forall|j: int|
                    0 <= j < i ==> #[trigger] dependencies@[j].name@ == self.dependencies@[j].name@,
            decreases self.dependencies@.len() - i,
        {
            dependencies.push(Dependency { name: self.dependencies[i].name.clone() });
            i += 1;
        }
        let mut targets: Vec<Target> = Vec::new();
        let mut k: usize = 0;
        while k < self.targets.len()
            invariant
                k <= self.targets@.len(),
                targets@.len() == k,
                forall|j: int| 0 <= j < k ==> #[trigger] targets@[j]@ == self.targets@[j]@,
            decreases self.targets@.len() - k,
        {
            targets.push(self.targets[k].copy());
            k += 1;
        }
        let publish = match &self.publish {
            Some(list) => Some(copy_texts(list)),
            None => None,
        };
        let r = Package {
            name: self.name.clone(),
            version: self.version.clone(),
            id: self.id.clone(),
            publish,
            dependencies,
            manifest_path: self.manifest_path.clone(),
            targets,
        };
        assert(r@.dependencies =~= self@.dependencies);
        assert(r@.targets =~= self@.targets);
        r
    }
}

/// A target kind is known by the name that Cargo has for it, and by no other.
pub proof fn kinds_have_the_names_of_cargo(name: &str, kind: TargetKind)
    requires
        call_ensures(TargetKind::named, (name,), kind),
    ensures
        kind is Example <==> name@ == "example"@,
        kind is Test <==> name@ == "test"@,
        kind is Bench <==> name@ == "bench"@,
        kind is CustomBuild <==> name@ == "custom-build"@,
        kind is Bin <==> name@ == "bin"@,
        kind is Lib <==> name@ == "lib"@,
        kind is RLib <==> name@ == "rlib"@,
        kind is DyLib <==> name@ == "dylib"@,
        kind is CDyLib <==> name@ == "cdylib"@,
        kind is StaticLib <==> name@ == "staticlib"@,
        kind is ProcMacro <==> name@ == "proc-macro"@,
        kind matches TargetKind::Unknown(kept) ==> kept@ == name@,
{
    named_kind_keeps_name(name@);
    reveal_strlit("example");
    reveal_strlit("test");
    reveal_strlit("bench");
    reveal_strlit("custom-build");
    reveal_strlit("bin");
    reveal_strlit("lib");
    reveal_strlit("rlib");
    reveal_strlit("dylib");
    reveal_strlit("cdylib");
    reveal_strlit("staticlib");
    reveal_strlit("proc-macro");
    assert("lib"@.len() == 3 && "bin"@.len() == 3 && "lib"@[0] != "bin"@[0]);
    assert("test"@.len() == 4 && "rlib"@.len() == 4 && "test"@[0] != "rlib"@[0]);
    assert("bench"@.len() == 5 && "dylib"@.len() == 5 && "bench"@[0] != "dylib"@[0]);
    assert("example"@.len() == 7 && "cdylib"@.len() == 6);
    assert("staticlib"@.len() == 9 && "proc-macro"@.len() == 10 && "custom-build"@.len() == 12);
}

/// The name of a kind stands for that kind again.
pub proof fn named_kinds_are_found_again(kind: &TargetKind, name: &str, again: TargetKind)
    requires
        call_ensures(TargetKind::name, (kind,), name),
        call_ensures(TargetKind::named, (name,), again),
    ensures
        !(*kind is Unknown) ==> again@ == kind@,
        *kind matches TargetKind::Unknown(unknown) ==> name@ == unknown@,
{
    kinds_have_the_names_of_cargo(name, again);
}

/// A package can be published where it names a registry, or where it leaves that open and has a
/// target that is not just an example.
pub proof fn publishable_packages_name_a_registry_or_none(package: &Package, r: bool)
    requires
        call_ensures(<Package as Publishable>::is_publishable, (package,), r),
    ensures
        package.publish matches Some(list) ==> r == (list@.len() > 0),
        package.publish is None ==> (r <==> exists|i: int|
            0 <= i < package.targets@.len() && (#[trigger] package.targets@[i])@ != seq![
                TargetKindView::Example,
            ]),
{
    if package.publish is None {
        let targets = package@.targets;
        assert forall|i: int| 0 <= i < targets.len() implies #[trigger] targets[i]
            == package.targets@[i]@ by {}
        if r {
            let i = choose|i: int|
                0 <= i < targets.len() && #[trigger] targets[i] != seq![TargetKindView::Example];
            assert(package.targets@[i]@ != seq![TargetKindView::Example]);
        } else {
            assert forall|i: int| 0 <= i < package.targets@.len() implies (
            #[trigger] package.targets@[i])@ == seq![TargetKindView::Example] by {
                assert(targets[i] == seq![TargetKindView::Example]);
            }
        }
    }
}

/// A package takes part in a release where it can be published. In a release from Git it also
/// takes part where its `publish` field is empty; whatever else it says makes no difference.
pub proof fn packages_take_part_as_they_say(
    package: &Package,
    git_only: bool,
    publishable: bool,
    r: bool,
)
    requires
        call_ensures(<Package as Publishable>::is_publishable, (package,), publishable),
        call_ensures(takes_part_in_release, (package, git_only), r),
    ensures
        r <==> publishable || (git_only && package.publish is Some),
{
}

/// An example is a package all of whose targets are built as examples and as nothing else; it is
/// unpublished where it does not set `publish`.
pub proof fn examples_have_example_targets_alone(package: &Package, example: bool, unpublished: bool)
    requires
        call_ensures(is_example_package, (package,), example),
        call_ensures(is_unpublished_example, (package,), unpublished),
    ensures
        example <==> forall|i: int|
            0 <= i < package.targets@.len() ==> (#[trigger] package.targets@[i])@ == seq![
                TargetKindView::Example,
            ],
        unpublished <==> example && package.publish is None,
{
    let targets = package@.targets;
    assert forall|i: int| 0 <= i < targets.len() implies #[trigger] targets[i]
        == package.targets@[i]@ by {}
    if example {
        assert forall|i: int| 0 <= i < package.targets@.len() implies (#[trigger] package.targets@[i])@
            == seq![TargetKindView::Example] by {
            assert(targets[i] == seq![TargetKindView::Example]);
        }
    } else {
        let i = choose|i: int|
            0 <= i < targets.len() && #[trigger] targets[i] != seq![TargetKindView::Example];
        assert(package.targets@[i]@ != seq![TargetKindView::Example]);
    }
}

/// A copy of a package has the same name, version, id, registries, dependencies, manifest and
/// targets.
pub proof fn packages_are_copied(package: &Package, r: Package)
    requires
        call_ensures(Package::copy, (package,), r),
    ensures
        r.name@ == package.name@,
        r.version@ == package.version@,
        r.id@ == package.id@,
        r.manifest_path@ == package.manifest_path@,
        r.publish is Some <==> package.publish is Some,
        package.publish is Some ==> texts(r.publish->0@) == texts(package.publish->0@),
        r.dependencies@.map_values(|d: Dependency| d.name@) == package.dependencies@.map_values(
            |d: Dependency| d.name@,
        ),
        r.targets@.map_values(|t: Target| t@) == package.targets@.map_values(|t: Target| t@),
{
    assert(r@.name == package@.name);
}

}
