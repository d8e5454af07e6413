//! The dependencies that a Cargo.toml declares.

use crate::path::{join, joined_path};
use crate::text::{optional_text, same_text};
use crate::toml_tree::{
    entry_views, entry_views_are_pointwise, optional_view, Toml, TomlView,
};
use vstd::prelude::*;

verus! {

/// What a dependency is needed for.
#[derive(Debug, Clone, Copy, PartialEq, Eq, Structural)]
pub enum DepKind {
    Normal,
    /// Tests, examples and benchmarks.
    Development,
    /// The build script.
    Build,
}

/// The kind of the dependencies in a table of this name.
pub open spec fn kind_of_table(name: Seq<char>) -> Option<DepKind> {
    if name == "dependencies"@ {
        Some(DepKind::Normal)
    } else if name == "dev-dependencies"@ {
        Some(DepKind::Development)
    } else if name == "build-dependencies"@ {
        Some(DepKind::Build)
    } else {
        None
    }
}

/// The kind of the dependencies in a table of this name.
pub fn dependency_kind(name: &str) -> (r: Option<DepKind>)
    ensures
        r == kind_of_table(name@),
{
    if same_text(name, "dependencies") {
        Some(DepKind::Normal)
    } else if same_text(name, "dev-dependencies") {
        Some(DepKind::Development)
    } else if same_text(name, "build-dependencies") {
        Some(DepKind::Build)
    } else {
        None
    }
}

/// A dependency that is declared with a table.
#[derive(Debug)]
pub struct Declaration<'a> {
    pub kind: DepKind,
    pub name: &'a str,
    pub table: &'a Toml,
}

/// The model of a [`Declaration`].
pub struct DeclarationView {
    pub kind: DepKind,
    pub name: Seq<char>,
    pub table: TomlView,
}

impl<'a> View for Declaration<'a> {
    type V = DeclarationView;

    open spec fn view(&self) -> DeclarationView {
        DeclarationView { kind: self.kind, name: self.name@, table: self.table@ }
    }
}

/// The models of a list of declarations.
pub open spec fn declaration_views<'a>(declarations: Seq<Declaration<'a>>) -> Seq<DeclarationView> {
    declarations.map_values(|declaration: Declaration<'a>| declaration@)
}

/// The declaration that an entry of a dependency table is, where it is a table.
pub open spec fn as_declaration(kind: DepKind) -> spec_fn((Seq<char>, TomlView)) -> Option<
    DeclarationView,
> {
    |entry: (Seq<char>, TomlView)|
        if entry.1 is Table {
            Some(DeclarationView { kind, name: entry.0, table: entry.1 })
        } else {
            None
        }
}

/// The declarations in an entry of a manifest that is a dependency table.
pub open spec fn table_declarations(entry: (Seq<char>, TomlView)) -> Seq<DeclarationView> {
    match kind_of_table(entry.0) {
        Some(kind) => entry.1.entries().filter_map(as_declaration(kind)),
        None => seq![],
    }
}

/// The declarations for one target platform.
pub open spec fn platform_declarations(entry: (Seq<char>, TomlView)) -> Seq<DeclarationView> {
    entry.1.entries().flat_map(|inner: (Seq<char>, TomlView)| table_declarations(inner))
}

/// The declarations in an entry of a manifest.
pub open spec fn entry_declarations(entry: (Seq<char>, TomlView)) -> Seq<DeclarationView> {
    if entry.0 == "target"@ {
        entry.1.entries().flat_map(|inner: (Seq<char>, TomlView)| platform_declarations(inner))
    } else {
        table_declarations(entry)
    }
}

/// The dependencies that a manifest declares with tables, in its order: those of the three
/// dependency tables, and those of the same tables of each target platform.
pub open spec fn declarations(manifest: TomlView) -> Seq<DeclarationView> {
    manifest.entries().flat_map(|entry: (Seq<char>, TomlView)| entry_declarations(entry))
}

fn read_table<'a>(name: &str, value: &'a Toml) -> (r: Vec<Declaration<'a>>)
    ensures
        declaration_views(r@) == table_declarations((name@, value@)),
{
    let mut r: Vec<Declaration<'a>> = Vec::new();
    assert(declaration_views(r@) =~= seq![]);
    let kind = match dependency_kind(name) {
        Some(kind) => kind,
        None => {
            return r;
        },
    };
    let ghost keep = as_declaration(kind);
    let ghost list = value@.entries();
    assert(list.take(0).filter_map(keep) =~= seq![]);
    match value {
        Toml::Table(entries) => {
            proof {
                entry_views_are_pointwise(entries@);
            }
            let mut i: usize = 0;
            while i < entries.len()
                invariant
                    i <= entries@.len(),
                    list == entry_views(entries@),
                    list.len() == entries@.len(),
                    forall|j: int|
                        0 <= j < entries@.len() ==> #[trigger] list[j] == (
                            entries@[j].key@,
                            entries@[j].value@,
                        ),
                    keep == as_declaration(kind),
                    declaration_views(r@) == list.take(i as int).filter_map(keep),
                decreases entries@.len() - i,
            {
                let entry = &entries[i];
                proof {
                    list.lemma_filter_map_take_succ(keep, i as int);
                    assert(list[i as int] == (entry.key@, entry.value@));
                }
                if entry.value.is_table() {
                    let ghost earlier = r@;
                    r.push(Declaration { kind, name: entry.key.as_str(), table: &entry.value });
                    assert(declaration_views(r@) =~= declaration_views(earlier) + seq![
                        keep(list[i as int])->0,
                    ]);
                } else {
                    assert(declaration_views(r@) =~= declaration_views(r@) + seq![]);
                }
                i += 1;
            }
            assert(list.take(i as int) =~= list);
        },
        _ => {
            assert(list.take(0) =~= list);
        },
    }
    r
}

fn read_platform<'a>(value: &'a Toml) -> (r: Vec<Declaration<'a>>)
    ensures
        forall|name: Seq<char>|
            declaration_views(r@) == #[trigger] platform_declarations((name, value@)),
{
    let mut r: Vec<Declaration<'a>> = Vec::new();
    assert(declaration_views(r@) =~= seq![]);
    let ghost each = |inner: (Seq<char>, TomlView)| table_declarations(inner);
    let ghost list = value@.entries();
    assert(list.take(0).flat_map(each) =~= seq![]);
    match value {
        Toml::Table(entries) => {
            proof {
                entry_views_are_pointwise(entries@);
            }
            let mut i: usize = 0;
            while i < entries.len()
                invariant
                    i <= entries@.len(),
                    list == entry_views(entries@),
                    list.len() == entries@.len(),
                    forall|j: int|
                        0 <= j < entries@.len() ==> #[trigger] list[j] == (
                            entries@[j].key@,
                            entries@[j].value@,
                        ),
                    each == |inner: (Seq<char>, TomlView)| table_declarations(inner),
                    declaration_views(r@) == list.take(i as int).flat_map(each),
                decreases entries@.len() - i,
            {
                let entry = &entries[i];
                proof {
                    list.lemma_flat_map_take_append(each, i as int);
                    assert(list[i as int] == (entry.key@, entry.value@));
                }
                let ghost earlier = r@;
                let mut found = read_table(entry.key.as_str(), &entry.value);
                let ghost added = found@;
                r.append(&mut found);
                assert(declaration_views(r@) =~= declaration_views(earlier) + declaration_views(
                    added,
                ));
                i += 1;
            }
            assert(list.take(i as int) =~= list);
        },
        _ => {
            assert(list.take(0) =~= list);
        },
    }
    assert forall|name: Seq<char>|
        declaration_views(r@) == #[trigger] platform_declarations((name, value@)) by {
        assert(platform_declarations((name, value@)) == list.flat_map(each));
    }
    r
}

fn read_entry<'a>(name: &str, value: &'a Toml) -> (r: Vec<Declaration<'a>>)
    ensures
        declaration_views(r@) == entry_declarations((name@, value@)),
{
    if !same_text(name, "target") {
        return read_table(name, value);
    }
    let mut r: Vec<Declaration<'a>> = Vec::new();
    assert(declaration_views(r@) =~= seq![]);
    let ghost each = |inner: (Seq<char>, TomlView)| platform_declarations(inner);
    let ghost list = value@.entries();
    assert(list.take(0).flat_map(each) =~= seq![]);
    match value {
        Toml::Table(entries) => {
            proof {
                entry_views_are_pointwise(entries@);
            }
            let mut i: usize = 0;
            while i < entries.len()
                invariant
                    i <= entries@.len(),
                    list == entry_views(entries@),
                    list.len() == entries@.len(),
                    forall|j: int|
                        0 <= j < entries@.len() ==> #[trigger] list[j] == (
                            entries@[j].key@,
                            entries@[j].value@,
                        ),
                    each == |inner: (Seq<char>, TomlView)| platform_declarations(inner),
                    declaration_views(r@) == list.take(i as int).flat_map(each),
                decreases entries@.len() - i,
            {
                let entry = &entries[i];
                proof {
                    list.lemma_flat_map_take_append(each, i as int);
                    assert(list[i as int] == (entry.key@, entry.value@));
                }
                let ghost earlier = r@;
                let mut found = read_platform(&entry.value);
                let ghost added = found@;
                assert(declaration_views(added) == platform_declarations(
                    (entry.key@, entry.value@),
                ));
                r.append(&mut found);
                assert(declaration_views(r@) =~= declaration_views(earlier) + declaration_views(
                    added,
                ));
                i += 1;
            }
            assert(list.take(i as int) =~= list);
        },
        _ => {
            assert(list.take(0) =~= list);
        },
    }
    r
}

/// The dependencies that a manifest declares with tables, in its order.
pub fn package_declarations<'a>(manifest: &'a Toml) -> (r: Vec<Declaration<'a>>)
    ensures
        declaration_views(r@) == declarations(manifest@),
{
    let mut r: Vec<Declaration<'a>> = Vec::new();
    assert(declaration_views(r@) =~= seq![]);
    let ghost each = |entry: (Seq<char>, TomlView)| entry_declarations(entry);
    let ghost list = manifest@.entries();
    assert(list.take(0).flat_map(each) =~= seq![]);
    match manifest {
        Toml::Table(entries) => {
            proof {
                entry_views_are_pointwise(entries@);
            }
            let mut i: usize = 0;
            while i < entries.len()
                invariant
                    i <= entries@.len(),
                    list == entry_views(entries@),
                    list.len() == entries@.len(),
                    forall|j: int|
                        0 <= j < entries@.len() ==> #[trigger] list[j] == (
                            entries@[j].key@,
                            entries@[j].value@,
                        ),
                    each == |entry: (Seq<char>, TomlView)| entry_declarations(entry),
                    declaration_views(r@) == list.take(i as int).flat_map(each),
                decreases entries@.len() - i,
            {
                let entry = &entries[i];
                proof {
                    list.lemma_flat_map_take_append(each, i as int);
                    assert(list[i as int] == (entry.key@, entry.value@));
                }
                let ghost earlier = r@;
                let mut found = read_entry(entry.key.as_str(), &entry.value);
                let ghost added = found@;
                r.append(&mut found);
                assert(declaration_views(r@) =~= declaration_views(earlier) + declaration_views(
                    added,
                ));
                i += 1;
            }
            assert(list.take(i as int) =~= list);
        },
        _ => {
            assert(list.take(0) =~= list);
        },
    }
    r
}

/// The dependencies that a workspace declares for its members to inherit.
pub open spec fn workspace_table(manifest: TomlView) -> Option<TomlView> {
    match manifest.get("workspace"@) {
        Some(workspace) => match workspace.get("dependencies"@) {
            Some(dependencies) => if dependencies is Table {
                Some(dependencies)
            } else {
                None
            },
            None => None,
        },
        None => None,
    }
}

/// The dependencies that a workspace declares for its members to inherit.
pub fn workspace_dependency_table(manifest: &Toml) -> (r: Option<&Toml>)
    ensures
        optional_view(r) == workspace_table(manifest@),
{
    match manifest.get("workspace") {
        Some(workspace) => match workspace.get("dependencies") {
            Some(dependencies) => if dependencies.is_table() {
                Some(dependencies)
            } else {
                None
            },
            None => None,
        },
        None => None,
    }
}

/// The dependency is taken from the workspace: `name.workspace = true`, with neither a
/// version nor a path.
pub open spec fn inherits(table: TomlView) -> bool {
    &&& table.get("workspace"@) == Some(TomlView::Flag(true))
    &&& !table.contains_key("version"@)
    &&& !table.contains_key("path"@)
}

/// Whether the dependency has the form `name.workspace = true`.
pub fn is_workspace_dependency(table: &Toml) -> (r: bool)
    ensures
        r == inherits(table@),
{
    let flag = match table.get("workspace") {
        Some(value) => value.as_flag(),
        None => None,
    };
    match flag {
        Some(true) => !table.contains_key("version") && !table.contains_key("path"),
        _ => false,
    }
}

/// A dependency that is looked for at a path.
#[derive(Debug)]
pub struct PathDependency {
    pub kind: DepKind,
    pub path: String,
    /// The version requirement, where it has one.
    pub requirement: Option<String>,
}

/// The model of a [`PathDependency`].
pub struct PathDependencyView {
    pub kind: DepKind,
    pub path: Seq<char>,
    pub requirement: Option<Seq<char>>,
}

impl View for PathDependency {
    type V = PathDependencyView;

    open spec fn view(&self) -> PathDependencyView {
        PathDependencyView {
            kind: self.kind,
            path: self.path@,
            requirement: optional_text(self.requirement),
        }
    }
}

/// The models of a list of dependencies.
pub open spec fn dependency_views(dependencies: Seq<PathDependency>) -> Seq<PathDependencyView> {
    dependencies.map_values(|dependency: PathDependency| dependency@)
}

/// Where a dependency is looked for: its path, as seen from the directory of the manifest that
/// holds it.
pub open spec fn path_of(table: TomlView, dir: Seq<char>) -> Option<Seq<char>> {
    match table.get("path"@) {
        Some(TomlView::Text(path)) => Some(joined_path(dir, path)),
        _ => None,
    }
}

/// The version requirement of a dependency; one that is not a string admits all versions.
pub open spec fn requirement_of(table: TomlView) -> Option<Seq<char>> {
    match table.get("version"@) {
        None => None,
        Some(TomlView::Text(requirement)) => Some(requirement),
        Some(_) => Some("*"@),
    }
}

/// The table that says what a dependency is, and the directory from which its path is seen.
/// For an inherited dependency they are those of the workspace; where the workspace has no
/// table for it, its own table is read.
pub open spec fn effective_table(
    declaration: DeclarationView,
    workspace: Option<TomlView>,
    package_dir: Seq<char>,
    workspace_dir: Seq<char>,
) -> (TomlView, Seq<char>) {
    match workspace {
        Some(shared) => if inherits(declaration.table) {
            match shared.get(declaration.name) {
                Some(TomlView::Table(entries)) => (TomlView::Table(entries), workspace_dir),
                _ => (declaration.table, workspace_dir),
            }
        } else {
            (declaration.table, package_dir)
        },
        None => (declaration.table, package_dir),
    }
}

/// The dependency that a declaration stands for, where it has a path.
#[verifier::opaque]
pub open spec fn declared(
    declaration: DeclarationView,
    workspace: Option<TomlView>,
    package_dir: Seq<char>,
    workspace_dir: Seq<char>,
) -> Option<PathDependencyView> {
    let (table, dir) = effective_table(declaration, workspace, package_dir, workspace_dir);
    match path_of(table, dir) {
        Some(path) => Some(
            PathDependencyView { kind: declaration.kind, path, requirement: requirement_of(table) },
        ),
        None => None,
    }
}

/// The dependency that a declaration stands for, where it has a path. One that the package
/// inherits is read in the table of the workspace.
pub fn path_dependency(
    declaration: &Declaration,
    workspace_dependencies: Option<&Toml>,
    package_dir: &str,
    workspace_dir: &str,
) -> (r: Option<PathDependency>)
    ensures
        (match r {
            Some(dependency) => Some(dependency@),
            None => None,
        }) == declared(
            declaration@,
            optional_view(workspace_dependencies),
            package_dir@,
            workspace_dir@,
        ),
{
    proof {
        reveal(declared);
    }
    let mut table = declaration.table;
    let mut dir = package_dir;
    if let Some(workspace) = workspace_dependencies {
        if is_workspace_dependency(declaration.table) {
            dir = workspace_dir;
            if let Some(shared) = workspace.get(declaration.name) {
                if shared.is_table() {
                    table = shared;
                }
            }
        }
    }
    let path = match table.get("path") {
        Some(value) => match value.as_text() {
            Some(path) => join(dir, path),
            None => {
                return None;
            },
        },
        None => {
            return None;
        },
    };
    let requirement = match table.get("version") {
        Some(value) => match value.as_text() {
            Some(requirement) => Some(requirement.to_owned()),
            None => Some("*".to_owned()),
        },
        None => None,
    };
    Some(PathDependency { kind: declaration.kind, path, requirement })
}

/// The dependencies of a manifest that have a path.
pub open spec fn dependencies(
    manifest: TomlView,
    workspace: Option<TomlView>,
    package_dir: Seq<char>,
    workspace_dir: Seq<char>,
) -> Seq<PathDependencyView> {
    declarations(manifest).filter_map(
        |declaration: DeclarationView|
            declared(declaration, workspace, package_dir, workspace_dir),
    )
}

/// The dependencies of the manifest in `package_dir` that have a path, in its order.
pub fn path_dependencies(
    manifest: &Toml,
    workspace_dependencies: Option<&Toml>,
    package_dir: &str,
    workspace_dir: &str,
) -> (r: Vec<PathDependency>)
    ensures
        dependency_views(r@) == dependencies(
            manifest@,
            optional_view(workspace_dependencies),
            package_dir@,
            workspace_dir@,
        ),
{
    let declarations = package_declarations(manifest);
    let ghost list = declaration_views(declarations@);
    let ghost workspace = optional_view(workspace_dependencies);
    let ghost keep = |declaration: DeclarationView|
        declared(declaration, workspace, package_dir@, workspace_dir@);
    let mut r: Vec<PathDependency> = Vec::new();
    let mut i: usize = 0;
    assert(dependency_views(r@) =~= list.take(0).filter_map(keep));
    while i < declarations.len()
        invariant
            i <= declarations@.len(),
            list == declaration_views(declarations@),
            workspace == optional_view(workspace_dependencies),
            keep == |declaration: DeclarationView|
                declared(declaration, workspace, package_dir@, workspace_dir@),
            dependency_views(r@) == list.take(i as int).filter_map(keep),
        decreases declarations@.len() - i,
    {
        proof {
            list.lemma_filter_map_take_succ(keep, i as int);
            assert(list[i as int] == declarations@[i as int]@);
        }
        let found = path_dependency(
            &declarations[i],
            workspace_dependencies,
            package_dir,
            workspace_dir,
        );
        match found {
            Some(dependency) => {
                let ghost earlier = r@;
                r.push(dependency);
                assert(dependency_views(r@) =~= dependency_views(earlier) + seq![dependency@]);
            },
            None => {
                assert(dependency_views(r@) =~= dependency_views(r@) + seq![]);
            },
        }
        i += 1;
    }
    assert(list.take(i as int) =~= list);
    r
}

/// A dependency that a package inherits is the one that the workspace declares under that name:
/// its path is seen from the workspace, and its requirement is the one of the workspace.
pub proof fn inherited_dependencies_are_those_of_the_workspace(
    declaration: DeclarationView,
    shared: TomlView,
    package_dir: Seq<char>,
    workspace_dir: Seq<char>,
)
    requires
        inherits(declaration.table),
        shared.get(declaration.name) matches Some(TomlView::Table(_)),
    ensures
        declared(declaration, Some(shared), package_dir, workspace_dir) == match path_of(
            shared.get(declaration.name)->0,
            workspace_dir,
        ) {
            Some(path) => Some(
                PathDependencyView {
                    kind: declaration.kind,
                    path,
                    requirement: requirement_of(shared.get(declaration.name)->0),
                },
            ),
            None => None,
        },
{
    reveal(declared);
}

/// A dependency that a package does not inherit is the one that it declares: its path is seen
/// from the package, whatever the workspace declares.
pub proof fn own_dependencies_are_those_of_the_package(
    declaration: DeclarationView,
    workspace: Option<TomlView>,
    package_dir: Seq<char>,
    workspace_dir: Seq<char>,
)
    requires
        workspace is None || !inherits(declaration.table),
    ensures
        declared(declaration, workspace, package_dir, workspace_dir) == match path_of(
            declaration.table,
            package_dir,
        ) {
            Some(path) => Some(
                PathDependencyView {
                    kind: declaration.kind,
                    path,
                    requirement: requirement_of(declaration.table),
                },
            ),
            None => None,
        },
{
    reveal(declared);
}

/// The tables that hold dependencies are known by their names.
pub proof fn dependency_tables_have_their_names(name: &str, r: Option<DepKind>)
    requires
        call_ensures(dependency_kind, (name,), r),
    ensures
        r == Some(DepKind::Normal) <==> name@ == "dependencies"@,
        r == Some(DepKind::Development) <==> name@ == "dev-dependencies"@,
        r == Some(DepKind::Build) <==> name@ == "build-dependencies"@,
{
    lemma_table_names_differ();
}

proof fn lemma_table_names_differ()
    ensures
        "dependencies"@ != "dev-dependencies"@,
        "dependencies"@ != "build-dependencies"@,
        "dev-dependencies"@ != "build-dependencies"@,
        "target"@ != "dependencies"@,
        "target"@ != "dev-dependencies"@,
        "target"@ != "build-dependencies"@,
{
    reveal_strlit("dependencies");
    reveal_strlit("dev-dependencies");
    reveal_strlit("build-dependencies");
    reveal_strlit("target");
    assert("dependencies"@.len() == 12);
    assert("dev-dependencies"@.len() == 16);
    assert("build-dependencies"@.len() == 18);
    assert("target"@.len() == 6);
}

/// A dependency is inherited if and only if it says so and has neither a version nor a path.
pub proof fn inheriting_is_said_by_three_keys(table: &Toml, r: bool)
    requires
        call_ensures(is_workspace_dependency, (table,), r),
    ensures
        r <==> table@.get("workspace"@) == Some(TomlView::Flag(true)) && table@.get("version"@)
            is None && table@.get("path"@) is None,
{
}

/// Other keys make no difference to whether a dependency is inherited.
pub proof fn other_keys_do_not_disinherit(a: &Toml, b: &Toml, of_a: bool, of_b: bool)
    requires
        call_ensures(is_workspace_dependency, (a,), of_a),
        call_ensures(is_workspace_dependency, (b,), of_b),
        a@.get("workspace"@) == b@.get("workspace"@),
        a@.get("version"@) is Some <==> b@.get("version"@) is Some,
        a@.get("path"@) is Some <==> b@.get("path"@) is Some,
    ensures
        of_a == of_b,
{
}

/// The dependencies of a manifest are those of its entries, in their order.
pub proof fn manifests_declare_entry_by_entry(
    entries: Seq<(Seq<char>, TomlView)>,
    entry: (Seq<char>, TomlView),
)
    ensures
        declarations(TomlView::Table(seq![])) == Seq::<DeclarationView>::empty(),
        declarations(TomlView::Table(entries.push(entry))) == declarations(
            TomlView::Table(entries),
        ) + declarations(TomlView::Table(seq![entry])),
        !(entry.1 is Table) ==> declarations(TomlView::Table(seq![entry]))
            == Seq::<DeclarationView>::empty(),
{
    let f = |entry: (Seq<char>, TomlView)| entry_declarations(entry);
    let none = Seq::<(Seq<char>, TomlView)>::empty();
    entries.lemma_flat_map_push(f, entry);
    none.lemma_flat_map_push(f, entry);
    assert(none.push(entry) =~= seq![entry]);
    assert(none.map_values(f) =~= seq![]);
    assert(none.flat_map(f) =~= seq![]);
    if !(entry.1 is Table) {
        assert(entry.1.entries() =~= none);
        let g = |inner: (Seq<char>, TomlView)| platform_declarations(inner);
        assert(none.map_values(g) =~= seq![]);
        assert(none.flat_map(g) =~= seq![]);
    }
}

/// A dependency table declares those of its entries that are tables, each under its own name and
/// with the kind of the table.
pub proof fn dependency_tables_declare_their_tables(
    key: Seq<char>,
    kind: DepKind,
    entries: Seq<(Seq<char>, TomlView)>,
    name: Seq<char>,
    value: TomlView,
)
    requires
        key == "dependencies"@ && kind == DepKind::Normal || key == "dev-dependencies"@ && kind
            == DepKind::Development || key == "build-dependencies"@ && kind == DepKind::Build,
    ensures
        declarations(TomlView::Table(seq![(key, TomlView::Table(seq![]))])) == Seq::<
            DeclarationView,
        >::empty(),
        declarations(TomlView::Table(seq![(key, TomlView::Table(entries.push((name, value))))]))
            == declarations(TomlView::Table(seq![(key, TomlView::Table(entries))])) + if value
            is Table {
            seq![DeclarationView { kind, name, table: value }]
        } else {
            seq![]
        },
{
    lemma_table_names_differ();
    lemma_single_entry((key, TomlView::Table(seq![])));
    lemma_single_entry((key, TomlView::Table(entries)));
    lemma_single_entry((key, TomlView::Table(entries.push((name, value)))));
    assert(entries.push((name, value)).drop_last() =~= entries);
    assert(Seq::<(Seq<char>, TomlView)>::empty().filter_map(as_declaration(kind)) =~= seq![]);
    assert(entries.filter_map(as_declaration(kind)) + seq![] =~= entries.filter_map(
        as_declaration(kind),
    ));
}

proof fn lemma_single_entry(entry: (Seq<char>, TomlView))
    ensures
        declarations(TomlView::Table(seq![entry])) == entry_declarations(entry),
{
    let f = |entry: (Seq<char>, TomlView)| entry_declarations(entry);
    let none = Seq::<(Seq<char>, TomlView)>::empty();
    none.lemma_flat_map_push(f, entry);
    assert(none.push(entry) =~= seq![entry]);
    assert(none.map_values(f) =~= seq![]);
    assert(none.flat_map(f) + f(entry) =~= f(entry));
}

/// Other entries of a manifest declare nothing.
pub proof fn other_entries_declare_nothing(key: Seq<char>, value: TomlView)
    requires
        key != "dependencies"@,
        key != "dev-dependencies"@,
        key != "build-dependencies"@,
        key != "target"@,
    ensures
        declarations(TomlView::Table(seq![(key, value)])) == Seq::<DeclarationView>::empty(),
{
    lemma_single_entry((key, value));
}

/// A manifest with these target platforms, and nothing else.
pub open spec fn with_platforms(platforms: Seq<(Seq<char>, TomlView)>) -> TomlView {
    TomlView::Table(seq![("target"@, TomlView::Table(platforms))])
}

/// The target platforms declare what each of them does, in their order. What is no table declares
/// nothing.
pub proof fn platforms_declare_one_by_one(
    platforms: Seq<(Seq<char>, TomlView)>,
    platform: (Seq<char>, TomlView),
)
    ensures
        declarations(with_platforms(seq![])) == Seq::<DeclarationView>::empty(),
        declarations(with_platforms(platforms.push(platform))) == declarations(
            with_platforms(platforms),
        ) + declarations(with_platforms(seq![platform])),
        !(platform.1 is Table) ==> declarations(with_platforms(seq![platform])) == Seq::<
            DeclarationView,
        >::empty(),
{
    let g = |inner: (Seq<char>, TomlView)| platform_declarations(inner);
    let none = Seq::<(Seq<char>, TomlView)>::empty();
    lemma_single_entry(("target"@, TomlView::Table(none)));
    lemma_single_entry(("target"@, TomlView::Table(platforms)));
    lemma_single_entry(("target"@, TomlView::Table(platforms.push(platform))));
    lemma_single_entry(("target"@, TomlView::Table(seq![platform])));
    assert(none.map_values(g) =~= seq![]);
    assert(none.flat_map(g) =~= seq![]);
    platforms.lemma_flat_map_push(g, platform);
    none.lemma_flat_map_push(g, platform);
    assert(none.push(platform) =~= seq![platform]);
    if !(platform.1 is Table) {
        let h = |inner: (Seq<char>, TomlView)| table_declarations(inner);
        assert(platform.1.entries() =~= none);
        assert(none.map_values(h) =~= seq![]);
        assert(none.flat_map(h) =~= seq![]);
    }
}

/// A target platform declares what a manifest with its entries would, whatever it is called;
/// platforms are not nested.
pub proof fn platforms_declare_like_manifests(
    platform: Seq<char>,
    tables: Seq<(Seq<char>, TomlView)>,
    table: (Seq<char>, TomlView),
)
    ensures
        declarations(with_platforms(seq![(platform, TomlView::Table(seq![]))])) == Seq::<
            DeclarationView,
        >::empty(),
        declarations(with_platforms(seq![(platform, TomlView::Table(tables.push(table)))]))
            == declarations(with_platforms(seq![(platform, TomlView::Table(tables))])) + if table.0
            == "target"@ {
            seq![]
        } else {
            declarations(TomlView::Table(seq![table]))
        },
{
    lemma_table_names_differ();
    let none = Seq::<(Seq<char>, TomlView)>::empty();
    let h = |inner: (Seq<char>, TomlView)| table_declarations(inner);
    lemma_platform(platform, none);
    lemma_platform(platform, tables);
    lemma_platform(platform, tables.push(table));
    lemma_single_entry(table);
    assert(none.map_values(h) =~= seq![]);
    assert(none.flat_map(h) =~= seq![]);
    tables.lemma_flat_map_push(h, table);
}

proof fn lemma_platform(platform: Seq<char>, tables: Seq<(Seq<char>, TomlView)>)
    ensures
        declarations(with_platforms(seq![(platform, TomlView::Table(tables))])) == tables.flat_map(
            |inner: (Seq<char>, TomlView)| table_declarations(inner),
        ),
{
    let g = |inner: (Seq<char>, TomlView)| platform_declarations(inner);
    let none = Seq::<(Seq<char>, TomlView)>::empty();
    let a = (platform, TomlView::Table(tables));
    lemma_single_entry(("target"@, TomlView::Table(seq![a])));
    none.lemma_flat_map_push(g, a);
    assert(none.push(a) =~= seq![a]);
    assert(none.map_values(g) =~= seq![]);
    assert(none.flat_map(g) =~= seq![]);
    assert(none.flat_map(g) + g(a) =~= g(a));
}

/// The declarations of a manifest are read in its order, and the table that a workspace shares is
/// the table `dependencies` in its `workspace`.
pub proof fn manifests_are_read<'a>(
    manifest: &'a Toml,
    r: Vec<Declaration<'a>>,
    shared: Option<&'a Toml>,
)
    requires
        call_ensures(package_declarations, (manifest,), r),
        call_ensures(workspace_dependency_table, (manifest,), shared),
    ensures
        declaration_views(r@) == declarations(manifest@),
        manifest@.get("workspace"@) is None ==> shared is None,
        manifest@.get("workspace"@) matches Some(workspace) ==> {
            &&& shared is Some <==> (workspace.get("dependencies"@) matches Some(TomlView::Table(_)))
            &&& shared matches Some(table) ==> workspace.get("dependencies"@) == Some(table@)
        },
{
    assert(optional_view(shared) == workspace_table(manifest@));
}

/// The requirement that the key `version` of a table stands for: none without the key, the text
/// of a string, and all versions otherwise.
pub open spec fn is_requirement(version: Option<TomlView>, requirement: Option<Seq<char>>) -> bool {
    &&& version is None <==> requirement is None
    &&& version matches Some(TomlView::Text(text)) ==> requirement == Some(text)
    &&& version is Some && !(version->0 is Text) ==> requirement == Some("*"@)
}

/// An inherited dependency is the one that the workspace declares under its name: it has a path
/// where that has one, seen from the workspace, and the requirement that the workspace has.
pub proof fn inherited_dependencies_are_looked_for_in_the_workspace(
    declaration: &Declaration,
    shared: &Toml,
    package_dir: &str,
    workspace_dir: &str,
    r: Option<PathDependency>,
)
    requires
        call_ensures(path_dependency, (declaration, Some(shared), package_dir, workspace_dir), r),
        declaration.table@.get("workspace"@) == Some(TomlView::Flag(true)),
        declaration.table@.get("version"@) is None,
        declaration.table@.get("path"@) is None,
    ensures
        shared@.get(declaration.name@) matches Some(TomlView::Table(entries)) ==> {
            let table = TomlView::Table(entries);
            &&& r is Some <==> (table.get("path"@) matches Some(TomlView::Text(_)))
            &&& r matches Some(dependency) ==> {
                &&& dependency.kind == declaration.kind
                &&& dependency.path@ == joined_path(
                    workspace_dir@,
                    table.get("path"@)->0->Text_0,
                )
                &&& is_requirement(table.get("version"@), dependency@.requirement)
            }
        },
        !(shared@.get(declaration.name@) matches Some(TomlView::Table(_))) ==> r is None,
{
    reveal(declared);
    assert(declared(
        declaration@,
        Some(shared@),
        package_dir@,
        workspace_dir@,
    ) == match r {
        Some(dependency) => Some(dependency@),
        None => None,
    });
    assert(!declaration.table@.contains_key("version"@));
    assert(!declaration.table@.contains_key("path"@));
    assert(inherits(declaration@.table));
    match shared@.get(declaration.name@) {
        Some(TomlView::Table(entries)) => {
            let table = TomlView::Table(entries);
            match table.get("path"@) {
                Some(TomlView::Text(path)) => {
                    assert(path_of(table, workspace_dir@) is Some);
                },
                _ => {
                    assert(path_of(table, workspace_dir@) is None);
                },
            }
        },
        _ => {
            assert(path_of(declaration@.table, workspace_dir@) is None);
        },
    }
}

/// A dependency that is not inherited is the one that the package declares: it has a path where
/// its own table has one, seen from the package, and its own requirement.
pub proof fn own_dependencies_are_looked_for_in_the_package(
    declaration: &Declaration,
    workspace: Option<&Toml>,
    package_dir: &str,
    workspace_dir: &str,
    r: Option<PathDependency>,
)
    requires
        call_ensures(path_dependency, (declaration, workspace, package_dir, workspace_dir), r),
        workspace is None || declaration.table@.get("workspace"@) != Some(TomlView::Flag(true))
            || declaration.table@.get("version"@) is Some || declaration.table@.get("path"@) is Some,
    ensures
        r is Some <==> (declaration.table@.get("path"@) matches Some(TomlView::Text(_))),
        r matches Some(dependency) ==> {
            &&& dependency.kind == declaration.kind
            &&& dependency.path@ == joined_path(
                package_dir@,
                declaration.table@.get("path"@)->0->Text_0,
            )
            &&& is_requirement(declaration.table@.get("version"@), dependency@.requirement)
        },
{
    reveal(declared);
    assert(declared(
        declaration@,
        optional_view(workspace),
        package_dir@,
        workspace_dir@,
    ) == match r {
        Some(dependency) => Some(dependency@),
        None => None,
    });
    match declaration.table@.get("path"@) {
        Some(TomlView::Text(path)) => {
            assert(path_of(declaration@.table, package_dir@) is Some);
        },
        _ => {
            assert(path_of(declaration@.table, package_dir@) is None);
        },
    }
}

/// The dependencies of a manifest are those of its declarations, in their order: one more
/// declaration adds the dependency that it stands for, where it stands for one.
pub proof fn dependencies_follow_the_declarations(
    manifest: &Toml,
    longer: &Toml,
    last: &Declaration,
    workspace: Option<&Toml>,
    package_dir: &str,
    workspace_dir: &str,
    r: Vec<PathDependency>,
    of_longer: Vec<PathDependency>,
    of_last: Option<PathDependency>,
)
    requires
        declarations(longer@) == declarations(manifest@).push(last@),
        call_ensures(path_dependencies, (manifest, workspace, package_dir, workspace_dir), r),
        call_ensures(path_dependencies, (longer, workspace, package_dir, workspace_dir), of_longer),
        call_ensures(path_dependency, (last, workspace, package_dir, workspace_dir), of_last),
    ensures
        dependency_views(of_longer@) == match of_last {
            Some(dependency) => dependency_views(r@).push(dependency@),
            None => dependency_views(r@),
        },
{
    let f = |declaration: DeclarationView|
        declared(declaration, optional_view(workspace), package_dir@, workspace_dir@);
    let list = declarations(manifest@);
    assert(list.push(last@).drop_last() =~= list);
    assert(dependency_views(r@) == list.filter_map(f));
    assert(dependency_views(of_longer@) == list.push(last@).filter_map(f));
    if let Some(dependency) = of_last {
        assert(list.filter_map(f) + seq![dependency@] =~= list.filter_map(f).push(dependency@));
    }
}

/// A manifest that declares nothing has no dependencies.
pub proof fn no_declarations_are_no_dependencies(
    manifest: &Toml,
    workspace: Option<&Toml>,
    package_dir: &str,
    workspace_dir: &str,
    r: Vec<PathDependency>,
)
    requires
        declarations(manifest@).len() == 0,
        call_ensures(path_dependencies, (manifest, workspace, package_dir, workspace_dir), r),
    ensures
        r@.len() == 0,
{
    assert(dependency_views(r@).len() == r@.len());
}

}
