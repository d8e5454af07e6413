//! Which dependencies follow updated packages.

use release_plz_core::fake_package::FakePackage;
use release_plz_core::manifest::{
    dependency_kind, is_workspace_dependency, package_declarations, path_dependencies,
    workspace_dependency_table, DepKind, PathDependency,
};
use release_plz_core::package::Package;
use release_plz_core::package_dependencies::{
    is_dependency_referred_to_package, should_update_dependency, DependencyError, DependencyScan,
    ManifestError, PackageDependencies, RequirementUpgrade, ScanAction, ScanEvent,
};
use release_plz_core::scaffold::package_manifest;
use release_plz_core::toml_tree::{parse_toml, Toml};

fn package(name: &str, directory: &str) -> Package {
    let mut package = Package::from(FakePackage::new(name));
    package.manifest_path = format!("{directory}/Cargo.toml");
    package
}

/// A path without `.` and `..`, as far as the test needs it.
fn canonical(path: &str) -> String {
    let mut parts: Vec<&str> = vec![];
    for part in path.split('/') {
        match part {
            "." => {}
            ".." => {
                parts.pop();
            }
            _ => parts.push(part),
        }
    }
    parts.join("/").trim_end_matches('/').to_string()
}

/// Runs a scan to its end. A requirement is rewritten unless it is `*` or `>=0.1`.
fn run(
    started: (DependencyScan, ScanAction),
    updated: &[Option<&str>],
    missing: &str,
) -> (Result<Vec<usize>, DependencyError>, Vec<String>) {
    let (mut scan, mut action) = started;
    let mut asked = vec![];
    loop {
        let event = match action {
            ScanAction::LocatePackage(index) => {
                asked.push(format!("package {index}"));
                ScanEvent::Located(updated[index].map(|path| path.to_string()))
            }
            ScanAction::Canonicalize(path) => {
                asked.push(format!("path {path}"));
                let path = canonical(&path);
                ScanEvent::Located(if path == missing { None } else { Some(path) })
            }
            ScanAction::Upgrade { requirement, package } => {
                asked.push(format!("upgrade {requirement} {package}"));
                ScanEvent::Upgraded(match requirement.as_str() {
                    "*" | ">=0.1" => RequirementUpgrade::Unchanged,
                    "nonsense" => RequirementUpgrade::Invalid,
                    _ => RequirementUpgrade::Rewritten,
                })
            }
            ScanAction::Finish(result) => return (result, asked),
        };
        (scan, action) = scan.step(event);
    }
}

#[test]
fn versionless_and_workspace_dependencies_to_update() {
    let root = "/root";
    // Check both versionless Git-only dependencies and versioned dependencies.
    for (version, include_versionless) in [("", true), (", version = \"0.1\"", false)] {
        let workspace_manifest = format!(
            "{}\n[workspace]\nmembers = [\"support\", \"consumer\"]\nresolver = \"3\"\n[workspace.dependencies]\nshared = {{ package = \"support\", path = \"support\"{version} }}\n",
            package_manifest("root-app", "0.1.0", "")
        );
        // Actual root dependencies must still propagate, including renamed,
        // inherited dependencies and target-specific build/dev dependencies.
        for (dependency, dev_only) in [
            ("", false),
            ("[dependencies]\nshared.workspace = true\n", false),
            ("[dependencies]\nsupport = { path = \"support\", version = \"0.1\" }\n", false),
            ("[target.'cfg(unix)'.build-dependencies]\nshared.workspace = true\n", false),
            // A versioned dev dependency is rewritten, so it always propagates.
            ("[dev-dependencies]\nsupport = { path = \"support\", version = \"0.1\" }\n", false),
            // A versionless dev dependency doesn't change the released package.
            ("[dev-dependencies]\nshared.workspace = true\n", true),
            ("[target.'cfg(unix)'.dev-dependencies]\nshared.workspace = true\n", true),
            // Unless the package also uses it outside of its tests.
            (
                "[dependencies]\nshared.workspace = true\n[dev-dependencies]\nshared.workspace = true\n",
                false,
            ),
        ] {
            let root_text = format!("{workspace_manifest}{dependency}");
            let consumer_text =
                package_manifest("consumer", "0.1.0", "[dependencies]\nshared.workspace = true\n");
            let root_manifest = parse_toml(&root_text).unwrap();
            let support = package("support", "/root/support");
            let updated = [(&support, "/root/support")];
            let paths: Vec<_> = updated.iter().map(|(_, path)| Some(*path)).collect();
            for (name, directory, text) in
                [("root-app", "/root", &root_text), ("consumer", "/root/consumer", &consumer_text)]
            {
                let started = package(name, directory)
                    .dependencies_to_update(
                        text,
                        updated.len(),
                        workspace_dependency_table(&root_manifest),
                        root,
                        include_versionless,
                    )
                    .unwrap();
                let dependencies = run(started, &paths, "").0.unwrap();
                // Only a versionless dev-only declaration of the updated package
                // leaves the root package alone.
                let root_app_updated = !dependency.is_empty() && !(dev_only && version.is_empty());
                let expected = if name == "consumer" || root_app_updated {
                    vec!["support"]
                } else {
                    vec![]
                };
                assert_eq!(
                    dependencies.iter().map(|i| updated[*i].0.name.as_str()).collect::<Vec<_>>(),
                    expected,
                    "{name}: version={version:?}, dependency={dependency:?}"
                );
            }
        }
    }
}

fn scan_of(text: &str, updated: usize, include_versionless: bool) -> (DependencyScan, ScanAction) {
    package("app", "/root/app")
        .dependencies_to_update(text, updated, None, "/root", include_versionless)
        .unwrap()
}

#[test]
fn each_package_is_named_once_in_order() {
    let text = "[dev-dependencies]\na = { path = \"../a\", version = \"0.1\" }\n\
                [dependencies]\nb = { path = \"../b\", version = \"0.1\" }\na = { path = \"../a\", version = \"0.1\" }\n";
    let updated = [Some("/root/b"), Some("/root/other"), Some("/root/a")];
    let (result, asked) = run(scan_of(text, 3, false), &updated, "");
    assert_eq!(result.unwrap(), [0, 2]);
    assert_eq!(
        asked,
        [
            "package 0",
            "path /root/app/../a",
            "path /root/app/../b",
            "upgrade 0.1 0",
            "package 1",
            "path /root/app/../a",
            "path /root/app/../b",
            "path /root/app/../a",
            "package 2",
            "path /root/app/../a",
            "upgrade 0.1 2",
        ]
    );
}

#[test]
fn nothing_is_asked_without_updated_packages() {
    let (result, asked) = run(scan_of("[dependencies]\na = { path = \"../a\" }\n", 0, true), &[], "");
    assert_eq!(result.unwrap(), Vec::<usize>::new());
    assert!(asked.is_empty());
}

#[test]
fn requirement_that_admits_the_next_version_is_not_followed() {
    let text = "[dependencies]\na = { path = \"../a\", version = \">=0.1\" }\n\
                [build-dependencies]\na = { path = \"../a\", version = 1 }\n";
    let (result, asked) = run(scan_of(text, 1, true), &[Some("/root/a")], "");
    assert_eq!(result.unwrap(), Vec::<usize>::new());
    // A version that is no string admits all versions.
    assert!(asked.contains(&"upgrade * 0".to_string()));
}

#[test]
fn invalid_requirement_is_an_error() {
    let text = "[dependencies]\na = { path = \"../a\", version = \"nonsense\" }\n";
    match run(scan_of(text, 1, false), &[Some("/root/a")], "").0 {
        Err(DependencyError::InvalidRequirement { requirement, package }) => {
            assert_eq!(requirement, "nonsense");
            assert_eq!(package, 0);
        }
        other => panic!("{other:?}"),
    }
    // It is none where a dependency before it decides.
    let text = "[dependencies]\na = { path = \"../a\", version = \"0.1\" }\n\
                [dev-dependencies]\na = { path = \"../a\", version = \"nonsense\" }\n";
    assert_eq!(run(scan_of(text, 1, false), &[Some("/root/a")], "").0.unwrap(), [0]);
}

#[test]
fn package_that_cannot_be_located_is_an_error() {
    let text = "[dependencies]\na = { path = \"../a\" }\n";
    match run(scan_of(text, 2, true), &[Some("/root/a"), None], "").0 {
        Err(DependencyError::PackageNotLocated(index)) => assert_eq!(index, 1),
        other => panic!("{other:?}"),
    }
}

#[test]
fn dependency_that_cannot_be_located_refers_to_nothing() {
    let text = "[dependencies]\na = { path = \"../a\", version = \"0.1\" }\n";
    assert!(run(scan_of(text, 1, true), &[Some("/root/a")], "/root/a").0.unwrap().is_empty());
    assert!(!is_dependency_referred_to_package(&None, "/root/a"));
    assert!(is_dependency_referred_to_package(&Some("/root//a/".to_string()), "/root/a"));
    assert!(!is_dependency_referred_to_package(&Some("/root/b".to_string()), "/root/a"));
}

#[test]
fn manifest_that_cannot_be_read_is_an_error() {
    let mut app = package("app", "/root");
    let invalid = app.dependencies_to_update("[dependencies", 1, None, "/root", false);
    assert!(matches!(invalid, Err(ManifestError::Invalid(_))));
    app.manifest_path = String::new();
    let invalid = app.dependencies_to_update("[dependencies", 1, None, "/root", false);
    assert!(matches!(invalid, Err(ManifestError::Invalid(_))));
    let lost = app.dependencies_to_update("", 1, None, "/root", false);
    assert!(matches!(lost, Err(ManifestError::NoDirectory(path)) if path.is_empty()));
}

#[test]
fn dependencies_count_by_kind_and_requirement() {
    let dependency = |kind: DepKind, requirement: Option<&str>| PathDependency {
        kind,
        path: "/root/a".to_string(),
        requirement: requirement.map(|text| text.to_string()),
    };
    let unchanged = RequirementUpgrade::Unchanged;
    for (kind, counts) in
        [(DepKind::Normal, true), (DepKind::Build, true), (DepKind::Development, false)]
    {
        assert_eq!(should_update_dependency(&dependency(kind, None), unchanged, true), Some(counts));
        assert_eq!(should_update_dependency(&dependency(kind, None), unchanged, false), Some(false));
        let versioned = dependency(kind, Some("0.1"));
        for versionless in [false, true] {
            assert_eq!(should_update_dependency(&versioned, unchanged, versionless), Some(false));
            assert_eq!(
                should_update_dependency(&versioned, RequirementUpgrade::Rewritten, versionless),
                Some(true)
            );
            assert_eq!(
                should_update_dependency(&versioned, RequirementUpgrade::Invalid, versionless),
                None
            );
        }
    }
}

#[test]
fn declarations_come_in_the_order_of_the_manifest() {
    let text = "[build-dependencies]\na = { version = \"1\" }\nplain = \"1\"\n\
                [target.'cfg(unix)'.dependencies]\nb.path = \"../b\"\n\
                [target.'cfg(unix)'.other]\nz.path = \"../z\"\n\
                [target.'cfg(windows)'.dev-dependencies.c]\npath = \"../c\"\n\
                [dependencies]\nd = { workspace = true }\n\
                [features]\ne = {}\n";
    let manifest = parse_toml(text).unwrap();
    let found: Vec<_> =
        package_declarations(&manifest).iter().map(|d| (d.kind, d.name.to_string())).collect();
    assert_eq!(
        found,
        [
            (DepKind::Build, "a".to_string()),
            (DepKind::Normal, "b".to_string()),
            (DepKind::Development, "c".to_string()),
            (DepKind::Normal, "d".to_string()),
        ]
    );
    assert!(package_declarations(&Toml::Other).is_empty());
    assert_eq!(dependency_kind("dependencies"), Some(DepKind::Normal));
    assert_eq!(dependency_kind("features"), None);
}

#[test]
fn inherited_dependencies_are_read_in_the_workspace() {
    let workspace = parse_toml(
        "[workspace.dependencies]\na = { path = \"crates/a\", version = \"1\" }\nb = \"2\"\n",
    )
    .unwrap();
    let manifest = parse_toml(
        "[dependencies]\na.workspace = true\nb.workspace = true\nc.workspace = true\n\
         d = { workspace = true, path = \"d\" }\ne = { workspace = false, path = \"e\" }\nf.path = 3\n",
    )
    .unwrap();
    let shared = workspace_dependency_table(&workspace);
    assert!(shared.is_some());
    let found: Vec<_> = path_dependencies(&manifest, shared, "/root/app", "/root")
        .iter()
        .map(|d| (d.path.clone(), d.requirement.clone()))
        .collect();
    assert_eq!(
        found,
        [
            ("/root/crates/a".to_string(), Some("1".to_string())),
            ("/root/app/d".to_string(), None),
            ("/root/app/e".to_string(), None),
        ]
    );
    // Without a workspace nothing is inherited.
    assert_eq!(path_dependencies(&manifest, None, "/root/app", "/root").len(), 2);
    assert!(workspace_dependency_table(&manifest).is_none());
}

#[test]
fn workspace_dependencies_have_neither_version_nor_path() {
    for (text, expected) in [
        ("workspace = true\n", true),
        ("workspace = true\nfeatures = [\"a\"]\n", true),
        ("workspace = true\nversion = \"1\"\n", false),
        ("workspace = true\npath = \"a\"\n", false),
        ("workspace = false\n", false),
        ("workspace = \"true\"\n", false),
        ("path = \"a\"\n", false),
    ] {
        assert_eq!(is_workspace_dependency(&parse_toml(text).unwrap()), expected, "{text}");
    }
    assert!(!is_workspace_dependency(&Toml::Text("1".to_string())));
}

#[test]
fn documents_are_read_as_trees() {
    let toml = parse_toml("a = \"x\"\nb = true\nc = 3\nd.e = [1]\n[f]\ng = { h = false }\n").unwrap();
    assert_eq!(toml.get("a").unwrap().as_text(), Some("x"));
    assert_eq!(toml.get("a").unwrap().as_flag(), None);
    assert_eq!(toml.get("b").unwrap().as_flag(), Some(true));
    assert!(matches!(toml.get("c"), Some(Toml::Other)));
    assert!(matches!(toml.get("d").unwrap().get("e"), Some(Toml::Other)));
    assert!(toml.get("f").unwrap().is_table());
    assert_eq!(toml.get("f").unwrap().get("g").unwrap().get("h").unwrap().as_flag(), Some(false));
    assert!(toml.contains_key("f"));
    assert!(!toml.contains_key("h"));
    assert!(toml.get("a").unwrap().get("x").is_none());
}

#[test]
fn text_that_is_not_toml_is_an_error() {
    assert!(parse_toml("[dependencies\n").is_err());
    assert!(parse_toml("a = 1\na = 2\n").is_err());
}
