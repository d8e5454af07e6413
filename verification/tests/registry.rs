//! Packages as they were last published.

use release_plz_core::fake_package::FakePackage;
use release_plz_core::lockfile::{
    LockfileAction, LockfileEvent, LockfileLoad, LockfilePart,
};
use release_plz_core::name_map::NameMap;
use release_plz_core::package::Package;
use release_plz_core::registry_fetch::{FetchAction, FetchError, FetchEvent, RegistryFetch};
use release_plz_core::registry_init::{
    package_directory, InitAction, InitError, InitEvent, LocatedPackage, PackageInit,
};
use release_plz_core::registry_packages::{
    download_groups, package_registry, packages_by_name, PackagesCollection, RegistryPackage,
    ReleasedWorkspace, WorkspaceLockfile,
};
use release_plz_core::vcs_info::{commit_in_vcs_info, commit_of_vcs_info};
use release_plz_core::workspace::Metadata;
use std::sync::Arc;

fn package(name: &str, publish: Option<&[&str]>) -> Package {
    let publish = publish.map(|list| list.iter().map(|name| name.to_string()).collect());
    Package::from(FakePackage::new(name).with_publish(publish).with_targets(&["lib"]))
}

fn metadata(packages: Vec<Package>, members: &[&str]) -> Metadata {
    Metadata {
        packages,
        workspace_members: members.iter().map(|id| id.to_string()).collect(),
        workspace_root: "/root".to_string(),
    }
}

#[test]
fn registry_falls_back_to_the_first_one_of_the_package() {
    let both = package("a", Some(&["first", "second"]));
    assert_eq!(package_registry(&both, None), Some("first"));
    assert_eq!(package_registry(&both, Some("given")), Some("given"));
    assert_eq!(package_registry(&package("a", Some(&[])), None), None);
    assert_eq!(package_registry(&package("a", None), None), None);
}

#[test]
fn neighbours_of_one_registry_are_downloaded_together() {
    let packages = vec![
        package("a", None),
        package("b", None),
        package("c", Some(&["x", "y"])),
        package("d", Some(&["x"])),
        package("e", Some(&["y"])),
        package("f", None),
    ];
    let groups: Vec<_> =
        download_groups(&packages, None).into_iter().map(|g| (g.registry, g.names)).collect();
    let names = |list: &[&str]| list.iter().map(|name| name.to_string()).collect::<Vec<_>>();
    assert_eq!(
        groups,
        [
            (None, names(&["a", "b"])),
            (Some("x".to_string()), names(&["c", "d"])),
            (Some("y".to_string()), names(&["e"])),
            (None, names(&["f"])),
        ]
    );
    let given = download_groups(&packages, Some("z"));
    assert_eq!(given.len(), 1);
    assert_eq!(given[0].registry.as_deref(), Some("z"));
    assert_eq!(given[0].names, ["a", "b", "c", "d", "e", "f"]);
    assert!(download_groups(&vec![], None).is_empty());
}

#[test]
fn packages_of_a_manifest_are_those_that_can_be_published() {
    let (fetch, action) = RegistryFetch::start(Some("/root/Cargo.toml"), &vec![], None);
    assert!(matches!(action, FetchAction::ReadManifest(path) if path == "/root/Cargo.toml"));
    let described = metadata(
        vec![package("a", None), package("private", Some(&[])), package("foreign", None)],
        &["a", "private"],
    );
    let (_, action) = fetch.step(FetchEvent::Manifest(Some(described)));
    match action {
        FetchAction::Finish(Ok(collection)) => {
            assert_eq!(collection.get_package("a").unwrap().name, "a");
            assert_eq!(collection.get_registry_package("a").unwrap().published_at_sha1(), None);
            assert!(collection.get_package("private").is_none());
            assert!(collection.get_package("foreign").is_none());
        }
        other => panic!("{other:?}"),
    }
    let (fetch, _) = RegistryFetch::start(Some("/root/Cargo.toml"), &vec![], None);
    let (_, action) = fetch.step(FetchEvent::Manifest(None));
    assert!(matches!(action, FetchAction::Finish(Err(FetchError::ManifestNotRead(path))) if path == "/root/Cargo.toml"));
}

#[test]
fn packages_are_downloaded_group_by_group_and_prepared() {
    let local = vec![package("a", None), package("b", Some(&["x"]))];
    let (fetch, action) = RegistryFetch::start(None, &local, None);
    assert!(matches!(action, FetchAction::CreateTempDir));
    let directory = tempfile::tempdir().unwrap();
    let path = directory.path().to_str().unwrap().to_string();
    let kept = directory.path().to_path_buf();
    let (fetch, action) =
        fetch.step(FetchEvent::TempDir { directory, path: Some(path.clone()) });
    match action {
        FetchAction::Download { group, directory } => {
            assert_eq!((group.registry, group.names), (None, vec!["a".to_string()]));
            assert_eq!(directory, path);
        }
        other => panic!("{other:?}"),
    }
    let (fetch, action) = fetch.step(FetchEvent::Downloaded(Some(vec![package("a", None)])));
    match action {
        FetchAction::Download { group, .. } => {
            assert_eq!((group.registry.as_deref(), group.names), (Some("x"), vec!["b".to_string()]));
        }
        other => panic!("{other:?}"),
    }
    let (fetch, action) = fetch.step(FetchEvent::Downloaded(Some(vec![package("b", None)])));
    let packages = match action {
        FetchAction::Initialize(packages) => packages,
        other => panic!("{other:?}"),
    };
    let names: Vec<_> = packages.iter().map(|p| p.name.clone()).collect();
    assert_eq!(names, ["a", "b"]);
    let released = packages
        .into_iter()
        .map(|p| {
            let sha1 = format!("sha1 of {}", p.name);
            RegistryPackage::new(p, Some(sha1))
        })
        .collect();
    let (_, action) = fetch.step(FetchEvent::Initialized(Ok(released)));
    match action {
        FetchAction::Finish(Ok(collection)) => {
            let b = collection.get_registry_package("b").unwrap();
            assert_eq!(b.published_at_sha1(), Some("sha1 of b"));
            // The directory is there as long as the collection.
            assert!(kept.exists());
            let collection = collection.with_packages(NameMap::new());
            assert!(collection.get_package("b").is_none());
            assert!(kept.exists());
            drop(collection);
            assert!(!kept.exists());
        }
        other => panic!("{other:?}"),
    }
}

#[test]
fn fetch_reports_what_failed() {
    let start = || RegistryFetch::start(None, &vec![package("a", None)], None).0;
    let (_, action) = start().step(FetchEvent::NoTempDir);
    assert!(matches!(action, FetchAction::Finish(Err(FetchError::NoTempDir))));
    let directory = || tempfile::tempdir().unwrap();
    let (_, action) = start().step(FetchEvent::TempDir { directory: directory(), path: None });
    assert!(matches!(action, FetchAction::Finish(Err(FetchError::InvalidTempDirPath))));
    let downloading = || {
        let event = FetchEvent::TempDir { directory: directory(), path: Some("/tmp".to_string()) };
        start().step(event).0
    };
    let (_, action) = downloading().step(FetchEvent::Downloaded(None));
    assert!(matches!(action, FetchAction::Finish(Err(FetchError::NotDownloaded))));
    let (fetch, _) = downloading().step(FetchEvent::Downloaded(Some(vec![])));
    let error = InitError::GitFailed { directory: "/tmp/a".to_string(), message: "no".to_string() };
    let (_, action) = fetch.step(FetchEvent::Initialized(Err(error)));
    assert!(matches!(
        action,
        FetchAction::Finish(Err(FetchError::NotInitialized(InitError::GitFailed { message, .. }))) if message == "no"
    ));
}

/// Prepares packages. `answer` says what comes of each action, written as text.
fn prepare(
    packages: Vec<LocatedPackage>,
    answer: &dyn Fn(&str) -> InitEvent<String>,
) -> (Result<Vec<RegistryPackage>, InitError<String>>, Vec<String>) {
    let (mut init, mut action) = PackageInit::start(packages);
    let mut asked = vec![];
    loop {
        let words = match action {
            InitAction::Probe(path) => format!("probe {path}"),
            InitAction::ReadSha1(path) => format!("read {path}"),
            InitAction::RemoveFile(path) => format!("remove {path}"),
            InitAction::Git { directory, arguments } => {
                format!("{directory}: {}", arguments.join(" "))
            }
            InitAction::Finish(result) => return (result, asked),
        };
        let again = asked.contains(&words);
        let event = answer(if again { "again" } else { &words });
        asked.push(words);
        (init, action) = init.step(event);
    }
}

fn located(name: &str) -> LocatedPackage {
    let package = package(name, None);
    let directory = package_directory(&package).unwrap();
    LocatedPackage { package, directory }
}

#[test]
fn packages_get_a_repository_and_their_commit() {
    let answer = |asked: &str| match asked {
        "probe a/.cargo_vcs_info.json" => InitEvent::Exists(true),
        "read a/.cargo_vcs_info.json" => InitEvent::Sha1(Some("1234".to_string())),
        "probe b/.git" => InitEvent::Exists(true),
        probe if probe.starts_with("probe") => InitEvent::Exists(false),
        _ => InitEvent::Done,
    };
    let (result, asked) = prepare(vec![located("a"), located("b")], &answer);
    let packages = result.unwrap();
    assert_eq!(
        asked,
        [
            "probe a/.cargo_vcs_info.json",
            "read a/.cargo_vcs_info.json",
            "remove a/.cargo_vcs_info.json",
            "probe a/.git",
            "a: init",
            "a: add .",
            "a: commit -m init",
            "probe b/.cargo_vcs_info.json",
            "probe b/.git",
        ]
    );
    assert_eq!(packages[0].package.name, "a");
    assert_eq!(packages[0].published_at_sha1(), Some("1234"));
    assert_eq!(packages[1].package.name, "b");
    assert_eq!(packages[1].published_at_sha1(), None);
    assert!(packages[0].released_workspace().is_none());
}

fn failing_at(step: &'static str, message: &'static str) -> impl Fn(&str) -> InitEvent<String> {
    move |asked: &str| {
        if asked == step {
            InitEvent::Failed(message.to_string())
        } else if asked.starts_with("probe") {
            InitEvent::Exists(false)
        } else {
            InitEvent::Done
        }
    }
}

#[test]
fn commit_is_tried_again_with_an_identity() {
    let (result, asked) = prepare(
        vec![located("a")],
        &failing_at("a: commit -m init", "\n  Author identity unknown\n\n*** Please tell me"),
    );
    assert_eq!(result.unwrap().len(), 1);
    assert_eq!(
        asked[2..],
        [
            "a: init",
            "a: add .",
            "a: commit -m init",
            "a: config user.email test@registry",
            "a: config user.name test",
            "a: commit -m init",
        ]
    );
    // Another failure of the commit is no error.
    let (result, asked) =
        prepare(vec![located("a")], &failing_at("a: commit -m init", "nothing to commit"));
    assert_eq!(result.unwrap().len(), 1);
    assert_eq!(asked.last().unwrap(), "a: commit -m init");
}

#[test]
fn preparation_reports_what_failed() {
    for step in ["a: init", "a: add ."] {
        let (result, _) = prepare(vec![located("a")], &failing_at(step, "no"));
        match result {
            Err(InitError::GitFailed { directory, message }) => {
                assert_eq!((directory.as_str(), message.as_str()), ("a", "no"));
            }
            other => panic!("{other:?}"),
        }
    }
    for step in ["a: config user.email test@registry", "a: config user.name test", "again"] {
        let answer = |asked: &str| match asked {
            asked if asked == step => InitEvent::Failed("no".to_string()),
            "a: commit -m init" => InitEvent::Failed("Author identity unknown".to_string()),
            asked if asked.starts_with("probe") => InitEvent::Exists(false),
            _ => InitEvent::Done,
        };
        assert!(matches!(prepare(vec![located("a")], &answer).0, Err(InitError::GitFailed { .. })));
    }
    let answer = |asked: &str| match asked {
        asked if asked.starts_with("probe") => InitEvent::Exists(true),
        asked if asked.starts_with("read") => InitEvent::Sha1(None),
        _ => InitEvent::Failed("busy".to_string()),
    };
    match prepare(vec![located("a")], &answer).0 {
        Err(InitError::NotRemoved { path, message }) => {
            assert_eq!((path.as_str(), message.as_str()), ("a/.cargo_vcs_info.json", "busy"));
        }
        other => panic!("{other:?}"),
    }
    assert!(prepare(vec![], &|_| InitEvent::Done).0.unwrap().is_empty());
}

#[test]
fn last_package_of_a_name_is_collected() {
    let list = vec![
        RegistryPackage::new(package("b", None), Some("1".to_string())),
        RegistryPackage::new(package("a", None), Some("2".to_string())),
        RegistryPackage::new(package("b", None), Some("3".to_string())),
    ];
    let map = packages_by_name(list);
    assert_eq!(map.len(), 2);
    let collection = PackagesCollection::new(map, None);
    assert_eq!(collection.get_registry_package("b").unwrap().published_at_sha1(), Some("3"));
    assert_eq!(collection.get_registry_package("a").unwrap().published_at_sha1(), Some("2"));
    assert!(collection.get_registry_package("c").is_none());
    assert!(PackagesCollection::default().get_package("a").is_none());
}

#[test]
fn released_workspace_goes_with_the_package() {
    let lockfile = WorkspaceLockfile { text: "version = 4\n".to_string() };
    let workspace = Arc::new(ReleasedWorkspace::new(
        metadata(vec![], &[]),
        Some(lockfile),
        "1234".to_string(),
    ));
    let released = RegistryPackage::new(package("a", None), None)
        .with_released_workspace(Arc::clone(&workspace));
    let found = released.released_workspace().unwrap();
    assert_eq!(found.commit, "1234");
    assert_eq!(found.lockfile().unwrap().text, "version = 4\n");
    assert_eq!(released.published_at_sha1(), None);
}

#[test]
fn lockfile_is_decoded_where_it_is_there() {
    let start = || LockfileLoad::start("/root", "1234");
    let (load, action) = start();
    assert!(matches!(action, LockfileAction::Probe(path) if path == "/root/Cargo.lock"));
    let (_, action) = load.step(LockfileEvent::Exists(false));
    assert!(matches!(action, LockfileAction::Finish(Ok(None))));
    let decoding = || start().0.step(LockfileEvent::Exists(true));
    let (load, action) = decoding();
    assert!(matches!(action, LockfileAction::Decode { workspace_root, manifest } if workspace_root == "/root" && manifest == "/root/Cargo.toml"));
    let lockfile = WorkspaceLockfile { text: "x".to_string() };
    let (_, action) = load.step(LockfileEvent::Decoded(Some(lockfile)));
    assert!(matches!(action, LockfileAction::Finish(Ok(Some(lockfile))) if lockfile.text == "x"));
    for (part, message) in [
        (LockfilePart::Configuration, None),
        (
            LockfilePart::Manifest,
            Some("cannot load workspace manifest \"/root/Cargo.toml\" with the Cargo library bundled in release-plz"),
        ),
        (
            LockfilePart::Lockfile,
            Some("cannot load lockfile \"/root/Cargo.lock\" committed at 1234"),
        ),
    ] {
        match decoding().0.step(LockfileEvent::Failed(part)).1 {
            LockfileAction::Finish(Err(error)) => assert_eq!(error.message().as_deref(), message),
            other => panic!("{other:?}"),
        }
    }
}

#[test]
fn directory_of_a_package_is_that_of_its_manifest() {
    let mut pkg = package("a", None);
    assert_eq!(package_directory(&pkg).as_deref(), Some("a"));
    pkg.manifest_path = "/x/y/Cargo.toml".to_string();
    assert_eq!(package_directory(&pkg).as_deref(), Some("/x/y"));
    pkg.manifest_path = String::new();
    assert_eq!(package_directory(&pkg), None);
}

#[test]
fn commit_is_the_sha1_of_the_git_object() {
    for (text, commit) in [
        ("{\"git\": {\"sha1\": \"12\\u0061b\"}, \"path_in_vcs\": \"\"}", Some("12ab")),
        ("{\"git\": {\"sha1\": 12}}", None),
        ("{\"git\": {}}", None),
        ("{\"git\": \"sha1\"}", None),
        ("{\"sha1\": \"12\"}", None),
        ("[\"git\"]", None),
        ("{\"git\": {\"sha1\": \"12\"}", None),
        ("", None),
    ] {
        assert_eq!(commit_in_vcs_info(text).as_deref(), commit, "{text}");
    }
    assert_eq!(commit_of_vcs_info(&serde_json::Value::Null), None);
}
