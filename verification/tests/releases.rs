//! Releases that are found by Git tags, and the versions that follow them.

use release_plz_core::fake_package::{FakeDependency, FakePackage};
use release_plz_core::git_only::{
    release_tags, GitOnlyAction, GitOnlyCollection, GitOnlyError, GitOnlyEvent, GitOnlyPackages,
};
use release_plz_core::name_map::NameMap;
use release_plz_core::next_ver::{
    manifest_dir, new_manifest_dir_path, root_arguments, ReleaseMetadataBuilder, UpdateResult,
    NO_COMMIT_ID,
};
use release_plz_core::next_versions::{
    clean_step, only_publishable, select_published, split_by_git_only, stash_arguments, CleanStep,
    NextVersions, NextVersionsAction, NextVersionsError, NextVersionsEvent,
};
use release_plz_core::package::Package;
use release_plz_core::registry_packages::{
    packages_by_name, PackagesCollection, RegistryPackage, WorkspaceLockfile,
};
use release_plz_core::semver_check::SemverCheck;
use release_plz_core::update_request::{
    default_tag_name_template, PackageConfig, UpdateRequest,
};
use release_plz_core::workspace::{workspace_packages, Metadata};

fn package(name: &str, version: &str) -> Package {
    let mut package = Package::from(FakePackage::new(name).with_targets(&["lib"]));
    package.version = version.to_string();
    package
}

fn workspace(root: &str, packages: Vec<Package>) -> Metadata {
    Metadata {
        workspace_members: packages.iter().map(|p| p.id.clone()).collect(),
        packages,
        workspace_root: root.to_string(),
    }
}

/// A repository: the commit of each tag, and the packages at each commit.
struct Repo {
    tags: Vec<(&'static str, &'static str)>,
    packages: Box<dyn Fn(&str) -> Vec<Package>>,
}

/// Collects the releases of `packages`. Also returns what was done.
fn collect(
    repo: &Repo,
    packages: &Vec<Package>,
    request: &UpdateRequest,
    is_multi_package: bool,
    failing: &str,
) -> (Result<GitOnlyPackages, GitOnlyError<String>>, Vec<String>) {
    let (mut collection, mut action) =
        GitOnlyCollection::start(packages, request, is_multi_package);
    let mut done = vec![];
    let mut commit_of_worktree = String::new();
    loop {
        let (words, event) = match action {
            GitOnlyAction::OpenRepository(path) => (format!("open {path}"), GitOnlyEvent::Done),
            GitOnlyAction::FindTag { template, package_name } => {
                let prefix = template
                    .replace("{{ package }}", &package_name)
                    .replace("{{ version }}", "");
                let tag = repo.tags.iter().find(|(tag, _)| tag.starts_with(&prefix));
                let event = match tag {
                    Some((tag, _)) => GitOnlyEvent::Tag(tag.to_string()),
                    None => GitOnlyEvent::NoTag,
                };
                (format!("tag {template} {package_name}"), event)
            }
            GitOnlyAction::FindCommit(name) => {
                let commit = repo.tags.iter().find(|(tag, _)| *tag == name).unwrap().1;
                (format!("commit {name}"), GitOnlyEvent::Commit(commit.to_string()))
            }
            GitOnlyAction::AddWorktree(name) => {
                let path = format!("/worktrees/{name}");
                (format!("worktree {name}"), GitOnlyEvent::Worktree(Some(path)))
            }
            GitOnlyAction::OpenWorktree => ("open worktree".to_string(), GitOnlyEvent::Done),
            GitOnlyAction::Checkout(commit) => {
                commit_of_worktree = commit.clone();
                (format!("checkout {commit}"), GitOnlyEvent::Done)
            }
            GitOnlyAction::Describe { directory, manifest } => {
                let packages = (repo.packages)(&commit_of_worktree);
                let event = GitOnlyEvent::Described(workspace(&directory, packages));
                (format!("describe {manifest} in {directory}"), event)
            }
            GitOnlyAction::LoadLockfile { workspace_root, commit } => {
                let lockfile = WorkspaceLockfile { text: format!("lockfile at {commit}") };
                (format!("lockfile {workspace_root}"), GitOnlyEvent::Lockfile(Some(lockfile)))
            }
            GitOnlyAction::Finish(result) => return (result, done),
        };
        let fails = words == failing;
        done.push(words);
        (collection, action) =
            collection.step(if fails { GitOnlyEvent::Failed } else { event });
    }
}

#[test]
fn git_only_packages_share_released_workspace_metadata() {
    // Separate package tags point to the same commit, allowing workspace reuse.
    let release_commit = "0123abcd";
    let repo = Repo {
        tags: vec![("one-v0.1.0", "0123abcd"), ("two-v0.1.0", "0123abcd")],
        packages: Box::new(|_| vec![package("one", "0.1.0"), package("two", "0.1.0")]),
    };
    // One package advanced since, so the release must be read, not the current checkout.
    let metadata = workspace("/root", vec![package("one", "0.2.0"), package("two", "0.1.0")]);
    let members = workspace_packages(&metadata);
    let request = UpdateRequest::new(metadata);
    let (result, done) = collect(&repo, &members, &request, true, "");
    let GitOnlyPackages { packages, workspaces } = result.unwrap();
    // Both packages were released at the same commit, so one worktree serves both.
    assert_eq!(workspaces.len(), 1);
    assert_eq!(done.iter().filter(|step| step.starts_with("worktree")).count(), 1);
    let one = packages.get("one").unwrap();
    let two = packages.get("two").unwrap();
    assert_eq!(one.package.version, "0.1.0");
    assert_eq!(one.published_at_sha1(), Some(release_commit));
    // Both packages share the same allocation for the released workspace.
    let released = one.released_workspace().unwrap();
    assert!(std::ptr::eq(released, two.released_workspace().unwrap()));
    assert_eq!(released.commit, release_commit);
    // The lockfile committed at the release is captured with the workspace.
    assert!(released.lockfile().is_some());
    assert_eq!(workspaces.into_values().len(), 1);
}

#[test]
fn git_only_reconstruction_uses_historical_cargo_config() {
    let historical = |_: &str| {
        let fake = FakePackage::new("app").with_dependencies(vec![FakeDependency::new("dep")]);
        vec![Package::from(fake)]
    };
    let repo = Repo { tags: vec![("v0.1.0", "0123abcd")], packages: Box::new(historical) };
    // The current checkout no longer knows the dependency of the old release.
    let metadata = workspace("/root", vec![package("app", "0.1.0")]);
    let members = workspace_packages(&metadata);
    let request = UpdateRequest::new(metadata);
    let (result, done) = collect(&repo, &members, &request, false, "");
    let packages = result.unwrap().packages;
    assert_eq!(packages.get("app").unwrap().package.dependencies[0].name, "dep");
    // Cargo runs in the worktree, where its configuration of that time is.
    assert_eq!(
        done,
        [
            "open /root",
            "tag v{{ version }} app",
            "commit v0.1.0",
            "worktree app",
            "open worktree",
            "checkout 0123abcd",
            "describe /worktrees/app/Cargo.toml in /worktrees/app",
            "lockfile /worktrees/app",
        ]
    );
}

#[test]
fn each_commit_has_its_own_workspace() {
    let repo = Repo {
        tags: vec![("one-v1", "cc"), ("two-v1", "aa"), ("three-v1", "cc")],
        packages: Box::new(|commit| {
            ["one", "two", "three", "four"].iter().map(|name| package(name, commit)).collect()
        }),
    };
    let names = ["one", "two", "three", "four"];
    let metadata = workspace("/root", names.iter().map(|name| package(name, "9")).collect());
    let members = workspace_packages(&metadata);
    let request = UpdateRequest::new(metadata);
    let GitOnlyPackages { packages, workspaces } =
        collect(&repo, &members, &request, true, "").0.unwrap();
    let version = |name: &str| packages.get(name).map(|p| p.package.version.clone());
    assert_eq!(version("one").as_deref(), Some("cc"));
    assert_eq!(version("two").as_deref(), Some("aa"));
    assert_eq!(version("three").as_deref(), Some("cc"));
    // A package without a tag is a first release.
    assert_eq!(version("four"), None);
    let commits: Vec<_> = workspaces.into_values().iter().map(|w| w.commit.clone()).collect();
    assert_eq!(commits, ["aa", "cc"]);
}

#[test]
fn repository_is_not_opened_without_packages() {
    let repo = Repo { tags: vec![], packages: Box::new(|_| vec![]) };
    let request = UpdateRequest::new(workspace("/root", vec![]));
    let (result, done) = collect(&repo, &vec![], &request, false, "");
    let found = result.unwrap();
    assert_eq!((found.packages.len(), found.workspaces.len()), (0, 0));
    assert!(done.is_empty());
}

#[test]
fn collection_reports_what_failed() {
    let repo = Repo {
        tags: vec![("v1", "aa")],
        packages: Box::new(|_| vec![package("other", "1")]),
    };
    let members = vec![package("app", "1")];
    let request = UpdateRequest::new(workspace("/root", vec![package("app", "1")]));
    let error = |failing: &str| collect(&repo, &members, &request, false, failing).0.unwrap_err();
    assert!(matches!(error("open /root"), GitOnlyError::NotOpened(path) if path == "/root"));
    assert!(matches!(error("tag v{{ version }} app"), GitOnlyError::TagNotSearched(name) if name == "app"));
    assert!(matches!(error("commit v1"), GitOnlyError::CommitNotFound(tag) if tag == "v1"));
    assert!(matches!(error("worktree app"), GitOnlyError::WorktreeNotAdded(name) if name == "app"));
    assert!(matches!(error("open worktree"), GitOnlyError::WorktreeNotOpened(name) if name == "app"));
    assert!(matches!(error("checkout aa"), GitOnlyError::NotCheckedOut(commit) if commit == "aa"));
    assert!(matches!(error("describe /worktrees/app/Cargo.toml in /worktrees/app"), GitOnlyError::NotDescribed(commit) if commit == "aa"));
    assert!(matches!(error("lockfile /worktrees/app"), GitOnlyError::LockfileNotLoaded(commit) if commit == "aa"));
    assert!(matches!(
        error(""),
        GitOnlyError::PackageNotFound { package_name, workspace_root } if package_name == "app" && workspace_root == "/worktrees/app"
    ));

    let mut lost = UpdateRequest::new(workspace("/root", vec![]));
    lost.local_manifest = String::new();
    assert!(matches!(
        collect(&repo, &members, &lost, false, "").0,
        Err(GitOnlyError::NoManifestDir(path)) if path.is_empty()
    ));

    let collection = GitOnlyCollection::start(&members, &request, false).0;
    let collection = collection.step(GitOnlyEvent::Done).0;
    let collection = collection.step(GitOnlyEvent::Tag("v1".to_string())).0;
    let collection = collection.step(GitOnlyEvent::Commit("aa".to_string())).0;
    let collection = collection.step(GitOnlyEvent::Worktree(None)).0;
    let collection = collection.step(GitOnlyEvent::Done).0;
    let (_, action) = collection.step(GitOnlyEvent::Done);
    assert!(matches!(action, GitOnlyAction::Finish(Err(GitOnlyError::WorktreeNotUtf8))));
}

fn config(release: bool, git_only: bool, template: Option<&str>) -> PackageConfig {
    PackageConfig { release, git_only, tag_name_template: template.map(|t| t.to_string()) }
}

#[test]
fn templates_fall_back_to_the_default() {
    assert_eq!(default_tag_name_template(true), "{{ package }}-v{{ version }}");
    assert_eq!(default_tag_name_template(false), "v{{ version }}");
    let request = UpdateRequest::new(workspace("/root", vec![]))
        .with_package_config("b".to_string(), config(true, true, Some("b{{ version }}")));
    let packages = vec![package("a", "1"), package("b", "1")];
    let tags: Vec<_> = release_tags(&packages, &request, true)
        .into_iter()
        .map(|tag| (tag.package_name, tag.template))
        .collect();
    assert_eq!(
        tags,
        [
            ("a".to_string(), "{{ package }}-v{{ version }}".to_string()),
            ("b".to_string(), "b{{ version }}".to_string()),
        ]
    );
}

#[test]
fn configuration_of_a_package_replaces_the_default() {
    let request = UpdateRequest::new(workspace("/root", vec![]));
    assert_eq!(request.local_manifest, "/root/Cargo.toml");
    assert_eq!(request.local_manifest_dir().as_deref(), Some("/root"));
    assert!(!request.should_use_git_only("a"));
    assert!(request.get_release_metadata("a").unwrap().tag_name_template.is_none());
    let request = request
        .with_default_package_config(config(false, true, Some("default")))
        .with_package_config("b".to_string(), config(true, false, Some("own")))
        .with_allow_dirty(true);
    assert!(request.allow_dirty);
    assert!(request.should_use_git_only("a"));
    assert!(!request.should_use_git_only("b"));
    assert_eq!(request.get_package_tag_name("a").as_deref(), Some("default"));
    // A package that is not released has no release.
    assert!(request.get_release_metadata("a").is_none());
    let metadata = request.get_release_metadata("b").unwrap();
    assert_eq!(metadata.tag_name_template.as_deref(), Some("own"));
    assert_eq!(metadata.release_name_template, None);
}

fn names(packages: &[Package]) -> Vec<&str> {
    packages.iter().map(|p| p.name.as_str()).collect()
}

#[test]
fn packages_are_split_by_how_they_are_released() {
    let request = UpdateRequest::new(workspace("/root", vec![]))
        .with_package_config("b".to_string(), config(true, true, None))
        .with_package_config("d".to_string(), config(true, true, None));
    let packages = ["a", "b", "c", "d"].iter().map(|name| package(name, "1")).collect();
    let (git_only, registry) = split_by_git_only(packages, &request);
    assert_eq!(names(&git_only), ["b", "d"]);
    assert_eq!(names(&registry), ["a", "c"]);
    let publishable = vec!["c".to_string(), "b".to_string()];
    assert_eq!(names(&only_publishable(&registry, &publishable)), ["c"]);
}

#[test]
fn wanted_packages_are_selected() {
    let published = PackagesCollection::new(
        packages_by_name(vec![
            RegistryPackage::new(package("a", "1"), Some("12".to_string())),
            RegistryPackage::new(package("b", "1"), None),
        ]),
        None,
    );
    let wanted = vec!["b".to_string(), "a".to_string(), "new".to_string(), "a".to_string()];
    let selected = select_published(&wanted, &published);
    assert_eq!(selected.len(), 2);
    assert_eq!(selected.get("a").unwrap().published_at_sha1(), Some("12"));
    assert_eq!(selected.get("b").unwrap().published_at_sha1(), None);
    assert_eq!(select_published(&vec!["b".to_string()], &published).len(), 1);
}

/// Determines the next versions. Returns the result, what was done, and the releases that the
/// project is compared with.
fn determine(
    request: &UpdateRequest,
    is_clean: bool,
    failing: &str,
) -> (Result<(), NextVersionsError>, Vec<String>, Option<PackagesCollection>) {
    let (mut determination, mut action) = NextVersions::start(request);
    let mut done = vec![];
    let mut compared = None;
    loop {
        let (words, event) = match action {
            NextVersionsAction::LoadProject => (
                "load".to_string(),
                NextVersionsEvent::Project {
                    publishable: vec!["a".to_string(), "shared".to_string()],
                    is_multi_package: true,
                },
            ),
            NextVersionsAction::CollectGitOnly { packages, is_multi_package } => {
                let mut map = NameMap::new();
                for found in &packages {
                    let released = RegistryPackage::new(found.copy(), Some("git".to_string()));
                    map = map.insert(found.name.clone(), released);
                }
                (
                    format!("git {:?} {is_multi_package}", names(&packages)),
                    NextVersionsEvent::GitOnly(map),
                )
            }
            NextVersionsAction::FetchPublished(packages) => {
                let list = packages
                    .iter()
                    .map(|p| RegistryPackage::new(p.copy(), Some("registry".to_string())))
                    .chain([RegistryPackage::new(package("unwanted", "1"), None)])
                    .collect();
                let collection = PackagesCollection::new(packages_by_name(list), None);
                (
                    format!("fetch {:?}", names(&packages)),
                    NextVersionsEvent::Published(collection),
                )
            }
            NextVersionsAction::OpenRepository => ("open".to_string(), NextVersionsEvent::Done),
            NextVersionsAction::CheckClean => {
                ("check".to_string(), NextVersionsEvent::Clean(is_clean))
            }
            NextVersionsAction::Stash(arguments) => (arguments.join(" "), NextVersionsEvent::Done),
            NextVersionsAction::Update(collection) => {
                compared = Some(collection);
                ("update".to_string(), NextVersionsEvent::Done)
            }
            NextVersionsAction::Finish(result) => return (result, done, compared),
        };
        let fails = words.starts_with(failing) && !failing.is_empty();
        done.push(words);
        (determination, action) =
            determination.step(if fails { NextVersionsEvent::Failed } else { event });
    }
}

fn request(members: &[&str]) -> UpdateRequest {
    let packages = members.iter().map(|name| package(name, "1")).collect();
    UpdateRequest::new(workspace("/root", packages))
        .with_package_config("g".to_string(), config(true, true, None))
}

const STASH: &str = "stash push --include-untracked -m uncommitted changes stashed by release-plz";

#[test]
fn project_is_compared_with_all_releases() {
    let (result, done, compared) = determine(&request(&["a", "g", "private"]), true, "");
    assert_eq!(result, Ok(()));
    assert_eq!(
        done,
        ["load", "git [\"g\"] true", "fetch [\"a\"]", "open", "check", "update"]
    );
    let compared = compared.unwrap();
    let sha1 = |name: &str| {
        compared.get_registry_package(name).map(|p| p.published_at_sha1().unwrap().to_string())
    };
    assert_eq!(sha1("a").as_deref(), Some("registry"));
    assert_eq!(sha1("g").as_deref(), Some("git"));
    assert_eq!(sha1("private"), None);
    assert_eq!(sha1("unwanted"), None);
}

#[test]
fn nothing_is_fetched_where_nothing_can_be_published() {
    for members in [&["g"][..], &["g", "private"][..]] {
        let (result, done, compared) = determine(&request(members), true, "");
        assert_eq!(result, Ok(()));
        assert_eq!(done, ["load", "git [\"g\"] true", "open", "check", "update"]);
        assert!(compared.unwrap().get_package("g").is_some());
    }
}

#[test]
fn uncommitted_changes_are_refused_or_set_aside() {
    let (result, done, compared) = determine(&request(&["a"]), false, "");
    assert_eq!(result, Err(NextVersionsError::Dirty));
    assert_eq!(done.last().unwrap(), "check");
    assert!(compared.is_none());
    let (result, done, _) = determine(&request(&["a"]).with_allow_dirty(true), false, "");
    assert_eq!(result, Ok(()));
    assert_eq!(done[done.len() - 2..], [STASH, "update"]);
    let (_, done, _) = determine(&request(&["a"]).with_allow_dirty(true), true, "");
    assert!(!done.contains(&STASH.to_string()));
    assert_eq!(clean_step(false, false), CleanStep::Refuse);
    assert_eq!(clean_step(true, false), CleanStep::Stash);
    assert_eq!(clean_step(false, true), CleanStep::Proceed);
    assert_eq!(stash_arguments().join(" "), STASH);
}

#[test]
fn determination_reports_what_failed() {
    let dirty = request(&["a", "g"]).with_allow_dirty(true);
    for (failing, error) in [
        ("load", NextVersionsError::ProjectNotLoaded),
        ("git", NextVersionsError::GitOnlyNotCollected),
        ("fetch", NextVersionsError::NotFetched),
        ("open", NextVersionsError::RepositoryNotFound),
        ("stash", NextVersionsError::NotStashed),
        ("update", NextVersionsError::NotUpdated),
    ] {
        assert_eq!(determine(&dirty, false, failing).0, Err(error));
    }
}

#[test]
fn manifest_directory_moves_with_the_project() {
    assert_eq!(
        new_manifest_dir_path("/home/project", "/home/project/crates/a", "/tmp/copy").unwrap(),
        "/tmp/copy/project/crates/a"
    );
    assert_eq!(new_manifest_dir_path("/home/project", "/home/project", "/tmp").unwrap(), "/tmp/project");
    assert_eq!(new_manifest_dir_path("/", "/a", "/tmp").unwrap(), "/tmp/a");
    assert_eq!(new_manifest_dir_path("/home/project", "/other", "/tmp"), None);
    assert_eq!(manifest_dir("/root/Cargo.toml").as_deref(), Some("/root"));
    assert_eq!(manifest_dir(""), None);
    assert_eq!(root_arguments(), ["rev-parse", "--show-toplevel"]);
}

#[test]
fn last_changes_are_those_of_the_changelog() {
    let result = |changelog: Option<&str>| UpdateResult {
        version: cargo_metadata::semver::Version::new(1, 2, 3),
        changelog: changelog.map(|text| text.to_string()),
        semver_check: SemverCheck::Skipped,
        new_changelog_entry: None,
        registry_version: None,
    };
    let parse = |text: &str| -> Result<Option<usize>, String> {
        match text.len() {
            0 => Err("empty".to_string()),
            n => Ok(Some(n)),
        }
    };
    let copy = result(Some("abc")).clone();
    assert_eq!(copy.version.to_string(), "1.2.3");
    assert_eq!(copy.changelog.as_deref(), Some("abc"));
    assert!(matches!(copy.semver_check, SemverCheck::Skipped));
    assert_eq!(result(None).last_changes(parse), Ok(None));
    assert_eq!(result(Some("abc")).last_changes(parse), Ok(Some(3)));
    assert_eq!(result(Some("")).last_changes(parse), Err("empty".to_string()));
}

#[test]
fn missing_commit_has_a_dummy_id() {
    assert_eq!(NO_COMMIT_ID, "0000000");
}
