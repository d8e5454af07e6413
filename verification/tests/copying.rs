//! Copying directories of the file system. What `git` lists is made up.

use release_plz_core::copy_dir::{
    destination_path, is_walked, walk_rules, CopyAction, CopyEvent, DirCopy, DirectoryAction,
    DirectoryCopy, DirectoryEvent, Walk,
};
use release_plz_core::copy_entry::{
    relocated_link, CopyError, CopyJob, EntryAction, EntryCopy, EntryEvent, FailureKind, FileKind,
};
use release_plz_core::copy_tracked::{
    ancestors_to_check, list_arguments, TrackedAction, TrackedCopy, TrackedEvent,
};
use release_plz_core::next_ver::new_manifest_dir_path;
use std::io::ErrorKind;
use std::path::{Path, PathBuf};

/// The mode and the path of each tracked entry of a repository.
type Index<'a> = &'a dyn Fn(&str) -> Vec<(&'static str, String)>;

const FILE: &str = "100644";
const LINK: &str = "120000";
const SUBMODULE: &str = "160000";

fn listing(entries: &[(&'static str, String)]) -> Vec<u8> {
    let mut bytes = vec![];
    for (mode, path) in entries {
        bytes.extend(format!("{mode} 0123456789abcdef 0\t{path}\0").bytes());
    }
    bytes
}

fn symlink(original: impl AsRef<Path>, link: impl AsRef<Path>) -> Result<(), ErrorKind> {
    fs_err::os::unix::fs::symlink(original.as_ref(), link.as_ref()).map_err(|e| e.kind())
}

fn failure(kind: ErrorKind) -> FailureKind {
    match kind {
        ErrorKind::NotFound => FailureKind::NotFound,
        ErrorKind::NotADirectory => FailureKind::NotADirectory,
        _ => FailureKind::Other,
    }
}

fn inspect(path: &str) -> Result<FileKind, FailureKind> {
    let kind = fs_err::symlink_metadata(path).map_err(|e| failure(e.kind()))?.file_type();
    Ok(if kind.is_dir() {
        FileKind::Dir
    } else if kind.is_symlink() {
        FileKind::Symlink
    } else if kind.is_file() {
        FileKind::File
    } else {
        FileKind::Other
    })
}

fn copy_entry(job: CopyJob<String>, kind: FileKind) -> Result<(), CopyError<String>> {
    let (mut copy, mut action) = EntryCopy::<String>::start(job, kind);
    loop {
        let done = match action {
            EntryAction::CreateDirAll(path) => fs_err::create_dir_all(path).map_err(|e| e.kind()),
            EntryAction::CreateSymlink { original, link } => symlink(original, link),
            EntryAction::CopyFile { source, destination } => {
                fs_err::copy(source, destination).map(|_| ()).map_err(|e| e.kind())
            }
            EntryAction::ReadLink(path) => {
                let target = fs_err::read_link(path).unwrap();
                let event = EntryEvent::Link(target.to_str().unwrap().to_string());
                (copy, action) = copy.step(event);
                continue;
            }
            EntryAction::Finish(result) => return result,
        };
        let event = match done {
            Ok(()) => EntryEvent::Done,
            Err(kind) => EntryEvent::Failed(failure(kind)),
        };
        (copy, action) = copy.step(event);
    }
}

fn copy_tracked(job: CopyJob<String>, index: Index) -> Result<(), CopyError<String>> {
    let (mut copy, mut action) =
        TrackedCopy::start(&job.source, &job.destination, &job.root_from, &job.root_to);
    loop {
        let event = match action {
            TrackedAction::Probe(path) => TrackedEvent::Exists(Path::new(&path).try_exists().ok()),
            TrackedAction::List(directory) => TrackedEvent::Listed {
                success: true,
                stdout: listing(&index(&directory)),
                stderr: vec![],
            },
            TrackedAction::CheckSymlink(path) => TrackedEvent::Symlink(Path::new(&path).is_symlink()),
            TrackedAction::Inspect(path) => match inspect(&path) {
                Ok(kind) => TrackedEvent::Found(kind),
                Err(kind) => TrackedEvent::NotFound(kind),
            },
            TrackedAction::CreateDirAll(path) => {
                TrackedEvent::Created(fs_err::create_dir_all(path).is_ok())
            }
            TrackedAction::CopyTracked(job) => TrackedEvent::Copied(copy_tracked(job, index)),
            TrackedAction::CopyDirectory(job) => TrackedEvent::Copied(copy_directory(job, index)),
            TrackedAction::CopyEntry(job, kind) => TrackedEvent::Copied(copy_entry(job, kind)),
            TrackedAction::Finish(result) => return result,
        };
        (copy, action) = copy.step(event);
    }
}

fn walker(root: &Path, walk: Walk) -> ignore::Walk {
    let rules = walk_rules(walk);
    ignore::WalkBuilder::new(root)
        .hidden(rules.hidden)
        .ignore(rules.ignore)
        .parents(rules.parents)
        .git_ignore(rules.git_ignore)
        .git_global(rules.git_global)
        .git_exclude(rules.git_exclude)
        .filter_entry(move |entry| {
            entry.file_name().to_str().map_or(true, |name| is_walked(walk, entry.depth(), name))
        })
        .build()
}

fn copy_directory(job: CopyJob<String>, index: Index) -> Result<(), CopyError<String>> {
    let git = Path::new(&job.source).join(".git");
    let mut files = walker(Path::new(&job.source), Walk::Files);
    let mut metadata = walker(&git, Walk::GitMetadata);
    let (mut copy, mut action) = DirectoryCopy::<String>::start(job);
    loop {
        let event = match action {
            DirectoryAction::Probe(path) => {
                DirectoryEvent::Exists(Path::new(&path).try_exists().ok())
            }
            DirectoryAction::CheckSymlink(path) => {
                DirectoryEvent::Symlink(Path::new(&path).is_symlink())
            }
            DirectoryAction::NextEntry(walk) => {
                let entry = match walk {
                    Walk::Files => files.next(),
                    Walk::GitMetadata => metadata.next(),
                };
                match entry {
                    None => DirectoryEvent::End,
                    Some(Err(_)) => DirectoryEvent::InvalidEntry,
                    Some(Ok(entry)) => {
                        let path = entry.path().to_str().unwrap().to_string();
                        let kind = inspect(&path).ok();
                        DirectoryEvent::Entry { path: Some(path), kind }
                    }
                }
            }
            DirectoryAction::CopyEntry(job, kind) => DirectoryEvent::Copied(copy_entry(job, kind)),
            DirectoryAction::CopyTracked(job) => DirectoryEvent::Copied(copy_tracked(job, index)),
            DirectoryAction::Finish(result) => return result,
        };
        (copy, action) = copy.step(event);
    }
}

fn copy_dir(from: &Path, to: &Path, index: Index) -> Result<(), CopyError<String>> {
    let (mut copy, mut action) =
        DirCopy::<String>::start(from.to_str().unwrap(), to.to_str().unwrap());
    loop {
        let event = match action {
            CopyAction::CheckDirectory(path) => CopyEvent::Answer(Path::new(&path).is_dir()),
            CopyAction::Probe(path) => CopyEvent::Answer(Path::new(&path).exists()),
            CopyAction::CreateDirAll(path) => {
                CopyEvent::Created(fs_err::create_dir_all(path).is_ok())
            }
            CopyAction::CopyDirectory(job) => CopyEvent::Copied(copy_directory(job, index)),
            CopyAction::Finish(result) => return result,
        };
        (copy, action) = copy.step(event);
    }
}

/// A directory with what `git` would keep in a repository.
fn new_repo(directory: &Path) {
    fs_err::create_dir_all(directory.join(".git/refs/tags")).unwrap();
    fs_err::create_dir_all(directory.join(".git/info")).unwrap();
    fs_err::create_dir_all(directory.join(".git/objects/ab")).unwrap();
    fs_err::write(directory.join(".git/HEAD"), "ref: refs/heads/main\n").unwrap();
    fs_err::write(directory.join(".git/config"), "[core]\n").unwrap();
    fs_err::write(directory.join(".git/index"), "index").unwrap();
    fs_err::write(directory.join(".git/packed-refs"), "packed v0.1.0\n").unwrap();
    fs_err::write(directory.join(".git/refs/tags/v0.2.0"), "0123\n").unwrap();
    fs_err::write(directory.join(".git/objects/ab/cd"), [0u8, 159, 146]).unwrap();
    fs_err::write(directory.join("README.md"), "readme\n").unwrap();
}

fn read(path: PathBuf) -> String {
    fs_err::read_to_string(path).unwrap()
}

fn files(paths: &[&str]) -> Vec<(&'static str, String)> {
    paths.iter().map(|path| (FILE, path.to_string())).collect()
}

#[test]
fn ignored_tracked_paths_preserve_whitespace() {
    let source = tempfile::tempdir().unwrap();
    let repo_dir = source.path().join("repo");
    new_repo(&repo_dir);
    let paths = [" leading\tfile\n.txt", "trailing "];
    for path in paths {
        fs_err::write(repo_dir.join(path), "tracked contents").unwrap();
    }
    fs_err::write(repo_dir.join(".gitignore"), "*\n").unwrap();

    let destination = tempfile::tempdir().unwrap();
    copy_dir(&repo_dir, destination.path(), &|_| {
        files(&[" leading\tfile\n.txt", ".gitignore", "README.md", "trailing "])
    })
    .unwrap();
    let copied_dir = destination.path().join("repo");
    for path in paths {
        assert_eq!(read(copied_dir.join(path)), "tracked contents");
    }
    assert_eq!(read(copied_dir.join(".gitignore")), "*\n");
    assert_eq!(read(copied_dir.join("README.md")), "readme\n");
}

#[test]
fn tracked_files_are_copied_with_split_and_sparse_indexes() {
    for sparse in [false, true] {
        let source = tempfile::tempdir().unwrap();
        let repo_dir = source.path().join("repo");
        new_repo(&repo_dir);
        fs_err::create_dir(repo_dir.join("examples")).unwrap();
        fs_err::write(repo_dir.join("examples/Cargo.lock"), "tracked lockfile").unwrap();
        if !sparse {
            fs_err::create_dir(repo_dir.join("excluded")).unwrap();
            fs_err::write(repo_dir.join("excluded/tracked.txt"), "excluded contents").unwrap();
        }
        fs_err::write(repo_dir.join(".gitignore"), "examples/\n").unwrap();
        fs_err::write(repo_dir.join("examples/untracked"), "ignored").unwrap();

        let destination = tempfile::tempdir().unwrap();
        copy_dir(&repo_dir, destination.path(), &|_| {
            files(&[".gitignore", "README.md", "examples/Cargo.lock", "excluded/tracked.txt"])
        })
        .unwrap();
        let copied_dir = destination.path().join("repo");
        assert_eq!(read(copied_dir.join("examples/Cargo.lock")), "tracked lockfile");
        assert!(!copied_dir.join("examples/untracked").exists());
        assert_eq!(copied_dir.join("excluded").exists(), !sparse);
    }
}

#[test]
fn ignored_symlink_ancestors_preserve_tracked_deletions() {
    let source = tempfile::tempdir().unwrap();
    let repo_dir = source.path().join("repo");
    new_repo(&repo_dir);
    fs_err::write(repo_dir.join(".gitignore"), "examples\n").unwrap();
    let external_dir = source.path().join("external");
    fs_err::create_dir_all(external_dir.join("nested")).unwrap();
    fs_err::write(external_dir.join("nested/tracked.txt"), "external contents").unwrap();
    symlink("../external", repo_dir.join("examples")).unwrap();

    let destination = tempfile::tempdir().unwrap();
    copy_dir(&repo_dir, destination.path(), &|_| {
        files(&[".gitignore", "examples/nested/tracked.txt"])
    })
    .unwrap();
    assert!(!destination.path().join("repo/examples").exists());
}

#[test]
fn tracked_files_are_copied_despite_ignore_rules() {
    for (ignore_file, pattern) in [
        (".gitignore", "Cargo.lock"),
        (".gitignore", "examples/"),
        (".git/info/exclude", "examples/"),
    ] {
        let source = tempfile::tempdir().unwrap();
        let repo_dir = source.path().join("repo");
        new_repo(&repo_dir);
        fs_err::create_dir(repo_dir.join("examples")).unwrap();
        for path in ["examples/Cargo.lock", "examples/space and [brackets].txt"] {
            fs_err::write(repo_dir.join(path), "tracked contents").unwrap();
        }
        fs_err::write(repo_dir.join(ignore_file), format!("{pattern}\ntarget/\n")).unwrap();
        fs_err::create_dir(repo_dir.join("target")).unwrap();
        fs_err::write(repo_dir.join("target/output"), "ignored").unwrap();
        fs_err::create_dir(repo_dir.join("examples/untracked")).unwrap();
        fs_err::write(repo_dir.join("examples/untracked/Cargo.lock"), "ignored").unwrap();

        let destination = tempfile::tempdir().unwrap();
        copy_dir(&repo_dir, destination.path(), &|_| {
            files(&["README.md", "examples/Cargo.lock", "examples/space and [brackets].txt"])
        })
        .unwrap();
        let copied_dir = destination.path().join("repo");
        for path in ["examples/Cargo.lock", "examples/space and [brackets].txt"] {
            assert_eq!(read(copied_dir.join(path)), "tracked contents");
        }
        assert!(!copied_dir.join("target").exists());
        assert!(!copied_dir.join("examples/untracked/Cargo.lock").exists());
    }
}

#[test]
fn ignored_tracked_files_preserve_working_tree_changes() {
    let source = tempfile::tempdir().unwrap();
    let repo_dir = source.path().join("repo");
    new_repo(&repo_dir);
    fs_err::create_dir(repo_dir.join("examples")).unwrap();
    symlink("missing", repo_dir.join("examples/link")).unwrap();
    fs_err::write(repo_dir.join(".gitignore"), "examples/\n").unwrap();
    fs_err::write(repo_dir.join("examples/Cargo.lock"), "modified").unwrap();
    fs_err::write(repo_dir.join("examples/staged"), "modified after staging").unwrap();

    let destination = tempfile::tempdir().unwrap();
    copy_dir(&repo_dir, destination.path(), &|_| {
        let mut index = files(&["examples/Cargo.lock", "examples/deleted", "examples/staged"]);
        index.push((LINK, "examples/link".to_string()));
        index
    })
    .unwrap();
    let copied_dir = destination.path().join("repo");
    assert_eq!(read(copied_dir.join("examples/Cargo.lock")), "modified");
    assert_eq!(read(copied_dir.join("examples/staged")), "modified after staging");
    assert!(!copied_dir.join("examples/deleted").exists());
    assert_eq!(fs_err::read_link(copied_dir.join("examples/link")).unwrap(), Path::new("missing"));
}

#[test]
fn tracked_directory_replaced_by_file_is_copied() {
    let source = tempfile::tempdir().unwrap();
    let repo_dir = source.path().join("repo");
    new_repo(&repo_dir);
    fs_err::write(repo_dir.join("examples"), "replacement").unwrap();

    let destination = tempfile::tempdir().unwrap();
    copy_dir(&repo_dir, destination.path(), &|_| files(&["examples/tracked.txt"])).unwrap();
    assert_eq!(read(destination.path().join("repo/examples")), "replacement");
}

#[test]
fn ignored_tracked_file_replaced_by_directory_preserves_deletion() {
    let source = tempfile::tempdir().unwrap();
    let repo_dir = source.path().join("repo");
    new_repo(&repo_dir);
    fs_err::write(repo_dir.join(".gitignore"), "generated\n").unwrap();
    fs_err::create_dir(repo_dir.join("generated")).unwrap();
    fs_err::write(repo_dir.join("generated/untracked"), "ignored").unwrap();
    let external_file = source.path().join("external");
    fs_err::write(&external_file, "external contents").unwrap();
    symlink(&external_file, repo_dir.join("generated/link")).unwrap();

    let destination = tempfile::tempdir().unwrap();
    copy_dir(&repo_dir, destination.path(), &|_| files(&[".gitignore", "generated"])).unwrap();
    assert!(!destination.path().join("repo/generated").exists());
}

#[test]
fn file_deleted_during_copy_is_ignored() {
    let source = tempfile::tempdir().unwrap();
    let source_file = source.path().join("transient.lock");
    fs_err::write(&source_file, "lock").unwrap();
    let kind = inspect(source_file.to_str().unwrap()).unwrap();
    fs_err::remove_file(&source_file).unwrap();

    let destination = tempfile::tempdir().unwrap();
    let destination_file = destination.path().join("transient.lock");
    copy_entry(
        CopyJob {
            root_from: source.path().to_str().unwrap().to_string(),
            root_to: destination.path().to_str().unwrap().to_string(),
            source: source_file.to_str().unwrap().to_string(),
            destination: destination_file.to_str().unwrap().to_string(),
        },
        kind,
    )
    .unwrap();

    assert!(!destination_file.exists());
}

#[test]
fn ignored_tracked_submodule_files_are_copied() {
    for pattern in ["", "examples/\n"] {
        let source = tempfile::tempdir().unwrap();
        let repo_dir = source.path().join("repo");
        new_repo(&repo_dir);
        let examples = repo_dir.join("examples");
        fs_err::create_dir(&examples).unwrap();
        fs_err::write(examples.join(".git"), "gitdir: ../.git/modules/examples\n").unwrap();
        fs_err::write(examples.join("Cargo.lock"), "tracked lockfile").unwrap();
        symlink("missing", examples.join("link")).unwrap();
        fs_err::write(examples.join(".gitignore"), "Cargo.lock\ntarget/\n").unwrap();
        fs_err::write(repo_dir.join(".gitignore"), pattern).unwrap();
        fs_err::create_dir(examples.join("target")).unwrap();
        fs_err::write(examples.join("target/output"), "ignored").unwrap();

        let destination = tempfile::tempdir().unwrap();
        copy_dir(&repo_dir, destination.path(), &|directory| {
            if directory.ends_with("examples") {
                let mut index = files(&[".gitignore", "Cargo.lock"]);
                index.push((LINK, "link".to_string()));
                index
            } else {
                let mut index = files(&[".gitignore"]);
                index.push((SUBMODULE, "examples".to_string()));
                index
            }
        })
        .unwrap();
        let copied_dir = destination.path().join("repo");
        assert_eq!(read(copied_dir.join("examples/Cargo.lock")), "tracked lockfile");
        assert_eq!(fs_err::read_link(copied_dir.join("examples/link")).unwrap(), Path::new("missing"));
        assert!(!copied_dir.join("examples/target").exists());
        assert!(copied_dir.join("examples/.git").exists());
    }
}

#[test]
fn submodule_absolute_symlinks_preserve_outer_copy_root() {
    for (repo_ignore, submodule_ignore) in
        [("", "link\n"), ("examples/\n", "link\n"), ("examples/\n", "")]
    {
        let source = tempfile::tempdir().unwrap();
        let repo_dir = source.path().join("repo");
        new_repo(&repo_dir);
        fs_err::write(repo_dir.join("shared"), "shared contents").unwrap();
        let examples = repo_dir.join("examples");
        fs_err::create_dir(&examples).unwrap();
        fs_err::write(examples.join(".git"), "gitdir: ../.git/modules/examples\n").unwrap();
        symlink(repo_dir.join("shared"), examples.join("link")).unwrap();
        fs_err::write(examples.join(".gitignore"), submodule_ignore).unwrap();
        fs_err::write(repo_dir.join(".gitignore"), repo_ignore).unwrap();

        let destination = tempfile::tempdir().unwrap();
        copy_dir(&repo_dir, destination.path(), &|directory| {
            if directory.ends_with("examples") {
                vec![(FILE, ".gitignore".to_string()), (LINK, "link".to_string())]
            } else {
                vec![(SUBMODULE, "examples".to_string()), (FILE, "shared".to_string())]
            }
        })
        .unwrap();
        let copied_dir = destination.path().join("repo");
        let copied_link = copied_dir.join("examples/link");
        assert_eq!(fs_err::read_link(&copied_link).unwrap(), copied_dir.join("shared"));
        assert_eq!(read(copied_link), "shared contents");
    }
}

#[test]
fn git_metadata_is_copied_despite_ignore_rules() {
    for patterns in [
        "tags",
        "tags\nlogs\nconfig\nindex\nobjects\ninfo\nhooks\ndescription\nrefs\nHEAD\npacked-refs",
        ".git\ntags",
    ] {
        let source = tempfile::tempdir().unwrap();
        let repo_dir = source.path().join("repo");
        new_repo(&repo_dir);
        fs_err::write(repo_dir.join(".gitignore"), format!("{patterns}\ntarget\n")).unwrap();
        fs_err::write(repo_dir.join("tags"), "ctags index").unwrap();
        fs_err::create_dir(repo_dir.join("target")).unwrap();
        fs_err::write(repo_dir.join("target/build-output"), "ignored").unwrap();

        let destination = tempfile::tempdir().unwrap();
        copy_dir(&repo_dir, destination.path(), &|_| files(&["README.md"])).unwrap();
        let copied_dir = destination.path().join("repo");
        // Every metadata file must survive, including the index, config and objects.
        let all = ignore::WalkBuilder::new(repo_dir.join(".git")).standard_filters(false).build();
        for entry in all {
            let entry = entry.unwrap();
            let relative = entry.path().strip_prefix(&repo_dir).unwrap();
            let copied = copied_dir.join(relative);
            if entry.path().is_dir() {
                assert!(copied.is_dir(), "missing {copied:?} with {patterns}");
            } else {
                assert_eq!(fs_err::read(entry.path()).unwrap(), fs_err::read(copied).unwrap());
            }
        }
        assert!(copied_dir.join("README.md").exists());
        assert!(copied_dir.join(".gitignore").exists());
        assert!(!copied_dir.join("tags").exists());
        assert!(!copied_dir.join("target").exists());
    }
}

#[test]
fn git_file_is_copied_despite_ignore_rules() {
    let source = tempfile::tempdir().unwrap();
    let repo_dir = source.path().join("repo");
    fs_err::create_dir(&repo_dir).unwrap();
    fs_err::write(repo_dir.join(".git"), "gitdir: ../git-metadata\n").unwrap();
    fs_err::write(repo_dir.join(".gitignore"), ".git\n").unwrap();

    let destination = tempfile::tempdir().unwrap();
    copy_dir(&repo_dir, destination.path(), &|_| vec![]).unwrap();
    assert_eq!(
        fs_err::read(destination.path().join("repo/.git")).unwrap(),
        fs_err::read(repo_dir.join(".git")).unwrap()
    );
}

#[test]
fn is_dir_copied_correctly() {
    let temp = tempfile::tempdir().unwrap();
    let subdir = "subdir";
    let subdir_path = temp.path().join(subdir);
    fs_err::create_dir(&subdir_path).unwrap();

    let file1 = subdir_path.join("file1");
    fs_err::write(&file1, "aaa").unwrap();
    let file2 = subdir_path.join("file2");
    symlink(&file1, file2).unwrap();

    let temp2 = tempfile::tempdir().unwrap();
    copy_dir(&subdir_path, temp2.path(), &|_| panic!("not a repository")).unwrap();
    let temp2_subdir = temp2.path().join(subdir);
    let new_file2 = temp2_subdir.join("file2");
    assert!(fs_err::symlink_metadata(&new_file2).unwrap().is_symlink());
    let link_target = fs_err::read_link(new_file2).unwrap();
    let file1_dest = temp2.path().join(subdir).join("file1");
    assert!(file1_dest.exists());
    assert_eq!(link_target, file1_dest);
}

#[test]
fn only_directories_with_a_name_are_copied() {
    let temp = tempfile::tempdir().unwrap();
    let file = temp.path().join("file");
    fs_err::write(&file, "").unwrap();
    match copy_dir(&file, temp.path(), &|_| vec![]) {
        Err(CopyError::NotADirectory(path)) => assert_eq!(path, file.to_str().unwrap()),
        other => panic!("{other:?}"),
    }
    // A path without components has no name.
    let (copy, action) = DirCopy::<String>::start("", "/to");
    assert!(matches!(action, CopyAction::CheckDirectory(path) if path.is_empty()));
    let (_, action) = copy.step(CopyEvent::Answer(true));
    assert!(matches!(action, CopyAction::Finish(Err(CopyError::InvalidPath(path))) if path.is_empty()));
}

#[test]
fn target_is_created_only_where_it_is_missing() {
    for exists in [false, true] {
        let (copy, _) = DirCopy::<String>::start("/from/dir", "/to");
        let (copy, action) = copy.step(CopyEvent::Answer(true));
        assert!(matches!(action, CopyAction::Probe(path) if path == "/to/dir"));
        let (mut copy, mut action) = copy.step(CopyEvent::Answer(exists));
        if !exists {
            assert!(matches!(action, CopyAction::CreateDirAll(path) if path == "/to/dir"));
            (copy, action) = copy.step(CopyEvent::Created(true));
        }
        match action {
            CopyAction::CopyDirectory(job) => {
                assert_eq!((job.root_from.as_str(), job.root_to.as_str()), ("/from/dir", "/to/dir"));
                assert_eq!((job.source.as_str(), job.destination.as_str()), ("/from/dir", "/to/dir"));
            }
            other => panic!("{other:?}"),
        }
        let (_, action) = copy.step(CopyEvent::Copied(Ok(())));
        assert!(matches!(action, CopyAction::Finish(Ok(()))));
    }
    let (copy, _) = DirCopy::<String>::start("/from/dir", "/to");
    let copy = copy.step(CopyEvent::Answer(true)).0.step(CopyEvent::Answer(false)).0;
    let (_, action) = copy.step(CopyEvent::Created(false));
    assert!(matches!(action, CopyAction::Finish(Err(CopyError::NotCreated(path))) if path == "/to/dir"));
}

fn job() -> CopyJob<String> {
    CopyJob {
        root_from: "/from".to_string(),
        root_to: "/to".to_string(),
        source: "/from/dir".to_string(),
        destination: "/to/dir".to_string(),
    }
}

#[test]
fn walks_fail_at_the_first_entry_that_cannot_be_copied() {
    let walking = || {
        let (copy, action) = DirectoryCopy::<String>::start(job());
        assert!(matches!(action, DirectoryAction::Probe(path) if path == "/from/dir/.git"));
        let (copy, action) = copy.step(DirectoryEvent::Exists(Some(true)));
        assert!(matches!(action, DirectoryAction::NextEntry(Walk::Files)));
        copy
    };
    let entry = |path: Option<&str>, kind| DirectoryEvent::Entry {
        path: path.map(|path| path.to_string()),
        kind,
    };
    let (_, action) = walking().step(entry(None, Some(FileKind::File)));
    assert!(matches!(action, DirectoryAction::Finish(Err(CopyError::EntryNotUtf8))));
    let (_, action) = walking().step(entry(Some("/from/dir/file"), None));
    assert!(matches!(action, DirectoryAction::Finish(Err(CopyError::UnknownFileType(path))) if path == "/from/dir/file"));
    let (_, action) = walking().step(entry(Some("/other/file"), Some(FileKind::File)));
    assert!(matches!(action, DirectoryAction::Finish(Err(CopyError::EntryOutside { path, root })) if path == "/other/file" && root == "/from/dir"));
    let (_, action) = walking().step(DirectoryEvent::InvalidEntry);
    assert!(matches!(action, DirectoryAction::Finish(Err(CopyError::InvalidEntry))));
    let (copy, action) = walking().step(entry(Some("/from/dir/a/b"), Some(FileKind::File)));
    match action {
        DirectoryAction::CopyEntry(job, FileKind::File) => {
            assert_eq!((job.root_from.as_str(), job.root_to.as_str()), ("/from", "/to"));
            assert_eq!((job.source.as_str(), job.destination.as_str()), ("/from/dir/a/b", "/to/dir/a/b"));
        }
        other => panic!("{other:?}"),
    }
    let (_, action) = copy.step(DirectoryEvent::Copied(Err(CopyError::EntryNotUtf8)));
    assert!(matches!(action, DirectoryAction::Finish(Err(CopyError::EntryNotUtf8))));
}

#[test]
fn git_metadata_and_tracked_files_come_after_the_files() {
    let (copy, _) = DirectoryCopy::<String>::start(job());
    let (copy, action) = copy.step(DirectoryEvent::Exists(Some(false)));
    assert!(matches!(action, DirectoryAction::CheckSymlink(path) if path == "/from/dir/.git"));
    let (copy, action) = copy.step(DirectoryEvent::Symlink(true));
    assert!(matches!(action, DirectoryAction::NextEntry(Walk::Files)));
    let (copy, action) = copy.step(DirectoryEvent::End);
    assert!(matches!(action, DirectoryAction::NextEntry(Walk::GitMetadata)));
    let (copy, action) = copy.step(DirectoryEvent::End);
    assert!(matches!(action, DirectoryAction::CopyTracked(_)));
    let (_, action) = copy.step(DirectoryEvent::Copied(Ok(())));
    assert!(matches!(action, DirectoryAction::Finish(Ok(()))));

    let (copy, _) = DirectoryCopy::<String>::start(job());
    let (_, action) = copy.step(DirectoryEvent::Exists(None));
    assert!(matches!(action, DirectoryAction::Finish(Err(CopyError::NotInspected(path))) if path == "/from/dir/.git"));
}

#[test]
fn only_the_git_directory_of_the_root_is_walked_apart() {
    assert!(!is_walked(Walk::Files, 1, ".git"));
    assert!(is_walked(Walk::Files, 2, ".git"));
    assert!(is_walked(Walk::Files, 0, ".git"));
    assert!(is_walked(Walk::Files, 1, ".github"));
    assert!(is_walked(Walk::GitMetadata, 1, ".git"));
}

#[test]
fn destinations_are_below_the_copy() {
    assert_eq!(destination_path("/to", "/from/a/b", "/from").unwrap(), "/to/a/b");
    assert_eq!(destination_path("/to", "/from", "/from").unwrap(), "/to/");
    assert_eq!(destination_path("/to", "/fromage", "/from"), None);
}

#[test]
fn links_keep_pointing_into_the_copy() {
    assert_eq!(relocated_link("/from", "/to", "../a").unwrap(), "../a");
    assert_eq!(relocated_link("/from", "/to", "/from/a/b").unwrap(), "/to/a/b");
    assert_eq!(relocated_link("/from", "/to", "/elsewhere"), None);
}

#[test]
fn entries_report_what_failed() {
    let start = |kind| EntryCopy::<String>::start(job(), kind);
    let failed = || EntryEvent::Failed(FailureKind::Other);

    let (copy, action) = start(FileKind::Dir);
    assert!(matches!(action, EntryAction::CreateDirAll(path) if path == "/to/dir"));
    let (_, action) = copy.step(failed());
    assert!(matches!(action, EntryAction::Finish(Err(CopyError::NotCreated(path))) if path == "/to/dir"));

    let (copy, action) = start(FileKind::Symlink);
    assert!(matches!(action, EntryAction::ReadLink(path) if path == "/from/dir"));
    let (_, action) = copy.step(failed());
    assert!(matches!(action, EntryAction::Finish(Err(CopyError::LinkNotRead(path))) if path == "/from/dir"));

    let (copy, _) = start(FileKind::Symlink);
    let (_, action) = copy.step(EntryEvent::Link("/etc".to_string()));
    assert!(matches!(action, EntryAction::Finish(Err(CopyError::LinkOutside { path, root })) if path == "/etc" && root == "/from"));

    let (copy, _) = start(FileKind::Symlink);
    let (copy, action) = copy.step(EntryEvent::Link("/from/x".to_string()));
    assert!(matches!(action, EntryAction::CreateSymlink { original, link } if original == "/to/x" && link == "/to/dir"));
    let (_, action) = copy.step(failed());
    assert!(matches!(action, EntryAction::Finish(Err(CopyError::LinkNotCreated { original, link })) if original == "/to/x" && link == "/to/dir"));

    let (copy, action) = start(FileKind::File);
    assert!(matches!(action, EntryAction::CopyFile { source, destination } if source == "/from/dir" && destination == "/to/dir"));
    let (_, action) = copy.step(failed());
    assert!(matches!(action, EntryAction::Finish(Err(CopyError::NotCopied { source, destination })) if source == "/from/dir" && destination == "/to/dir"));

    // Neither the root nor a device is created.
    let (_, action) = start(FileKind::Other);
    assert!(matches!(action, EntryAction::Finish(Ok(()))));
    let root = CopyJob { destination: "/to/".to_string(), ..job() };
    let (_, action) = EntryCopy::<String>::start(root, FileKind::Dir);
    assert!(matches!(action, EntryAction::Finish(Ok(()))));
}

fn listed(stdout: &[u8]) -> (TrackedCopy, TrackedAction<String>) {
    let (copy, action) = TrackedCopy::start("/from", "/to", "/from", "/to");
    assert!(matches!(action, TrackedAction::Probe(path) if path == "/from/.git"));
    let (copy, action) = copy.step(TrackedEvent::Exists(Some(true)));
    assert!(matches!(action, TrackedAction::List(path) if path == "/from"));
    copy.step(TrackedEvent::Listed { success: true, stdout: stdout.to_vec(), stderr: vec![] })
}

#[test]
fn tracked_files_report_what_failed() {
    let start = || TrackedCopy::start("/from", "/to", "/from", "/to").0;
    let (_, action) = start().step(TrackedEvent::Exists(None));
    assert!(matches!(action, TrackedAction::Finish(Err(CopyError::NotInspected(path))) if path == "/from/.git"));
    let (_, action) = start().step(TrackedEvent::Exists(Some(false)));
    assert!(matches!(action, TrackedAction::Finish(Ok(()))));
    let listing = || start().step(TrackedEvent::Exists(Some(true))).0;
    let (_, action) = listing().step(TrackedEvent::NotListed);
    assert!(matches!(action, TrackedAction::Finish(Err(CopyError::NotListed(path))) if path == "/from"));
    let (_, action) = listing().step(TrackedEvent::Listed {
        success: false,
        stdout: vec![],
        stderr: vec![b'b', 255, b'd'],
    });
    match action {
        TrackedAction::Finish(Err(CopyError::ListFailed { directory, message })) => {
            assert_eq!((directory.as_str(), message.as_str()), ("/from", "b\u{fffd}d"));
        }
        other => panic!("{other:?}"),
    }
    let (_, action) = listed(&[b'1', b'\t', 255, 0]);
    assert!(matches!(action, TrackedAction::Finish(Err(CopyError::ListNotUtf8))));
    let (_, action) = listed(b"100644 0 0 no tab\0");
    assert!(matches!(action, TrackedAction::Finish(Err(CopyError::NoPathSeparator(entry))) if entry == "100644 0 0 no tab"));
    let (_, action) = listed(b"");
    assert!(matches!(action, TrackedAction::Finish(Ok(()))));

    let (copy, action) = listed(b"100644 0 0\tfile\0");
    assert!(matches!(action, TrackedAction::Inspect(path) if path == "/from/file"));
    let (_, action) = copy.step(TrackedEvent::NotFound(FailureKind::Other));
    assert!(matches!(action, TrackedAction::Finish(Err(CopyError::NotInspected(path))) if path == "/from/file"));
    let at_destination = || listed(b"100644 0 0\tfile\0").0.step(TrackedEvent::Found(FileKind::File));
    let (copy, action) = at_destination();
    assert!(matches!(action, TrackedAction::Inspect(path) if path == "/to/file"));
    let (_, action) = copy.step(TrackedEvent::NotFound(FailureKind::NotADirectory));
    assert!(matches!(action, TrackedAction::Finish(Err(CopyError::NotInspected(path))) if path == "/to/file"));
    let (copy, action) = at_destination().0.step(TrackedEvent::NotFound(FailureKind::NotFound));
    assert!(matches!(action, TrackedAction::CreateDirAll(path) if path == "/to"));
    let (_, action) = copy.step(TrackedEvent::Created(false));
    assert!(matches!(action, TrackedAction::Finish(Err(CopyError::NotCreated(path))) if path == "/to"));
    let (_, action) = at_destination().0.step(TrackedEvent::Found(FileKind::File));
    assert!(matches!(action, TrackedAction::Finish(Ok(()))));
}

#[test]
fn submodules_report_what_failed() {
    let probing = || listed(b"160000 0 0\tsub\0").0.step(TrackedEvent::Found(FileKind::Dir));
    let (copy, action) = probing();
    assert!(matches!(action, TrackedAction::Probe(path) if path == "/to/sub"));
    let (_, action) = copy.step(TrackedEvent::Exists(None));
    assert!(matches!(action, TrackedAction::Finish(Err(CopyError::NotInspected(path))) if path == "/to/sub"));
    let (copy, action) = probing().0.step(TrackedEvent::Exists(Some(false)));
    assert!(matches!(action, TrackedAction::CreateDirAll(path) if path == "/to/sub"));
    let (_, action) = copy.step(TrackedEvent::Created(false));
    assert!(matches!(action, TrackedAction::Finish(Err(CopyError::NotCreated(path))) if path == "/to/sub"));
    let (copy, action) = probing().0.step(TrackedEvent::Exists(Some(true)));
    assert!(matches!(action, TrackedAction::CopyTracked(job) if job.source == "/from/sub" && job.root_from == "/from"));
    let (_, action) = copy.step(TrackedEvent::Copied(Err(CopyError::ListNotUtf8)));
    assert!(matches!(action, TrackedAction::Finish(Err(CopyError::ListNotUtf8))));
}

#[test]
fn ancestors_with_a_name_are_checked() {
    assert_eq!(ancestors_to_check("a/b/c.txt"), ["a/b", "a"]);
    assert!(ancestors_to_check("c.txt").is_empty());
    assert_eq!(ancestors_to_check("/a/b"), ["/a", "/"]);
    let (copy, action) = listed(b"100644 0 0\ta/b/c\0");
    assert!(matches!(action, TrackedAction::CheckSymlink(path) if path == "/from/a/b"));
    let (copy, action) = copy.step(TrackedEvent::Symlink(false));
    assert!(matches!(action, TrackedAction::CheckSymlink(path) if path == "/from/a"));
    let (_, action) = copy.step(TrackedEvent::Symlink(true));
    assert!(matches!(action, TrackedAction::Finish(Ok(()))));
}

#[test]
fn index_is_listed_with_stages_and_nul() {
    assert_eq!(list_arguments(), ["--git-dir=.git", "ls-files", "--stage", "-z"]);
}

#[test]
fn errors_have_messages() {
    let text = |text: &str| text.to_string();
    for (error, message) in [
        (CopyError::NotADirectory(text("/a")), "not a directory: \"/a\""),
        (CopyError::InvalidPath(text("")), "invalid path \"\""),
        (CopyError::LinkNotRead(text("/a")), "cannot read link \"/a\""),
        (
            CopyError::EntryOutside { path: text("/a"), root: text("/b") },
            "failed to determine destination path",
        ),
        (CopyError::EntryNotUtf8, "failed to determine destination path"),
        (
            CopyError::LinkNotCreated { original: text("/a"), link: text("/b") },
            "cannot create symlink \"/a\" -> \"/b\"",
        ),
        (
            CopyError::NotCopied { source: text("/a"), destination: text("/b") },
            "cannot copy file \"/a\" to \"/b\"",
        ),
        (CopyError::InvalidEntry, "invalid entry"),
        (CopyError::UnknownFileType(text("/a")), "unknown file type"),
        (CopyError::NotListed(text("/a")), "cannot list tracked files while copying directory"),
        (
            CopyError::ListFailed { directory: text("/a"), message: text("no") },
            "cannot list tracked files in /a: no",
        ),
        (CopyError::ListNotUtf8, "non-UTF-8 tracked path"),
        (CopyError::NoPathSeparator(text("x")), "tracked entry has no path separator"),
        (CopyError::NoParent(text("x")), "tracked path has no parent"),
    ] {
        assert_eq!(error.message().as_deref(), Some(message));
    }
    // Here what the system says stands alone.
    for error in [
        CopyError::NotCreated(text("/a")),
        CopyError::NotInspected(text("/a")),
        CopyError::LinkOutside { path: text("/a"), root: text("/b") },
    ] {
        assert_eq!(error.message(), None);
    }
}

#[test]
fn files_are_walked_by_the_rules_of_the_repository() {
    let files = walk_rules(Walk::Files);
    assert!(files.parents && files.git_ignore && files.git_exclude && files.root_git);
    assert!(!files.hidden && !files.ignore && !files.git_global);
    let metadata = walk_rules(Walk::GitMetadata);
    assert!(!metadata.hidden && !metadata.ignore && !metadata.parents && !metadata.root_git);
    assert!(!metadata.git_ignore && !metadata.git_global && !metadata.git_exclude);
}

/// The paths below a directory, with their contents or link targets, and when they were changed.
fn snapshot(directory: &Path) -> Vec<String> {
    let mut entries = vec![];
    for entry in fs_err::read_dir(directory).unwrap() {
        let path = entry.unwrap().path();
        let kind = inspect(path.to_str().unwrap()).unwrap();
        let modified = fs_err::symlink_metadata(&path).unwrap().modified().unwrap();
        let content = match kind {
            FileKind::File => format!("{:?}", fs_err::read(&path).unwrap()),
            FileKind::Symlink => format!("{:?}", fs_err::read_link(&path).unwrap()),
            _ => String::new(),
        };
        entries.push(format!("{path:?} {kind:?} {modified:?} {content}"));
        if kind == FileKind::Dir {
            entries.extend(snapshot(&path));
        }
    }
    entries.sort();
    entries
}

#[test]
fn second_copy_of_tracked_files_changes_nothing() {
    let source = tempfile::tempdir().unwrap();
    let repo_dir = source.path().join("repo");
    new_repo(&repo_dir);
    new_repo(&repo_dir.join("sub"));
    fs_err::create_dir(repo_dir.join("examples")).unwrap();
    fs_err::write(repo_dir.join("examples/a"), "a").unwrap();
    fs_err::write(repo_dir.join("sub/tracked"), "tracked").unwrap();
    symlink("missing", repo_dir.join("examples/link")).unwrap();
    let index = |directory: &str| {
        if directory.ends_with("sub") {
            return files(&["tracked"]);
        }
        // An unmerged path is listed once for each stage.
        let mut index = files(&["examples/a", "examples/a", "examples/deleted"]);
        index.push((LINK, "examples/link".to_string()));
        index.push((SUBMODULE, "sub".to_string()));
        index
    };

    let destination = tempfile::tempdir().unwrap();
    let copied_dir = destination.path().join("repo");
    fs_err::create_dir(&copied_dir).unwrap();
    let text = |path: &Path| path.to_str().unwrap().to_string();
    let copy = || {
        let job = CopyJob {
            root_from: text(&repo_dir),
            root_to: text(&copied_dir),
            source: text(&repo_dir),
            destination: text(&copied_dir),
        };
        copy_tracked(job, &index)
    };
    copy().unwrap();
    assert_eq!(read(copied_dir.join("examples/a")), "a");
    assert_eq!(read(copied_dir.join("sub/tracked")), "tracked");
    let first = snapshot(&copied_dir);
    copy().unwrap();
    assert_eq!(snapshot(&copied_dir), first);

    // What was changed in the copy stays changed.
    fs_err::write(copied_dir.join("examples/a"), "changed").unwrap();
    copy().unwrap();
    assert_eq!(read(copied_dir.join("examples/a")), "changed");
}

#[test]
fn manifest_directory_is_in_the_copy_of_the_project() {
    for (root, dir, to) in [
        ("/home/project", "/home/project/crates/a", "/tmp/copy"),
        ("/home/project/", "/home/./project", "/tmp/copy/"),
        ("/project", "/project//crates/a b/", "/"),
        ("project", "project/a", ""),
    ] {
        let (copy, _) = DirCopy::<String>::start(root, to);
        let (_, action) = copy.step(CopyEvent::Answer(true));
        let target = match action {
            CopyAction::Probe(target) => target,
            other => panic!("{other:?}"),
        };
        let moved = new_manifest_dir_path(root, dir, to).unwrap();
        let entry = Path::new(dir).strip_prefix(root).unwrap();
        assert_eq!(Path::new(&moved), Path::new(&target).join(entry));
        assert_eq!(Path::new(&moved), Path::new(&destination_path(&target, dir, root).unwrap()));
    }
}

#[test]
fn manifest_directory_is_there_after_the_copy() {
    let source = tempfile::tempdir().unwrap();
    let repo_dir = source.path().join("repo");
    new_repo(&repo_dir);
    fs_err::create_dir_all(repo_dir.join("crates/a")).unwrap();
    fs_err::create_dir_all(repo_dir.join("ignored")).unwrap();
    fs_err::write(repo_dir.join(".gitignore"), "ignored\n").unwrap();

    let destination = tempfile::tempdir().unwrap();
    copy_dir(&repo_dir, destination.path(), &|_| vec![]).unwrap();
    let moved = |dir: PathBuf| {
        let text = |path: &Path| path.to_str().unwrap().to_string();
        let path = new_manifest_dir_path(&text(&repo_dir), &text(&dir), &text(destination.path()));
        PathBuf::from(path.unwrap())
    };
    for dir in ["", ".", "crates", "crates/a", "crates//a/"] {
        assert!(moved(repo_dir.join(dir)).is_dir(), "{dir}");
    }
    assert!(!moved(repo_dir.join("ignored")).exists());
}
