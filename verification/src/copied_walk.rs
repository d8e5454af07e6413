//! What the walks of the copy of a directory come to on the file system.

use crate::copy_dir::{
    distance, entry_destination, next_of_walk, DirectoryAction, DirectoryCopy,
    DirectoryEvent, DirectoryStage, Walk,
};
use crate::copy_entry::{CopyJob, FileKind};
use crate::file_system::{
    copied_entry_is_there, copy_entry, entry_copy_keeps, keeping_is_reflexive,
    keeping_is_transitive, FileSystem, Sides,
};
use crate::path::{joined_path, same_path};
use vstd::prelude::*;

verus! {

/// The disk after the walks of the copy of what a directory holds, from a state and its action on,
/// and the action that follows them. The two walks have these entries left.
pub open spec fn run_walks<D>(
    fs: FileSystem<D>,
    disk: D,
    copy: DirectoryCopy<Seq<char>>,
    action: DirectoryAction<Seq<char>>,
    files: Seq<DirectoryEvent<Seq<char>>>,
    metadata: Seq<DirectoryEvent<Seq<char>>>,
) -> (D, DirectoryAction<Seq<char>>)
    decreases files.len() + metadata.len(), distance(copy),
{
    match (copy.stage, action) {
        (DirectoryStage::ProbingGit, DirectoryAction::Probe(path)) => {
            let (next, following) = copy.after(DirectoryEvent::Exists((fs.exists)(disk, path)));
            run_walks(fs, disk, next, following, files, metadata)
        },
        (DirectoryStage::CheckingGitLink, DirectoryAction::CheckSymlink(path)) => {
            let (next, following) = copy.after(DirectoryEvent::Symlink((fs.symlink)(disk, path)));
            run_walks(fs, disk, next, following, files, metadata)
        },
        (DirectoryStage::Walking, DirectoryAction::NextEntry(_)) => {
            if copy.walk == Walk::Files {
                let (event, rest) = next_of_walk(files);
                let (next, following) = copy.after(event);
                run_walks(fs, disk, next, following, rest, metadata)
            } else {
                let (event, rest) = next_of_walk(metadata);
                let (next, following) = copy.after(event);
                run_walks(fs, disk, next, following, files, rest)
            }
        },
        (DirectoryStage::CopyingEntry, DirectoryAction::CopyEntry(job, kind)) => {
            let (after, result) = copy_entry(fs, disk, job, kind);
            let (next, following) = copy.after(DirectoryEvent::Copied(result));
            run_walks(fs, after, next, following, files, metadata)
        },
        _ => (disk, action),
    }
}

/// The copy of what a directory holds up to the tracked files: the disk afterwards, and the action
/// that follows.
pub open spec fn copy_walked<D>(fs: FileSystem<D>, disk: D, job: CopyJob<Seq<char>>) -> (
    D,
    DirectoryAction<Seq<char>>,
) {
    run_walks(
        fs,
        disk,
        DirectoryCopy { job, git: false, walk: Walk::Files, stage: DirectoryStage::ProbingGit },
        DirectoryAction::Probe(joined_path(job.source, ".git"@)),
        (fs.walked)(disk, Walk::Files, job.source),
        (fs.walked)(disk, Walk::GitMetadata, job.source),
    )
}

/// The copy ends with an error.
pub open spec fn is_failure(action: DirectoryAction<Seq<char>>) -> bool {
    action matches DirectoryAction::Finish(result) && result is Err
}

/// A directory that these entries hold is a directory in the copy.
pub open spec fn has_directories<D>(
    fs: FileSystem<D>,
    disk: D,
    job: CopyJob<Seq<char>>,
    entries: Seq<DirectoryEvent<Seq<char>>>,
) -> bool {
    forall|i: int|
        0 <= i < entries.len() ==> has_directory(fs, disk, job, #[trigger] entries[i])
}

/// Where the entry is a directory, it is one in the copy; the root of the copy is not looked at.
pub open spec fn has_directory<D>(
    fs: FileSystem<D>,
    disk: D,
    job: CopyJob<Seq<char>>,
    entry: DirectoryEvent<Seq<char>>,
) -> bool {
    entry matches DirectoryEvent::Entry { path: Some(path), kind: Some(FileKind::Dir) } ==> (
    entry_destination(job.destination, path, job.source) matches Some(destination) ==> same_path(
        destination,
        job.root_to,
    ) || (fs.is_dir)(disk, destination))
}

proof fn lemma_entries_drop_first(
    sides: Sides,
    entries: Seq<DirectoryEvent<Seq<char>>>,
    from: Seq<char>,
    to: Seq<char>,
)
    requires
        sides.takes_entries(entries, from, to),
        entries.len() > 0,
    ensures
        sides.takes_entries(entries.drop_first(), from, to),
        entries[0] is Entry || entries[0] is InvalidEntry,
{
    let rest = entries.drop_first();
    assert forall|i: int| 0 <= i < rest.len() implies (#[trigger] rest[i]) == entries[i + 1] by {}
}

/// One entry of a walk: where it is copied, the disk is kept and a directory is there, and the
/// walk goes on.
proof fn lemma_entry_is_walked<D>(
    fs: FileSystem<D>,
    sides: Sides,
    disk: D,
    copy: DirectoryCopy<Seq<char>>,
    entry: DirectoryEvent<Seq<char>>,
    files: Seq<DirectoryEvent<Seq<char>>>,
    metadata: Seq<DirectoryEvent<Seq<char>>>,
) -> (r: (D, bool))
    requires
        fs.is_faithful(sides),
        copy.stage == DirectoryStage::Walking,
        entry is Entry || entry is InvalidEntry,
        entry matches DirectoryEvent::Entry { path: Some(path), .. } ==> (entry_destination(
            copy.job.destination,
            path,
            copy.job.source,
        ) matches Some(destination) ==> sides.is_target(destination)),
    ensures
        sides.kept(fs, disk, r.0),
        ({
            let (next, following) = copy.after(entry);
            let (walking, action) = copy.walking(copy.walk);
            let whole = run_walks(fs, disk, next, following, files, metadata);
            if r.1 {
                whole == run_walks(fs, r.0, walking, action, files, metadata) && has_directory(
                    fs,
                    r.0,
                    copy.job,
                    entry,
                )
            } else {
                whole.0 == r.0 && is_failure(whole.1)
            }
        }),
{
    reveal_with_fuel(run_walks, 3);
    keeping_is_reflexive(fs, sides, disk);
    let (next, following) = copy.after(entry);
    if let DirectoryAction::CopyEntry(job, kind) = following {
        entry_copy_keeps(fs, sides, disk, job, kind);
        let (after, result) = copy_entry(fs, disk, job, kind);
        if result is Ok {
            copied_entry_is_there(fs, sides, disk, job, kind);
        }
        (after, result is Ok)
    } else {
        (disk, false)
    }
}

/// The walk through the Git metadata keeps what is there.
proof fn lemma_metadata_walk_keeps<D>(
    fs: FileSystem<D>,
    sides: Sides,
    disk: D,
    copy: DirectoryCopy<Seq<char>>,
    files: Seq<DirectoryEvent<Seq<char>>>,
    metadata: Seq<DirectoryEvent<Seq<char>>>,
)
    requires
        fs.is_faithful(sides),
        sides.takes_entries(metadata, copy.job.source, copy.job.destination),
    ensures
        ({
            let (walking, action) = copy.walking(Walk::GitMetadata);
            let (last, following) = run_walks(fs, disk, walking, action, files, metadata);
            &&& sides.kept(fs, disk, last)
            &&& is_failure(following) || following == DirectoryAction::CopyTracked(copy.job)
        }),
    decreases metadata.len(),
{
    reveal_with_fuel(run_walks, 2);
    keeping_is_reflexive(fs, sides, disk);
    let (walking, action) = copy.walking(Walk::GitMetadata);
    if metadata.len() > 0 {
        let rest = metadata.drop_first();
        lemma_entries_drop_first(sides, metadata, copy.job.source, copy.job.destination);
        let (after, goes_on) = lemma_entry_is_walked(
            fs,
            sides,
            disk,
            walking,
            metadata[0],
            files,
            rest,
        );
        if goes_on {
            lemma_metadata_walk_keeps(fs, sides, after, walking, files, rest);
            let last = run_walks(fs, after, walking, action, files, rest).0;
            keeping_is_transitive(fs, sides, disk, after, last);
        }
    }
}

/// The walks keep what is there; where they succeed, the directories of the first are there.
proof fn lemma_walks_keep<D>(
    fs: FileSystem<D>,
    sides: Sides,
    disk: D,
    copy: DirectoryCopy<Seq<char>>,
    files: Seq<DirectoryEvent<Seq<char>>>,
    metadata: Seq<DirectoryEvent<Seq<char>>>,
)
    requires
        fs.is_faithful(sides),
        sides.takes_entries(files, copy.job.source, copy.job.destination),
        sides.takes_entries(metadata, copy.job.source, copy.job.destination),
    ensures
        ({
            let (walking, action) = copy.walking(Walk::Files);
            let (last, following) = run_walks(fs, disk, walking, action, files, metadata);
            &&& sides.kept(fs, disk, last)
            &&& is_failure(following) || following == DirectoryAction::CopyTracked(copy.job)
                && has_directories(fs, last, copy.job, files)
        }),
    decreases files.len(),
{
    reveal_with_fuel(run_walks, 2);
    keeping_is_reflexive(fs, sides, disk);
    let (walking, action) = copy.walking(Walk::Files);
    if files.len() > 0 {
        let rest = files.drop_first();
        lemma_entries_drop_first(sides, files, copy.job.source, copy.job.destination);
        let (after, goes_on) = lemma_entry_is_walked(
            fs,
            sides,
            disk,
            walking,
            files[0],
            rest,
            metadata,
        );
        if goes_on {
            lemma_walks_keep(fs, sides, after, walking, rest, metadata);
            let (last, following) = run_walks(fs, after, walking, action, rest, metadata);
            keeping_is_transitive(fs, sides, disk, after, last);
            if !is_failure(following) {
                assert forall|i: int| 0 <= i < files.len() implies has_directory(
                    fs,
                    last,
                    copy.job,
                    #[trigger] files[i],
                ) by {
                    if i == 0 {
                        if let DirectoryEvent::Entry { path: Some(path), .. } = files[0] {
                            if let Some(destination) = entry_destination(
                                copy.job.destination,
                                path,
                                copy.job.source,
                            ) {
                                assert(sides.is_target(destination));
                                assert(sides.is_not_lost(fs, after, last, destination));
                            }
                        }
                    } else {
                        assert(files[i] == rest[i - 1]);
                    }
                }
            }
        }
    } else if copy.git {
        lemma_metadata_walk_keeps(fs, sides, disk, walking, files, metadata);
    }
}

/// The walks leave what is read from as it is, and lose nothing. They fail, or the directories that
/// they come to are there and the tracked files follow.
pub proof fn walked_directories_are_there<D>(
    fs: FileSystem<D>,
    sides: Sides,
    disk: D,
    job: CopyJob<Seq<char>>,
)
    requires
        sides.are_closed(fs),
        fs.is_faithful(sides),
        sides.is_source(job.source),
        sides.is_target(job.destination),
    ensures
        sides.kept(fs, disk, copy_walked(fs, disk, job).0),
        is_failure(copy_walked(fs, disk, job).1) || copy_walked(fs, disk, job).1
            == DirectoryAction::CopyTracked(job) && has_directories(
            fs,
            copy_walked(fs, disk, job).0,
            job,
            (fs.walked)(disk, Walk::Files, job.source),
        ),
{
    reveal_with_fuel(run_walks, 3);
    keeping_is_reflexive(fs, sides, disk);
    let files = (fs.walked)(disk, Walk::Files, job.source);
    let metadata = (fs.walked)(disk, Walk::GitMetadata, job.source);
    assert(sides.encloses_walk(fs, disk, Walk::Files, job.source, job.destination));
    assert(sides.encloses_walk(fs, disk, Walk::GitMetadata, job.source, job.destination));
    let copy = DirectoryCopy {
        job,
        git: false,
        walk: Walk::Files,
        stage: DirectoryStage::ProbingGit,
    };
    lemma_walks_keep(fs, sides, disk, copy, files, metadata);
    lemma_walks_keep(fs, sides, disk, DirectoryCopy { git: true, ..copy }, files, metadata);
    let git = joined_path(job.source, ".git"@);
    match (fs.exists)(disk, git) {
        Some(true) => {},
        Some(false) => {
            if (fs.symlink)(disk, git) {
            } else {
            }
        },
        None => {},
    }
}

}
