//! What the copy of a directory into another one comes to on the file system.

use crate::copied_walk::{copy_walked, has_directory, walked_directories_are_there};
use crate::copy_dir::{
    entry_destination, CopyAction, CopyEvent, CopyStage, DirCopy, DirectoryEvent, Walk,
};
use crate::copy_entry::{CopyError, CopyJob, FileKind};
use crate::copy_tracked::TrackedAction;
use crate::file_system::{keeping_is_reflexive, keeping_is_transitive, FileSystem, Sides};
use crate::path::{joined_path, last_component};
use crate::tracked_fates::{copied_files_are_settled, perform};
use vstd::prelude::*;

verus! {

/// How many steps a stage can be from the end.
pub open spec fn distance(stage: CopyStage) -> int {
    match stage {
        CopyStage::CheckingSource => 4,
        CopyStage::ProbingTarget => 3,
        CopyStage::CreatingTarget => 2,
        CopyStage::Copying => 1,
        CopyStage::Finished => 0,
    }
}

/// The copy of what a directory holds, its tracked files too: the disk afterwards, and the result.
pub open spec fn copy_directory<D>(
    fs: FileSystem<D>,
    depth: nat,
    disk: D,
    job: CopyJob<Seq<char>>,
) -> (D, Result<(), CopyError<Seq<char>>>) {
    let (after, event) = perform(fs, depth, disk, TrackedAction::CopyDirectory(job));
    (after, event->Copied_0)
}

/// The disk after an action, and what came of it.
pub open spec fn perform_copy<D>(
    fs: FileSystem<D>,
    depth: nat,
    disk: D,
    action: CopyAction<Seq<char>>,
) -> (D, CopyEvent<Seq<char>>) {
    match action {
        CopyAction::CheckDirectory(path) => (disk, CopyEvent::Answer((fs.is_dir)(disk, path))),
        CopyAction::Probe(path) => (
            disk,
            CopyEvent::Answer((fs.exists)(disk, path) == Some(true)),
        ),
        CopyAction::CreateDirAll(path) => {
            let (after, created) = (fs.create_dir_all)(disk, path);
            (after, CopyEvent::Created(created))
        },
        CopyAction::CopyDirectory(job) => {
            let (after, result) = copy_directory(fs, depth, disk, job);
            (after, CopyEvent::Copied(result))
        },
        CopyAction::Finish(result) => (disk, CopyEvent::Copied(result)),
    }
}

/// The disk after the copy, from a state and its action on, and the result.
pub open spec fn run<D>(
    fs: FileSystem<D>,
    depth: nat,
    disk: D,
    copy: DirCopy<Seq<char>>,
    action: CopyAction<Seq<char>>,
) -> (D, Result<(), CopyError<Seq<char>>>)
    decreases distance(copy.stage),
{
    if action is Finish {
        (disk, action->Finish_0)
    } else if copy.stage == CopyStage::Finished {
        (disk, Ok(()))
    } else {
        let (after, event) = perform_copy(fs, depth, disk, action);
        let (next, following) = copy.after(event);
        run(fs, depth, after, next, following)
    }
}

/// The copy of the directory `from` into the directory `to`, with submodules up to `depth` deep:
/// the disk afterwards, and the result.
pub open spec fn copy_dir<D>(
    fs: FileSystem<D>,
    depth: nat,
    disk: D,
    from: Seq<char>,
    to: Seq<char>,
) -> (D, Result<(), CopyError<Seq<char>>>) {
    run(
        fs,
        depth,
        disk,
        DirCopy { from, to, target: seq![], stage: CopyStage::CheckingSource },
        CopyAction::CheckDirectory(from),
    )
}

/// The copy of a directory goes to the target of that name, which is created where it is missing.
pub proof fn copy_goes_to_its_target<D>(
    fs: FileSystem<D>,
    depth: nat,
    disk: D,
    from: Seq<char>,
    to: Seq<char>,
)
    ensures
        copy_dir(fs, depth, disk, from, to) == if !(fs.is_dir)(disk, from) {
            (disk, Err(CopyError::NotADirectory(from)))
        } else {
            match last_component(from) {
                None => (disk, Err(CopyError::InvalidPath(from))),
                Some(name) => {
                    let target = joined_path(to, name);
                    let job = CopyJob {
                        root_from: from,
                        root_to: target,
                        source: from,
                        destination: target,
                    };
                    let (made, created) = (fs.create_dir_all)(disk, target);
                    if (fs.exists)(disk, target) == Some(true) {
                        copy_directory(fs, depth, disk, job)
                    } else if created {
                        copy_directory(fs, depth, made, job)
                    } else {
                        (made, Err(CopyError::NotCreated(target)))
                    }
                },
            }
        },
{
    reveal_with_fuel(run, 5);
}

/// The entry is the directory at `path`.
pub open spec fn is_directory_at(entry: DirectoryEvent<Seq<char>>, path: Seq<char>) -> bool {
    entry == (DirectoryEvent::Entry { path: Some(path), kind: Some(FileKind::Dir) })
}

/// A directory that the walk through `from` comes to, at `path`, is one in the copy that
/// succeeded. What is at the target beforehand has to be a directory.
pub proof fn copied_directories_are_there<D>(
    fs: FileSystem<D>,
    sides: Sides,
    depth: nat,
    disk: D,
    from: Seq<char>,
    to: Seq<char>,
    path: Seq<char>,
)
    requires
        sides.are_closed(fs),
        fs.is_faithful(sides),
        fs.reads_components(),
        last_component(from) is Some,
        sides.is_source(from),
        sides.is_target(joined_path(to, last_component(from)->0)),
        (fs.exists)(disk, joined_path(to, last_component(from)->0)) == Some(true) ==> (fs.is_dir)(
            disk,
            joined_path(to, last_component(from)->0),
        ),
        exists|i: int|
            0 <= i < (fs.walked)(disk, Walk::Files, from).len() && is_directory_at(
                #[trigger] (fs.walked)(disk, Walk::Files, from)[i],
                path,
            ),
        copy_dir(fs, depth, disk, from, to).1 is Ok,
    ensures
        entry_destination(joined_path(to, last_component(from)->0), path, from) matches Some(
            destination,
        ) ==> (fs.is_dir)(copy_dir(fs, depth, disk, from, to).0, destination),
{
    copy_goes_to_its_target(fs, depth, disk, from, to);
    let target = joined_path(to, last_component(from)->0);
    let job = CopyJob { root_from: from, root_to: target, source: from, destination: target };
    assert(fs.creates(sides, disk, target));
    keeping_is_reflexive(fs, sides, disk);
    let made = if (fs.exists)(disk, target) == Some(true) {
        disk
    } else {
        (fs.create_dir_all)(disk, target).0
    };
    assert(sides.is_same(fs, disk, made, from));
    let files = (fs.walked)(disk, Walk::Files, from);
    assert(files == (fs.walked)(made, Walk::Files, from));
    walked_directories_are_there(fs, sides, made, job);
    let (walked, following) = copy_walked(fs, made, job);
    copied_files_are_settled(fs, sides, depth, walked, job);
    let last = copy_dir(fs, depth, disk, from, to).0;
    keeping_is_transitive(fs, sides, made, walked, last);
    assert(sides.is_not_lost(fs, made, last, target));
    let i = choose|i: int| 0 <= i < files.len() && is_directory_at(#[trigger] files[i], path);
    assert(has_directory(fs, walked, job, files[i]));
    if let Some(destination) = entry_destination(target, path, from) {
        assert(sides.encloses_walk(fs, made, Walk::Files, from, target));
        assert(sides.is_target(destination));
        assert(sides.is_not_lost(fs, walked, last, destination));
        assert((fs.is_dir)(last, target));
        assert((fs.is_dir)(last, target) == (fs.is_dir)(last, destination) || (fs.is_dir)(
            last,
            destination,
        ));
    }
}

}
