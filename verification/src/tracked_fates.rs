//! What a copy of tracked files comes to on the file system.

use crate::copied_walk::{copy_walked, walked_directories_are_there};
use crate::copy_dir::DirectoryAction;
use crate::copy_entry::{CopyError, CopyJob, FailureKind, FileKind};
use crate::copy_tracked::{
    entry_path, is_gitlink, named_ancestors, tracked_paths_keep_their_white_space, TrackedAction,
    TrackedCopyView, TrackedEvent, TrackedStage,
};
use crate::file_system::{
    copied_entry_is_there, copy_entry, entry_copy_keeps, is_missing_in_directory,
    keeping_is_transitive, listed_entries, FileSystem, Sides,
};
use crate::path::{joined_path, parent_path};
use crate::text::lossy_text;
use vstd::prelude::*;

verus! {

/// The action changes the copy.
pub open spec fn is_effect(action: TrackedAction<Seq<char>>) -> bool {
    action is CreateDirAll || action is CopyTracked || action is CopyDirectory || action is CopyEntry
}

/// How many steps a stage can be from the next entry.
pub open spec fn distance(stage: TrackedStage) -> int {
    match stage {
        TrackedStage::ProbingRepository => 7,
        TrackedStage::Listing => 6,
        TrackedStage::CheckingAncestor => 5,
        TrackedStage::InspectingSource => 4,
        TrackedStage::ProbingSubmodule | TrackedStage::InspectingDestination => 3,
        TrackedStage::CreatingSubmodule | TrackedStage::CreatingParent => 2,
        TrackedStage::CopyingSubmodule | TrackedStage::CopyingEntry => 1,
        TrackedStage::Finished => 0,
    }
}

/// The entries are not known yet.
pub open spec fn is_unlisted(stage: TrackedStage) -> bool {
    stage == TrackedStage::ProbingRepository || stage == TrackedStage::Listing
}

/// The copy of the tracked files of `job`, as it starts.
pub open spec fn begun(job: CopyJob<Seq<char>>) -> TrackedCopyView {
    TrackedCopyView {
        from: job.source,
        to: job.destination,
        root_from: job.root_from,
        root_to: job.root_to,
        stage: TrackedStage::ProbingRepository,
        entries: seq![],
        next: 0,
        ancestors: seq![],
        ancestor: 0,
        kind: FileKind::Other,
    }
}

/// The directories that a copy of tracked files is about.
pub open spec fn whole(copy: TrackedCopyView) -> CopyJob<Seq<char>> {
    CopyJob {
        root_from: copy.root_from,
        root_to: copy.root_to,
        source: copy.from,
        destination: copy.to,
    }
}

/// The copy of the tracked files of `job`, which holds submodules up to `depth` deep: the disk
/// afterwards, and the result. It fails below that depth.
pub open spec fn copy_tracked<D>(
    fs: FileSystem<D>,
    depth: nat,
    disk: D,
    job: CopyJob<Seq<char>>,
) -> (D, Result<(), CopyError<Seq<char>>>)
    decreases depth, 0int, 0int, 0int, 0int,
{
    if depth == 0 {
        (disk, Err(CopyError::NotInspected(job.source)))
    } else {
        let (_, after, result) = run(
            fs,
            (depth - 1) as nat,
            disk,
            begun(job),
            TrackedAction::Probe(joined_path(job.source, ".git"@)),
        );
        (after, result)
    }
}

/// The disk after an action, and what came of it.
pub open spec fn perform<D>(
    fs: FileSystem<D>,
    depth: nat,
    disk: D,
    action: TrackedAction<Seq<char>>,
) -> (D, TrackedEvent<Seq<char>, Seq<u8>>)
    decreases depth, 1int, 0int, 0int, 0int,
{
    match action {
        TrackedAction::Probe(path) => (disk, TrackedEvent::Exists((fs.exists)(disk, path))),
        TrackedAction::List(directory) => (disk, (fs.listed)(directory)),
        TrackedAction::CheckSymlink(path) => (
            disk,
            TrackedEvent::Symlink((fs.symlink)(disk, path)),
        ),
        TrackedAction::Inspect(path) => (
            disk,
            match (fs.found)(disk, path) {
                Ok(kind) => TrackedEvent::Found(kind),
                Err(kind) => TrackedEvent::NotFound(kind),
            },
        ),
        TrackedAction::CreateDirAll(path) => {
            let (after, created) = (fs.create_dir_all)(disk, path);
            (after, TrackedEvent::Created(created))
        },
        TrackedAction::CopyTracked(job) => {
            let (after, result) = copy_tracked(fs, depth, disk, job);
            (after, TrackedEvent::Copied(result))
        },
        TrackedAction::CopyDirectory(job) => {
            let (walked, following) = copy_walked(fs, disk, job);
            let (after, result) = match following {
                DirectoryAction::CopyTracked(tracked_files) => copy_tracked(
                    fs,
                    depth,
                    walked,
                    tracked_files,
                ),
                DirectoryAction::Finish(result) => (walked, result),
                _ => (walked, Ok(())),
            };
            (after, TrackedEvent::Copied(result))
        },
        TrackedAction::CopyEntry(job, kind) => {
            let (after, result) = copy_entry(fs, disk, job, kind);
            (after, TrackedEvent::Copied(result))
        },
        TrackedAction::Finish(result) => (disk, TrackedEvent::Copied(result)),
    }
}

/// The actions that change the copy, from a state and its action on, the disk after them, and
/// the result.
pub open spec fn run<D>(
    fs: FileSystem<D>,
    depth: nat,
    disk: D,
    copy: TrackedCopyView,
    action: TrackedAction<Seq<char>>,
) -> (Seq<TrackedAction<Seq<char>>>, D, Result<(), CopyError<Seq<char>>>)
    decreases
            depth,
            if is_unlisted(copy.stage) {
                3int
            } else {
                2int
            },
            copy.entries.len() - copy.next,
            distance(copy.stage),
            copy.ancestors.len() - copy.ancestor,
{
    if action is Finish {
        (seq![], disk, action->Finish_0)
    } else if copy.stage == TrackedStage::Finished {
        (seq![], disk, Ok(()))
    } else {
        let (after, event) = perform(fs, depth, disk, action);
        let (next, following) = copy.after(event);
        let (effects, last, result) = run(fs, depth, after, next, following);
        (if is_effect(action) {
            seq![action] + effects
        } else {
            effects
        }, last, result)
    }
}

/// What becomes of a tracked entry.
pub enum Fate {
    /// The copy needs nothing of it.
    Skipped,
    /// A file or a symlink is copied into this directory.
    Copied(CopyJob<Seq<char>>, FileKind, Seq<char>),
    /// The tracked files of a submodule are copied.
    Entered(CopyJob<Seq<char>>),
    /// A submodule is copied.
    CopiedWhole(CopyJob<Seq<char>>),
    /// The copy fails.
    Failed(CopyError<Seq<char>>),
}

/// A named ancestor of `path` is a symlink below `from`.
pub open spec fn is_behind_symlink<D>(
    fs: FileSystem<D>,
    disk: D,
    from: Seq<char>,
    path: Seq<char>,
) -> bool {
    exists|i: int|
        0 <= i < named_ancestors(path).len() && (fs.symlink)(
            disk,
            #[trigger] joined_path(from, named_ancestors(path)[i]),
        )
}

/// The copy of the entry at `path`, with the roots of the whole copy.
pub open spec fn entry_job(job: CopyJob<Seq<char>>, path: Seq<char>) -> CopyJob<Seq<char>> {
    CopyJob {
        root_from: job.root_from,
        root_to: job.root_to,
        source: joined_path(job.source, path),
        destination: joined_path(job.destination, path),
    }
}

/// What becomes of a tracked entry: it is copied where it is there and its copy is not. It is
/// not there behind a symlink, nor where a directory replaced a file; a directory is entered
/// where it is a submodule.
pub open spec fn fate<D>(
    fs: FileSystem<D>,
    disk: D,
    job: CopyJob<Seq<char>>,
    entry: Seq<char>,
) -> Fate {
    let path = entry_path(entry);
    let at_hand = entry_job(job, path);
    if !entry.contains('\t') {
        Fate::Failed(CopyError::NoPathSeparator(entry))
    } else if is_behind_symlink(fs, disk, job.source, path) {
        Fate::Skipped
    } else {
        match (fs.found)(disk, at_hand.source) {
            Err(FailureKind::NotFound) | Err(FailureKind::NotADirectory) => Fate::Skipped,
            Err(FailureKind::Other) => Fate::Failed(CopyError::NotInspected(at_hand.source)),
            Ok(FileKind::Dir) => if !is_gitlink(entry) {
                Fate::Skipped
            } else {
                match (fs.exists)(disk, at_hand.destination) {
                    Some(true) => Fate::Entered(at_hand),
                    Some(false) => Fate::CopiedWhole(at_hand),
                    None => Fate::Failed(CopyError::NotInspected(at_hand.destination)),
                }
            },
            Ok(kind) => match (fs.found)(disk, at_hand.destination) {
                Ok(_) => Fate::Skipped,
                Err(FailureKind::NotFound) => match parent_path(at_hand.destination) {
                    Some(directory) => Fate::Copied(at_hand, kind, directory),
                    None => Fate::Failed(CopyError::NoParent(at_hand.destination)),
                },
                Err(_) => Fate::Failed(CopyError::NotInspected(at_hand.destination)),
            },
        }
    }
}

/// Creates a directory, then does what fills it.
pub open spec fn create_and<D>(
    fs: FileSystem<D>,
    depth: nat,
    disk: D,
    directory: Seq<char>,
    filling: TrackedAction<Seq<char>>,
) -> (Seq<TrackedAction<Seq<char>>>, D, Result<(), CopyError<Seq<char>>>) {
    let create = TrackedAction::CreateDirAll(directory);
    let (made, created) = (fs.create_dir_all)(disk, directory);
    if created {
        let (after, event) = perform(fs, depth, made, filling);
        (seq![create, filling], after, event->Copied_0)
    } else {
        (seq![create], made, Err(CopyError::NotCreated(directory)))
    }
}

/// Brings a fate about: the actions for it, the disk after them, and the result.
pub open spec fn meet<D>(fs: FileSystem<D>, depth: nat, disk: D, fate: Fate) -> (
    Seq<TrackedAction<Seq<char>>>,
    D,
    Result<(), CopyError<Seq<char>>>,
) {
    match fate {
        Fate::Skipped => (seq![], disk, Ok(())),
        Fate::Failed(error) => (seq![], disk, Err(error)),
        Fate::Copied(job, kind, directory) => create_and(
            fs,
            depth,
            disk,
            directory,
            TrackedAction::CopyEntry(job, kind),
        ),
        Fate::Entered(job) => {
            let (after, result) = copy_tracked(fs, depth, disk, job);
            (seq![TrackedAction::CopyTracked(job)], after, result)
        },
        Fate::CopiedWhole(job) => create_and(
            fs,
            depth,
            disk,
            job.destination,
            TrackedAction::CopyDirectory(job),
        ),
    }
}

/// The fates of the entries from `next` on, each on the disk that the ones before it left, up
/// to the first that fails.
pub open spec fn fates<D>(
    fs: FileSystem<D>,
    depth: nat,
    disk: D,
    job: CopyJob<Seq<char>>,
    entries: Seq<Seq<char>>,
    next: int,
) -> (Seq<TrackedAction<Seq<char>>>, D, Result<(), CopyError<Seq<char>>>)
    decreases entries.len() - next,
{
    if next >= entries.len() {
        (seq![], disk, Ok(()))
    } else {
        let (effects, after, result) = meet(fs, depth, disk, fate(fs, disk, job, entries[next]));
        if result is Err {
            (effects, after, result)
        } else {
            let (others, last, result) = fates(fs, depth, after, job, entries, next + 1);
            (effects + others, last, result)
        }
    }
}

/// One step of a run.
proof fn lemma_run_step<D>(
    fs: FileSystem<D>,
    depth: nat,
    disk: D,
    copy: TrackedCopyView,
    action: TrackedAction<Seq<char>>,
    after: D,
    next: TrackedCopyView,
    following: TrackedAction<Seq<char>>,
)
    requires
        copy.stage != TrackedStage::Finished,
        !(action is Finish),
        perform(fs, depth, disk, action).0 == after,
        copy.after(perform(fs, depth, disk, action).1) == (next, following),
    ensures
        run(fs, depth, disk, copy, action) == (
            if is_effect(action) {
                seq![action] + run(fs, depth, after, next, following).0
            } else {
                run(fs, depth, after, next, following).0
            },
            run(fs, depth, after, next, following).1,
            run(fs, depth, after, next, following).2,
        ),
{
}

/// The copies that a file that is there comes to.
proof fn lemma_file_meets_its_fate<D>(
    fs: FileSystem<D>,
    depth: nat,
    disk: D,
    copy: TrackedCopyView,
    kind: FileKind,
)
    requires
        0 < copy.next <= copy.entries.len(),
        copy.entry().contains('\t'),
        copy.stage == TrackedStage::InspectingSource,
        !is_behind_symlink(fs, disk, copy.from, entry_path(copy.entry())),
        kind != FileKind::Dir,
        (fs.found)(disk, copy.source()) == Ok::<FileKind, FailureKind>(kind),
    ensures
        run(fs, depth, disk, copy, TrackedAction::Inspect(copy.source())) == fates(
            fs,
            depth,
            disk,
            whole(copy),
            copy.entries,
            copy.next - 1,
        ),
    decreases copy.entries.len() - copy.next, 2int,
{
    let decided = fate(fs, disk, whole(copy), copy.entry());
    let destination = copy.destination();
    let seen = TrackedCopyView { stage: TrackedStage::InspectingDestination, kind, ..copy };
    let asking = TrackedAction::Inspect(destination);
    lemma_run_step(
        fs,
        depth,
        disk,
        copy,
        TrackedAction::Inspect(copy.source()),
        disk,
        seen,
        asking,
    );
    match (fs.found)(disk, destination) {
        Ok(_) => {
            let (next, following) = seen.taking();
            lemma_run_step(fs, depth, disk, seen, asking, disk, next, following);
            taking_meets_the_fates(fs, depth, disk, seen);
            let others = fates(fs, depth, disk, whole(copy), copy.entries, copy.next);
            assert(Seq::empty() + others.0 =~= others.0);
        },
        Err(FailureKind::NotFound) => {
            match parent_path(destination) {
                Some(directory) => {
                    let creating = TrackedCopyView { stage: TrackedStage::CreatingParent, ..seen };
                    let create = TrackedAction::CreateDirAll(directory);
                    lemma_run_step(fs, depth, disk, seen, asking, disk, creating, create);
                    let (made, created) = (fs.create_dir_all)(disk, directory);
                    if created {
                        let copying = TrackedCopyView { stage: TrackedStage::CopyingEntry, ..seen };
                        let last = TrackedAction::CopyEntry(copy.job(), kind);
                        lemma_run_step(fs, depth, disk, creating, create, made, copying, last);
                        lemma_copied(fs, depth, made, copying, last);
                        assert forall|others: Seq<TrackedAction<Seq<char>>>| seq![create, last]
                            + others == #[trigger] (seq![create] + (seq![last] + others)) by {
                            assert(seq![create, last] + others =~= seq![create] + (seq![last]
                                + others));
                        }
                        assert(seq![create] + seq![last] =~= seq![create, last]);
                        assert(decided == Fate::Copied(copy.job(), kind, directory));
                    } else {
                        let (next, following) = creating.ending(
                            Err(CopyError::NotCreated(directory)),
                        );
                        lemma_run_step(fs, depth, disk, creating, create, made, next, following);
                        assert(seq![create] + Seq::empty() =~= seq![create]);
                    }
                },
                None => {
                    let (next, following) = seen.ending(Err(CopyError::NoParent(destination)));
                    lemma_run_step(fs, depth, disk, seen, asking, disk, next, following);
                },
            }
        },
        Err(_) => {
            let (next, following) = seen.ending(Err(CopyError::NotInspected(destination)));
            lemma_run_step(fs, depth, disk, seen, asking, disk, next, following);
        },
    }
}

/// After the last action for an entry, the others follow where it succeeded.
proof fn lemma_copied<D>(
    fs: FileSystem<D>,
    depth: nat,
    disk: D,
    copy: TrackedCopyView,
    action: TrackedAction<Seq<char>>,
)
    requires
        0 < copy.next <= copy.entries.len(),
        copy.stage == TrackedStage::CopyingSubmodule || copy.stage == TrackedStage::CopyingEntry,
        action is CopyTracked || action is CopyDirectory || action is CopyEntry,
    ensures
        ({
            let (after, event) = perform(fs, depth, disk, action);
            let others = fates(fs, depth, after, whole(copy), copy.entries, copy.next);
            &&& event is Copied
            &&& run(fs, depth, disk, copy, action) == if event->Copied_0 is Err {
                (seq![action], after, event->Copied_0)
            } else {
                (seq![action] + others.0, others.1, others.2)
            }
        }),
    decreases copy.entries.len() - copy.next, 1int,
{
    let (after, event) = perform(fs, depth, disk, action);
    match event->Copied_0 {
        Ok(_) => {
            let (next, following) = copy.taking();
            lemma_run_step(fs, depth, disk, copy, action, after, next, following);
            taking_meets_the_fates(fs, depth, after, copy);
        },
        Err(error) => {
            let (next, following) = copy.ending(Err(error));
            lemma_run_step(fs, depth, disk, copy, action, after, next, following);
            assert(seq![action] + Seq::empty() =~= seq![action]);
        },
    }
}

/// The copies that a directory that is there comes to.
proof fn lemma_directory_meets_its_fate<D>(
    fs: FileSystem<D>,
    depth: nat,
    disk: D,
    copy: TrackedCopyView,
)
    requires
        0 < copy.next <= copy.entries.len(),
        copy.entry().contains('\t'),
        copy.stage == TrackedStage::InspectingSource,
        !is_behind_symlink(fs, disk, copy.from, entry_path(copy.entry())),
        (fs.found)(disk, copy.source()) == Ok::<FileKind, FailureKind>(FileKind::Dir),
    ensures
        run(fs, depth, disk, copy, TrackedAction::Inspect(copy.source())) == fates(
            fs,
            depth,
            disk,
            whole(copy),
            copy.entries,
            copy.next - 1,
        ),
    decreases copy.entries.len() - copy.next, 2int,
{
    let destination = copy.destination();
    let inspect = TrackedAction::Inspect(copy.source());
    if !is_gitlink(copy.entry()) {
        let (next, following) = copy.taking();
        lemma_run_step(fs, depth, disk, copy, inspect, disk, next, following);
        taking_meets_the_fates(fs, depth, disk, copy);
        let others = fates(fs, depth, disk, whole(copy), copy.entries, copy.next);
        assert(Seq::empty() + others.0 =~= others.0);
    } else {
        let probing = TrackedCopyView { stage: TrackedStage::ProbingSubmodule, ..copy };
        let probe = TrackedAction::Probe(destination);
        lemma_run_step(fs, depth, disk, copy, inspect, disk, probing, probe);
        let copying = TrackedCopyView { stage: TrackedStage::CopyingSubmodule, ..copy };
        let job = copy.job();
        match (fs.exists)(disk, destination) {
            Some(true) => {
                let last = TrackedAction::CopyTracked(job);
                lemma_run_step(fs, depth, disk, probing, probe, disk, copying, last);
                lemma_copied(fs, depth, disk, copying, last);
            },
            Some(false) => {
                let creating = TrackedCopyView { stage: TrackedStage::CreatingSubmodule, ..copy };
                let create = TrackedAction::CreateDirAll(destination);
                lemma_run_step(fs, depth, disk, probing, probe, disk, creating, create);
                let (made, created) = (fs.create_dir_all)(disk, destination);
                if created {
                    let last = TrackedAction::CopyDirectory(job);
                    lemma_run_step(fs, depth, disk, creating, create, made, copying, last);
                    lemma_copied(fs, depth, made, copying, last);
                    assert forall|others: Seq<TrackedAction<Seq<char>>>| seq![create, last]
                        + others == #[trigger] (seq![create] + (seq![last] + others)) by {
                        assert(seq![create, last] + others =~= seq![create] + (seq![last]
                            + others));
                    }
                    assert(seq![create] + seq![last] =~= seq![create, last]);
                } else {
                    let (next, following) = creating.ending(
                        Err(CopyError::NotCreated(destination)),
                    );
                    lemma_run_step(fs, depth, disk, creating, create, made, next, following);
                    assert(seq![create] + Seq::empty() =~= seq![create]);
                }
            },
            None => {
                let (end, finish) = probing.ending(Err(CopyError::NotInspected(destination)));
                lemma_run_step(fs, depth, disk, probing, probe, disk, end, finish);
            },
        }
    }
}

/// From the check of ancestor `k` on, the entry at hand meets its fate and the others follow.
proof fn lemma_entry_meets_its_fate<D>(
    fs: FileSystem<D>,
    depth: nat,
    disk: D,
    copy: TrackedCopyView,
    k: int,
)
    requires
        0 < copy.next <= copy.entries.len(),
        copy.entry().contains('\t'),
        copy.ancestors == named_ancestors(entry_path(copy.entry())),
        0 <= k <= copy.ancestors.len(),
        forall|i: int|
            0 <= i < k ==> !(fs.symlink)(
                disk,
                #[trigger] joined_path(copy.from, copy.ancestors[i]),
            ),
    ensures
        run(fs, depth, disk, copy.checking(k).0, copy.checking(k).1) == fates(
            fs,
            depth,
            disk,
            whole(copy),
            copy.entries,
            copy.next - 1,
        ),
    decreases copy.entries.len() - copy.next, copy.ancestors.len() - k + 3,
{
    let path = entry_path(copy.entry());
    let (now, asking) = copy.checking(k);
    let others = fates(fs, depth, disk, whole(copy), copy.entries, copy.next);
    assert(Seq::empty() + others.0 =~= others.0);
    if k < copy.ancestors.len() {
        let ancestor = joined_path(copy.from, copy.ancestors[k]);
        if (fs.symlink)(disk, ancestor) {
            assert(is_behind_symlink(fs, disk, copy.from, path));
            let (next, following) = now.taking();
            lemma_run_step(fs, depth, disk, now, asking, disk, next, following);
            taking_meets_the_fates(fs, depth, disk, now);
        } else {
            let (next, following) = now.checking(k + 1);
            lemma_run_step(fs, depth, disk, now, asking, disk, next, following);
            lemma_entry_meets_its_fate(fs, depth, disk, now, k + 1);
        }
    } else {
        assert(!is_behind_symlink(fs, disk, copy.from, path));
        match (fs.found)(disk, copy.source()) {
            Ok(FileKind::Dir) => {
                lemma_directory_meets_its_fate(fs, depth, disk, now);
            },
            Ok(kind) => {
                lemma_file_meets_its_fate(fs, depth, disk, now, kind);
            },
            Err(FailureKind::Other) => {
                let (next, following) = now.ending(Err(CopyError::NotInspected(copy.source())));
                lemma_run_step(fs, depth, disk, now, asking, disk, next, following);
            },
            Err(_) => {
                let (next, following) = now.taking();
                lemma_run_step(fs, depth, disk, now, asking, disk, next, following);
                taking_meets_the_fates(fs, depth, disk, now);
            },
        }
    }
}

/// The copy does to the entries that are left, in their order, what their fates ask for, and
/// nothing else; it ends at the first that fails.
pub proof fn taking_meets_the_fates<D>(
    fs: FileSystem<D>,
    depth: nat,
    disk: D,
    copy: TrackedCopyView,
)
    requires
        0 <= copy.next <= copy.entries.len(),
    ensures
        run(fs, depth, disk, copy.taking().0, copy.taking().1) == fates(
            fs,
            depth,
            disk,
            whole(copy),
            copy.entries,
            copy.next,
        ),
    decreases copy.entries.len() - copy.next, 0int,
{
    if copy.next < copy.entries.len() && copy.entries[copy.next].contains('\t') {
        let at_hand = TrackedCopyView {
            next: copy.next + 1,
            ancestors: named_ancestors(entry_path(copy.entries[copy.next])),
            ..copy
        };
        lemma_entry_meets_its_fate(fs, depth, disk, at_hand, 0);
    }
}

/// Why the index of a directory could not be listed.
pub open spec fn listing_error<D>(fs: FileSystem<D>, directory: Seq<char>) -> CopyError<Seq<char>> {
    match (fs.listed)(directory) {
        TrackedEvent::Listed { success, stderr, .. } => if success {
            CopyError::ListNotUtf8
        } else {
            CopyError::ListFailed { directory, message: lossy_text(stderr) }
        },
        _ => CopyError::NotListed(directory),
    }
}

/// What the copy of the tracked files of `job` comes to: nothing where it is not a repository,
/// and the fates of the listed entries where it is one.
pub open spec fn outcome<D>(
    fs: FileSystem<D>,
    depth: nat,
    disk: D,
    job: CopyJob<Seq<char>>,
) -> (D, Result<(), CopyError<Seq<char>>>) {
    let git = joined_path(job.source, ".git"@);
    match (fs.exists)(disk, git) {
        None => (disk, Err(CopyError::NotInspected(git))),
        Some(false) => (disk, Ok(())),
        Some(true) => match listed_entries(fs, job.source) {
            None => (disk, Err(listing_error(fs, job.source))),
            Some(entries) => {
                let (_, after, result) = fates(fs, depth, disk, job, entries, 0);
                (after, result)
            },
        },
    }
}

/// The tracked files of a directory are copied as their fates ask for, in the order of the
/// index.
pub proof fn tracked_copy_meets_the_fates<D>(
    fs: FileSystem<D>,
    depth: nat,
    disk: D,
    job: CopyJob<Seq<char>>,
)
    requires
        depth > 0,
    ensures
        copy_tracked(fs, depth, disk, job) == outcome(fs, (depth - 1) as nat, disk, job),
{
    let inner = (depth - 1) as nat;
    let git = joined_path(job.source, ".git"@);
    let copy = begun(job);
    let probe = TrackedAction::Probe(git);
    match (fs.exists)(disk, git) {
        None => {
            let (next, following) = copy.ending(Err(CopyError::NotInspected(git)));
            lemma_run_step(fs, inner, disk, copy, probe, disk, next, following);
        },
        Some(false) => {
            let (next, following) = copy.ending(Ok(()));
            lemma_run_step(fs, inner, disk, copy, probe, disk, next, following);
        },
        Some(true) => {
            let asking = TrackedCopyView { stage: TrackedStage::Listing, ..copy };
            let list = TrackedAction::List(job.source);
            lemma_run_step(fs, inner, disk, copy, probe, disk, asking, list);
            match listed_entries(fs, job.source) {
                None => {
                    let (next, following) = asking.ending(Err(listing_error(fs, job.source)));
                    lemma_run_step(fs, inner, disk, asking, list, disk, next, following);
                },
                Some(entries) => {
                    let taken = TrackedCopyView { entries, next: 0, ..asking };
                    let (next, following) = taken.taking();
                    lemma_run_step(fs, inner, disk, asking, list, disk, next, following);
                    taking_meets_the_fates(fs, inner, disk, taken);
                },
            }
        },
    }
}

/// A tracked entry that is deleted in the working tree stays deleted in the copy: it is gone,
/// an ancestor is a file or a symlink, or a directory that is no submodule replaced it.
pub proof fn deletions_are_preserved<D>(
    fs: FileSystem<D>,
    disk: D,
    job: CopyJob<Seq<char>>,
    entry: Seq<char>,
)
    requires
        entry.contains('\t'),
    ensures
        ({
            let source = (fs.found)(disk, joined_path(job.source, entry_path(entry)));
            ||| is_behind_symlink(fs, disk, job.source, entry_path(entry))
            ||| source == Err::<FileKind, FailureKind>(FailureKind::NotFound)
            ||| source == Err::<FileKind, FailureKind>(FailureKind::NotADirectory)
            ||| source == Ok::<FileKind, FailureKind>(FileKind::Dir) && !is_gitlink(entry)
        }) ==> fate(fs, disk, job, entry) is Skipped,
{
}

/// A file is copied from where it is tracked exactly where it is there and its copy is not.
pub proof fn tracked_files_are_copied<D>(
    fs: FileSystem<D>,
    disk: D,
    job: CopyJob<Seq<char>>,
    entry: Seq<char>,
)
    requires
        entry.contains('\t'),
        !is_behind_symlink(fs, disk, job.source, entry_path(entry)),
        (fs.found)(disk, joined_path(job.source, entry_path(entry))) matches Ok(kind) && kind
            != FileKind::Dir,
        parent_path(joined_path(job.destination, entry_path(entry))) is Some,
    ensures
        fate(fs, disk, job, entry) is Copied <==> (fs.found)(
            disk,
            joined_path(job.destination, entry_path(entry)),
        ) == Err::<FileKind, FailureKind>(FailureKind::NotFound),
        (fs.found)(disk, joined_path(job.destination, entry_path(entry))) is Ok ==> fate(
            fs,
            disk,
            job,
            entry,
        ) is Skipped,
{
}

/// The entry is a file or a symlink, and something is where its copy belongs.
pub open spec fn has_copy<D>(
    fs: FileSystem<D>,
    disk: D,
    job: CopyJob<Seq<char>>,
    entry: Seq<char>,
) -> bool {
    &&& entry.contains('\t')
    &&& (fs.found)(disk, joined_path(job.source, entry_path(entry))) matches Ok(kind) && kind
        != FileKind::Dir
    &&& (fs.found)(disk, joined_path(job.destination, entry_path(entry))) is Ok
}

/// Nothing is done about entries whose copies are there.
pub proof fn entries_with_copies_are_left_alone<D>(
    fs: FileSystem<D>,
    depth: nat,
    disk: D,
    job: CopyJob<Seq<char>>,
    entries: Seq<Seq<char>>,
    next: int,
)
    requires
        0 <= next <= entries.len(),
        forall|i: int| next <= i < entries.len() ==> has_copy(fs, disk, job, #[trigger] entries[i]),
    ensures
        fates(fs, depth, disk, job, entries, next) == (
            Seq::<TrackedAction<Seq<char>>>::empty(),
            disk,
            Ok::<(), CopyError<Seq<char>>>(()),
        ),
    decreases entries.len() - next,
{
    if next < entries.len() {
        assert(has_copy(fs, disk, job, entries[next]));
        entries_with_copies_are_left_alone(fs, depth, disk, job, entries, next + 1);
    }
}

/// The copy of the tracked files of `job` has nothing left to do.
pub open spec fn settled<D>(
    fs: FileSystem<D>,
    depth: nat,
    disk: D,
    job: CopyJob<Seq<char>>,
) -> bool
    decreases depth, 0int,
{
    depth > 0 && match (fs.exists)(disk, joined_path(job.source, ".git"@)) {
        None => false,
        Some(false) => true,
        Some(true) => match listed_entries(fs, job.source) {
            None => false,
            Some(entries) => forall|i: int|
                0 <= i < entries.len() ==> settled_entry(
                    fs,
                    (depth - 1) as nat,
                    disk,
                    job,
                    #[trigger] entries[i],
                ),
        },
    }
}

/// Nothing is left to do about an entry: it needs no copy, its copy is there, it is a submodule
/// about which nothing is left to do, or it is something that is not copied, such as a socket.
pub open spec fn settled_entry<D>(
    fs: FileSystem<D>,
    depth: nat,
    disk: D,
    job: CopyJob<Seq<char>>,
    entry: Seq<char>,
) -> bool
    decreases depth, 1int,
{
    match fate(fs, disk, job, entry) {
        Fate::Skipped => true,
        Fate::Entered(submodule) => settled(fs, depth, disk, submodule),
        Fate::Copied(at_hand, kind, directory) => kind == FileKind::Other && (fs.is_dir)(
            disk,
            directory,
        ),
        Fate::CopiedWhole(_) | Fate::Failed(_) => false,
    }
}

/// The directories of `job` lie on their sides, and `entry` is tracked in them.
spec fn is_enclosed<D>(
    fs: FileSystem<D>,
    sides: Sides,
    job: CopyJob<Seq<char>>,
    entry: Seq<char>,
) -> bool {
    &&& sides.is_source(job.source)
    &&& sides.is_target(job.destination)
    &&& listed_entries(fs, job.source) matches Some(entries) && entries.contains(entry)
}

/// An entry about which nothing is left to do stays one.
proof fn lemma_settled_entry_is_kept<D>(
    fs: FileSystem<D>,
    sides: Sides,
    depth: nat,
    a: D,
    b: D,
    job: CopyJob<Seq<char>>,
    entry: Seq<char>,
)
    requires
        sides.are_closed(fs),
        is_enclosed(fs, sides, job, entry),
        sides.kept(fs, a, b),
        settled_entry(fs, depth, a, job, entry),
    ensures
        settled_entry(fs, depth, b, job, entry),
    decreases depth, 1int,
{
    let path = entry_path(entry);
    let at_hand = entry_job(job, path);
    assert(sides.encloses(fs, job.source, job.destination, entry));
    assert(entry.contains('\t'));
    assert(sides.is_same(fs, a, b, at_hand.source));
    assert(sides.is_not_lost(fs, a, b, at_hand.destination));
    assert forall|i: int| 0 <= i < named_ancestors(path).len() implies (fs.symlink)(
        a,
        #[trigger] joined_path(job.source, named_ancestors(path)[i]),
    ) == (fs.symlink)(b, joined_path(job.source, named_ancestors(path)[i])) by {
        assert(sides.is_same(fs, a, b, joined_path(job.source, named_ancestors(path)[i])));
    }
    assert(is_behind_symlink(fs, a, job.source, path) == is_behind_symlink(
        fs,
        b,
        job.source,
        path,
    ));
    match fate(fs, a, job, entry) {
        Fate::Entered(submodule) => {
            assert(submodule == at_hand);
            lemma_settled_is_kept(fs, sides, depth, a, b, submodule);
        },
        Fate::Copied(_, _, directory) => {
            assert(sides.is_not_lost(fs, a, b, directory));
            assert(is_missing_in_directory(fs, a, at_hand.destination));
        },
        _ => {},
    }
}

/// A copy that has nothing left to do stays one.
proof fn lemma_settled_is_kept<D>(
    fs: FileSystem<D>,
    sides: Sides,
    depth: nat,
    a: D,
    b: D,
    job: CopyJob<Seq<char>>,
)
    requires
        sides.are_closed(fs),
        sides.is_source(job.source),
        sides.is_target(job.destination),
        sides.kept(fs, a, b),
        settled(fs, depth, a, job),
    ensures
        settled(fs, depth, b, job),
    decreases depth, 0int,
{
    let git = joined_path(job.source, ".git"@);
    assert(sides.is_source(git));
    assert(sides.is_same(fs, a, b, git));
    if (fs.exists)(a, git) == Some(true) {
        let entries = listed_entries(fs, job.source)->0;
        assert forall|i: int| 0 <= i < entries.len() implies settled_entry(
            fs,
            (depth - 1) as nat,
            b,
            job,
            #[trigger] entries[i],
        ) by {
            assert(entries.contains(entries[i]));
            lemma_settled_entry_is_kept(fs, sides, (depth - 1) as nat, a, b, job, entries[i]);
        }
    }
}

/// Where nothing is left to do about the entries from `next` on, nothing is changed.
proof fn lemma_settled_entries_change_nothing<D>(
    fs: FileSystem<D>,
    sides: Sides,
    depth: nat,
    disk: D,
    job: CopyJob<Seq<char>>,
    entries: Seq<Seq<char>>,
    next: int,
)
    requires
        fs.is_faithful(sides),
        0 <= next <= entries.len(),
        forall|i: int|
            next <= i < entries.len() ==> settled_entry(
                fs,
                depth,
                disk,
                job,
                #[trigger] entries[i],
            ),
    ensures
        fates(fs, depth, disk, job, entries, next).1 == disk,
        fates(fs, depth, disk, job, entries, next).2 == Ok::<(), CopyError<Seq<char>>>(()),
    decreases depth, 1int, entries.len() - next,
{
    if next < entries.len() {
        let entry = entries[next];
        assert(settled_entry(fs, depth, disk, job, entry));
        let decided = fate(fs, disk, job, entry);
        match decided {
            Fate::Entered(submodule) => {
                settled_copy_changes_nothing(fs, sides, depth, disk, submodule);
            },
            Fate::Copied(_, _, directory) => {
                assert(fs.creates(sides, disk, directory));
            },
            _ => {},
        }
        let (_, after, result) = meet(fs, depth, disk, decided);
        assert(after == disk && result is Ok);
        lemma_settled_entries_change_nothing(fs, sides, depth, disk, job, entries, next + 1);
    }
}

/// A copy that has nothing left to do changes nothing, and succeeds.
pub proof fn settled_copy_changes_nothing<D>(
    fs: FileSystem<D>,
    sides: Sides,
    depth: nat,
    disk: D,
    job: CopyJob<Seq<char>>,
)
    requires
        fs.is_faithful(sides),
        settled(fs, depth, disk, job),
    ensures
        copy_tracked(fs, depth, disk, job) == (disk, Ok::<(), CopyError<Seq<char>>>(())),
    decreases depth, 0int, 0int,
{
    tracked_copy_meets_the_fates(fs, depth, disk, job);
    let inner = (depth - 1) as nat;
    if (fs.exists)(disk, joined_path(job.source, ".git"@)) == Some(true) {
        let entries = listed_entries(fs, job.source)->0;
        lemma_settled_entries_change_nothing(fs, sides, inner, disk, job, entries, 0);
    }
}

/// After an entry met its fate, nothing is left to do about it.
proof fn lemma_met_entry_is_settled<D>(
    fs: FileSystem<D>,
    sides: Sides,
    depth: nat,
    disk: D,
    job: CopyJob<Seq<char>>,
    entry: Seq<char>,
)
    requires
        sides.are_closed(fs),
        fs.is_faithful(sides),
        is_enclosed(fs, sides, job, entry),
        meet(fs, depth, disk, fate(fs, disk, job, entry)).2 is Ok,
    ensures
        sides.kept(fs, disk, meet(fs, depth, disk, fate(fs, disk, job, entry)).1),
        settled_entry(
            fs,
            depth,
            meet(fs, depth, disk, fate(fs, disk, job, entry)).1,
            job,
            entry,
        ),
    decreases depth, 1int, 0int,
{
    let path = entry_path(entry);
    let at_hand = entry_job(job, path);
    let decided = fate(fs, disk, job, entry);
    let after = meet(fs, depth, disk, decided).1;
    assert(sides.encloses(fs, job.source, job.destination, entry));
    match decided {
        Fate::Skipped => {
            assert(after == disk);
        },
        Fate::Failed(_) => {},
        Fate::Entered(submodule) => {
            copied_files_are_settled(fs, sides, depth, disk, submodule);
            lemma_source_is_kept(fs, sides, disk, after, job, entry);
            assert(sides.is_not_lost(fs, disk, after, at_hand.destination));
        },
        Fate::Copied(_, kind, directory) => {
            let (made, created) = (fs.create_dir_all)(disk, directory);
            assert(sides.is_target(directory));
            assert(fs.creates(sides, disk, directory));
            assert(created);
            assert(sides.kept(fs, disk, made));
            lemma_source_is_kept(fs, sides, disk, made, job, entry);
            entry_copy_keeps(fs, sides, made, at_hand, kind);
            copied_entry_is_there(fs, sides, made, at_hand, kind);
            keeping_is_transitive(fs, sides, disk, made, after);
            lemma_source_is_kept(fs, sides, disk, after, job, entry);
        },
        Fate::CopiedWhole(submodule) => {
            let (made, created) = (fs.create_dir_all)(disk, submodule.destination);
            assert(fs.creates(sides, disk, submodule.destination));
            assert(created);
            let (walked, _) = copy_walked(fs, made, submodule);
            walked_directories_are_there(fs, sides, made, submodule);
            keeping_is_transitive(fs, sides, disk, made, walked);
            copied_files_are_settled(fs, sides, depth, walked, submodule);
            keeping_is_transitive(fs, sides, disk, walked, after);
            keeping_is_transitive(fs, sides, made, walked, after);
            lemma_source_is_kept(fs, sides, disk, after, job, entry);
            assert(fs.creates(sides, made, submodule.destination));
            assert(sides.is_not_lost(fs, made, after, at_hand.destination));
        },
    }
}

/// The source of an entry is the same on both disks.
proof fn lemma_source_is_kept<D>(
    fs: FileSystem<D>,
    sides: Sides,
    a: D,
    b: D,
    job: CopyJob<Seq<char>>,
    entry: Seq<char>,
)
    requires
        sides.are_closed(fs),
        is_enclosed(fs, sides, job, entry),
        entry.contains('\t'),
        sides.kept(fs, a, b),
    ensures
        is_behind_symlink(fs, a, job.source, entry_path(entry)) == is_behind_symlink(
            fs,
            b,
            job.source,
            entry_path(entry),
        ),
        (fs.found)(a, joined_path(job.source, entry_path(entry))) == (fs.found)(
            b,
            joined_path(job.source, entry_path(entry)),
        ),
{
    let path = entry_path(entry);
    assert(sides.encloses(fs, job.source, job.destination, entry));
    assert(sides.is_same(fs, a, b, joined_path(job.source, path)));
    assert forall|i: int| 0 <= i < named_ancestors(path).len() implies (fs.symlink)(
        a,
        #[trigger] joined_path(job.source, named_ancestors(path)[i]),
    ) == (fs.symlink)(b, joined_path(job.source, named_ancestors(path)[i])) by {
        assert(sides.is_same(fs, a, b, joined_path(job.source, named_ancestors(path)[i])));
    }
}

/// After the entries from `next` on met their fates, nothing is left to do about them.
proof fn lemma_met_entries_are_settled<D>(
    fs: FileSystem<D>,
    sides: Sides,
    depth: nat,
    disk: D,
    job: CopyJob<Seq<char>>,
    entries: Seq<Seq<char>>,
    next: int,
)
    requires
        sides.are_closed(fs),
        fs.is_faithful(sides),
        sides.is_source(job.source),
        sides.is_target(job.destination),
        listed_entries(fs, job.source) == Some(entries),
        0 <= next <= entries.len(),
        fates(fs, depth, disk, job, entries, next).2 is Ok,
    ensures
        sides.kept(fs, disk, fates(fs, depth, disk, job, entries, next).1),
        forall|i: int|
            next <= i < entries.len() ==> settled_entry(
                fs,
                depth,
                fates(fs, depth, disk, job, entries, next).1,
                job,
                #[trigger] entries[i],
            ),
    decreases depth, 2int, entries.len() - next,
{
    if next < entries.len() {
        let entry = entries[next];
        assert(entries.contains(entry));
        let after = meet(fs, depth, disk, fate(fs, disk, job, entry)).1;
        let last = fates(fs, depth, disk, job, entries, next).1;
        lemma_met_entry_is_settled(fs, sides, depth, disk, job, entry);
        lemma_met_entries_are_settled(fs, sides, depth, after, job, entries, next + 1);
        lemma_settled_entry_is_kept(fs, sides, depth, after, last, job, entry);
        keeping_is_transitive(fs, sides, disk, after, last);
    }
}

/// After a copy that succeeded, nothing is left to do; it left what is read from as it is, and lost
/// nothing.
pub proof fn copied_files_are_settled<D>(
    fs: FileSystem<D>,
    sides: Sides,
    depth: nat,
    disk: D,
    job: CopyJob<Seq<char>>,
)
    requires
        sides.are_closed(fs),
        fs.is_faithful(sides),
        sides.is_source(job.source),
        sides.is_target(job.destination),
        copy_tracked(fs, depth, disk, job).1 is Ok,
    ensures
        sides.kept(fs, disk, copy_tracked(fs, depth, disk, job).0),
        settled(fs, depth, copy_tracked(fs, depth, disk, job).0, job),
    decreases depth, 0int, 0int,
{
    assert(depth > 0);
    tracked_copy_meets_the_fates(fs, depth, disk, job);
    let inner = (depth - 1) as nat;
    let git = joined_path(job.source, ".git"@);
    assert(sides.is_source(git));
    if (fs.exists)(disk, git) == Some(true) {
        let entries = listed_entries(fs, job.source)->0;
        let after = copy_tracked(fs, depth, disk, job).0;
        lemma_met_entries_are_settled(fs, sides, inner, disk, job, entries, 0);
        assert(sides.is_same(fs, disk, after, git));
    }
}

/// A second copy of tracked files changes nothing: where a copy succeeded, another one leaves
/// the disk as the first left it, and succeeds.
pub proof fn second_copy_changes_nothing<D>(
    fs: FileSystem<D>,
    sides: Sides,
    depth: nat,
    disk: D,
    job: CopyJob<Seq<char>>,
)
    requires
        sides.are_closed(fs),
        fs.is_faithful(sides),
        sides.is_source(job.source),
        sides.is_target(job.destination),
        copy_tracked(fs, depth, disk, job).1 is Ok,
    ensures
        copy_tracked(fs, depth, copy_tracked(fs, depth, disk, job).0, job) == (
            copy_tracked(fs, depth, disk, job).0,
            Ok::<(), CopyError<Seq<char>>>(()),
        ),
{
    copied_files_are_settled(fs, sides, depth, disk, job);
    settled_copy_changes_nothing(fs, sides, depth, copy_tracked(fs, depth, disk, job).0, job);
}

/// What becomes of a tracked entry is decided by its mode, by what is at its source and by what is
/// at its destination. Whatever its path is, one that is there is never skipped, unless something
/// is at its destination or a directory that is no submodule replaced it.
pub proof fn tracked_entries_meet_the_fate_of_what_they_are<D>(
    fs: FileSystem<D>,
    disk: D,
    job: CopyJob<Seq<char>>,
    metadata: Seq<char>,
    path: Seq<char>,
)
    requires
        !metadata.contains('\t'),
        forall|i: int|
            0 <= i < named_ancestors(path).len() ==> !(fs.symlink)(
                disk,
                #[trigger] joined_path(job.source, named_ancestors(path)[i]),
            ),
    ensures
        ({
            let source = joined_path(job.source, path);
            let destination = joined_path(job.destination, path);
            let at_hand = CopyJob {
                root_from: job.root_from,
                root_to: job.root_to,
                source,
                destination,
            };
            let decided = fate(fs, disk, job, metadata.push('\t') + path);
            match (fs.found)(disk, source) {
                Err(FailureKind::Other) => decided == Fate::Failed(
                    CopyError::NotInspected(source),
                ),
                Err(_) => decided is Skipped,
                Ok(FileKind::Dir) => {
                    let exists = (fs.exists)(disk, destination);
                    let is_submodule = "160000 "@.is_prefix_of(metadata);
                    &&& decided is Skipped <==> !is_submodule
                    &&& is_submodule && exists == Some(true) ==> decided == Fate::Entered(at_hand)
                    &&& is_submodule && exists == Some(false) ==> decided == Fate::CopiedWhole(
                        at_hand,
                    )
                    &&& is_submodule && exists is None ==> decided == Fate::Failed(
                        CopyError::NotInspected(destination),
                    )
                },
                Ok(kind) => {
                    &&& decided is Skipped <==> (fs.found)(disk, destination) is Ok
                    &&& (fs.found)(disk, destination) == Err::<FileKind, FailureKind>(
                        FailureKind::NotFound,
                    ) ==> match parent_path(destination) {
                        Some(directory) => decided == Fate::Copied(at_hand, kind, directory),
                        None => decided == Fate::Failed(CopyError::NoParent(destination)),
                    }
                    &&& decided is Copied ==> (fs.found)(disk, destination) == Err::<
                        FileKind,
                        FailureKind,
                    >(FailureKind::NotFound)
                },
            }
        }),
{
    tracked_paths_keep_their_white_space(metadata, path);
    assert(!is_behind_symlink(fs, disk, job.source, path));
}

/// An entry behind a symlink is skipped, and one without a path fails.
pub proof fn entries_behind_symlinks_are_skipped<D>(
    fs: FileSystem<D>,
    disk: D,
    job: CopyJob<Seq<char>>,
    entry: Seq<char>,
    metadata: Seq<char>,
    path: Seq<char>,
    i: int,
)
    ensures
        !entry.contains('\t') ==> fate(fs, disk, job, entry) == Fate::Failed(
            CopyError::NoPathSeparator(entry),
        ),
        entry == metadata.push('\t') + path && !metadata.contains('\t') && 0 <= i
            < named_ancestors(path).len() && (fs.symlink)(
            disk,
            joined_path(job.source, named_ancestors(path)[i]),
        ) ==> fate(fs, disk, job, entry) is Skipped,
{
    if !metadata.contains('\t') {
        tracked_paths_keep_their_white_space(metadata, path);
    }
}

}
