//! The file system that directories are copied on.

use crate::copy_dir::{entry_destination, is_walk, DirectoryEvent, Walk};
use crate::copy_entry::{
    link_in_copy, CopyError, CopyJob, EntryAction, EntryCopy, EntryEvent, EntryStage, FailureKind,
    FileKind,
};
use crate::copy_tracked::{entry_path, named_ancestors, TrackedEvent};
use crate::path::{joined_path, parent_path, path_components, same_path};
use crate::text::terminated_pieces;
use vstd::prelude::*;
use vstd::utf8::{decode_utf8, valid_utf8};

verus! {

/// The file system that a copy works on. `D` is what the disk holds at one time. What the
/// indexes list does not change.
#[verifier::reject_recursive_types(D)]
pub struct FileSystem<D> {
    /// Whether a path is a symlink.
    pub symlink: spec_fn(D, Seq<char>) -> bool,
    /// What is at a path, symlinks not followed.
    pub found: spec_fn(D, Seq<char>) -> Result<FileKind, FailureKind>,
    /// Whether a path exists, symlinks followed.
    pub exists: spec_fn(D, Seq<char>) -> Option<bool>,
    /// Whether a path is a directory, symlinks followed.
    pub is_dir: spec_fn(D, Seq<char>) -> bool,
    /// What comes of listing the index of a directory.
    pub listed: spec_fn(Seq<char>) -> TrackedEvent<Seq<char>, Seq<u8>>,
    /// The disk after a directory and its ancestors were created, and whether that worked.
    pub create_dir_all: spec_fn(D, Seq<char>) -> (D, bool),
    /// The target of a symlink.
    pub read_link: spec_fn(D, Seq<char>) -> Result<Seq<char>, FailureKind>,
    /// The disk after a symlink to the first path was created at the second, and what came of it.
    pub create_symlink: spec_fn(D, Seq<char>, Seq<char>) -> (D, Result<(), FailureKind>),
    /// The disk after the file at the first path was copied to the second, and what came of it.
    pub copy_file: spec_fn(D, Seq<char>, Seq<char>) -> (D, Result<(), FailureKind>),
    /// What a walk of the copy of a directory comes to, up to its end.
    pub walked: spec_fn(D, Walk, Seq<char>) -> Seq<DirectoryEvent<Seq<char>>>,
}

/// The entries that the index of a directory lists; nothing where it could not be listed.
pub open spec fn listed_entries<D>(fs: FileSystem<D>, directory: Seq<char>) -> Option<
    Seq<Seq<char>>,
> {
    match (fs.listed)(directory) {
        TrackedEvent::Listed { success, stdout, .. } => if success && valid_utf8(stdout) {
            Some(terminated_pieces(decode_utf8(stdout), '\0'))
        } else {
            None
        },
        _ => None,
    }
}

/// Which paths a copy reads from, and which it writes to.
pub struct Sides {
    pub source: spec_fn(Seq<char>) -> bool,
    pub target: spec_fn(Seq<char>) -> bool,
}

impl Sides {
    /// The path is read from.
    pub open spec fn is_source(self, path: Seq<char>) -> bool {
        (self.source)(path)
    }

    /// The path is written to.
    pub open spec fn is_target(self, path: Seq<char>) -> bool {
        (self.target)(path)
    }

    /// A tracked entry of the directory `from` lies on the side of `from`, and its copy in `to`
    /// lies on that of `to`.
    pub open spec fn encloses<D>(
        self,
        fs: FileSystem<D>,
        from: Seq<char>,
        to: Seq<char>,
        entry: Seq<char>,
    ) -> bool {
        let path = entry_path(entry);
        self.is_source(from) && self.is_target(to) && (listed_entries(fs, from) matches Some(
            entries,
        ) && entries.contains(entry)) && entry.contains('\t') ==> {
            &&& self.is_source(joined_path(from, path))
            &&& forall|i: int|
                0 <= i < named_ancestors(path).len() ==> self.is_source(
                    #[trigger] joined_path(from, named_ancestors(path)[i]),
                )
            &&& self.is_target(joined_path(to, path))
            &&& parent_path(joined_path(to, path)) matches Some(directory) ==> self.is_target(
                directory,
            )
        }
    }

    /// What a walk through the directory `from` comes to is copied to the side of `to`.
    pub open spec fn encloses_walk<D>(
        self,
        fs: FileSystem<D>,
        disk: D,
        walk: Walk,
        from: Seq<char>,
        to: Seq<char>,
    ) -> bool {
        self.is_source(from) && self.is_target(to) ==> self.takes_entries(
            (fs.walked)(disk, walk, from),
            from,
            to,
        )
    }

    /// What these entries of a walk through `from` are copied to lies on the side of `to`.
    pub open spec fn takes_entries(
        self,
        entries: Seq<DirectoryEvent<Seq<char>>>,
        from: Seq<char>,
        to: Seq<char>,
    ) -> bool {
        &&& is_walk(entries)
        &&& forall|i: int|
            0 <= i < entries.len() ==> ((#[trigger] entries[i]) matches DirectoryEvent::Entry {
                path: Some(path),
                ..
            } ==> (entry_destination(to, path, from) matches Some(destination) ==> self.is_target(
                destination,
            )))
    }

    /// What is tracked or walked in a directory lies on the side of the directory, and so do the
    /// copies.
    pub open spec fn are_closed<D>(self, fs: FileSystem<D>) -> bool {
        &&& forall|from: Seq<char>|
            self.is_source(from) ==> self.is_source(#[trigger] joined_path(from, ".git"@))
        &&& forall|from: Seq<char>, to: Seq<char>, entry: Seq<char>|
            #[trigger] self.encloses(fs, from, to, entry)
        &&& forall|disk: D, walk: Walk, from: Seq<char>, to: Seq<char>| #[trigger]
            self.encloses_walk(fs, disk, walk, from, to)
    }

    /// From disk `a` to disk `b`, what is read from stays as it is, and nothing that is written
    /// to is lost.
    pub open spec fn kept<D>(self, fs: FileSystem<D>, a: D, b: D) -> bool {
        &&& forall|path: Seq<char>| #[trigger] self.is_source(path) ==> self.is_same(fs, a, b, path)
        &&& forall|path: Seq<char>| #[trigger]
            self.is_target(path) ==> self.is_not_lost(fs, a, b, path)
    }

    /// `path` is the same on both disks.
    pub open spec fn is_same<D>(self, fs: FileSystem<D>, a: D, b: D, path: Seq<char>) -> bool {
        &&& (fs.symlink)(a, path) == (fs.symlink)(b, path)
        &&& (fs.found)(a, path) == (fs.found)(b, path)
        &&& (fs.exists)(a, path) == (fs.exists)(b, path)
        &&& forall|walk: Walk| #[trigger] (fs.walked)(a, walk, path) == (fs.walked)(b, walk, path)
    }

    /// What is at `path` on disk `a` is still there on disk `b`. What is missing in a directory
    /// on disk `a` is there or still missing.
    pub open spec fn is_not_lost<D>(self, fs: FileSystem<D>, a: D, b: D, path: Seq<char>) -> bool {
        &&& (fs.found)(a, path) is Ok ==> (fs.found)(b, path) is Ok
        &&& (fs.exists)(a, path) == Some(true) ==> (fs.exists)(b, path) == Some(true)
        &&& (fs.is_dir)(a, path) ==> (fs.is_dir)(b, path)
        &&& is_missing_in_directory(fs, a, path) ==> (fs.found)(b, path) is Ok
            || is_missing_in_directory(fs, b, path)
    }
}

/// Nothing is at `path`, and its parent is a directory.
pub open spec fn is_missing_in_directory<D>(fs: FileSystem<D>, disk: D, path: Seq<char>) -> bool {
    &&& (fs.found)(disk, path) == Err::<FileKind, FailureKind>(FailureKind::NotFound)
    &&& parent_path(path) matches Some(directory) && (fs.is_dir)(disk, directory)
}

impl<D> FileSystem<D> {
    /// A directory that was created is one; what was missing in it is there or still missing.
    pub open spec fn creates(self, sides: Sides, disk: D, path: Seq<char>) -> bool {
        let (after, created) = (self.create_dir_all)(disk, path);
        &&& sides.is_target(path) ==> sides.kept(self, disk, after)
        &&& created ==> (self.is_dir)(after, path)
        &&& created ==> forall|entry: Seq<char>| #[trigger]
            parent_path(entry) == Some(path) && (self.found)(disk, entry) == Err::<
                FileKind,
                FailureKind,
            >(FailureKind::NotFound) ==> (self.found)(after, entry) is Ok
                || is_missing_in_directory(self, after, entry)
        &&& (self.is_dir)(disk, path) ==> (after, created) == (disk, true)
        &&& (self.is_dir)(disk, path) ==> (self.exists)(disk, path) == Some(true)
    }

    /// A symlink that was created is there.
    pub open spec fn links(
        self,
        sides: Sides,
        disk: D,
        original: Seq<char>,
        link: Seq<char>,
    ) -> bool {
        let (after, result) = (self.create_symlink)(disk, original, link);
        sides.is_target(link) ==> {
            &&& sides.kept(self, disk, after)
            &&& result is Ok ==> (self.found)(after, link) is Ok
        }
    }

    /// A file that was copied is there. That nothing is found means that there is no such file, no
    /// directory to copy it into, or a symlink in its place that leads nowhere.
    pub open spec fn copies(
        self,
        sides: Sides,
        disk: D,
        source: Seq<char>,
        destination: Seq<char>,
    ) -> bool {
        let (after, result) = (self.copy_file)(disk, source, destination);
        sides.is_target(destination) ==> {
            &&& sides.kept(self, disk, after)
            &&& result is Ok ==> (self.found)(after, destination) is Ok
            &&& result == Err::<(), FailureKind>(FailureKind::NotFound) ==> {
                ||| (self.found)(disk, source) != Ok::<FileKind, FailureKind>(FileKind::File)
                ||| !(parent_path(destination) matches Some(directory) && (self.is_dir)(
                    disk,
                    directory,
                ))
                ||| (self.found)(after, destination) is Ok
            }
        }
    }

    /// Whether a path is a directory depends on its components alone.
    pub open spec fn reads_components(self) -> bool {
        forall|disk: D, a: Seq<char>, b: Seq<char>|
            same_path(a, b) || path_components(a) == path_components(b) ==> #[trigger] (self.is_dir)(
                disk,
                a,
            ) == #[trigger] (self.is_dir)(disk, b)
    }

    /// Creating and copying do what they say, and leave what is read from as it is.
    pub open spec fn is_faithful(self, sides: Sides) -> bool {
        &&& forall|disk: D, path: Seq<char>| #[trigger] self.creates(sides, disk, path)
        &&& forall|disk: D, original: Seq<char>, link: Seq<char>| #[trigger]
            self.links(sides, disk, original, link)
        &&& forall|disk: D, source: Seq<char>, destination: Seq<char>| #[trigger]
            self.copies(sides, disk, source, destination)
    }
}

/// What is kept from disk `a` to disk `b` and from there to disk `c` is kept from `a` to `c`.
pub proof fn keeping_is_transitive<D>(fs: FileSystem<D>, sides: Sides, a: D, b: D, c: D)
    requires
        sides.kept(fs, a, b),
        sides.kept(fs, b, c),
    ensures
        sides.kept(fs, a, c),
{
    assert forall|path: Seq<char>| #[trigger] sides.is_source(path) implies sides.is_same(
        fs,
        a,
        c,
        path,
    ) by {
        assert(sides.is_same(fs, a, b, path));
        assert(sides.is_same(fs, b, c, path));
        assert forall|walk: Walk| #[trigger] (fs.walked)(a, walk, path) == (fs.walked)(
            c,
            walk,
            path,
        ) by {
            assert((fs.walked)(b, walk, path) == (fs.walked)(c, walk, path));
        }
    }
    assert forall|path: Seq<char>| #[trigger] sides.is_target(path) implies sides.is_not_lost(
        fs,
        a,
        c,
        path,
    ) by {
        assert(sides.is_not_lost(fs, a, b, path));
        assert(sides.is_not_lost(fs, b, c, path));
    }
}

/// How many steps the copy of an entry can be from its end.
pub open spec fn entry_distance(stage: EntryStage<Seq<char>>) -> int {
    match stage {
        EntryStage::ReadingLink => 2,
        EntryStage::CreatingDir | EntryStage::CreatingLink(_) | EntryStage::CopyingFile => 1,
        EntryStage::Finished => 0,
    }
}

/// The event that says whether an operation worked.
pub open spec fn done_or_failed(result: Result<(), FailureKind>) -> EntryEvent<Seq<char>> {
    match result {
        Ok(_) => EntryEvent::Done,
        Err(kind) => EntryEvent::Failed(kind),
    }
}

/// The disk after an action of the copy of an entry, and what came of it.
pub open spec fn perform_entry<D>(
    fs: FileSystem<D>,
    disk: D,
    action: EntryAction<Seq<char>>,
) -> (D, EntryEvent<Seq<char>>) {
    match action {
        EntryAction::CreateDirAll(path) => {
            let (after, created) = (fs.create_dir_all)(disk, path);
            (
                after,
                if created {
                    EntryEvent::Done
                } else {
                    EntryEvent::Failed(FailureKind::Other)
                },
            )
        },
        EntryAction::ReadLink(path) => (
            disk,
            match (fs.read_link)(disk, path) {
                Ok(target) => EntryEvent::Link(target),
                Err(kind) => EntryEvent::Failed(kind),
            },
        ),
        EntryAction::CreateSymlink { original, link } => {
            let (after, result) = (fs.create_symlink)(disk, original, link);
            (after, done_or_failed(result))
        },
        EntryAction::CopyFile { source, destination } => {
            let (after, result) = (fs.copy_file)(disk, source, destination);
            (after, done_or_failed(result))
        },
        EntryAction::Finish(_) => (disk, EntryEvent::Done),
    }
}

/// The disk after the copy of an entry, from a state and its action on, and the result.
pub open spec fn run_entry<D>(
    fs: FileSystem<D>,
    disk: D,
    copy: EntryCopy<Seq<char>>,
    action: EntryAction<Seq<char>>,
) -> (D, Result<(), CopyError<Seq<char>>>)
    decreases entry_distance(copy.stage),
{
    if action is Finish {
        (disk, action->Finish_0)
    } else if copy.stage is Finished {
        (disk, Ok(()))
    } else {
        let (after, event) = perform_entry(fs, disk, action);
        let (next, following) = copy.after(event);
        run_entry(fs, after, next, following)
    }
}

/// The copy of an entry of this kind: the disk afterwards, and the result.
pub open spec fn copy_entry<D>(
    fs: FileSystem<D>,
    disk: D,
    job: CopyJob<Seq<char>>,
    kind: FileKind,
) -> (D, Result<(), CopyError<Seq<char>>>) {
    let (copy, action) = (EntryCopy { job, stage: EntryStage::Finished }).beginning(kind);
    run_entry(fs, disk, copy, action)
}

/// The copy of an entry leaves what is read from as it is, and loses nothing.
pub proof fn entry_copy_keeps<D>(
    fs: FileSystem<D>,
    sides: Sides,
    disk: D,
    job: CopyJob<Seq<char>>,
    kind: FileKind,
)
    requires
        fs.is_faithful(sides),
        sides.is_target(job.destination),
    ensures
        sides.kept(fs, disk, copy_entry(fs, disk, job, kind).0),
{
    reveal_with_fuel(run_entry, 3);
    keeping_is_reflexive(fs, sides, disk);
    assert(fs.creates(sides, disk, job.destination));
    assert(fs.copies(sides, disk, job.source, job.destination));
    if let Ok(target) = (fs.read_link)(disk, job.source) {
        if let Some(original) = link_in_copy(job.root_from, job.root_to, target) {
            assert(fs.links(sides, disk, original, job.destination));
        }
    }
}

/// A file or a symlink that is there, and is copied into a directory, is there in the copy; a
/// directory that is copied is one in the copy, unless it is the root of the copy.
pub proof fn copied_entry_is_there<D>(
    fs: FileSystem<D>,
    sides: Sides,
    disk: D,
    job: CopyJob<Seq<char>>,
    kind: FileKind,
)
    requires
        fs.is_faithful(sides),
        sides.is_target(job.destination),
        copy_entry(fs, disk, job, kind).1 is Ok,
    ensures
        kind == FileKind::Dir && !same_path(job.destination, job.root_to) ==> (fs.is_dir)(
            copy_entry(fs, disk, job, kind).0,
            job.destination,
        ),
        (kind == FileKind::File || kind == FileKind::Symlink) && (fs.found)(disk, job.source)
            == Ok::<FileKind, FailureKind>(kind) && (parent_path(job.destination) matches Some(
            directory,
        ) && (fs.is_dir)(disk, directory)) ==> (fs.found)(
            copy_entry(fs, disk, job, kind).0,
            job.destination,
        ) is Ok,
        kind == FileKind::Other ==> copy_entry(fs, disk, job, kind).0 == disk,
{
    reveal_with_fuel(run_entry, 3);
    assert(fs.creates(sides, disk, job.destination));
    assert(fs.copies(sides, disk, job.source, job.destination));
    if let Ok(target) = (fs.read_link)(disk, job.source) {
        if let Some(original) = link_in_copy(job.root_from, job.root_to, target) {
            assert(fs.links(sides, disk, original, job.destination));
        }
    }
}

/// A disk keeps what it holds.
pub proof fn keeping_is_reflexive<D>(fs: FileSystem<D>, sides: Sides, disk: D)
    ensures
        sides.kept(fs, disk, disk),
{
}

}
