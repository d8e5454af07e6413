//! Copying one entry of a directory, symlinks as symlinks.

use crate::path::{
    is_relative, is_relative_path, join, joined_path, path_below, paths_equal, same_path,
    strip_prefix,
};
use crate::text::{debug_format, debug_text, optional_text};
use vstd::prelude::*;

verus! {

/// What an entry of a directory is, symlinks not followed.
#[derive(Debug, Clone, Copy, PartialEq, Eq, Structural)]
pub enum FileKind {
    Dir,
    Symlink,
    File,
    /// A device, a socket or the like.
    Other,
}

/// Why an operation on a file failed.
#[derive(Debug, Clone, Copy, PartialEq, Eq, Structural)]
pub enum FailureKind {
    /// There is no such file.
    NotFound,
    /// An ancestor is not a directory.
    NotADirectory,
    /// Anything else.
    Other,
}

/// Why a directory could not be copied. `S` is the type of a text.
#[derive(Debug)]
pub enum CopyError<S> {
    /// What is to be copied is not a directory.
    NotADirectory(S),
    /// The path has no last component.
    InvalidPath(S),
    /// A directory could not be created.
    NotCreated(S),
    /// The target of a symlink could not be read.
    LinkNotRead(S),
    /// An absolute symlink leads out of the copied directory.
    LinkOutside { path: S, root: S },
    /// An entry of a walk is not below the walked directory.
    EntryOutside { path: S, root: S },
    /// A symlink could not be created.
    LinkNotCreated { original: S, link: S },
    /// A file could not be copied.
    NotCopied { source: S, destination: S },
    /// It could not be found out what is at a path.
    NotInspected(S),
    /// The walk through the directory failed.
    InvalidEntry,
    /// The path of an entry of a walk is not UTF-8.
    EntryNotUtf8,
    /// What `git` lists is not UTF-8.
    ListNotUtf8,
    /// It is not known what an entry is.
    UnknownFileType(S),
    /// The tracked files could not be asked for.
    NotListed(S),
    /// The tracked files could not be listed: the directory and what was said about it.
    ListFailed { directory: S, message: S },
    /// A tracked entry has no path.
    NoPathSeparator(S),
    /// A path has no parent.
    NoParent(S),
}

impl View for CopyError<String> {
    type V = CopyError<Seq<char>>;

    open spec fn view(&self) -> CopyError<Seq<char>> {
        match self {
            CopyError::NotADirectory(path) => CopyError::NotADirectory(path@),
            CopyError::InvalidPath(path) => CopyError::InvalidPath(path@),
            CopyError::NotCreated(path) => CopyError::NotCreated(path@),
            CopyError::LinkNotRead(path) => CopyError::LinkNotRead(path@),
            CopyError::LinkOutside { path, root } => CopyError::LinkOutside {
                path: path@,
                root: root@,
            },
            CopyError::EntryOutside { path, root } => CopyError::EntryOutside {
                path: path@,
                root: root@,
            },
            CopyError::LinkNotCreated { original, link } => CopyError::LinkNotCreated {
                original: original@,
                link: link@,
            },
            CopyError::NotCopied { source, destination } => CopyError::NotCopied {
                source: source@,
                destination: destination@,
            },
            CopyError::NotInspected(path) => CopyError::NotInspected(path@),
            CopyError::InvalidEntry => CopyError::InvalidEntry,
            CopyError::EntryNotUtf8 => CopyError::EntryNotUtf8,
            CopyError::ListNotUtf8 => CopyError::ListNotUtf8,
            CopyError::UnknownFileType(path) => CopyError::UnknownFileType(path@),
            CopyError::NotListed(path) => CopyError::NotListed(path@),
            CopyError::ListFailed { directory, message } => CopyError::ListFailed {
                directory: directory@,
                message: message@,
            },
            CopyError::NoPathSeparator(entry) => CopyError::NoPathSeparator(entry@),
            CopyError::NoParent(path) => CopyError::NoParent(path@),
        }
    }
}

/// What is said about a copy that failed. Where nothing is, what the system says about it stands
/// alone.
pub open spec fn copy_message(error: CopyError<Seq<char>>) -> Option<Seq<char>> {
    match error {
        CopyError::NotADirectory(path) => Some("not a directory: "@ + debug_text(path)),
        CopyError::InvalidPath(path) => Some("invalid path "@ + debug_text(path)),
        CopyError::LinkNotRead(path) => Some("cannot read link "@ + debug_text(path)),
        CopyError::EntryOutside { .. } | CopyError::EntryNotUtf8 => Some(
            "failed to determine destination path"@,
        ),
        CopyError::LinkNotCreated { original, link } => Some(
            "cannot create symlink "@ + debug_text(original) + " -> "@ + debug_text(link),
        ),
        CopyError::NotCopied { source, destination } => Some(
            "cannot copy file "@ + debug_text(source) + " to "@ + debug_text(destination),
        ),
        CopyError::InvalidEntry => Some("invalid entry"@),
        CopyError::UnknownFileType(_) => Some("unknown file type"@),
        CopyError::NotListed(_) => Some("cannot list tracked files while copying directory"@),
        CopyError::ListFailed { directory, message } => Some(
            "cannot list tracked files in "@ + directory + ": "@ + message,
        ),
        CopyError::ListNotUtf8 => Some("non-UTF-8 tracked path"@),
        CopyError::NoPathSeparator(_) => Some("tracked entry has no path separator"@),
        CopyError::NoParent(_) => Some("tracked path has no parent"@),
        CopyError::NotCreated(_) | CopyError::LinkOutside { .. } | CopyError::NotInspected(_) => None,
    }
}

fn quoted(words: &str, path: &str) -> (r: String)
    ensures
        r@ == words@ + debug_text(path@),
{
    let mut r = words.to_owned();
    r.append(debug_format(path).as_str());
    r
}

fn quoted_pair(first: &str, a: &str, second: &str, b: &str) -> (r: String)
    ensures
        r@ == first@ + debug_text(a@) + second@ + debug_text(b@),
{
    let mut r = quoted(first, a);
    r.append(second);
    r.append(debug_format(b).as_str());
    r
}

impl CopyError<String> {
    /// What is said to the user, besides what the system says.
    pub fn message(&self) -> (r: Option<String>)
        ensures
            optional_text(r) == copy_message(self@),
    {
        match self {
            CopyError::NotADirectory(path) => Some(quoted("not a directory: ", path.as_str())),
            CopyError::InvalidPath(path) => Some(quoted("invalid path ", path.as_str())),
            CopyError::LinkNotRead(path) => Some(quoted("cannot read link ", path.as_str())),
            CopyError::EntryOutside { .. } | CopyError::EntryNotUtf8 => Some(
                "failed to determine destination path".to_owned(),
            ),
            CopyError::LinkNotCreated { original, link } => Some(
                quoted_pair("cannot create symlink ", original.as_str(), " -> ", link.as_str()),
            ),
            CopyError::NotCopied { source, destination } => Some(
                quoted_pair("cannot copy file ", source.as_str(), " to ", destination.as_str()),
            ),
            CopyError::InvalidEntry => Some("invalid entry".to_owned()),
            CopyError::UnknownFileType(_) => Some("unknown file type".to_owned()),
            CopyError::NotListed(_) => Some(
                "cannot list tracked files while copying directory".to_owned(),
            ),
            CopyError::ListFailed { directory, message } => {
                let mut r = "cannot list tracked files in ".to_owned();
                r.append(directory.as_str());
                r.append(": ");
                r.append(message.as_str());
                Some(r)
            },
            CopyError::ListNotUtf8 => Some("non-UTF-8 tracked path".to_owned()),
            CopyError::NoPathSeparator(_) => Some("tracked entry has no path separator".to_owned()),
            CopyError::NoParent(_) => Some("tracked path has no parent".to_owned()),
            CopyError::NotCreated(_) | CopyError::LinkOutside { .. } | CopyError::NotInspected(
                _,
            ) => None,
        }
    }
}

/// The model of the result of a copy.
pub open spec fn copy_result(result: Result<(), CopyError<String>>) -> Result<
    (),
    CopyError<Seq<char>>,
> {
    match result {
        Ok(_) => Ok(()),
        Err(error) => Err(error@),
    }
}

/// The target of the copy of a symlink to `link`: a relative one is kept; an absolute one
/// that is below `root_from` points to the same place below `root_to`.
pub open spec fn link_in_copy(root_from: Seq<char>, root_to: Seq<char>, link: Seq<char>) -> Option<
    Seq<char>,
> {
    if is_relative_path(link) {
        Some(link)
    } else {
        match path_below(link, root_from) {
            Some(rest) => Some(joined_path(root_to, rest)),
            None => None,
        }
    }
}

/// The target of the copy of a symlink to `link`.
pub fn relocated_link(root_from: &str, root_to: &str, link: &str) -> (r: Option<String>)
    ensures
        optional_text(r) == link_in_copy(root_from@, root_to@, link@),
        is_relative_path(link@) ==> r is Some && r->0@ == link@,
        r is Some && !is_relative_path(link@) ==> exists|rest: Seq<char>|
            same_path(joined_path(root_from@, rest), link@) && #[trigger] joined_path(root_to@, rest)
                == r->0@,
{
    if is_relative(link) {
        Some(link.to_owned())
    } else {
        match strip_prefix(link, root_from) {
            Some(rest) => {
                let target = join(root_to, rest.as_str());
                assert(joined_path(root_to@, rest@) == target@);
                Some(target)
            },
            None => None,
        }
    }
}

/// A copy of `source` to `destination`, as a part of the copy of `root_from` to `root_to`.
#[derive(Debug)]
pub struct CopyJob<S> {
    pub root_from: S,
    pub root_to: S,
    pub source: S,
    pub destination: S,
}

impl View for CopyJob<String> {
    type V = CopyJob<Seq<char>>;

    open spec fn view(&self) -> CopyJob<Seq<char>> {
        CopyJob {
            root_from: self.root_from@,
            root_to: self.root_to@,
            source: self.source@,
            destination: self.destination@,
        }
    }
}

/// What the caller is asked to do to copy an entry.
#[derive(Debug)]
pub enum EntryAction<S> {
    /// Create a directory and its ancestors, where they are missing.
    CreateDirAll(S),
    /// Read the target of a symlink.
    ReadLink(S),
    /// Create the symlink `link` to `original`.
    CreateSymlink { original: S, link: S },
    /// Copy a file.
    CopyFile { source: S, destination: S },
    /// Nothing more: the result.
    Finish(Result<(), CopyError<S>>),
}

impl View for EntryAction<String> {
    type V = EntryAction<Seq<char>>;

    open spec fn view(&self) -> EntryAction<Seq<char>> {
        match self {
            EntryAction::CreateDirAll(path) => EntryAction::CreateDirAll(path@),
            EntryAction::ReadLink(path) => EntryAction::ReadLink(path@),
            EntryAction::CreateSymlink { original, link } => EntryAction::CreateSymlink {
                original: original@,
                link: link@,
            },
            EntryAction::CopyFile { source, destination } => EntryAction::CopyFile {
                source: source@,
                destination: destination@,
            },
            EntryAction::Finish(result) => EntryAction::Finish(copy_result(*result)),
        }
    }
}

/// What came of an [`EntryAction`].
#[derive(Debug)]
pub enum EntryEvent<S> {
    /// It was done.
    Done,
    /// The target of the symlink.
    Link(S),
    /// It failed.
    Failed(FailureKind),
}

impl View for EntryEvent<String> {
    type V = EntryEvent<Seq<char>>;

    open spec fn view(&self) -> EntryEvent<Seq<char>> {
        match self {
            EntryEvent::Done => EntryEvent::Done,
            EntryEvent::Link(target) => EntryEvent::Link(target@),
            EntryEvent::Failed(kind) => EntryEvent::Failed(*kind),
        }
    }
}

/// How far the copy of an entry is.
#[derive(Debug)]
pub enum EntryStage<S> {
    CreatingDir,
    ReadingLink,
    /// Creating a symlink to this target.
    CreatingLink(S),
    CopyingFile,
    Finished,
}

impl View for EntryStage<String> {
    type V = EntryStage<Seq<char>>;

    open spec fn view(&self) -> EntryStage<Seq<char>> {
        match self {
            EntryStage::CreatingDir => EntryStage::CreatingDir,
            EntryStage::ReadingLink => EntryStage::ReadingLink,
            EntryStage::CreatingLink(target) => EntryStage::CreatingLink(target@),
            EntryStage::CopyingFile => EntryStage::CopyingFile,
            EntryStage::Finished => EntryStage::Finished,
        }
    }
}

/// The copy of an entry under way.
#[derive(Debug)]
pub struct EntryCopy<S> {
    pub job: CopyJob<S>,
    pub stage: EntryStage<S>,
}

impl View for EntryCopy<String> {
    type V = EntryCopy<Seq<char>>;

    open spec fn view(&self) -> EntryCopy<Seq<char>> {
        EntryCopy { job: self.job@, stage: self.stage@ }
    }
}

impl EntryCopy<Seq<char>> {
    /// The end, with a result.
    pub open spec fn ending(self, result: Result<(), CopyError<Seq<char>>>) -> (
        EntryCopy<Seq<char>>,
        EntryAction<Seq<char>>,
    ) {
        (EntryCopy { stage: EntryStage::Finished, ..self }, EntryAction::Finish(result))
    }

    /// The first state and action. The root of the copy is there already; what is no
    /// directory, symlink or file is not copied.
    pub open spec fn beginning(self, kind: FileKind) -> (
        EntryCopy<Seq<char>>,
        EntryAction<Seq<char>>,
    ) {
        match kind {
            FileKind::Dir => if same_path(self.job.destination, self.job.root_to) {
                self.ending(Ok(()))
            } else {
                (
                    EntryCopy { stage: EntryStage::CreatingDir, ..self },
                    EntryAction::CreateDirAll(self.job.destination),
                )
            },
            FileKind::Symlink => (
                EntryCopy { stage: EntryStage::ReadingLink, ..self },
                EntryAction::ReadLink(self.job.source),
            ),
            FileKind::File => (
                EntryCopy { stage: EntryStage::CopyingFile, ..self },
                EntryAction::CopyFile { source: self.job.source, destination: self.job.destination },
            ),
            FileKind::Other => self.ending(Ok(())),
        }
    }

    /// An event that can follow the last action.
    pub open spec fn expects(self, event: EntryEvent<Seq<char>>) -> bool {
        match self.stage {
            EntryStage::ReadingLink => event is Link || event is Failed,
            EntryStage::Finished => false,
            _ => event is Done || event is Failed,
        }
    }

    /// The next state and action. A file that is gone when it is to be copied is left out,
    /// as its deletion asks.
    pub open spec fn after(self, event: EntryEvent<Seq<char>>) -> (
        EntryCopy<Seq<char>>,
        EntryAction<Seq<char>>,
    ) {
        match (self.stage, event) {
            (EntryStage::ReadingLink, EntryEvent::Link(link)) => {
                match link_in_copy(self.job.root_from, self.job.root_to, link) {
                    Some(original) => (
                        EntryCopy { stage: EntryStage::CreatingLink(original), ..self },
                        EntryAction::CreateSymlink { original, link: self.job.destination },
                    ),
                    None => self.ending(
                        Err(CopyError::LinkOutside { path: link, root: self.job.root_from }),
                    ),
                }
            },
            (EntryStage::CopyingFile, EntryEvent::Failed(FailureKind::NotFound)) => self.ending(
                Ok(()),
            ),
            (EntryStage::CreatingDir, EntryEvent::Failed(_)) => self.ending(
                Err(CopyError::NotCreated(self.job.destination)),
            ),
            (EntryStage::ReadingLink, _) => self.ending(Err(CopyError::LinkNotRead(self.job.source))),
            (EntryStage::CreatingLink(original), EntryEvent::Failed(_)) => self.ending(
                Err(CopyError::LinkNotCreated { original, link: self.job.destination }),
            ),
            (EntryStage::CopyingFile, EntryEvent::Failed(_)) => self.ending(
                Err(
                    CopyError::NotCopied {
                        source: self.job.source,
                        destination: self.job.destination,
                    },
                ),
            ),
            _ => self.ending(Ok(())),
        }
    }
}

impl EntryCopy<String> {
    fn finish(self, result: Result<(), CopyError<String>>) -> (r: (
        EntryCopy<String>,
        EntryAction<String>,
    ))
        ensures
            (r.0@, r.1@) == self@.ending(copy_result(result)),
    {
        (EntryCopy { stage: EntryStage::Finished, ..self }, EntryAction::Finish(result))
    }

    /// The copy of an entry of this kind, and the first action.
    pub fn start(job: CopyJob<String>, kind: FileKind) -> (r: (
        EntryCopy<String>,
        EntryAction<String>,
    ))
        ensures
            (r.0@, r.1@) == (EntryCopy { job: job@, stage: EntryStage::Finished }).beginning(kind),
    {
        let source = job.source.clone();
        let destination = job.destination.clone();
        let copy = EntryCopy { job, stage: EntryStage::Finished };
        match kind {
            FileKind::Dir => {
                if paths_equal(copy.job.destination.as_str(), copy.job.root_to.as_str()) {
                    copy.finish(Ok(()))
                } else {
                    (
                        EntryCopy { stage: EntryStage::CreatingDir, ..copy },
                        EntryAction::CreateDirAll(destination),
                    )
                }
            },
            FileKind::Symlink => (
                EntryCopy { stage: EntryStage::ReadingLink, ..copy },
                EntryAction::ReadLink(source),
            ),
            FileKind::File => (
                EntryCopy { stage: EntryStage::CopyingFile, ..copy },
                EntryAction::CopyFile { source, destination },
            ),
            FileKind::Other => copy.finish(Ok(())),
        }
    }

    /// The next state and action, after what came of the last action.
    pub fn step(self, event: EntryEvent<String>) -> (r: (EntryCopy<String>, EntryAction<String>))
        requires
            self@.expects(event@),
        ensures
            (r.0@, r.1@) == self@.after(event@),
    {
        match (&self.stage, event) {
            (EntryStage::ReadingLink, EntryEvent::Link(link)) => {
                let target = relocated_link(
                    self.job.root_from.as_str(),
                    self.job.root_to.as_str(),
                    link.as_str(),
                );
                match target {
                    Some(original) => {
                        let action = EntryAction::CreateSymlink {
                            original: original.clone(),
                            link: self.job.destination.clone(),
                        };
                        (EntryCopy { stage: EntryStage::CreatingLink(original), ..self }, action)
                    },
                    None => {
                        let root = self.job.root_from.clone();
                        self.finish(Err(CopyError::LinkOutside { path: link, root }))
                    },
                }
            },
            (EntryStage::CopyingFile, EntryEvent::Failed(FailureKind::NotFound)) => self.finish(
                Ok(()),
            ),
            (EntryStage::CreatingDir, EntryEvent::Failed(_)) => {
                let path = self.job.destination.clone();
                self.finish(Err(CopyError::NotCreated(path)))
            },
            (EntryStage::ReadingLink, _) => {
                let path = self.job.source.clone();
                self.finish(Err(CopyError::LinkNotRead(path)))
            },
            (EntryStage::CreatingLink(target), EntryEvent::Failed(_)) => {
                let original = target.clone();
                let link = self.job.destination.clone();
                self.finish(Err(CopyError::LinkNotCreated { original, link }))
            },
            (EntryStage::CopyingFile, EntryEvent::Failed(_)) => {
                let source = self.job.source.clone();
                let destination = self.job.destination.clone();
                self.finish(Err(CopyError::NotCopied { source, destination }))
            },
            _ => self.finish(Ok(())),
        }
    }
}

/// What an action writes is `destination` or nothing.
pub open spec fn writes_only(action: EntryAction<Seq<char>>, destination: Seq<char>) -> bool {
    match action {
        EntryAction::CreateDirAll(path) => path == destination,
        EntryAction::CreateSymlink { link, .. } => link == destination,
        EntryAction::CopyFile { destination: path, .. } => path == destination,
        EntryAction::ReadLink(_) | EntryAction::Finish(_) => true,
    }
}

/// The copy of an entry writes its destination and nothing else.
pub proof fn copy_writes_its_destination_only(
    copy: EntryCopy<Seq<char>>,
    kind: FileKind,
    event: EntryEvent<Seq<char>>,
)
    ensures
        writes_only(copy.beginning(kind).1, copy.job.destination),
        copy.beginning(kind).0.job == copy.job,
        writes_only(copy.after(event).1, copy.job.destination),
        copy.after(event).0.job == copy.job,
{
}

/// A symlink becomes a symlink, and its target is kept where it is relative.
pub proof fn relative_links_are_kept(copy: EntryCopy<Seq<char>>, link: Seq<char>)
    requires
        is_relative_path(link),
    ensures
        copy.beginning(FileKind::Symlink).1 == EntryAction::ReadLink(copy.job.source),
        copy.beginning(FileKind::Symlink).0.after(EntryEvent::Link(link)).1
            == (EntryAction::CreateSymlink { original: link, link: copy.job.destination }),
{
}

/// An absolute symlink to a place below the root of the copy points to the same place below
/// the copy.
pub proof fn absolute_links_move_with_the_copy(copy: EntryCopy<Seq<char>>, link: Seq<char>)
    requires
        !is_relative_path(link),
        path_below(link, copy.job.root_from) is Some,
    ensures
        copy.beginning(FileKind::Symlink).0.after(EntryEvent::Link(link)).1
            == (EntryAction::CreateSymlink {
            original: joined_path(copy.job.root_to, path_below(link, copy.job.root_from)->0),
            link: copy.job.destination,
        }),
{
}

/// A file that disappears before it is copied is no error.
pub proof fn vanished_file_is_no_error(copy: EntryCopy<Seq<char>>)
    ensures
        copy.beginning(FileKind::File).0.after(EntryEvent::Failed(FailureKind::NotFound)).1
            == EntryAction::<Seq<char>>::Finish(Ok(())),
{
}

/// A relative link is kept. An absolute one below the root of the copied directory points to the
/// same place below the copy, and one that is not below it has no place there.
pub proof fn links_are_relocated_with_the_root(
    root_from: &str,
    root_to: &str,
    link: &str,
    r: Option<String>,
)
    requires
        call_ensures(relocated_link, (root_from, root_to, link), r),
    ensures
        is_relative_path(link@) ==> (r matches Some(kept) && kept@ == link@),
        !is_relative_path(link@) ==> {
            &&& r is Some <==> path_below(link@, root_from@) is Some
            &&& path_below(link@, root_from@) matches Some(rest) ==> r->0@ == joined_path(
                root_to@,
                rest,
            )
        },
{
}

/// A directory is created, unless it is the root of the copy; the target of a symlink is read; a
/// file is copied; and nothing is done about anything else.
pub proof fn entries_are_copied_as_what_they_are(
    job: CopyJob<String>,
    kind: FileKind,
    r: (EntryCopy<String>, EntryAction<String>),
)
    requires
        call_ensures(EntryCopy::<String>::start, (job, kind), r),
    ensures
        kind == FileKind::Dir && same_path(job.destination@, job.root_to@) ==> r.1@
            == EntryAction::<Seq<char>>::Finish(Ok(())),
        kind == FileKind::Dir && !same_path(job.destination@, job.root_to@) ==> r.1@
            == EntryAction::CreateDirAll(job.destination@) && r.0@.stage is CreatingDir,
        kind == FileKind::Symlink ==> r.1@ == EntryAction::ReadLink(job.source@) && r.0@.stage
            is ReadingLink,
        kind == FileKind::File ==> r.1@ == (EntryAction::CopyFile {
            source: job.source@,
            destination: job.destination@,
        }) && r.0@.stage is CopyingFile,
        kind == FileKind::Other ==> r.1@ == EntryAction::<Seq<char>>::Finish(Ok(())),
        r.0@.job == job@,
{
}

/// A symlink is created at the destination, to the link that its target becomes in the copy. A
/// link that leads out of the copied directory is refused.
pub proof fn symlinks_are_created_in_the_copy(
    copy: EntryCopy<String>,
    link: String,
    r: (EntryCopy<String>, EntryAction<String>),
)
    requires
        copy@.stage is ReadingLink,
        call_ensures(EntryCopy::<String>::step, (copy, EntryEvent::Link(link)), r),
    ensures
        is_relative_path(link@) ==> r.1@ == (EntryAction::CreateSymlink {
            original: link@,
            link: copy.job.destination@,
        }),
        !is_relative_path(link@) ==> match path_below(link@, copy.job.root_from@) {
            Some(rest) => r.1@ == (EntryAction::CreateSymlink {
                original: joined_path(copy.job.root_to@, rest),
                link: copy.job.destination@,
            }),
            None => r.1@ == EntryAction::Finish(
                Err(CopyError::LinkOutside { path: link@, root: copy.job.root_from@ }),
            ),
        },
        r.1@ matches EntryAction::CreateSymlink { original, .. } ==> r.0@.stage
            == EntryStage::CreatingLink(original) && r.0@.job == copy@.job,
{
}

/// What is done ends the copy well. What fails ends it with an error, except for a file that is
/// not there any more.
pub proof fn only_vanished_files_are_no_error(
    copy: EntryCopy<String>,
    event: EntryEvent<String>,
    r: (EntryCopy<String>, EntryAction<String>),
)
    requires
        copy@.expects(event@),
        call_ensures(EntryCopy::<String>::step, (copy, event), r),
    ensures
        event is Done ==> r.1@ == EntryAction::<Seq<char>>::Finish(Ok(())),
        event matches EntryEvent::Failed(kind) ==> {
            &&& copy@.stage is CreatingDir ==> r.1@ == EntryAction::Finish(
                Err(CopyError::NotCreated(copy.job.destination@)),
            )
            &&& copy@.stage is ReadingLink ==> r.1@ == EntryAction::Finish(
                Err(CopyError::LinkNotRead(copy.job.source@)),
            )
            &&& copy@.stage matches EntryStage::CreatingLink(original) ==> r.1@
                == EntryAction::Finish(
                Err(CopyError::LinkNotCreated { original, link: copy.job.destination@ }),
            )
            &&& copy@.stage is CopyingFile && kind == FailureKind::NotFound ==> r.1@
                == EntryAction::<Seq<char>>::Finish(Ok(()))
            &&& copy@.stage is CopyingFile && kind != FailureKind::NotFound ==> r.1@
                == EntryAction::Finish(
                Err(
                    CopyError::NotCopied {
                        source: copy.job.source@,
                        destination: copy.job.destination@,
                    },
                ),
            )
        },
{
}

/// The copy of an entry goes from state to state as [`EntryCopy::after`] says.
pub proof fn entry_copy_goes_on_by_its_state(
    copy: EntryCopy<String>,
    event: EntryEvent<String>,
    r: (EntryCopy<String>, EntryAction<String>),
)
    requires
        call_ensures(EntryCopy::<String>::step, (copy, event), r),
    ensures
        (r.0@, r.1@) == copy@.after(event@),
{
}

/// What is said about a copy that failed names the paths that it is about.
pub proof fn failed_copies_are_named(error: &CopyError<String>, r: Option<String>)
    requires
        call_ensures(CopyError::<String>::message, (error,), r),
    ensures
        *error matches CopyError::NotADirectory(path) ==> r is Some && r->0@
            == "not a directory: "@ + debug_text(path@),
        *error matches CopyError::InvalidPath(path) ==> r is Some && r->0@ == "invalid path "@
            + debug_text(path@),
        *error matches CopyError::LinkNotRead(path) ==> r is Some && r->0@
            == "cannot read link "@ + debug_text(path@),
        *error matches CopyError::LinkNotCreated { original, link } ==> r is Some && r->0@
            == "cannot create symlink "@ + debug_text(original@) + " -> "@ + debug_text(link@),
        *error matches CopyError::NotCopied { source, destination } ==> r is Some && r->0@
            == "cannot copy file "@ + debug_text(source@) + " to "@ + debug_text(destination@),
        *error matches CopyError::ListFailed { directory, message } ==> r is Some && r->0@
            == "cannot list tracked files in "@ + directory@ + ": "@ + message@,
        *error is EntryOutside || *error is EntryNotUtf8 ==> r is Some && r->0@
            == "failed to determine destination path"@,
        *error is InvalidEntry ==> r is Some && r->0@ == "invalid entry"@,
        *error is UnknownFileType ==> r is Some && r->0@ == "unknown file type"@,
        *error is NotListed ==> r is Some && r->0@
            == "cannot list tracked files while copying directory"@,
        *error is ListNotUtf8 ==> r is Some && r->0@ == "non-UTF-8 tracked path"@,
        *error is NoPathSeparator ==> r is Some && r->0@ == "tracked entry has no path separator"@,
        *error is NoParent ==> r is Some && r->0@ == "tracked path has no parent"@,
        *error is NotCreated || *error is LinkOutside || *error is NotInspected ==> r is None,
{
}

/// The copy goes on from each state, whatever comes of its action.
pub proof fn entry_copy_takes_what_can_come(copy: EntryCopy<String>, event: EntryEvent<String>)
    ensures
        match copy.stage {
            EntryStage::ReadingLink => event is Link || event is Failed,
            EntryStage::Finished => false,
            _ => event is Done || event is Failed,
        } ==> call_requires(EntryCopy::<String>::step, (copy, event)),
{
}

}
