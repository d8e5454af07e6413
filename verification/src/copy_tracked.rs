//! Copying the files that Git tracks although ignore rules skip them.

use crate::copy_entry::{copy_result, CopyError, CopyJob, FailureKind, FileKind};
use crate::path::{ancestors, join, joined_path, parent, parent_path};
use crate::text::{
    lemma_split_is_first, lemma_text_until, lossy_text, split_once, split_terminated, starts_with,
    terminated_pieces, text_until, texts, utf8_text, utf8_text_lossy,
};
use crate::workspace::conditions_that_agree_keep_the_same;
use vstd::prelude::*;
use vstd::utf8::{decode_utf8, valid_utf8};

verus! {

/// `list` is `path`, its parent, the parent of that, and so on.
pub open spec fn is_ancestry(path: Seq<char>, list: Seq<Seq<char>>) -> bool {
    &&& list.len() > 0
    &&& list[0] == path
    &&& forall|i: int| #![trigger list[i]]
        0 <= i < list.len() - 1 ==> parent_path(list[i]) == Some(list[i + 1])
    &&& parent_path(list.last()) is None
}

/// A path, its parent, the parent of that, and so on.
pub open spec fn ancestry(path: Seq<char>) -> Seq<Seq<char>> {
    choose|list: Seq<Seq<char>>| is_ancestry(path, list)
}

proof fn lemma_ancestry_step(path: Seq<char>, a: Seq<Seq<char>>, b: Seq<Seq<char>>, i: int)
    requires
        is_ancestry(path, a),
        is_ancestry(path, b),
        0 <= i < a.len(),
    ensures
        i < b.len(),
        a[i] == b[i],
    decreases i,
{
    if i > 0 {
        lemma_ancestry_step(path, a, b, i - 1);
        assert(parent_path(a[i - 1]) == Some(a[i]));
        if i == b.len() {
            assert(b.last() == b[i - 1]);
        }
        assert(parent_path(b[i - 1]) == Some(b[i]));
    }
}

/// A path has one ancestry.
pub proof fn ancestry_is_unique(path: Seq<char>, list: Seq<Seq<char>>)
    requires
        is_ancestry(path, list),
    ensures
        list == ancestry(path),
{
    let other = ancestry(path);
    assert(is_ancestry(path, other));
    assert forall|i: int| 0 <= i < list.len() implies i < other.len() && list[i] == other[i] by {
        lemma_ancestry_step(path, list, other, i);
    }
    lemma_ancestry_step(path, list, other, list.len() - 1);
    lemma_ancestry_step(path, other, list, other.len() - 1);
    assert(list =~= other);
}

/// The ancestors of a path that have a name, the nearest first.
pub open spec fn named_ancestors(path: Seq<char>) -> Seq<Seq<char>> {
    ancestry(path).skip(1).filter(|ancestor: Seq<char>| ancestor.len() > 0)
}

/// The ancestors of `path` that have a name, the nearest first.
pub fn ancestors_to_check(path: &str) -> (r: Vec<String>)
    ensures
        texts(r@) == named_ancestors(path@),
{
    let all = ancestors(path);
    let ghost list = texts(all@);
    let ghost named = |ancestor: Seq<char>| ancestor.len() > 0;
    proof {
        assert forall|i: int| #![trigger list[i]] 0 <= i < list.len() - 1 implies parent_path(list[i])
            == Some(list[i + 1]) by {
            assert(list[i] == all@[i]@);
            assert(list[i + 1] == all@[i + 1]@);
        }
        ancestry_is_unique(path@, list);
    }
    let mut r: Vec<String> = Vec::new();
    let mut i: usize = 1;
    assert(texts(r@) =~= list.skip(1).take(0).filter(named)) by {
        reveal(Seq::filter);
    }
    while i < all.len()
        invariant
            1 <= i <= all@.len(),
            list == texts(all@),
            named == |ancestor: Seq<char>| ancestor.len() > 0,
            texts(r@) == list.skip(1).take(i - 1).filter(named),
        decreases all@.len() - i,
    {
        proof {
            reveal(Seq::filter);
            assert(list.skip(1).take(i as int).drop_last() =~= list.skip(1).take(i - 1));
            assert(list.skip(1).take(i as int).last() == list[i as int]);
        }
        if !all[i].as_str().is_empty() {
            let ghost earlier = r@;
            r.push(all[i].clone());
            assert(texts(r@) =~= texts(earlier).push(list[i as int]));
        }
        i += 1;
    }
    assert(list.skip(1).take(i - 1) =~= list.skip(1));
    r
}

/// The arguments of `git` that list the index of the directory it is run in. `git` itself
/// reads every kind of index.
pub fn list_arguments() -> (r: Vec<String>)
    ensures
        texts(r@) == seq!["--git-dir=.git"@, "ls-files"@, "--stage"@, "-z"@],
{
    let mut r: Vec<String> = Vec::new();
    r.push("--git-dir=.git".to_owned());
    r.push("ls-files".to_owned());
    r.push("--stage".to_owned());
    r.push("-z".to_owned());
    assert(texts(r@) =~= seq!["--git-dir=.git"@, "ls-files"@, "--stage"@, "-z"@]);
    r
}

/// What the index says of an entry of the list, before the tab.
pub open spec fn entry_metadata(entry: Seq<char>) -> Seq<char> {
    text_until(entry, '\t')
}

/// The path of an entry of the list, behind the first tab.
pub open spec fn entry_path(entry: Seq<char>) -> Seq<char> {
    entry.skip(entry_metadata(entry).len() as int + 1)
}

/// The entry stands for a submodule.
pub open spec fn is_gitlink(entry: Seq<char>) -> bool {
    "160000 "@.is_prefix_of(entry_metadata(entry))
}

/// What the caller is asked to do to copy tracked files.
#[derive(Debug)]
pub enum TrackedAction<S> {
    /// Say whether this path exists, symlinks followed.
    Probe(S),
    /// Run `git` with [`list_arguments`] in this directory.
    List(S),
    /// Say whether this path is a symlink.
    CheckSymlink(S),
    /// Say what is at this path, symlinks not followed.
    Inspect(S),
    /// Create a directory and its ancestors, where they are missing.
    CreateDirAll(S),
    /// Copy the tracked files of a submodule whose copy is there.
    CopyTracked(CopyJob<S>),
    /// Copy a submodule into an empty directory.
    CopyDirectory(CopyJob<S>),
    /// Copy one entry of this kind.
    CopyEntry(CopyJob<S>, FileKind),
    /// Nothing more: the result.
    Finish(Result<(), CopyError<S>>),
}

impl View for TrackedAction<String> {
    type V = TrackedAction<Seq<char>>;

    open spec fn view(&self) -> TrackedAction<Seq<char>> {
        match self {
            TrackedAction::Probe(path) => TrackedAction::Probe(path@),
            TrackedAction::List(path) => TrackedAction::List(path@),
            TrackedAction::CheckSymlink(path) => TrackedAction::CheckSymlink(path@),
            TrackedAction::Inspect(path) => TrackedAction::Inspect(path@),
            TrackedAction::CreateDirAll(path) => TrackedAction::CreateDirAll(path@),
            TrackedAction::CopyTracked(job) => TrackedAction::CopyTracked(job@),
            TrackedAction::CopyDirectory(job) => TrackedAction::CopyDirectory(job@),
            TrackedAction::CopyEntry(job, kind) => TrackedAction::CopyEntry(job@, *kind),
            TrackedAction::Finish(result) => TrackedAction::Finish(copy_result(*result)),
        }
    }
}

/// What came of a [`TrackedAction`]. `S` is the type of a text, `B` that of bytes.
#[derive(Debug)]
pub enum TrackedEvent<S, B> {
    /// Whether the path exists; `None` where that could not be found out.
    Exists(Option<bool>),
    /// What `git` printed, and whether it succeeded.
    Listed { success: bool, stdout: B, stderr: B },
    /// `git` could not be run.
    NotListed,
    /// Whether the path is a symlink.
    Symlink(bool),
    /// What is at the path.
    Found(FileKind),
    /// Why it could not be found out what is at the path.
    NotFound(FailureKind),
    /// Whether the directory was created.
    Created(bool),
    /// What came of a copy.
    Copied(Result<(), CopyError<S>>),
}

impl View for TrackedEvent<String, Vec<u8>> {
    type V = TrackedEvent<Seq<char>, Seq<u8>>;

    open spec fn view(&self) -> TrackedEvent<Seq<char>, Seq<u8>> {
        match self {
            TrackedEvent::Exists(exists) => TrackedEvent::Exists(*exists),
            TrackedEvent::Listed { success, stdout, stderr } => TrackedEvent::Listed {
                success: *success,
                stdout: stdout@,
                stderr: stderr@,
            },
            TrackedEvent::NotListed => TrackedEvent::NotListed,
            TrackedEvent::Symlink(symlink) => TrackedEvent::Symlink(*symlink),
            TrackedEvent::Found(kind) => TrackedEvent::Found(*kind),
            TrackedEvent::NotFound(kind) => TrackedEvent::NotFound(*kind),
            TrackedEvent::Created(created) => TrackedEvent::Created(*created),
            TrackedEvent::Copied(result) => TrackedEvent::Copied(copy_result(*result)),
        }
    }
}

/// How far the copy of tracked files is.
#[derive(Debug, Clone, Copy, PartialEq, Eq, Structural)]
pub enum TrackedStage {
    /// Is there a repository?
    ProbingRepository,
    /// What does it track?
    Listing,
    /// Is an ancestor of the entry a symlink?
    CheckingAncestor,
    /// What is at the source?
    InspectingSource,
    /// Is the submodule there in the copy?
    ProbingSubmodule,
    /// Creating the directory of the submodule.
    CreatingSubmodule,
    /// Copying the submodule, or its tracked files.
    CopyingSubmodule,
    /// What is at the destination?
    InspectingDestination,
    /// Creating the directory of the file.
    CreatingParent,
    /// Copying the file.
    CopyingEntry,
    /// Done.
    Finished,
}

/// The copy of the tracked files of `from` to `to` under way, as a part of the copy of
/// `root_from` to `root_to`.
#[derive(Debug)]
pub struct TrackedCopy {
    from: String,
    to: String,
    root_from: String,
    root_to: String,
    stage: TrackedStage,
    /// The entries of the list.
    entries: Vec<String>,
    /// The entry that follows the one at hand.
    next: usize,
    /// The ancestors of the entry at hand that have to be checked.
    ancestors: Vec<String>,
    /// The ancestor that is checked.
    ancestor: usize,
    /// What is at the source of the entry at hand.
    kind: FileKind,
}

/// The model of a [`TrackedCopy`].
#[verifier::ext_equal]
pub struct TrackedCopyView {
    pub from: Seq<char>,
    pub to: Seq<char>,
    pub root_from: Seq<char>,
    pub root_to: Seq<char>,
    pub stage: TrackedStage,
    pub entries: Seq<Seq<char>>,
    pub next: int,
    pub ancestors: Seq<Seq<char>>,
    pub ancestor: int,
    pub kind: FileKind,
}

impl View for TrackedCopy {
    type V = TrackedCopyView;

    closed spec fn view(&self) -> TrackedCopyView {
        TrackedCopyView {
            from: self.from@,
            to: self.to@,
            root_from: self.root_from@,
            root_to: self.root_to@,
            stage: self.stage,
            entries: texts(self.entries@),
            next: self.next as int,
            ancestors: texts(self.ancestors@),
            ancestor: self.ancestor as int,
            kind: self.kind,
        }
    }
}

impl TrackedCopyView {
    /// What a stage goes with.
    pub open spec fn is_valid(self) -> bool {
        match self.stage {
            TrackedStage::ProbingRepository | TrackedStage::Listing | TrackedStage::Finished => true,
            TrackedStage::CheckingAncestor => 0 < self.next <= self.entries.len() && 0
                <= self.ancestor < self.ancestors.len() && self.entry().contains('\t'),
            _ => 0 < self.next <= self.entries.len() && self.entry().contains('\t'),
        }
    }

    /// An event that can follow the last action.
    pub open spec fn expects(self, event: TrackedEvent<Seq<char>, Seq<u8>>) -> bool {
        match self.stage {
            TrackedStage::ProbingRepository | TrackedStage::ProbingSubmodule => event is Exists,
            TrackedStage::Listing => event is Listed || event is NotListed,
            TrackedStage::CheckingAncestor => event is Symlink,
            TrackedStage::InspectingSource | TrackedStage::InspectingDestination => event is Found
                || event is NotFound,
            TrackedStage::CreatingSubmodule | TrackedStage::CreatingParent => event is Created,
            TrackedStage::CopyingSubmodule | TrackedStage::CopyingEntry => event is Copied,
            TrackedStage::Finished => false,
        }
    }

    /// The entry at hand.
    pub open spec fn entry(self) -> Seq<char> {
        self.entries[self.next - 1]
    }

    /// Where the entry at hand is.
    pub open spec fn source(self) -> Seq<char> {
        joined_path(self.from, entry_path(self.entry()))
    }

    /// Where the entry at hand goes.
    pub open spec fn destination(self) -> Seq<char> {
        joined_path(self.to, entry_path(self.entry()))
    }

    /// The copy of the entry at hand. The roots are those of the whole copy, also inside a
    /// submodule.
    pub open spec fn job(self) -> CopyJob<Seq<char>> {
        CopyJob {
            root_from: self.root_from,
            root_to: self.root_to,
            source: self.source(),
            destination: self.destination(),
        }
    }

    /// The end, with a result.
    pub open spec fn ending(self, result: Result<(), CopyError<Seq<char>>>) -> (
        TrackedCopyView,
        TrackedAction<Seq<char>>,
    ) {
        (TrackedCopyView { stage: TrackedStage::Finished, ..self }, TrackedAction::Finish(result))
    }

    /// Check the ancestors of the entry at hand from `ancestor` on, then look at its source.
    pub open spec fn checking(self, ancestor: int) -> (TrackedCopyView, TrackedAction<Seq<char>>) {
        if ancestor < self.ancestors.len() {
            (
                TrackedCopyView { stage: TrackedStage::CheckingAncestor, ancestor, ..self },
                TrackedAction::CheckSymlink(joined_path(self.from, self.ancestors[ancestor])),
            )
        } else {
            (
                TrackedCopyView { stage: TrackedStage::InspectingSource, ..self },
                TrackedAction::Inspect(self.source()),
            )
        }
    }

    /// Take the next entry; end where there is none, and where it has no path.
    pub open spec fn taking(self) -> (TrackedCopyView, TrackedAction<Seq<char>>) {
        if self.next >= self.entries.len() {
            self.ending(Ok(()))
        } else if !self.entries[self.next].contains('\t') {
            self.ending(Err(CopyError::NoPathSeparator(self.entries[self.next])))
        } else {
            (TrackedCopyView {
                next: self.next + 1,
                ancestors: named_ancestors(entry_path(self.entries[self.next])),
                ..self
            }).checking(0)
        }
    }

    /// The next state and action.
    pub open spec fn after(self, event: TrackedEvent<Seq<char>, Seq<u8>>) -> (
        TrackedCopyView,
        TrackedAction<Seq<char>>,
    ) {
        match (self.stage, event) {
            // Only the root of a repository has an index of its own.
            (TrackedStage::ProbingRepository, TrackedEvent::Exists(exists)) => match exists {
                Some(true) => (
                    TrackedCopyView { stage: TrackedStage::Listing, ..self },
                    TrackedAction::List(self.from),
                ),
                Some(false) => self.ending(Ok(())),
                None => self.ending(Err(CopyError::NotInspected(joined_path(self.from, ".git"@)))),
            },
            (TrackedStage::Listing, TrackedEvent::Listed { success, stdout, stderr }) => {
                if !success {
                    self.ending(
                        Err(
                            CopyError::ListFailed {
                                directory: self.from,
                                message: lossy_text(stderr),
                            },
                        ),
                    )
                } else if !valid_utf8(stdout) {
                    self.ending(Err(CopyError::ListNotUtf8))
                } else {
                    (TrackedCopyView {
                        entries: terminated_pieces(decode_utf8(stdout), '\0'),
                        next: 0,
                        ..self
                    }).taking()
                }
            },
            (TrackedStage::Listing, _) => self.ending(Err(CopyError::NotListed(self.from))),
            // Behind a symlink the tracked path is deleted.
            (TrackedStage::CheckingAncestor, TrackedEvent::Symlink(symlink)) => if symlink {
                self.taking()
            } else {
                self.checking(self.ancestor + 1)
            },
            (TrackedStage::InspectingSource, TrackedEvent::Found(kind)) => {
                if kind != FileKind::Dir {
                    (
                        TrackedCopyView {
                            stage: TrackedStage::InspectingDestination,
                            kind,
                            ..self
                        },
                        TrackedAction::Inspect(self.destination()),
                    )
                } else if is_gitlink(self.entry()) {
                    (
                        TrackedCopyView { stage: TrackedStage::ProbingSubmodule, ..self },
                        TrackedAction::Probe(self.destination()),
                    )
                } else {
                    // A tracked file that a directory replaced is deleted.
                    self.taking()
                }
            },
            (TrackedStage::InspectingSource, TrackedEvent::NotFound(kind)) => match kind {
                FailureKind::NotFound | FailureKind::NotADirectory => self.taking(),
                FailureKind::Other => self.ending(Err(CopyError::NotInspected(self.source()))),
            },
            (TrackedStage::ProbingSubmodule, TrackedEvent::Exists(exists)) => match exists {
                Some(true) => (
                    TrackedCopyView { stage: TrackedStage::CopyingSubmodule, ..self },
                    TrackedAction::CopyTracked(self.job()),
                ),
                Some(false) => (
                    TrackedCopyView { stage: TrackedStage::CreatingSubmodule, ..self },
                    TrackedAction::CreateDirAll(self.destination()),
                ),
                None => self.ending(Err(CopyError::NotInspected(self.destination()))),
            },
            (TrackedStage::CreatingSubmodule, TrackedEvent::Created(created)) => if created {
                (
                    TrackedCopyView { stage: TrackedStage::CopyingSubmodule, ..self },
                    TrackedAction::CopyDirectory(self.job()),
                )
            } else {
                self.ending(Err(CopyError::NotCreated(self.destination())))
            },
            // What is there already stays.
            (TrackedStage::InspectingDestination, TrackedEvent::Found(_)) => self.taking(),
            (TrackedStage::InspectingDestination, TrackedEvent::NotFound(kind)) => match kind {
                FailureKind::NotFound => match parent_path(self.destination()) {
                    Some(directory) => (
                        TrackedCopyView { stage: TrackedStage::CreatingParent, ..self },
                        TrackedAction::CreateDirAll(directory),
                    ),
                    None => self.ending(Err(CopyError::NoParent(self.destination()))),
                },
                _ => self.ending(Err(CopyError::NotInspected(self.destination()))),
            },
            (TrackedStage::CreatingParent, TrackedEvent::Created(created)) => if created {
                (
                    TrackedCopyView { stage: TrackedStage::CopyingEntry, ..self },
                    TrackedAction::CopyEntry(self.job(), self.kind),
                )
            } else {
                self.ending(
                    Err(
                        match parent_path(self.destination()) {
                            Some(directory) => CopyError::NotCreated(directory),
                            None => CopyError::NoParent(self.destination()),
                        },
                    ),
                )
            },
            (
                TrackedStage::CopyingSubmodule | TrackedStage::CopyingEntry,
                TrackedEvent::Copied(result),
            ) => match result {
                Ok(_) => self.taking(),
                Err(error) => self.ending(Err(error)),
            },
            _ => self.ending(Ok(())),
        }
    }
}

impl TrackedCopy {
    /// The copy of the tracked files of `from` to `to`, and the first action.
    pub fn start(from: &str, to: &str, root_from: &str, root_to: &str) -> (r: (
        TrackedCopy,
        TrackedAction<String>,
    ))
        ensures
            r.0@ == (TrackedCopyView {
                from: from@,
                to: to@,
                root_from: root_from@,
                root_to: root_to@,
                stage: TrackedStage::ProbingRepository,
                entries: seq![],
                next: 0,
                ancestors: seq![],
                ancestor: 0,
                kind: FileKind::Other,
            }),
            r.0@.is_valid(),
            r.1@ == TrackedAction::Probe(joined_path(from@, ".git"@)),
    {
        let copy = TrackedCopy {
            from: from.to_owned(),
            to: to.to_owned(),
            root_from: root_from.to_owned(),
            root_to: root_to.to_owned(),
            stage: TrackedStage::ProbingRepository,
            entries: Vec::new(),
            next: 0,
            ancestors: Vec::new(),
            ancestor: 0,
            kind: FileKind::Other,
        };
        assert(copy@.entries =~= seq![]);
        assert(copy@.ancestors =~= seq![]);
        (copy, TrackedAction::Probe(join(from, ".git")))
    }

    fn finish(self, result: Result<(), CopyError<String>>) -> (r: (
        TrackedCopy,
        TrackedAction<String>,
    ))
        ensures
            (r.0@, r.1@) == self@.ending(copy_result(result)),
            r.0@.is_valid(),
    {
        (TrackedCopy { stage: TrackedStage::Finished, ..self }, TrackedAction::Finish(result))
    }

    /// What the index says of the entry at hand, and its path.
    fn parts(&self) -> (r: (&str, &str))
        requires
            0 < self.next <= self.entries@.len(),
            self@.entry().contains('\t'),
        ensures
            r.0@ == entry_metadata(self@.entry()),
            r.1@ == entry_path(self@.entry()),
    {
        let entry = self.entries[self.next - 1].as_str();
        assert(entry@ == self@.entry());
        match split_once(entry, '\t') {
            Some((metadata, path)) => {
                proof {
                    lemma_split_is_first(entry@, metadata@, '\t', path@);
                }
                (metadata, path)
            },
            None => (entry, entry),
        }
    }

    fn source(&self) -> (r: String)
        requires
            0 < self.next <= self.entries@.len(),
            self@.entry().contains('\t'),
        ensures
            r@ == self@.source(),
    {
        join(self.from.as_str(), self.parts().1)
    }

    fn destination(&self) -> (r: String)
        requires
            0 < self.next <= self.entries@.len(),
            self@.entry().contains('\t'),
        ensures
            r@ == self@.destination(),
    {
        join(self.to.as_str(), self.parts().1)
    }

    fn job(&self) -> (r: CopyJob<String>)
        requires
            0 < self.next <= self.entries@.len(),
            self@.entry().contains('\t'),
        ensures
            r@ == self@.job(),
    {
        CopyJob {
            root_from: self.root_from.clone(),
            root_to: self.root_to.clone(),
            source: self.source(),
            destination: self.destination(),
        }
    }

    fn check(self, ancestor: usize) -> (r: (TrackedCopy, TrackedAction<String>))
        requires
            0 < self.next <= self.entries@.len(),
            self@.entry().contains('\t'),
            ancestor <= self.ancestors@.len(),
        ensures
            (r.0@, r.1@) == self@.checking(ancestor as int),
            r.0@.is_valid(),
    {
        if ancestor < self.ancestors.len() {
            let path = join(self.from.as_str(), self.ancestors[ancestor].as_str());
            (
                TrackedCopy { stage: TrackedStage::CheckingAncestor, ancestor, ..self },
                TrackedAction::CheckSymlink(path),
            )
        } else {
            let path = self.source();
            (
                TrackedCopy { stage: TrackedStage::InspectingSource, ..self },
                TrackedAction::Inspect(path),
            )
        }
    }

    fn take(self) -> (r: (TrackedCopy, TrackedAction<String>))
        requires
            self.next <= self.entries@.len(),
        ensures
            (r.0@, r.1@) == self@.taking(),
            r.0@.is_valid(),
    {
        if self.next >= self.entries.len() {
            return self.finish(Ok(()));
        }
        let entry = self.entries[self.next].clone();
        assert(entry@ == self@.entries[self.next as int]);
        match split_once(entry.as_str(), '\t') {
            None => self.finish(Err(CopyError::NoPathSeparator(entry))),
            Some((metadata, path)) => {
                proof {
                    lemma_split_is_first(entry@, metadata@, '\t', path@);
                }
                let ancestors = ancestors_to_check(path);
                let next: usize = self.next + 1;
                let copy = TrackedCopy { next, ancestors, ..self };
                assert(copy@.entry() == entry@);
                copy.check(0)
            },
        }
    }

    /// The next state and action, after what came of the last action.
    pub fn step(self, event: TrackedEvent<String, Vec<u8>>) -> (r: (
        TrackedCopy,
        TrackedAction<String>,
    ))
        requires
            self@.is_valid(),
            self@.expects(event@),
        ensures
            (r.0@, r.1@) == self@.after(event@),
            r.0@.is_valid(),
    {
        match (self.stage, event) {
            (TrackedStage::ProbingRepository, TrackedEvent::Exists(exists)) => match exists {
                Some(true) => {
                    let directory = self.from.clone();
                    (
                        TrackedCopy { stage: TrackedStage::Listing, ..self },
                        TrackedAction::List(directory),
                    )
                },
                Some(false) => self.finish(Ok(())),
                None => {
                    let path = join(self.from.as_str(), ".git");
                    self.finish(Err(CopyError::NotInspected(path)))
                },
            },
            (TrackedStage::Listing, TrackedEvent::Listed { success, stdout, stderr }) => {
                if !success {
                    let directory = self.from.clone();
                    let message = utf8_text_lossy(stderr.as_slice());
                    return self.finish(Err(CopyError::ListFailed { directory, message }));
                }
                match utf8_text(stdout.as_slice()) {
                    None => self.finish(Err(CopyError::ListNotUtf8)),
                    Some(list) => {
                        let entries = split_terminated(list, '\0');
                        let copy = TrackedCopy { entries, next: 0, ..self };
                        copy.take()
                    },
                }
            },
            (TrackedStage::Listing, _) => {
                let directory = self.from.clone();
                self.finish(Err(CopyError::NotListed(directory)))
            },
            (TrackedStage::CheckingAncestor, TrackedEvent::Symlink(symlink)) => if symlink {
                self.take()
            } else {
                let count: usize = self.ancestors.len();
                assert(self.ancestor < count);
                let ancestor: usize = self.ancestor + 1;
                self.check(ancestor)
            },
            (TrackedStage::InspectingSource, TrackedEvent::Found(kind)) => {
                if kind != FileKind::Dir {
                    let path = self.destination();
                    (
                        TrackedCopy { stage: TrackedStage::InspectingDestination, kind, ..self },
                        TrackedAction::Inspect(path),
                    )
                } else if starts_with(self.parts().0, "160000 ") {
                    let path = self.destination();
                    (
                        TrackedCopy { stage: TrackedStage::ProbingSubmodule, ..self },
                        TrackedAction::Probe(path),
                    )
                } else {
                    self.take()
                }
            },
            (TrackedStage::InspectingSource, TrackedEvent::NotFound(kind)) => match kind {
                FailureKind::NotFound | FailureKind::NotADirectory => self.take(),
                FailureKind::Other => {
                    let path = self.source();
                    self.finish(Err(CopyError::NotInspected(path)))
                },
            },
            (TrackedStage::ProbingSubmodule, TrackedEvent::Exists(exists)) => match exists {
                Some(true) => {
                    let job = self.job();
                    (
                        TrackedCopy { stage: TrackedStage::CopyingSubmodule, ..self },
                        TrackedAction::CopyTracked(job),
                    )
                },
                Some(false) => {
                    let path = self.destination();
                    (
                        TrackedCopy { stage: TrackedStage::CreatingSubmodule, ..self },
                        TrackedAction::CreateDirAll(path),
                    )
                },
                None => {
                    let path = self.destination();
                    self.finish(Err(CopyError::NotInspected(path)))
                },
            },
            (TrackedStage::CreatingSubmodule, TrackedEvent::Created(created)) => if created {
                let job = self.job();
                (
                    TrackedCopy { stage: TrackedStage::CopyingSubmodule, ..self },
                    TrackedAction::CopyDirectory(job),
                )
            } else {
                let path = self.destination();
                self.finish(Err(CopyError::NotCreated(path)))
            },
            (TrackedStage::InspectingDestination, TrackedEvent::Found(_)) => self.take(),
            (TrackedStage::InspectingDestination, TrackedEvent::NotFound(kind)) => {
                let destination = self.destination();
                match kind {
                    FailureKind::NotFound => match parent(destination.as_str()) {
                        Some(directory) => (
                            TrackedCopy { stage: TrackedStage::CreatingParent, ..self },
                            TrackedAction::CreateDirAll(directory),
                        ),
                        None => self.finish(Err(CopyError::NoParent(destination))),
                    },
                    _ => self.finish(Err(CopyError::NotInspected(destination))),
                }
            },
            (TrackedStage::CreatingParent, TrackedEvent::Created(created)) => if created {
                let job = self.job();
                let kind = self.kind;
                (
                    TrackedCopy { stage: TrackedStage::CopyingEntry, ..self },
                    TrackedAction::CopyEntry(job, kind),
                )
            } else {
                let destination = self.destination();
                match parent(destination.as_str()) {
                    Some(directory) => self.finish(Err(CopyError::NotCreated(directory))),
                    None => self.finish(Err(CopyError::NoParent(destination))),
                }
            },
            (
                TrackedStage::CopyingSubmodule | TrackedStage::CopyingEntry,
                TrackedEvent::Copied(result),
            ) => match result {
                Ok(_) => self.take(),
                Err(error) => self.finish(Err(error)),
            },
            _ => self.finish(Ok(())),
        }
    }
}

/// A list of entries as `git` prints it: each with a NUL behind it.
pub open spec fn listing(entries: Seq<Seq<char>>) -> Seq<char>
    decreases entries.len(),
{
    if entries.len() == 0 {
        seq![]
    } else {
        entries[0].push('\0') + listing(entries.drop_first())
    }
}

/// The entries are read as they were listed, whatever white space they hold.
pub proof fn listed_entries_are_read_back(entries: Seq<Seq<char>>)
    requires
        forall|i: int| 0 <= i < entries.len() ==> !(#[trigger] entries[i]).contains('\0'),
    ensures
        terminated_pieces(listing(entries), '\0') == entries,
    decreases entries.len(),
{
    if entries.len() > 0 {
        let rest = entries.drop_first();
        assert forall|i: int| 0 <= i < rest.len() implies !(#[trigger] rest[i]).contains('\0') by {
            assert(rest[i] == entries[i + 1]);
        }
        listed_entries_are_read_back(rest);
        lemma_split_is_first(listing(entries), entries[0], '\0', listing(rest));
        assert(terminated_pieces(listing(entries), '\0') =~= entries);
    } else {
        assert(terminated_pieces(listing(entries), '\0') =~= entries);
    }
}

/// The entries that `git` lists are taken one after the other, as they were listed.
pub proof fn listed_entries_are_taken(
    copy: TrackedCopyView,
    entries: Seq<Seq<char>>,
    stdout: Seq<u8>,
    stderr: Seq<u8>,
)
    requires
        copy.stage == TrackedStage::Listing,
        forall|i: int| 0 <= i < entries.len() ==> !(#[trigger] entries[i]).contains('\0'),
        valid_utf8(stdout),
        decode_utf8(stdout) == listing(entries),
    ensures
        copy.after(TrackedEvent::Listed { success: true, stdout, stderr }) == (TrackedCopyView {
            entries,
            next: 0,
            ..copy
        }).taking(),
{
    listed_entries_are_read_back(entries);
}

/// The path of an entry is what stands behind its first tab, with the white space that it
/// begins with, ends with or holds.
pub proof fn tracked_paths_keep_their_white_space(metadata: Seq<char>, path: Seq<char>)
    requires
        !metadata.contains('\t'),
    ensures
        (metadata.push('\t') + path).contains('\t'),
        entry_metadata(metadata.push('\t') + path) == metadata,
        entry_path(metadata.push('\t') + path) == path,
{
    let entry = metadata.push('\t') + path;
    lemma_split_is_first(entry, metadata, '\t', path);
    lemma_text_until(entry, '\t');
}

/// The action copies with the roots of the whole copy.
pub open spec fn keeps_roots(action: TrackedAction<Seq<char>>, copy: TrackedCopyView) -> bool {
    match action {
        TrackedAction::CopyTracked(job)
        | TrackedAction::CopyDirectory(job)
        | TrackedAction::CopyEntry(job, _) => job.root_from == copy.root_from && job.root_to
            == copy.root_to,
        _ => true,
    }
}

/// Whatever is copied, a submodule too, is copied with the roots of the whole copy, so that
/// an absolute symlink can point out of the submodule.
pub proof fn submodules_keep_the_outer_roots(
    copy: TrackedCopyView,
    event: TrackedEvent<Seq<char>, Seq<u8>>,
)
    ensures
        keeps_roots(copy.after(event).1, copy),
        copy.after(event).0.root_from == copy.root_from,
        copy.after(event).0.root_to == copy.root_to,
{
}

/// The ancestors that are checked are the parent of the path, the parent of that and so on, the
/// nearest first, except for the one without a name.
pub proof fn all_named_ancestors_are_checked(path: &str, list: Seq<Seq<char>>, r: Vec<String>)
    requires
        call_ensures(ancestors_to_check, (path,), r),
        list.len() > 0,
        list[0] == path@,
        forall|i: int| #![trigger list[i]]
            0 <= i < list.len() - 1 ==> parent_path(list[i]) == Some(list[i + 1]),
        parent_path(list.last()) is None,
    ensures
        texts(r@) == list.skip(1).filter(|ancestor: Seq<char>| ancestor.len() != 0),
{
    ancestry_is_unique(path@, list);
    conditions_that_agree_keep_the_same(
        list.skip(1),
        |ancestor: Seq<char>| ancestor.len() > 0,
        |ancestor: Seq<char>| ancestor.len() != 0,
    );
}

/// The index is listed with the modes of its entries, and with a NUL behind each.
pub proof fn index_is_listed_with_its_modes(r: Vec<String>)
    requires
        call_ensures(list_arguments, (), r),
    ensures
        texts(r@) == seq!["--git-dir=.git"@, "ls-files"@, "--stage"@, "-z"@],
{
}

/// A copy of tracked files begins with the question whether there is a repository. Its index is
/// listed where there is one, nothing is copied where there is none, and where that cannot be
/// found out the copy fails.
pub proof fn only_repositories_have_tracked_files(
    from: &str,
    to: &str,
    root_from: &str,
    root_to: &str,
    start: (TrackedCopy, TrackedAction<String>),
)
    requires
        call_ensures(TrackedCopy::start, (from, to, root_from, root_to), start),
    ensures
        ({
            let begun = start.0@;
            let (listing, list) = begun.after(TrackedEvent::Exists(Some(true)));
            &&& start.1@ == TrackedAction::Probe(joined_path(from@, ".git"@))
            &&& begun.from == from@
            &&& begun.to == to@
            &&& begun.root_from == root_from@
            &&& begun.root_to == root_to@
            &&& list == TrackedAction::List(from@)
            &&& listing.stage == TrackedStage::Listing
            &&& listing.from == from@
            &&& listing.to == to@
            &&& listing.root_from == root_from@
            &&& listing.root_to == root_to@
            &&& begun.after(TrackedEvent::Exists(Some(false))).1 == TrackedAction::<
                Seq<char>,
            >::Finish(Ok(()))
            &&& begun.after(TrackedEvent::Exists(None)).1 == TrackedAction::Finish(
                Err(CopyError::NotInspected(joined_path(from@, ".git"@))),
            )
        }),
{
}

/// The copy of tracked files goes from state to state as [`TrackedCopyView::after`] says.
pub proof fn tracked_copy_goes_on_by_its_state(
    copy: TrackedCopy,
    event: TrackedEvent<String, Vec<u8>>,
    r: (TrackedCopy, TrackedAction<String>),
)
    requires
        call_ensures(TrackedCopy::step, (copy, event), r),
    ensures
        (r.0@, r.1@) == copy@.after(event@),
{
}

/// What follows once nothing is left to do about an entry: the next one is looked at, its
/// ancestors first. Behind the last one the copy ends well; an entry without a path ends it with
/// an error.
pub open spec fn goes_to_the_next_entry(
    copy: TrackedCopyView,
    r: (TrackedCopyView, TrackedAction<Seq<char>>),
) -> bool {
    if copy.next >= copy.entries.len() {
        r.1 == TrackedAction::<Seq<char>>::Finish(Ok(()))
    } else {
        let entry = copy.entries[copy.next];
        &&& !entry.contains('\t') ==> r.1 == TrackedAction::Finish(
            Err(CopyError::NoPathSeparator(entry)),
        )
        &&& forall|metadata: Seq<char>, path: Seq<char>|
            entry == #[trigger] (metadata.push('\t') + path) && !metadata.contains('\t')
                ==> is_looked_at(copy, path, r)
    }
}

/// The entry at `path` is looked at: its ancestors, or without any its source.
pub open spec fn is_looked_at(
    copy: TrackedCopyView,
    path: Seq<char>,
    r: (TrackedCopyView, TrackedAction<Seq<char>>),
) -> bool {
    &&& r.0.from == copy.from
    &&& r.0.to == copy.to
    &&& r.0.root_from == copy.root_from
    &&& r.0.root_to == copy.root_to
    &&& r.0.entries == copy.entries
    &&& r.0.next == copy.next + 1
    &&& r.0.ancestors == named_ancestors(path)
    &&& named_ancestors(path).len() == 0 ==> r.1 == TrackedAction::Inspect(
        joined_path(copy.from, path),
    ) && r.0.stage == TrackedStage::InspectingSource
    &&& named_ancestors(path).len() > 0 ==> r.1 == TrackedAction::CheckSymlink(
        joined_path(copy.from, named_ancestors(path)[0]),
    ) && r.0.stage == TrackedStage::CheckingAncestor && r.0.ancestor == 0
}

proof fn lemma_taking_goes_to_the_next_entry(copy: TrackedCopyView)
    ensures
        goes_to_the_next_entry(copy, copy.taking()),
{
    if copy.next < copy.entries.len() {
        let entry = copy.entries[copy.next];
        assert forall|metadata: Seq<char>, path: Seq<char>|
            entry == #[trigger] (metadata.push('\t') + path) && !metadata.contains(
                '\t',
            ) implies is_looked_at(copy, path, copy.taking()) by {
            tracked_paths_keep_their_white_space(metadata, path);
        }
    }
}

/// The entries of the list are taken from the first on. A list that could not be made, or is not
/// UTF-8, ends the copy.
pub proof fn listed_entries_are_looked_at(
    copy: TrackedCopyView,
    stdout: Seq<u8>,
    stderr: Seq<u8>,
)
    requires
        copy.stage == TrackedStage::Listing,
    ensures
        copy.after(TrackedEvent::NotListed).1 == TrackedAction::Finish(
            Err(CopyError::NotListed(copy.from)),
        ),
        copy.after(TrackedEvent::Listed { success: false, stdout, stderr }).1
            == TrackedAction::Finish(
            Err(CopyError::ListFailed { directory: copy.from, message: lossy_text(stderr) }),
        ),
        !valid_utf8(stdout) ==> copy.after(
            TrackedEvent::Listed { success: true, stdout, stderr },
        ).1 == TrackedAction::<Seq<char>>::Finish(Err(CopyError::ListNotUtf8)),
        valid_utf8(stdout) ==> goes_to_the_next_entry(
            TrackedCopyView {
                entries: terminated_pieces(decode_utf8(stdout), '\0'),
                next: 0,
                ..copy
            },
            copy.after(TrackedEvent::Listed { success: true, stdout, stderr }),
        ),
{
    lemma_taking_goes_to_the_next_entry(
        TrackedCopyView {
            entries: terminated_pieces(decode_utf8(stdout), '\0'),
            next: 0,
            ..copy
        },
    );
}

/// An entry with an ancestor that is a symlink is passed over. Otherwise each ancestor is checked,
/// and then it is looked at what is at the source.
pub proof fn entries_behind_symlinks_are_passed_over(
    copy: TrackedCopyView,
    metadata: Seq<char>,
    path: Seq<char>,
)
    requires
        copy.is_valid(),
        copy.stage == TrackedStage::CheckingAncestor,
        copy.entries[copy.next - 1] == metadata.push('\t') + path,
        !metadata.contains('\t'),
    ensures
        goes_to_the_next_entry(copy, copy.after(TrackedEvent::Symlink(true))),
        ({
            let (next, following) = copy.after(TrackedEvent::Symlink(false));
            if copy.ancestor + 1 < copy.ancestors.len() {
                &&& following == TrackedAction::CheckSymlink(
                    joined_path(copy.from, copy.ancestors[copy.ancestor + 1]),
                )
                &&& next == (TrackedCopyView { ancestor: copy.ancestor + 1, ..copy })
            } else {
                &&& following == TrackedAction::Inspect(joined_path(copy.from, path))
                &&& next == (TrackedCopyView { stage: TrackedStage::InspectingSource, ..copy })
            }
        }),
{
    lemma_taking_goes_to_the_next_entry(copy);
    tracked_paths_keep_their_white_space(metadata, path);
}

/// A listed entry whose metadata begins with the mode of a submodule stands for a submodule,
/// whatever its path is: a directory that is there is looked for in the copy, and then its tracked
/// files are copied, or it is created and copied whole. It is never passed over. A directory with
/// any other mode has replaced a tracked file, and is passed over.
pub proof fn submodules_are_known_by_their_mode(
    copy: TrackedCopyView,
    metadata: Seq<char>,
    path: Seq<char>,
    error: CopyError<Seq<char>>,
)
    requires
        copy.is_valid(),
        copy.stage == TrackedStage::InspectingSource,
        copy.entries[copy.next - 1] == metadata.push('\t') + path,
        !metadata.contains('\t'),
    ensures
        ({
            let job = CopyJob {
                root_from: copy.root_from,
                root_to: copy.root_to,
                source: joined_path(copy.from, path),
                destination: joined_path(copy.to, path),
            };
            let directory = TrackedEvent::<Seq<char>, Seq<u8>>::Found(FileKind::Dir);
            let (probing, probe) = copy.after(directory);
            let (entering, enter) = probing.after(TrackedEvent::Exists(Some(true)));
            let (creating, create) = probing.after(TrackedEvent::Exists(Some(false)));
            let (filling, fill) = creating.after(TrackedEvent::Created(true));
            &&& !"160000 "@.is_prefix_of(metadata) ==> goes_to_the_next_entry(
                copy,
                (probing, probe),
            )
            &&& "160000 "@.is_prefix_of(metadata) ==> {
                &&& probe == TrackedAction::Probe(job.destination)
                &&& enter == TrackedAction::CopyTracked(job)
                &&& create == TrackedAction::CreateDirAll(job.destination)
                &&& fill == TrackedAction::CopyDirectory(job)
                &&& probing.after(TrackedEvent::Exists(None)).1 == TrackedAction::Finish(
                    Err(CopyError::NotInspected(job.destination)),
                )
                &&& creating.after(TrackedEvent::Created(false)).1 == TrackedAction::Finish(
                    Err(CopyError::NotCreated(job.destination)),
                )
                &&& goes_to_the_next_entry(copy, entering.after(TrackedEvent::Copied(Ok(()))))
                &&& goes_to_the_next_entry(copy, filling.after(TrackedEvent::Copied(Ok(()))))
                &&& entering.after(TrackedEvent::Copied(Err(error))).1 == TrackedAction::Finish(
                    Err(error),
                )
                &&& filling.after(TrackedEvent::Copied(Err(error))).1 == TrackedAction::Finish(
                    Err(error),
                )
            }
        }),
{
    tracked_paths_keep_their_white_space(metadata, path);
    lemma_taking_goes_to_the_next_entry(copy);
    let submodule = TrackedCopyView { stage: TrackedStage::CopyingSubmodule, ..copy };
    lemma_taking_goes_to_the_next_entry(submodule);
    lemma_next_entry_depends_on_the_list(copy, submodule, submodule.taking());
}

proof fn lemma_next_entry_depends_on_the_list(
    a: TrackedCopyView,
    b: TrackedCopyView,
    r: (TrackedCopyView, TrackedAction<Seq<char>>),
)
    requires
        a.from == b.from,
        a.to == b.to,
        a.root_from == b.root_from,
        a.root_to == b.root_to,
        a.entries == b.entries,
        a.next == b.next,
        goes_to_the_next_entry(b, r),
    ensures
        goes_to_the_next_entry(a, r),
{
    if a.next < a.entries.len() {
        let entry = a.entries[a.next];
        assert forall|metadata: Seq<char>, path: Seq<char>|
            entry == #[trigger] (metadata.push('\t') + path) && !metadata.contains(
                '\t',
            ) implies is_looked_at(a, path, r) by {
            assert(is_looked_at(b, path, r));
        }
    }
}

/// A file or a symlink that is there is looked for in the copy. Where something is there, it is
/// left alone; where nothing is, the directory is created and the file copied into it as what it
/// is, with the roots of the whole copy.
pub proof fn missing_files_are_copied(
    copy: TrackedCopyView,
    metadata: Seq<char>,
    path: Seq<char>,
    kind: FileKind,
    there: FileKind,
    error: CopyError<Seq<char>>,
)
    requires
        copy.is_valid(),
        copy.stage == TrackedStage::InspectingSource,
        copy.entries[copy.next - 1] == metadata.push('\t') + path,
        !metadata.contains('\t'),
        kind != FileKind::Dir,
    ensures
        ({
            let job = CopyJob {
                root_from: copy.root_from,
                root_to: copy.root_to,
                source: joined_path(copy.from, path),
                destination: joined_path(copy.to, path),
            };
            let (seen, inspect) = copy.after(TrackedEvent::Found(kind));
            let (creating, create) = seen.after(TrackedEvent::NotFound(FailureKind::NotFound));
            let (copying, fill) = creating.after(TrackedEvent::Created(true));
            &&& inspect == TrackedAction::Inspect(job.destination)
            &&& goes_to_the_next_entry(copy, seen.after(TrackedEvent::Found(there)))
            &&& parent_path(job.destination) is None ==> create == TrackedAction::Finish(
                Err(CopyError::NoParent(job.destination)),
            )
            &&& parent_path(job.destination) matches Some(directory) ==> {
                &&& create == TrackedAction::CreateDirAll(directory)
                &&& fill == TrackedAction::CopyEntry(job, kind)
                &&& creating.after(TrackedEvent::Created(false)).1 == TrackedAction::Finish(
                    Err(CopyError::NotCreated(directory)),
                )
                &&& goes_to_the_next_entry(copy, copying.after(TrackedEvent::Copied(Ok(()))))
                &&& copying.after(TrackedEvent::Copied(Err(error))).1 == TrackedAction::Finish(
                    Err(error),
                )
            }
            &&& seen.after(TrackedEvent::NotFound(FailureKind::NotADirectory)).1
                == TrackedAction::Finish(Err(CopyError::NotInspected(job.destination)))
            &&& seen.after(TrackedEvent::NotFound(FailureKind::Other)).1 == TrackedAction::Finish(
                Err(CopyError::NotInspected(job.destination)),
            )
        }),
{
    tracked_paths_keep_their_white_space(metadata, path);
    let seen = TrackedCopyView { stage: TrackedStage::InspectingDestination, kind, ..copy };
    lemma_taking_goes_to_the_next_entry(seen);
    lemma_next_entry_depends_on_the_list(copy, seen, seen.taking());
    let copying = TrackedCopyView { stage: TrackedStage::CopyingEntry, ..seen };
    lemma_taking_goes_to_the_next_entry(copying);
    lemma_next_entry_depends_on_the_list(copy, copying, copying.taking());
}

/// An entry that is not there, or has an ancestor that is no directory, is passed over; where it
/// cannot be found out what is there, the copy fails.
pub proof fn missing_entries_are_passed_over(
    copy: TrackedCopyView,
    metadata: Seq<char>,
    path: Seq<char>,
)
    requires
        copy.is_valid(),
        copy.stage == TrackedStage::InspectingSource,
        copy.entries[copy.next - 1] == metadata.push('\t') + path,
        !metadata.contains('\t'),
    ensures
        goes_to_the_next_entry(copy, copy.after(TrackedEvent::NotFound(FailureKind::NotFound))),
        goes_to_the_next_entry(
            copy,
            copy.after(TrackedEvent::NotFound(FailureKind::NotADirectory)),
        ),
        copy.after(TrackedEvent::NotFound(FailureKind::Other)).1 == TrackedAction::Finish(
            Err(CopyError::NotInspected(joined_path(copy.from, path))),
        ),
{
    tracked_paths_keep_their_white_space(metadata, path);
    lemma_taking_goes_to_the_next_entry(copy);
}

/// The copy goes on from each state that it reaches, whatever comes of its action.
pub proof fn tracked_copy_takes_what_can_come(copy: TrackedCopy, event: TrackedEvent<String, Vec<u8>>)
    requires
        copy@.is_valid(),
    ensures
        match copy@.stage {
            TrackedStage::ProbingRepository | TrackedStage::ProbingSubmodule => event is Exists,
            TrackedStage::Listing => event is Listed || event is NotListed,
            TrackedStage::CheckingAncestor => event is Symlink,
            TrackedStage::InspectingSource | TrackedStage::InspectingDestination => event is Found
                || event is NotFound,
            TrackedStage::CreatingSubmodule | TrackedStage::CreatingParent => event is Created,
            TrackedStage::CopyingSubmodule | TrackedStage::CopyingEntry => event is Copied,
            TrackedStage::Finished => false,
        } ==> call_requires(TrackedCopy::step, (copy, event)),
{
}

}
