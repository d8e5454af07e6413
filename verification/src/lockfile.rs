//! Reading the lockfile that was committed at a release.

use crate::cargo::{CARGO_LOCK, CARGO_TOML};
use crate::path::{join, joined_path};
use crate::registry_packages::WorkspaceLockfile;
use crate::text::{debug_format, debug_text, optional_text};
use vstd::prelude::*;

verus! {

/// Which part of reading a lockfile failed.
#[derive(Debug, Clone, Copy, PartialEq, Eq, Structural)]
pub enum LockfilePart {
    /// Cargo's configuration.
    Configuration,
    /// The manifest of the workspace.
    Manifest,
    /// The lockfile itself.
    Lockfile,
}

/// A lockfile that could not be read.
#[derive(Debug)]
pub struct LockfileError {
    pub part: LockfilePart,
    pub workspace_root: String,
    pub commit: String,
}

/// What is said about a lockfile that could not be read. Of a configuration that cannot be
/// loaded, only what Cargo says.
pub open spec fn lockfile_message(part: LockfilePart, root: Seq<char>, commit: Seq<char>) -> Option<
    Seq<char>,
> {
    match part {
        LockfilePart::Configuration => None,
        LockfilePart::Manifest => Some(
            "cannot load workspace manifest "@ + debug_text(joined_path(root, "Cargo.toml"@))
                + " with the Cargo library bundled in release-plz"@,
        ),
        LockfilePart::Lockfile => Some(
            "cannot load lockfile "@ + debug_text(joined_path(root, "Cargo.lock"@))
                + " committed at "@ + commit,
        ),
    }
}

impl LockfileError {
    /// What is said to the user, besides what Cargo says.
    pub fn message(&self) -> (r: Option<String>)
        ensures
            optional_text(r) == lockfile_message(self.part, self.workspace_root@, self.commit@),
    {
        let root = self.workspace_root.as_str();
        match self.part {
            LockfilePart::Configuration => None,
            LockfilePart::Manifest => {
                let mut r = "cannot load workspace manifest ".to_owned();
                r.append(debug_format(join(root, CARGO_TOML).as_str()).as_str());
                r.append(" with the Cargo library bundled in release-plz");
                Some(r)
            },
            LockfilePart::Lockfile => {
                let mut r = "cannot load lockfile ".to_owned();
                r.append(debug_format(join(root, CARGO_LOCK).as_str()).as_str());
                r.append(" committed at ");
                r.append(self.commit.as_str());
                Some(r)
            },
        }
    }
}

/// What the caller is asked to do to read a lockfile.
#[derive(Debug)]
pub enum LockfileAction {
    /// Say whether this path exists.
    Probe(String),
    /// Decode the lockfile of the workspace with this root and manifest, without resolving or
    /// fetching dependencies.
    Decode { workspace_root: String, manifest: String },
    /// Nothing more: the lockfile, where there is one.
    Finish(Result<Option<WorkspaceLockfile>, LockfileError>),
}

/// What came of a [`LockfileAction`].
#[derive(Debug)]
pub enum LockfileEvent {
    /// Whether the path exists.
    Exists(bool),
    /// What the lockfile holds.
    Decoded(Option<WorkspaceLockfile>),
    /// What could not be read.
    Failed(LockfilePart),
}

/// How far the reading of a lockfile is.
#[derive(Debug, Clone, Copy, PartialEq, Eq, Structural)]
pub enum LockfileStage {
    Probing,
    Decoding,
    Finished,
}

/// The reading of a lockfile under way.
#[derive(Debug)]
pub struct LockfileLoad {
    pub workspace_root: String,
    pub commit: String,
    pub stage: LockfileStage,
}

impl LockfileLoad {
    /// An event that can follow the last action.
    pub open spec fn expects(self, event: LockfileEvent) -> bool {
        match self.stage {
            LockfileStage::Probing => event is Exists,
            LockfileStage::Decoding => event is Decoded || event is Failed,
            LockfileStage::Finished => false,
        }
    }

    /// The reading of the lockfile of the workspace at `workspace_root`, as it was committed
    /// at `commit`, and the first action.
    pub fn start(workspace_root: &str, commit: &str) -> (r: (LockfileLoad, LockfileAction))
        ensures
            r.0.workspace_root@ == workspace_root@,
            r.0.commit@ == commit@,
            r.0.stage == LockfileStage::Probing,
            r.1 matches LockfileAction::Probe(path) && path@ == joined_path(
                workspace_root@,
                "Cargo.lock"@,
            ),
    {
        let action = LockfileAction::Probe(join(workspace_root, CARGO_LOCK));
        let load = LockfileLoad {
            workspace_root: workspace_root.to_owned(),
            commit: commit.to_owned(),
            stage: LockfileStage::Probing,
        };
        (load, action)
    }

    /// The next state and action, after what came of the last action. A workspace without a
    /// lockfile has none, and nothing is decoded.
    pub fn step(self, event: LockfileEvent) -> (r: (LockfileLoad, LockfileAction))
        requires
            self.expects(event),
        ensures
            r.0.workspace_root@ == self.workspace_root@,
            r.0.commit@ == self.commit@,
            match event {
                LockfileEvent::Exists(true) => r.0.stage == LockfileStage::Decoding && (
                r.1 matches LockfileAction::Decode { workspace_root, manifest } && workspace_root@
                    == self.workspace_root@ && manifest@ == joined_path(
                    self.workspace_root@,
                    "Cargo.toml"@,
                )),
                LockfileEvent::Exists(false) => r.0.stage == LockfileStage::Finished && r.1
                    == LockfileAction::Finish(Ok(None)),
                LockfileEvent::Decoded(lockfile) => r.0.stage == LockfileStage::Finished && r.1
                    == LockfileAction::Finish(Ok(lockfile)),
                LockfileEvent::Failed(part) => r.0.stage == LockfileStage::Finished && (
                r.1 matches LockfileAction::Finish(Err(error)) && error.part == part
                    && error.workspace_root@ == self.workspace_root@ && error.commit@
                    == self.commit@),
            },
    {
        match event {
            LockfileEvent::Exists(true) => {
                let manifest = join(self.workspace_root.as_str(), CARGO_TOML);
                let action = LockfileAction::Decode {
                    workspace_root: self.workspace_root.clone(),
                    manifest,
                };
                (LockfileLoad { stage: LockfileStage::Decoding, ..self }, action)
            },
            LockfileEvent::Exists(false) => (
                LockfileLoad { stage: LockfileStage::Finished, ..self },
                LockfileAction::Finish(Ok(None)),
            ),
            LockfileEvent::Decoded(lockfile) => (
                LockfileLoad { stage: LockfileStage::Finished, ..self },
                LockfileAction::Finish(Ok(lockfile)),
            ),
            LockfileEvent::Failed(part) => {
                let error = LockfileError {
                    part,
                    workspace_root: self.workspace_root.clone(),
                    commit: self.commit.clone(),
                };
                (
                    LockfileLoad { stage: LockfileStage::Finished, ..self },
                    LockfileAction::Finish(Err(error)),
                )
            },
        }
    }
}

/// A lockfile is looked for in the root of its workspace.
pub proof fn lockfile_is_looked_for_in_the_root(
    workspace_root: &str,
    commit: &str,
    r: (LockfileLoad, LockfileAction),
)
    requires
        call_ensures(LockfileLoad::start, (workspace_root, commit), r),
    ensures
        r.1 matches LockfileAction::Probe(path) && path@ == joined_path(
            workspace_root@,
            "Cargo.lock"@,
        ),
        r.0.stage == LockfileStage::Probing,
        r.0.workspace_root@ == workspace_root@,
        r.0.commit@ == commit@,
{
}

/// A workspace without a lockfile has none, and nothing is decoded. One that has a lockfile has it
/// decoded with the manifest in its root, and that is the result; what fails is said, with the
/// commit.
pub proof fn lockfile_is_decoded_where_there_is_one(
    load: LockfileLoad,
    event: LockfileEvent,
    r: (LockfileLoad, LockfileAction),
)
    requires
        load.expects(event),
        call_ensures(LockfileLoad::step, (load, event), r),
    ensures
        event == LockfileEvent::Exists(false) ==> r.1 == LockfileAction::Finish(Ok(None)),
        event == LockfileEvent::Exists(true) ==> (r.1 matches LockfileAction::Decode {
            workspace_root,
            manifest,
        } && workspace_root@ == load.workspace_root@ && manifest@ == joined_path(
            load.workspace_root@,
            "Cargo.toml"@,
        )) && r.0.stage == LockfileStage::Decoding && r.0.commit@ == load.commit@
            && r.0.workspace_root@ == load.workspace_root@,
        event matches LockfileEvent::Decoded(lockfile) ==> r.1 == LockfileAction::Finish(
            Ok(lockfile),
        ),
        event matches LockfileEvent::Failed(part) ==> (r.1 matches LockfileAction::Finish(
            Err(error),
        ) && error.part == part && error.workspace_root@ == load.workspace_root@ && error.commit@
            == load.commit@),
{
}

/// What is said about a lockfile that could not be read names the file, and where that is the
/// lockfile itself, the commit. Of Cargo's configuration nothing is said.
pub proof fn unreadable_lockfile_is_named(error: &LockfileError, r: Option<String>)
    requires
        call_ensures(LockfileError::message, (error,), r),
    ensures
        r is None <==> error.part == LockfilePart::Configuration,
        error.part == LockfilePart::Manifest ==> r->0@ == "cannot load workspace manifest "@
            + debug_text(joined_path(error.workspace_root@, "Cargo.toml"@))
            + " with the Cargo library bundled in release-plz"@,
        error.part == LockfilePart::Lockfile ==> r->0@ == "cannot load lockfile "@ + debug_text(
            joined_path(error.workspace_root@, "Cargo.lock"@),
        ) + " committed at "@ + error.commit@,
{
}

/// The reading goes on from each state, whatever comes of its action.
pub proof fn reading_takes_what_can_come(load: LockfileLoad, event: LockfileEvent)
    ensures
        match load.stage {
            LockfileStage::Probing => event is Exists,
            LockfileStage::Decoding => event is Decoded || event is Failed,
            LockfileStage::Finished => false,
        } ==> call_requires(LockfileLoad::step, (load, event)),
{
}

}
