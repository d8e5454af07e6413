//! Checking the public API of a package against its last release.

use crate::path::{join, joined_path};
use crate::text::{
    is_white_space, lossy_text, texts, trim, trimmed, trimming_takes_white_space_off_the_ends,
    utf8_text, utf8_text_lossy,
};
use vstd::prelude::*;
use vstd::utf8::{decode_utf8, valid_utf8};

verus! {

/// The build directory of the package at `path`.
pub fn target_dir(path: &str) -> (r: String)
    ensures
        r@ == joined_path(path@, "target"@),
{
    join(path, "target")
}

/// The lockfile of the package at `path`.
pub fn cargo_lock(path: &str) -> (r: String)
    ensures
        r@ == joined_path(path@, "Cargo.lock"@),
{
    join(path, "Cargo.lock")
}

/// Outcome of a semver check.
#[derive(Debug, Clone)]
pub enum SemverCheck {
    /// Semver check done. No incompatibilities found.
    Compatible,
    /// Semver check done. Incompatibilities found.
    Incompatible(String),
    /// Semver check skipped. This is the expected state for binaries.
    Skipped,
}

/// The model of a [`SemverCheck`].
pub enum SemverCheckView {
    Compatible,
    Incompatible(Seq<char>),
    Skipped,
}

impl View for SemverCheck {
    type V = SemverCheckView;

    open spec fn view(&self) -> SemverCheckView {
        match self {
            SemverCheck::Compatible => SemverCheckView::Compatible,
            SemverCheck::Incompatible(report) => SemverCheckView::Incompatible(report@),
            SemverCheck::Skipped => SemverCheckView::Skipped,
        }
    }
}

impl SemverCheck {
    /// A copy of the outcome.
    pub fn copy(&self) -> (r: SemverCheck)
        ensures
            r@ == self@,
    {
        match self {
            SemverCheck::Compatible => SemverCheck::Compatible,
            SemverCheck::Incompatible(report) => SemverCheck::Incompatible(report.clone()),
            SemverCheck::Skipped => SemverCheck::Skipped,
        }
    }

    /// What a list of updates says of the outcome.
    pub fn outcome_str(&self) -> (r: &'static str)
        ensures
            r@ == match self@ {
                SemverCheckView::Compatible => " (✓ API compatible changes)"@,
                SemverCheckView::Incompatible(_) => " (⚠️ API breaking changes)"@,
                SemverCheckView::Skipped => ""@,
            },
    {
        match self {
            SemverCheck::Compatible => " (✓ API compatible changes)",
            SemverCheck::Incompatible(_) => " (⚠️ API breaking changes)",
            SemverCheck::Skipped => "",
        }
    }
}

/// What a command left when it ended.
#[derive(Debug)]
pub struct Output {
    /// The exit code; `None` where a signal ended the command.
    pub code: Option<i32>,
    /// The exit status in words.
    pub status: String,
    pub stdout: Vec<u8>,
    pub stderr: Vec<u8>,
}

/// The model of an [`Output`].
pub struct OutputView {
    pub code: Option<i32>,
    pub status: Seq<char>,
    pub stdout: Seq<u8>,
    pub stderr: Seq<u8>,
}

impl View for Output {
    type V = OutputView;

    open spec fn view(&self) -> OutputView {
        OutputView {
            code: self.code,
            status: self.status@,
            stdout: self.stdout@,
            stderr: self.stderr@,
        }
    }
}

/// Why a semver check has no outcome.
#[derive(Debug)]
pub enum SemverCheckError {
    /// `cargo-semver-checks` could not be run.
    NotRun,
    /// What the run created could not be removed: the path.
    NotRemoved(String),
    /// The report is not UTF-8.
    NotUtf8,
    /// There are incompatibilities but no report.
    UnknownSource,
    /// `cargo-semver-checks` failed: the message.
    Failed(String),
}

/// The model of a [`SemverCheckError`].
pub enum SemverCheckErrorView {
    NotRun,
    NotRemoved(Seq<char>),
    NotUtf8,
    UnknownSource,
    Failed(Seq<char>),
}

impl View for SemverCheckError {
    type V = SemverCheckErrorView;

    open spec fn view(&self) -> SemverCheckErrorView {
        match self {
            SemverCheckError::NotRun => SemverCheckErrorView::NotRun,
            SemverCheckError::NotRemoved(path) => SemverCheckErrorView::NotRemoved(path@),
            SemverCheckError::NotUtf8 => SemverCheckErrorView::NotUtf8,
            SemverCheckError::UnknownSource => SemverCheckErrorView::UnknownSource,
            SemverCheckError::Failed(message) => SemverCheckErrorView::Failed(message@),
        }
    }
}

/// The model of the result of a semver check.
pub open spec fn outcome_view(result: Result<SemverCheck, SemverCheckError>) -> Result<
    SemverCheckView,
    SemverCheckErrorView,
> {
    match result {
        Ok(check) => Ok(check@),
        Err(error) => Err(error@),
    }
}

/// The message about a run that failed.
pub open spec fn failure_message(output: OutputView) -> Seq<char> {
    "cargo-semver-checks failed with "@ + output.status + "\nstdout:\n"@ + trimmed(
        lossy_text(output.stdout),
    ) + "\nstderr:\n"@ + trimmed(lossy_text(output.stderr))
}

/// What the output of `cargo-semver-checks` stands for. Exit code 0 is a compatible package,
/// 100 an incompatible one with the report on the standard output; all else is a failure.
pub open spec fn outcome_of(output: OutputView) -> Result<SemverCheckView, SemverCheckErrorView> {
    if output.code == Some(0i32) {
        Ok(SemverCheckView::Compatible)
    } else if output.code == Some(100i32) {
        if !valid_utf8(output.stdout) {
            Err(SemverCheckErrorView::NotUtf8)
        } else if trimmed(decode_utf8(output.stdout)).len() == 0 {
            Err(SemverCheckErrorView::UnknownSource)
        } else {
            Ok(SemverCheckView::Incompatible(trimmed(decode_utf8(output.stdout))))
        }
    } else {
        Err(SemverCheckErrorView::Failed(failure_message(output)))
    }
}

/// What the output of `cargo-semver-checks` stands for.
pub fn parse_semver_check_output(output: &Output) -> (r: Result<SemverCheck, SemverCheckError>)
    ensures
        outcome_view(r) == outcome_of(output@),
{
    match output.code {
        Some(0) => Ok(SemverCheck::Compatible),
        // With `--release-type minor` this means violations that require a major version.
        Some(100) => {
            match utf8_text(output.stdout.as_slice()) {
                None => Err(SemverCheckError::NotUtf8),
                Some(text) => {
                    let report = trim(text);
                    if report.is_empty() {
                        Err(SemverCheckError::UnknownSource)
                    } else {
                        Ok(SemverCheck::Incompatible(report.to_owned()))
                    }
                },
            }
        },
        _ => {
            let stdout = utf8_text_lossy(output.stdout.as_slice());
            let stderr = utf8_text_lossy(output.stderr.as_slice());
            let mut message = "cargo-semver-checks failed with ".to_owned();
            message.append(output.status.as_str());
            message.append("\nstdout:\n");
            message.append(trim(stdout.as_str()));
            message.append("\nstderr:\n");
            message.append(trim(stderr.as_str()));
            Err(SemverCheckError::Failed(message))
        },
    }
}

/// A report of incompatibilities is never blank, and comes from exit code 100 alone.
pub proof fn incompatible_means_a_report(output: OutputView)
    ensures
        outcome_of(output) matches Ok(SemverCheckView::Incompatible(report)) ==> output.code == Some(
            100i32,
        ) && report.len() > 0,
        outcome_of(output) is Ok ==> output.code == Some(0i32) || output.code == Some(100i32),
        outcome_of(output) != Ok::<SemverCheckView, SemverCheckErrorView>(SemverCheckView::Skipped),
{
}

/// What a run of `cargo-semver-checks` may create, in the order in which it is looked for.
pub open spec fn artifacts(local: Seq<char>, registry: Seq<char>) -> Seq<Seq<char>> {
    seq![
        joined_path(local, "Cargo.lock"@),
        joined_path(registry, "Cargo.lock"@),
        joined_path(local, "target"@),
        joined_path(registry, "target"@),
    ]
}

/// The arguments of `cargo-semver-checks`. Only changes that require a major version are
/// incompatible, so a minor release is assumed.
pub open spec fn check_arguments(local: Seq<char>, registry: Seq<char>) -> Seq<Seq<char>> {
    seq![
        "semver-checks"@,
        "check-release"@,
        "--color"@,
        "never"@,
        "--release-type"@,
        "minor"@,
        "--manifest-path"@,
        joined_path(local, "Cargo.toml"@),
        "--baseline-root"@,
        joined_path(registry, "Cargo.toml"@),
    ]
}

/// What the caller is asked to do for a semver check.
#[derive(Debug)]
pub enum SemverAction {
    /// Say whether this path exists.
    Probe(String),
    /// Run `cargo-semver-checks` with these arguments.
    Run(Vec<String>),
    /// Remove this file.
    RemoveFile(String),
    /// Remove this directory and what it holds.
    RemoveDir(String),
    /// Nothing more: the result.
    Finish(Result<SemverCheck, SemverCheckError>),
}

/// The model of a [`SemverAction`].
pub enum SemverActionView {
    Probe(Seq<char>),
    Run(Seq<Seq<char>>),
    RemoveFile(Seq<char>),
    RemoveDir(Seq<char>),
    Finish(Result<SemverCheckView, SemverCheckErrorView>),
}

impl View for SemverAction {
    type V = SemverActionView;

    open spec fn view(&self) -> SemverActionView {
        match self {
            SemverAction::Probe(path) => SemverActionView::Probe(path@),
            SemverAction::Run(arguments) => SemverActionView::Run(texts(arguments@)),
            SemverAction::RemoveFile(path) => SemverActionView::RemoveFile(path@),
            SemverAction::RemoveDir(path) => SemverActionView::RemoveDir(path@),
            SemverAction::Finish(result) => SemverActionView::Finish(outcome_view(*result)),
        }
    }
}

/// What came of a [`SemverAction`].
#[derive(Debug)]
pub enum SemverEvent {
    /// Whether the path exists.
    Exists(bool),
    /// The command ended.
    Ran(Output),
    /// The path was removed.
    Removed,
    /// The command could not be run, or the path could not be removed.
    Failed,
}

/// How far a semver check is.
#[derive(Debug)]
pub enum SemverStage {
    /// Looking for what is there before the run.
    Before,
    /// Running.
    Running,
    /// Looking for what the run created.
    After,
    /// Removing what the run created.
    Removing,
    /// Done.
    Finished,
}

/// A semver check under way.
#[derive(Debug)]
pub struct SemverRun {
    local_package: String,
    registry_package: String,
    stage: SemverStage,
    /// For each artifact that was looked for before the run, whether it was there.
    present: Vec<bool>,
    /// The artifact that is looked for or removed after the run.
    artifact: usize,
    /// What the run left.
    output: Option<Output>,
}

/// The model of a [`SemverRun`].
pub struct SemverRunView {
    pub local: Seq<char>,
    pub registry: Seq<char>,
    pub stage: SemverStage,
    pub present: Seq<bool>,
    pub artifact: int,
    pub output: Option<OutputView>,
}

impl View for SemverRun {
    type V = SemverRunView;

    closed spec fn view(&self) -> SemverRunView {
        SemverRunView {
            local: self.local_package@,
            registry: self.registry_package@,
            stage: self.stage,
            present: self.present@,
            artifact: self.artifact as int,
            output: match self.output {
                Some(output) => Some(output@),
                None => None,
            },
        }
    }
}

impl SemverRunView {
    /// What a stage goes with.
    pub open spec fn is_valid(self) -> bool {
        match self.stage {
            SemverStage::Before => self.present.len() < 4,
            SemverStage::Running => self.present.len() == 4,
            SemverStage::After | SemverStage::Removing => self.present.len() == 4 && 0
                <= self.artifact < 4 && !self.present[self.artifact] && self.output is Some,
            SemverStage::Finished => true,
        }
    }

    /// An event that can follow the last action.
    pub open spec fn expects(self, event: SemverEvent) -> bool {
        match self.stage {
            SemverStage::Before | SemverStage::After => event is Exists,
            SemverStage::Running => event is Ran || event is Failed,
            SemverStage::Removing => event is Removed || event is Failed,
            SemverStage::Finished => false,
        }
    }

    /// The paths of the artifacts.
    pub open spec fn artifacts(self) -> Seq<Seq<char>> {
        artifacts(self.local, self.registry)
    }

    /// The end, with a result.
    pub open spec fn finish(self, result: Result<SemverCheckView, SemverCheckErrorView>) -> (
        SemverRunView,
        SemverActionView,
    ) {
        (SemverRunView { stage: SemverStage::Finished, ..self }, SemverActionView::Finish(result))
    }

    /// After the run: look for the first artifact from `from` on that was not there before
    /// the run; without one, end with what the output stands for.
    pub open spec fn settle(self, from: int) -> (SemverRunView, SemverActionView)
        decreases 4 - from,
    {
        if from >= 4 {
            self.finish(outcome_of(self.output->0))
        } else if self.present[from] {
            self.settle(from + 1)
        } else {
            (
                SemverRunView { stage: SemverStage::After, artifact: from, ..self },
                SemverActionView::Probe(self.artifacts()[from]),
            )
        }
    }

    /// The next state and action. What was there before the run is left alone; of the rest,
    /// what is there after it is removed, the two lockfiles before the two directories.
    pub open spec fn step(self, event: SemverEvent) -> (SemverRunView, SemverActionView) {
        match (self.stage, event) {
            (SemverStage::Before, SemverEvent::Exists(exists)) => {
                let present = self.present.push(exists);
                if present.len() < 4 {
                    (
                        SemverRunView { present, ..self },
                        SemverActionView::Probe(self.artifacts()[present.len() as int]),
                    )
                } else {
                    (
                        SemverRunView { stage: SemverStage::Running, present, ..self },
                        SemverActionView::Run(check_arguments(self.local, self.registry)),
                    )
                }
            },
            (SemverStage::Running, SemverEvent::Ran(output)) => {
                (SemverRunView { output: Some(output@), ..self }).settle(0)
            },
            (SemverStage::Running, _) => self.finish(Err(SemverCheckErrorView::NotRun)),
            (SemverStage::After, SemverEvent::Exists(exists)) => {
                if exists {
                    let path = self.artifacts()[self.artifact];
                    (
                        SemverRunView { stage: SemverStage::Removing, ..self },
                        if self.artifact < 2 {
                            SemverActionView::RemoveFile(path)
                        } else {
                            SemverActionView::RemoveDir(path)
                        },
                    )
                } else {
                    self.settle(self.artifact + 1)
                }
            },
            (SemverStage::Removing, SemverEvent::Removed) => self.settle(self.artifact + 1),
            (SemverStage::Removing, _) => self.finish(
                Err(SemverCheckErrorView::NotRemoved(self.artifacts()[self.artifact])),
            ),
            _ => self.finish(Err(SemverCheckErrorView::NotRun)),
        }
    }
}

impl SemverRun {
    /// The check of the package at `local_package` against the one at `registry_package`,
    /// and the first action.
    pub fn start(local_package: &str, registry_package: &str) -> (r: (SemverRun, SemverAction))
        ensures
            r.0@ == (SemverRunView {
                local: local_package@,
                registry: registry_package@,
                stage: SemverStage::Before,
                present: seq![],
                artifact: 0,
                output: None,
            }),
            r.0@.is_valid(),
            r.1@ == SemverActionView::Probe(artifacts(local_package@, registry_package@)[0]),
    {
        let action = SemverAction::Probe(cargo_lock(local_package));
        let run = SemverRun {
            local_package: local_package.to_owned(),
            registry_package: registry_package.to_owned(),
            stage: SemverStage::Before,
            present: Vec::new(),
            artifact: 0,
            output: None,
        };
        (run, action)
    }

    fn artifact_path(&self, artifact: usize) -> (r: String)
        requires
            artifact < 4,
        ensures
            r@ == self@.artifacts()[artifact as int],
    {
        if artifact == 0 {
            cargo_lock(self.local_package.as_str())
        } else if artifact == 1 {
            cargo_lock(self.registry_package.as_str())
        } else if artifact == 2 {
            target_dir(self.local_package.as_str())
        } else {
            target_dir(self.registry_package.as_str())
        }
    }

    fn arguments(&self) -> (r: Vec<String>)
        ensures
            texts(r@) == check_arguments(self@.local, self@.registry),
    {
        let mut r: Vec<String> = Vec::new();
        r.push("semver-checks".to_owned());
        r.push("check-release".to_owned());
        r.push("--color".to_owned());
        r.push("never".to_owned());
        r.push("--release-type".to_owned());
        r.push("minor".to_owned());
        r.push("--manifest-path".to_owned());
        r.push(join(self.local_package.as_str(), "Cargo.toml"));
        r.push("--baseline-root".to_owned());
        r.push(join(self.registry_package.as_str(), "Cargo.toml"));
        assert(texts(r@) =~= check_arguments(self@.local, self@.registry));
        r
    }

    fn finish(self, result: Result<SemverCheck, SemverCheckError>) -> (r: (SemverRun, SemverAction))
        ensures
            (r.0@, r.1@) == self@.finish(outcome_view(result)),
    {
        (SemverRun { stage: SemverStage::Finished, ..self }, SemverAction::Finish(result))
    }

    fn settle(self, from: usize) -> (r: (SemverRun, SemverAction))
        requires
            self.present@.len() == 4,
            self.output is Some,
            from <= 4,
        ensures
            (r.0@, r.1@) == self@.settle(from as int),
            r.0@.is_valid(),
    {
        let mut artifact: usize = from;
        while artifact < 4 && self.present[artifact]
            invariant
                from <= artifact <= 4,
                self.present@.len() == 4,
                self@.settle(from as int) == self@.settle(artifact as int),
            decreases 4 - artifact,
        {
            artifact += 1;
        }
        if artifact < 4 {
            let action = SemverAction::Probe(self.artifact_path(artifact));
            (SemverRun { stage: SemverStage::After, artifact, ..self }, action)
        } else {
            match &self.output {
                Some(output) => {
                    let result = parse_semver_check_output(output);
                    self.finish(result)
                },
                None => self.finish(Err(SemverCheckError::NotRun)),
            }
        }
    }

    /// The next state and action, after what came of the last action.
    pub fn step(self, event: SemverEvent) -> (r: (SemverRun, SemverAction))
        requires
            self@.is_valid(),
            self@.expects(event),
        ensures
            (r.0@, r.1@) == self@.step(event),
            r.0@.is_valid(),
    {
        match (&self.stage, event) {
            (SemverStage::Before, SemverEvent::Exists(exists)) => {
                let mut present = self.present;
                present.push(exists);
                let run = SemverRun { present, ..self };
                if run.present.len() < 4 {
                    let action = SemverAction::Probe(run.artifact_path(run.present.len()));
                    (run, action)
                } else {
                    let action = SemverAction::Run(run.arguments());
                    (SemverRun { stage: SemverStage::Running, ..run }, action)
                }
            },
            (SemverStage::Running, SemverEvent::Ran(output)) => {
                let run = SemverRun { output: Some(output), ..self };
                run.settle(0)
            },
            (SemverStage::Running, _) => self.finish(Err(SemverCheckError::NotRun)),
            (SemverStage::After, SemverEvent::Exists(exists)) => {
                if exists {
                    let path = self.artifact_path(self.artifact);
                    let action = if self.artifact < 2 {
                        SemverAction::RemoveFile(path)
                    } else {
                        SemverAction::RemoveDir(path)
                    };
                    (SemverRun { stage: SemverStage::Removing, ..self }, action)
                } else {
                    let next: usize = self.artifact + 1;
                    self.settle(next)
                }
            },
            (SemverStage::Removing, SemverEvent::Removed) => {
                let next: usize = self.artifact + 1;
                self.settle(next)
            },
            (SemverStage::Removing, _) => {
                let path = self.artifact_path(self.artifact);
                self.finish(Err(SemverCheckError::NotRemoved(path)))
            },
            _ => self.finish(Err(SemverCheckError::NotRun)),
        }
    }
}

/// The paths that a check removes and the action it ends in, where it is told of artifact
/// `i` that it exists if and only if `created(i)`, and every path can be removed.
pub open spec fn cleanup(
    run: SemverRunView,
    action: SemverActionView,
    created: spec_fn(int) -> bool,
    steps: nat,
) -> (Seq<Seq<char>>, SemverActionView)
    decreases steps,
{
    if steps == 0 {
        (seq![], action)
    } else {
        match action {
            SemverActionView::Probe(_) => {
                let (next, then) = run.step(SemverEvent::Exists(created(run.artifact)));
                cleanup(next, then, created, (steps - 1) as nat)
            },
            SemverActionView::RemoveFile(path) | SemverActionView::RemoveDir(path) => {
                let (next, then) = run.step(SemverEvent::Removed);
                let (removed, last) = cleanup(next, then, created, (steps - 1) as nat);
                (seq![path] + removed, last)
            },
            _ => (seq![], action),
        }
    }
}

/// Those artifacts from `from` on that were not present and were created.
pub open spec fn leftovers(
    run: SemverRunView,
    created: spec_fn(int) -> bool,
    from: int,
) -> Seq<Seq<char>>
    decreases 4 - from,
{
    if from >= 4 {
        seq![]
    } else if !run.present[from] && created(from) {
        seq![run.artifacts()[from]] + leftovers(run, created, from + 1)
    } else {
        leftovers(run, created, from + 1)
    }
}

/// A check removes exactly what the run created: what was there before stays, and of the rest
/// what is there afterwards goes. Then it ends with what the output stands for.
pub proof fn check_removes_what_it_created(
    run: SemverRunView,
    created: spec_fn(int) -> bool,
    from: int,
    steps: nat,
)
    requires
        run.present.len() == 4,
        run.output is Some,
        0 <= from <= 4,
        steps >= 2 * (4 - from) + 1,
    ensures
        ({
            let (next, then) = run.settle(from);
            cleanup(next, then, created, steps) == (
                leftovers(run, created, from),
                SemverActionView::Finish(outcome_of(run.output->0)),
            )
        }),
    decreases 4 - from,
{
    if from < 4 {
        if run.present[from] {
            check_removes_what_it_created(run, created, from + 1, steps);
        } else {
            reveal_with_fuel(cleanup, 3);
            let (probing, _) = run.settle(from);
            let (next, then) = probing.step(SemverEvent::Exists(created(from)));
            lemma_leftovers_depend_on_what_was_there(run, probing, created, from + 1);
            if created(from) {
                lemma_leftovers_depend_on_what_was_there(run, next, created, from + 1);
                check_removes_what_it_created(next, created, from + 1, (steps - 2) as nat);
            } else {
                check_removes_what_it_created(probing, created, from + 1, (steps - 1) as nat);
            }
        }
    }
}

proof fn lemma_leftovers_depend_on_what_was_there(
    a: SemverRunView,
    b: SemverRunView,
    created: spec_fn(int) -> bool,
    from: int,
)
    requires
        a.local == b.local,
        a.registry == b.registry,
        a.present == b.present,
    ensures
        leftovers(a, created, from) == leftovers(b, created, from),
    decreases 4 - from,
{
    if from < 4 {
        lemma_leftovers_depend_on_what_was_there(a, b, created, from + 1);
    }
}

/// A check after it was told what is there before the run.
pub open spec fn after_probing(run: SemverRunView, before: Seq<bool>) -> (
    SemverRunView,
    SemverActionView,
) {
    let (first, _) = run.step(SemverEvent::Exists(before[0]));
    let (second, _) = first.step(SemverEvent::Exists(before[1]));
    let (third, _) = second.step(SemverEvent::Exists(before[2]));
    third.step(SemverEvent::Exists(before[3]))
}

/// A whole check: it looks for the artifacts, runs `cargo-semver-checks` on the two manifests,
/// removes what the run created, and ends with what the output stands for.
pub proof fn check_leaves_the_packages_as_they_were(
    local: Seq<char>,
    registry: Seq<char>,
    before: Seq<bool>,
    output: Output,
    after: spec_fn(int) -> bool,
)
    requires
        before.len() == 4,
    ensures
        ({
            let beginning = SemverRunView {
                local,
                registry,
                stage: SemverStage::Before,
                present: seq![],
                artifact: 0,
                output: None,
            };
            let (running, action) = after_probing(beginning, before);
            let (next, then) = running.step(SemverEvent::Ran(output));
            &&& action == SemverActionView::Run(check_arguments(local, registry))
            &&& running.present == before
            &&& cleanup(next, then, after, 9) == (
                leftovers(running, after, 0),
                SemverActionView::Finish(outcome_of(output@)),
            )
        }),
{
    let beginning = SemverRunView {
        local,
        registry,
        stage: SemverStage::Before,
        present: seq![],
        artifact: 0,
        output: None,
    };
    let running = after_probing(beginning, before).0;
    assert(running.present =~= before);
    let ran = SemverRunView { output: Some(output@), ..running };
    check_removes_what_it_created(ran, after, 0, 9);
    lemma_leftovers_depend_on_what_was_there(ran, running, after, 0);
}

/// The exit code says what was found: 0 that the package is compatible, 100 that it is not, and
/// anything else that the check failed.
pub proof fn exit_code_decides(output: &Output, r: Result<SemverCheck, SemverCheckError>)
    requires
        call_ensures(parse_semver_check_output, (output,), r),
    ensures
        r matches Ok(SemverCheck::Compatible) <==> output.code == Some(0i32),
        r matches Ok(SemverCheck::Incompatible(_)) ==> output.code == Some(100i32),
        !(r matches Ok(SemverCheck::Skipped)),
        r matches Err(SemverCheckError::Failed(_)) <==> output.code != Some(0i32) && output.code
            != Some(100i32),
        r matches Err(SemverCheckError::NotUtf8) <==> output.code == Some(100i32) && !valid_utf8(
            output.stdout@,
        ),
        !(r matches Err(SemverCheckError::NotRun)),
        !(r matches Err(SemverCheckError::NotRemoved(_))),
{
}

/// The report of an incompatible package is the standard output without the white space around
/// it. Without a report it is not known what is incompatible.
pub proof fn report_is_the_standard_output(
    output: &Output,
    before: Seq<char>,
    report: Seq<char>,
    after: Seq<char>,
    r: Result<SemverCheck, SemverCheckError>,
)
    requires
        call_ensures(parse_semver_check_output, (output,), r),
        output.code == Some(100i32),
        valid_utf8(output.stdout@),
        decode_utf8(output.stdout@) == before + report + after,
        forall|i: int| 0 <= i < before.len() ==> is_white_space(#[trigger] before[i]),
        forall|i: int| 0 <= i < after.len() ==> is_white_space(#[trigger] after[i]),
        report.len() > 0 ==> !is_white_space(report.first()) && !is_white_space(report.last()),
    ensures
        report.len() > 0 ==> (r matches Ok(SemverCheck::Incompatible(text)) && text@ == report),
        report.len() == 0 ==> (r matches Err(SemverCheckError::UnknownSource)),
{
    trimming_takes_white_space_off_the_ends(before, report, after);
}

/// What is on the standard error, and how the status is worded, makes no difference to a check
/// that was done.
pub proof fn standard_error_makes_no_difference(
    a: &Output,
    b: &Output,
    of_a: Result<SemverCheck, SemverCheckError>,
    of_b: Result<SemverCheck, SemverCheckError>,
)
    requires
        call_ensures(parse_semver_check_output, (a,), of_a),
        call_ensures(parse_semver_check_output, (b,), of_b),
        a.code == b.code,
        a.stdout@ == b.stdout@,
        a.code == Some(0i32) || a.code == Some(100i32),
    ensures
        outcome_view(of_a) == outcome_view(of_b),
{
}

/// A check that failed says with which status, and what is on the two outputs.
pub proof fn failure_says_what_was_printed(
    output: &Output,
    r: Result<SemverCheck, SemverCheckError>,
)
    requires
        call_ensures(parse_semver_check_output, (output,), r),
        output.code != Some(0i32),
        output.code != Some(100i32),
    ensures
        r matches Err(SemverCheckError::Failed(message)) && message@
            == "cargo-semver-checks failed with "@ + output.status@ + "\nstdout:\n"@ + trimmed(
            lossy_text(output.stdout@),
        ) + "\nstderr:\n"@ + trimmed(lossy_text(output.stderr@)),
{
}

/// A list of updates marks the compatible and the incompatible packages, and no others.
pub proof fn outcomes_are_marked(check: &SemverCheck, r: &'static str)
    requires
        call_ensures(SemverCheck::outcome_str, (check,), r),
    ensures
        *check is Compatible ==> r@ == " (✓ API compatible changes)"@,
        *check is Incompatible ==> r@ == " (⚠️ API breaking changes)"@,
        *check is Skipped ==> r@ == ""@,
{
}

/// A copy of an outcome is the same outcome, with the same report.
pub proof fn outcomes_are_copied(check: &SemverCheck, r: SemverCheck)
    requires
        call_ensures(SemverCheck::copy, (check,), r),
    ensures
        *check is Compatible <==> r is Compatible,
        *check is Skipped <==> r is Skipped,
        *check matches SemverCheck::Incompatible(report) ==> (r matches SemverCheck::Incompatible(
            copy,
        ) && copy@ == report@),
{
}

/// The build directory and the lockfile of a package are in its directory.
pub proof fn artifacts_are_in_the_package(path: &str, target: String, lock: String)
    requires
        call_ensures(target_dir, (path,), target),
        call_ensures(cargo_lock, (path,), lock),
    ensures
        target@ == joined_path(path@, "target"@),
        lock@ == joined_path(path@, "Cargo.lock"@),
{
}

/// A check begins with the lockfile of the local package, and each step is the one that its state
/// asks for.
pub proof fn check_begins_with_the_local_lockfile(
    local: &str,
    registry: &str,
    r: (SemverRun, SemverAction),
)
    requires
        call_ensures(SemverRun::start, (local, registry), r),
    ensures
        r.1@ == SemverActionView::Probe(joined_path(local@, "Cargo.lock"@)),
        r.0@.local == local@,
        r.0@.registry == registry@,
        r.0@.stage is Before,
        r.0@.present.len() == 0,
        r.0@.artifact == 0,
        r.0@.output is None,
{
}

/// The check goes from state to state as [`SemverRunView::step`] says.
pub proof fn check_goes_on_by_its_state(
    run: SemverRun,
    event: SemverEvent,
    r: (SemverRun, SemverAction),
)
    requires
        call_ensures(SemverRun::step, (run, event), r),
    ensures
        (r.0@, r.1@) == run@.step(event),
{
}

/// Before the run, the lockfiles of the two packages and then their build directories are looked
/// for. The run compares the local manifest with the one of the registry, as a minor release.
pub proof fn artifacts_are_looked_for_before_the_run(
    local: Seq<char>,
    registry: Seq<char>,
    before: Seq<bool>,
)
    requires
        before.len() == 4,
    ensures
        ({
            let beginning = SemverRunView {
                local,
                registry,
                stage: SemverStage::Before,
                present: seq![],
                artifact: 0,
                output: None,
            };
            let (first, probe_1) = beginning.step(SemverEvent::Exists(before[0]));
            let (second, probe_2) = first.step(SemverEvent::Exists(before[1]));
            let (third, probe_3) = second.step(SemverEvent::Exists(before[2]));
            let (running, run) = third.step(SemverEvent::Exists(before[3]));
            &&& probe_1 == SemverActionView::Probe(joined_path(registry, "Cargo.lock"@))
            &&& probe_2 == SemverActionView::Probe(joined_path(local, "target"@))
            &&& probe_3 == SemverActionView::Probe(joined_path(registry, "target"@))
            &&& run == SemverActionView::Run(
                seq![
                    "semver-checks"@,
                    "check-release"@,
                    "--color"@,
                    "never"@,
                    "--release-type"@,
                    "minor"@,
                    "--manifest-path"@,
                    joined_path(local, "Cargo.toml"@),
                    "--baseline-root"@,
                    joined_path(registry, "Cargo.toml"@),
                ],
            )
            &&& running == (SemverRunView {
                local,
                registry,
                stage: SemverStage::Running,
                present: before,
                artifact: 0,
                output: None,
            })
            &&& running.step(SemverEvent::Failed).1 == SemverActionView::Finish(
                Err(SemverCheckErrorView::NotRun),
            )
        }),
{
    let beginning = SemverRunView {
        local,
        registry,
        stage: SemverStage::Before,
        present: seq![],
        artifact: 0,
        output: None,
    };
    let (running, _) = after_probing(beginning, before);
    assert(running.present =~= before);
}

/// After the run, an artifact is removed if and only if it was not there before the run and is
/// there after it; then the check ends with what the run found.
pub proof fn only_new_artifacts_are_removed(
    local: Seq<char>,
    registry: Seq<char>,
    before: Seq<bool>,
    output: Output,
    after: spec_fn(int) -> bool,
)
    requires
        before.len() == 4,
    ensures
        ({
            let running = SemverRunView {
                local,
                registry,
                stage: SemverStage::Running,
                present: before,
                artifact: 0,
                output: None,
            };
            let (next, following) = running.step(SemverEvent::Ran(output));
            let (removed, last) = cleanup(next, following, after, 9);
            let if_new = |i: int, path: Seq<char>|
                if !before[i] && after(i) {
                    seq![path]
                } else {
                    Seq::empty()
                };
            &&& removed == if_new(0, joined_path(local, "Cargo.lock"@)) + if_new(
                1,
                joined_path(registry, "Cargo.lock"@),
            ) + if_new(2, joined_path(local, "target"@)) + if_new(
                3,
                joined_path(registry, "target"@),
            )
            &&& last == SemverActionView::Finish(outcome_of(output@))
        }),
{
    let running = SemverRunView {
        local,
        registry,
        stage: SemverStage::Running,
        present: before,
        artifact: 0,
        output: None,
    };
    let ran = SemverRunView { output: Some(output@), ..running };
    check_removes_what_it_created(ran, after, 0, 9);
    reveal_with_fuel(leftovers, 5);
    let if_new = |i: int, path: Seq<char>|
        if !before[i] && after(i) {
            seq![path]
        } else {
            Seq::empty()
        };
    assert(leftovers(ran, after, 0) =~= if_new(0, joined_path(local, "Cargo.lock"@)) + if_new(
        1,
        joined_path(registry, "Cargo.lock"@),
    ) + if_new(2, joined_path(local, "target"@)) + if_new(3, joined_path(registry, "target"@)));
}

/// A lockfile is removed as a file and a build directory with what it holds; where that fails,
/// the check fails and says which it is.
pub proof fn new_artifacts_are_removed_as_what_they_are(run: SemverRunView)
    requires
        run.stage is After,
        run.is_valid(),
    ensures
        ({
            let (removing, removal) = run.step(SemverEvent::Exists(true));
            let path = if run.artifact == 0 {
                joined_path(run.local, "Cargo.lock"@)
            } else if run.artifact == 1 {
                joined_path(run.registry, "Cargo.lock"@)
            } else if run.artifact == 2 {
                joined_path(run.local, "target"@)
            } else {
                joined_path(run.registry, "target"@)
            };
            &&& removal == if run.artifact < 2 {
                SemverActionView::RemoveFile(path)
            } else {
                SemverActionView::RemoveDir(path)
            }
            &&& removing.step(SemverEvent::Failed).1 == SemverActionView::Finish(
                Err(SemverCheckErrorView::NotRemoved(path)),
            )
            &&& removing.step(SemverEvent::Removed).1 == run.step(SemverEvent::Exists(false)).1
        }),
{
    reveal_with_fuel(SemverRunView::settle, 5);
}

/// The check goes on from each state that it reaches, whatever comes of its action.
pub proof fn check_takes_what_can_come(run: SemverRun, event: SemverEvent)
    requires
        run@.is_valid(),
    ensures
        match run@.stage {
            SemverStage::Before | SemverStage::After => event is Exists,
            SemverStage::Running => event is Ran || event is Failed,
            SemverStage::Removing => event is Removed || event is Failed,
            SemverStage::Finished => false,
        } ==> call_requires(SemverRun::step, (run, event)),
{
}

}
