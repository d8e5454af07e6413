//! Checks of the public API.

use release_plz_core::semver_check::{
    cargo_lock, parse_semver_check_output, target_dir, Output, SemverAction, SemverCheck,
    SemverCheckError, SemverEvent, SemverRun,
};

fn output(code: Option<i32>, stdout: &str, stderr: &str) -> Output {
    Output {
        code,
        status: match code {
            Some(code) => format!("exit status: {code}"),
            None => "signal: 9 (SIGKILL)".to_string(),
        },
        stdout: stdout.as_bytes().to_vec(),
        stderr: stderr.as_bytes().to_vec(),
    }
}

/// Runs a check. `before` and `after` are the artifacts that exist before and after the tool
/// runs. Returns the result, the arguments of the tool and what was removed.
fn run(
    before: &[&str],
    after: &[&str],
    tool: &dyn Fn(&[String]) -> Option<Output>,
) -> (Result<SemverCheck, SemverCheckError>, Vec<String>, Vec<String>) {
    let (mut check, mut action) = SemverRun::start("/current", "/baseline");
    let mut arguments_of_tool = vec![];
    let mut ran = false;
    let mut removed = vec![];
    loop {
        let event = match action {
            SemverAction::Probe(path) => {
                SemverEvent::Exists((if ran { after } else { before }).contains(&path.as_str()))
            }
            SemverAction::Run(arguments) => {
                ran = true;
                let output = tool(&arguments);
                arguments_of_tool = arguments;
                match output {
                    Some(output) => SemverEvent::Ran(output),
                    None => SemverEvent::Failed,
                }
            }
            SemverAction::RemoveFile(path) => {
                removed.push(format!("file {path}"));
                SemverEvent::Removed
            }
            SemverAction::RemoveDir(path) => {
                removed.push(format!("dir {path}"));
                SemverEvent::Removed
            }
            SemverAction::Finish(result) => return (result, arguments_of_tool, removed),
        };
        (check, action) = check.step(event);
    }
}

/// What `cargo-semver-checks` says of `source`, where `pub fn answer() -> u32` was released. A
/// removed function asks for a major version, `#[must_use]` for a minor one.
fn tool(source: &str, arguments: &[String]) -> Option<Output> {
    let minor_allowed =
        arguments.windows(2).any(|pair| pair[0] == "--release-type" && pair[1] == "minor");
    let major = !source.contains("pub fn answer() -> u32");
    let minor = source.contains("#[must_use]");
    if major || (minor && !minor_allowed) {
        Some(output(Some(100), "\n--- failure ---\n", ""))
    } else {
        Some(output(Some(0), "", ""))
    }
}

#[test]
fn only_major_changes_are_incompatible() {
    let assert_incompatible = |source: &str, incompatible| {
        let result = run(&[], &[], &|arguments| tool(source, arguments)).0.unwrap();
        assert_eq!(
            matches!(result, SemverCheck::Incompatible(_)),
            incompatible,
            "unexpected result for {source}: {result:?}",
        );
    };

    // Adding #[must_use] requires only a minor bump in cargo-semver-checks.
    assert_incompatible("#[must_use]\npub fn answer() -> u32 { 42 }", false);
    // Removing the existing public function requires a major bump.
    assert_incompatible("pub fn other() -> u32 { 42 }", true);
}

#[test]
fn tool_is_run_on_both_manifests() {
    let (_, arguments, _) = run(&[], &[], &|_| Some(output(Some(0), "", "")));
    assert_eq!(
        arguments,
        [
            "semver-checks",
            "check-release",
            "--color",
            "never",
            "--release-type",
            "minor",
            "--manifest-path",
            "/current/Cargo.toml",
            "--baseline-root",
            "/baseline/Cargo.toml",
        ]
    );
}

#[test]
fn check_removes_only_what_it_created() {
    let all =
        ["/current/Cargo.lock", "/baseline/Cargo.lock", "/current/target", "/baseline/target"];
    let ok = |_: &[String]| Some(output(Some(0), "", ""));
    assert_eq!(
        run(&[], &all, &ok).2,
        [
            "file /current/Cargo.lock",
            "file /baseline/Cargo.lock",
            "dir /current/target",
            "dir /baseline/target"
        ]
    );
    assert!(run(&all, &all, &ok).2.is_empty());
    assert!(run(&[], &[], &ok).2.is_empty());
    assert_eq!(
        run(&[all[0], all[3]], &all, &ok).2,
        ["file /baseline/Cargo.lock", "dir /current/target"]
    );
    // What the check created goes also where it found incompatibilities.
    let (result, _, removed) = run(&[], &all[2..3], &|_| Some(output(Some(100), "report", "")));
    assert!(matches!(result, Ok(SemverCheck::Incompatible(report)) if report == "report"));
    assert_eq!(removed, ["dir /current/target"]);
}

#[test]
fn artifact_that_cannot_be_removed_is_an_error() {
    let (mut check, _) = SemverRun::start("/current", "/baseline");
    for _ in 0..4 {
        check = check.step(SemverEvent::Exists(false)).0;
    }
    let (check, _) = check.step(SemverEvent::Ran(output(Some(0), "", "")));
    let (check, action) = check.step(SemverEvent::Exists(true));
    assert!(matches!(action, SemverAction::RemoveFile(path) if path == "/current/Cargo.lock"));
    let (_, action) = check.step(SemverEvent::Failed);
    assert!(matches!(action, SemverAction::Finish(Err(SemverCheckError::NotRemoved(path))) if path == "/current/Cargo.lock"));
}

#[test]
fn tool_that_cannot_be_run_is_an_error() {
    assert!(matches!(run(&[], &[], &|_| None).0, Err(SemverCheckError::NotRun)));
}

#[test]
fn exit_codes_and_output_decide() {
    assert!(matches!(
        parse_semver_check_output(&output(Some(0), "anything", "")),
        Ok(SemverCheck::Compatible)
    ));
    assert!(matches!(
        parse_semver_check_output(&output(Some(100), " \n\u{3000}report\tend \n", "")),
        Ok(SemverCheck::Incompatible(report)) if report == "report\tend"
    ));
    assert!(matches!(
        parse_semver_check_output(&output(Some(100), " \n\t ", "")),
        Err(SemverCheckError::UnknownSource)
    ));
    let mut invalid = output(Some(100), "", "");
    invalid.stdout = vec![0xff];
    assert!(matches!(parse_semver_check_output(&invalid), Err(SemverCheckError::NotUtf8)));
    for (code, status) in [(Some(1), "exit status: 1"), (None, "signal: 9 (SIGKILL)")] {
        match parse_semver_check_output(&output(code, " out\n", "err ")) {
            Err(SemverCheckError::Failed(message)) => assert_eq!(
                message,
                format!("cargo-semver-checks failed with {status}\nstdout:\nout\nstderr:\nerr")
            ),
            other => panic!("{other:?}"),
        }
    }
}

#[test]
fn outcomes_in_words() {
    assert_eq!(SemverCheck::Compatible.outcome_str(), " (✓ API compatible changes)");
    assert_eq!(
        SemverCheck::Incompatible("report".to_string()).outcome_str(),
        " (⚠️ API breaking changes)"
    );
    assert_eq!(SemverCheck::Skipped.outcome_str(), "");
}

#[test]
fn artifacts_are_in_the_package() {
    assert_eq!(target_dir("/a/"), "/a/target");
    assert_eq!(cargo_lock("a"), "a/Cargo.lock");
}
