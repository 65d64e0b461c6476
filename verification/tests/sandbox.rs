use devchain::oracle::docker_verifier::{
    recipe_table, DockerOracle, SandboxAction, SandboxEvent, SandboxPool, SandboxRun,
    NONZERO_DIAGNOSTIC, OUT_OF_TURN_DIAGNOSTIC, RUN_TIMEOUT_SECS, TIMEOUT_DIAGNOSTIC,
    UNSUPPORTED_DIAGNOSTIC,
};
use devchain::oracle::verdict::{FailureKind, VerificationResult};

fn files_of(action: SandboxAction) -> Vec<(String, String)> {
    match action {
        SandboxAction::Materialize { files } => {
            files.into_iter().map(|f| (f.name, f.content)).collect()
        }
        other => panic!("not a materialize action: {:?}", other),
    }
}

fn verdict_of(action: SandboxAction) -> VerificationResult {
    match action {
        SandboxAction::Report { verdict } => verdict,
        other => panic!("not a report: {:?}", other),
    }
}

fn started() -> SandboxRun {
    DockerOracle::verify_as("Python", "s", "t", "tok").0
}

fn built() -> SandboxRun {
    DockerOracle::advance(started(), SandboxEvent::ContextReady).0
}

fn running() -> SandboxRun {
    DockerOracle::advance(built(), SandboxEvent::BuildSucceeded).0
}

fn finish(run: SandboxRun, event: SandboxEvent) -> VerificationResult {
    let (run, action) = DockerOracle::advance(run, event);
    assert!(matches!(run, SandboxRun::Releasing { .. }));
    match action {
        SandboxAction::Release { image_tag } => assert_eq!(image_tag, "devchain-test-tok"),
        other => panic!("expected a release, got {:?}", other),
    }
    let (run, action) = DockerOracle::advance(run, SandboxEvent::Released);
    assert!(matches!(run, SandboxRun::Finished { .. }));
    verdict_of(action)
}

#[test]
fn recipe_table_has_ten_languages() {
    let table = recipe_table();
    let languages: Vec<&str> = table.iter().map(|r| r.language).collect();
    assert_eq!(
        languages,
        vec![
            "Python", "JavaScript", "Rust", "Go", "Java", "Cpp", "CSharp", "Swift", "Kotlin",
            "TypeScript"
        ]
    );
}

#[test]
fn recipe_files_by_language() {
    let expected = [
        ("Python", "solution.py", "run_tests.py"),
        ("JavaScript", "solution.js", "run_tests.js"),
        ("Rust", "main.rs", "main.rs"),
        ("Go", "main.go", "main.go"),
        ("Java", "Main.java", "Main.java"),
        ("Cpp", "main.cpp", "main.cpp"),
        ("CSharp", "Program.cs", "Program.cs"),
        ("Swift", "main.swift", "main.swift"),
        ("Kotlin", "Main.kt", "Main.kt"),
        ("TypeScript", "solution.ts", "run_tests.ts"),
    ];
    for (language, solution_file, test_file) in expected {
        let recipe = DockerOracle::recipe_for(language).expect(language);
        assert_eq!(recipe.language, language);
        assert_eq!(recipe.solution_file, solution_file);
        assert_eq!(recipe.test_file, test_file);
        assert!(recipe.manifest.starts_with("FROM "));
        assert!(recipe.manifest.contains("CMD ["));
    }
}

#[test]
fn python_manifest_is_the_catalog_text() {
    let recipe = DockerOracle::recipe_for("Python").expect("Python");
    assert_eq!(
        recipe.manifest,
        "FROM python:3.9-slim\nWORKDIR /app\nCOPY . .\nCMD [\"python\", \"run_tests.py\"]"
    );
    let recipe = DockerOracle::recipe_for("Go").expect("Go");
    assert_eq!(
        recipe.manifest,
        "FROM golang:1.22 as builder\nWORKDIR /app\nCOPY . .\nRUN go build -o solution .\n\nFROM gcr.io/distroless/static-debian11\nCOPY --from=builder /app/solution .\nCMD [\"./solution\"]"
    );
}

#[test]
fn no_recipe_for_an_unknown_language() {
    assert!(DockerOracle::recipe_for("Cobol").is_none());
    assert!(DockerOracle::recipe_for("python").is_none());
    assert!(DockerOracle::recipe_for("").is_none());
}

#[test]
fn interpreted_language_gets_solution_and_harness_in_separate_files() {
    let (run, action) = DockerOracle::verify_as("Python", "def solve(n): pass", "assert True", "abc");
    match run {
        SandboxRun::Materializing { image_tag } => assert_eq!(image_tag, "devchain-test-abc"),
        other => panic!("{:?}", other),
    }
    let files = files_of(action);
    assert_eq!(files.len(), 3);
    assert_eq!(files[0].0, "Dockerfile");
    assert_eq!(
        files[0].1,
        "FROM python:3.9-slim\nWORKDIR /app\nCOPY . .\nCMD [\"python\", \"run_tests.py\"]"
    );
    assert_eq!(files[1], ("solution.py".to_string(), "def solve(n): pass".to_string()));
    assert_eq!(files[2], ("run_tests.py".to_string(), "assert True".to_string()));
}

#[test]
fn compiled_language_gets_solution_and_harness_in_one_unit() {
    let (_, action) = DockerOracle::verify_as("Rust", "fn solve() {}", "fn main() {}", "abc");
    let files = files_of(action);
    assert_eq!(files.len(), 2);
    assert_eq!(files[0].0, "Dockerfile");
    assert_eq!(files[1], ("main.rs".to_string(), "fn solve() {}\n\nfn main() {}".to_string()));
}

#[test]
fn unsupported_language_is_rejected_at_once() {
    let (run, action) = DockerOracle::verify_as("Cobol", "x", "y", "abc");
    assert!(matches!(run, SandboxRun::Finished { .. }));
    let verdict = verdict_of(action);
    assert!(!verdict.accepted);
    assert_eq!(verdict.failure, Some(FailureKind::UnsupportedLanguage));
    assert_eq!(verdict.diagnostic, UNSUPPORTED_DIAGNOSTIC);

    let (run, action) = DockerOracle::verify("Cobol", "x", "y");
    assert!(matches!(run, SandboxRun::Finished { .. }));
    assert_eq!(verdict_of(action).failure, Some(FailureKind::UnsupportedLanguage));
}

#[test]
fn each_attempt_gets_an_identity_of_its_own() {
    let tag = |run: SandboxRun| match run {
        SandboxRun::Materializing { image_tag } => image_tag,
        other => panic!("{:?}", other),
    };
    let first = tag(DockerOracle::verify("Go", "a", "b").0);
    let second = tag(DockerOracle::verify("Go", "a", "b").0);
    assert!(first.starts_with("devchain-test-"));
    assert_eq!(first.chars().count(), "devchain-test-".len() + 36);
    assert_eq!(second.chars().count(), "devchain-test-".len() + 36);
    assert_ne!(first, second);
}

#[test]
fn accepted_run_goes_through_build_run_release_report() {
    let (run, action) = DockerOracle::advance(started(), SandboxEvent::ContextReady);
    assert!(matches!(run, SandboxRun::Building { .. }));
    match action {
        SandboxAction::Build { image_tag } => assert_eq!(image_tag, "devchain-test-tok"),
        other => panic!("{:?}", other),
    }
    let (run, action) = DockerOracle::advance(run, SandboxEvent::BuildSucceeded);
    assert!(matches!(run, SandboxRun::Running { .. }));
    match action {
        SandboxAction::Run { image_tag, timeout_secs } => {
            assert_eq!(image_tag, "devchain-test-tok");
            assert_eq!(timeout_secs, RUN_TIMEOUT_SECS);
            assert_eq!(timeout_secs, 30);
        }
        other => panic!("{:?}", other),
    }
    let verdict = finish(run, SandboxEvent::RunExited { code: 0 });
    assert!(verdict.accepted);
    assert_eq!(verdict.failure, None);
}

#[test]
fn non_zero_exit_is_a_runtime_failure() {
    for code in [1, 2, 137, -1, i32::MIN, i32::MAX] {
        let verdict = finish(running(), SandboxEvent::RunExited { code });
        assert!(!verdict.accepted);
        assert_eq!(verdict.failure, Some(FailureKind::RuntimeFailure));
        assert_eq!(verdict.diagnostic, NONZERO_DIAGNOSTIC);
    }
}

#[test]
fn timeout_is_reported_as_such() {
    let verdict = finish(running(), SandboxEvent::RunTimedOut);
    assert_eq!(verdict.failure, Some(FailureKind::TimeoutExceeded));
    assert_eq!(verdict.diagnostic, TIMEOUT_DIAGNOSTIC);
}

#[test]
fn build_failure_carries_the_tool_output_and_skips_the_run() {
    let verdict =
        finish(built(), SandboxEvent::BuildFailed { diagnostic: "error[E0425]".to_string() });
    assert_eq!(verdict.failure, Some(FailureKind::BuildFailure));
    assert_eq!(verdict.diagnostic, "error[E0425]");
}

#[test]
fn context_failure_degrades_to_build_failure() {
    let verdict =
        finish(started(), SandboxEvent::ContextFailed { diagnostic: "disk full".to_string() });
    assert_eq!(verdict.failure, Some(FailureKind::BuildFailure));
    assert_eq!(verdict.diagnostic, "disk full");
}

#[test]
fn event_out_of_turn_fails_the_pending_action() {
    let verdict = finish(started(), SandboxEvent::RunExited { code: 0 });
    assert_eq!(verdict.failure, Some(FailureKind::BuildFailure));
    assert_eq!(verdict.diagnostic, OUT_OF_TURN_DIAGNOSTIC);
    let verdict = finish(built(), SandboxEvent::RunExited { code: 0 });
    assert_eq!(verdict.failure, Some(FailureKind::BuildFailure));
    let verdict = finish(running(), SandboxEvent::BuildSucceeded);
    assert_eq!(verdict.failure, Some(FailureKind::RuntimeFailure));
    assert_eq!(verdict.diagnostic, OUT_OF_TURN_DIAGNOSTIC);
}

#[test]
fn finished_attempt_repeats_its_verdict() {
    let (run, _) = DockerOracle::advance(running(), SandboxEvent::RunTimedOut);
    let (run, first) = DockerOracle::advance(run, SandboxEvent::Released);
    let (run, second) = DockerOracle::advance(run, SandboxEvent::BuildSucceeded);
    assert!(matches!(run, SandboxRun::Finished { .. }));
    assert_eq!(verdict_of(first).failure, Some(FailureKind::TimeoutExceeded));
    assert_eq!(verdict_of(second).failure, Some(FailureKind::TimeoutExceeded));
}

#[test]
fn every_trace_releases_and_then_reports_within_four_events() {
    let events = || {
        vec![
            SandboxEvent::ContextReady,
            SandboxEvent::ContextFailed { diagnostic: "d".to_string() },
            SandboxEvent::BuildSucceeded,
            SandboxEvent::BuildFailed { diagnostic: "d".to_string() },
            SandboxEvent::RunExited { code: 0 },
            SandboxEvent::RunExited { code: 3 },
            SandboxEvent::RunTimedOut,
            SandboxEvent::Released,
        ]
    };
    let n = events().len();
    for a in 0..n {
        for b in 0..n {
            for c in 0..n {
                for d in 0..n {
                    let mut run = started();
                    let mut released = false;
                    let mut reported = false;
                    for pick in [a, b, c, d] {
                        let event = events().swap_remove(pick);
                        let (next, action) = DockerOracle::advance(run, event);
                        run = next;
                        reported = matches!(action, SandboxAction::Report { .. });
                        match action {
                            SandboxAction::Release { image_tag } => {
                                assert_eq!(image_tag, "devchain-test-tok");
                                released = true;
                            }
                            SandboxAction::Report { .. } => assert!(released),
                            _ => {}
                        }
                    }
                    assert!(reported);
                }
            }
        }
    }
}

#[test]
fn pool_admits_up_to_its_capacity() {
    let mut pool = SandboxPool::new(2);
    assert_eq!((pool.capacity(), pool.running()), (2, 0));
    assert!(pool.try_admit());
    assert!(pool.try_admit());
    assert!(!pool.try_admit());
    assert_eq!(pool.running(), 2);
    pool.release();
    assert_eq!(pool.running(), 1);
    assert!(pool.try_admit());
    pool.release();
    pool.release();
    pool.release();
    assert_eq!(pool.running(), 0);
    let mut none = SandboxPool::new(0);
    assert!(!none.try_admit());
    assert_eq!(none.running(), 0);
}
