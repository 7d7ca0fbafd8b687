use tig_benchmarker::protocol::{
    decide_after_classifier, decide_attempt, execute, format_failure_message,
    format_fraud_message, format_take_error, run_submission, AttemptDecision, SubmissionResponse,
    SubmitOutcome,
};
use tig_benchmarker::state::{Benchmark, BenchmarkProof, MetaSlot, StateStore, TakeError};
use tig_benchmarker::MAX_RETRIES;

fn reply_ok(id: &str) -> SubmitOutcome {
    SubmitOutcome::Reply(SubmissionResponse {
        benchmark_id: id.to_string(),
        verified: Ok(()),
    })
}

fn reply_fraud(id: &str, reason: &str) -> SubmitOutcome {
    SubmitOutcome::Reply(SubmissionResponse {
        benchmark_id: id.to_string(),
        verified: Err(reason.to_string()),
    })
}

fn transport(e: &str) -> SubmitOutcome {
    SubmitOutcome::TransportFailure(e.to_string())
}

fn store_with_b1() -> StateStore {
    StateStore {
        benchmarks: vec![(
            "b1".to_string(),
            Benchmark {
                settings: "settings1".to_string(),
                solutions_meta_data: MetaSlot::Available("md1".to_string()),
            },
        )],
        proofs: vec![(
            "b1".to_string(),
            BenchmarkProof {
                solutions_data: vec!["sdA".to_string(), "sdB".to_string()],
            },
        )],
    }
}

#[test]
fn success_on_first_attempt() {
    let outcomes = vec![reply_ok("b1"), transport("e2"), transport("e3")];
    let verdicts = vec![true, true];
    let report = run_submission(&outcomes, &verdicts);
    assert_eq!(report.result, Ok("b1".to_string()));
    assert_eq!(report.attempts, 1);
}

#[test]
fn success_reported_on_any_attempt() {
    let outcomes = vec![transport("e1"), reply_ok("b2"), transport("e3")];
    let verdicts = vec![true, true];
    let report = run_submission(&outcomes, &verdicts);
    assert_eq!(report.result, Ok("b2".to_string()));
    assert_eq!(report.attempts, 2);
}

#[test]
fn fraud_is_terminal() {
    let outcomes = vec![reply_fraud("b1", "bad proof"), reply_ok("b1"), reply_ok("b1")];
    let verdicts = vec![true, true];
    let report = run_submission(&outcomes, &verdicts);
    let message = report.result.unwrap_err();
    assert_eq!(message, "Benchmark flagged as fraud: bad proof");
    assert!(message.contains("fraud"));
    assert!(message.contains("bad proof"));
    assert_eq!(report.attempts, 1);
}

#[test]
fn attempts_never_exceed_max() {
    let outcomes = vec![transport("e1"), transport("e2"), transport("e3")];
    let verdicts = vec![true, true];
    let report = run_submission(&outcomes, &verdicts);
    assert!(report.attempts <= MAX_RETRIES as usize);
    assert_eq!(report.attempts, 3);
}

#[test]
fn classifier_abort_cites_attempts() {
    let outcomes = vec![transport("e1"), transport("e2"), reply_ok("b1")];
    let verdicts = vec![true, false];
    let report = run_submission(&outcomes, &verdicts);
    assert_eq!(
        report.result,
        Err("Failed to submit benchmark after 2 attempts: e2".to_string())
    );
    assert_eq!(report.attempts, 2);
}

#[test]
fn retries_exhausted_after_three() {
    let outcomes = vec![transport("e1"), transport("e2"), transport("e3")];
    let verdicts = vec![true, true];
    let report = run_submission(&outcomes, &verdicts);
    let message = report.result.unwrap_err();
    assert_eq!(message, "Failed to submit benchmark after 3 attempts: e3");
    assert!(message.contains("after 3 attempts"));
    assert_eq!(report.attempts, 3);
}

#[test]
fn decide_attempt_final_transport() {
    let d = decide_attempt(MAX_RETRIES, &transport("boom"));
    assert_eq!(
        d,
        AttemptDecision::Finish(Err(
            "Failed to submit benchmark after 3 attempts: boom".to_string()
        ))
    );
}

#[test]
fn decide_attempt_consults_below_budget() {
    let d = decide_attempt(1, &transport("boom"));
    assert_eq!(d, AttemptDecision::ConsultClassifier("boom".to_string()));
}

#[test]
fn decide_after_classifier_verdicts() {
    assert_eq!(decide_after_classifier(1, "boom", true), None);
    assert_eq!(
        decide_after_classifier(2, "boom", false),
        Some("Failed to submit benchmark after 2 attempts: boom".to_string())
    );
}

#[test]
fn message_formats() {
    assert_eq!(
        format_fraud_message("r"),
        "Benchmark flagged as fraud: r"
    );
    assert_eq!(
        format_failure_message(1, "e"),
        "Failed to submit benchmark after 1 attempts: e"
    );
    assert_eq!(
        format_take_error(TakeError::MissingBenchmark),
        "Job benchmark should exist"
    );
    assert_eq!(
        format_take_error(TakeError::MissingProof),
        "Job proof should exist"
    );
    assert_eq!(
        format_take_error(TakeError::AlreadyConsumed),
        "Job solutions metadata already consumed"
    );
}

#[test]
fn execute_consumes_and_runs() {
    let mut store = store_with_b1();
    let id = "b1".to_string();
    let outcomes = vec![reply_ok("b1"), transport("e2"), transport("e3")];
    let verdicts = vec![true, true];
    let report = execute(&mut store, &id, &Ok(42), &outcomes, &verdicts);
    assert_eq!(report.result, Ok("b1".to_string()));
    assert_eq!(report.attempts, 1);
    let req = report.request.unwrap();
    assert_eq!(req.solution_data, "sdA".to_string());
    assert_eq!(req.solutions_meta_data, "md1".to_string());
    assert_eq!(req.settings, "settings1".to_string());

    let second = execute(&mut store, &id, &Ok(42), &outcomes, &verdicts);
    assert_eq!(
        second.result,
        Err("Job solutions metadata already consumed".to_string())
    );
    assert_eq!(second.attempts, 0);
    assert!(second.request.is_none());
}

#[test]
fn height_probe_failure_surfaces() {
    let mut store = store_with_b1();
    let id = "b1".to_string();
    let outcomes = vec![reply_ok("b1"), transport("e2"), transport("e3")];
    let verdicts = vec![true, true];
    let report = execute(&mut store, &id, &Err("height probe down".to_string()), &outcomes, &verdicts);
    assert_eq!(report.result, Err("height probe down".to_string()));
    assert_eq!(report.attempts, 0);
    // the materials were consumed before the probe ran: no rollback
    assert_eq!(store.benchmarks[0].1.solutions_meta_data, MetaSlot::Consumed);
    assert!(report.request.is_some());
}

#[test]
fn execute_missing_benchmark() {
    let mut store = StateStore { benchmarks: vec![], proofs: vec![] };
    let id = "b1".to_string();
    let outcomes = vec![reply_ok("b1"), transport("e2"), transport("e3")];
    let verdicts = vec![true, true];
    let report = execute(&mut store, &id, &Ok(1), &outcomes, &verdicts);
    assert_eq!(report.result, Err("Job benchmark should exist".to_string()));
    assert_eq!(report.attempts, 0);
}

#[test]
fn execute_missing_proof() {
    let mut store = store_with_b1();
    store.proofs.clear();
    let id = "b1".to_string();
    let outcomes = vec![reply_ok("b1"), transport("e2"), transport("e3")];
    let verdicts = vec![true, true];
    let report = execute(&mut store, &id, &Ok(1), &outcomes, &verdicts);
    assert_eq!(report.result, Err("Job proof should exist".to_string()));
    assert_eq!(report.attempts, 0);
}
