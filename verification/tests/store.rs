use tig_benchmarker::request::build_request;
use tig_benchmarker::state::{Benchmark, BenchmarkProof, MetaSlot, StateStore, TakeError};

fn store_with(solutions: Vec<&str>) -> StateStore {
    StateStore {
        benchmarks: vec![(
            "b1".to_string(),
            Benchmark {
                settings: "settings1".to_string(),
                solutions_meta_data: MetaSlot::Available("md1".to_string()),
            },
        )],
        proofs: vec![(
            "b1".to_string(),
            BenchmarkProof { solutions_data: solutions.into_iter().map(|s| s.to_string()).collect() },
        )],
    }
}

#[test]
fn metadata_consumed_once() {
    let mut store = store_with(vec!["sdA"]);
    let id = "b1".to_string();
    let first = store.take_submission_materials(&id);
    assert_eq!(
        first,
        Ok(("settings1".to_string(), "md1".to_string(), "sdA".to_string()))
    );
    assert_eq!(
        store.benchmarks[0].1.solutions_meta_data,
        MetaSlot::Consumed
    );
    let second = store.take_submission_materials(&id);
    assert_eq!(second, Err(TakeError::AlreadyConsumed));
}

#[test]
fn missing_benchmark_error() {
    let mut store = StateStore { benchmarks: vec![], proofs: vec![] };
    let id = "b1".to_string();
    assert_eq!(
        store.take_submission_materials(&id),
        Err(TakeError::MissingBenchmark)
    );
}

#[test]
fn missing_proof_error() {
    let mut store = store_with(vec!["sdA"]);
    store.proofs.clear();
    let id = "b1".to_string();
    assert_eq!(
        store.take_submission_materials(&id),
        Err(TakeError::MissingProof)
    );
    assert_eq!(
        store.benchmarks[0].1.solutions_meta_data,
        MetaSlot::Available("md1".to_string())
    );
}

#[test]
fn first_solution_selected() {
    let mut store = store_with(vec!["sdA", "sdB"]);
    let id = "b1".to_string();
    let (settings, meta, solution) = store.take_submission_materials(&id).unwrap();
    let req = build_request(settings, meta, solution);
    assert_eq!(req.solution_data, "sdA".to_string());
    assert_ne!(req.solution_data, "sdB".to_string());
    assert_eq!(req.settings, "settings1".to_string());
    assert_eq!(req.solutions_meta_data, "md1".to_string());
}

#[test]
fn is_well_formed_checks() {
    let store = store_with(vec!["sdA"]);
    assert!(store.is_well_formed());

    let mut duplicate = store_with(vec!["sdA"]);
    duplicate.benchmarks.push((
        "b1".to_string(),
        Benchmark {
            settings: "other".to_string(),
            solutions_meta_data: MetaSlot::Consumed,
        },
    ));
    assert!(!duplicate.is_well_formed());

    let mut empty_proof = store_with(vec!["sdA"]);
    empty_proof.proofs[0].1.solutions_data.clear();
    assert!(!empty_proof.is_well_formed());
}
