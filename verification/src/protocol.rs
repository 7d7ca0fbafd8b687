//! Submission orchestrator: per-attempt decisions and the bounded retry
//! state machine, verified over recorded collaborator responses.

use vstd::prelude::*;
use vstd::string::StringExecFns;

use crate::MAX_RETRIES;
use crate::state::{consumed_from, MetaSlot, StateStore, TakeError};
use crate::request::{build_request, SubmissionRequest};

verus! {

/// What the Submission Client reports on a successfully transmitted request:
/// the benchmark it refers to, and whether the server verified the solution
/// (`Err` carries a fraud reason).
#[derive(Debug, PartialEq, Eq)]
pub struct SubmissionResponse {
    pub benchmark_id: String,
    pub verified: Result<(), String>,
}

/// One Submission Client invocation, as seen by the orchestrator: either a
/// structured response or a transport-level failure description.
#[derive(Debug, PartialEq, Eq)]
pub enum SubmitOutcome {
    Reply(SubmissionResponse),
    TransportFailure(String),
}

/// Terminal message for a fraud-flagged submission, embedding the server's
/// reason.
pub open spec fn fraud_message(reason: Seq<char>) -> Seq<char> {
    "Benchmark flagged as fraud: "@ + reason
}

/// Decimal figure of an attempt count within the retry budget.
pub open spec fn attempt_digit(attempt: int) -> Seq<char> {
    if attempt == 1 {
        "1"@
    } else if attempt == 2 {
        "2"@
    } else {
        "3"@
    }
}

/// Terminal message for a submission abandoned after `attempt` transport
/// failures.
pub open spec fn failure_message(attempt: int, error: Seq<char>) -> Seq<char> {
    "Failed to submit benchmark after "@ + attempt_digit(attempt) + " attempts: "@ + error
}

/// Terminal message for each extraction failure.
pub open spec fn take_error_message(e: TakeError) -> Seq<char> {
    match e {
        TakeError::MissingBenchmark => "Job benchmark should exist"@,
        TakeError::MissingProof => "Job proof should exist"@,
        TakeError::AlreadyConsumed => "Job solutions metadata already consumed"@,
    }
}

pub fn format_fraud_message(reason: &str) -> (r: String)
    ensures
        r@ == fraud_message(reason@),
{
    let mut s = String::from_str("Benchmark flagged as fraud: ");
    s.append(reason);
    s
}

pub fn format_failure_message(attempt: u32, error: &str) -> (r: String)
    requires
        1 <= attempt <= MAX_RETRIES,
    ensures
        r@ == failure_message(attempt as int, error@),
{
    let mut s = String::from_str("Failed to submit benchmark after ");
    let digit: &str = if attempt == 1 {
        "1"
    } else if attempt == 2 {
        "2"
    } else {
        "3"
    };
    s.append(digit);
    s.append(" attempts: ");
    s.append(error);
    s
}

pub fn format_take_error(e: TakeError) -> (r: String)
    ensures
        r@ == take_error_message(e),
{
    match e {
        TakeError::MissingBenchmark => String::from_str("Job benchmark should exist"),
        TakeError::MissingProof => String::from_str("Job proof should exist"),
        TakeError::AlreadyConsumed => String::from_str("Job solutions metadata already consumed"),
    }
}

/// What the orchestrator does with one Submission Client outcome: reach a
/// terminal result, or hand the carried transport error to the Error
/// Classifier before deciding.
#[derive(Debug, PartialEq, Eq)]
pub enum AttemptDecision {
    Finish(Result<String, String>),
    ConsultClassifier(String),
}

/// Decide attempt `attempt` from the Submission Client's outcome: a
/// verified reply succeeds with its benchmark id; a fraud-flagged reply is
/// terminal regardless of remaining budget; a transport failure on the last
/// attempt is terminal; an earlier transport failure is referred to the
/// Error Classifier.
pub fn decide_attempt(attempt: u32, outcome: &SubmitOutcome) -> (d: AttemptDecision)
    requires
        1 <= attempt <= MAX_RETRIES,
    ensures
        match *outcome {
            SubmitOutcome::Reply(resp) => match resp.verified {
                Ok(_) => d matches AttemptDecision::Finish(r) && r matches Ok(id) && id@
                    == resp.benchmark_id@,
                Err(reason) => d matches AttemptDecision::Finish(r) && r matches Err(m) && m@
                    == fraud_message(reason@),
            },
            SubmitOutcome::TransportFailure(e) => if attempt == MAX_RETRIES {
                d matches AttemptDecision::Finish(r) && r matches Err(m) && m@
                    == failure_message(attempt as int, e@)
            } else {
                d matches AttemptDecision::ConsultClassifier(e2) && e2@ == e@
            },
        },
{
    match outcome {
        SubmitOutcome::Reply(resp) => match &resp.verified {
            Ok(_) => AttemptDecision::Finish(Ok(resp.benchmark_id.clone())),
            Err(reason) => AttemptDecision::Finish(
                Err(format_fraud_message(reason.as_str())),
            ),
        },
        SubmitOutcome::TransportFailure(e) => {
            if attempt == MAX_RETRIES {
                AttemptDecision::Finish(Err(format_failure_message(attempt, e.as_str())))
            } else {
                AttemptDecision::ConsultClassifier(e.clone())
            }
        },
    }
}

/// Decide after the Error Classifier's verdict on attempt `attempt`
/// (strictly below the budget): approval means another attempt follows
/// (`None`); refusal aborts now with the failure message citing the
/// attempts made so far.
pub fn decide_after_classifier(attempt: u32, error: &str, retry: bool) -> (d: Option<String>)
    requires
        1 <= attempt < MAX_RETRIES,
    ensures
        retry ==> d is None,
        !retry ==> (d matches Some(m) && m@ == failure_message(attempt as int, error@)),
{
    if retry {
        None
    } else {
        Some(format_failure_message(attempt, error))
    }
}

/// Terminal result of the retry state machine started at `attempt`, over
/// the Submission Client outcomes and Error Classifier verdicts of one run:
/// `outcomes[k - 1]` is what the client returns on attempt `k`, and
/// `verdicts[k - 1]` is the classifier's verdict after a transport failure
/// on attempt `k` below the budget.
pub open spec fn run_result(
    outcomes: Seq<SubmitOutcome>,
    verdicts: Seq<bool>,
    attempt: int,
) -> Result<Seq<char>, Seq<char>>
    decreases MAX_RETRIES as int - attempt,
        when 1 <= attempt <= MAX_RETRIES as int
{
    match outcomes[attempt - 1] {
        SubmitOutcome::Reply(resp) => match resp.verified {
            Ok(_) => Ok(resp.benchmark_id@),
            Err(reason) => Err(fraud_message(reason@)),
        },
        SubmitOutcome::TransportFailure(e) => if attempt == MAX_RETRIES as int || !verdicts[attempt
            - 1] {
            Err(failure_message(attempt, e@))
        } else {
            run_result(outcomes, verdicts, attempt + 1)
        },
    }
}

/// Number of Submission Client invocations the run makes from `attempt` on.
pub open spec fn attempts_used(
    outcomes: Seq<SubmitOutcome>,
    verdicts: Seq<bool>,
    attempt: int,
) -> int
    decreases MAX_RETRIES as int - attempt,
        when 1 <= attempt <= MAX_RETRIES as int
{
    match outcomes[attempt - 1] {
        SubmitOutcome::Reply(_) => attempt,
        SubmitOutcome::TransportFailure(_) => if attempt == MAX_RETRIES as int || !verdicts[attempt
            - 1] {
            attempt
        } else {
            attempts_used(outcomes, verdicts, attempt + 1)
        },
    }
}

/// What one retry run reports: the terminal result and how many Submission
/// Client invocations it took.
#[derive(Debug, PartialEq, Eq)]
pub struct RunReport {
    pub result: Result<String, String>,
    pub attempts: usize,
}

pub open spec fn result_view(r: Result<String, String>) -> Result<Seq<char>, Seq<char>> {
    match r {
        Ok(s) => Ok(s@),
        Err(s) => Err(s@),
    }
}

/// Drive the retry state machine over recorded collaborator responses. The
/// loop is structurally total: every iteration either returns a terminal
/// state or advances the attempt counter, which is bounded by the budget.
pub fn run_submission(outcomes: &Vec<SubmitOutcome>, verdicts: &Vec<bool>) -> (r: RunReport)
    requires
        outcomes@.len() >= MAX_RETRIES,
        verdicts@.len() >= MAX_RETRIES - 1,
    ensures
        result_view(r.result) == run_result(outcomes@, verdicts@, 1),
        r.attempts == attempts_used(outcomes@, verdicts@, 1),
        1 <= r.attempts <= MAX_RETRIES,
{
    let mut attempt: u32 = 1;
    loop
        invariant
            1 <= attempt <= MAX_RETRIES,
            outcomes@.len() >= MAX_RETRIES,
            verdicts@.len() >= MAX_RETRIES - 1,
            run_result(outcomes@, verdicts@, 1) == run_result(outcomes@, verdicts@, attempt as int),
            attempts_used(outcomes@, verdicts@, 1) == attempts_used(
                outcomes@,
                verdicts@,
                attempt as int,
            ),
        decreases MAX_RETRIES - attempt,
    {
        let outcome = &outcomes[(attempt - 1) as usize];
        match decide_attempt(attempt, outcome) {
            AttemptDecision::Finish(res) => {
                return RunReport { result: res, attempts: attempt as usize };
            },
            AttemptDecision::ConsultClassifier(err) => {
                let retry = verdicts[(attempt - 1) as usize];
                match decide_after_classifier(attempt, err.as_str(), retry) {
                    Some(msg) => {
                        return RunReport { result: Err(msg), attempts: attempt as usize };
                    },
                    None => {
                        attempt = attempt + 1;
                    },
                }
            },
        }
    }
}

/// A run skips a prefix of transport failures that the classifier approved
/// for retry: starting it at attempt `a` or at attempt `b` is the same.
proof fn lemma_run_prefix(outcomes: Seq<SubmitOutcome>, verdicts: Seq<bool>, a: int, b: int)
    requires
        1 <= a <= b <= MAX_RETRIES as int,
        forall|j: int| a - 1 <= j < b - 1 ==> (#[trigger] outcomes[j]) is TransportFailure,
        forall|j: int| a - 1 <= j < b - 1 ==> #[trigger] verdicts[j],
    ensures
        run_result(outcomes, verdicts, a) == run_result(outcomes, verdicts, b),
        attempts_used(outcomes, verdicts, a) == attempts_used(outcomes, verdicts, b),
    decreases b - a,
{
    if a < b {
        assert(outcomes[a - 1] is TransportFailure);
        assert(verdicts[a - 1]);
        lemma_run_prefix(outcomes, verdicts, a + 1, b);
    }
}

/// Every outcome a run consumes before its last one is a transport failure
/// that the classifier approved for retry, and the attempt count stays
/// within the budget.
proof fn lemma_consumed_prefix(outcomes: Seq<SubmitOutcome>, verdicts: Seq<bool>, a: int)
    requires
        1 <= a <= MAX_RETRIES as int,
    ensures
        a <= attempts_used(outcomes, verdicts, a) <= MAX_RETRIES as int,
        forall|j: int|
            a - 1 <= j < attempts_used(outcomes, verdicts, a) - 1 ==> (#[trigger] outcomes[j])
                is TransportFailure && verdicts[j],
    decreases MAX_RETRIES as int - a,
{
    if outcomes[a - 1] is TransportFailure && a < MAX_RETRIES as int && verdicts[a - 1] {
        lemma_consumed_prefix(outcomes, verdicts, a + 1);
    }
}

/// Law: one run never makes more than `MAX_RETRIES` Submission Client
/// invocations.
pub proof fn lemma_attempts_bounded(outcomes: Seq<SubmitOutcome>, verdicts: Seq<bool>)
    ensures
        1 <= attempts_used(outcomes, verdicts, 1) <= MAX_RETRIES as int,
{
    lemma_consumed_prefix(outcomes, verdicts, 1);
}

/// Law: whenever the Submission Client actually returned a verified reply
/// during a run, the run reports success with that reply's benchmark id,
/// regardless of the attempt number it arrived on.
pub proof fn lemma_verified_reply_reports_success(
    outcomes: Seq<SubmitOutcome>,
    verdicts: Seq<bool>,
    i: int,
    resp: SubmissionResponse,
)
    requires
        0 <= i < attempts_used(outcomes, verdicts, 1),
        outcomes[i] == SubmitOutcome::Reply(resp),
        resp.verified is Ok,
    ensures
        run_result(outcomes, verdicts, 1) == Ok::<Seq<char>, Seq<char>>(resp.benchmark_id@),
{
    lemma_consumed_prefix(outcomes, verdicts, 1);
    let n = attempts_used(outcomes, verdicts, 1);
    assert(i == n - 1);
    assert forall|j: int| 0 <= j < n - 1 implies #[trigger] verdicts[j] by {
        assert(outcomes[j] is TransportFailure);
    }
    lemma_run_prefix(outcomes, verdicts, 1, n);
}

/// Law: a fraud-flagged reply is terminal. Whenever the Submission Client
/// returned a reply the server refused to verify, the run reports the fraud
/// message built from the server's reason, even with retry budget left.
pub proof fn lemma_fraud_reply_is_terminal(
    outcomes: Seq<SubmitOutcome>,
    verdicts: Seq<bool>,
    i: int,
    resp: SubmissionResponse,
)
    requires
        0 <= i < attempts_used(outcomes, verdicts, 1),
        outcomes[i] == SubmitOutcome::Reply(resp),
        resp.verified is Err,
    ensures
        run_result(outcomes, verdicts, 1) == Err::<Seq<char>, Seq<char>>(
            fraud_message(resp.verified->Err_0@),
        ),
{
    lemma_consumed_prefix(outcomes, verdicts, 1);
    let n = attempts_used(outcomes, verdicts, 1);
    assert(i == n - 1);
    assert forall|j: int| 0 <= j < n - 1 implies #[trigger] verdicts[j] by {
        assert(outcomes[j] is TransportFailure);
    }
    lemma_run_prefix(outcomes, verdicts, 1, n);
}

/// Law: when the Error Classifier declines a retry on attempt `k` with
/// budget remaining, exactly `k` Submission Client invocations occur and
/// the run's failure message cites attempt count `k`.
pub proof fn lemma_classifier_abort(
    outcomes: Seq<SubmitOutcome>,
    verdicts: Seq<bool>,
    k: int,
    e: String,
)
    requires
        1 <= k < MAX_RETRIES as int,
        forall|j: int| 0 <= j < k - 1 ==> (#[trigger] outcomes[j]) is TransportFailure,
        forall|j: int| 0 <= j < k - 1 ==> #[trigger] verdicts[j],
        outcomes[k - 1] == SubmitOutcome::TransportFailure(e),
        !verdicts[k - 1],
    ensures
        attempts_used(outcomes, verdicts, 1) == k,
        run_result(outcomes, verdicts, 1) == Err::<Seq<char>, Seq<char>>(
            failure_message(k, e@),
        ),
{
    lemma_run_prefix(outcomes, verdicts, 1, k);
}

/// Law: when every attempt fails in transport and the classifier keeps
/// approving retries, the run stops at the budget and the failure message
/// cites `MAX_RETRIES` attempts and the last transport error.
pub proof fn lemma_retries_exhausted(outcomes: Seq<SubmitOutcome>, verdicts: Seq<bool>, e: String)
    requires
        forall|j: int|
            0 <= j < MAX_RETRIES as int - 1 ==> (#[trigger] outcomes[j]) is TransportFailure,
        forall|j: int| 0 <= j < MAX_RETRIES as int - 1 ==> #[trigger] verdicts[j],
        outcomes[MAX_RETRIES as int - 1] == SubmitOutcome::TransportFailure(e),
    ensures
        attempts_used(outcomes, verdicts, 1) == MAX_RETRIES as int,
        run_result(outcomes, verdicts, 1) == Err::<Seq<char>, Seq<char>>(
            failure_message(MAX_RETRIES as int, e@),
        ),
{
    lemma_run_prefix(outcomes, verdicts, 1, MAX_RETRIES as int);
}

/// The fraud message really embeds the reason after its fixed prefix, and
/// the prefix itself spells out "fraud".
pub proof fn lemma_fraud_message_content(reason: Seq<char>)
    ensures
        fraud_message(reason).len() == 28 + reason.len(),
        fraud_message(reason).subrange(28, 28 + reason.len() as int) == reason,
        fraud_message(reason).subrange(21, 26) == "fraud"@,
{
    reveal_strlit("Benchmark flagged as fraud: ");
    reveal_strlit("fraud");
    assert(fraud_message(reason).subrange(28, 28 + reason.len() as int) =~= reason);
    assert(fraud_message(reason).subrange(21, 26) =~= "fraud"@);
}

/// The failure message really cites the attempt count between its fixed
/// pieces and ends with the transport error.
pub proof fn lemma_failure_message_content(attempt: int, error: Seq<char>)
    requires
        1 <= attempt <= MAX_RETRIES as int,
    ensures
        failure_message(attempt, error).len() == 45 + error.len(),
        failure_message(attempt, error).subrange(33, 34) == attempt_digit(attempt),
        failure_message(attempt, error).subrange(45, 45 + error.len() as int) == error,
{
    reveal_strlit("Failed to submit benchmark after ");
    reveal_strlit(" attempts: ");
    reveal_strlit("1");
    reveal_strlit("2");
    reveal_strlit("3");
    assert(failure_message(attempt, error).subrange(33, 34) =~= attempt_digit(attempt));
    assert(failure_message(attempt, error).subrange(45, 45 + error.len() as int) =~= error);
}

/// What one whole submission run reports: the terminal result, the number
/// of Submission Client invocations, and the request that was built (absent
/// when extraction failed before any request existed).
#[derive(Debug, PartialEq, Eq)]
pub struct ExecutionReport {
    pub result: Result<String, String>,
    pub attempts: usize,
    pub request: Option<SubmissionRequest>,
}

/// One submission run for `benchmark_id` over recorded collaborator
/// responses: extract and consume the materials from the store, build the
/// request, take the baseline chain height, then drive the retry state
/// machine. `height_probe` is what the Height Probe returned; a probe
/// failure surfaces as-is, after the materials were already consumed (no
/// rollback).
pub fn execute(
    store: &mut StateStore,
    benchmark_id: &String,
    height_probe: &Result<u64, String>,
    outcomes: &Vec<SubmitOutcome>,
    verdicts: &Vec<bool>,
) -> (r: ExecutionReport)
    requires
        old(store).wf(),
        outcomes@.len() >= MAX_RETRIES,
        verdicts@.len() >= MAX_RETRIES - 1,
    ensures
        final(store).wf(),
        ({
            let id = benchmark_id@;
            if old(store).benchmark_of(id) is None {
                &&& *final(store) == *old(store)
                &&& r.attempts == 0
                &&& r.request is None
                &&& result_view(r.result) == Err::<Seq<char>, Seq<char>>(
                    take_error_message(TakeError::MissingBenchmark),
                )
            } else if old(store).proof_of(id) is None {
                &&& *final(store) == *old(store)
                &&& r.attempts == 0
                &&& r.request is None
                &&& result_view(r.result) == Err::<Seq<char>, Seq<char>>(
                    take_error_message(TakeError::MissingProof),
                )
            } else if old(store).meta_consumed(id) {
                &&& *final(store) == *old(store)
                &&& r.attempts == 0
                &&& r.request is None
                &&& result_view(r.result) == Err::<Seq<char>, Seq<char>>(
                    take_error_message(TakeError::AlreadyConsumed),
                )
            } else {
                &&& consumed_from(*old(store), *final(store), id)
                &&& (r.request matches Some(req) && {
                    &&& req.settings@ == old(store).benchmark_of(id)->Some_0.settings@
                    &&& (old(store).benchmark_of(id)->Some_0.solutions_meta_data
                        matches MetaSlot::Available(d) && req.solutions_meta_data@ == d@)
                    &&& req.solution_data@ == old(store).proof_of(
                        id,
                    )->Some_0.solutions_data@[0]@
                })
                &&& match *height_probe {
                    Err(e) => result_view(r.result) == Err::<Seq<char>, Seq<char>>(e@)
                        && r.attempts == 0,
                    Ok(_) => result_view(r.result) == run_result(outcomes@, verdicts@, 1)
                        && r.attempts == attempts_used(outcomes@, verdicts@, 1) && 1 <= r.attempts
                        <= MAX_RETRIES,
                }
            }
        }),
{
    let materials = match store.take_submission_materials(benchmark_id) {
        Ok(m) => m,
        Err(e) => {
            return ExecutionReport {
                result: Err(format_take_error(e)),
                attempts: 0,
                request: None,
            };
        },
    };
    let req = build_request(materials.0, materials.1, materials.2);
    match height_probe {
        Ok(_) => {},
        Err(e) => {
            return ExecutionReport { result: Err(e.clone()), attempts: 0, request: Some(req) };
        },
    }
    let report = run_submission(outcomes, verdicts);
    ExecutionReport { result: report.result, attempts: report.attempts, request: Some(req) }
}

} // verus!
