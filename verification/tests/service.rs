use eq_common::error::{InclusionServiceError, StatusCode};
use eq_common::service::{
    apply_event, next_step, pending_jobs, reconcile_step, response_for, validate_request, Job,
    JobEvent, JobStatus, PollOutcome, ReconcileStep, RequestStep, ResponseStatus, ResponseValue,
};

fn namespace_v0() -> Vec<u8> {
    let mut bytes = vec![0u8; 29];
    bytes[28] = 7;
    bytes
}

fn job() -> Job {
    Job { height: 10, namespace: namespace_v0(), commitment: vec![3u8; 32] }
}

fn proof_id(status: &JobStatus) -> String {
    match response_for(status).response_value {
        ResponseValue::ProofId(id) => id,
        other => panic!("no proof id: {:?}", other),
    }
}

#[test]
fn pending_job_answers_waiting_with_its_id() {
    let response = response_for(&JobStatus::Pending("req-1".to_string()));
    assert_eq!(response.status, ResponseStatus::Waiting);
    assert_eq!(response.status.code(), 1);
    assert!(matches!(response.response_value, ResponseValue::ProofId(ref id) if id == "req-1"));
}

#[test]
fn completed_job_answers_complete_with_the_proof() {
    let response = response_for(&JobStatus::Completed(vec![1, 2, 3]));
    assert_eq!(response.status, ResponseStatus::Complete);
    assert_eq!(response.status.code(), 2);
    assert!(matches!(response.response_value, ResponseValue::Proof(ref p) if p == &vec![1, 2, 3]));
}

#[test]
fn failed_job_answers_failed_with_the_reason() {
    let response = response_for(&JobStatus::Failed("no proof".to_string()));
    assert_eq!(response.status, ResponseStatus::Failed);
    assert_eq!(response.status.code(), 3);
    assert!(
        matches!(response.response_value, ResponseValue::ErrorMessage(ref m) if m == "no proof")
    );
}

#[test]
fn idempotent_service_call() {
    // Two requests before completion see the same identifier.
    let stored = Some(JobStatus::Pending("req-1".to_string()));
    let first = next_step(&stored, &job());
    let second = next_step(&stored, &job());
    match (first, second) {
        (RequestStep::Respond(a), RequestStep::Respond(b)) => {
            assert_eq!(a.status, ResponseStatus::Waiting);
            assert_eq!(b.status, ResponseStatus::Waiting);
            assert!(matches!(a.response_value, ResponseValue::ProofId(ref id) if id == "req-1"));
            assert!(matches!(b.response_value, ResponseValue::ProofId(ref id) if id == "req-1"));
        }
        _ => panic!("a stored job is answered from its state"),
    }
    // After completion both see the same bytes.
    let stored = apply_event(stored, JobEvent::ProverSucceeded(vec![9, 9]));
    for _ in 0..2 {
        match next_step(&stored, &job()) {
            RequestStep::Respond(r) => {
                assert_eq!(r.status, ResponseStatus::Complete);
                assert!(matches!(r.response_value, ResponseValue::Proof(ref p) if p == &vec![9, 9]));
            }
            _ => panic!("a stored job is answered from its state"),
        }
    }
}

#[test]
fn new_job_is_fetched() {
    match next_step(&None, &job()) {
        RequestStep::Fetch(namespace, commitment) => {
            assert_eq!(namespace.bytes.to_vec(), namespace_v0());
            assert_eq!(commitment, [3u8; 32]);
        }
        _ => panic!("a new well-formed job is fetched"),
    }
}

#[test]
fn short_commitment_is_refused() {
    let mut bad = job();
    bad.commitment = vec![3u8; 31];
    let error = validate_request(&bad).unwrap_err();
    assert!(matches!(error, InclusionServiceError::InvalidArgument(ref m) if m == "Invalid commitment"));
    assert_eq!(error.status_code(), StatusCode::InvalidArgument);
    assert!(matches!(next_step(&None, &bad), RequestStep::Reject(_)));
}

#[test]
fn commitment_is_checked_before_namespace() {
    let bad = Job { height: 1, namespace: vec![1, 2, 3], commitment: vec![] };
    let error = validate_request(&bad).unwrap_err();
    assert!(matches!(error, InclusionServiceError::InvalidArgument(ref m) if m == "Invalid commitment"));
}

fn refusal(job: &Job) -> String {
    match validate_request(job) {
        Err(InclusionServiceError::InvalidArgument(cause)) => cause,
        _ => panic!("the request is malformed"),
    }
}

#[test]
fn malformed_namespace_is_refused() {
    let mut bad = job();
    bad.namespace = vec![0u8; 28];
    assert_eq!(refusal(&bad), "Invalid namespace size");
    // Version 0 asks for 18 zero bytes after the version.
    let mut bytes = namespace_v0();
    bytes[5] = 1;
    bad.namespace = bytes;
    assert_eq!(refusal(&bad), "Invalid namespace v0");
    // Versions other than 0 and 255 are none.
    for (version, text) in [(1u8, "1"), (9, "9"), (10, "10"), (42, "42"), (100, "100"), (254, "254")] {
        let mut bytes = namespace_v0();
        bytes[0] = version;
        bad.namespace = bytes;
        assert_eq!(refusal(&bad), format!("Unsupported namespace version: {text}"));
    }
    // Version 255 asks for 27 bytes 0xff after the version.
    let mut bytes = vec![255u8; 29];
    bytes[3] = 0;
    bad.namespace = bytes;
    assert_eq!(refusal(&bad), "Invalid namespace v255");
}

#[test]
fn refusal_reaches_the_caller_as_its_cause() {
    let mut bad = job();
    bad.commitment = vec![];
    let error = validate_request(&bad).unwrap_err();
    assert_eq!(error.message(), "Invalid commitment");
    bad.commitment = vec![0; 32];
    bad.namespace = vec![];
    assert_eq!(validate_request(&bad).unwrap_err().message(), "Invalid namespace size");
}

#[test]
fn end_of_a_wait() {
    match reconcile_step(PollOutcome::Proved(vec![1, 2])) {
        ReconcileStep::Record(JobEvent::ProverSucceeded(proof)) => assert_eq!(proof, vec![1, 2]),
        _ => panic!("a delivered proof completes the job"),
    }
    match reconcile_step(PollOutcome::Failed("out of gas".to_string())) {
        ReconcileStep::Record(JobEvent::ProverFailed(reason)) => assert_eq!(reason, "out of gas"),
        _ => panic!("a failure of the prover fails the job"),
    }
    assert!(matches!(reconcile_step(PollOutcome::TimedOut), ReconcileStep::PollAgain));
    // A pending job passes through the recorded event to its end.
    let pending = Some(JobStatus::Pending("req-1".to_string()));
    if let ReconcileStep::Record(event) = reconcile_step(PollOutcome::Proved(vec![3])) {
        let done = apply_event(pending, event);
        assert!(matches!(done, Some(JobStatus::Completed(ref p)) if p == &vec![3]));
    }
}

#[test]
fn reserved_namespaces_are_namespaces() {
    let mut ok = job();
    ok.namespace = vec![255u8; 29];
    let (namespace, _) = validate_request(&ok).unwrap();
    assert_eq!(namespace.bytes, [255u8; 29]);
}

#[test]
fn job_moves_from_absent_to_pending_to_its_end() {
    let pending = apply_event(None, JobEvent::Submitted("req-1".to_string()));
    assert!(matches!(pending, Some(JobStatus::Pending(ref id)) if id == "req-1"));
    let done = apply_event(pending.clone(), JobEvent::ProverSucceeded(vec![4]));
    assert!(matches!(done, Some(JobStatus::Completed(ref p)) if p == &vec![4]));
    let failed = apply_event(pending, JobEvent::ProverFailed("boom".to_string()));
    assert!(matches!(failed, Some(JobStatus::Failed(ref m)) if m == "boom"));
}

#[test]
fn terminal_states_are_never_rewritten() {
    let events = || {
        vec![
            JobEvent::Submitted("other".to_string()),
            JobEvent::ProverSucceeded(vec![7]),
            JobEvent::ProverFailed("late".to_string()),
        ]
    };
    for event in events() {
        let next = apply_event(Some(JobStatus::Completed(vec![1])), event);
        assert!(matches!(next, Some(JobStatus::Completed(ref p)) if p == &vec![1]));
    }
    for event in events() {
        let next = apply_event(Some(JobStatus::Failed("first".to_string())), event);
        assert!(matches!(next, Some(JobStatus::Failed(ref m)) if m == "first"));
    }
    assert!(JobStatus::Completed(vec![]).terminal());
    assert!(JobStatus::Failed(String::new()).terminal());
    assert!(!JobStatus::Pending(String::new()).terminal());
}

#[test]
fn pending_job_keeps_its_id_on_resubmission() {
    let stored = Some(JobStatus::Pending("req-1".to_string()));
    let next = apply_event(stored, JobEvent::Submitted("req-2".to_string()));
    assert_eq!(proof_id(&next.unwrap()), "req-1");
}

#[test]
fn absent_job_ignores_prover_events() {
    assert!(apply_event(None, JobEvent::ProverSucceeded(vec![1])).is_none());
    assert!(apply_event(None, JobEvent::ProverFailed("x".to_string())).is_none());
}

#[test]
fn restart_recovery() {
    let records = vec![
        (Job { height: 1, namespace: namespace_v0(), commitment: vec![1; 32] }, JobStatus::Pending("a".to_string())),
        (Job { height: 2, namespace: namespace_v0(), commitment: vec![2; 32] }, JobStatus::Completed(vec![5])),
        (Job { height: 3, namespace: namespace_v0(), commitment: vec![3; 32] }, JobStatus::Failed("f".to_string())),
        (Job { height: 4, namespace: namespace_v0(), commitment: vec![4; 32] }, JobStatus::Pending("b".to_string())),
    ];
    let resumed = pending_jobs(records);
    assert_eq!(resumed.len(), 2);
    assert_eq!(resumed[0].0.height, 1);
    assert_eq!(resumed[0].1, "a");
    assert_eq!(resumed[1].0.height, 4);
    assert_eq!(resumed[1].1, "b");
    // The job is seen as pending under the same identifier, and completes
    // without being submitted again.
    let stored = Some(JobStatus::Pending(resumed[0].1.clone()));
    assert_eq!(proof_id(stored.as_ref().unwrap()), "a");
    let done = apply_event(stored, JobEvent::ProverSucceeded(vec![8]));
    assert!(matches!(done, Some(JobStatus::Completed(ref p)) if p == &vec![8]));
}

#[test]
fn error_texts() {
    assert_eq!(InclusionServiceError::MissingBlobIndex.message(), "Blob index not found");
    assert_eq!(
        InclusionServiceError::KeccakHashConversion.message(),
        "Failed to convert keccak hash to array"
    );
    assert_eq!(
        InclusionServiceError::RowRootVerificationFailed.message(),
        "Failed to verify row root inclusion multiproof"
    );
    assert_eq!(
        InclusionServiceError::ShareConversionError("bad".to_string()).message(),
        "Failed to convert shares to blob: bad"
    );
    assert_eq!(
        InclusionServiceError::GeneralError("why".to_string()).message(),
        "Failed to create inclusion proof input: why"
    );
    assert_eq!(InclusionServiceError::RpcError("down".to_string()).message(), "down");
    assert_eq!(InclusionServiceError::ProverError("no".to_string()).message(), "no");
    assert_eq!(InclusionServiceError::InvalidArgument("arg".to_string()).message(), "arg");
}

#[test]
fn only_malformed_requests_are_invalid_arguments() {
    assert_eq!(
        InclusionServiceError::InvalidArgument(String::new()).status_code(),
        StatusCode::InvalidArgument
    );
    assert_eq!(InclusionServiceError::MissingBlobIndex.status_code(), StatusCode::Internal);
    assert_eq!(InclusionServiceError::RpcError(String::new()).status_code(), StatusCode::Internal);
    assert_eq!(InclusionServiceError::ProverError(String::new()).status_code(), StatusCode::Internal);
    assert_eq!(
        InclusionServiceError::RowRootVerificationFailed.status_code(),
        StatusCode::Internal
    );
}
