//! The rules of the proof service: how a request is answered from the stored
//! state of its job, and how that state moves.
//!
//! A job is keyed by height, namespace and commitment. It is absent, then
//! pending under the identifier the prover gave it, then completed with a
//! proof or failed with a reason. A completed or failed job never changes.

use vstd::prelude::*;
use crate::blob::{namespace_error_text, namespace_from_raw, namespace_valid, Namespace};
use crate::bytes::to_array32;
use crate::error::InclusionServiceError;

verus! {

/// The key of a job: what the caller asked a proof for.
#[derive(Clone, Debug)]
pub struct Job {
    /// Height of the block.
    pub height: u64,
    /// The bytes of the namespace.
    pub namespace: Vec<u8>,
    /// The bytes of the commitment.
    pub commitment: Vec<u8>,
}

/// The stored state of a job.
#[derive(Clone, Debug)]
pub enum JobStatus {
    /// Submitted to the prover under this identifier.
    Pending(String),
    /// Proved: the serialized proof with its public values.
    Completed(Vec<u8>),
    /// Given up, for this reason.
    Failed(String),
}

/// The state of a job as the service reports it.
#[derive(Clone, Copy, Debug, PartialEq, Eq, Structural)]
pub enum ResponseStatus {
    /// The proof is being made.
    Waiting,
    /// The proof is there.
    Complete,
    /// No proof will come.
    Failed,
}

/// What comes with the state in an answer.
#[derive(Clone, Debug)]
pub enum ResponseValue {
    /// The identifier under which the prover holds the job.
    ProofId(String),
    /// The serialized proof.
    Proof(Vec<u8>),
    /// Why the job failed.
    ErrorMessage(String),
}

/// The answer to a request.
#[derive(Clone, Debug)]
pub struct GetKeccakInclusionResponse {
    /// The state of the job.
    pub status: ResponseStatus,
    /// The identifier, the proof or the reason, by state.
    pub response_value: ResponseValue,
}

/// What happened to a job.
#[derive(Clone, Debug)]
pub enum JobEvent {
    /// The prover took the job under this identifier.
    Submitted(String),
    /// The prover delivered this serialized proof.
    ProverSucceeded(Vec<u8>),
    /// The prover failed, for this reason.
    ProverFailed(String),
}

/// How a wait for the proof of a pending job ended.
#[derive(Clone, Debug)]
pub enum PollOutcome {
    /// The prover delivered this serialized proof.
    Proved(Vec<u8>),
    /// The prover failed, for this reason.
    Failed(String),
    /// The wait ran out before the prover answered.
    TimedOut,
}

/// What follows a wait for the proof of a pending job.
#[derive(Clone, Debug)]
pub enum ReconcileStep {
    /// The job has ended: record this event.
    Record(JobEvent),
    /// The job is still pending: wait for its proof again.
    PollAgain,
}

/// What the service does next for a request.
pub enum RequestStep {
    /// The job is known: answer from its stored state.
    Respond(GetKeccakInclusionResponse),
    /// The job is new and well-formed: fetch the blob, the header and the row
    /// proofs for this namespace and commitment.
    Fetch(Namespace, [u8; 32]),
    /// The job is new and malformed: refuse it.
    Reject(InclusionServiceError),
}

impl ResponseStatus {
    /// The number of the state on the wire; 0 is reserved.
    pub open spec fn code_of(&self) -> int {
        match self {
            ResponseStatus::Waiting => 1,
            ResponseStatus::Complete => 2,
            ResponseStatus::Failed => 3,
        }
    }

    /// The number of the state on the wire.
    pub fn code(&self) -> (code: i32)
        ensures
            code == self.code_of(),
    {
        match self {
            ResponseStatus::Waiting => 1,
            ResponseStatus::Complete => 2,
            ResponseStatus::Failed => 3,
        }
    }
}

impl JobStatus {
    /// Whether the job has reached its end.
    pub open spec fn is_terminal(&self) -> bool {
        self is Completed || self is Failed
    }

    /// Whether the job has reached its end.
    pub fn terminal(&self) -> (end: bool)
        ensures
            end == self.is_terminal(),
    {
        match self {
            JobStatus::Pending(_) => false,
            _ => true,
        }
    }
}

/// The stored state of a job as plain values.
pub enum StatusView {
    Pending(Seq<char>),
    Completed(Seq<u8>),
    Failed(Seq<char>),
}

/// The plain value of a stored state.
pub open spec fn status_view(status: JobStatus) -> StatusView {
    match status {
        JobStatus::Pending(id) => StatusView::Pending(id@),
        JobStatus::Completed(proof) => StatusView::Completed(proof@),
        JobStatus::Failed(reason) => StatusView::Failed(reason@),
    }
}

/// The plain value of a stored state, or `None` for an absent job.
pub open spec fn stored_view(stored: Option<JobStatus>) -> Option<StatusView> {
    match stored {
        Some(status) => Some(status_view(status)),
        None => None,
    }
}

/// The state of a job after an event: an absent job becomes pending when it
/// is submitted; a pending job becomes completed or failed when the prover
/// delivers or fails; every other pair leaves the state as it is.
pub open spec fn next_status(stored: Option<StatusView>, event: JobEvent) -> Option<StatusView> {
    match (stored, event) {
        (None, JobEvent::Submitted(id)) => Some(StatusView::Pending(id@)),
        (Some(StatusView::Pending(_)), JobEvent::ProverSucceeded(proof)) => Some(
            StatusView::Completed(proof@),
        ),
        (Some(StatusView::Pending(_)), JobEvent::ProverFailed(reason)) => Some(
            StatusView::Failed(reason@),
        ),
        (stored, _) => stored,
    }
}

/// The state to store for a job after an event.
pub fn apply_event(stored: Option<JobStatus>, event: JobEvent) -> (next: Option<JobStatus>)
    ensures
        stored_view(next) == next_status(stored_view(stored), event),
{
    match stored {
        None => match event {
            JobEvent::Submitted(id) => Some(JobStatus::Pending(id)),
            _ => None,
        },
        Some(JobStatus::Pending(id)) => match event {
            JobEvent::ProverSucceeded(proof) => Some(JobStatus::Completed(proof)),
            JobEvent::ProverFailed(reason) => Some(JobStatus::Failed(reason)),
            JobEvent::Submitted(_) => Some(JobStatus::Pending(id)),
        },
        Some(status) => Some(status),
    }
}

/// A wait for a proof as plain values.
pub enum PollView {
    Proved(Seq<u8>),
    Failed(Seq<char>),
    TimedOut,
}

/// The plain value of how a wait ended.
pub open spec fn poll_view(outcome: PollOutcome) -> PollView {
    match outcome {
        PollOutcome::Proved(proof) => PollView::Proved(proof@),
        PollOutcome::Failed(reason) => PollView::Failed(reason@),
        PollOutcome::TimedOut => PollView::TimedOut,
    }
}

/// What follows a wait, as plain values: `None` for another wait, else the
/// state that a pending job takes on.
pub open spec fn step_view(step: ReconcileStep) -> Option<StatusView> {
    match step {
        ReconcileStep::Record(JobEvent::ProverSucceeded(proof)) => Some(
            StatusView::Completed(proof@),
        ),
        ReconcileStep::Record(JobEvent::ProverFailed(reason)) => Some(StatusView::Failed(reason@)),
        ReconcileStep::Record(JobEvent::Submitted(id)) => Some(StatusView::Pending(id@)),
        ReconcileStep::PollAgain => None,
    }
}

/// What follows a wait for the proof of a pending job: a delivered proof
/// completes the job, a failure of the prover fails it, and a wait that ran
/// out leaves it pending for another wait.
pub fn reconcile_step(outcome: PollOutcome) -> (step: ReconcileStep)
    ensures
        match poll_view(outcome) {
            PollView::Proved(proof) => step is Record && step->Record_0 is ProverSucceeded
                && step_view(step) == Some(StatusView::Completed(proof)),
            PollView::Failed(reason) => step is Record && step->Record_0 is ProverFailed
                && step_view(step) == Some(StatusView::Failed(reason)),
            PollView::TimedOut => step is PollAgain,
        },
{
    match outcome {
        PollOutcome::Proved(proof) => ReconcileStep::Record(JobEvent::ProverSucceeded(proof)),
        PollOutcome::Failed(reason) => ReconcileStep::Record(JobEvent::ProverFailed(reason)),
        PollOutcome::TimedOut => ReconcileStep::PollAgain,
    }
}

/// A completed or failed job stays as it is, whatever happens.
pub proof fn law_terminal_status_is_final(status: JobStatus, event: JobEvent)
    requires
        status.is_terminal(),
    ensures
        next_status(Some(status_view(status)), event) == Some(status_view(status)),
{
}

/// A job never goes back: once stored it stays stored, and once pending under
/// an identifier it is pending under that identifier, completed or failed.
pub proof fn law_status_moves_forward(stored: Option<JobStatus>, event: JobEvent)
    ensures
        stored is Some ==> next_status(stored_view(stored), event) is Some,
        stored is Some && stored.unwrap() is Pending ==> {
            let next = next_status(stored_view(stored), event).unwrap();
            next == status_view(stored.unwrap()) || next is Completed || next is Failed
        },
{
}

/// The answer that a stored state gives.
pub open spec fn response_of(status: StatusView) -> (ResponseStatus, StatusView) {
    match status {
        StatusView::Pending(_) => (ResponseStatus::Waiting, status),
        StatusView::Completed(_) => (ResponseStatus::Complete, status),
        StatusView::Failed(_) => (ResponseStatus::Failed, status),
    }
}

/// What an answer carries, as plain values: the pending identifier, the
/// proof or the reason, under the tags of the stored states.
pub open spec fn response_view(response: GetKeccakInclusionResponse) -> (ResponseStatus, StatusView) {
    (
        response.status,
        match response.response_value {
            ResponseValue::ProofId(id) => StatusView::Pending(id@),
            ResponseValue::Proof(proof) => StatusView::Completed(proof@),
            ResponseValue::ErrorMessage(reason) => StatusView::Failed(reason@),
        },
    )
}

/// The answer for a job in the given state: waiting with the identifier,
/// complete with the proof, or failed with the reason.
pub fn response_for(status: &JobStatus) -> (response: GetKeccakInclusionResponse)
    ensures
        response_view(response) == response_of(status_view(*status)),
{
    match status {
        JobStatus::Pending(id) => GetKeccakInclusionResponse {
            status: ResponseStatus::Waiting,
            response_value: ResponseValue::ProofId(id.clone()),
        },
        JobStatus::Completed(proof) => GetKeccakInclusionResponse {
            status: ResponseStatus::Complete,
            response_value: ResponseValue::Proof(proof.clone()),
        },
        JobStatus::Failed(reason) => GetKeccakInclusionResponse {
            status: ResponseStatus::Failed,
            response_value: ResponseValue::ErrorMessage(reason.clone()),
        },
    }
}

/// Checks the commitment and the namespace of a new job: the commitment has
/// 32 bytes and the namespace is one. The commitment is looked at first.
pub fn validate_request(job: &Job) -> (checked: Result<(Namespace, [u8; 32]), InclusionServiceError>)
    ensures
        match checked {
            Ok((namespace, commitment)) => {
                &&& job.commitment@.len() == 32
                &&& namespace_valid(job.namespace@)
                &&& namespace.bytes@ == job.namespace@
                &&& commitment@ == job.commitment@
            },
            Err(e) => {
                &&& e is InvalidArgument
                &&& job.commitment@.len() != 32 ==> e->InvalidArgument_0@ == "Invalid commitment"@
                &&& job.commitment@.len() == 32 ==> !namespace_valid(job.namespace@)
                    && e->InvalidArgument_0@ == namespace_error_text(job.namespace@)
            },
        },
{
    let commitment: [u8; 32] = match to_array32(job.commitment.as_slice()) {
        Some(commitment) => commitment,
        None => {
            return Err(InclusionServiceError::InvalidArgument(String::from_str("Invalid commitment")));
        },
    };
    match namespace_from_raw(job.namespace.as_slice()) {
        Ok(namespace) => Ok((namespace, commitment)),
        Err(cause) => Err(InclusionServiceError::InvalidArgument(cause)),
    }
}

/// What the service does for a request, given the stored state of its job:
/// a known job is answered from its state, without another look at the
/// request; a new job is checked, then fetched or refused.
pub fn next_step(stored: &Option<JobStatus>, job: &Job) -> (step: RequestStep)
    ensures
        match *stored {
            Some(status) => step is Respond && response_view(step->Respond_0) == response_of(
                status_view(status),
            ),
            None => if job.commitment@.len() == 32 && namespace_valid(job.namespace@) {
                &&& step is Fetch
                &&& step->Fetch_0.bytes@ == job.namespace@
                &&& step->Fetch_1@ == job.commitment@
            } else {
                &&& step is Reject
                &&& step->Reject_0 is InvalidArgument
                &&& step->Reject_0->InvalidArgument_0@ == (if job.commitment@.len() != 32 {
                    "Invalid commitment"@
                } else {
                    namespace_error_text(job.namespace@)
                })
            },
        },
{
    match stored {
        Some(status) => RequestStep::Respond(response_for(status)),
        None => match validate_request(job) {
            Ok((namespace, commitment)) => RequestStep::Fetch(namespace, commitment),
            Err(e) => RequestStep::Reject(e),
        },
    }
}

/// The jobs to take up again after a restart: those still pending, each with
/// the identifier the prover gave it, in the order of the records.
pub open spec fn pending_of(records: Seq<(Job, JobStatus)>) -> Seq<(Job, Seq<char>)>
    decreases records.len(),
{
    if records.len() == 0 {
        Seq::<(Job, Seq<char>)>::empty()
    } else {
        let rest = pending_of(records.drop_last());
        match records.last().1 {
            JobStatus::Pending(id) => rest.push((records.last().0, id@)),
            _ => rest,
        }
    }
}

/// The plain values of a list of jobs with their identifiers.
pub open spec fn resumed_view(resumed: Seq<(Job, String)>) -> Seq<(Job, Seq<char>)> {
    resumed.map_values(|entry: (Job, String)| (entry.0, entry.1@))
}

/// Picks from the stored records the jobs that are still pending.
pub fn pending_jobs(records: Vec<(Job, JobStatus)>) -> (resumed: Vec<(Job, String)>)
    ensures
        resumed_view(resumed@) == pending_of(records@),
{
    let ghost all = records@;
    let mut records = records;
    let mut reversed: Vec<(Job, String)> = Vec::new();
    while records.len() > 0
        invariant
            records@.len() <= all.len(),
            records@ == all.subrange(0, records@.len() as int),
            pending_of(all) == pending_of(records@) + resumed_view(reversed@).reverse(),
        decreases records@.len(),
    {
        let ghost before = records@;
        let ghost taken = resumed_view(reversed@);
        let entry = records.pop().unwrap();
        assert(records@ == before.drop_last());
        assert(records@ =~= all.subrange(0, records@.len() as int));
        match entry {
            (job, JobStatus::Pending(id)) => {
                reversed.push((job, id));
                assert(resumed_view(reversed@) =~= taken.push((job, id@)));
                assert(taken.push((job, id@)).reverse() =~= seq![(job, id@)] + taken.reverse());
                assert(pending_of(before) == pending_of(records@).push((job, id@)));
                assert(pending_of(records@).push((job, id@)) + taken.reverse() =~= pending_of(
                    records@,
                ) + (seq![(job, id@)] + taken.reverse()));
            },
            _ => {
                assert(pending_of(before) == pending_of(records@));
            },
        }
    }
    assert(pending_of(records@) =~= Seq::<(Job, Seq<char>)>::empty());
    let mut resumed: Vec<(Job, String)> = Vec::new();
    let ghost turned = resumed_view(reversed@);
    while reversed.len() > 0
        invariant
            reversed@.len() <= turned.len(),
            resumed_view(reversed@) == turned.subrange(0, reversed@.len() as int),
            resumed_view(resumed@) == turned.subrange(
                reversed@.len() as int,
                turned.len() as int,
            ).reverse(),
        decreases reversed@.len(),
    {
        let ghost before = resumed_view(reversed@);
        let ghost built = resumed_view(resumed@);
        let entry = reversed.pop().unwrap();
        assert(resumed_view(reversed@) =~= before.drop_last());
        assert(resumed_view(reversed@) =~= turned.subrange(0, reversed@.len() as int));
        assert((entry.0, entry.1@) == before.last());
        assert(before.last() == turned[reversed@.len() as int]);
        resumed.push(entry);
        assert(resumed_view(resumed@) =~= built.push((entry.0, entry.1@)));
        assert(resumed_view(resumed@) =~= turned.subrange(
            reversed@.len() as int,
            turned.len() as int,
        ).reverse());
    }
    assert(resumed_view(resumed@) =~= turned.reverse());
    assert(pending_of(all) =~= turned.reverse());
    resumed
}

} // verus!
