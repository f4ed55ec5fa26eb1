//! The life of one request, as a state machine. The caller performs the
//! work between the phases (a lookup, a send, the wait for a chunk) and
//! reports what came of it; the machine says which phase follows.

use vstd::prelude::*;
use crate::error::ErrorKind;

verus! {

/// Where a request stands.
#[derive(Clone, Copy, Debug, PartialEq, Eq, Structural)]
pub enum RequestPhase {
    Unresolved,
    EndpointResolved,
    CredentialResolved,
    RequestBuilt,
    Sent,
    Streaming,
    Completed,
    Failed(ErrorKind),
}

/// What the caller reports.
#[derive(Clone, Copy, Debug, PartialEq, Eq, Structural)]
pub enum Progress {
    /// The base URL is known.
    EndpointReady,
    /// The credential is known.
    CredentialReady,
    /// Headers and body are built.
    RequestReady,
    /// The request has gone out.
    Dispatched,
    /// A chunk of the stream has been taken in.
    ChunkTaken,
    /// The response, or the stream, is complete.
    Finished,
    /// A step failed.
    Failure(ErrorKind),
}

/// The phase that follows, if the report fits the phase. A failure ends
/// every phase that is not over yet, with its kind; nothing follows
/// `Completed` or `Failed`; every other report fits exactly one phase.
pub open spec fn next_phase(phase: RequestPhase, progress: Progress) -> Option<RequestPhase> {
    match (phase, progress) {
        (RequestPhase::Completed, _) => None,
        (RequestPhase::Failed(_), _) => None,
        (_, Progress::Failure(kind)) => Some(RequestPhase::Failed(kind)),
        (RequestPhase::Unresolved, Progress::EndpointReady) => Some(
            RequestPhase::EndpointResolved,
        ),
        (RequestPhase::EndpointResolved, Progress::CredentialReady) => Some(
            RequestPhase::CredentialResolved,
        ),
        (RequestPhase::CredentialResolved, Progress::RequestReady) => Some(
            RequestPhase::RequestBuilt,
        ),
        (RequestPhase::RequestBuilt, Progress::Dispatched) => Some(RequestPhase::Sent),
        (RequestPhase::Sent, Progress::ChunkTaken) => Some(RequestPhase::Streaming),
        (RequestPhase::Streaming, Progress::ChunkTaken) => Some(RequestPhase::Streaming),
        (RequestPhase::Sent, Progress::Finished) => Some(RequestPhase::Completed),
        (RequestPhase::Streaming, Progress::Finished) => Some(RequestPhase::Completed),
        _ => None,
    }
}

/// How far a phase is along the way; a failed request is nowhere on it.
pub open spec fn rank(phase: RequestPhase) -> int {
    match phase {
        RequestPhase::Unresolved => 0,
        RequestPhase::EndpointResolved => 1,
        RequestPhase::CredentialResolved => 2,
        RequestPhase::RequestBuilt => 3,
        RequestPhase::Sent => 4,
        RequestPhase::Streaming => 5,
        RequestPhase::Completed => 6,
        RequestPhase::Failed(_) => -1,
    }
}

/// The phase reached from `phase` by the reports in order, if each fits.
pub open spec fn phase_after(phase: RequestPhase, reports: Seq<Progress>) -> Option<RequestPhase>
    decreases reports.len(),
{
    if reports.len() == 0 {
        Some(phase)
    } else {
        match phase_after(phase, reports.drop_last()) {
            Some(p) => next_phase(p, reports.last()),
            None => None,
        }
    }
}

impl RequestPhase {
    /// The phase in which every request starts.
    pub fn start() -> (p: RequestPhase)
        ensures
            p == RequestPhase::Unresolved,
    {
        RequestPhase::Unresolved
    }

    /// Whether the request is over.
    pub fn is_over(&self) -> (over: bool)
        ensures
            over == (*self is Completed || *self is Failed),
            over == (forall|progress: Progress| next_phase(*self, progress) is None),
    {
        proof {
            if !(*self is Completed || *self is Failed) {
                assert(next_phase(*self, Progress::Failure(ErrorKind::TransportFailed)) is Some);
            }
        }
        match self {
            RequestPhase::Completed => true,
            RequestPhase::Failed(_) => true,
            _ => false,
        }
    }

    /// The phase that follows, or `None` where the report does not fit.
    pub fn advance(self, progress: Progress) -> (next: Option<RequestPhase>)
        ensures
            next == next_phase(self, progress),
    {
        match self {
            RequestPhase::Completed => None,
            RequestPhase::Failed(_) => None,
            _ => match progress {
                Progress::Failure(kind) => Some(RequestPhase::Failed(kind)),
                Progress::EndpointReady => match self {
                    RequestPhase::Unresolved => Some(RequestPhase::EndpointResolved),
                    _ => None,
                },
                Progress::CredentialReady => match self {
                    RequestPhase::EndpointResolved => Some(RequestPhase::CredentialResolved),
                    _ => None,
                },
                Progress::RequestReady => match self {
                    RequestPhase::CredentialResolved => Some(RequestPhase::RequestBuilt),
                    _ => None,
                },
                Progress::Dispatched => match self {
                    RequestPhase::RequestBuilt => Some(RequestPhase::Sent),
                    _ => None,
                },
                Progress::ChunkTaken => match self {
                    RequestPhase::Sent => Some(RequestPhase::Streaming),
                    RequestPhase::Streaming => Some(RequestPhase::Streaming),
                    _ => None,
                },
                Progress::Finished => match self {
                    RequestPhase::Sent => Some(RequestPhase::Completed),
                    RequestPhase::Streaming => Some(RequestPhase::Completed),
                    _ => None,
                },
            },
        }
    }
}

/// A step that is no failure moves a request forward: by one phase, by two
/// where a response completes without a stream, or not at all while a
/// stream goes on.
pub proof fn law_steps_go_forward(phase: RequestPhase, progress: Progress)
    requires
        next_phase(phase, progress) matches Some(next) && !(next is Failed),
    ensures
        rank(phase) <= rank(next_phase(phase, progress)->0) <= rank(phase) + 2,
        rank(next_phase(phase, progress)->0) == rank(phase) ==> phase is Streaming,
        !(progress is ChunkTaken || progress is Finished) ==> rank(next_phase(phase, progress)->0)
            == rank(phase) + 1,
{
}

/// A failure at any step that is not over leads straight to `Failed`, with
/// the kind of the failure.
pub proof fn law_failure_is_immediate(phase: RequestPhase, kind: ErrorKind)
    requires
        !(phase is Completed || phase is Failed),
    ensures
        next_phase(phase, Progress::Failure(kind)) == Some(RequestPhase::Failed(kind)),
{
}

/// The report that leads to the phase of the given rank, up to `Sent`.
pub open spec fn leads_to(progress: Progress, rank: int) -> bool {
    if rank == 1 {
        progress is EndpointReady
    } else if rank == 2 {
        progress is CredentialReady
    } else if rank == 3 {
        progress is RequestReady
    } else {
        progress is Dispatched
    }
}

/// Every beginning of a run that fits and has not failed is such a run.
proof fn lemma_run_prefix(reports: Seq<Progress>, n: int)
    requires
        0 <= n <= reports.len(),
        phase_after(RequestPhase::Unresolved, reports) matches Some(p) && !(p is Failed),
    ensures
        phase_after(RequestPhase::Unresolved, reports.take(n)) matches Some(q) && !(q is Failed),
    decreases reports.len() - n,
{
    if n == reports.len() {
        assert(reports.take(n) =~= reports);
    } else {
        lemma_run_prefix(reports, n + 1);
        assert(reports.take(n + 1).drop_last() =~= reports.take(n));
    }
}

/// Up to `Sent`, a run that gets there is one phase along with each report,
/// and each report is the one that leads to the next phase.
proof fn lemma_run_ranks(reports: Seq<Progress>, n: int)
    requires
        0 <= n <= reports.len(),
        n <= 4,
        phase_after(RequestPhase::Unresolved, reports) matches Some(p) && rank(p) >= 4,
    ensures
        phase_after(RequestPhase::Unresolved, reports.take(n)) matches Some(q) && rank(q) == n,
        n >= 1 ==> leads_to(reports[n - 1], n),
    decreases n,
{
    if n > 0 {
        lemma_run_ranks(reports, n - 1);
        lemma_run_prefix(reports, n);
        assert(reports.take(n).drop_last() =~= reports.take(n - 1));
        assert(reports.take(n).last() == reports[n - 1]);
    }
}

/// Whatever is reported from the start, in whatever order: a request that
/// has been sent has had its endpoint and its credential resolved and its
/// request built before, in that order, and none of those steps failed.
pub proof fn law_nothing_is_sent_unresolved(reports: Seq<Progress>)
    requires
        phase_after(RequestPhase::Unresolved, reports) matches Some(p) && rank(p) >= 4,
    ensures
        reports.len() >= 4,
        reports[0] is EndpointReady,
        reports[1] is CredentialReady,
        reports[2] is RequestReady,
        reports[3] is Dispatched,
{
    if reports.len() < 4 {
        lemma_run_ranks(reports, reports.len() as int);
        assert(reports.take(reports.len() as int) =~= reports);
    } else {
        lemma_run_ranks(reports, 1);
        lemma_run_ranks(reports, 2);
        lemma_run_ranks(reports, 3);
        lemma_run_ranks(reports, 4);
    }
}

} // verus!
