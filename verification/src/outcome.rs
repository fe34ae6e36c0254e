//! Result values shared by the codec, the run state machine and the
//! orchestrator: why a run failed, what a finished run reports, and the
//! per-connection event the orchestrator republishes.

use vstd::prelude::*;

verus! {

/// Why a benchmark run failed. Every failure is local to one run: it is
/// reported once and never crosses over to another connection's run.
#[derive(Clone, Copy, PartialEq, Eq, Structural, Debug)]
pub enum FailureReason {
    /// The underlying stream reported a read or write failure.
    IoError,
    /// The peer broke the wire protocol: a truncated receipt, or data past
    /// the end of a complete receipt.
    ProtocolViolation,
    /// The owning connection was torn down while the run was in flight.
    ConnectionLost,
    /// The peer does not speak the benchmark protocol; no run was created.
    NegotiationFailed,
}

/// The immutable result of one run, produced exactly once per run.
#[derive(Clone, Copy, PartialEq, Eq, Structural, Debug)]
pub enum RunOutcome {
    /// The run finished normally. `duration_ns` is the span from the start
    /// of streaming to the terminal clock sample, in nanoseconds;
    /// `bytes_transferred` is the byte count the outcome vouches for (on the
    /// initiator side, the responder's receipt value).
    Completed { duration_ns: u64, bytes_transferred: u64 },
    /// The run ended early; `reason` says why.
    Failed { reason: FailureReason },
}

/// One externally visible completion or error event, tagged with the
/// connection that hosted the run.
#[derive(Clone, Copy, PartialEq, Eq, Structural, Debug)]
pub struct OutcomeEvent {
    pub connection_id: u64,
    pub outcome: RunOutcome,
}

} // verus!
