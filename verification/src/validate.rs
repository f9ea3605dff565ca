//! Liveness classification of a pooled connection from the outcome of a
//! non-blocking, zero-length probe read, and the recycle error taxonomy.

use vstd::prelude::*;

verus! {

/// How long a caller must wait, in milliseconds, before reporting a fatally
/// broken connection, so that a failing remote endpoint is not hammered by a
/// tight create/fail/recycle loop.
pub const COOLDOWN_MILLIS: u64 = 3000;

/// The error kind a failed probe read reported, reduced to the distinctions
/// the recycle decision cares about.
#[derive(Debug, Clone, Copy, PartialEq, Eq, Structural)]
pub enum ProbeErrorKind {
    /// No data was ready; the read would have had to block.
    WouldBlock,
    ConnectionReset,
    BrokenPipe,
    UnexpectedEof,
    TimedOut,
    /// Any other I/O error.
    Other,
}

/// What the zero-length probe read on an idle connection reported.
#[derive(Debug, Clone, Copy, PartialEq, Eq, Structural)]
pub enum ProbeOutcome {
    /// The read returned immediately without an error.
    Success,
    /// The read failed with the given kind of error.
    Failure(ProbeErrorKind),
}

/// Three-way liveness classification of a probed socket.
#[derive(Debug, Clone, Copy, PartialEq, Eq, Structural)]
pub enum ProbeClass {
    /// The probe returned cleanly: the socket is idle and alive.
    Alive,
    /// The probe would have blocked: no evidence the socket is dead.
    AssumeAlive,
    /// The probe failed fatally: the socket is unusable.
    Dead,
}

/// Why a connection must not be handed out again.
#[derive(Debug, Clone, Copy, PartialEq, Eq, Structural)]
pub enum RecycleError {
    /// The configured maximum number of uses has been reached.
    LimitReached,
    /// The liveness probe failed with the carried error kind.
    ProbeFailed(ProbeErrorKind),
}

/// A clean probe means alive; a would-block probe is treated as alive, since
/// the absence of ready data is no evidence of a dead socket; every other
/// failure means dead.
pub open spec fn classify_probe_spec(outcome: ProbeOutcome) -> ProbeClass {
    match outcome {
        ProbeOutcome::Success => ProbeClass::Alive,
        ProbeOutcome::Failure(ProbeErrorKind::WouldBlock) => ProbeClass::AssumeAlive,
        ProbeOutcome::Failure(_) => ProbeClass::Dead,
    }
}

/// Classifies the outcome of a probe read into the three-way liveness verdict.
pub fn classify_probe(outcome: &ProbeOutcome) -> (c: ProbeClass)
    ensures
        c == classify_probe_spec(*outcome),
{
    match outcome {
        ProbeOutcome::Success => ProbeClass::Alive,
        ProbeOutcome::Failure(ProbeErrorKind::WouldBlock) => ProbeClass::AssumeAlive,
        ProbeOutcome::Failure(_) => ProbeClass::Dead,
    }
}

/// The verdict the pool gets for a connection that passed the usage-limit
/// check: keep it unless the probe classified the socket as dead.
pub open spec fn probe_verdict_spec(outcome: ProbeOutcome) -> Result<(), RecycleError> {
    match outcome {
        ProbeOutcome::Failure(k) => if k is WouldBlock {
            Ok(())
        } else {
            Err(RecycleError::ProbeFailed(k))
        },
        ProbeOutcome::Success => Ok(()),
    }
}

/// Decides from the probe outcome alone: the connection is kept when the
/// classification is not `Dead`, and a fatal probe reports its error kind.
pub fn probe_verdict(outcome: &ProbeOutcome) -> (r: Result<(), RecycleError>)
    ensures
        r == probe_verdict_spec(*outcome),
        r is Ok <==> !(classify_probe_spec(*outcome) is Dead),
{
    match classify_probe(outcome) {
        ProbeClass::Alive => Ok(()),
        ProbeClass::AssumeAlive => Ok(()),
        ProbeClass::Dead => {
            match outcome {
                ProbeOutcome::Failure(k) => Err(RecycleError::ProbeFailed(*k)),
                ProbeOutcome::Success => Err(RecycleError::ProbeFailed(ProbeErrorKind::Other)),
            }
        },
    }
}

/// Milliseconds a caller must wait before returning the given verdict to the
/// pool: the fixed cooldown for a fatal probe, nothing otherwise.
pub fn cooldown_millis(verdict: &Result<(), RecycleError>) -> (ms: u64)
    ensures
        (ms == COOLDOWN_MILLIS) <==> (verdict matches Err(RecycleError::ProbeFailed(_))),
        !(verdict matches Err(RecycleError::ProbeFailed(_))) ==> ms == 0,
{
    match verdict {
        Err(RecycleError::ProbeFailed(_)) => COOLDOWN_MILLIS,
        _ => 0,
    }
}

} // verus!
