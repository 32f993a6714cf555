//! The errors that subsystems and the shutdown as a whole report.
use vstd::prelude::*;

use crate::stop_reason::StopReason;

verus! {

/// A failure of one subsystem, named after it.
#[derive(Debug)]
pub enum SubsystemError<E> {
    /// The named subsystem panicked.
    Panicked(String),
    /// The named subsystem returned an error.
    Failed(String, E),
}

impl<E> SubsystemError<E> {
    /// The error that a subsystem's stop reason amounts to: a panic or an
    /// error is a failure of the named subsystem; finishing or being
    /// cancelled is none.
    pub open spec fn spec_from_stop_reason(name: String, reason: StopReason<E>) -> Option<Self> {
        match reason {
            StopReason::Panic => Some(SubsystemError::Panicked(name)),
            StopReason::Error(e) => Some(SubsystemError::Failed(name, e)),
            _ => None,
        }
    }

    /// The error that a subsystem's stop reason amounts to, if any.
    pub fn from_stop_reason(name: String, reason: StopReason<E>) -> (error: Option<Self>)
        ensures
            error == Self::spec_from_stop_reason(name, reason),
    {
        match reason {
            StopReason::Panic => Some(SubsystemError::Panicked(name)),
            StopReason::Error(e) => Some(SubsystemError::Failed(name, e)),
            _ => None,
        }
    }
}

/// Why joining a nested subsystem failed.
#[derive(Debug)]
pub enum SubsystemJoinError<E> {
    /// Subsystems below the joined one failed.
    SubsystemsFailed(Vec<SubsystemError<E>>),
}

/// Why a graceful shutdown did not end cleanly.
#[derive(Debug)]
pub enum GracefulShutdownError<E> {
    /// All subsystems stopped, but some of them failed.
    SubsystemsFailed(Vec<SubsystemError<E>>),
    /// The subsystems did not stop within the shutdown timeout; the
    /// failures collected until then.
    ShutdownTimeout(Vec<SubsystemError<E>>),
}

/// How the wait for the subsystems ended.
#[derive(Clone, Copy, Debug, PartialEq, Eq, Structural)]
pub enum ShutdownOutcome {
    /// All subsystems finished before any shutdown was requested.
    AllSubsystemsFinished,
    /// A shutdown was requested and all subsystems stopped in time.
    ShutdownFinished,
    /// A shutdown was requested and the subsystems did not stop in time.
    ShutdownTimedOut,
}

/// What a shutdown reports: a timeout is an error carrying the failures
/// collected so far; otherwise it is a success exactly when no subsystem
/// failed, and an error carrying all failures when some did.
pub open spec fn spec_shutdown_result<E>(
    outcome: ShutdownOutcome,
    errors: Vec<SubsystemError<E>>,
) -> Result<(), GracefulShutdownError<E>> {
    match outcome {
        ShutdownOutcome::ShutdownTimedOut => Err(GracefulShutdownError::ShutdownTimeout(errors)),
        _ => if errors@.len() == 0 {
            Ok(())
        } else {
            Err(GracefulShutdownError::SubsystemsFailed(errors))
        },
    }
}

/// Decides what a shutdown reports, from how the wait ended and the
/// failures collected from the subsystems.
pub fn shutdown_result<E>(outcome: ShutdownOutcome, errors: Vec<SubsystemError<E>>) -> (result:
    Result<(), GracefulShutdownError<E>>)
    ensures
        result == spec_shutdown_result(outcome, errors),
        outcome == ShutdownOutcome::ShutdownTimedOut ==> result == Err::<(), GracefulShutdownError<E>>(
            GracefulShutdownError::ShutdownTimeout(errors),
        ),
        outcome != ShutdownOutcome::ShutdownTimedOut ==> (result is Ok <==> errors@.len() == 0),
        outcome != ShutdownOutcome::ShutdownTimedOut && errors@.len() != 0 ==> result == Err::<
            (),
            GracefulShutdownError<E>,
        >(GracefulShutdownError::SubsystemsFailed(errors)),
{
    match outcome {
        ShutdownOutcome::ShutdownTimedOut => Err(GracefulShutdownError::ShutdownTimeout(errors)),
        _ => if errors.len() == 0 {
            Ok(())
        } else {
            Err(GracefulShutdownError::SubsystemsFailed(errors))
        },
    }
}

/// A shutdown succeeds exactly when the subsystems stopped in time and none
/// of them failed, and no collected failure is lost either way. A timeout is
/// always reported as a timeout, whatever failures were collected, and a
/// shutdown that did not time out is never reported as one.
pub proof fn law_shutdown_success_iff_clean<E>(outcome: ShutdownOutcome, errors: Vec<SubsystemError<E>>)
    ensures
        spec_shutdown_result(outcome, errors) is Ok <==> (outcome != ShutdownOutcome::ShutdownTimedOut
            && errors@.len() == 0),
        match spec_shutdown_result(outcome, errors) {
            Ok(()) => errors@.len() == 0,
            Err(GracefulShutdownError::SubsystemsFailed(reported)) => reported == errors
                && outcome != ShutdownOutcome::ShutdownTimedOut,
            Err(GracefulShutdownError::ShutdownTimeout(reported)) => reported == errors && outcome
                == ShutdownOutcome::ShutdownTimedOut,
        },
        outcome == ShutdownOutcome::ShutdownTimedOut ==> spec_shutdown_result(outcome, errors) == Err::<
            (),
            GracefulShutdownError<E>,
        >(GracefulShutdownError::ShutdownTimeout(errors)),
{
}

} // verus!
