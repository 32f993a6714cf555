use vstd::prelude::*;

verus! {

/// Why a subsystem stopped.
#[derive(Debug)]
pub enum StopReason<E> {
    /// The subsystem returned successfully.
    Finish,
    /// The subsystem panicked.
    Panic,
    /// The subsystem returned an error.
    Error(E),
    /// The subsystem was dropped before it ended.
    Cancelled,
}

impl<E> StopReason<E> {
    /// The stop reason for the outcome of awaiting a subsystem's task:
    /// a successful return is `Finish`, a returned error is `Error`, and a
    /// task that did not return (it panicked or was aborted) is `Panic`.
    pub open spec fn spec_from_join_result<J>(result: Result<Result<(), E>, J>) -> Self {
        match result {
            Ok(Ok(())) => StopReason::Finish,
            Ok(Err(e)) => StopReason::Error(e),
            Err(_) => StopReason::Panic,
        }
    }

    /// Maps the outcome of awaiting a subsystem's task to its stop reason.
    pub fn from_join_result<J>(result: Result<Result<(), E>, J>) -> (reason: Self)
        ensures
            reason == Self::spec_from_join_result(result),
    {
        match result {
            Ok(Ok(())) => StopReason::Finish,
            Ok(Err(e)) => StopReason::Error(e),
            Err(_) => StopReason::Panic,
        }
    }

    /// Whether the reason is a failure: an error or a panic.
    pub open spec fn spec_is_failure(self) -> bool {
        self is Error || self is Panic
    }

    /// Whether the reason is a failure: an error or a panic.
    pub fn is_failure(&self) -> (failure: bool)
        ensures
            failure == self.spec_is_failure(),
    {
        match self {
            StopReason::Error(_) | StopReason::Panic => true,
            _ => false,
        }
    }
}

} // verus!
