use vstd::prelude::*;

use crate::stop_reason::StopReason;

verus! {

/// What a subsystem does with a failure that reaches it from below.
#[derive(Clone, Copy, Debug, PartialEq, Eq, Structural)]
pub enum ErrorAction {
    /// Pass the failure on to the parent.
    Forward,
    /// Keep the failure here; the subsystem that catches it shuts down locally.
    CatchAndLocalShutdown,
}

/// The actions a subsystem applies to failures of its children: one for
/// errors (and any other stop reason), one for panics.
#[derive(Clone, Copy, Debug, PartialEq, Eq, Structural)]
pub struct ErrorActions {
    pub on_failure: ErrorAction,
    pub on_panic: ErrorAction,
}

impl ErrorActions {
    /// The action that applies to a stop reason.
    pub open spec fn spec_action_for<E>(self, reason: StopReason<E>) -> ErrorAction {
        if reason is Panic {
            self.on_panic
        } else {
            self.on_failure
        }
    }

    /// Both kinds of failure are forwarded.
    pub fn forward_all() -> (actions: Self)
        ensures
            actions.on_failure == ErrorAction::Forward,
            actions.on_panic == ErrorAction::Forward,
    {
        ErrorActions { on_failure: ErrorAction::Forward, on_panic: ErrorAction::Forward }
    }

    /// Both kinds of failure are caught.
    pub fn catch_all() -> (actions: Self)
        ensures
            actions.on_failure == ErrorAction::CatchAndLocalShutdown,
            actions.on_panic == ErrorAction::CatchAndLocalShutdown,
    {
        ErrorActions {
            on_failure: ErrorAction::CatchAndLocalShutdown,
            on_panic: ErrorAction::CatchAndLocalShutdown,
        }
    }

    /// The action that applies to `reason`: the panic action for a panic,
    /// the failure action otherwise.
    pub fn action_for<E>(&self, reason: &StopReason<E>) -> (action: ErrorAction)
        ensures
            action == self.spec_action_for(*reason),
            *reason is Panic ==> action == self.on_panic,
            !(*reason is Panic) ==> action == self.on_failure,
    {
        match reason {
            StopReason::Panic => self.on_panic,
            _ => self.on_failure,
        }
    }
}

/// What a token does with a failure that one of its descendants raised:
/// it keeps (handles) it by returning `None`, or passes a stop reason on to
/// its own parent with `Some`.
pub trait FailureHandler<E> {
    /// The handler's answer to `reason`.
    spec fn spec_on_error(&self, reason: StopReason<E>) -> Option<StopReason<E>>;

    /// Handles `reason`, or returns the reason to pass on.
    fn on_error(&self, reason: StopReason<E>) -> (passed_on: Option<StopReason<E>>)
        ensures
            passed_on == self.spec_on_error(reason),
    ;
}

/// Error actions as a failure handler: a reason whose action is
/// `CatchAndLocalShutdown` is kept, any other is passed on unchanged.
impl<E> FailureHandler<E> for ErrorActions {
    open spec fn spec_on_error(&self, reason: StopReason<E>) -> Option<StopReason<E>> {
        if self.spec_action_for(reason) == ErrorAction::CatchAndLocalShutdown {
            None
        } else {
            Some(reason)
        }
    }

    fn on_error(&self, reason: StopReason<E>) -> (passed_on: Option<StopReason<E>>) {
        if self.action_for(&reason) == ErrorAction::CatchAndLocalShutdown {
            None
        } else {
            Some(reason)
        }
    }
}

/// A panic is governed by the panic action and every other stop reason (an
/// error above all) by the failure action; as a handler, error actions keep
/// a reason whose action catches and pass any other on unchanged.
pub proof fn law_action_by_kind<E>(actions: ErrorActions, e: E)
    ensures
        actions.spec_action_for(StopReason::<E>::Panic) == actions.on_panic,
        actions.spec_action_for(StopReason::Error(e)) == actions.on_failure,
        actions.spec_action_for(StopReason::<E>::Finish) == actions.on_failure,
        actions.spec_action_for(StopReason::<E>::Cancelled) == actions.on_failure,
        actions.on_failure == ErrorAction::CatchAndLocalShutdown ==> actions.spec_on_error(
            StopReason::Error(e),
        ) == None::<StopReason<E>>,
        actions.on_failure == ErrorAction::Forward ==> actions.spec_on_error(StopReason::Error(e))
            == Some(StopReason::Error(e)),
        actions.on_panic == ErrorAction::CatchAndLocalShutdown ==> actions.spec_on_error(
            StopReason::<E>::Panic,
        ) == None::<StopReason<E>>,
        actions.on_panic == ErrorAction::Forward ==> actions.spec_on_error(StopReason::<E>::Panic)
            == Some(StopReason::<E>::Panic),
{
}

} // verus!
