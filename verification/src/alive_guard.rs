//! The alive guard of a running subsystem: it records how the subsystem
//! stopped and, once the last holder lets go of it, hands the finished
//! callback the stop reason (`Cancelled` when the subsystem never reported
//! one) together with the cancel callback, if one was registered.
use vstd::prelude::*;

use crate::stop_reason::StopReason;

verus! {

/// Callbacks and the stop reason of one subsystem. `F` is the type of the
/// finished callback, `C` that of the cancel callback; the runtime calls
/// them with what [`AliveGuard::release`] hands back.
pub struct AliveGuard<E, F, C> {
    finished_callback: Option<F>,
    cancelled_callback: Option<C>,
    stop_reason: Option<StopReason<E>>,
}

/// What a guard holds: the registered callbacks and the reported stop reason.
pub struct GuardView<E, F, C> {
    pub finished_callback: Option<F>,
    pub cancelled_callback: Option<C>,
    pub stop_reason: Option<StopReason<E>>,
}

impl<E, F, C> GuardView<E, F, C> {
    /// After the finished callback `f` was registered.
    pub open spec fn after_finished(self, f: F) -> Self {
        GuardView { finished_callback: Some(f), ..self }
    }

    /// After the cancel callback `c` was registered.
    pub open spec fn after_cancel(self, c: C) -> Self {
        GuardView { cancelled_callback: Some(c), ..self }
    }

    /// After the subsystem reported `reason`.
    pub open spec fn after_ended(self, reason: StopReason<E>) -> Self {
        GuardView { stop_reason: Some(reason), ..self }
    }

    /// The reason that the finished callback receives on release: the
    /// reported one, or `Cancelled` if none was reported.
    pub open spec fn delivered_reason(self) -> StopReason<E> {
        match self.stop_reason {
            Some(reason) => reason,
            None => StopReason::Cancelled,
        }
    }
}

impl<E, F, C> View for AliveGuard<E, F, C> {
    type V = GuardView<E, F, C>;

    closed spec fn view(&self) -> GuardView<E, F, C> {
        GuardView {
            finished_callback: self.finished_callback,
            cancelled_callback: self.cancelled_callback,
            stop_reason: self.stop_reason,
        }
    }
}

impl<E, F, C> AliveGuard<E, F, C> {
    /// A guard with no callbacks and no stop reason.
    pub fn new() -> (guard: Self)
        ensures
            guard@.finished_callback is None,
            guard@.cancelled_callback is None,
            guard@.stop_reason is None,
    {
        AliveGuard { finished_callback: None, cancelled_callback: None, stop_reason: None }
    }

    /// Records how the subsystem stopped. It stops once.
    pub fn subsystem_ended(&mut self, reason: StopReason<E>)
        requires
            old(self)@.stop_reason is None,
        ensures
            final(self)@ == old(self)@.after_ended(reason),
    {
        self.stop_reason = Some(reason);
    }

    /// Registers the callback that runs after the finished callback on
    /// release. At most one is registered.
    pub fn on_cancel(&mut self, cancelled_callback: C)
        requires
            old(self)@.cancelled_callback is None,
        ensures
            final(self)@ == old(self)@.after_cancel(cancelled_callback),
    {
        self.cancelled_callback = Some(cancelled_callback);
    }

    /// Registers the callback that receives the stop reason on release.
    /// At most one is registered.
    pub fn on_finished(&mut self, finished_callback: F)
        requires
            old(self)@.finished_callback is None,
        ensures
            final(self)@ == old(self)@.after_finished(finished_callback),
    {
        self.finished_callback = Some(finished_callback);
    }

    /// Whether a finished callback is registered.
    pub fn has_finished_callback(&self) -> (registered: bool)
        ensures
            registered == self@.finished_callback is Some,
    {
        self.finished_callback.is_some()
    }

    /// Whether a cancel callback is registered.
    pub fn has_cancel_callback(&self) -> (registered: bool)
        ensures
            registered == self@.cancelled_callback is Some,
    {
        self.cancelled_callback.is_some()
    }

    /// Whether the subsystem reported how it stopped.
    pub fn has_ended(&self) -> (ended: bool)
        ensures
            ended == self@.stop_reason is Some,
    {
        self.stop_reason.is_some()
    }

    /// Takes the guard apart once its last holder lets go of it: the
    /// finished callback with the reason to call it with, then the cancel
    /// callback to run after it, if one was registered. A finished callback
    /// must have been registered.
    pub fn release(self) -> (parts: (F, StopReason<E>, Option<C>))
        requires
            self@.finished_callback is Some,
        ensures
            parts.0 == self@.finished_callback->Some_0,
            parts.1 == self@.delivered_reason(),
            parts.2 == self@.cancelled_callback,
    {
        let AliveGuard { finished_callback, cancelled_callback, stop_reason } = self;
        let reason = match stop_reason {
            Some(reason) => reason,
            None => StopReason::Cancelled,
        };
        (finished_callback.unwrap(), reason, cancelled_callback)
    }
}

/// The finished callback and the stop report may come in either order: the
/// guard ends up the same, and delivers the reported reason.
pub proof fn law_setup_order_irrelevant<E, F, C>(
    guard: GuardView<E, F, C>,
    f: F,
    reason: StopReason<E>,
)
    ensures
        guard.after_finished(f).after_ended(reason) == guard.after_ended(reason).after_finished(f),
        guard.after_finished(f).after_ended(reason).delivered_reason() == reason,
{
}

/// A subsystem that never reports how it stopped is delivered as cancelled.
pub proof fn law_unreported_is_cancelled<E, F, C>(guard: GuardView<E, F, C>, f: F)
    requires
        guard.stop_reason is None,
    ensures
        guard.after_finished(f).delivered_reason() == StopReason::<E>::Cancelled,
{
}

/// The cancel callback is handed back whenever it was registered, whatever
/// the stop reason, and registering it leaves the delivered reason alone.
pub proof fn law_cancel_callback_kept<E, F, C>(guard: GuardView<E, F, C>, c: C, reason: StopReason<E>)
    ensures
        guard.after_cancel(c).after_ended(reason).cancelled_callback == Some(c),
        guard.after_cancel(c).cancelled_callback == Some(c),
        guard.after_cancel(c).delivered_reason() == guard.delivered_reason(),
{
}

} // verus!
