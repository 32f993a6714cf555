use std::sync::atomic::{AtomicU32, Ordering};
use std::sync::Arc;

use graceful_shutdown::{AliveGuard, StopReason};

type Reason = StopReason<String>;
type CancelCallback = Box<dyn FnOnce() + Send>;

/// What the runtime does when the last holder lets go of a guard.
fn drop_guard<F: FnOnce(Reason)>(guard: AliveGuard<String, F, CancelCallback>) {
    let (finished_callback, reason, cancelled_callback) = guard.release();
    finished_callback(reason);
    if let Some(cancelled_callback) = cancelled_callback {
        cancelled_callback();
    }
}

#[test]
fn fallback_is_cancelled() {
    let mut alive_guard = AliveGuard::new();

    let (set_result, mut result) = tokio::sync::oneshot::channel();

    alive_guard.on_finished(move |stopreason: Reason| {
        set_result.send(stopreason).unwrap();
    });

    drop_guard(alive_guard);

    assert!(matches!(result.try_recv().unwrap(), StopReason::Cancelled));
}

#[test]
fn normal_operation() {
    let mut alive_guard = AliveGuard::new();

    let (set_result, mut result) = tokio::sync::oneshot::channel();

    alive_guard.on_finished(move |stopreason: Reason| {
        set_result.send(stopreason).unwrap();
    });

    alive_guard.subsystem_ended(StopReason::Panic);

    drop_guard(alive_guard);

    assert!(matches!(result.try_recv().unwrap(), StopReason::Panic));
}

#[test]
fn inverted_setup_order() {
    let mut alive_guard = AliveGuard::new();

    let (set_result, mut result) = tokio::sync::oneshot::channel();

    alive_guard.subsystem_ended(StopReason::Panic);

    alive_guard.on_finished(move |stopreason: Reason| {
        set_result.send(stopreason).unwrap();
    });

    drop_guard(alive_guard);

    assert!(matches!(result.try_recv().unwrap(), StopReason::Panic));
}

#[test]
fn cancel_callback_with_finished() {
    let mut alive_guard = AliveGuard::new();

    let counter = Arc::new(AtomicU32::new(0));
    let counter2 = Arc::clone(&counter);

    alive_guard.on_finished(|_: Reason| {});
    alive_guard.on_cancel(Box::new(move || {
        counter2.fetch_add(1, Ordering::Relaxed);
    }) as CancelCallback);

    alive_guard.subsystem_ended(StopReason::Panic);

    drop_guard(alive_guard);

    assert_eq!(counter.load(Ordering::Relaxed), 1);
}

#[test]
fn cancel_callback_with_finished_inverted_order() {
    let mut alive_guard = AliveGuard::new();

    let counter = Arc::new(AtomicU32::new(0));
    let counter2 = Arc::clone(&counter);

    alive_guard.subsystem_ended(StopReason::Panic);

    alive_guard.on_finished(|_: Reason| {});
    alive_guard.on_cancel(Box::new(move || {
        counter2.fetch_add(1, Ordering::Relaxed);
    }) as CancelCallback);

    drop_guard(alive_guard);

    assert_eq!(counter.load(Ordering::Relaxed), 1);
}

#[test]
fn cancel_callback_without_finished() {
    let mut alive_guard = AliveGuard::new();

    let counter = Arc::new(AtomicU32::new(0));
    let counter2 = Arc::clone(&counter);

    alive_guard.on_finished(|_: Reason| {});
    alive_guard.on_cancel(Box::new(move || {
        counter2.fetch_add(1, Ordering::Relaxed);
    }) as CancelCallback);

    drop_guard(alive_guard);

    assert_eq!(counter.load(Ordering::Relaxed), 1);
}

#[test]
fn release_hands_back_error_and_no_cancel_callback() {
    let mut guard: AliveGuard<String, fn(Reason), CancelCallback> = AliveGuard::new();
    assert!(!guard.has_finished_callback());
    assert!(!guard.has_ended());
    guard.subsystem_ended(StopReason::Error(String::from("bad")));
    guard.on_finished(|_| {});
    assert!(guard.has_finished_callback());
    assert!(guard.has_ended());
    assert!(!guard.has_cancel_callback());
    let (_, reason, cancel) = guard.release();
    assert!(matches!(reason, StopReason::Error(ref e) if e == "bad"));
    assert!(cancel.is_none());
}
