use graceful_shutdown::{
    shutdown_result, BoxedError, ErrorAction, ErrorActions, GracefulShutdownError, ShutdownOutcome,
    StopReason, SubsystemError,
};

#[test]
fn join_result_maps_to_stop_reason() {
    let finished: Result<Result<(), String>, ()> = Ok(Ok(()));
    assert!(matches!(StopReason::from_join_result(finished), StopReason::Finish));
    let failed: Result<Result<(), String>, ()> = Ok(Err(String::from("e")));
    assert!(matches!(StopReason::from_join_result(failed), StopReason::Error(ref e) if e == "e"));
    let panicked: Result<Result<(), String>, &str> = Err("join error");
    assert!(matches!(StopReason::from_join_result(panicked), StopReason::Panic));
}

#[test]
fn join_result_with_boxed_error() {
    let failed: Result<Result<(), BoxedError>, ()> = Ok(Err(String::from("x").into()));
    let reason = StopReason::from_join_result(failed);
    assert!(reason.is_failure());
    assert!(!StopReason::<BoxedError>::Finish.is_failure());
    assert!(!StopReason::<BoxedError>::Cancelled.is_failure());
    assert!(StopReason::<BoxedError>::Panic.is_failure());
}

#[test]
fn actions_pick_by_reason_kind() {
    let actions =
        ErrorActions { on_failure: ErrorAction::Forward, on_panic: ErrorAction::CatchAndLocalShutdown };
    assert_eq!(actions.action_for(&StopReason::<u8>::Panic), ErrorAction::CatchAndLocalShutdown);
    assert_eq!(actions.action_for(&StopReason::Error(1u8)), ErrorAction::Forward);
    assert_eq!(actions.action_for(&StopReason::<u8>::Finish), ErrorAction::Forward);
    assert_eq!(ErrorActions::catch_all().on_failure, ErrorAction::CatchAndLocalShutdown);
    assert_eq!(ErrorActions::forward_all().on_panic, ErrorAction::Forward);
}

#[test]
fn stop_reasons_to_subsystem_errors() {
    assert!(matches!(
        SubsystemError::from_stop_reason(String::from("a"), StopReason::<u8>::Panic),
        Some(SubsystemError::Panicked(ref n)) if n == "a"
    ));
    assert!(matches!(
        SubsystemError::from_stop_reason(String::from("b"), StopReason::Error(3u8)),
        Some(SubsystemError::Failed(ref n, 3)) if n == "b"
    ));
    assert!(SubsystemError::from_stop_reason(String::from("c"), StopReason::<u8>::Finish).is_none());
    assert!(SubsystemError::from_stop_reason(String::from("d"), StopReason::<u8>::Cancelled).is_none());
}

#[test]
fn shutdown_without_failures_succeeds() {
    assert!(shutdown_result::<u8>(ShutdownOutcome::AllSubsystemsFinished, vec![]).is_ok());
    assert!(shutdown_result::<u8>(ShutdownOutcome::ShutdownFinished, vec![]).is_ok());
}

#[test]
fn shutdown_with_failures_reports_them() {
    let errors = vec![SubsystemError::Panicked(String::from("p")), SubsystemError::Failed(String::from("f"), 1u8)];
    match shutdown_result(ShutdownOutcome::ShutdownFinished, errors) {
        Err(GracefulShutdownError::SubsystemsFailed(reported)) => assert_eq!(reported.len(), 2),
        other => panic!("unexpected {:?}", other),
    }
    let errors = vec![SubsystemError::Failed(String::from("f"), 2u8)];
    assert!(matches!(
        shutdown_result(ShutdownOutcome::AllSubsystemsFinished, errors),
        Err(GracefulShutdownError::SubsystemsFailed(ref r)) if r.len() == 1
    ));
}

#[test]
fn shutdown_timeout_is_an_error() {
    assert!(matches!(
        shutdown_result::<u8>(ShutdownOutcome::ShutdownTimedOut, vec![]),
        Err(GracefulShutdownError::ShutdownTimeout(ref r)) if r.is_empty()
    ));
    let errors = vec![SubsystemError::Panicked(String::from("slow"))];
    assert!(matches!(
        shutdown_result::<u8>(ShutdownOutcome::ShutdownTimedOut, errors),
        Err(GracefulShutdownError::ShutdownTimeout(ref r)) if r.len() == 1
    ));
}
