use pip_gui::runner::{
    log_line, operation_result, pip_arguments, OperationError, OperationRunner, PackageOperation,
    RunnerAction, RunnerEvent, Stream,
};

#[test]
fn exit_zero_is_success() {
    assert_eq!(operation_result(Some(0)), Ok("Command completed successfully".to_string()));
}

#[test]
fn nonzero_exit_is_failure_with_status() {
    assert_eq!(operation_result(Some(1)), Err(OperationError::ProcessFailure { code: Some(1) }));
    assert_eq!(operation_result(Some(-2)), Err(OperationError::ProcessFailure { code: Some(-2) }));
    assert_eq!(operation_result(None), Err(OperationError::ProcessFailure { code: None }));
}

#[test]
fn arguments_for_each_operation() {
    let a = pip_arguments(&PackageOperation::Install { package: "flask".into(), version: None });
    assert_eq!(a, vec!["-m", "pip", "install", "flask"]);
    let a = pip_arguments(&PackageOperation::Install {
        package: "flask".into(),
        version: Some("2.0".into()),
    });
    assert_eq!(a, vec!["-m", "pip", "install", "flask==2.0"]);
    let a = pip_arguments(&PackageOperation::Uninstall { package: "flask".into() });
    assert_eq!(a, vec!["-m", "pip", "uninstall", "-y", "flask"]);
    let a = pip_arguments(&PackageOperation::Upgrade { package: "flask".into() });
    assert_eq!(a, vec!["-m", "pip", "install", "--upgrade", "flask"]);
    let a = pip_arguments(&PackageOperation::Downgrade { package: "flask".into(), version: "1.1".into() });
    assert_eq!(a, vec!["-m", "pip", "install", "flask==1.1"]);
}

#[test]
fn log_lines_are_tagged() {
    assert_eq!(log_line(Stream::Stdout, "Collecting x"), "Collecting x");
    assert_eq!(log_line(Stream::Stderr, "boom"), "[ERROR] boom");
}

#[test]
fn runner_reports_after_streams_close() {
    let mut r = OperationRunner::new();
    match r.step(RunnerEvent::Line(Stream::Stdout, "a".into())) {
        RunnerAction::Emit(l) => assert_eq!(l, "a"),
        other => panic!("unexpected {:?}", other),
    }
    assert!(matches!(r.step(RunnerEvent::Exited(Some(0))), RunnerAction::Wait));
    match r.step(RunnerEvent::Line(Stream::Stderr, "warn".into())) {
        RunnerAction::Emit(l) => assert_eq!(l, "[ERROR] warn"),
        other => panic!("unexpected {:?}", other),
    }
    assert!(matches!(r.step(RunnerEvent::Closed(Stream::Stdout)), RunnerAction::Wait));
    match r.step(RunnerEvent::Closed(Stream::Stderr)) {
        RunnerAction::Report(res) => assert!(res.is_ok()),
        other => panic!("unexpected {:?}", other),
    }
    assert!(matches!(r.step(RunnerEvent::Line(Stream::Stdout, "late".into())), RunnerAction::Wait));
}

#[test]
fn runner_failure_carries_status() {
    let mut r = OperationRunner::new();
    assert!(matches!(r.step(RunnerEvent::Closed(Stream::Stdout)), RunnerAction::Wait));
    assert!(matches!(r.step(RunnerEvent::Closed(Stream::Stderr)), RunnerAction::Wait));
    match r.step(RunnerEvent::Exited(Some(3))) {
        RunnerAction::Report(res) => {
            assert_eq!(res, Err(OperationError::ProcessFailure { code: Some(3) }))
        }
        other => panic!("unexpected {:?}", other),
    }
}
