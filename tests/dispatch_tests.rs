use rspack_core::{
    Diagnostic, DiagnosticsBuffer, DispatchAction, DispatchKind, HookDispatch, HookOutcome,
    Severity,
};

/// Runs one dispatch over plugins that report the given outcomes, logging
/// each invoked plugin's position; returns the log and the final action.
fn run(kind: DispatchKind, outcomes: &[HookOutcome]) -> (Vec<usize>, DispatchAction) {
    let mut log = Vec::new();
    let (mut d, mut action) = HookDispatch::start(kind, outcomes.len());
    while let DispatchAction::Invoke(i) = action {
        log.push(i);
        action = d.on_outcome(outcomes[i]);
    }
    (log, action)
}

#[test]
fn fold_runs_plugins_in_registration_order() {
    let outcomes = [HookOutcome::Continue, HookOutcome::Continue];
    for _ in 0..3 {
        let (log, end) = run(DispatchKind::Fold, &outcomes);
        assert_eq!(log, vec![0, 1]);
        assert_eq!(end, DispatchAction::Finished);
    }
}

#[test]
fn first_applicable_stops_at_first_result() {
    let outcomes = [HookOutcome::Continue, HookOutcome::Applied, HookOutcome::Applied];
    let (log, end) = run(DispatchKind::FirstApplicable, &outcomes);
    assert_eq!(log, vec![0, 1]);
    assert_eq!(end, DispatchAction::Applied(1));
}

#[test]
fn first_applicable_without_result_finishes() {
    let outcomes = [HookOutcome::Continue, HookOutcome::Continue, HookOutcome::Continue];
    let (log, end) = run(DispatchKind::FirstApplicable, &outcomes);
    assert_eq!(log, vec![0, 1, 2]);
    assert_eq!(end, DispatchAction::Finished);
}

#[test]
fn fold_aborts_on_first_failure() {
    let outcomes = [HookOutcome::Continue, HookOutcome::Failed, HookOutcome::Continue];
    let (log, end) = run(DispatchKind::Fold, &outcomes);
    assert_eq!(log, vec![0, 1]);
    assert_eq!(end, DispatchAction::Failed(1));
}

#[test]
fn dispatch_without_plugins_finishes_at_once() {
    let (log, end) = run(DispatchKind::Fold, &[]);
    assert!(log.is_empty());
    assert_eq!(end, DispatchAction::Finished);
    let (log, end) = run(DispatchKind::FirstApplicable, &[]);
    assert!(log.is_empty());
    assert_eq!(end, DispatchAction::Finished);
}

fn diag(message: &str) -> Diagnostic {
    Diagnostic { severity: Severity::Warning, message: message.to_string(), span: None }
}

#[test]
fn diagnostics_drain_returns_appended_in_order() {
    let mut buffer = DiagnosticsBuffer::new();
    buffer.push(diag("first"));
    buffer.push(Diagnostic { severity: Severity::Error, message: "second".to_string(), span: Some((3, 9)) });
    buffer.push(diag("third"));
    assert_eq!(buffer.len(), 3);
    let drained = buffer.take();
    let messages: Vec<&str> = drained.iter().map(|d| d.message.as_str()).collect();
    assert_eq!(messages, vec!["first", "second", "third"]);
    assert_eq!(drained[1].severity, Severity::Error);
    assert_eq!(drained[1].span, Some((3, 9)));
    assert!(buffer.take().is_empty());
    assert_eq!(buffer.len(), 0);
}
