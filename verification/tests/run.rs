use rpmi::stream::ActionRun;

#[test]
fn drain_returns_forwarded_lines_in_order() {
    let mut run = ActionRun::new();
    run.accept_stdout_line("o1".to_string());
    run.accept_stdout_line("o2".to_string());
    run.accept_stderr_line("e1".to_string());
    run.forward_stdout();
    run.forward_stderr();
    let first = run.drain();
    assert_eq!(first, vec!["o1".to_string(), "e1".to_string()]);
    let empty = run.drain();
    assert_eq!(empty, Vec::<String>::new());
}

#[test]
fn finish_flushes_everything_pending() {
    let mut run = ActionRun::new();
    run.accept_stdout_line("a".to_string());
    run.accept_stderr_line("b".to_string());
    run.accept_stdout_line("c".to_string());
    assert!(!run.poll_finished());
    run.finish();
    assert!(run.poll_finished());
    let rest = run.drain();
    // Per-stream order is kept; stdout is flushed before stderr at the end.
    assert_eq!(rest, vec!["a".to_string(), "c".to_string(), "b".to_string()]);
}

#[test]
fn completion_is_observed_after_finish_and_nothing_is_lost() {
    let mut run = ActionRun::new();
    run.accept_stdout_line("one".to_string());
    run.forward_stdout();
    let before = run.drain();
    assert_eq!(before, vec!["one".to_string()]);
    run.accept_stdout_line("two".to_string());
    run.accept_stderr_line("three".to_string());
    run.finish();
    assert!(run.poll_finished());
    let after = run.drain();
    assert_eq!(after, vec!["two".to_string(), "three".to_string()]);
    assert_eq!(run.drain(), Vec::<String>::new());
}

#[test]
fn killing_repeatedly_is_safe_and_child_ends_reaped() {
    let mut run = ActionRun::new();
    run.accept_stdout_line("line".to_string());
    run.kill_child();
    run.kill_child();
    run.kill_child();
    run.reap_child();
    run.finish();
    assert!(run.poll_finished());
    assert_eq!(run.drain(), vec!["line".to_string()]);
}

#[test]
fn forwarding_with_nothing_pending_changes_nothing() {
    let mut run = ActionRun::new();
    run.forward_stdout();
    run.forward_stderr();
    assert_eq!(run.drain(), Vec::<String>::new());
    assert!(!run.poll_finished());
}
