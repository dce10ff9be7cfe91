use media_sync::error::SyncError;
use media_sync::run::RunState;

fn full_run(run: &mut RunState, codes: &[&str]) {
    run.start(codes.len()).unwrap();
    for c in codes {
        run.record(c, true);
        assert!(run.processed() <= run.total().unwrap());
    }
    run.finish();
}

#[test]
fn repeated_successful_runs_end_complete() {
    let mut run = RunState::new();
    let codes = ["a", "b", "c"];
    full_run(&mut run, &codes);
    assert_eq!(Some(run.processed()), run.total());
    assert!(run.failed_codes().is_empty());
    assert!(!run.is_running());
    full_run(&mut run, &codes);
    assert_eq!(Some(run.processed()), run.total());
    assert_eq!(run.processed(), 3);
    assert!(run.failed_codes().is_empty());
}

#[test]
fn processed_never_passes_the_total() {
    let mut run = RunState::new();
    run.start(2).unwrap();
    let mut last = run.processed();
    for (c, ok) in [("a", true), ("b", false), ("c", true), ("d", false)] {
        run.record(c, ok);
        assert!(run.processed() >= last);
        assert!(run.processed() <= 2);
        last = run.processed();
    }
    assert_eq!(run.processed(), 2);
    assert_eq!(run.failed_codes(), &vec!["b".to_string(), "d".to_string()]);
}

#[test]
fn a_second_start_is_refused_while_running() {
    let mut run = RunState::new();
    assert_eq!(run.start(3), Ok(()));
    assert_eq!(run.start(5), Err(SyncError::Validation));
    assert_eq!(run.total(), Some(3));
    run.finish();
    assert_eq!(run.start(5), Ok(()));
    assert_eq!(run.total(), Some(5));
}

#[test]
fn start_clears_failures_and_counters() {
    let mut run = RunState::new();
    run.start(2).unwrap();
    run.record("x", false);
    run.finish();
    run.start(4).unwrap();
    assert!(run.failed_codes().is_empty());
    assert_eq!(run.processed(), 0);
    assert!(run.is_running());
}

#[test]
fn estimated_time_left() {
    let mut run = RunState::new();
    assert_eq!(run.eta_seconds(10), None);
    run.start(4).unwrap();
    assert_eq!(run.eta_seconds(10), None);
    run.record("a", true);
    assert_eq!(run.eta_seconds(10), Some(30));
    run.record("b", true);
    assert_eq!(run.eta_seconds(7), Some(7));
    run.record("c", true);
    assert_eq!(run.eta_seconds(10), Some(3));
    run.record("d", true);
    assert_eq!(run.eta_seconds(10), Some(0));
}

#[test]
fn retry_input_lists_failed_codes() {
    let mut run = RunState::new();
    assert_eq!(run.retry_input(), "");
    run.start(3).unwrap();
    run.record("a", false);
    run.record("b", true);
    run.record("c", false);
    assert_eq!(run.retry_input(), "a\nc");
}

#[test]
fn log_lines_are_kept_in_order() {
    let mut run = RunState::new();
    run.log("one".to_string());
    run.start(1).unwrap();
    run.log("two".to_string());
    assert_eq!(run.logs(), &vec!["one".to_string(), "two".to_string()]);
}

#[test]
fn aborted_run_is_told_apart_and_cleared_by_the_next_start() {
    let mut run = RunState::new();
    run.start(3).unwrap();
    run.abort();
    assert!(!run.is_running());
    assert!(run.was_aborted());
    assert_eq!(run.processed(), 0);
    run.start(3).unwrap();
    assert!(!run.was_aborted());
}
