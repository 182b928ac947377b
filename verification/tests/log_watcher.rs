use dockerust::{LogWatch, ReadEvent, WaitError, WaitForMessage, WatchStep};

fn line(text: &str, elapsed: u64) -> ReadEvent {
    ReadEvent::Line { text: text.to_string(), elapsed }
}

fn outcome_of(step: WatchStep) -> Option<Result<(), WaitError>> {
    match step {
        WatchStep::Continue(_) => None,
        WatchStep::Done { outcome, .. } => Some(outcome),
    }
}

#[test]
fn watch_succeeds_on_first_matching_line() {
    let events = vec![line("starting", 10), line("server is ready now", 20), ReadEvent::Closed];
    let step = LogWatch::new("ready", 1000).run(&events);
    assert_eq!(step, WatchStep::Done { outcome: Ok(()), compared: 2 });
}

#[test]
fn watch_match_is_case_sensitive_and_unanchored() {
    let events = vec![line("READY", 0), line("xxreadyxx", 0)];
    let step = LogWatch::new("ready", 5).run(&events);
    assert_eq!(step, WatchStep::Done { outcome: Ok(()), compared: 2 });
    let upper_only = vec![line("READY", 0), ReadEvent::Closed];
    let step = LogWatch::new("ready", 5).run(&upper_only);
    assert_eq!(outcome_of(step), Some(Err(WaitError::EndOfStream)));
}

#[test]
fn watch_meets_end_of_stream_when_nothing_matched() {
    let events = vec![line("a", 1), line("b", 1), ReadEvent::Closed];
    let step = LogWatch::new("ready", 1000).run(&events);
    assert_eq!(step, WatchStep::Done { outcome: Err(WaitError::EndOfStream), compared: 2 });
}

#[test]
fn watch_on_empty_stream_meets_end_of_stream() {
    let events = vec![ReadEvent::Closed];
    let step = LogWatch::new("ready", 1000).run(&events);
    assert_eq!(step, WatchStep::Done { outcome: Err(WaitError::EndOfStream), compared: 0 });
}

#[test]
fn watch_expires_when_read_is_given_up() {
    let events = vec![line("a", 400), ReadEvent::TimedOut, line("ready", 0)];
    let step = LogWatch::new("ready", 1000).run(&events);
    assert_eq!(
        step,
        WatchStep::Done { outcome: Err(WaitError::WaitDurationExpired), compared: 1 }
    );
}

#[test]
fn watch_expires_when_line_comes_late() {
    let events = vec![line("a", 600), line("ready", 401)];
    let step = LogWatch::new("ready", 1000).run(&events);
    assert_eq!(
        step,
        WatchStep::Done { outcome: Err(WaitError::WaitDurationExpired), compared: 1 }
    );
}

#[test]
fn watch_accepts_line_that_uses_up_the_deadline() {
    let events = vec![line("a", 600), line("ready", 400)];
    let step = LogWatch::new("ready", 1000).run(&events);
    assert_eq!(step, WatchStep::Done { outcome: Ok(()), compared: 2 });
}

#[test]
fn watch_reports_transport_fault_with_cause() {
    let events = vec![line("a", 1), ReadEvent::Failed("broken pipe".to_string())];
    let step = LogWatch::new("ready", 1000).run(&events);
    assert_eq!(
        step,
        WatchStep::Done { outcome: Err(WaitError::Io("broken pipe".to_string())), compared: 1 }
    );
}

#[test]
fn watch_goes_on_and_takes_time_off_the_deadline() {
    let events = vec![line("a", 100), line("b", 250)];
    match LogWatch::new("ready", 1000).run(&events) {
        WatchStep::Continue(watch) => {
            assert_eq!(watch.timeout(), 650);
            assert_eq!(watch.compared(), 2);
        }
        WatchStep::Done { .. } => panic!("the watch must go on"),
    }
}

#[test]
fn watch_ignores_reads_after_the_decision() {
    let events = vec![line("ready", 0), ReadEvent::Failed("late".to_string())];
    let step = LogWatch::new("ready", 10).run(&events);
    assert_eq!(outcome_of(step), Some(Ok(())));
}

#[test]
fn watch_with_zero_deadline_takes_immediate_lines_only() {
    let step = LogWatch::new("ready", 0).run(&vec![line("ready", 0)]);
    assert_eq!(outcome_of(step), Some(Ok(())));
    let step = LogWatch::new("ready", 0).run(&vec![line("ready", 1)]);
    assert_eq!(outcome_of(step), Some(Err(WaitError::WaitDurationExpired)));
}

#[test]
fn watch_empty_marker_matches_any_line() {
    let step = LogWatch::new("", 10).run(&vec![line("", 0)]);
    assert_eq!(outcome_of(step), Some(Ok(())));
}

#[test]
fn watch_observe_steps_one_read_at_a_time() {
    let watch = LogWatch::new("ready", 100);
    assert_eq!(watch.timeout(), 100);
    assert_eq!(watch.compared(), 0);
    let watch = match watch.observe(&line("not yet", 30)) {
        WatchStep::Continue(watch) => watch,
        WatchStep::Done { .. } => panic!("nothing is decided yet"),
    };
    assert_eq!(watch.timeout(), 70);
    assert_eq!(watch.compared(), 1);
    assert_eq!(
        watch.observe(&ReadEvent::Closed),
        WatchStep::Done { outcome: Err(WaitError::EndOfStream), compared: 1 }
    );
}

#[test]
fn wait_for_message_finds_message_in_lines() {
    let lines = vec!["booting".to_string(), "database system is ready".to_string()];
    assert_eq!(WaitForMessage::wait_for_message(&lines, "is ready"), Ok(()));
}

#[test]
fn wait_for_message_fails_at_end_of_stream() {
    let lines = vec!["booting".to_string(), "still booting".to_string()];
    assert_eq!(
        WaitForMessage::wait_for_message(&lines, "is ready"),
        Err(WaitError::EndOfStream)
    );
    let none: Vec<String> = Vec::new();
    assert_eq!(WaitForMessage::wait_for_message(&none, "x"), Err(WaitError::EndOfStream));
}

#[test]
fn wait_error_messages() {
    assert_eq!(WaitError::EndOfStream.message(), "dockerust > end of stream error");
    assert_eq!(WaitError::WaitDurationExpired.message(), "dockerust > wait duration expired");
    assert_eq!(
        WaitError::Io("broken pipe".to_string()).message(),
        "dockerust > tokio-io error: broken pipe"
    );
}
