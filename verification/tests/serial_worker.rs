use rgbw_dashboard::commands::serial::SerialEvent;
use rgbw_dashboard::commands::serial_worker::{
    CommandPoll, ReadOutcome, SerialCommand, SerialWorker, WorkerAction, WorkerInput,
    SERIAL_BUFFER_MAX_BYTES, SERIAL_EMIT_INTERVAL_NS,
};

fn data(id: &str, text: &str) -> String {
    format!("data:{}:{}", id, text)
}

fn show(event: &SerialEvent) -> String {
    match event {
        SerialEvent::Data { connection_id, text } => data(connection_id, text),
        SerialEvent::Error { connection_id, message } => {
            format!("error:{}:{}", connection_id, message)
        }
        SerialEvent::Closed { connection_id } => format!("closed:{}", connection_id),
    }
}

fn shown(events: &[SerialEvent]) -> Vec<String> {
    events.iter().map(show).collect()
}

fn is_stop(action: &WorkerAction) -> bool {
    matches!(action, WorkerAction::Stop)
}

#[test]
fn limits() {
    assert_eq!(SERIAL_EMIT_INTERVAL_NS, 10_000_000);
    assert_eq!(SERIAL_BUFFER_MAX_BYTES, 4096);
}

#[test]
fn an_idle_turn_polls_reads_and_polls_again() {
    let mut worker = SerialWorker::new("c1".to_string(), 0);
    let step = worker.on_command(CommandPoll::Empty, true);
    assert!(step.events.is_empty());
    assert!(matches!(step.next, WorkerAction::Read));
    let step = worker.on_read(ReadOutcome::TimedOut, true, 50_000_000);
    assert!(step.events.is_empty());
    assert!(matches!(step.next, WorkerAction::PollCommand));
    assert!(worker.is_running());
}

#[test]
fn text_is_held_back_until_the_interval_has_passed() {
    let mut worker = SerialWorker::new("c1".to_string(), 1_000);
    let step = worker.on_read(ReadOutcome::Data(b"he".to_vec()), true, 1_000 + 9_999_999);
    assert!(step.events.is_empty());
    assert!(matches!(step.next, WorkerAction::PollCommand));
    let step = worker.on_read(ReadOutcome::Data(b"llo".to_vec()), true, 1_000 + 10_000_000);
    assert_eq!(shown(&step.events), vec![data("c1", "hello")]);
    // The interval starts anew with the emission.
    let step = worker.on_read(ReadOutcome::Data(b"!".to_vec()), true, 1_000 + 19_999_999);
    assert!(step.events.is_empty());
    let step = worker.on_read(ReadOutcome::TimedOut, true, 1_000 + 20_000_000);
    assert_eq!(shown(&step.events), vec![data("c1", "!")]);
}

#[test]
fn a_timeout_flushes_what_is_due() {
    let mut worker = SerialWorker::new("c1".to_string(), 0);
    assert!(worker.on_read(ReadOutcome::Data(b"abc".to_vec()), true, 5).events.is_empty());
    // Nothing is due yet.
    assert!(worker.on_read(ReadOutcome::TimedOut, true, 9_999_999).events.is_empty());
    let step = worker.on_read(ReadOutcome::TimedOut, true, 10_000_000);
    assert_eq!(shown(&step.events), vec![data("c1", "abc")]);
    // With nothing buffered, nothing is emitted however late it is.
    assert!(worker.on_read(ReadOutcome::TimedOut, true, 100_000_000).events.is_empty());
    assert!(worker.on_read(ReadOutcome::Data(Vec::new()), true, 200_000_000).events.is_empty());
}

#[test]
fn a_buffer_over_the_limit_is_emitted_at_once() {
    let mut worker = SerialWorker::new("c1".to_string(), 0);
    let step = worker.on_read(ReadOutcome::Data(vec![b'x'; 4096]), true, 1);
    assert!(step.events.is_empty(), "4096 bytes are not over the limit");
    let step = worker.on_read(ReadOutcome::Data(vec![b'y'; 1]), true, 2);
    assert_eq!(step.events.len(), 1);
    match &step.events[0] {
        SerialEvent::Data { connection_id, text } => {
            assert_eq!(connection_id, "c1");
            assert_eq!(text.len(), 4097);
            assert!(text.ends_with("xy"));
        }
        other => panic!("unexpected event {:?}", other),
    }
}

#[test]
fn bytes_that_are_no_utf8_are_replaced() {
    let mut worker = SerialWorker::new("c1".to_string(), 0);
    let step = worker.on_read(ReadOutcome::Data(vec![0xff, b'o', b'k']), true, 10_000_000);
    assert_eq!(shown(&step.events), vec![data("c1", "\u{fffd}ok")]);
    let step = worker.on_read(
        ReadOutcome::Data("grüß".as_bytes().to_vec()),
        true,
        20_000_000,
    );
    assert_eq!(shown(&step.events), vec![data("c1", "grüß")]);
}

#[test]
fn text_handed_in_is_buffered_like_text_read() {
    let mut worker = SerialWorker::new("c1".to_string(), 0);
    assert!(worker.on_text("a", true, 1).events.is_empty());
    let step = worker.on_text("b", true, 10_000_000);
    assert_eq!(shown(&step.events), vec![data("c1", "ab")]);
}

#[test]
fn a_flush_is_suppressed_once_the_session_is_dead() {
    let mut worker = SerialWorker::new("c1".to_string(), 0);
    let step = worker.on_read(ReadOutcome::Data(b"late".to_vec()), false, 10_000_000);
    assert!(step.events.is_empty());
    assert!(matches!(step.next, WorkerAction::PollCommand));
    // The next look at the channel finds the flag cleared and stops.
    let step = worker.on_command(CommandPoll::Empty, false);
    assert_eq!(shown(&step.events), vec!["closed:c1".to_string()]);
    assert!(is_stop(&step.next));
    assert!(!worker.is_running());
}

#[test]
fn a_write_is_handed_to_the_thread_and_its_failure_reported() {
    let mut worker = SerialWorker::new("c1".to_string(), 0);
    let step = worker.on_command(
        CommandPoll::Received(SerialCommand::Write(b"AT\r\n".to_vec())),
        true,
    );
    assert!(step.events.is_empty());
    match step.next {
        WorkerAction::Write(bytes) => assert_eq!(bytes, b"AT\r\n".to_vec()),
        _ => panic!("the write is to be performed"),
    }
    let step = worker.on_write_result(Err("broken pipe".to_string()), true);
    assert_eq!(shown(&step.events), vec!["error:c1:Write error: broken pipe".to_string()]);
    assert!(matches!(step.next, WorkerAction::Read));
    assert!(worker.is_running(), "a failed write does not end the worker");

    let step = worker.on_write_result(Ok(()), true);
    assert!(step.events.is_empty());
    assert!(matches!(step.next, WorkerAction::Read));
}

#[test]
fn shutdown_flushes_and_closes() {
    let mut worker = SerialWorker::new("c1".to_string(), 0);
    assert!(worker.on_read(ReadOutcome::Data(b"tail".to_vec()), true, 1).events.is_empty());
    let step = worker.on_command(CommandPoll::Received(SerialCommand::Shutdown), true);
    assert_eq!(shown(&step.events), vec![data("c1", "tail"), "closed:c1".to_string()]);
    assert!(is_stop(&step.next));
    assert!(!worker.is_running());
}

#[test]
fn shutdown_of_a_dead_session_only_closes() {
    let mut worker = SerialWorker::new("c1".to_string(), 0);
    assert!(worker.on_read(ReadOutcome::Data(b"tail".to_vec()), true, 1).events.is_empty());
    let step = worker.on_command(CommandPoll::Received(SerialCommand::Shutdown), false);
    assert_eq!(shown(&step.events), vec!["closed:c1".to_string()]);
    assert!(is_stop(&step.next));
}

#[test]
fn a_disconnected_channel_closes() {
    let mut worker = SerialWorker::new("c1".to_string(), 0);
    let step = worker.on_command(CommandPoll::Disconnected, true);
    assert_eq!(shown(&step.events), vec!["closed:c1".to_string()]);
    assert!(is_stop(&step.next));
}

#[test]
fn a_failed_read_is_reported_and_closes() {
    let mut worker = SerialWorker::new("c1".to_string(), 0);
    assert!(worker.on_read(ReadOutcome::Data(b"kept".to_vec()), true, 1).events.is_empty());
    let step = worker.on_read(ReadOutcome::Failed("device gone".to_string()), true, 2);
    assert_eq!(
        shown(&step.events),
        vec!["error:c1:Read error: device gone".to_string(), "closed:c1".to_string()]
    );
    assert!(is_stop(&step.next));
}

#[test]
fn a_cleared_flag_after_a_write_closes() {
    let mut worker = SerialWorker::new("c1".to_string(), 0);
    let step = worker.on_write_result(Ok(()), false);
    assert_eq!(shown(&step.events), vec!["closed:c1".to_string()]);
    assert!(is_stop(&step.next));
}

#[test]
fn writes_then_close_end_with_closed_and_nothing_after() {
    for n in [0usize, 1, 3, 10] {
        let mut worker = SerialWorker::new("c9".to_string(), 0);
        let mut emitted: Vec<String> = Vec::new();
        let mut now = 0u64;
        for i in 0..n {
            let step = worker.step(WorkerInput::Command(
                CommandPoll::Received(SerialCommand::Write(vec![i as u8])),
                true,
            ));
            emitted.extend(shown(&step.events));
            assert!(matches!(step.next, WorkerAction::Write(_)));
            let step = worker.step(WorkerInput::WriteResult(Ok(()), true));
            emitted.extend(shown(&step.events));
            assert!(matches!(step.next, WorkerAction::Read));
            now += 3_000_000;
            let step = worker.step(WorkerInput::Read(
                ReadOutcome::Data(b"ok\n".to_vec()),
                true,
                now,
            ));
            emitted.extend(shown(&step.events));
            assert!(matches!(step.next, WorkerAction::PollCommand));
        }
        // Close: the flag is cleared, then shutdown is sent.
        let step = worker.step(WorkerInput::Command(
            CommandPoll::Received(SerialCommand::Shutdown),
            false,
        ));
        emitted.extend(shown(&step.events));
        assert!(is_stop(&step.next));
        assert_eq!(emitted.last().map(String::as_str), Some("closed:c9"));
        assert_eq!(emitted.iter().filter(|e| e.starts_with("closed:")).count(), 1);

        // Whatever is handed to the worker afterwards, it stays silent.
        let after = [
            worker.step(WorkerInput::Command(CommandPoll::Empty, true)),
            worker.step(WorkerInput::Command(
                CommandPoll::Received(SerialCommand::Shutdown),
                true,
            )),
            worker.step(WorkerInput::WriteResult(Err("late".to_string()), true)),
            worker.step(WorkerInput::Read(ReadOutcome::Data(b"late".to_vec()), true, now + 1)),
            worker.step(WorkerInput::Read(ReadOutcome::Failed("late".to_string()), true, now)),
        ];
        for step in after.iter() {
            assert!(step.events.is_empty());
            assert!(is_stop(&step.next));
        }
        assert!(!worker.is_running());
    }
}

#[test]
fn a_clock_that_went_back_counts_as_no_time_passed() {
    let mut worker = SerialWorker::new("c1".to_string(), 50_000_000);
    let step = worker.on_read(ReadOutcome::Data(b"x".to_vec()), true, 10);
    assert!(step.events.is_empty());
}

#[test]
fn an_empty_buffer_is_never_emitted() {
    let mut worker = SerialWorker::new("c1".to_string(), 0);
    let step = worker.on_text("", true, 50_000_000);
    assert!(step.events.is_empty());
    assert!(matches!(step.next, WorkerAction::PollCommand));
    // The interval was not started anew by the turn that emitted nothing.
    let step = worker.on_text("x", true, 50_000_001);
    assert_eq!(shown(&step.events), vec![data("c1", "x")]);
}
