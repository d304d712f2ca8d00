//! The per-session worker as a state machine.
//!
//! The application's thread owns the transport and the command channel. Each
//! turn of its loop it does what the last step asked for (poll the channel,
//! write, read), and hands what came of it, with the liveness flag and the
//! clock as it just read them, to the next step. The step says which events to
//! emit and what to do next. The view of a step is given by the spec functions
//! of `WorkerView`; the laws at the end speak of whole runs.

use crate::commands::serial::{SerialEvent, SerialEventView};
use crate::text::{concat2, decode_lossy, utf8_lossy};
use vstd::prelude::*;

verus! {

/// The time after which buffered text is emitted, in nanoseconds (10 ms).
pub const SERIAL_EMIT_INTERVAL_NS: u64 = 10_000_000;

/// The size of buffered text, in bytes, beyond which it is emitted at once.
pub const SERIAL_BUFFER_MAX_BYTES: usize = 4096;

/// What is sent to a worker.
#[derive(Debug)]
pub enum SerialCommand {
    Write(Vec<u8>),
    Shutdown,
}

/// What a non-blocking look at the command channel gave.
#[derive(Debug)]
pub enum CommandPoll {
    Received(SerialCommand),
    Empty,
    Disconnected,
}

/// What a read from the transport gave. A timeout is the idle case, no failure.
#[derive(Debug)]
pub enum ReadOutcome {
    Data(Vec<u8>),
    TimedOut,
    Failed(String),
}

/// What the worker's thread does next.
#[derive(Debug)]
pub enum WorkerAction {
    PollCommand,
    Write(Vec<u8>),
    Read,
    Stop,
}

/// The decisions of one session's worker: the text read and not yet emitted,
/// and when text was last emitted (nanoseconds on the thread's monotonic clock).
#[derive(Debug)]
pub struct SerialWorker {
    connection_id: String,
    pending: String,
    last_emit: u64,
    running: bool,
}

/// A worker with its texts as sequences of characters.
pub struct WorkerView {
    pub connection_id: Seq<char>,
    pub pending: Seq<char>,
    pub last_emit: u64,
    pub running: bool,
}

/// The events to emit, in order, and what to do next.
#[derive(Debug)]
pub struct WorkerStep {
    pub events: Vec<SerialEvent>,
    pub next: WorkerAction,
}

/// What a step does: the worker after it, the events it emits, and what the
/// thread is to do next.
pub struct StepView {
    pub worker: WorkerView,
    pub events: Seq<SerialEventView>,
    pub next: WorkerAction,
}

/// The views of the events of `events`.
pub open spec fn event_views(events: Seq<SerialEvent>) -> Seq<SerialEventView> {
    events.map_values(|e: SerialEvent| e@)
}

impl WorkerView {
    /// The event that says the session has ended.
    pub open spec fn closed_event(self) -> SerialEventView {
        SerialEventView::Closed { connection_id: self.connection_id }
    }

    /// The event that carries the buffered text.
    pub open spec fn data_event(self) -> SerialEventView {
        SerialEventView::Data { connection_id: self.connection_id, text: self.pending }
    }

    /// The event that reports a failure.
    pub open spec fn error_event(self, message: Seq<char>) -> SerialEventView {
        SerialEventView::Error { connection_id: self.connection_id, message }
    }

    /// The worker with `pending` as its buffered text.
    pub open spec fn with_pending(self, pending: Seq<char>) -> WorkerView {
        WorkerView { pending, ..self }
    }

    /// The time since text was last emitted.
    pub open spec fn elapsed(self, now: u64) -> int {
        if now >= self.last_emit {
            now - self.last_emit
        } else {
            0
        }
    }

    /// The time since text was last emitted has reached the interval.
    pub open spec fn interval_passed(self, now: u64) -> bool {
        self.elapsed(now) >= SERIAL_EMIT_INTERVAL_NS
    }

    /// Nothing happens to a worker that has stopped.
    pub open spec fn idle(self) -> StepView {
        StepView { worker: self, events: Seq::empty(), next: WorkerAction::Stop }
    }

    /// The worker goes on with `next`.
    pub open spec fn proceed(self, events: Seq<SerialEventView>, next: WorkerAction) -> StepView {
        StepView { worker: self, events, next }
    }

    /// The worker stops: after `events`, `Closed` is its last event.
    pub open spec fn stop(self, events: Seq<SerialEventView>) -> StepView {
        StepView {
            worker: WorkerView { running: false, ..self },
            events: events.push(self.closed_event()),
            next: WorkerAction::Stop,
        }
    }

    /// The buffered text is due: it is emitted if the session is still alive, and
    /// kept silently if not. Either way the interval starts anew.
    pub open spec fn flush(self, alive: bool, now: u64) -> StepView {
        if alive {
            WorkerView { pending: Seq::empty(), last_emit: now, ..self }.proceed(
                seq![self.data_event()],
                WorkerAction::PollCommand,
            )
        } else {
            WorkerView { last_emit: now, ..self }.proceed(Seq::empty(), WorkerAction::PollCommand)
        }
    }

    /// The step after a look at the command channel.
    pub open spec fn on_command(self, poll: CommandPoll, alive: bool) -> StepView {
        if !self.running {
            self.idle()
        } else {
            match poll {
                CommandPoll::Received(SerialCommand::Shutdown) => if self.pending.len() > 0
                    && alive {
                    self.with_pending(Seq::empty()).stop(seq![self.data_event()])
                } else {
                    self.stop(Seq::empty())
                },
                CommandPoll::Received(SerialCommand::Write(data)) => self.proceed(
                    Seq::empty(),
                    WorkerAction::Write(data),
                ),
                CommandPoll::Empty => if alive {
                    self.proceed(Seq::empty(), WorkerAction::Read)
                } else {
                    self.stop(Seq::empty())
                },
                CommandPoll::Disconnected => self.stop(Seq::empty()),
            }
        }
    }

    /// The step after a write to the transport. A failed write is reported and
    /// the worker goes on.
    pub open spec fn on_write_result(self, result: Result<(), String>, alive: bool) -> StepView {
        if !self.running {
            self.idle()
        } else {
            let events = match result {
                Ok(_) => Seq::empty(),
                Err(e) => seq![self.error_event("Write error: "@ + e@)],
            };
            if alive {
                self.proceed(events, WorkerAction::Read)
            } else {
                self.stop(events)
            }
        }
    }

    /// There is text in the buffer, and it has grown over the limit or the
    /// interval has passed.
    pub open spec fn is_due(self, now: u64) -> bool {
        self.pending.len() > 0 && (vstd::utf8::encode_utf8(self.pending).len()
            > SERIAL_BUFFER_MAX_BYTES || self.interval_passed(now))
    }

    /// The step after `text` was read: it is buffered, and the buffer is emitted
    /// if it is due.
    pub open spec fn on_text(self, text: Seq<char>, alive: bool, now: u64) -> StepView {
        if !self.running {
            self.idle()
        } else {
            let fed = self.with_pending(self.pending + text);
            if fed.is_due(now) {
                fed.flush(alive, now)
            } else {
                fed.proceed(Seq::empty(), WorkerAction::PollCommand)
            }
        }
    }

    /// The step after a read from the transport. A failed read ends the worker.
    pub open spec fn on_read(self, outcome: ReadOutcome, alive: bool, now: u64) -> StepView {
        if !self.running {
            self.idle()
        } else {
            match outcome {
                ReadOutcome::Failed(e) => self.stop(seq![self.error_event("Read error: "@ + e@)]),
                ReadOutcome::Data(bytes) if bytes@.len() > 0 => self.on_text(
                    utf8_lossy(bytes@),
                    alive,
                    now,
                ),
                _ => if self.pending.len() > 0 && self.interval_passed(now) {
                    self.flush(alive, now)
                } else {
                    self.proceed(Seq::empty(), WorkerAction::PollCommand)
                },
            }
        }
    }
}

impl View for SerialWorker {
    type V = WorkerView;

    closed spec fn view(&self) -> WorkerView {
        WorkerView {
            connection_id: self.connection_id@,
            pending: self.pending@,
            last_emit: self.last_emit,
            running: self.running,
        }
    }
}

/// `step` is what the model `expected` says.
pub open spec fn step_is(step: WorkerStep, worker: SerialWorker, expected: StepView) -> bool {
    &&& worker@ == expected.worker
    &&& event_views(step.events@) == expected.events
    &&& step.next == expected.next
}

impl SerialWorker {
    /// A worker for the session `connection_id`, started at `now`, about to look
    /// at its command channel.
    pub fn new(connection_id: String, now: u64) -> (worker: Self)
        ensures
            worker@ == (WorkerView {
                connection_id: connection_id@,
                pending: Seq::empty(),
                last_emit: now,
                running: true,
            }),
    {
        SerialWorker { connection_id, pending: String::new(), last_emit: now, running: true }
    }

    /// Whether the worker has not stopped yet.
    pub fn is_running(&self) -> (b: bool)
        ensures
            b == self@.running,
    {
        self.running
    }

    fn closed_event(&self) -> (e: SerialEvent)
        ensures
            e@ == self@.closed_event(),
    {
        SerialEvent::Closed { connection_id: self.connection_id.clone() }
    }

    fn error_event(&self, prefix: &str, cause: &str) -> (e: SerialEvent)
        ensures
            e@ == self@.error_event(prefix@ + cause@),
    {
        SerialEvent::Error {
            connection_id: self.connection_id.clone(),
            message: concat2(prefix, cause),
        }
    }

    /// Takes the buffered text out, as a `Data` event.
    fn take_pending(&mut self) -> (e: SerialEvent)
        ensures
            e@ == old(self)@.data_event(),
            final(self)@ == old(self)@.with_pending(Seq::empty()),
    {
        let mut text = String::new();
        std::mem::swap(&mut self.pending, &mut text);
        SerialEvent::Data { connection_id: self.connection_id.clone(), text }
    }

    fn idle(&self) -> (step: WorkerStep)
        ensures
            step_is(step, *self, self@.idle()),
    {
        let step = WorkerStep { events: Vec::new(), next: WorkerAction::Stop };
        assert(event_views(step.events@) =~= Seq::empty());
        step
    }

    fn proceed(&self, events: Vec<SerialEvent>, next: WorkerAction) -> (step: WorkerStep)
        ensures
            step_is(step, *self, self@.proceed(event_views(events@), next)),
    {
        WorkerStep { events, next }
    }

    fn stop(&mut self, events: Vec<SerialEvent>) -> (step: WorkerStep)
        ensures
            step_is(step, *final(self), old(self)@.stop(event_views(events@))),
    {
        let mut events = events;
        let ghost before = events@;
        events.push(self.closed_event());
        self.running = false;
        assert(event_views(events@) =~= event_views(before).push(old(self)@.closed_event()));
        WorkerStep { events, next: WorkerAction::Stop }
    }

    fn flush(&mut self, alive: bool, now: u64) -> (step: WorkerStep)
        ensures
            step_is(step, *final(self), old(self)@.flush(alive, now)),
    {
        let mut events: Vec<SerialEvent> = Vec::new();
        if alive {
            let e = self.take_pending();
            events.push(e);
            assert(event_views(events@) =~= seq![old(self)@.data_event()]);
        } else {
            assert(event_views(events@) =~= Seq::empty());
        }
        self.last_emit = now;
        WorkerStep { events, next: WorkerAction::PollCommand }
    }

    fn interval_passed(&self, now: u64) -> (b: bool)
        ensures
            b == self@.interval_passed(now),
    {
        now >= self.last_emit && now - self.last_emit >= SERIAL_EMIT_INTERVAL_NS
    }

    /// The step after a non-blocking look at the command channel gave `poll`,
    /// with the liveness flag as it reads now.
    pub fn on_command(&mut self, poll: CommandPoll, alive: bool) -> (step: WorkerStep)
        ensures
            step_is(step, *final(self), old(self)@.on_command(poll, alive)),
    {
        if !self.running {
            return self.idle();
        }
        match poll {
            CommandPoll::Received(SerialCommand::Shutdown) => {
                let mut events: Vec<SerialEvent> = Vec::new();
                if !self.pending.as_str().is_empty() && alive {
                    let e = self.take_pending();
                    events.push(e);
                    assert(event_views(events@) =~= seq![old(self)@.data_event()]);
                } else {
                    assert(event_views(events@) =~= Seq::empty());
                }
                self.stop(events)
            },
            CommandPoll::Received(SerialCommand::Write(data)) => {
                let events: Vec<SerialEvent> = Vec::new();
                assert(event_views(events@) =~= Seq::empty());
                self.proceed(events, WorkerAction::Write(data))
            },
            CommandPoll::Empty => {
                let events: Vec<SerialEvent> = Vec::new();
                assert(event_views(events@) =~= Seq::empty());
                if alive {
                    self.proceed(events, WorkerAction::Read)
                } else {
                    self.stop(events)
                }
            },
            CommandPoll::Disconnected => {
                let events: Vec<SerialEvent> = Vec::new();
                assert(event_views(events@) =~= Seq::empty());
                self.stop(events)
            },
        }
    }

    /// The step after the write that the last step asked for ended in `result`
    /// (the error's text, where it failed).
    pub fn on_write_result(&mut self, result: Result<(), String>, alive: bool) -> (step: WorkerStep)
        ensures
            step_is(step, *final(self), old(self)@.on_write_result(result, alive)),
    {
        if !self.running {
            return self.idle();
        }
        let mut events: Vec<SerialEvent> = Vec::new();
        match &result {
            Ok(_) => {
                assert(event_views(events@) =~= Seq::empty());
            },
            Err(e) => {
                events.push(self.error_event("Write error: ", e.as_str()));
                assert(event_views(events@) =~= seq![
                    self@.error_event("Write error: "@ + e@),
                ]);
            },
        }
        if alive {
            self.proceed(events, WorkerAction::Read)
        } else {
            self.stop(events)
        }
    }

    /// The step after the read that the last step asked for gave the text `text`,
    /// with the liveness flag and the clock as they read now.
    pub fn on_text(&mut self, text: &str, alive: bool, now: u64) -> (step: WorkerStep)
        ensures
            step_is(step, *final(self), old(self)@.on_text(text@, alive, now)),
    {
        if !self.running {
            return self.idle();
        }
        self.pending.append(text);
        if !self.pending.as_str().is_empty() && (self.pending.as_str().as_bytes().len()
            > SERIAL_BUFFER_MAX_BYTES || self.interval_passed(now)) {
            self.flush(alive, now)
        } else {
            let events: Vec<SerialEvent> = Vec::new();
            assert(event_views(events@) =~= Seq::empty());
            self.proceed(events, WorkerAction::PollCommand)
        }
    }

    /// The step after the read that the last step asked for gave `outcome`, with
    /// the liveness flag and the clock as they read now. The bytes read are
    /// decoded as UTF-8, with U+FFFD in the place of what is none.
    pub fn on_read(&mut self, outcome: ReadOutcome, alive: bool, now: u64) -> (step: WorkerStep)
        ensures
            step_is(step, *final(self), old(self)@.on_read(outcome, alive, now)),
    {
        if !self.running {
            return self.idle();
        }
        match &outcome {
            ReadOutcome::Failed(e) => {
                let mut events: Vec<SerialEvent> = Vec::new();
                events.push(self.error_event("Read error: ", e.as_str()));
                assert(event_views(events@) =~= seq![self@.error_event("Read error: "@ + e@)]);
                self.stop(events)
            },
            ReadOutcome::Data(bytes) if bytes.len() > 0 => {
                let text = decode_lossy(bytes);
                self.on_text(text.as_str(), alive, now)
            },
            _ => {
                if !self.pending.as_str().is_empty() && self.interval_passed(now) {
                    self.flush(alive, now)
                } else {
                    let events: Vec<SerialEvent> = Vec::new();
                    assert(event_views(events@) =~= Seq::empty());
                    self.proceed(events, WorkerAction::PollCommand)
                }
            },
        }
    }
}

/// What the worker's thread observed in doing what the last step asked for, with
/// the liveness flag (and, after a read, the clock) as it read them then.
#[derive(Debug)]
pub enum WorkerInput {
    Command(CommandPoll, bool),
    WriteResult(Result<(), String>, bool),
    Read(ReadOutcome, bool, u64),
}

impl WorkerView {
    /// The step on whichever observation `input` holds.
    pub open spec fn step(self, input: WorkerInput) -> StepView {
        match input {
            WorkerInput::Command(poll, alive) => self.on_command(poll, alive),
            WorkerInput::WriteResult(result, alive) => self.on_write_result(result, alive),
            WorkerInput::Read(outcome, alive, now) => self.on_read(outcome, alive, now),
        }
    }

    /// The worker after the steps on `inputs`, and all the events they emitted.
    pub open spec fn run(self, inputs: Seq<WorkerInput>) -> (WorkerView, Seq<SerialEventView>)
        decreases inputs.len(),
    {
        if inputs.len() == 0 {
            (self, Seq::empty())
        } else {
            let (worker, events) = self.run(inputs.drop_last());
            let last = worker.step(inputs.last());
            (last.worker, events + last.events)
        }
    }
}

/// The session that an event is about.
pub open spec fn event_session(event: SerialEventView) -> Seq<char> {
    match event {
        SerialEventView::Data { connection_id, .. } => connection_id,
        SerialEventView::Error { connection_id, .. } => connection_id,
        SerialEventView::Closed { connection_id } => connection_id,
    }
}

impl SerialWorker {
    /// The step on whichever observation `input` holds.
    pub fn step(&mut self, input: WorkerInput) -> (step: WorkerStep)
        ensures
            step_is(step, *final(self), old(self)@.step(input)),
    {
        match input {
            WorkerInput::Command(poll, alive) => self.on_command(poll, alive),
            WorkerInput::WriteResult(result, alive) => self.on_write_result(result, alive),
            WorkerInput::Read(outcome, alive, now) => self.on_read(outcome, alive, now),
        }
    }
}

/// A step asks the thread to stop exactly when it leaves the worker stopped; a
/// step that stops a running worker emits `Closed` last, and no other step emits
/// `Closed` at all. Every event is about the worker's own session.
pub proof fn lemma_step_closes_once(worker: WorkerView, input: WorkerInput)
    ensures
        worker.step(input).next is Stop <==> !worker.step(input).worker.running,
        worker.step(input).worker.connection_id == worker.connection_id,
        !worker.running ==> worker.step(input) == worker.idle(),
        worker.running && !worker.step(input).worker.running ==> worker.step(input).events.len() > 0
            && worker.step(input).events.last() == worker.closed_event(),
        forall|i: int|
            0 <= i < worker.step(input).events.len() && (#[trigger] worker.step(
                input,
            ).events[i]) is Closed ==> worker.running && !worker.step(input).worker.running && i
                == worker.step(input).events.len() - 1,
        forall|i: int|
            0 <= i < worker.step(input).events.len() ==> event_session(
                #[trigger] worker.step(input).events[i],
            ) == worker.connection_id,
{
}

/// A shutdown command, a disconnected channel, a failed read, and a liveness flag
/// found cleared after the command was handled each stop a running worker.
pub proof fn lemma_stop_causes(worker: WorkerView, alive: bool, now: u64, cause: String)
    requires
        worker.running,
    ensures
        !worker.on_command(
            CommandPoll::Received(SerialCommand::Shutdown),
            alive,
        ).worker.running,
        !worker.on_command(CommandPoll::Disconnected, alive).worker.running,
        !worker.on_command(CommandPoll::Empty, false).worker.running,
        !worker.on_write_result(Ok(()), false).worker.running,
        !worker.on_write_result(Err(cause), false).worker.running,
        !worker.on_read(ReadOutcome::Failed(cause), alive, now).worker.running,
        worker.on_write_result(Err(cause), true).worker.running,
{
}

/// A worker that has stopped emits nothing, whatever is handed to it.
pub proof fn lemma_stopped_worker_is_silent(worker: WorkerView, inputs: Seq<WorkerInput>)
    requires
        !worker.running,
    ensures
        worker.run(inputs) == (worker, Seq::<SerialEventView>::empty()),
    decreases inputs.len(),
{
    if inputs.len() > 0 {
        lemma_stopped_worker_is_silent(worker, inputs.drop_last());
        assert(worker.run(inputs).1 =~= Seq::<SerialEventView>::empty());
    }
}

/// Over any run of a worker, `Closed` is emitted at most once and after every
/// other event, it is emitted exactly if the run left the worker stopped, and
/// every event is about the worker's own session.
pub proof fn lemma_closed_is_last(worker: WorkerView, inputs: Seq<WorkerInput>)
    requires
        worker.running,
    ensures
        worker.run(inputs).0.connection_id == worker.connection_id,
        forall|i: int|
            0 <= i < worker.run(inputs).1.len() && (#[trigger] worker.run(inputs).1[i]) is Closed
                ==> i == worker.run(inputs).1.len() - 1,
        !worker.run(inputs).0.running <==> worker.run(inputs).1.len() > 0 && worker.run(
            inputs,
        ).1.last() == worker.closed_event(),
        forall|i: int|
            0 <= i < worker.run(inputs).1.len() ==> event_session(
                #[trigger] worker.run(inputs).1[i],
            ) == worker.connection_id,
    decreases inputs.len(),
{
    if inputs.len() > 0 {
        let (before, events) = worker.run(inputs.drop_last());
        let last = before.step(inputs.last());
        lemma_closed_is_last(worker, inputs.drop_last());
        lemma_step_closes_once(before, inputs.last());
        let all = worker.run(inputs).1;
        assert(all == events + last.events);
        if !before.running {
            assert(all =~= events);
        } else {
            assert forall|i: int| 0 <= i < all.len() && (#[trigger] all[i]) is Closed implies i
                == all.len() - 1 by {
                if i < events.len() {
                    assert(all[i] == events[i]);
                } else {
                    assert(all[i] == last.events[i - events.len()]);
                }
            }
            assert forall|i: int| 0 <= i < all.len() implies event_session(#[trigger] all[i])
                == worker.connection_id by {
                if i < events.len() {
                    assert(all[i] == events[i]);
                } else {
                    assert(all[i] == last.events[i - events.len()]);
                }
            }
            if last.events.len() > 0 {
                assert(all.last() == last.events.last());
            } else {
                assert(all =~= events);
            }
        }
    }
}

/// While the session is alive, what a step on text that was read leaves in the
/// buffer takes no more than the limit: what is over it is emitted at once.
pub proof fn lemma_buffer_bounded(worker: WorkerView, text: Seq<char>, now: u64)
    requires
        worker.running,
    ensures
        vstd::utf8::encode_utf8(worker.on_text(text, true, now).worker.pending).len()
            <= SERIAL_BUFFER_MAX_BYTES,
        worker.on_text(text, true, now).events.len() <= 1,
        worker.on_text(text, true, now).events.len() == 1 ==> worker.on_text(
            text,
            true,
            now,
        ).events[0] == (SerialEventView::Data {
            connection_id: worker.connection_id,
            text: worker.pending + text,
        }),
{
    assert(vstd::utf8::encode_utf8(Seq::<char>::empty()).len() == 0) by {
        assert(vstd::utf8::is_ascii_chars(Seq::<char>::empty()));
        vstd::utf8::is_ascii_chars_encode_utf8(Seq::<char>::empty());
    }
}

/// No `Data` event is empty: text is emitted only where there is some.
pub proof fn lemma_data_is_never_empty(
    worker: WorkerView,
    input: WorkerInput,
    text: Seq<char>,
    now: u64,
)
    ensures
        forall|i: int|
            0 <= i < worker.step(input).events.len() ==> (
            #[trigger] worker.step(input).events[i] matches SerialEventView::Data { text, .. }
                ==> text.len() > 0),
        forall|i: int, alive: bool|
            0 <= i < worker.on_text(text, alive, now).events.len() ==> (#[trigger] worker.on_text(
                text,
                alive,
                now,
            ).events[i] matches SerialEventView::Data { text, .. } ==> text.len() > 0),
{
}

} // verus!
