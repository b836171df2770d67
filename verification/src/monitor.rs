//! The monitoring session as a state machine.
//!
//! A `Monitor` decides; a driver acts. Each step hands the driver a list of
//! actions to perform in order. At most the last of them is a request: an
//! operation whose outcome the driver hands back as the next `Event`. A list
//! without a request ends the driver's work.
//!
//! One round of a running session polls the signal queue, acts on the signal
//! taken, and makes one bounded read. A stop signal, or a read that fails for
//! another reason than a timeout, ends the session; both ends run the same
//! cleanup, once.

use crate::decode::{extract_from_bytes, keeps_valid_text, lossy_text};
use crate::frame::first_frame;
use crate::signal::{ControlSignal, SignalQueue};
use vstd::prelude::*;

verus! {

/// How long one read may wait for bytes, in milliseconds.
pub const READ_TIMEOUT_MILLIS: u64 = 10;

/// How many bytes one read may return.
pub const READ_CAPACITY: usize = 1000;

/// The collaborator's event on which a state is reported.
pub const STATE_EVENT: &'static str = "portState";

/// The collaborator's event on which a data event is reported.
pub const DATA_EVENT: &'static str = "alertData";

/// The bytes of the probe command, `*#ESD_OFF#` followed by CR and LF.
pub open spec fn probe_frame() -> Seq<u8> {
    seq![42u8, 35u8, 69u8, 83u8, 68u8, 95u8, 79u8, 70u8, 70u8, 35u8, 13u8, 10u8]
}

/// The probe command as it is written to the device.
pub fn probe_command() -> (bytes: Vec<u8>)
    ensures
        bytes@ == probe_frame(),
{
    let bytes = vec![42u8, 35u8, 69u8, 83u8, 68u8, 95u8, 79u8, 70u8, 70u8, 35u8, 13u8, 10u8];
    assert(bytes@ =~= probe_frame());
    bytes
}

/// The state of a session as the collaborator sees it.
#[derive(Clone, Copy, Debug, PartialEq, Eq, Structural)]
pub enum SessionState {
    Connected,
    Disconnected,
    Busy,
}

impl SessionState {
    /// The word by which the collaborator knows this state.
    pub open spec fn spec_label(self) -> Seq<char> {
        match self {
            SessionState::Connected => "Connected"@,
            SessionState::Disconnected => "Disconnected"@,
            SessionState::Busy => "Port Busy"@,
        }
    }

    /// The word by which the collaborator knows this state.
    pub fn label(self) -> (word: &'static str)
        ensures
            word@ == self.spec_label(),
    {
        match self {
            SessionState::Connected => "Connected",
            SessionState::Disconnected => "Disconnected",
            SessionState::Busy => "Port Busy",
        }
    }
}

/// What a log line is about.
#[derive(Clone, Copy, Debug, PartialEq, Eq, Structural)]
pub enum Diagnostic {
    /// The device could not be opened.
    OpenFailed,
    /// The probe command could not be written.
    WriteFailed,
    /// The input buffer could not be cleared.
    ClearFailed,
    /// A read failed for another reason than a timeout.
    ReadFailed,
    /// The bytes read hold no frame.
    NoMatch,
}

impl Diagnostic {
    /// Whether this reports a failure rather than an ordinary course.
    pub open spec fn spec_is_error(self) -> bool {
        self != Diagnostic::NoMatch
    }

    /// Whether this reports a failure rather than an ordinary course.
    pub fn is_error(self) -> (error: bool)
        ensures
            error == self.spec_is_error(),
    {
        match self {
            Diagnostic::NoMatch => false,
            _ => true,
        }
    }
}

/// How one read of the device ended.
#[derive(Clone, Debug, PartialEq, Eq)]
pub enum ReadOutcome {
    /// These bytes arrived.
    Data(Vec<u8>),
    /// Nothing arrived in time.
    TimedOut,
    /// The read failed.
    Failed,
}

/// The outcome of a request, handed back by the driver.
#[derive(Clone, Debug, PartialEq, Eq)]
pub enum Event {
    /// The device was opened (`true`) or could not be claimed.
    Opened(bool),
    /// The signal queue was polled and gave this.
    Signal(Option<ControlSignal>),
    /// The probe command was written (`true`) or the write failed.
    Written(bool),
    /// The input buffer was cleared (`true`) or clearing failed.
    Cleared(bool),
    /// A read ended.
    Read(ReadOutcome),
}

/// One thing for the driver to do.
#[derive(Clone, Debug, PartialEq, Eq)]
pub enum Action {
    /// Request: open the device; answered by `Event::Opened`.
    Open { name: String, baud_rate: u32, timeout_millis: u64 },
    /// Request: poll the signal queue; answered by `Event::Signal`.
    Poll,
    /// Request: write these bytes to the device; answered by `Event::Written`.
    Write(Vec<u8>),
    /// Request: discard the device's unread input; answered by `Event::Cleared`.
    ClearInput,
    /// Request: read at most `capacity` bytes; answered by `Event::Read`.
    Read { capacity: usize },
    /// Bridge the collaborator's trigger for this signal into the queue.
    Listen(ControlSignal),
    /// Remove the bridge for this signal, if it is still there.
    Unlisten(ControlSignal),
    /// Tell the collaborator the session's new state.
    Notify(SessionState),
    /// Tell the collaborator of a name received, or of a command sent (empty).
    Data(String),
    /// Ask the collaborator to bring its surface to the foreground.
    RequestAttention,
    /// Write a log line.
    Log(Diagnostic),
    /// Release the device handle and close the signal queue.
    Release,
}

/// An `Action` with its text and bytes as sequences.
pub ghost enum ActionView {
    Open { name: Seq<char>, baud_rate: u32, timeout_millis: u64 },
    Poll,
    Write(Seq<u8>),
    ClearInput,
    Read { capacity: usize },
    Listen(ControlSignal),
    Unlisten(ControlSignal),
    Notify(SessionState),
    Data(Seq<char>),
    RequestAttention,
    Log(Diagnostic),
    Release,
}

impl ActionView {
    /// Whether the driver owes an event for this action.
    pub open spec fn is_request(self) -> bool {
        self is Open || self is Poll || self is Write || self is ClearInput || self is Read
    }

    /// Whether this action touches the device handle.
    pub open spec fn is_device_io(self) -> bool {
        self is Write || self is ClearInput || self is Read
    }
}

impl View for Action {
    type V = ActionView;

    open spec fn view(&self) -> ActionView {
        match *self {
            Action::Open { name, baud_rate, timeout_millis } => ActionView::Open {
                name: name@,
                baud_rate,
                timeout_millis,
            },
            Action::Poll => ActionView::Poll,
            Action::Write(bytes) => ActionView::Write(bytes@),
            Action::ClearInput => ActionView::ClearInput,
            Action::Read { capacity } => ActionView::Read { capacity },
            Action::Listen(signal) => ActionView::Listen(signal),
            Action::Unlisten(signal) => ActionView::Unlisten(signal),
            Action::Notify(state) => ActionView::Notify(state),
            Action::Data(text) => ActionView::Data(text@),
            Action::RequestAttention => ActionView::RequestAttention,
            Action::Log(about) => ActionView::Log(about),
            Action::Release => ActionView::Release,
        }
    }
}

impl Action {
    /// Whether the driver owes an event for this action.
    pub fn is_request(&self) -> (request: bool)
        ensures
            request == self@.is_request(),
    {
        match self {
            Action::Open { .. } => true,
            Action::Poll => true,
            Action::Write(_) => true,
            Action::ClearInput => true,
            Action::Read { .. } => true,
            _ => false,
        }
    }
}

/// The views of `actions`, in order.
pub open spec fn action_views(actions: Seq<Action>) -> Seq<ActionView> {
    actions.map_values(|action: Action| action@)
}

/// Where a session stands: which outcome the monitor waits for, or how the
/// session ended.
#[derive(Clone, Copy, Debug, PartialEq, Eq, Structural)]
pub enum Phase {
    /// The open request is out.
    Opening,
    /// Running: the poll request is out.
    Polling,
    /// Running: a send-command signal was taken, the write request is out.
    Writing,
    /// Running: a stop signal was taken, the clear request is out.
    Clearing,
    /// Running: the read request is out.
    Reading,
    /// The session was opened and has ended.
    Exited,
    /// The device could not be opened; no session began.
    Unavailable,
}

impl Phase {
    /// Whether the worker loop runs in this phase.
    pub open spec fn spec_is_running(self) -> bool {
        self == Phase::Polling || self == Phase::Writing || self == Phase::Clearing || self
            == Phase::Reading
    }

    /// Whether the worker loop runs in this phase.
    pub fn is_running(self) -> (running: bool)
        ensures
            running == self.spec_is_running(),
    {
        match self {
            Phase::Polling | Phase::Writing | Phase::Clearing | Phase::Reading => true,
            _ => false,
        }
    }

    /// The state of the session as the collaborator has been told.
    pub open spec fn spec_session_state(self) -> SessionState {
        match self {
            Phase::Opening => SessionState::Disconnected,
            Phase::Polling => SessionState::Connected,
            Phase::Writing => SessionState::Connected,
            Phase::Clearing => SessionState::Connected,
            Phase::Reading => SessionState::Connected,
            Phase::Exited => SessionState::Disconnected,
            Phase::Unavailable => SessionState::Busy,
        }
    }

    /// The state of the session as the collaborator has been told.
    pub fn session_state(self) -> (state: SessionState)
        ensures
            state == self.spec_session_state(),
    {
        match self {
            Phase::Opening => SessionState::Disconnected,
            Phase::Polling => SessionState::Connected,
            Phase::Writing => SessionState::Connected,
            Phase::Clearing => SessionState::Connected,
            Phase::Reading => SessionState::Connected,
            Phase::Exited => SessionState::Disconnected,
            Phase::Unavailable => SessionState::Busy,
        }
    }
}

/// What is done first once the device is open.
pub open spec fn entry_actions() -> Seq<ActionView> {
    seq![
        ActionView::Listen(ControlSignal::Stop),
        ActionView::Listen(ControlSignal::SendCommand),
        ActionView::Notify(SessionState::Connected),
    ]
}

/// The cleanup at the end of a session, the same for every cause.
pub open spec fn exit_actions() -> Seq<ActionView> {
    seq![
        ActionView::Unlisten(ControlSignal::SendCommand),
        ActionView::Unlisten(ControlSignal::Stop),
        ActionView::Notify(SessionState::Disconnected),
        ActionView::Release,
    ]
}

/// The request for one read.
pub open spec fn read_request() -> ActionView {
    ActionView::Read { capacity: READ_CAPACITY }
}

/// What follows the signal poll.
pub open spec fn on_signal(signal: Option<ControlSignal>) -> (Phase, Seq<ActionView>) {
    match signal {
        None => (Phase::Reading, seq![read_request()]),
        Some(ControlSignal::Stop) => (Phase::Clearing, seq![ActionView::ClearInput]),
        Some(ControlSignal::SendCommand) => (
            Phase::Writing,
            seq![ActionView::Write(probe_frame())],
        ),
    }
}

/// What follows a read that ended in `outcome`.
pub open spec fn on_read(outcome: ReadOutcome) -> (Phase, Seq<ActionView>) {
    match outcome {
        ReadOutcome::Data(bytes) => match first_frame(lossy_text(bytes@)) {
            Some(name) => (
                Phase::Polling,
                seq![ActionView::RequestAttention, ActionView::Data(name), ActionView::Poll],
            ),
            None => (Phase::Polling, seq![ActionView::Log(Diagnostic::NoMatch), ActionView::Poll]),
        },
        ReadOutcome::TimedOut => (Phase::Polling, seq![ActionView::Poll]),
        ReadOutcome::Failed => (
            Phase::Exited,
            seq![ActionView::Log(Diagnostic::ReadFailed)] + exit_actions(),
        ),
    }
}

/// Whether `event` is the outcome that `phase` waits for.
pub open spec fn answers(phase: Phase, event: Event) -> bool {
    match phase {
        Phase::Opening => event is Opened,
        Phase::Polling => event is Signal,
        Phase::Writing => event is Written,
        Phase::Clearing => event is Cleared,
        Phase::Reading => event is Read,
        Phase::Exited => false,
        Phase::Unavailable => false,
    }
}

/// The step of the machine: the phase after `event` arrives in `phase`, and
/// the actions to perform. An event that `phase` does not wait for changes
/// nothing and asks for nothing.
pub open spec fn transition(phase: Phase, event: Event) -> (Phase, Seq<ActionView>) {
    match (phase, event) {
        (Phase::Opening, Event::Opened(true)) => (
            Phase::Polling,
            entry_actions() + seq![ActionView::Poll],
        ),
        (Phase::Opening, Event::Opened(false)) => (
            Phase::Unavailable,
            seq![ActionView::Log(Diagnostic::OpenFailed), ActionView::Notify(SessionState::Busy)],
        ),
        (Phase::Polling, Event::Signal(signal)) => on_signal(signal),
        (Phase::Writing, Event::Written(true)) => (
            Phase::Reading,
            seq![ActionView::Data(Seq::<char>::empty()), read_request()],
        ),
        (Phase::Writing, Event::Written(false)) => (
            Phase::Reading,
            seq![ActionView::Log(Diagnostic::WriteFailed), read_request()],
        ),
        (Phase::Clearing, Event::Cleared(true)) => (Phase::Exited, exit_actions()),
        (Phase::Clearing, Event::Cleared(false)) => (
            Phase::Exited,
            seq![ActionView::Log(Diagnostic::ClearFailed)] + exit_actions(),
        ),
        (Phase::Reading, Event::Read(outcome)) => on_read(outcome),
        _ => (phase, Seq::<ActionView>::empty()),
    }
}

/// The decisions of one monitoring session.
#[derive(Debug)]
pub struct Monitor {
    phase: Phase,
}

/// Appends the cleanup at the end of a session.
fn push_exit(actions: &mut Vec<Action>)
    ensures
        action_views(final(actions)@) == action_views(old(actions)@) + exit_actions(),
{
    actions.push(Action::Unlisten(ControlSignal::SendCommand));
    actions.push(Action::Unlisten(ControlSignal::Stop));
    actions.push(Action::Notify(SessionState::Disconnected));
    actions.push(Action::Release);
    assert(action_views(actions@) =~= action_views(old(actions)@) + exit_actions());
}

impl Monitor {
    /// Where the session stands.
    pub closed spec fn spec_phase(&self) -> Phase {
        self.phase
    }

    /// Where the session stands.
    #[verifier::when_used_as_spec(spec_phase)]
    pub fn phase(&self) -> (phase: Phase)
        ensures
            phase == self.spec_phase(),
    {
        self.phase
    }

    /// Begins a session on the device `device_name` at `baud_rate`: asks the
    /// driver to open the device with the fixed read timeout.
    pub fn start(device_name: String, baud_rate: u32) -> (started: (Monitor, Vec<Action>))
        ensures
            started.0.phase() == Phase::Opening,
            action_views(started.1@) == seq![
                ActionView::Open {
                    name: device_name@,
                    baud_rate,
                    timeout_millis: READ_TIMEOUT_MILLIS,
                },
            ],
    {
        let mut actions: Vec<Action> = Vec::new();
        actions.push(
            Action::Open { name: device_name, baud_rate, timeout_millis: READ_TIMEOUT_MILLIS },
        );
        assert(action_views(actions@) =~= seq![
            ActionView::Open {
                name: device_name@,
                baud_rate,
                timeout_millis: READ_TIMEOUT_MILLIS,
            },
        ]);
        (Monitor { phase: Phase::Opening }, actions)
    }

    /// Takes the outcome of the request that is out and returns what to do
    /// next, as `transition` says. Bytes that were read are decoded lossily;
    /// where they are valid UTF-8, the text is the one they encode.
    pub fn handle(&mut self, event: Event) -> (actions: Vec<Action>)
        ensures
            final(self).phase() == transition(old(self).phase(), event).0,
            action_views(actions@) == transition(old(self).phase(), event).1,
            match event {
                Event::Read(ReadOutcome::Data(bytes)) => old(self).phase() == Phase::Reading
                    ==> keeps_valid_text(bytes@),
                _ => true,
            },
    {
        let mut actions: Vec<Action> = Vec::new();
        assert(action_views(actions@) =~= Seq::<ActionView>::empty());
        match (self.phase, event) {
            (Phase::Opening, Event::Opened(true)) => {
                actions.push(Action::Listen(ControlSignal::Stop));
                actions.push(Action::Listen(ControlSignal::SendCommand));
                actions.push(Action::Notify(SessionState::Connected));
                actions.push(Action::Poll);
                self.phase = Phase::Polling;
                assert(action_views(actions@) =~= entry_actions() + seq![ActionView::Poll]);
            },
            (Phase::Opening, Event::Opened(false)) => {
                actions.push(Action::Log(Diagnostic::OpenFailed));
                actions.push(Action::Notify(SessionState::Busy));
                self.phase = Phase::Unavailable;
                assert(action_views(actions@) =~= seq![
                    ActionView::Log(Diagnostic::OpenFailed),
                    ActionView::Notify(SessionState::Busy),
                ]);
            },
            (Phase::Polling, Event::Signal(signal)) => {
                match signal {
                    None => {
                        actions.push(Action::Read { capacity: READ_CAPACITY });
                        self.phase = Phase::Reading;
                        assert(action_views(actions@) =~= seq![read_request()]);
                    },
                    Some(ControlSignal::Stop) => {
                        actions.push(Action::ClearInput);
                        self.phase = Phase::Clearing;
                        assert(action_views(actions@) =~= seq![ActionView::ClearInput]);
                    },
                    Some(ControlSignal::SendCommand) => {
                        actions.push(Action::Write(probe_command()));
                        self.phase = Phase::Writing;
                        assert(action_views(actions@) =~= seq![ActionView::Write(probe_frame())]);
                    },
                }
            },
            (Phase::Writing, Event::Written(true)) => {
                actions.push(Action::Data(String::new()));
                actions.push(Action::Read { capacity: READ_CAPACITY });
                self.phase = Phase::Reading;
                assert(action_views(actions@) =~= seq![
                    ActionView::Data(Seq::<char>::empty()),
                    read_request(),
                ]);
            },
            (Phase::Writing, Event::Written(false)) => {
                actions.push(Action::Log(Diagnostic::WriteFailed));
                actions.push(Action::Read { capacity: READ_CAPACITY });
                self.phase = Phase::Reading;
                assert(action_views(actions@) =~= seq![
                    ActionView::Log(Diagnostic::WriteFailed),
                    read_request(),
                ]);
            },
            (Phase::Clearing, Event::Cleared(true)) => {
                push_exit(&mut actions);
                self.phase = Phase::Exited;
                assert(action_views(actions@) =~= exit_actions());
            },
            (Phase::Clearing, Event::Cleared(false)) => {
                actions.push(Action::Log(Diagnostic::ClearFailed));
                assert(action_views(actions@) =~= seq![ActionView::Log(Diagnostic::ClearFailed)]);
                push_exit(&mut actions);
                self.phase = Phase::Exited;
            },
            (Phase::Reading, Event::Read(ReadOutcome::Data(bytes))) => {
                match extract_from_bytes(bytes.as_slice()) {
                    Some(name) => {
                        actions.push(Action::RequestAttention);
                        actions.push(Action::Data(name));
                        actions.push(Action::Poll);
                        assert(action_views(actions@) =~= seq![
                            ActionView::RequestAttention,
                            ActionView::Data(name@),
                            ActionView::Poll,
                        ]);
                    },
                    None => {
                        actions.push(Action::Log(Diagnostic::NoMatch));
                        actions.push(Action::Poll);
                        assert(action_views(actions@) =~= seq![
                            ActionView::Log(Diagnostic::NoMatch),
                            ActionView::Poll,
                        ]);
                    },
                }
                self.phase = Phase::Polling;
            },
            (Phase::Reading, Event::Read(ReadOutcome::TimedOut)) => {
                actions.push(Action::Poll);
                self.phase = Phase::Polling;
                assert(action_views(actions@) =~= seq![ActionView::Poll]);
            },
            (Phase::Reading, Event::Read(ReadOutcome::Failed)) => {
                actions.push(Action::Log(Diagnostic::ReadFailed));
                assert(action_views(actions@) =~= seq![ActionView::Log(Diagnostic::ReadFailed)]);
                push_exit(&mut actions);
                self.phase = Phase::Exited;
            },
            _ => {},
        }
        actions
    }

    /// Answers a poll request from `queue`: takes the oldest waiting signal,
    /// if one waits, and handles it. While no poll request is out, the queue
    /// is left alone and nothing happens.
    pub fn poll(&mut self, queue: &mut SignalQueue) -> (actions: Vec<Action>)
        ensures
            final(queue).is_open() == old(queue).is_open(),
            old(self).phase() != Phase::Polling ==> {
                &&& final(self).phase() == old(self).phase()
                &&& final(queue).pending() == old(queue).pending()
                &&& actions@.len() == 0
            },
            old(self).phase() == Phase::Polling ==> {
                &&& final(queue).pending() == left_after_poll(old(queue).pending())
                &&& final(self).phase() == on_signal(next_signal(old(queue).pending())).0
                &&& action_views(actions@) == on_signal(next_signal(old(queue).pending())).1
            },
    {
        if self.phase == Phase::Polling {
            let signal = queue.try_receive();
            self.handle(Event::Signal(signal))
        } else {
            Vec::new()
        }
    }
}

/// The signal that a poll of a queue holding `pending` takes: the oldest.
pub open spec fn next_signal(pending: Seq<ControlSignal>) -> Option<ControlSignal> {
    if pending.len() > 0 {
        Some(pending[0])
    } else {
        None
    }
}

/// What a queue that held `pending` holds after a poll.
pub open spec fn left_after_poll(pending: Seq<ControlSignal>) -> Seq<ControlSignal> {
    if pending.len() > 0 {
        pending.drop_first()
    } else {
        pending
    }
}

} // verus!
