//! What a session does over time, and what holds of every session.
//!
//! `run` folds `transition` over the events that a driver hands back, and
//! `drive` models a driver that answers polls from a signal queue. The proof
//! functions of this module state what holds of them for all events.

use crate::monitor::{
    answers, entry_actions, exit_actions, left_after_poll, next_signal, on_read, on_signal,
    probe_frame, read_request, transition, ActionView, Diagnostic, Event, Phase, ReadOutcome,
    SessionState,
};
use crate::signal::ControlSignal;
use vstd::prelude::*;

verus! {

/// The phase reached and the actions asked for, in order, when `events`
/// arrive one after another in a session that stands in `phase`.
pub open spec fn run(phase: Phase, events: Seq<Event>) -> (Phase, Seq<ActionView>)
    decreases events.len(),
{
    if events.len() == 0 {
        (phase, Seq::<ActionView>::empty())
    } else {
        let (before, done) = run(phase, events.drop_last());
        let (after, actions) = transition(before, events.last());
        (after, done + actions)
    }
}

/// An action of the running loop: a request, a data event, a request for
/// attention or a log line. No state is reported and nothing is registered or
/// released by such an action.
pub open spec fn in_loop(action: ActionView) -> bool {
    action is Poll || action is Write || action is ClearInput || action is Read || action is Data
        || action is RequestAttention || action is Log
}

/// The shape of what a session has done once its device was opened, having
/// reached `phase`: the entry actions, then actions of the loop only, and, if
/// the session has ended, the cleanup as the last four actions.
pub open spec fn opened_shape(phase: Phase, done: Seq<ActionView>) -> bool {
    let end = if phase == Phase::Exited {
        done.len() - 4
    } else {
        done.len() as int
    };
    &&& phase.spec_is_running() || phase == Phase::Exited
    &&& 3 <= end
    &&& forall|i: int| 0 <= i < 3 ==> done[i] == #[trigger] entry_actions()[i]
    &&& forall|i: int| 3 <= i < end ==> in_loop(#[trigger] done[i])
    &&& phase == Phase::Exited ==> forall|i: int|
        0 <= i < 4 ==> done[end + i] == #[trigger] exit_actions()[i]
}

/// Running on from where a first run ended gives the run over all events.
pub proof fn lemma_run_concat(phase: Phase, first: Seq<Event>, second: Seq<Event>)
    ensures
        run(phase, first + second).0 == run(run(phase, first).0, second).0,
        run(phase, first + second).1 == run(phase, first).1 + run(run(phase, first).0, second).1,
    decreases second.len(),
{
    if second.len() == 0 {
        assert(first + second =~= first);
        assert(run(phase, first).1 + Seq::<ActionView>::empty() =~= run(phase, first).1);
    } else {
        lemma_run_concat(phase, first, second.drop_last());
        assert((first + second).drop_last() =~= first + second.drop_last());
        assert((first + second).last() == second.last());
        let middle = run(phase, first).0;
        let a = run(phase, first).1;
        let b = run(middle, second.drop_last()).1;
        let c = transition(run(middle, second.drop_last()).0, second.last()).1;
        assert((a + b) + c =~= a + (b + c));
    }
}

/// One event run alone is one step of the machine.
pub proof fn lemma_run_one(phase: Phase, event: Event)
    ensures
        run(phase, seq![event]) == transition(phase, event),
{
    let events = seq![event];
    assert(events.drop_last() =~= Seq::<Event>::empty());
    assert(run(phase, events.drop_last()) == (phase, Seq::<ActionView>::empty()));
    assert(Seq::<ActionView>::empty() + transition(phase, event).1 =~= transition(phase, event).1);
}

/// A session whose device cannot be opened reports `Busy` once and does
/// nothing else, whatever events follow: no request is made, so no worker has
/// anything to run.
pub proof fn lemma_failed_open_reports_busy(later: Seq<Event>)
    ensures
        run(Phase::Opening, seq![Event::Opened(false)] + later) == (
            Phase::Unavailable,
            seq![ActionView::Log(Diagnostic::OpenFailed), ActionView::Notify(SessionState::Busy)],
        ),
    decreases later.len(),
{
    let events = seq![Event::Opened(false)] + later;
    if later.len() == 0 {
        assert(events =~= seq![Event::Opened(false)]);
        lemma_run_one(Phase::Opening, Event::Opened(false));
    } else {
        lemma_failed_open_reports_busy(later.drop_last());
        assert(events.drop_last() =~= seq![Event::Opened(false)] + later.drop_last());
        let done = run(Phase::Opening, events.drop_last()).1;
        assert(done + Seq::<ActionView>::empty() =~= done);
    }
}

/// One step keeps the shape of an opened session.
proof fn lemma_step_keeps_shape(phase: Phase, done: Seq<ActionView>, event: Event)
    requires
        opened_shape(phase, done),
    ensures
        opened_shape(transition(phase, event).0, done + transition(phase, event).1),
{
    let (after, actions) = transition(phase, event);
    let all = done + actions;
    if actions.len() == 0 {
        assert(all =~= done);
    } else if after == Phase::Exited {
        let end = all.len() - 4;
        assert(end >= done.len());
        assert forall|i: int| 3 <= i < end implies in_loop(#[trigger] all[i]) by {
            if i < done.len() {
                assert(all[i] == done[i]);
            } else {
                assert(all[i] == actions[i - done.len()]);
            }
        }
        assert forall|i: int| 0 <= i < 4 implies all[end + i] == #[trigger] exit_actions()[i] by {
            assert(all[end + i] == actions[end + i - done.len()]);
        }
        assert forall|i: int| 0 <= i < 3 implies all[i] == #[trigger] entry_actions()[i] by {
            assert(all[i] == done[i]);
        }
    } else {
        assert forall|i: int| 3 <= i < all.len() implies in_loop(#[trigger] all[i]) by {
            if i < done.len() {
                assert(all[i] == done[i]);
            } else {
                assert(all[i] == actions[i - done.len()]);
            }
        }
        assert forall|i: int| 0 <= i < 3 implies all[i] == #[trigger] entry_actions()[i] by {
            assert(all[i] == done[i]);
        }
    }
}

/// Of every session whose device was opened, whatever events follow: the
/// first actions register the two bridges and report `Connected`; then come
/// actions of the loop only; and once the session has ended, for whatever
/// cause, the last four actions are the cleanup. So `Connected` is reported
/// once, before any data event, and `Disconnected` once, as the last report.
pub proof fn lemma_opened_session_shape(later: Seq<Event>)
    ensures
        opened_shape(
            run(Phase::Opening, seq![Event::Opened(true)] + later).0,
            run(Phase::Opening, seq![Event::Opened(true)] + later).1,
        ),
    decreases later.len(),
{
    let events = seq![Event::Opened(true)] + later;
    if later.len() == 0 {
        assert(events =~= seq![Event::Opened(true)]);
        lemma_run_one(Phase::Opening, Event::Opened(true));
        let done = run(Phase::Opening, events).1;
        assert(done =~= entry_actions() + seq![ActionView::Poll]);
        assert forall|i: int| 0 <= i < 3 implies done[i] == #[trigger] entry_actions()[i] by {}
    } else {
        lemma_opened_session_shape(later.drop_last());
        assert(events.drop_last() =~= seq![Event::Opened(true)] + later.drop_last());
        let (before, done) = run(Phase::Opening, events.drop_last());
        lemma_step_keeps_shape(before, done, events.last());
    }
}

/// The request that is out while a running session stands in `phase`.
pub open spec fn request_of(phase: Phase) -> ActionView
    recommends
        phase.spec_is_running(),
{
    match phase {
        Phase::Writing => ActionView::Write(probe_frame()),
        Phase::Clearing => ActionView::ClearInput,
        Phase::Reading => read_request(),
        _ => ActionView::Poll,
    }
}

/// Every step that takes the awaited outcome asks for something, and only
/// its last action can be a request: the request of the phase reached while
/// the session runs, none once it is over.
pub proof fn lemma_one_request_per_step(phase: Phase, event: Event)
    requires
        answers(phase, event),
    ensures
        ({
            let (after, actions) = transition(phase, event);
            &&& actions.len() > 0
            &&& forall|i: int| 0 <= i < actions.len() - 1 ==> !(#[trigger] actions[i]).is_request()
            &&& after.spec_is_running() ==> actions.last() == request_of(after)
            &&& !after.spec_is_running() ==> !actions.last().is_request() && (after == Phase::Exited
                || after == Phase::Unavailable)
        }),
{
}

/// An event that is not the awaited outcome changes nothing and asks for
/// nothing.
pub proof fn lemma_unawaited_event_is_ignored(phase: Phase, event: Event)
    requires
        !answers(phase, event),
    ensures
        transition(phase, event) == (phase, Seq::<ActionView>::empty()),
{
}

/// A step reports a state exactly when it changes the state of the session,
/// and then it reports the new state, once.
pub proof fn lemma_state_reported_on_change(phase: Phase, event: Event)
    ensures
        ({
            let (after, actions) = transition(phase, event);
            let changed = after.spec_session_state() != phase.spec_session_state();
            &&& changed ==> exists|at: int|
                {
                    &&& 0 <= at < actions.len()
                    &&& #[trigger] actions[at] == ActionView::Notify(after.spec_session_state())
                    &&& forall|i: int|
                        0 <= i < actions.len() && i != at ==> !(#[trigger] actions[i] is Notify)
                }
            &&& !changed ==> forall|i: int| 0 <= i < actions.len() ==> !(#[trigger] actions[i] is Notify)
        }),
{
    let (after, actions) = transition(phase, event);
    if after.spec_session_state() != phase.spec_session_state() {
        if phase == Phase::Opening {
            if after == Phase::Polling {
                assert(actions[2] == ActionView::Notify(SessionState::Connected));
            } else {
                assert(actions[1] == ActionView::Notify(SessionState::Busy));
            }
        } else {
            assert(after == Phase::Exited);
            let at = actions.len() - 2;
            assert(actions[at] == ActionView::Notify(SessionState::Disconnected));
        }
    }
}

/// The state of a session moves in three ways only: from `Disconnected` to
/// `Connected` or to `Busy` when the open request is answered, and from
/// `Connected` to `Disconnected` when the session ends. A session that has
/// ended, or never began, stays as it is.
pub proof fn lemma_session_state_moves(phase: Phase, event: Event)
    ensures
        ({
            let after = transition(phase, event).0;
            let was = phase.spec_session_state();
            let is = after.spec_session_state();
            &&& was != is ==> {
                ||| phase == Phase::Opening && is == SessionState::Connected
                ||| phase == Phase::Opening && is == SessionState::Busy
                ||| phase.spec_is_running() && after == Phase::Exited
            }
            &&& phase == Phase::Exited || phase == Phase::Unavailable ==> after == phase
            &&& after != Phase::Opening || phase == Phase::Opening
        }),
{
}

/// A read that times out is the idle case: it reports no state and no data,
/// leaves the state of the session as it was, and ends no session. The loop
/// goes on with its next poll.
pub proof fn lemma_timeout_is_silent(phase: Phase)
    ensures
        ({
            let (after, actions) = transition(phase, Event::Read(ReadOutcome::TimedOut));
            &&& after.spec_session_state() == phase.spec_session_state()
            &&& after.spec_is_running() == phase.spec_is_running()
            &&& forall|i: int|
                0 <= i < actions.len() ==> !(#[trigger] actions[i] is Notify) && !(actions[i] is Data)
            &&& phase == Phase::Reading ==> after == Phase::Polling && actions == seq![
                ActionView::Poll,
            ]
        }),
{
}

/// A send-command signal makes the worker write exactly the probe command.
/// If the write succeeds, one data event with an empty payload follows; if it
/// fails, a log line follows and the session goes on. Either way the read of
/// the round comes next.
pub proof fn lemma_send_command_round(written: bool)
    ensures
        run(
            Phase::Polling,
            seq![Event::Signal(Some(ControlSignal::SendCommand)), Event::Written(written)],
        ) == (
            Phase::Reading,
            seq![
                ActionView::Write(probe_frame()),
                if written {
                    ActionView::Data(Seq::<char>::empty())
                } else {
                    ActionView::Log(Diagnostic::WriteFailed)
                },
                read_request(),
            ],
        ),
{
    let first = Event::Signal(Some(ControlSignal::SendCommand));
    let second = Event::Written(written);
    lemma_run_one(Phase::Polling, first);
    lemma_run_one(Phase::Writing, second);
    lemma_run_concat(Phase::Polling, seq![first], seq![second]);
    assert(seq![first] + seq![second] =~= seq![first, second]);
    assert(run(Phase::Polling, seq![first, second]).1 =~= seq![
        ActionView::Write(probe_frame()),
        if written {
            ActionView::Data(Seq::<char>::empty())
        } else {
            ActionView::Log(Diagnostic::WriteFailed)
        },
        read_request(),
    ]);
}

/// Once the clear request is out, nothing touches the device or the queue
/// again, whatever events arrive.
proof fn lemma_quiet_after_clear_request(events: Seq<Event>)
    ensures
        ({
            let (phase, done) = run(Phase::Clearing, events);
            &&& phase == Phase::Clearing || phase == Phase::Exited
            &&& phase == Phase::Clearing ==> done.len() == 0
            &&& forall|i: int|
                0 <= i < done.len() ==> !(#[trigger] done[i]).is_device_io() && !(done[i] is Poll)
        }),
    decreases events.len(),
{
    if events.len() > 0 {
        lemma_quiet_after_clear_request(events.drop_last());
        let (before, done) = run(Phase::Clearing, events.drop_last());
        let (after, actions) = transition(before, events.last());
        let all = done + actions;
        assert forall|i: int| 0 <= i < all.len() implies !(#[trigger] all[i]).is_device_io() && !(
        all[i] is Poll) by {
            if i < done.len() {
                assert(all[i] == done[i]);
            } else {
                assert(all[i] == actions[i - done.len()]);
            }
        }
    }
}

/// After a stop signal is taken, the input buffer is cleared once and the
/// device is not read, written or cleared again, nor is the queue polled,
/// whatever events arrive later. `before` is any course of a session up to a
/// poll; `later` is what arrives after the stop signal.
pub proof fn lemma_nothing_after_stop(before: Seq<Event>, later: Seq<Event>)
    requires
        run(Phase::Opening, before).0 == Phase::Polling,
    ensures
        ({
            let head = run(Phase::Opening, before).1;
            let stop = Event::Signal(Some(ControlSignal::Stop));
            let (phase, all) = run(Phase::Opening, before + seq![stop] + later);
            &&& phase == Phase::Clearing || phase == Phase::Exited
            &&& all.len() > head.len()
            &&& all.subrange(0, head.len() as int) == head
            &&& all[head.len() as int] == ActionView::ClearInput
            &&& forall|i: int|
                head.len() < i < all.len() ==> !(#[trigger] all[i]).is_device_io() && !(all[i] is Poll)
        }),
{
    let head = run(Phase::Opening, before).1;
    let stop = Event::Signal(Some(ControlSignal::Stop));
    lemma_run_one(Phase::Polling, stop);
    lemma_run_concat(Phase::Opening, before, seq![stop]);
    lemma_run_concat(Phase::Opening, before + seq![stop], later);
    lemma_quiet_after_clear_request(later);
    let tail = run(Phase::Clearing, later).1;
    let all = run(Phase::Opening, before + seq![stop] + later).1;
    assert(all =~= head + seq![ActionView::ClearInput] + tail);
    assert(all.subrange(0, head.len() as int) =~= head);
    assert forall|i: int| head.len() < i < all.len() implies !(#[trigger] all[i]).is_device_io()
        && !(all[i] is Poll) by {
        assert(all[i] == tail[i - head.len() - 1]);
    }
}

/// What a driver brings about that answers every poll from a queue holding
/// `pending` and every other request with the next outcome of `device`. It
/// ends when the session is over or `device` has no outcome for the request
/// that is out. The result is the phase reached, what is left in the queue,
/// and the actions asked for.
pub open spec fn drive(phase: Phase, pending: Seq<ControlSignal>, device: Seq<Event>) -> (
    Phase,
    Seq<ControlSignal>,
    Seq<ActionView>,
)
    decreases device.len(), (if phase == Phase::Polling { 1nat } else { 0nat }),
{
    if phase == Phase::Polling {
        let (next, actions) = on_signal(next_signal(pending));
        let (end, left, more) = drive(next, left_after_poll(pending), device);
        (end, left, actions + more)
    } else if device.len() > 0 && answers(phase, device[0]) {
        let (next, actions) = transition(phase, device[0]);
        let (end, left, more) = drive(next, pending, device.drop_first());
        (end, left, actions + more)
    } else {
        (phase, pending, Seq::<ActionView>::empty())
    }
}

/// What the worker does for a signal that it takes.
pub open spec fn response(signal: ControlSignal) -> ActionView {
    match signal {
        ControlSignal::Stop => ActionView::ClearInput,
        ControlSignal::SendCommand => ActionView::Write(probe_frame()),
    }
}

/// The writes and clears among `actions`, in order.
pub open spec fn responses(actions: Seq<ActionView>) -> Seq<ActionView> {
    actions.filter(|action: ActionView| action is Write || action is ClearInput)
}

/// A step that answers the device holds no write and no clear.
proof fn lemma_device_step_has_no_response(phase: Phase, event: Event)
    requires
        phase != Phase::Polling,
    ensures
        responses(transition(phase, event).1) == Seq::<ActionView>::empty(),
{
    let actions = transition(phase, event).1;
    let wanted = |action: ActionView| action is Write || action is ClearInput;
    assert forall|i: int| 0 <= i < actions.len() implies !wanted(#[trigger] actions[i]) by {}
    lemma_filter_none(actions);
}

/// A sequence without writes and clears has no responses.
proof fn lemma_filter_none(actions: Seq<ActionView>)
    requires
        forall|i: int|
            0 <= i < actions.len() ==> !(#[trigger] actions[i] is Write) && !(actions[i] is ClearInput),
    ensures
        responses(actions) == Seq::<ActionView>::empty(),
    decreases actions.len(),
{
    let wanted = |action: ActionView| action is Write || action is ClearInput;
    reveal(Seq::filter);
    if actions.len() > 0 {
        assert forall|i: int| 0 <= i < actions.drop_last().len() implies !(
        #[trigger] actions.drop_last()[i] is Write) && !(actions.drop_last()[i] is ClearInput) by {
            assert(actions.drop_last()[i] == actions[i]);
        }
        lemma_filter_none(actions.drop_last());
        assert(!wanted(actions.last()));
    }
}

/// Signals are answered one by one in the order of the queue, and none that
/// is taken goes unanswered: the writes and clears of a driven session are
/// the responses to the signals taken, in order, and what is left in the
/// queue is what stood behind them.
pub proof fn lemma_signals_answered_in_order(
    phase: Phase,
    pending: Seq<ControlSignal>,
    device: Seq<Event>,
)
    ensures
        ({
            let (end, left, done) = drive(phase, pending, device);
            let taken = pending.len() - left.len();
            &&& 0 <= taken <= pending.len()
            &&& left == pending.skip(taken)
            &&& responses(done) == pending.take(taken).map_values(
                |signal: ControlSignal| response(signal),
            )
        }),
    decreases device.len(), (if phase == Phase::Polling { 1nat } else { 0nat }),
{
    let answer = |signal: ControlSignal| response(signal);
    let wanted = |action: ActionView| action is Write || action is ClearInput;
    let (end, left, done) = drive(phase, pending, device);
    if phase == Phase::Polling {
        let (next, actions) = on_signal(next_signal(pending));
        let rest = left_after_poll(pending);
        lemma_signals_answered_in_order(next, rest, device);
        let (end2, left2, more) = drive(next, rest, device);
        let taken2 = rest.len() - left2.len();
        Seq::filter_distributes_over_add(actions, more, wanted);
        assert(done == actions + more);
        if pending.len() > 0 {
            let taken = taken2 + 1;
            assert(left =~= pending.skip(taken));
            assert(actions =~= seq![response(pending[0])]);
            reveal(Seq::filter);
            assert(actions.drop_last() =~= Seq::<ActionView>::empty());
            assert(responses(actions) =~= seq![response(pending[0])]);
            assert(pending.take(taken).map_values(answer) =~= seq![response(pending[0])]
                + rest.take(taken2).map_values(answer));
        } else {
            assert(rest =~= pending);
            assert(left =~= pending.skip(0));
            lemma_filter_none(actions);
            assert(responses(done) =~= responses(more));
            assert(pending.take(0).map_values(answer) =~= rest.take(taken2).map_values(answer));
        }
    } else if device.len() > 0 && answers(phase, device[0]) {
        let (next, actions) = transition(phase, device[0]);
        lemma_signals_answered_in_order(next, pending, device.drop_first());
        let (end2, left2, more) = drive(next, pending, device.drop_first());
        lemma_device_step_has_no_response(phase, device[0]);
        Seq::filter_distributes_over_add(actions, more, wanted);
        assert(responses(done) =~= responses(more));
    } else {
        assert(left =~= pending.skip(0));
        reveal(Seq::filter);
        assert(pending.take(0).map_values(answer) =~= Seq::<ActionView>::empty());
    }
}

/// Two send-command signals that wait in the queue are both answered, each
/// with its own write of the probe command, the first before the second,
/// provided that the read between them does not end the session. `behind` is
/// what waits behind the two.
pub proof fn lemma_two_commands_two_writes(
    behind: Seq<ControlSignal>,
    first_written: bool,
    read: ReadOutcome,
    second_written: bool,
)
    requires
        read != ReadOutcome::Failed,
    ensures
        ({
            let pending = seq![ControlSignal::SendCommand, ControlSignal::SendCommand] + behind;
            let device = seq![
                Event::Written(first_written),
                Event::Read(read),
                Event::Written(second_written),
            ];
            let (end, left, done) = drive(Phase::Polling, pending, device);
            &&& end == Phase::Reading
            &&& left == behind
            &&& responses(done) == seq![
                ActionView::Write(probe_frame()),
                ActionView::Write(probe_frame()),
            ]
        }),
{
    let pending = seq![ControlSignal::SendCommand, ControlSignal::SendCommand] + behind;
    let device = seq![
        Event::Written(first_written),
        Event::Read(read),
        Event::Written(second_written),
    ];
    let one = pending.drop_first();
    assert(left_after_poll(pending) == one);
    assert(one.drop_first() =~= behind);
    let d1 = device.drop_first();
    let d2 = d1.drop_first();
    let d3 = d2.drop_first();
    assert(d3.len() == 0);
    // The course of the session, from its end back to its start.
    assert(drive(Phase::Reading, behind, d3).0 == Phase::Reading);
    assert(drive(Phase::Reading, behind, d3).1 == behind);
    assert(drive(Phase::Writing, behind, d2).0 == Phase::Reading);
    assert(drive(Phase::Writing, behind, d2).1 == behind);
    assert(drive(Phase::Polling, one, d2).0 == Phase::Reading);
    assert(drive(Phase::Polling, one, d2).1 == behind);
    assert(on_read(read).0 == Phase::Polling);
    assert(drive(Phase::Reading, one, d1).0 == Phase::Reading);
    assert(drive(Phase::Reading, one, d1).1 == behind);
    assert(drive(Phase::Writing, one, device).0 == Phase::Reading);
    assert(drive(Phase::Writing, one, device).1 == behind);
    assert(drive(Phase::Polling, pending, device).0 == Phase::Reading);
    assert(drive(Phase::Polling, pending, device).1 == behind);
    lemma_signals_answered_in_order(Phase::Polling, pending, device);
    let answer = |signal: ControlSignal| response(signal);
    assert(pending.take(2).map_values(answer) =~= seq![
        ActionView::Write(probe_frame()),
        ActionView::Write(probe_frame()),
    ]);
}

/// A stop signal at the head of the queue while a read is out ends the
/// session when that one read has returned, whatever it returns: the worker
/// clears the input buffer and leaves, and asks for no other read.
pub proof fn lemma_stop_ends_session_after_one_read(
    behind: Seq<ControlSignal>,
    read: ReadOutcome,
    cleared: bool,
)
    ensures
        ({
            let pending = seq![ControlSignal::Stop] + behind;
            let device = seq![Event::Read(read), Event::Cleared(cleared)];
            let (end, left, done) = drive(Phase::Reading, pending, device);
            &&& end == Phase::Exited
            &&& forall|i: int| 0 <= i < done.len() ==> !(#[trigger] done[i] is Read)
        }),
{
    let pending = seq![ControlSignal::Stop] + behind;
    let device = seq![Event::Read(read), Event::Cleared(cleared)];
    let d1 = device.drop_first();
    let d2 = d1.drop_first();
    assert(d2.len() == 0);
    let rest = left_after_poll(pending);
    if read == ReadOutcome::Failed {
        assert(drive(Phase::Exited, pending, d1).0 == Phase::Exited);
        assert(drive(Phase::Exited, pending, d1).2 =~= Seq::<ActionView>::empty());
        let done = drive(Phase::Reading, pending, device).2;
        assert(done =~= on_read(read).1);
    } else {
        assert(drive(Phase::Exited, rest, d2).0 == Phase::Exited);
        assert(drive(Phase::Exited, rest, d2).2 =~= Seq::<ActionView>::empty());
        let last = transition(Phase::Clearing, d1[0]).1;
        assert(drive(Phase::Clearing, rest, d1).2 =~= last);
        assert(drive(Phase::Polling, pending, d1).2 =~= seq![ActionView::ClearInput] + last);
        let done = drive(Phase::Reading, pending, device).2;
        assert(done =~= on_read(read).1 + (seq![ActionView::ClearInput] + last));
    }
}

} // verus!
