//! Control signals and the queue that carries them to the worker.
//!
//! The collaborator's triggers put signals into a `SignalQueue`; the worker
//! takes them out, one per round, without waiting. The queue is first in,
//! first out. Once the worker has closed it, a send fails and nothing is kept.

use std::collections::VecDeque;
use vstd::prelude::*;

verus! {

/// An out-of-band instruction for the monitoring worker.
#[derive(Clone, Copy, Debug, PartialEq, Eq, Structural)]
pub enum ControlSignal {
    /// End the session.
    Stop,
    /// Write the probe command to the device.
    SendCommand,
}

impl ControlSignal {
    /// Name of the collaborator's trigger that raises this signal.
    pub open spec fn spec_event_name(self) -> Seq<char> {
        match self {
            ControlSignal::Stop => "stopSerial"@,
            ControlSignal::SendCommand => "sendCommand"@,
        }
    }

    /// Name of the collaborator's trigger that raises this signal.
    pub fn event_name(self) -> (name: &'static str)
        ensures
            name@ == self.spec_event_name(),
    {
        match self {
            ControlSignal::Stop => "stopSerial",
            ControlSignal::SendCommand => "sendCommand",
        }
    }
}

/// Why a signal could not be sent.
#[derive(Clone, Copy, Debug, PartialEq, Eq, Structural)]
pub enum SendError {
    /// The worker has exited and closed the queue.
    Disconnected,
}

/// The signals on their way to the worker, oldest first.
#[derive(Debug)]
pub struct SignalQueue {
    pending: VecDeque<ControlSignal>,
    open: bool,
}

impl SignalQueue {
    /// The signals sent and not yet received, oldest first. A closed queue
    /// holds none.
    pub closed spec fn pending(&self) -> Seq<ControlSignal> {
        if self.open {
            self.pending@
        } else {
            Seq::empty()
        }
    }

    /// Whether the worker still receives from this queue.
    pub closed spec fn is_open(&self) -> bool {
        self.open
    }

    /// An open queue that holds nothing.
    pub fn new() -> (queue: SignalQueue)
        ensures
            queue.is_open(),
            queue.pending() == Seq::<ControlSignal>::empty(),
    {
        SignalQueue { pending: VecDeque::new(), open: true }
    }

    /// Puts `signal` behind the signals that wait. On a closed queue nothing
    /// is kept and the send fails.
    pub fn send(&mut self, signal: ControlSignal) -> (sent: Result<(), SendError>)
        ensures
            final(self).is_open() == old(self).is_open(),
            old(self).is_open() ==> sent is Ok
                && final(self).pending() == old(self).pending().push(signal),
            !old(self).is_open() ==> sent == Err::<(), SendError>(SendError::Disconnected)
                && final(self).pending() == old(self).pending(),
    {
        if self.open {
            self.pending.push_back(signal);
            Ok(())
        } else {
            Err(SendError::Disconnected)
        }
    }

    /// Takes the oldest waiting signal, if one waits. Never blocks.
    pub fn try_receive(&mut self) -> (signal: Option<ControlSignal>)
        ensures
            final(self).is_open() == old(self).is_open(),
            old(self).pending().len() == 0 ==> signal is None
                && final(self).pending() == old(self).pending(),
            old(self).pending().len() > 0 ==> signal == Some(old(self).pending()[0])
                && final(self).pending() == old(self).pending().drop_first(),
            !old(self).is_open() ==> signal is None,
    {
        if self.open {
            self.pending.pop_front()
        } else {
            None
        }
    }

    /// Ends the queue: what waits is dropped, and every later send fails.
    pub fn close(&mut self)
        ensures
            !final(self).is_open(),
            final(self).pending() == Seq::<ControlSignal>::empty(),
    {
        self.pending.clear();
        self.open = false;
    }

    /// Whether the worker still receives from this queue.
    pub fn accepts(&self) -> (open: bool)
        ensures
            open == self.is_open(),
    {
        self.open
    }

    /// How many signals wait.
    pub fn waiting(&self) -> (count: usize)
        ensures
            count == self.pending().len(),
    {
        if self.open {
            self.pending.len()
        } else {
            0
        }
    }
}

} // verus!
