//! The decisions of the background listener that feeds the event channel.
//!
//! The listener waits for the next tick of its timer or the next input
//! event, whichever comes first, and then decides what to do with it. The
//! waiting is done by whoever runs the listener; the deciding is done here.

use super::input::{InputEvent, InputEventView, Key, KeyView};
use crate::boundary::send;
use crossbeam_channel::Sender;
use vstd::prelude::*;

verus! {

/// Whether the listener is still at work.
#[derive(Debug, Clone, Copy, PartialEq, Eq, Structural)]
pub enum ListenerState {
    /// Waiting for a tick or an event.
    Listening,
    /// Done for good.
    Stopped,
}

/// What ended a wait.
#[derive(Debug, Clone, PartialEq, Eq)]
pub enum Arrival {
    /// The timer ran out before any input came.
    Tick,
    /// An input event came.
    Event(InputEvent),
    /// Reading the input failed.
    Failure,
    /// The input has ended.
    Closed,
}

/// What the listener does about an arrival.
#[derive(Debug, Clone, PartialEq, Eq)]
pub struct Reaction {
    /// The event to put on the event channel, if any.
    pub forward: Option<InputEvent>,
    /// Whether a failure is to be reported.
    pub report: bool,
    /// The state in which the listener goes on.
    pub next: ListenerState,
}

/// Whether an event is the Escape key.
pub open spec fn is_escape(event: InputEventView) -> bool {
    event == InputEventView::Key(KeyView::Esc)
}

/// The event that an arrival makes the listener forward: every event that
/// comes while it listens, whatever it is.
pub open spec fn forwarded(state: ListenerState, arrival: Arrival) -> Option<InputEvent> {
    match (state, arrival) {
        (ListenerState::Listening, Arrival::Event(event)) => Some(event),
        _ => None,
    }
}

/// Whether an arrival makes the listener report a failure.
pub open spec fn reported(state: ListenerState, arrival: Arrival) -> bool {
    state == ListenerState::Listening && arrival is Failure
}

/// The state after an arrival. The listener stops on the Escape key and at
/// the end of the input, and never starts again.
pub open spec fn next_state(state: ListenerState, arrival: Arrival) -> ListenerState {
    match (state, arrival) {
        (ListenerState::Stopped, _) => ListenerState::Stopped,
        (ListenerState::Listening, Arrival::Event(event)) => if is_escape(event@) {
            ListenerState::Stopped
        } else {
            ListenerState::Listening
        },
        (ListenerState::Listening, Arrival::Closed) => ListenerState::Stopped,
        (ListenerState::Listening, _) => ListenerState::Listening,
    }
}

fn escape(event: &InputEvent) -> (is: bool)
    ensures
        is == is_escape(event@),
{
    match event {
        InputEvent::Key(key) => match key {
            Key::Esc => true,
            _ => false,
        },
        InputEvent::Other => false,
    }
}

/// Decides what the listener does about an arrival when it is in `state`.
pub fn react(state: ListenerState, arrival: Arrival) -> (reaction: Reaction)
    ensures
        reaction.forward == forwarded(state, arrival),
        reaction.report == reported(state, arrival),
        reaction.next == next_state(state, arrival),
{
    match state {
        ListenerState::Stopped => Reaction {
            forward: None,
            report: false,
            next: ListenerState::Stopped,
        },
        ListenerState::Listening => match arrival {
            Arrival::Tick => Reaction {
                forward: None,
                report: false,
                next: ListenerState::Listening,
            },
            Arrival::Event(event) => {
                let next = if escape(&event) {
                    ListenerState::Stopped
                } else {
                    ListenerState::Listening
                };
                Reaction { forward: Some(event), report: false, next }
            },
            Arrival::Failure => Reaction {
                forward: None,
                report: true,
                next: ListenerState::Listening,
            },
            Arrival::Closed => Reaction {
                forward: None,
                report: false,
                next: ListenerState::Stopped,
            },
        },
    }
}

/// The producing side of the event channel, with the listener's state.
#[derive(Debug, Clone)]
pub struct Listener {
    sender: Sender<InputEvent>,
    state: ListenerState,
}

impl Listener {
    /// A listener that is at work and forwards through `sender`.
    pub(crate) fn over(sender: Sender<InputEvent>) -> (listener: Self)
        ensures
            listener.state() == ListenerState::Listening,
            listener.sender() == sender,
    {
        Self { sender, state: ListenerState::Listening }
    }

    /// Whether the listener is still at work.
    pub closed spec fn state(&self) -> ListenerState {
        self.state
    }

    /// The handle through which the listener puts events on the event
    /// channel.
    pub closed spec fn sender(&self) -> Sender<InputEvent> {
        self.sender
    }

    /// Whether the listener has stopped for good.
    pub fn stopped(&self) -> (stopped: bool)
        ensures
            stopped == (self.state() == ListenerState::Stopped),
    {
        match self.state {
            ListenerState::Stopped => true,
            ListenerState::Listening => false,
        }
    }

    /// Takes note of what ended a wait. An event is put on the event channel
    /// first, whatever it is; then the listener stops if it was the Escape
    /// key. Returns whether a failure is to be reported. An event that the
    /// channel refuses, because nobody receives any more, is handed back.
    pub fn notice(&mut self, arrival: Arrival) -> (noticed: Result<bool, InputEvent>)
        ensures
            final(self).state() == next_state(old(self).state(), arrival),
            match forwarded(old(self).state(), arrival) {
                Some(event) => noticed == Ok::<bool, InputEvent>(false) || noticed == Err::<
                    bool,
                    InputEvent,
                >(event),
                None => noticed == Ok::<bool, InputEvent>(reported(old(self).state(), arrival)),
            },
    {
        let Reaction { forward, report, next } = react(self.state, arrival);
        self.state = next;
        match forward {
            None => Ok(report),
            Some(event) => match send(&self.sender, event) {
                Ok(()) => Ok(false),
                Err(back) => Err(back),
            },
        }
    }
}

/// A stopped listener stays stopped and forwards nothing more.
pub proof fn lemma_stopped_is_final(arrival: Arrival)
    ensures
        next_state(ListenerState::Stopped, arrival) == ListenerState::Stopped,
        forwarded(ListenerState::Stopped, arrival) is None,
        !reported(ListenerState::Stopped, arrival),
{
}

} // verus!
