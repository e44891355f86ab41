//! The two channels that connect the input listener, the handling of
//! events and the consumer of commands.

use super::command::Command;
use super::input::{
    completed, enqueued, exits, parse_received, parsed_of, InputEvent, Parsed, ReceiveError,
};
use super::listener::{Listener, ListenerState};
use crate::boundary::{open_channel, send, try_receive};
use crossbeam_channel::{Receiver, Sender};
use vstd::prelude::*;

verus! {

/// Holds the event channel, which the listener fills, and the command
/// channel, which the consumer drains. Both are unbounded.
#[derive(Debug, Clone)]
pub struct Worker {
    event_sender: Sender<InputEvent>,
    event_receiver: Receiver<InputEvent>,
    command_sender: Sender<Command>,
    command_receiver: Receiver<Command>,
}

/// What `handle_event` returns once the attempt to enqueue a command has
/// ended as `sent`: a command that was taken does not end the session, one
/// that was refused is handed back.
pub fn after_send(sent: Result<(), Command>) -> (handled: Result<bool, Command>)
    ensures
        handled == match sent {
            Ok(()) => Ok::<bool, Command>(false),
            Err(refused) => Err::<bool, Command>(refused),
        },
{
    match sent {
        Ok(()) => Ok(false),
        Err(refused) => Err(refused),
    }
}

impl Worker {
    /// Opens both channels. Nothing listens yet.
    pub fn new() -> Self {
        let (event_sender, event_receiver) = open_channel::<InputEvent>();
        let (command_sender, command_receiver) = open_channel::<Command>();
        Self { event_sender, event_receiver, command_sender, command_receiver }
    }

    /// A listener that fills this worker's event channel.
    pub fn listener(&self) -> (listener: Listener)
        ensures
            listener.state() == ListenerState::Listening,
    {
        Listener::over(self.event_sender.clone())
    }

    /// Makes one attempt, without waiting, to take an event from the event
    /// channel, and says what it asks for. Whether an event is waiting is
    /// up to the listener; whatever the attempt gives, the answer is what
    /// `parse_received` makes of it, so an empty channel asks for nothing.
    pub fn parse_event(&self) -> (parsed: Parsed)
        ensures
            exists|received: Result<InputEvent, ReceiveError>|
                parsed@ == #[trigger] parsed_of(received),
    {
        let received = try_receive(&self.event_receiver);
        let parsed = parse_received(received);
        assert(parsed@ == parsed_of(received));
        parsed
    }

    /// Acts on what an event asked for, with the cursor's position where it
    /// was asked for. `Exit` ends the session and touches no channel; any
    /// other command is put on the command channel; where nothing was asked
    /// for, nothing is done. Returns whether the session ends. A command
    /// that the channel refuses is handed back.
    pub fn handle_event(&self, parsed: Parsed, position: &str) -> (handled: Result<bool, Command>)
        ensures
            exits(completed(parsed@, position@)) ==> handled == Ok::<bool, Command>(true),
            completed(parsed@, position@) is None ==> handled == Ok::<bool, Command>(false),
            enqueued(completed(parsed@, position@)) matches Some(command) ==> (handled == Ok::<
                bool,
                Command,
            >(false) || (handled matches Err(refused) && refused@ == command)),
    {
        match parsed.complete(position) {
            None => Ok(false),
            Some(command) => {
                if command.is_exit() {
                    Ok(true)
                } else {
                    after_send(send(&self.command_sender, command))
                }
            },
        }
    }

    /// Makes one attempt, without waiting, to take a command from the
    /// command channel. Whether one is waiting is up to what was handled
    /// before and to the other holders of the channel.
    pub fn receive_command(&self) -> Result<Command, ReceiveError> {
        try_receive(&self.command_receiver)
    }
}

} // verus!
