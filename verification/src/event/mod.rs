//! Keyboard input as a stream of commands.

pub mod command;
pub mod context;
pub mod input;
pub mod listener;
pub mod worker;

pub use command::{Command, CommandView, DispatchError, Movement};
pub use context::Mode;
pub use input::{
    parse_received, translate, InputEvent, InputEventView, Key, KeyView, Parsed, ParsedView,
    ReceiveError,
};
pub use listener::{react, Arrival, Listener, ListenerState, Reaction};
pub use worker::{after_send, Worker};
