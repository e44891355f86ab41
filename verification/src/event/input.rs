//! Raw input events and the table that turns them into commands.

use super::command::{Command, CommandView, Movement};
use crate::boundary::push_char;
use vstd::prelude::*;

verus! {

/// A key: Escape, a character, or any other key with a description of it.
#[derive(Debug, Clone, PartialEq, Eq)]
pub enum Key {
    Esc,
    Char(char),
    Other(String),
}

/// The mathematical content of a `Key`.
pub enum KeyView {
    Esc,
    Char(char),
    Other(Seq<char>),
}

impl View for Key {
    type V = KeyView;

    open spec fn view(&self) -> KeyView {
        match self {
            Key::Esc => KeyView::Esc,
            Key::Char(c) => KeyView::Char(*c),
            Key::Other(description) => KeyView::Other(description@),
        }
    }
}

/// What the input backend reports: a key, or something else (a resize, the
/// mouse).
#[derive(Debug, Clone, PartialEq, Eq)]
pub enum InputEvent {
    Key(Key),
    Other,
}

/// The mathematical content of an `InputEvent`.
pub enum InputEventView {
    Key(KeyView),
    Other,
}

impl View for InputEvent {
    type V = InputEventView;

    open spec fn view(&self) -> InputEventView {
        match self {
            InputEvent::Key(key) => InputEventView::Key(key@),
            InputEvent::Other => InputEventView::Other,
        }
    }
}

/// Why nothing was received from a channel.
#[derive(Debug, Clone, Copy, PartialEq, Eq, Structural)]
pub enum ReceiveError {
    /// Nothing is waiting; something may come later.
    Empty,
    /// Nothing is waiting and every sender is gone.
    Disconnected,
}

/// What an input event asks for.
#[derive(Debug, Clone, PartialEq, Eq)]
pub enum Parsed {
    /// No command.
    Nothing,
    /// This command.
    Command(Command),
    /// A report of the cursor's position, which has yet to be asked of the
    /// terminal.
    CursorQuery,
}

/// The mathematical content of a `Parsed`.
pub enum ParsedView {
    Nothing,
    Command(CommandView),
    CursorQuery,
}

impl View for Parsed {
    type V = ParsedView;

    open spec fn view(&self) -> ParsedView {
        match self {
            Parsed::Nothing => ParsedView::Nothing,
            Parsed::Command(command) => ParsedView::Command(command@),
            Parsed::CursorQuery => ParsedView::CursorQuery,
        }
    }
}

/// The diagnostic for a character that stands for no command.
pub open spec fn unbound_char_note(c: char) -> Seq<char> {
    "\rChar("@.push(c) + ")\r"@
}

/// The diagnostic for a key that is no character, from its description.
pub open spec fn unbound_key_note(description: Seq<char>) -> Seq<char> {
    "\rEvent::"@ + description + "\r"@
}

/// The report of the cursor's position, from the position as text.
pub open spec fn cursor_note(position: Seq<char>) -> Seq<char> {
    "Cursor position: "@ + position + "\r"@
}

/// What a character asks for.
pub open spec fn bound_to(c: char) -> ParsedView {
    if c == 'h' {
        ParsedView::Command(CommandView::Move(Movement::Left))
    } else if c == 'j' {
        ParsedView::Command(CommandView::Move(Movement::Down))
    } else if c == 'k' {
        ParsedView::Command(CommandView::Move(Movement::Up))
    } else if c == 'l' {
        ParsedView::Command(CommandView::Move(Movement::Right))
    } else if c == 'm' {
        ParsedView::Command(CommandView::Mark)
    } else if c == 'y' {
        ParsedView::Command(CommandView::Copy)
    } else if c == 'd' {
        ParsedView::Command(CommandView::Cut)
    } else if c == 'p' {
        ParsedView::Command(CommandView::Paste)
    } else if c == 'u' {
        ParsedView::Command(CommandView::Undo)
    } else if c == 'c' {
        ParsedView::CursorQuery
    } else {
        ParsedView::Command(CommandView::Debug(unbound_char_note(c)))
    }
}

/// What an input event asks for. Escape asks to exit; a character asks for
/// what it is bound to; any other key yields a diagnostic; what is no key
/// asks for nothing.
pub open spec fn translated(event: InputEventView) -> ParsedView {
    match event {
        InputEventView::Key(KeyView::Esc) => ParsedView::Command(CommandView::Exit),
        InputEventView::Key(KeyView::Char(c)) => bound_to(c),
        InputEventView::Key(KeyView::Other(description)) => ParsedView::Command(
            CommandView::Debug(unbound_key_note(description)),
        ),
        InputEventView::Other => ParsedView::Nothing,
    }
}

/// What the outcome of one attempt to receive an event asks for: nothing
/// where nothing was received.
pub open spec fn parsed_of(received: Result<InputEvent, ReceiveError>) -> ParsedView {
    match received {
        Ok(event) => translated(event@),
        Err(_) => ParsedView::Nothing,
    }
}

/// The command that is due once the cursor's position, where it was asked
/// for, is known as `position`.
pub open spec fn completed(parsed: ParsedView, position: Seq<char>) -> Option<CommandView> {
    match parsed {
        ParsedView::Nothing => None,
        ParsedView::Command(command) => Some(command),
        ParsedView::CursorQuery => Some(CommandView::Debug(cursor_note(position))),
    }
}

/// Whether handling an event ends the session: only when the command is
/// `Exit`.
pub open spec fn exits(command: Option<CommandView>) -> bool {
    command == Some(CommandView::Exit)
}

/// What handling an event puts on the command channel: every command but
/// `Exit`.
pub open spec fn enqueued(command: Option<CommandView>) -> Option<CommandView> {
    if exits(command) {
        None
    } else {
        command
    }
}

/// Handling an event ends the session exactly when the event is the Escape
/// key. Every other key puts exactly one command on the channel, and what
/// is no key puts none there.
pub proof fn lemma_exit_only_on_escape(event: InputEventView, position: Seq<char>)
    ensures
        exits(completed(translated(event), position)) <==> event == InputEventView::Key(
            KeyView::Esc,
        ),
        event is Key && event != InputEventView::Key(KeyView::Esc) ==> enqueued(
            completed(translated(event), position),
        ) is Some,
        event == InputEventView::Key(KeyView::Esc) || event is Other ==> enqueued(
            completed(translated(event), position),
        ) is None,
{
}

/// Nothing received, for whichever reason, asks for nothing.
pub proof fn lemma_nothing_received(error: ReceiveError)
    ensures
        parsed_of(Err(error)) == ParsedView::Nothing,
        completed(parsed_of(Err(error)), Seq::empty()) is None,
{
}

fn bind(c: char) -> (parsed: Parsed)
    ensures
        parsed@ == bound_to(c),
{
    if c == 'h' {
        Parsed::Command(Command::Move(Movement::Left))
    } else if c == 'j' {
        Parsed::Command(Command::Move(Movement::Down))
    } else if c == 'k' {
        Parsed::Command(Command::Move(Movement::Up))
    } else if c == 'l' {
        Parsed::Command(Command::Move(Movement::Right))
    } else if c == 'm' {
        Parsed::Command(Command::Mark)
    } else if c == 'y' {
        Parsed::Command(Command::Copy)
    } else if c == 'd' {
        Parsed::Command(Command::Cut)
    } else if c == 'p' {
        Parsed::Command(Command::Paste)
    } else if c == 'u' {
        Parsed::Command(Command::Undo)
    } else if c == 'c' {
        Parsed::CursorQuery
    } else {
        let mut note = String::from_str("\rChar(");
        push_char(&mut note, c);
        note.append(")\r");
        Parsed::Command(Command::Debug(note))
    }
}

/// Turns an input event into what it asks for.
pub fn translate(event: InputEvent) -> (parsed: Parsed)
    ensures
        parsed@ == translated(event@),
{
    match event {
        InputEvent::Key(Key::Esc) => Parsed::Command(Command::Exit),
        InputEvent::Key(Key::Char(c)) => bind(c),
        InputEvent::Key(Key::Other(description)) => {
            let mut note = String::from_str("\rEvent::");
            note.append(description.as_str());
            note.append("\r");
            Parsed::Command(Command::Debug(note))
        },
        InputEvent::Other => Parsed::Nothing,
    }
}

/// Turns the outcome of one attempt to receive an event into what it asks
/// for. An empty channel asks for nothing, and so does one whose senders
/// are gone.
pub fn parse_received(received: Result<InputEvent, ReceiveError>) -> (parsed: Parsed)
    ensures
        parsed@ == parsed_of(received),
{
    match received {
        Ok(event) => translate(event),
        Err(_) => Parsed::Nothing,
    }
}

impl Parsed {
    /// Whether the cursor's position has to be asked of the terminal before
    /// the command can be made.
    pub fn needs_cursor(&self) -> (needed: bool)
        ensures
            needed == (self@ == ParsedView::CursorQuery),
    {
        match self {
            Parsed::CursorQuery => true,
            _ => false,
        }
    }

    /// The command that is due. `position` is the cursor's position as
    /// text; it is looked at only where `needs_cursor` holds.
    pub fn complete(self, position: &str) -> (command: Option<Command>)
        ensures
            match completed(self@, position@) {
                Some(c) => command matches Some(made) && made@ == c,
                None => command is None,
            },
    {
        match self {
            Parsed::Nothing => None,
            Parsed::Command(command) => Some(command),
            Parsed::CursorQuery => {
                let mut note = String::from_str("Cursor position: ");
                note.append(position);
                note.append("\r");
                Some(Command::Debug(note))
            },
        }
    }
}

} // verus!
