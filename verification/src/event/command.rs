//! The commands that keyboard input is turned into.

use std::io::Error;
use vstd::prelude::*;

verus! {

/// A step of the cursor.
#[derive(Debug, Clone, Copy, PartialEq, Eq, Structural)]
pub enum Movement {
    Up,
    Down,
    Left,
    Right,
    /// Into file inspection.
    In,
    /// Out of file inspection.
    Out,
}

impl Movement {
    /// The direction's name.
    pub open spec fn name(self) -> Seq<char> {
        match self {
            Movement::Up => "Up"@,
            Movement::Down => "Down"@,
            Movement::Left => "Left"@,
            Movement::Right => "Right"@,
            Movement::In => "In"@,
            Movement::Out => "Out"@,
        }
    }

    pub fn to_text(&self) -> (text: String)
        ensures
            text@ == self.name(),
    {
        match self {
            Movement::Up => String::from_str("Up"),
            Movement::Down => String::from_str("Down"),
            Movement::Left => String::from_str("Left"),
            Movement::Right => String::from_str("Right"),
            Movement::In => String::from_str("In"),
            Movement::Out => String::from_str("Out"),
        }
    }
}

/// What the user asked for. Apart from `Exit`, `Debug` and `Error` the
/// commands are carried along and not yet acted on.
#[derive(Debug, Clone, PartialEq, Eq)]
pub enum Command {
    Exit,
    Mark,
    Copy,
    Cut,
    Paste,
    Undo,
    Move(Movement),
    /// A diagnostic message.
    Debug(String),
    /// An error message.
    Error(String),
}

/// The mathematical content of a `Command`.
pub enum CommandView {
    Exit,
    Mark,
    Copy,
    Cut,
    Paste,
    Undo,
    Move(Movement),
    Debug(Seq<char>),
    Error(Seq<char>),
}

impl View for Command {
    type V = CommandView;

    open spec fn view(&self) -> CommandView {
        match self {
            Command::Exit => CommandView::Exit,
            Command::Mark => CommandView::Mark,
            Command::Copy => CommandView::Copy,
            Command::Cut => CommandView::Cut,
            Command::Paste => CommandView::Paste,
            Command::Undo => CommandView::Undo,
            Command::Move(m) => CommandView::Move(*m),
            Command::Debug(s) => CommandView::Debug(s@),
            Command::Error(s) => CommandView::Error(s@),
        }
    }
}

impl CommandView {
    /// What a status line says of the command, without the carriage returns
    /// around it.
    pub open spec fn message(self) -> Seq<char> {
        match self {
            CommandView::Exit => "Command(Exit)"@,
            CommandView::Mark => "Command(Mark)"@,
            CommandView::Copy => "Command(Copy)"@,
            CommandView::Cut => "Command(Cut)"@,
            CommandView::Paste => "Command(Paste)"@,
            CommandView::Undo => "Command(Undo)"@,
            CommandView::Move(m) => "Command(Move("@ + m.name() + "))"@,
            CommandView::Debug(s) => "Debug: "@ + s,
            CommandView::Error(s) => "Error: "@ + s,
        }
    }

    /// The command as a status line shows it: its message between two
    /// carriage returns.
    pub open spec fn text(self) -> Seq<char> {
        "\r"@ + self.message() + "\r"@
    }
}

impl Command {
    /// The command as a status line shows it.
    pub fn to_text(&self) -> (text: String)
        ensures
            text@ == self@.text(),
    {
        let mut text = String::from_str("\r");
        match self {
            Command::Exit => text.append("Command(Exit)"),
            Command::Mark => text.append("Command(Mark)"),
            Command::Copy => text.append("Command(Copy)"),
            Command::Cut => text.append("Command(Cut)"),
            Command::Paste => text.append("Command(Paste)"),
            Command::Undo => text.append("Command(Undo)"),
            Command::Move(m) => {
                let mut message = String::from_str("Command(Move(");
                message.append(m.to_text().as_str());
                message.append("))");
                text.append(message.as_str());
            },
            Command::Debug(s) => {
                let mut message = String::from_str("Debug: ");
                message.append(s.as_str());
                text.append(message.as_str());
            },
            Command::Error(s) => {
                let mut message = String::from_str("Error: ");
                message.append(s.as_str());
                text.append(message.as_str());
            },
        }
        text.append("\r");
        text
    }

    /// Whether the command ends the session.
    pub fn is_exit(&self) -> (exit: bool)
        ensures
            exit == (self@ == CommandView::Exit),
    {
        match self {
            Command::Exit => true,
            _ => false,
        }
    }
}

/// Why a command could not be carried out.
#[derive(Debug)]
pub enum DispatchError {
    Io(Error),
}

impl From<Error> for DispatchError {
    fn from(err: Error) -> (wrapped: Self) {
        DispatchError::Io(err)
    }
}

impl vstd::std_specs::convert::FromSpecImpl<Error> for DispatchError {
    open spec fn obeys_from_spec() -> bool {
        true
    }

    open spec fn from_spec(err: Error) -> Self {
        DispatchError::Io(err)
    }
}

} // verus!
