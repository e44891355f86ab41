use std::io::{Error, ErrorKind};
use suha::event::{Command, DispatchError, Mode, Movement};

#[test]
fn movement_names() {
    assert_eq!(Movement::Up.to_text(), "Up");
    assert_eq!(Movement::Down.to_text(), "Down");
    assert_eq!(Movement::Left.to_text(), "Left");
    assert_eq!(Movement::Right.to_text(), "Right");
    assert_eq!(Movement::In.to_text(), "In");
    assert_eq!(Movement::Out.to_text(), "Out");
}

#[test]
fn plain_commands_as_text() {
    assert_eq!(Command::Exit.to_text(), "\rCommand(Exit)\r");
    assert_eq!(Command::Mark.to_text(), "\rCommand(Mark)\r");
    assert_eq!(Command::Copy.to_text(), "\rCommand(Copy)\r");
    assert_eq!(Command::Cut.to_text(), "\rCommand(Cut)\r");
    assert_eq!(Command::Paste.to_text(), "\rCommand(Paste)\r");
    assert_eq!(Command::Undo.to_text(), "\rCommand(Undo)\r");
}

#[test]
fn move_commands_as_text() {
    assert_eq!(Command::Move(Movement::Up).to_text(), "\rCommand(Move(Up))\r");
    assert_eq!(Command::Move(Movement::Left).to_text(), "\rCommand(Move(Left))\r");
    assert_eq!(Command::Move(Movement::Out).to_text(), "\rCommand(Move(Out))\r");
}

#[test]
fn messages_as_text() {
    assert_eq!(Command::Debug("probe".to_string()).to_text(), "\rDebug: probe\r");
    assert_eq!(Command::Error("broken".to_string()).to_text(), "\rError: broken\r");
    assert_eq!(Command::Debug(String::new()).to_text(), "\rDebug: \r");
}

#[test]
fn only_exit_is_exit() {
    assert!(Command::Exit.is_exit());
    assert!(!Command::Mark.is_exit());
    assert!(!Command::Move(Movement::Down).is_exit());
    assert!(!Command::Debug("Exit".to_string()).is_exit());
    assert!(!Command::Error("Exit".to_string()).is_exit());
}

#[test]
fn dispatch_error_wraps_an_io_error() {
    let wrapped = DispatchError::from(Error::new(ErrorKind::BrokenPipe, "pipe"));
    let DispatchError::Io(inner) = wrapped;
    assert_eq!(inner.kind(), ErrorKind::BrokenPipe);
    assert_eq!(inner.to_string(), "pipe");
}

#[test]
fn modes_are_distinct() {
    assert_ne!(Mode::Normal, Mode::Macro);
    assert_ne!(Mode::Macro, Mode::Command);
    assert_ne!(Mode::Normal, Mode::Command);
}
