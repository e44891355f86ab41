//! How key events are to be read.

use vstd::prelude::*;

verus! {

/// The mode that decides where key events go.
#[derive(Debug, Clone, Copy, PartialEq, Eq, Structural)]
pub enum Mode {
    /// Standard key bindings.
    Normal,
    /// Key events go to the sub-commands of a macro.
    Macro,
    /// Key events are collected into a text that is read as a command.
    Command,
}

} // verus!
