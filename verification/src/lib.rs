//! Session state of a terminal file browser: a cache of directory listings
//! that follows a path up to the root, and the table that turns keyboard
//! input into commands.
//!
//! The library reads no file and no terminal. Whoever uses it does the
//! reading and hands over what was read: the children of a directory as a
//! `fs::Listing`, an input event as an `event::InputEvent`. What is done
//! with these values is decided, and proved, here.

pub mod boundary;
pub mod config;
pub mod event;
pub mod fs;
pub mod option;
pub mod text;
