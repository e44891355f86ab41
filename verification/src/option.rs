//! The two display switches that shape every directory listing.

use vstd::prelude::*;

verus! {

/// Display switches handed to every listing operation.
#[derive(Debug, Clone, Copy, PartialEq, Eq, Structural)]
pub struct DisplayOptions {
    /// Keep entries whose name starts with a dot.
    pub show_hidden: bool,
    /// Prefix each entry's label with its icon.
    pub show_icons: bool,
}

impl DisplayOptions {
    pub fn new(show_hidden: bool, show_icons: bool) -> (options: Self)
        ensures
            options.show_hidden == show_hidden,
            options.show_icons == show_icons,
    {
        Self { show_hidden, show_icons }
    }
}

impl Default for DisplayOptions {
    fn default() -> (options: Self)
        ensures
            !options.show_hidden,
            !options.show_icons,
    {
        Self { show_hidden: false, show_icons: false }
    }
}

} // verus!
