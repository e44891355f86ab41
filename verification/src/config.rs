//! The settings that a configuration file can hold.

use crate::option::DisplayOptions;
use vstd::prelude::*;

verus! {

/// The user's settings. Where no configuration file is found, the default
/// shows neither hidden entries nor icons.
#[derive(Debug, Clone, Copy, PartialEq, Eq, Structural)]
pub struct Config {
    pub show_hidden: bool,
    pub show_icons: bool,
}

impl Default for Config {
    fn default() -> (config: Self)
        ensures
            !config.show_hidden,
            !config.show_icons,
    {
        Self { show_hidden: false, show_icons: false }
    }
}

impl Config {
    /// The settings that the first readable configuration file gives.
    /// `attempts` holds, in the order in which the candidate files are
    /// tried, what each of them gave: `None` for a file that is missing or
    /// cannot be parsed. The default stands in where none could be read.
    pub open spec fn chosen(attempts: Seq<Option<Config>>) -> Config
        decreases attempts.len(),
    {
        if attempts.len() == 0 {
            Config { show_hidden: false, show_icons: false }
        } else {
            match attempts[0] {
                Some(config) => config,
                None => Self::chosen(attempts.skip(1)),
            }
        }
    }

    /// Picks the settings of the first candidate file that could be read.
    pub fn try_load(attempts: &Vec<Option<Config>>) -> (config: Self)
        ensures
            config == Self::chosen(attempts@),
    {
        let n = attempts.len();
        let mut i: usize = 0;
        assert(attempts@.skip(0) =~= attempts@);
        while i < n
            invariant
                i <= n,
                n == attempts@.len(),
                Self::chosen(attempts@) == Self::chosen(attempts@.skip(i as int)),
            decreases n - i,
        {
            match attempts[i] {
                Some(config) => {
                    return config;
                },
                None => {
                    assert(attempts@.skip(i as int).skip(1) =~= attempts@.skip(i + 1));
                },
            }
            i += 1;
        }
        Config::default()
    }

    /// The display switches that these settings ask for.
    pub fn display_options(&self) -> (options: DisplayOptions)
        ensures
            options.show_hidden == self.show_hidden,
            options.show_icons == self.show_icons,
    {
        DisplayOptions::new(self.show_hidden, self.show_icons)
    }
}

} // verus!
