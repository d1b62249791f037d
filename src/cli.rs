//! Command-line options and their resolution into run options.

use crate::clock::RunClockOptions;
use crate::theme::{builtin_themes, find_theme, first_named};
use vstd::prelude::*;

verus! {

/// The options the clock is started with.
#[derive(Clone, Debug)]
pub struct CliOptions {
    /// Name of the theme.
    pub theme: String,
    /// How often the clock is redrawn, in milliseconds.
    pub tick: usize,
    pub hide_second_hand: bool,
    pub hide_hour_labels: bool,
    pub show_minute_labels: bool,
}

/// The run options for the command line, with the theme resolved by name.
pub open spec fn run_options_of(cli: CliOptions) -> Option<RunClockOptions> {
    match first_named(builtin_themes(), cli.theme@) {
        Some(theme) => Some(
            RunClockOptions {
                theme,
                tick_interval_ms: cli.tick as u64,
                show_second_hand: !cli.hide_second_hand,
                show_hour_labels: !cli.hide_hour_labels,
                show_minute_labels: cli.show_minute_labels,
            },
        ),
        None => None,
    }
}

impl CliOptions {
    /// Resolves the options; `None` where no built-in theme has the name.
    pub fn run_options(&self) -> (r: Option<RunClockOptions>)
        ensures
            r == run_options_of(*self),
    {
        match find_theme(self.theme.as_str()) {
            Some(theme) => Some(
                RunClockOptions {
                    theme,
                    tick_interval_ms: self.tick as u64,
                    show_second_hand: !self.hide_second_hand,
                    show_hour_labels: !self.hide_hour_labels,
                    show_minute_labels: self.show_minute_labels,
                },
            ),
            None => None,
        }
    }
}

} // verus!
