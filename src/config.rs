//! Which checks run and in which output format.

use vstd::prelude::*;

verus! {

/// The output format used when neither the configuration nor the command
/// line chooses one.
pub const DEFAULT_FORMAT: &'static str = "text";

/// The checks a configuration turns on or off.
#[derive(Clone, Copy, Debug, PartialEq, Eq, Structural)]
pub struct Checks {
    pub library: bool,
    pub pacman: bool,
    pub audit: bool,
}

/// The output section of a configuration.
#[derive(Clone, Debug, PartialEq, Eq)]
pub struct Output {
    pub format: String,
}

/// A configuration file's contents.
#[derive(Clone, Debug, PartialEq, Eq)]
pub struct Config {
    pub checks: Checks,
    pub output: Output,
}

/// What a run does, once the configuration and the command line are
/// combined.
#[derive(Clone, Debug, PartialEq, Eq)]
pub struct Settings {
    pub format: String,
    pub checks: Checks,
}

impl Checks {
    /// The checks that run without a configuration: the shared-library and
    /// package-consistency checks, not the vulnerability audit.
    pub fn defaults() -> (r: Checks)
        ensures
            r.library,
            r.pacman,
            !r.audit,
    {
        Checks { library: true, pacman: true, audit: false }
    }
}

/// Combines a configuration, if one was found, with the format given on the
/// command line: a configuration decides both the checks and the format;
/// without one the default checks run in the command line's format.
pub fn resolve_settings(config: Option<Config>, cli_format: String) -> (r: Settings)
    ensures
        match config {
            Some(c) => r.format@ == c.output.format@ && r.checks == c.checks,
            None => r.format@ == cli_format@ && r.checks.library && r.checks.pacman
                && !r.checks.audit,
        },
{
    match config {
        Some(c) => Settings { format: c.output.format, checks: c.checks },
        None => Settings { format: cli_format, checks: Checks::defaults() },
    }
}

} // verus!
