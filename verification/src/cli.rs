//! What the command line selects: the workflow to run and how much to log.

use crate::text::text_is;
use vstd::prelude::*;
use vstd::string::*;

verus! {

/// The workflows that can be asked for.
#[derive(Debug, Clone, Copy, PartialEq, Eq, Structural)]
pub enum Subcommand {
    /// Register a new identity with the remote application.
    Configure,
    /// Fetch the login for a credential request.
    Get,
    /// Create or update the login of a credential request.
    Store,
    /// Delete a login. The remote application offers no way to do that, so
    /// the helper has none either.
    Erase,
}

/// The workflow that a name on the command line stands for.
pub open spec fn named_subcommand(name: Seq<char>) -> Option<Subcommand> {
    if name == "configure"@ {
        Some(Subcommand::Configure)
    } else if name == "get"@ {
        Some(Subcommand::Get)
    } else if name == "store"@ {
        Some(Subcommand::Store)
    } else if name == "erase"@ {
        Some(Subcommand::Erase)
    } else {
        None
    }
}

impl Subcommand {
    /// The workflow that a name on the command line stands for, if any.
    pub fn from_name(name: &str) -> (subcommand: Option<Subcommand>)
        ensures
            subcommand == named_subcommand(name@),
    {
        let name = String::from_str(name);
        if text_is(&name, "configure") {
            Some(Subcommand::Configure)
        } else if text_is(&name, "get") {
            Some(Subcommand::Get)
        } else if text_is(&name, "store") {
            Some(Subcommand::Store)
        } else if text_is(&name, "erase") {
            Some(Subcommand::Erase)
        } else {
            None
        }
    }

    /// Whether the helper can run the workflow.
    pub fn is_supported(&self) -> (r: bool)
        ensures
            r == (*self != Subcommand::Erase),
    {
        match self {
            Subcommand::Erase => false,
            _ => true,
        }
    }
}

/// How much is logged, from the least to the most.
#[derive(Debug, Clone, Copy, PartialEq, Eq, Structural)]
pub enum LogLevel {
    Critical,
    Error,
    Warning,
    Info,
    Debug,
    Trace,
}

/// The level that a number of `verbose` flags asks for: errors without any
/// flag, one level more with each flag up to everything with four, and
/// errors again beyond that.
pub open spec fn level_of(verbose: u64) -> LogLevel {
    if verbose == 1 {
        LogLevel::Warning
    } else if verbose == 2 {
        LogLevel::Info
    } else if verbose == 3 {
        LogLevel::Debug
    } else if verbose == 4 {
        LogLevel::Trace
    } else {
        LogLevel::Error
    }
}

/// The level at which to log for a number of `verbose` flags.
pub fn log_level(verbose: u64) -> (level: LogLevel)
    ensures
        level == level_of(verbose),
{
    match verbose {
        1 => LogLevel::Warning,
        2 => LogLevel::Info,
        3 => LogLevel::Debug,
        4 => LogLevel::Trace,
        _ => LogLevel::Error,
    }
}

} // verus!
