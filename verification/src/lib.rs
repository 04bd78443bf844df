//! Release orchestration for a workspace of interdependent packages.
//!
//! The crate decides the next version for each package, computes a
//! dependency-respecting processing order, builds an immutable release plan
//! per package, reconciles the version requirements of same-workspace
//! dependents, and drives a seven-phase release pipeline as a pure state
//! machine.  Everything that touches the outside world (git, the registry,
//! manifests on disk) is represented as explicit actions and events, so the
//! decision logic is verified for every possible outcome of those calls.

use vstd::prelude::*;

pub mod cargo;
pub mod config;
pub mod error;
pub mod git;
pub mod graph;
pub mod messages;
pub mod pipeline;
pub mod plan;
pub mod reconcile;
pub mod requirement;
pub mod template;
pub mod version;

verus! {

/// Which feature flags a publish should use.
#[derive(Debug)]
pub enum Features {
    /// No special features.
    Nothing,
    /// Only the selected features.
    Selective(Vec<String>),
    /// All features, via `--all-features`.
    All,
}

/// A log severity, most severe first.
#[derive(Clone, Copy, Debug, PartialEq, Eq, Structural)]
pub enum LogLevel {
    Error,
    Warn,
    Info,
    Debug,
    Trace,
}

/// Verbosity flags from the command line: each repetition of the quiet flag
/// lowers the log level, each repetition of the verbose flag raises it.
#[derive(Clone, Copy, Debug, PartialEq, Eq, Structural)]
pub struct Verbosity {
    pub quiet: i8,
    pub verbose: i8,
}

impl Verbosity {
    /// The log level: information by default, shifted down by quiet flags
    /// and up by verbose flags.
    pub fn log_level(&self) -> (r: LogLevel)
        ensures
            r == ({
                let n = 2 - self.quiet as int + self.verbose as int;
                if n <= 0 {
                    LogLevel::Error
                } else if n == 1 {
                    LogLevel::Warn
                } else if n == 2 {
                    LogLevel::Info
                } else if n == 3 {
                    LogLevel::Debug
                } else {
                    LogLevel::Trace
                }
            }),
    {
        let n: i32 = 2 - (self.quiet as i32) + (self.verbose as i32);
        if n <= 0 {
            LogLevel::Error
        } else if n == 1 {
            LogLevel::Warn
        } else if n == 2 {
            LogLevel::Info
        } else if n == 3 {
            LogLevel::Debug
        } else {
            LogLevel::Trace
        }
    }
}

} // verus!
