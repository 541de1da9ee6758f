//! How an invocation ended, and whether it may ask a question.

use vstd::prelude::*;
use crate::event::{Counts, Format};

verus! {

/// How an invocation ended.
#[derive(Debug, Clone, Copy, PartialEq, Eq, Structural)]
pub enum Outcome {
    /// The run completed and no file was skipped.
    Success,
    /// The run completed, but at least one file was skipped.
    Partial,
    /// The run did not happen.
    Fatal,
}

/// The exit code of a run that completed with nothing skipped.
pub const SUCCESS: i32 = 0;

/// The exit code of a run that never started.
pub const FATAL: i32 = 1;

/// The exit code of a completed run that skipped at least one file.
pub const PARTIAL: i32 = 2;

impl Outcome {
    /// The process exit code this outcome leaves behind.
    pub fn code(self) -> (code: i32)
        ensures
            code == match self {
                Outcome::Success => SUCCESS,
                Outcome::Partial => PARTIAL,
                Outcome::Fatal => FATAL,
            },
    {
        match self {
            Outcome::Success => SUCCESS,
            Outcome::Partial => PARTIAL,
            Outcome::Fatal => FATAL,
        }
    }
}

/// How a run that completed ended, from its totals: partial when
/// anything was skipped, a success otherwise. A run that produced totals
/// is a run that happened, so it is never fatal.
pub fn outcome_for(counts: &Counts) -> (outcome: Outcome)
    ensures
        outcome == (if counts.skipped > 0 {
            Outcome::Partial
        } else {
            Outcome::Success
        }),
{
    if counts.skipped > 0 {
        Outcome::Partial
    } else {
        Outcome::Success
    }
}

/// Whether this invocation may ask the person running it a question.
#[derive(Debug, Clone, Copy, PartialEq, Eq, Structural)]
pub enum Interaction {
    /// A question may be put, and an answer waited for.
    Allowed,
    /// Nothing may be asked; every question takes its safe answer.
    Forbidden,
}

/// Whether `format` and a terminal on stdin leave room to ask: both a
/// terminal and the human format are needed.
pub fn interaction(stdin_is_terminal: bool, format: Format) -> (i: Interaction)
    ensures
        i == (if stdin_is_terminal && format == Format::Human {
            Interaction::Allowed
        } else {
            Interaction::Forbidden
        }),
{
    if stdin_is_terminal && format == Format::Human {
        Interaction::Allowed
    } else {
        Interaction::Forbidden
    }
}

/// The answer to a yes/no question under `interaction`.
///
/// `ask` is called only when asking is allowed; when it is forbidden the
/// question is not put and the answer is `false`, so an unasked
/// confirmation is never granted.
pub fn confirm(interaction: Interaction, ask: impl FnOnce() -> bool) -> (answer: bool)
    requires
        interaction == Interaction::Allowed ==> call_requires(ask, ()),
    ensures
        interaction == Interaction::Forbidden ==> !answer,
        interaction == Interaction::Allowed ==> call_ensures(ask, (), answer),
{
    match interaction {
        Interaction::Allowed => ask(),
        Interaction::Forbidden => false,
    }
}

} // verus!
