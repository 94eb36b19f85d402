//! A formatting service in front of an engine that is reached through a
//! foreign call: which files are eligible, how a request crosses the boundary,
//! and how the engine's tagged answer is read back.

use crate::bindings::{encode, parse_result};
use crate::is_ignore::is_ignored;
use crate::service::{outcome, step, FormatAction, FormatError, FormatEvent, FormatState};
use vstd::prelude::*;

pub mod bindings;
pub mod is_ignore;
pub mod runs;
pub mod service;

verus! {

/// The outcome of one request, as a value of specifications.
pub enum FormatOutcome {
    Success { formatted_content: Seq<char> },
    Error { error: Seq<char> },
    Ignored,
}

/// The outcome of one request.
#[derive(Debug, Clone, PartialEq, Eq)]
pub enum FormatResult {
    /// The engine answered with formatted text.
    Success { formatted_content: String },
    /// The engine reported a failure, or the request could not cross the boundary.
    Error { error: String },
    /// The file is excluded from formatting; nothing was attempted.
    Ignored,
}

impl View for FormatResult {
    type V = FormatOutcome;

    open spec fn view(&self) -> FormatOutcome {
        match *self {
            FormatResult::Success { formatted_content } => FormatOutcome::Success {
                formatted_content: formatted_content@,
            },
            FormatResult::Error { error } => FormatOutcome::Error { error: error@ },
            FormatResult::Ignored => FormatOutcome::Ignored,
        }
    }
}

/// Takes a request one step on: from the state it stands in and the event that
/// came, to the state that follows and the action to be done next.
///
/// After the walk, a file that the walk did not yield is ignored, and the
/// request is over. A request that cannot be encoded is over with an error
/// outcome. Any other request is handed to the engine, once. The engine's
/// answer is decoded, and the request is over. A failed walk, and an event
/// that the state was not waiting for, end the request without an outcome.
pub fn format(state: FormatState, event: FormatEvent) -> (r: (FormatState, FormatAction))
    ensures
        (r.0@, r.1@) == step(state@, event@),
{
    match state {
        FormatState::Checking { path, content } => match event {
            FormatEvent::Walked { entries } => {
                if is_ignored(path.as_slice(), &entries) {
                    (FormatState::Finished, FormatAction::Finish { result: FormatResult::Ignored })
                } else {
                    match encode(path.as_slice(), content.as_str()) {
                        Ok(args) => (FormatState::Invoking, FormatAction::Invoke { args }),
                        Err(e) => (
                            FormatState::Finished,
                            FormatAction::Finish {
                                result: FormatResult::Error { error: e.message() },
                            },
                        ),
                    }
                }
            },
            FormatEvent::WalkFailed => (
                FormatState::Finished,
                FormatAction::Abort { error: FormatError::EligibilityCheckFailed },
            ),
            FormatEvent::Responded { .. } => (
                FormatState::Finished,
                FormatAction::Abort { error: FormatError::OutOfTurn },
            ),
        },
        FormatState::Invoking => match event {
            FormatEvent::Responded { response } => (
                FormatState::Finished,
                FormatAction::Finish { result: outcome(parse_result(response.as_slice())) },
            ),
            _ => (FormatState::Finished, FormatAction::Abort { error: FormatError::OutOfTurn }),
        },
        FormatState::Finished => (
            FormatState::Finished,
            FormatAction::Abort { error: FormatError::OutOfTurn },
        ),
    }
}

} // verus!
