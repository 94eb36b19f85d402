//! The format service: one request, from the eligibility check to the outcome.
//!
//! The service neither walks directories nor calls the engine. It decides: it
//! names the next thing to be done outside, and takes what came of it. A
//! request starts with [`begin`], which asks for the walk of the file's
//! directory. Each event is then handed to [`crate::format`], which answers with the
//! next action, until the action is a final one.

use crate::bindings::{encode_spec, parse_spec, texts, ForeignArgs, ForeignArgsView};
use crate::is_ignore::{is_ignored_spec, paths};
use crate::{FormatOutcome, FormatResult};
use vstd::prelude::*;
use vstd::slice::slice_to_vec;

verus! {

/// Why a request ended without an outcome.
#[derive(Debug, Clone, Copy, PartialEq, Eq, Structural)]
pub enum FormatError {
    /// Whether the file is ignored could not be found out.
    EligibilityCheckFailed,
    /// An event came that the request was not waiting for.
    OutOfTurn,
}

/// Where a request stands, as a value of specifications.
pub enum StateView {
    Checking { path: Seq<u8>, content: Seq<char> },
    Invoking,
    Finished,
}

/// What happened outside, as a value of specifications.
pub enum EventView {
    Walked { entries: Seq<Seq<u8>> },
    WalkFailed,
    Responded { response: Seq<u8> },
}

/// What is to be done next, as a value of specifications.
pub enum ActionView {
    Walk,
    Invoke { args: ForeignArgsView },
    Finish { result: FormatOutcome },
    Abort { error: FormatError },
}

/// Where a request stands.
#[derive(Debug, Clone, PartialEq, Eq)]
pub enum FormatState {
    /// The walk of the file's directory is awaited.
    Checking { path: Vec<u8>, content: String },
    /// The engine's answer is awaited.
    Invoking,
    /// The request is over.
    Finished,
}

/// What happened outside.
#[derive(Debug, Clone, PartialEq, Eq)]
pub enum FormatEvent {
    /// The walk was made and yielded these paths.
    Walked { entries: Vec<Vec<u8>> },
    /// The walk could not be made.
    WalkFailed,
    /// The engine answered with these bytes, the terminating null byte left out.
    Responded { response: Vec<u8> },
}

/// What is to be done next.
#[derive(Debug, Clone, PartialEq, Eq)]
pub enum FormatAction {
    /// Walk the directory that holds the file, and report what the walk yields.
    Walk,
    /// Call the engine once with these arguments, and report its answer.
    Invoke { args: ForeignArgs },
    /// The request is over, with this outcome.
    Finish { result: FormatResult },
    /// The request is over, without an outcome.
    Abort { error: FormatError },
}

impl View for FormatState {
    type V = StateView;

    open spec fn view(&self) -> StateView {
        match *self {
            FormatState::Checking { path, content } => StateView::Checking {
                path: path@,
                content: content@,
            },
            FormatState::Invoking => StateView::Invoking,
            FormatState::Finished => StateView::Finished,
        }
    }
}

impl View for FormatEvent {
    type V = EventView;

    open spec fn view(&self) -> EventView {
        match *self {
            FormatEvent::Walked { entries } => EventView::Walked { entries: paths(entries@) },
            FormatEvent::WalkFailed => EventView::WalkFailed,
            FormatEvent::Responded { response } => EventView::Responded { response: response@ },
        }
    }
}

impl View for FormatAction {
    type V = ActionView;

    open spec fn view(&self) -> ActionView {
        match *self {
            FormatAction::Walk => ActionView::Walk,
            FormatAction::Invoke { args } => ActionView::Invoke { args: args@ },
            FormatAction::Finish { result } => ActionView::Finish { result: result@ },
            FormatAction::Abort { error } => ActionView::Abort { error },
        }
    }
}

/// The outcome that a decoded answer stands for.
pub open spec fn outcome_of(answer: Result<Seq<char>, Seq<char>>) -> FormatOutcome {
    match answer {
        Ok(formatted_content) => FormatOutcome::Success { formatted_content },
        Err(error) => FormatOutcome::Error { error },
    }
}

/// What a request that awaits its walk does once the walk is made: an ignored
/// file ends it, a request that cannot be encoded ends it with the reason, and
/// any other goes to the engine.
pub open spec fn after_walk(path: Seq<u8>, content: Seq<char>, entries: Seq<Seq<u8>>) -> (
    StateView,
    ActionView,
) {
    if is_ignored_spec(path, entries) {
        (StateView::Finished, ActionView::Finish { result: FormatOutcome::Ignored })
    } else {
        match encode_spec(path, content) {
            Ok(args) => (StateView::Invoking, ActionView::Invoke { args }),
            Err(e) => (
                StateView::Finished,
                ActionView::Finish { result: FormatOutcome::Error { error: e.message_spec() } },
            ),
        }
    }
}

/// The state and the action that follow an event.
pub open spec fn step(state: StateView, event: EventView) -> (StateView, ActionView) {
    match (state, event) {
        (StateView::Checking { path, content }, EventView::Walked { entries }) => after_walk(
            path,
            content,
            entries,
        ),
        (StateView::Checking { .. }, EventView::WalkFailed) => (
            StateView::Finished,
            ActionView::Abort { error: FormatError::EligibilityCheckFailed },
        ),
        (StateView::Invoking, EventView::Responded { response }) => (
            StateView::Finished,
            ActionView::Finish { result: outcome_of(parse_spec(response)) },
        ),
        _ => (StateView::Finished, ActionView::Abort { error: FormatError::OutOfTurn }),
    }
}

/// The state and the action with which a request starts.
pub open spec fn begin_spec(path: Seq<u8>, content: Seq<char>) -> (StateView, ActionView) {
    (StateView::Checking { path, content }, ActionView::Walk)
}

/// Starts a request to format the code `target_content` of the file at
/// `target_path`. The first thing to be done is the walk of the file's
/// directory.
pub fn begin(target_path: &[u8], target_content: &str) -> (r: (FormatState, FormatAction))
    ensures
        (r.0@, r.1@) == begin_spec(target_path@, target_content@),
{
    (
        FormatState::Checking {
            path: slice_to_vec(target_path),
            content: target_content.to_owned(),
        },
        FormatAction::Walk,
    )
}

/// The outcome for a decoded answer.
pub fn outcome(answer: Result<String, String>) -> (result: FormatResult)
    ensures
        result@ == outcome_of(texts(answer)),
{
    match answer {
        Ok(formatted_content) => FormatResult::Success { formatted_content },
        Err(error) => FormatResult::Error { error },
    }
}

} // verus!
