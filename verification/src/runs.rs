//! Whole runs of a request, and what holds of every run.
//!
//! A run is a request taken through a sequence of events. The statements here
//! speak of all runs: how often the engine is called, what an engine that
//! echoes or that settles brings about, and that requests do not touch each
//! other.

use crate::bindings::{
    decode_spec, encode_spec, is_whitespace, leading_whitespace, parse_spec, trim_start,
    ForeignArgsView,
};
use crate::is_ignore::is_ignored_spec;
use crate::service::{step, ActionView, EventView, StateView};
use crate::FormatOutcome;
use vstd::prelude::*;
use vstd::utf8::{decode_utf8, encode_scalar, encode_utf8};

verus! {

/// The state that a request reaches from `state` through `events`, and the
/// actions that it hands out on the way.
pub open spec fn run(state: StateView, events: Seq<EventView>) -> (StateView, Seq<ActionView>)
    decreases events.len(),
{
    if events.len() == 0 {
        (state, Seq::empty())
    } else {
        let (next, action) = step(state, events[0]);
        let (last, actions) = run(next, events.drop_first());
        (last, seq![action] + actions)
    }
}

/// How many of `actions` are calls of the engine.
pub open spec fn invocations(actions: Seq<ActionView>) -> nat
    decreases actions.len(),
{
    if actions.len() == 0 {
        0
    } else {
        (if actions[0] is Invoke {
            1nat
        } else {
            0nat
        }) + invocations(actions.drop_first())
    }
}

/// A request that awaits the engine's answer, and one that is over, never
/// call the engine, and end as finished whatever comes.
pub proof fn lemma_no_further_invocation(state: StateView, events: Seq<EventView>)
    requires
        state is Invoking || state is Finished,
    ensures
        invocations(run(state, events).1) == 0,
        events.len() > 0 ==> run(state, events).0 is Finished,
    decreases events.len(),
{
    if events.len() > 0 {
        let (next, action) = step(state, events[0]);
        let rest = run(next, events.drop_first()).1;
        lemma_no_further_invocation(next, events.drop_first());
        assert((seq![action] + rest).drop_first() =~= rest);
    }
}

/// In no run is the engine called more than once.
pub proof fn lemma_at_most_one_invocation(state: StateView, events: Seq<EventView>)
    ensures
        invocations(run(state, events).1) <= 1,
    decreases events.len(),
{
    if events.len() > 0 {
        let (next, action) = step(state, events[0]);
        let rest = run(next, events.drop_first()).1;
        assert((seq![action] + rest).drop_first() =~= rest);
        if state is Checking {
            lemma_no_further_invocation(next, events.drop_first());
        } else {
            lemma_no_further_invocation(state, events);
        }
    }
}

/// An ignored file ends its request as `Ignored` at once, and the engine is
/// not called, whatever comes after the walk.
pub proof fn lemma_ignored_is_not_invoked(
    path: Seq<u8>,
    content: Seq<char>,
    entries: Seq<Seq<u8>>,
    later: Seq<EventView>,
)
    requires
        is_ignored_spec(path, entries),
    ensures
        step(StateView::Checking { path, content }, EventView::Walked { entries }) == (
            StateView::Finished,
            ActionView::Finish { result: FormatOutcome::Ignored },
        ),
        invocations(
            run(StateView::Checking { path, content }, seq![EventView::Walked { entries }] + later).1,
        ) == 0,
{
    let start = StateView::Checking { path, content };
    let events = seq![EventView::Walked { entries }] + later;
    let (next, action) = step(start, events[0]);
    let rest = run(next, events.drop_first()).1;
    lemma_no_further_invocation(next, events.drop_first());
    assert((seq![action] + rest).drop_first() =~= rest);
}

/// A file that is not ignored, with a request that can be encoded, has the
/// engine called with the encoded request, and called exactly once, whatever
/// comes after the walk.
pub proof fn lemma_eligible_is_invoked_once(
    path: Seq<u8>,
    content: Seq<char>,
    entries: Seq<Seq<u8>>,
    later: Seq<EventView>,
)
    requires
        !is_ignored_spec(path, entries),
        encode_spec(path, content) is Ok,
    ensures
        step(StateView::Checking { path, content }, EventView::Walked { entries }) == (
            StateView::Invoking,
            ActionView::Invoke { args: encode_spec(path, content)->Ok_0 },
        ),
        invocations(
            run(StateView::Checking { path, content }, seq![EventView::Walked { entries }] + later).1,
        ) == 1,
{
    let start = StateView::Checking { path, content };
    let events = seq![EventView::Walked { entries }] + later;
    let (next, action) = step(start, events[0]);
    let rest = run(next, events.drop_first()).1;
    lemma_no_further_invocation(next, events.drop_first());
    assert((seq![action] + rest).drop_first() =~= rest);
}

/// The answer of an engine that hands `text` back under the tag for success.
pub open spec fn tagged_success(text: Seq<char>) -> Seq<u8> {
    seq![0x30u8] + encode_utf8(text)
}

/// An answer that is the tag for success and then a text decodes to that very
/// text, whitespace at its start included.
pub proof fn lemma_echo_round_trip(text: Seq<char>)
    ensures
        decode_spec(seq!['0'] + text) == Ok::<Seq<char>, Seq<char>>(text),
        parse_spec(tagged_success(text)) == Ok::<Seq<char>, Seq<char>>(text),
{
    let answer = seq!['0'] + text;
    assert(!is_whitespace('0'));
    assert(leading_whitespace(answer) == 0);
    assert(trim_start(answer) =~= answer);
    assert(answer.skip(1) =~= text);
    assert(0x30u32 & 0x7f == 0x30u32) by (bit_vector);
    assert(encode_scalar('0' as u32) =~= seq![0x30u8]);
    assert(answer.drop_first() =~= text);
    assert(encode_utf8(answer) =~= tagged_success(text));
    vstd::utf8::encode_utf8_valid_utf8(answer);
    vstd::utf8::encode_utf8_decode_utf8(answer);
}

/// The action that ends a request whose walk yields `entries`, where the
/// engine answers a call with `engine` of its arguments.
pub open spec fn served(
    path: Seq<u8>,
    content: Seq<char>,
    entries: Seq<Seq<u8>>,
    engine: spec_fn(ForeignArgsView) -> Seq<u8>,
) -> ActionView {
    let (state, action) = step(StateView::Checking { path, content }, EventView::Walked { entries });
    match action {
        ActionView::Invoke { args } => step(
            state,
            EventView::Responded { response: engine(args) },
        ).1,
        _ => action,
    }
}

/// The code that the engine is handed in `args`, as a text.
pub open spec fn code_of(args: ForeignArgsView) -> Seq<char> {
    decode_utf8(args.code.drop_last())
}

/// Where a request can be encoded, the engine is handed the very code of the
/// request.
pub proof fn lemma_code_is_handed_over(path: Seq<u8>, content: Seq<char>)
    requires
        encode_spec(path, content) is Ok,
    ensures
        code_of(encode_spec(path, content)->Ok_0) == content,
{
    assert(encode_utf8(content).push(0).drop_last() =~= encode_utf8(content));
    vstd::utf8::encode_utf8_decode_utf8(content);
}

/// An engine that answers with its input under the tag for success: the
/// outcome of a request that reaches it is `Success` with the code as it came.
pub proof fn lemma_echo_engine_succeeds(path: Seq<u8>, content: Seq<char>, entries: Seq<Seq<u8>>)
    requires
        !is_ignored_spec(path, entries),
        encode_spec(path, content) is Ok,
    ensures
        served(path, content, entries, |args: ForeignArgsView| tagged_success(code_of(args)))
            == (ActionView::Finish {
            result: FormatOutcome::Success { formatted_content: content },
        }),
{
    lemma_code_is_handed_over(path, content);
    lemma_echo_round_trip(content);
}

/// An engine that settles: it answers a code with `settle` of it, and `settle`
/// changes nothing that it has put out before. A request that reaches such an
/// engine ends in `Success` with the settled code, and a second request, for
/// that output, ends in the same outcome.
pub proof fn lemma_settling_engine_is_idempotent(
    settle: spec_fn(Seq<char>) -> Seq<char>,
    path: Seq<u8>,
    content: Seq<char>,
    entries: Seq<Seq<u8>>,
)
    requires
        forall|code: Seq<char>| #[trigger] settle(settle(code)) == settle(code),
        !is_ignored_spec(path, entries),
        encode_spec(path, content) is Ok,
        encode_spec(path, settle(content)) is Ok,
    ensures
        served(
            path,
            content,
            entries,
            |args: ForeignArgsView| tagged_success(settle(code_of(args))),
        ) == (ActionView::Finish {
            result: FormatOutcome::Success { formatted_content: settle(content) },
        }),
        served(
            path,
            settle(content),
            entries,
            |args: ForeignArgsView| tagged_success(settle(code_of(args))),
        ) == served(
            path,
            content,
            entries,
            |args: ForeignArgsView| tagged_success(settle(code_of(args))),
        ),
{
    lemma_code_is_handed_over(path, content);
    lemma_code_is_handed_over(path, settle(content));
    lemma_echo_round_trip(settle(content));
}

/// The events among `events` that are meant for one of two requests: for the
/// first where `first` holds, for the second where it does not.
pub open spec fn events_for(events: Seq<(bool, EventView)>, first: bool) -> Seq<EventView>
    decreases events.len(),
{
    if events.len() == 0 {
        Seq::empty()
    } else if events[0].0 == first {
        seq![events[0].1] + events_for(events.drop_first(), first)
    } else {
        events_for(events.drop_first(), first)
    }
}

/// Two requests taken through one sequence of events, each event marked with
/// the request that it is meant for.
pub open spec fn run_two(a: StateView, b: StateView, events: Seq<(bool, EventView)>) -> (
    (StateView, Seq<ActionView>),
    (StateView, Seq<ActionView>),
)
    decreases events.len(),
{
    if events.len() == 0 {
        ((a, Seq::empty()), (b, Seq::empty()))
    } else if events[0].0 {
        let (next, action) = step(a, events[0].1);
        let (ra, rb) = run_two(next, b, events.drop_first());
        ((ra.0, seq![action] + ra.1), rb)
    } else {
        let (next, action) = step(b, events[0].1);
        let (ra, rb) = run_two(a, next, events.drop_first());
        (ra, (rb.0, seq![action] + rb.1))
    }
}

/// Requests do not touch each other: however the events of two requests are
/// interleaved, each request ends where it ends alone, with the actions that
/// it hands out alone.
pub proof fn lemma_requests_are_independent(
    a: StateView,
    b: StateView,
    events: Seq<(bool, EventView)>,
)
    ensures
        run_two(a, b, events) == (
            run(a, events_for(events, true)),
            run(b, events_for(events, false)),
        ),
    decreases events.len(),
{
    if events.len() > 0 {
        let rest = events.drop_first();
        if events[0].0 {
            let next = step(a, events[0].1).0;
            lemma_requests_are_independent(next, b, rest);
            assert(events_for(events, true).drop_first() =~= events_for(rest, true));
        } else {
            let next = step(b, events[0].1).0;
            lemma_requests_are_independent(a, next, rest);
            assert(events_for(events, false).drop_first() =~= events_for(rest, false));
        }
    }
}

} // verus!
