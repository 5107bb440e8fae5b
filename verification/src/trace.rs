//! What holds of a run as a whole.
//!
//! A run is followed through its history: the states it passes through and
//! the output after each event, as [`Runtime::passes_through`] has them.
//! Every call of [`Runtime::advance`] adds one step to such a history, and
//! [`main_loop`](crate::runtime::main_loop) gives the history of a whole
//! input.

use crate::error::{DecodeErrorView, DecodeKind, ErrorView, Phase, ProtocolError};
use crate::json::{json_parse, members_view, Members};
use crate::message::{Envelope, Fields, Init, InitView};
use crate::node::Node;
use crate::payload::Payload;
use crate::runtime::{
    first_line, handshake_spec, input_events, outcome_view, plan_spec, EventView, Runtime, State,
};
use crate::wire::decode_line;
use vstd::prelude::*;

verus! {

/// Whether `message` was handed to the node between `run` and `next`: the
/// payload type read a payload from the members of the message, and `step`
/// was called once with the node of `run` and with the message that bears
/// the header of `message` and that payload; `next` and `after` are the run
/// and the output as the call left them.
pub open spec fn hands_over<S, N, P>(
    run: Runtime<S, N>,
    message: Envelope<Members>,
    before: Seq<Seq<char>>,
    next: Runtime<S, N>,
    after: Seq<Seq<char>>,
) -> bool where P: Payload, N: Node<S, P> {
    &&& run is Running
    &&& exists|fields: Fields, payload: P|
        {
            &&& members_view(fields@) == message.payload
            &&& #[trigger] call_ensures(P::from_fields, (&fields,), Some(payload))
            &&& Runtime::<S, N>::steps_to::<P>(
                run->Running_0,
                message.header,
                payload,
                before,
                next,
                after,
            )
        }
}

/// Whether the node was built between `run` and `next`: `from_init` was
/// called once, with the state that the embedding program supplied and with
/// what `init` told, and `next` is the run as the call left it.
pub open spec fn builds_node<S, N, P>(run: Runtime<S, N>, init: InitView, next: Runtime<
    S,
    N,
>) -> bool where P: Payload, N: Node<S, P> {
    &&& run is AwaitingInit
    &&& exists|told: Init, built: Result<N, String>|
        {
            &&& told@ == init
            &&& #[trigger] call_ensures(N::from_init, (run->AwaitingInit_0, told), built)
            &&& next == Runtime::<S, N>::after_build(built)
        }
}

/// A run that is over stays as it is and writes nothing more, whatever
/// events follow.
pub proof fn lemma_over_stays_over<S, N, P>(
    start: Runtime<S, N>,
    events: Seq<EventView>,
    before: Seq<Seq<char>>,
    runs: Seq<Runtime<S, N>>,
    outputs: Seq<Seq<Seq<char>>>,
    j: int,
    k: int,
) where P: Payload, N: Node<S, P>
    requires
        start.passes_through::<P>(events, before, runs, outputs),
        0 <= j <= k <= events.len(),
        runs[j].state() == State::Terminated,
    ensures
        runs[k] == runs[j],
        outputs[k] == outputs[j],
    decreases k - j,
{
    if j < k {
        lemma_over_stays_over::<S, N, P>(start, events, before, runs, outputs, j, k - 1);
        assert(runs[k - 1].advances_to::<P>(
            events[k - 1],
            outputs[k - 1],
            runs[k - 1 + 1],
            outputs[k - 1 + 1],
        ));
    }
}

/// The output only grows: what it held after some event it still holds, at
/// the same places, after every later event. So what was written while one
/// event was handled lies before all that was written while a later event
/// was handled.
pub proof fn lemma_output_grows<S, N, P>(
    start: Runtime<S, N>,
    events: Seq<EventView>,
    before: Seq<Seq<char>>,
    runs: Seq<Runtime<S, N>>,
    outputs: Seq<Seq<Seq<char>>>,
    j: int,
    k: int,
) where P: Payload, N: Node<S, P>
    requires
        start.passes_through::<P>(events, before, runs, outputs),
        0 <= j <= k <= events.len(),
    ensures
        outputs[j].is_prefix_of(outputs[k]),
    decreases k - j,
{
    if j < k {
        lemma_output_grows::<S, N, P>(start, events, before, runs, outputs, j, k - 1);
        assert(runs[k - 1].advances_to::<P>(
            events[k - 1],
            outputs[k - 1],
            runs[k - 1 + 1],
            outputs[k - 1 + 1],
        ));
        assert(outputs[k - 1].is_prefix_of(outputs[k]));
    }
}

/// The acknowledgement comes first. Where the first event is a line that
/// holds an `init` request, the output after it is the earlier output and
/// the acknowledgement, and the node was built from what the request told;
/// all that the node writes comes after.
pub proof fn lemma_acknowledgement_comes_first<S, N, P>(
    start: Runtime<S, N>,
    events: Seq<EventView>,
    before: Seq<Seq<char>>,
    runs: Seq<Runtime<S, N>>,
    outputs: Seq<Seq<Seq<char>>>,
    k: int,
) where P: Payload, N: Node<S, P>
    requires
        start.passes_through::<P>(events, before, runs, outputs),
        start.state() == State::AwaitingInit,
        1 <= k <= events.len(),
        events[0] matches EventView::Line(line) && handshake_spec(Some(line)) is Ok,
    ensures
        outputs[1] == before.push(handshake_spec(Some(events[0]->Line_0))->Ok_0.1),
        outputs[1].is_prefix_of(outputs[k]),
        builds_node::<S, N, P>(start, handshake_spec(Some(events[0]->Line_0))->Ok_0.0, runs[1]),
{
    assert(runs[0].advances_to::<P>(events[0], outputs[0], runs[0int + 1], outputs[0int + 1]));
    lemma_output_grows::<S, N, P>(start, events, before, runs, outputs, 1, k);
}

/// Without input the run fails for want of `init`; nothing is written and
/// the node is never built.
pub proof fn lemma_missing_init_is_fatal<S, N, P>(
    start: Runtime<S, N>,
    events: Seq<EventView>,
    before: Seq<Seq<char>>,
    runs: Seq<Runtime<S, N>>,
    outputs: Seq<Seq<Seq<char>>>,
    k: int,
) where P: Payload, N: Node<S, P>
    requires
        start.passes_through::<P>(events, before, runs, outputs),
        start.state() == State::AwaitingInit,
        1 <= k <= events.len(),
        events[0] == EventView::EndOfInput,
    ensures
        runs[k].outcome() == Some(Err::<(), _>(ErrorView::Protocol(ProtocolError::MissingInit))),
        outputs[k] == before,
{
    assert(runs[0].advances_to::<P>(events[0], outputs[0], runs[0int + 1], outputs[0int + 1]));
    lemma_over_stays_over::<S, N, P>(start, events, before, runs, outputs, 1, k);
}

/// The node is only built when a line arrives while the run awaits `init`.
pub proof fn lemma_node_is_built_on_init_only(state: State, event: EventView)
    ensures
        plan_spec(state, event) is Start ==> state == State::AwaitingInit && event is Line,
{
}

/// A run that is running after `k` events was running after each of the
/// events `j` to `k`, if it was running after `j`.
pub proof fn lemma_running_throughout<S, N, P>(
    start: Runtime<S, N>,
    events: Seq<EventView>,
    before: Seq<Seq<char>>,
    runs: Seq<Runtime<S, N>>,
    outputs: Seq<Seq<Seq<char>>>,
    j: int,
    i: int,
    k: int,
) where P: Payload, N: Node<S, P>
    requires
        start.passes_through::<P>(events, before, runs, outputs),
        0 <= j <= i <= k <= events.len(),
        runs[j].state() == State::Running,
        runs[k].state() == State::Running,
    ensures
        runs[i].state() == State::Running,
    decreases i - j,
{
    if j < i {
        lemma_running_throughout::<S, N, P>(start, events, before, runs, outputs, j, i - 1, k);
        assert(runs[i - 1].advances_to::<P>(
            events[i - 1],
            outputs[i - 1],
            runs[i - 1 + 1],
            outputs[i - 1 + 1],
        ));
        if runs[i].state() == State::Terminated {
            lemma_over_stays_over::<S, N, P>(start, events, before, runs, outputs, i, k);
        }
    }
}

/// Messages are handed to the node in the order of the input, none dropped
/// and none changed: where the run is running before the events `a` to `b`
/// and still running after them, and each of them is a line that holds a
/// message, the node was handed the message of each line once, between the
/// state before that line and the state after it.
pub proof fn lemma_dispatch_in_order<S, N, P>(
    start: Runtime<S, N>,
    events: Seq<EventView>,
    before: Seq<Seq<char>>,
    runs: Seq<Runtime<S, N>>,
    outputs: Seq<Seq<Seq<char>>>,
    a: int,
    b: int,
    k: int,
) where P: Payload, N: Node<S, P>
    requires
        start.passes_through::<P>(events, before, runs, outputs),
        0 <= a <= k < b <= events.len(),
        runs[a].state() == State::Running,
        runs[b].state() == State::Running,
        events[k] matches EventView::Line(line) && decode_line(line) is Ok,
    ensures
        hands_over::<S, N, P>(
            runs[k],
            decode_line(events[k]->Line_0)->Ok_0,
            outputs[k],
            runs[k + 1],
            outputs[k + 1],
        ),
        outputs[k].is_prefix_of(outputs[k + 1]),
{
    lemma_running_throughout::<S, N, P>(start, events, before, runs, outputs, a, k, b);
    lemma_running_throughout::<S, N, P>(start, events, before, runs, outputs, a, k + 1, b);
    lemma_output_grows::<S, N, P>(start, events, before, runs, outputs, k, k + 1);
    assert(runs[k].advances_to::<P>(events[k], outputs[k], runs[k + 1], outputs[k + 1]));
}

/// A line that is not JSON ends the run with a decode failure that names the
/// line, wherever in the input it stands, unless the run was over before.
/// Nothing is written for that line or after it, and the run stays as it is:
/// the node is called for none of them.
pub proof fn lemma_malformed_line_is_fatal<S, N, P>(
    start: Runtime<S, N>,
    events: Seq<EventView>,
    before: Seq<Seq<char>>,
    runs: Seq<Runtime<S, N>>,
    outputs: Seq<Seq<Seq<char>>>,
    k: int,
    n: int,
) where P: Payload, N: Node<S, P>
    requires
        start.passes_through::<P>(events, before, runs, outputs),
        0 <= k < n <= events.len(),
        events[k] matches EventView::Line(line) && json_parse(line) is None,
    ensures
        runs[k].state() != State::Terminated ==> runs[k + 1].outcome() == Some(
            Err::<(), _>(
                ErrorView::Decode {
                    phase: if runs[k].state() == State::AwaitingInit {
                        Phase::Handshake
                    } else {
                        Phase::Decode
                    },
                    error: DecodeErrorView { line: events[k]->Line_0, kind: DecodeKind::Syntax },
                },
            ),
        ),
        runs[n] == runs[k + 1],
        runs[n].state() == State::Terminated,
        outputs[n] == outputs[k],
{
    assert(runs[k].advances_to::<P>(events[k], outputs[k], runs[k + 1], outputs[k + 1]));
    lemma_over_stays_over::<S, N, P>(start, events, before, runs, outputs, k + 1, n);
}

/// A failure of the node on one message ends the run: where the run is over
/// after event `k` because the node failed, it has that outcome after every
/// later event, and the output stays as the failing call left it. The node
/// is called for no later line.
pub proof fn lemma_step_failure_is_fatal<S, N, P>(
    start: Runtime<S, N>,
    events: Seq<EventView>,
    before: Seq<Seq<char>>,
    runs: Seq<Runtime<S, N>>,
    outputs: Seq<Seq<Seq<char>>>,
    k: int,
    n: int,
) where P: Payload, N: Node<S, P>
    requires
        start.passes_through::<P>(events, before, runs, outputs),
        0 <= k < n <= events.len(),
        runs[k + 1].outcome() matches Some(Err(ErrorView::Step(_))),
    ensures
        runs[n] == runs[k + 1],
        outputs[n] == outputs[k + 1],
        n > k + 1 ==> plan_spec(runs[n - 1].state(), events[n - 1]) is Idle,
{
    lemma_over_stays_over::<S, N, P>(start, events, before, runs, outputs, k + 1, n);
    if n > k + 1 {
        lemma_over_stays_over::<S, N, P>(start, events, before, runs, outputs, k + 1, n - 1);
    }
}

/// Before the input ends no run has ended well: after any number of lines
/// a run that began by awaiting `init` is not over with success.
pub proof fn lemma_no_success_before_the_end<S, N, P>(
    start: Runtime<S, N>,
    lines: Seq<Seq<char>>,
    before: Seq<Seq<char>>,
    runs: Seq<Runtime<S, N>>,
    outputs: Seq<Seq<Seq<char>>>,
    k: int,
) where P: Payload, N: Node<S, P>
    requires
        start.passes_through::<P>(input_events(lines), before, runs, outputs),
        start.state() == State::AwaitingInit,
        0 <= k <= lines.len(),
    ensures
        runs[k].outcome() != Some(Ok::<(), ErrorView>(())),
        k >= 1 ==> runs[k].state() != State::AwaitingInit,
    decreases k,
{
    if k > 0 {
        lemma_no_success_before_the_end::<S, N, P>(start, lines, before, runs, outputs, k - 1);
        let events = input_events(lines);
        assert(events[k - 1] == EventView::Line(lines[k - 1]));
        assert(runs[k - 1].advances_to::<P>(
            events[k - 1],
            outputs[k - 1],
            runs[k - 1 + 1],
            outputs[k - 1 + 1],
        ));
    }
}

/// What a run that ended well has done. Where a run over a whole input
/// began by awaiting `init` and is over with success, the first line held
/// an `init` request and the node was built from what it told; and each
/// further line held a message, which was handed to the node once, between
/// the state before that line and the state after it: none was dropped,
/// none was handed over twice or out of its turn.
pub proof fn lemma_successful_run<S, N, P>(
    start: Runtime<S, N>,
    lines: Seq<Seq<char>>,
    before: Seq<Seq<char>>,
    runs: Seq<Runtime<S, N>>,
    outputs: Seq<Seq<Seq<char>>>,
    k: int,
) where P: Payload, N: Node<S, P>
    requires
        start.passes_through::<P>(input_events(lines), before, runs, outputs),
        start.state() == State::AwaitingInit,
        runs.last().outcome() == Some(outcome_view(Ok(()))),
        1 <= k < lines.len(),
    ensures
        handshake_spec(first_line(lines)) matches Ok((init, reply)) && builds_node::<S, N, P>(
            start,
            init,
            runs[1],
        ) && outputs[1] == before.push(reply),
        decode_line(lines[k]) matches Ok(message) && hands_over::<S, N, P>(
            runs[k],
            message,
            outputs[k],
            runs[k + 1],
            outputs[k + 1],
        ),
        outputs.last() == outputs[lines.len() as int],
{
    let events = input_events(lines);
    let n = lines.len() as int;
    lemma_no_success_before_the_end::<S, N, P>(start, lines, before, runs, outputs, n);
    lemma_no_success_before_the_end::<S, N, P>(start, lines, before, runs, outputs, 1);
    assert(events[n] == EventView::EndOfInput);
    assert(runs[n].advances_to::<P>(events[n], outputs[n], runs[n + 1], outputs[n + 1]));
    assert(runs[n].state() == State::Running);
    if runs[1].state() == State::Terminated {
        lemma_over_stays_over::<S, N, P>(start, events, before, runs, outputs, 1, n);
    }
    assert(events[0] == EventView::Line(lines[0]));
    assert(runs[0].advances_to::<P>(events[0], outputs[0], runs[0int + 1], outputs[0int + 1]));
    assert(events[k] == EventView::Line(lines[k]));
    lemma_running_throughout::<S, N, P>(start, events, before, runs, outputs, 1, k, n);
    lemma_running_throughout::<S, N, P>(start, events, before, runs, outputs, 1, k + 1, n);
    assert(runs[k].advances_to::<P>(events[k], outputs[k], runs[k + 1], outputs[k + 1]));
}

/// Where the node could not be built the run is over at once: the output
/// is the earlier output and the acknowledgement, and stays so, and the run
/// keeps the outcome that the failed construction gave it.
pub proof fn lemma_failed_construction_is_fatal<S, N, P>(
    start: Runtime<S, N>,
    events: Seq<EventView>,
    before: Seq<Seq<char>>,
    runs: Seq<Runtime<S, N>>,
    outputs: Seq<Seq<Seq<char>>>,
    k: int,
) where P: Payload, N: Node<S, P>
    requires
        start.passes_through::<P>(events, before, runs, outputs),
        start.state() == State::AwaitingInit,
        1 <= k <= events.len(),
        events[0] matches EventView::Line(line) && handshake_spec(Some(line)) is Ok,
        runs[1].state() == State::Terminated,
    ensures
        runs[k] == runs[1],
        runs[k].outcome() matches Some(Err(ErrorView::Initialization(_))),
        outputs[k] == before.push(handshake_spec(Some(events[0]->Line_0))->Ok_0.1),
{
    assert(runs[0].advances_to::<P>(events[0], outputs[0], runs[0int + 1], outputs[0int + 1]));
    lemma_over_stays_over::<S, N, P>(start, events, before, runs, outputs, 1, k);
}

} // verus!
