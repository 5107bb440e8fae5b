//! The run of a node: the startup exchange, then one message at a time until
//! the input ends or something fails.
//!
//! Reading the input and writing the output are the embedding program's
//! business. It tells the runtime what it read, as an [`Event`], and writes
//! out what the [`OutputSink`] holds afterwards.

use crate::error::{DecodeError, DecodeErrorView, DecodeKind, Error, ErrorView, Phase, ProtocolError};
use crate::json::{members_view, Members};
use crate::message::{
    texts_view, Body, Envelope, Fields, Header, Init, InitPayload, InitPayloadView, InitView,
    Message,
};
use crate::node::{Node, OutputSink};
use crate::payload::{decode_init_payload, encode_init_payload, typed, Payload};
use crate::wire::{decode_fields, decode_line, encode_fields, encode_line};
use vstd::prelude::*;

verus! {

/// Where a run stands.
#[derive(Clone, Copy, Debug, PartialEq, Eq, Structural)]
pub enum State {
    /// Nothing was read yet; the first message must be the `init` request.
    AwaitingInit,
    /// The startup exchange is done and the node is built.
    Running,
    /// The run is over, cleanly or not.
    Terminated,
}

/// What the embedding program found when it read the input.
#[derive(Debug, Clone, PartialEq, Eq)]
pub enum Event {
    /// One line, without the newline that ended it.
    Line(String),
    /// The input has ended.
    EndOfInput,
    /// Reading failed, for the reason given.
    ReadFailed(String),
}

/// The value of an [`Event`].
pub ghost enum EventView {
    Line(Seq<char>),
    EndOfInput,
    ReadFailed(Seq<char>),
}

impl View for Event {
    type V = EventView;

    open spec fn view(&self) -> EventView {
        match self {
            Event::Line(line) => EventView::Line(line@),
            Event::EndOfInput => EventView::EndOfInput,
            Event::ReadFailed(reason) => EventView::ReadFailed(reason@),
        }
    }
}

/// What the runtime does about an event.
#[derive(Debug, PartialEq, Eq)]
pub enum Action {
    /// The `init` request arrived: write `reply`, then build the node from
    /// `init`.
    Start { init: Init, reply: String },
    /// A message arrived on `line`: hand it to the node.
    Dispatch { message: Message<Fields>, line: String },
    /// End the run with this outcome.
    Stop(Result<(), Error>),
    /// Nothing: the run was over before.
    Idle,
}

/// The value of an [`Action`].
pub ghost enum ActionView {
    Start { init: InitView, reply: Seq<char> },
    Dispatch { message: Envelope<Members>, line: Seq<char> },
    Stop(Result<(), ErrorView>),
    Idle,
}

/// The value of the outcome of a run.
pub open spec fn outcome_view(outcome: Result<(), Error>) -> Result<(), ErrorView> {
    match outcome {
        Ok(()) => Ok(()),
        Err(error) => Err(error@),
    }
}

impl View for Action {
    type V = ActionView;

    open spec fn view(&self) -> ActionView {
        match self {
            Action::Start { init, reply } => ActionView::Start { init: init@, reply: reply@ },
            Action::Dispatch { message, line } => ActionView::Dispatch {
                message: message@,
                line: line@,
            },
            Action::Stop(outcome) => ActionView::Stop(outcome_view(*outcome)),
            Action::Idle => ActionView::Idle,
        }
    }
}

/// The acknowledgement of an `init` request with the given header: it goes
/// from the request's destination to its source, bears the identifier 0 and
/// answers the request's identifier.
pub open spec fn init_reply_spec(request: Header) -> Envelope<Members> {
    Envelope {
        header: Header {
            src: request.dst,
            dst: request.src,
            id: Some(0usize),
            in_reply_to: request.id,
        },
        payload: encode_init_payload(InitPayloadView::InitOk),
    }
}

/// What the startup exchange comes to, given the first line of input or its
/// absence: what `init` told and the line that acknowledges it, or the
/// failure.
pub open spec fn handshake_spec(first: Option<Seq<char>>) -> Result<(InitView, Seq<char>), ErrorView> {
    match first {
        None => Err(ErrorView::Protocol(ProtocolError::MissingInit)),
        Some(line) => match decode_line(line) {
            Err(error) => Err(ErrorView::Decode { phase: Phase::Handshake, error }),
            Ok(message) => match decode_init_payload(message.payload) {
                None => Err(
                    ErrorView::Decode {
                        phase: Phase::Handshake,
                        error: DecodeErrorView { line, kind: DecodeKind::Payload },
                    },
                ),
                Some(InitPayloadView::InitOk) => Err(
                    ErrorView::Protocol(ProtocolError::UnexpectedFirstMessage),
                ),
                Some(InitPayloadView::Init(init)) => Ok(
                    (init, encode_line(init_reply_spec(message.header))),
                ),
            },
        },
    }
}

/// What the runtime does about an event in a state.
pub open spec fn plan_spec(state: State, event: EventView) -> ActionView {
    match state {
        State::Terminated => ActionView::Idle,
        State::AwaitingInit => match event {
            EventView::ReadFailed(reason) => ActionView::Stop(
                Err(ErrorView::Io { phase: Phase::Handshake, reason }),
            ),
            EventView::EndOfInput => ActionView::Stop(
                Err(ErrorView::Protocol(ProtocolError::MissingInit)),
            ),
            EventView::Line(line) => match handshake_spec(Some(line)) {
                Err(error) => ActionView::Stop(Err(error)),
                Ok((init, reply)) => ActionView::Start { init, reply },
            },
        },
        State::Running => match event {
            EventView::ReadFailed(reason) => ActionView::Stop(
                Err(ErrorView::Io { phase: Phase::Decode, reason }),
            ),
            EventView::EndOfInput => ActionView::Stop(Ok(())),
            EventView::Line(line) => match decode_line(line) {
                Err(error) => ActionView::Stop(
                    Err(ErrorView::Decode { phase: Phase::Decode, error }),
                ),
                Ok(message) => ActionView::Dispatch { message, line },
            },
        },
    }
}

/// The state after an action was carried out. `goes_on` tells whether a
/// `Start` or a `Dispatch` went well: the node was built, or the payload was
/// read and the node handled the message.
pub open spec fn next_state(state: State, action: ActionView, goes_on: bool) -> State {
    match action {
        ActionView::Idle => state,
        ActionView::Stop(_) => State::Terminated,
        ActionView::Start { .. } | ActionView::Dispatch { .. } => if goes_on {
            State::Running
        } else {
            State::Terminated
        },
    }
}

/// Builds the acknowledgement of an `init` request.
pub fn init_reply<P>(request: &Message<P>) -> (reply: Message<InitPayload>)
    ensures
        reply@ == (Envelope {
            header: init_reply_spec(request.header()).header,
            payload: InitPayloadView::InitOk,
        }),
{
    Message {
        src: request.dst.clone(),
        dst: request.src.clone(),
        body: Body { id: Some(0), in_reply_to: request.body.id, payload: InitPayload::InitOk },
    }
}

/// Reads the first line and answers it: the `init` request with what it
/// told, and the line that acknowledges it.
pub fn answer_init(line: &str) -> (answer: Result<(Message<Init>, String), Error>)
    ensures
        match handshake_spec(Some(line@)) {
            Err(error) => answer matches Err(found) && found@ == error,
            Ok((init, reply)) => {
                &&& answer matches Ok((request, text))
                &&& request.body.payload@ == init
                &&& text@ == reply
                &&& decode_line(line@) matches Ok(decoded)
                &&& decoded.header == request.header()
            },
        },
{
    let message = match decode_fields(line) {
        Err(error) => { return Err(Error::Decode { phase: Phase::Handshake, error }); },
        Ok(message) => message,
    };
    match InitPayload::from_fields(&message.body.payload) {
        None => Err(
            Error::Decode {
                phase: Phase::Handshake,
                error: DecodeError { line: line.to_owned(), kind: DecodeKind::Payload },
            },
        ),
        Some(InitPayload::InitOk) => Err(Error::Protocol(ProtocolError::UnexpectedFirstMessage)),
        Some(InitPayload::Init(init)) => {
            let reply = init_reply(&message);
            let fields = reply.body.payload.to_fields();
            let text = encode_fields(&reply.with_payload(fields));
            Ok((message.with_payload(init), text))
        },
    }
}

/// The startup exchange. `first` is the first line of input, or `None`
/// where the input ended before any line. On success the acknowledgement is
/// written to `output` and the request is returned with what it told; on
/// failure nothing is written.
pub fn handshake(first: Option<&str>, output: &mut OutputSink) -> (result: Result<
    Message<Init>,
    Error,
>)
    ensures
        match handshake_spec(
            match first {
                Some(line) => Some(line@),
                None => None,
            },
        ) {
            Err(error) => result matches Err(found) && found@ == error && final(output)@ == old(
                output,
            )@,
            Ok((init, reply)) => {
                &&& result matches Ok(request)
                &&& request.body.payload@ == init
                &&& final(output)@ == old(output)@.push(reply)
                &&& first matches Some(line)
                &&& decode_line(line@) matches Ok(decoded)
                &&& decoded.header == request.header()
            },
        },
{
    match first {
        None => Err(Error::Protocol(ProtocolError::MissingInit)),
        Some(line) => match answer_init(line) {
            Err(error) => Err(error),
            Ok((request, reply)) => {
                output.write_line(reply);
                Ok(request)
            },
        },
    }
}

/// Decides what to do about an event in a state.
pub fn plan(state: State, event: Event) -> (action: Action)
    ensures
        action@ == plan_spec(state, event@),
{
    match state {
        State::Terminated => Action::Idle,
        State::AwaitingInit => match event {
            Event::ReadFailed(reason) => Action::Stop(
                Err(Error::Io { phase: Phase::Handshake, reason }),
            ),
            Event::EndOfInput => Action::Stop(Err(Error::Protocol(ProtocolError::MissingInit))),
            Event::Line(line) => match answer_init(line.as_str()) {
                Err(error) => Action::Stop(Err(error)),
                Ok((request, reply)) => Action::Start { init: request.body.payload, reply },
            },
        },
        State::Running => match event {
            Event::ReadFailed(reason) => Action::Stop(
                Err(Error::Io { phase: Phase::Decode, reason }),
            ),
            Event::EndOfInput => Action::Stop(Ok(())),
            Event::Line(line) => match decode_fields(line.as_str()) {
                Err(error) => Action::Stop(Err(Error::Decode { phase: Phase::Decode, error })),
                Ok(message) => Action::Dispatch { message, line },
            },
        },
    }
}

/// Has the node handle one message: calls `step` once, with the node, the
/// message and a sink that holds nothing, and gives back the node as the
/// call left it, what the call wrote, and what it returned.
pub fn step_once<S, P, N>(node: N, input: Message<P>) -> (taken: (
    N,
    OutputSink,
    Result<(), String>,
)) where N: Node<S, P>
    ensures
        exists|node_ref: &mut N, sink_ref: &mut OutputSink|
            {
                &&& mut_ref_current(node_ref) == node
                &&& mut_ref_current(sink_ref)@ == Seq::<Seq<char>>::empty()
                &&& #[trigger] call_ensures(N::step, (node_ref, input, sink_ref), taken.2)
                &&& taken.0 == mut_ref_future(node_ref)
                &&& taken.1 == mut_ref_future(sink_ref)
            },
{
    let mut node = node;
    let mut written = OutputSink::new();
    let handled = node.step(input, &mut written);
    let ghost node_after = node;
    let ghost written_after = written;
    let ghost returned = handled;
    let taken = (node, written, handled);
    assert(taken.0 == node_after);
    assert(taken.1 == written_after);
    assert(taken.2 == returned);
    taken
}

/// A run: the state it is in and what that state holds.
pub enum Runtime<S, N> {
    /// Nothing was read yet. Holds what the embedding program supplies for
    /// building the node.
    AwaitingInit(S),
    /// The node is built and handles messages.
    Running(N),
    /// The run is over, with this outcome.
    Terminated(Result<(), Error>),
}

impl<S, N> Runtime<S, N> {
    /// The state of the run.
    pub open spec fn state(self) -> State {
        match self {
            Runtime::AwaitingInit(_) => State::AwaitingInit,
            Runtime::Running(_) => State::Running,
            Runtime::Terminated(_) => State::Terminated,
        }
    }

    /// The outcome of the run, once it is over.
    pub open spec fn outcome(self) -> Option<Result<(), ErrorView>> {
        match self {
            Runtime::Terminated(outcome) => Some(outcome_view(outcome)),
            _ => None,
        }
    }

    /// A run that has not begun.
    pub fn new(init_state: S) -> (runtime: Self)
        ensures
            runtime == Runtime::<S, N>::AwaitingInit(init_state),
    {
        Runtime::AwaitingInit(init_state)
    }

    /// The state of the run.
    pub fn current(&self) -> (state: State)
        ensures
            state == self.state(),
    {
        match self {
            Runtime::AwaitingInit(_) => State::AwaitingInit,
            Runtime::Running(_) => State::Running,
            Runtime::Terminated(_) => State::Terminated,
        }
    }

    /// Ends the run and gives its outcome; `None` where it was not over.
    pub fn finish(self) -> (outcome: Option<Result<(), Error>>)
        ensures
            match outcome {
                Some(outcome) => self.outcome() == Some(outcome_view(outcome)),
                None => self.outcome() is None,
            },
    {
        match self {
            Runtime::Terminated(outcome) => Some(outcome),
            _ => None,
        }
    }

    /// The run after the node logic was asked to build the node: it goes on
    /// with the node, or it is over with the reason for which none was
    /// built.
    pub open spec fn after_build(built: Result<N, String>) -> Self {
        match built {
            Ok(node) => Runtime::Running(node),
            Err(reason) => Runtime::Terminated(Err(Error::Initialization(reason))),
        }
    }

    /// The run after the node handled a message: it goes on with the node,
    /// or it is over with the reason for which the node failed.
    pub open spec fn after_step(node: N, handled: Result<(), String>) -> Self {
        match handled {
            Ok(()) => Runtime::Running(node),
            Err(reason) => Runtime::Terminated(Err(Error::Step(reason))),
        }
    }

    /// Whether the run `next`, with the output `after`, is what this run,
    /// with the output `before`, can come to by one event.
    ///
    /// It says what the runtime decided and what it asked of the node logic
    /// and of the payload type: with which arguments each was called, and
    /// that the run and the output are what the calls gave.
    ///
    /// - Nothing is done about an event that arrives after the end.
    /// - A run that is stopped has the outcome that was planned.
    /// - A start writes the acknowledgement and calls `from_init` with the
    ///   state supplied and with what `init` told.
    /// - A dispatch calls `from_fields` with the members of the payload. If
    ///   that gives no payload the run fails and nothing is written. Else
    ///   [`step_once`] is called with the node and with the message that
    ///   bears the planned header and that payload, and what it wrote is
    ///   written after the earlier output.
    pub open spec fn advances_to<P>(
        self,
        event: EventView,
        before: Seq<Seq<char>>,
        next: Self,
        after: Seq<Seq<char>>,
    ) -> bool where P: Payload, N: Node<S, P> {
        match plan_spec(self.state(), event) {
            ActionView::Idle => next == self && after == before,
            ActionView::Stop(outcome) => next.outcome() == Some(outcome) && after == before,
            ActionView::Start { init, reply } => {
                &&& after == before.push(reply)
                &&& exists|told: Init, built: Result<N, String>|
                    {
                        &&& told@ == init
                        &&& #[trigger] call_ensures(
                            N::from_init,
                            (self->AwaitingInit_0, told),
                            built,
                        )
                        &&& next == Self::after_build(built)
                    }
            },
            ActionView::Dispatch { message, line } => exists|fields: Fields, payload: Option<P>|
                {
                    &&& members_view(fields@) == message.payload
                    &&& #[trigger] call_ensures(P::from_fields, (&fields,), payload)
                    &&& match payload {
                        None => next.outcome() == Some(
                            Err::<(), _>(
                                ErrorView::Decode {
                                    phase: Phase::Decode,
                                    error: DecodeErrorView { line, kind: DecodeKind::Payload },
                                },
                            ),
                        ) && after == before,
                        Some(payload) => Self::steps_to(
                            self->Running_0,
                            message.header,
                            payload,
                            before,
                            next,
                            after,
                        ),
                    }
                },
        }
    }

    /// Whether the run `next`, with the output `after`, is what one call of
    /// [`step_once`] gave: a call with `node` and with the message that
    /// bears `header` and `payload`.
    pub open spec fn steps_to<P>(
        node: N,
        header: Header,
        payload: P,
        before: Seq<Seq<char>>,
        next: Self,
        after: Seq<Seq<char>>,
    ) -> bool where P: Payload, N: Node<S, P> {
        exists|input: Message<P>, taken: (N, OutputSink, Result<(), String>)|
            {
                &&& input.header() == header
                &&& input.body.payload == payload
                &&& #[trigger] call_ensures(step_once::<S, P, N>, (node, input), taken)
                &&& next == Self::after_step(taken.0, taken.2)
                &&& after == before + taken.1@
            }
    }

    /// Whether a run that starts as `self`, with the output `before`, can
    /// pass through `runs` and `outputs` while `events` arrive one after the
    /// other: `runs[k]` and `outputs[k]` are the run and the output before
    /// event `k`, and the last of each are the run and the output after the
    /// last event.
    pub open spec fn passes_through<P>(
        self,
        events: Seq<EventView>,
        before: Seq<Seq<char>>,
        runs: Seq<Self>,
        outputs: Seq<Seq<Seq<char>>>,
    ) -> bool where P: Payload, N: Node<S, P> {
        &&& runs.len() == events.len() + 1
        &&& outputs.len() == events.len() + 1
        &&& runs[0] == self
        &&& outputs[0] == before
        &&& forall|k: int|
            0 <= k < events.len() ==> (#[trigger] runs[k]).advances_to::<P>(
                events[k],
                outputs[k],
                runs[k + 1],
                outputs[k + 1],
            )
    }

    /// The run after the node logic was asked to build the node.
    pub fn constructed(built: Result<N, String>) -> (next: Self)
        ensures
            next == Self::after_build(built),
            match built {
                Ok(node) => next == Runtime::<S, N>::Running(node),
                Err(reason) => next.outcome() == Some(
                    Err::<(), _>(ErrorView::Initialization(reason@)),
                ),
            },
    {
        match built {
            Ok(node) => Runtime::Running(node),
            Err(reason) => Runtime::Terminated(Err(Error::Initialization(reason))),
        }
    }

    /// The run after the node handled a message.
    pub fn stepped(node: N, handled: Result<(), String>) -> (next: Self)
        ensures
            next == Self::after_step(node, handled),
            match handled {
                Ok(()) => next == Runtime::<S, N>::Running(node),
                Err(reason) => next.outcome() == Some(Err::<(), _>(ErrorView::Step(reason@))),
            },
    {
        match handled {
            Ok(()) => Runtime::Running(node),
            Err(reason) => Runtime::Terminated(Err(Error::Step(reason))),
        }
    }

    /// Takes the run one event further.
    ///
    /// The runtime decides as [`plan_spec`] says. Where that is to start or
    /// to dispatch, the node logic is called, and the run goes on if it
    /// accepts and is over if it fails. For a dispatch the payload is read
    /// first, as the payload type has it; a payload that is refused ends the
    /// run before the node is called. Whatever the node logic does, the
    /// lines written before stay as they are, and the acknowledgement of
    /// `init` comes before anything the node writes.
    ///
    /// The first clause says all of this, with the calls that were made;
    /// the others spell out what follows from it for the state, the outcome
    /// and the output.
    pub fn advance<P>(self, event: Event, output: &mut OutputSink) -> (next: Self) where
        P: Payload,
        N: Node<S, P>,

        ensures
            self.advances_to::<P>(event@, old(output)@, next, final(output)@),
            old(output)@.is_prefix_of(final(output)@),
            next.state() == next_state(
                self.state(),
                plan_spec(self.state(), event@),
                next.state() == State::Running,
            ),
            match plan_spec(self.state(), event@) {
                ActionView::Idle => next.outcome() == self.outcome() && final(output)@ == old(
                    output,
                )@,
                ActionView::Stop(outcome) => next.outcome() == Some(outcome) && final(output)@
                    == old(output)@,
                ActionView::Start { init, reply } => {
                    &&& final(output)@ == old(output)@.push(reply)
                    &&& next.state() == State::Running || next.outcome() matches Some(
                        Err(ErrorView::Initialization(_)),
                    )
                },
                ActionView::Dispatch { message, line } => {
                    ||| next.state() == State::Running
                    ||| next.outcome() matches Some(Err(ErrorView::Step(_)))
                    ||| next.outcome() == Some(
                        Err::<(), _>(
                            ErrorView::Decode {
                                phase: Phase::Decode,
                                error: DecodeErrorView { line, kind: DecodeKind::Payload },
                            },
                        ),
                    ) && final(output)@ == old(output)@
                },
            },
    {
        match self {
            Runtime::Terminated(outcome) => Runtime::Terminated(outcome),
            Runtime::AwaitingInit(init_state) => match plan(State::AwaitingInit, event) {
                Action::Start { init, reply } => {
                    output.write_line(reply);
                    Self::constructed(N::from_init(init_state, init))
                },
                Action::Stop(outcome) => Runtime::Terminated(outcome),
                _ => Runtime::AwaitingInit(init_state),
            },
            Runtime::Running(node) => match plan(State::Running, event) {
                Action::Dispatch { message, line } => {
                    let payload = P::from_fields(&message.body.payload);
                    let ghost fields = message.body.payload;
                    let ghost planned = message@;
                    assert(members_view(fields@) == planned.payload);
                    match typed(message, payload, line.as_str()) {
                        Err(error) => Runtime::Terminated(
                            Err(Error::Decode { phase: Phase::Decode, error }),
                        ),
                        Ok(input) => {
                            let ghost handed = input;
                            let taken = step_once::<S, P, N>(node, input);
                            let ghost given = taken;
                            let (node, written, handled) = taken;
                            output.append(written);
                            let next = Self::stepped(node, handled);
                            assert(Self::steps_to::<P>(
                                self->Running_0,
                                planned.header,
                                payload->Some_0,
                                old(output)@,
                                next,
                                output@,
                            )) by {
                                assert(call_ensures(
                                    step_once::<S, P, N>,
                                    (self->Running_0, handed),
                                    given,
                                ));
                            }
                            next
                        },
                    }
                },
                Action::Stop(outcome) => Runtime::Terminated(outcome),
                _ => Runtime::Running(node),
            },
        }
    }
}

/// The events of an input that is read to its end: its lines, one after the
/// other, and then the end.
pub open spec fn input_events(lines: Seq<Seq<char>>) -> Seq<EventView> {
    Seq::new(
        lines.len() + 1,
        |k: int|
            if k < lines.len() {
                EventView::Line(lines[k])
            } else {
                EventView::EndOfInput
            },
    )
}

/// The first line of an input, if it has one.
pub open spec fn first_line(input: Seq<Seq<char>>) -> Option<Seq<char>> {
    if input.len() == 0 {
        None
    } else {
        Some(input[0])
    }
}

/// Whether each of the lines 1 to `k` of `input` holds a message.
pub open spec fn holds_messages(input: Seq<Seq<char>>, k: int) -> bool {
    forall|j: int| 1 <= j <= k ==> (#[trigger] decode_line(input[j])) is Ok
}

/// Whether `error` can end a run over `input` once the startup exchange has
/// succeeded. The node may not get built. The node may fail on a message,
/// which takes a line after the first that holds a message, as do all lines
/// between the first and that one. Or some line after the first holds no
/// message or no payload of the expected type, while every line between the
/// first and that one holds a message.
pub open spec fn fails_after_init(input: Seq<Seq<char>>, error: ErrorView) -> bool {
    match error {
        ErrorView::Initialization(_) => true,
        ErrorView::Step(_) => exists|k: int|
            1 <= k < input.len() && #[trigger] holds_messages(input, k),
        ErrorView::Decode { phase, error } => phase == Phase::Decode && exists|k: int|
            1 <= k < input.len() && #[trigger] input[k] == error.line && (decode_line(input[k])
                == Err::<Envelope<Members>, _>(error) || (decode_line(input[k]) is Ok && error.kind
                == DecodeKind::Payload)) && holds_messages(input, k - 1),
        _ => false,
    }
}

/// Runs a node over a whole input, line by line, and collects what is
/// written.
///
/// The first line goes through the startup exchange; where that fails, the
/// run fails in the same way and nothing is written. Otherwise the
/// acknowledgement is the first line written, the node is built, and each
/// further line is read and handed to the node in order, until the input
/// ends (success) or a line cannot be read or the node fails. After a
/// failure no further line is looked at.
///
/// The contract gives the history of the run: the states it passed through
/// and the output after each line and after the end of the input, each
/// step of it as [`Runtime::advances_to`] says, with the calls that were
/// made to the node logic. Beside it stand the facts that need no history:
/// what the output begins with, when it is the acknowledgement and nothing
/// more, and which failure can come of which input.
pub fn main_loop<S, N, P>(init_state: S, input: &Vec<String>, output: &mut OutputSink) -> (result:
    Result<(), Error>) where P: Payload, N: Node<S, P>
    ensures
        exists|runs: Seq<Runtime<S, N>>, outputs: Seq<Seq<Seq<char>>>|
            {
                &&& #[trigger] Runtime::<S, N>::AwaitingInit(init_state).passes_through::<P>(
                    input_events(texts_view(input@)),
                    old(output)@,
                    runs,
                    outputs,
                )
                &&& runs.last().outcome() == Some(outcome_view(result))
                &&& outputs.last() == final(output)@
            },
        old(output)@.is_prefix_of(final(output)@),
        match handshake_spec(first_line(texts_view(input@))) {
            Err(error) => result matches Err(found) && found@ == error && final(output)@ == old(
                output,
            )@,
            Ok((init, reply)) => {
                &&& final(output)@.len() > old(output)@.len()
                &&& final(output)@[old(output)@.len() as int] == reply
                &&& result is Ok ==> forall|k: int|
                    1 <= k < input@.len() ==> decode_line(#[trigger] input@[k]@) is Ok
                &&& result matches Err(error) ==> fails_after_init(texts_view(input@), error@)
                &&& (result matches Err(error) && error@ is Initialization) ==> final(output)@
                    == old(output)@.push(reply)
                &&& (input@.len() == 1 || decode_line(input@[1]@) is Err) ==> final(output)@
                    == old(output)@.push(reply)
            },
        },
{
    let ghost lines = texts_view(input@);
    let ghost events = input_events(lines);
    let ghost before = output@;
    let ghost start = Runtime::<S, N>::AwaitingInit(init_state);
    let mut runtime: Runtime<S, N> = Runtime::new(init_state);
    let ghost mut runs = seq![runtime];
    let ghost mut outputs = seq![before];
    let mut i: usize = 0;
    while i < input.len() && runtime.current() != State::Terminated
        invariant
            i <= input.len(),
            lines == texts_view(input@),
            events == input_events(lines),
            runs.len() == i + 1,
            outputs.len() == i + 1,
            runs[0] == start,
            outputs[0] == before,
            runs[i as int] == runtime,
            outputs[i as int] == output@,
            forall|k: int|
                0 <= k < i ==> (#[trigger] runs[k]).advances_to::<P>(
                    events[k],
                    outputs[k],
                    runs[k + 1],
                    outputs[k + 1],
                ),
            before.is_prefix_of(output@),
            i == 0 ==> runtime.state() == State::AwaitingInit && output@ == before,
            i > 0 ==> runtime.state() != State::AwaitingInit,
            i > 0 ==> match handshake_spec(Some(lines[0])) {
                Err(error) => runtime.outcome() == Some(Err::<(), _>(error)) && output@ == before,
                Ok((init, reply)) => {
                    &&& output@.len() > before.len()
                    &&& output@[before.len() as int] == reply
                    &&& runtime.outcome() matches Some(outcome) ==> outcome matches Err(error)
                        && fails_after_init(lines, error)
                    &&& runtime.outcome() matches Some(Err(ErrorView::Initialization(_)))
                        ==> output@ == before.push(reply)
                    &&& (i == 1 || decode_line(lines[1]) is Err) ==> output@ == before.push(reply)
                },
            },
            runtime.state() == State::Running ==> holds_messages(lines, i - 1),
        decreases input.len() - i,
    {
        let ghost state = runtime.state();
        let line = input[i].clone();
        assert(line@ == lines[i as int]);
        runtime = runtime.advance::<P>(Event::Line(line), output);
        proof {
            assert(events[i as int] == EventView::Line(lines[i as int]));
            runs = runs.push(runtime);
            outputs = outputs.push(output@);
            if state == State::Running {
                if let Some(Err(ErrorView::Decode { phase, error })) = runtime.outcome() {
                    assert(lines[i as int] == error.line);
                }
                if let Some(Err(ErrorView::Step(_))) = runtime.outcome() {
                    assert(holds_messages(lines, i as int));
                }
            }
        }
        i += 1;
    }
    let ghost state = runtime.state();
    let ghost last = runtime;
    let ghost written = output@;
    let runtime = runtime.advance::<P>(Event::EndOfInput, output);
    proof {
        assert(events[input@.len() as int] == EventView::EndOfInput);
        // After an early end the run stays as it is for every further event.
        let all_runs = Seq::new(
            (input@.len() + 2) as nat,
            |k: int|
                if k <= i {
                    runs[k]
                } else if k <= input@.len() {
                    last
                } else {
                    runtime
                },
        );
        let all_outputs = Seq::new(
            (input@.len() + 2) as nat,
            |k: int|
                if k <= i {
                    outputs[k]
                } else if k <= input@.len() {
                    written
                } else {
                    output@
                },
        );
        assert forall|k: int| 0 <= k < events.len() implies (#[trigger] all_runs[k]).advances_to::<
            P,
        >(events[k], all_outputs[k], all_runs[k + 1], all_outputs[k + 1]) by {
            if k < i {
                assert(runs[k].advances_to::<P>(events[k], outputs[k], runs[k + 1], outputs[k + 1]));
            } else if k < input@.len() {
                assert(last.state() == State::Terminated);
            }
        }
        assert(start.passes_through::<P>(events, before, all_runs, all_outputs));
        assert(all_runs.last() == runtime);
        assert(all_outputs.last() == output@);
        if state == State::Running {
            assert forall|k: int| 1 <= k < input@.len() implies decode_line(
                #[trigger] input@[k]@,
            ) is Ok by {
                assert(decode_line(lines[k]) is Ok);
            }
        }
        if input@.len() > 1 {
            assert(lines[1] == input@[1]@);
        }
    }
    match runtime.finish() {
        Some(outcome) => outcome,
        None => Ok(()),
    }
}

} // verus!
