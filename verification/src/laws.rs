//! What holds of the protocol as a whole.
//!
//! The operations of a handle are stated over [`SandboxState`]; the laws here
//! follow from those statements alone.

use crate::controller::{call_request, Operation};
use crate::error::{ProtocolError, SandboxError, TransportError};
use crate::message::{ReplyModel, RequestModel, ResponseModel};
use crate::handle::SandboxState;
use crate::token::{each_new, lemma_new_tokens_never_repeat};
use crate::value::ValueModel;
use crate::wire::{
    encode_reply, encode_request, lemma_reply_round_trip, lemma_request_round_trip, parse_request,
    reply_fits, value_fits, values_fit,
};
use vstd::prelude::*;
use vstd::utf8::encode_utf8;

verus! {

/// What the channel may bring back.
pub type Event = Result<Seq<u8>, TransportError>;

// ------------------------------------------------------------ registrations

/// One whole registration of a data object on `s`, where the channel brings
/// `event`: the state afterwards, and what the caller gets.
pub open spec fn registration(s: SandboxState, event: Event) -> (
    SandboxState,
    Result<u64, SandboxError>,
) {
    if s.ready() {
        let waiting = s.begun(Operation::Poke);
        (waiting.data_registered(event), waiting.data_minted(event))
    } else {
        (s, Err(SandboxError::InvalidState))
    }
}

/// What the callers get from one registration after another on `s`, where the
/// channel brings `events` in turn.
pub open spec fn registrations(s: SandboxState, events: Seq<Event>) -> Seq<
    Result<u64, SandboxError>,
>
    decreases events.len(),
{
    if events.len() == 0 {
        Seq::empty()
    } else {
        let (next, outcome) = registration(s, events.first());
        seq![outcome] + registrations(next, events.drop_first())
    }
}

/// One whole registration of a function on `s`, where the channel brings
/// `event`: the state afterwards, and what the caller gets.
pub open spec fn definition(s: SandboxState, event: Event) -> (
    SandboxState,
    Result<u64, SandboxError>,
) {
    if s.ready() {
        let waiting = s.begun(Operation::Define);
        (waiting.function_registered(event), waiting.function_minted(event))
    } else {
        (s, Err(SandboxError::InvalidState))
    }
}

/// What the callers get from one registration of a function after another on
/// `s`, where the channel brings `events` in turn.
pub open spec fn definitions(s: SandboxState, events: Seq<Event>) -> Seq<Result<u64, SandboxError>>
    decreases events.len(),
{
    if events.len() == 0 {
        Seq::empty()
    } else {
        let (next, outcome) = definition(s, events.first());
        seq![outcome] + definitions(next, events.drop_first())
    }
}

/// The tokens that the handle has given out for functions.
pub open spec fn functions_on_record(s: SandboxState) -> Seq<u64> {
    match s.controller {
        Some(c) => c.functions,
        None => Seq::empty(),
    }
}

/// `record` with `outcome` put on it, where `outcome` is a token.
pub open spec fn with_outcome(record: Seq<u64>, outcome: Result<u64, SandboxError>) -> Seq<u64> {
    match outcome {
        Ok(token) => record.push(token),
        Err(_) => record,
    }
}

/// Whatever the state of the handle and however the subordinate answers, a
/// registration never gives the token zero, and it puts on record the token it
/// gives and nothing else.
pub proof fn lemma_registration_gives_and_records(s: SandboxState, event: Event)
    ensures
        registration(s, event).1 matches Ok(token) ==> token != 0,
        registration(s, event).0.data == with_outcome(s.data, registration(s, event).1),
        definition(s, event).1 matches Ok(token) ==> token != 0,
        functions_on_record(definition(s, event).0) == with_outcome(
            functions_on_record(s),
            definition(s, event).1,
        ),
{
}

/// Where each id that the subordinate answers with differs from those that the
/// sandbox has given out for data objects before, the tokens given out by
/// successive registrations of data objects are never the same twice, and never
/// one that was on record at the start.
pub proof fn lemma_data_tokens_never_repeat(s: SandboxState, events: Seq<Event>)
    requires
        each_new(s.data, registrations(s, events)),
    ensures
        forall|i: int|
            0 <= i < registrations(s, events).len() ==> (#[trigger] registrations(
                s,
                events,
            )[i] matches Ok(token) ==> !s.data.contains(token)),
        forall|i: int, j: int|
            0 <= i < j < registrations(s, events).len() ==> (#[trigger] registrations(
                s,
                events,
            )[i] matches Ok(a) ==> (#[trigger] registrations(s, events)[j] matches Ok(b) ==> a
                != b)),
{
    lemma_new_tokens_never_repeat(s.data, registrations(s, events));
}

/// The same of the tokens given out for functions.
pub proof fn lemma_function_tokens_never_repeat(s: SandboxState, events: Seq<Event>)
    requires
        each_new(functions_on_record(s), definitions(s, events)),
    ensures
        forall|i: int|
            0 <= i < definitions(s, events).len() ==> (#[trigger] definitions(
                s,
                events,
            )[i] matches Ok(token) ==> !functions_on_record(s).contains(token)),
        forall|i: int, j: int|
            0 <= i < j < definitions(s, events).len() ==> (#[trigger] definitions(
                s,
                events,
            )[i] matches Ok(a) ==> (#[trigger] definitions(s, events)[j] matches Ok(b) ==> a
                != b)),
{
    lemma_new_tokens_never_repeat(functions_on_record(s), definitions(s, events));
}

// ---------------------------------------------------------------- validity

/// What every reachable state of a handle satisfies: an exchange is in flight
/// only with a live subordinate.
pub open spec fn well_formed(s: SandboxState) -> bool {
    s.controller matches Some(c) ==> (c.pending is Some ==> c.alive)
}

/// A fresh handle is well formed, and every step of every operation keeps a
/// handle well formed, whatever the channel brings.
pub proof fn lemma_steps_keep_well_formed(
    s: SandboxState,
    op: Operation,
    event: Event,
    start: usize,
    end: usize,
)
    requires
        well_formed(s),
    ensures
        well_formed(SandboxState::none()),
        well_formed(SandboxState::started()),
        well_formed(s.after_poison()),
        well_formed(s.begun(op)),
        well_formed(s.populate_begun(start, end)),
        well_formed(s.settled(op, event)),
        well_formed(s.function_registered(event)),
        well_formed(s.data_registered(event)),
{
}

// ------------------------------------------------------------ one at a time

/// While an exchange is in flight no operation can begin: each first step fails
/// with `InvalidState`, gives no frame and changes nothing. A first step that
/// succeeds puts an exchange in flight, and the second step of that operation
/// ends it.
pub proof fn lemma_one_exchange_at_a_time(
    s: SandboxState,
    op: Operation,
    request: RequestModel,
    function_token: u64,
    start: usize,
    end: usize,
    event: Event,
)
    ensures
        s.busy() ==> !s.ready(),
        !s.ready() ==> s.frame_of(request) == Err::<Seq<u8>, SandboxError>(
            SandboxError::InvalidState,
        ) && s.begun(op) == s,
        !s.ready() ==> s.populate_frame(function_token, start, end) == Err::<Seq<u8>, SandboxError>(
            SandboxError::InvalidState,
        ) && s.populate_begun(start, end) == s,
        s.ready() ==> s.begun(op).awaits(op),
        s.ready() && start <= end ==> s.populate_begun(start, end).awaits(Operation::Call),
        s.awaits(op) ==> !s.settled(op, event).busy(),
        s.awaits(Operation::Define) ==> !s.function_registered(event).busy(),
        s.awaits(Operation::Poke) ==> !s.data_registered(event).busy(),
{
}

// ----------------------------------------------------------- after shutdown

/// Once the second step of a shutdown has run, whatever the channel brought, the
/// sandbox is gone: every step of every operation fails with `InvalidState`,
/// gives no frame and changes nothing.
pub proof fn lemma_nothing_after_shutdown(
    s: SandboxState,
    event: Event,
    op: Operation,
    request: RequestModel,
    function_token: u64,
    start: usize,
    end: usize,
    later: Event,
    room: nat,
)
    requires
        s.awaits(Operation::Shutdown),
    ensures
        ({
            let gone = s.settled(Operation::Shutdown, event);
            let refused = SandboxError::InvalidState;
            &&& !gone.ready()
            &&& !gone.busy()
            &&& gone.frame_of(request) == Err::<Seq<u8>, SandboxError>(refused)
            &&& gone.begun(op) == gone
            &&& gone.populate_frame(function_token, start, end) == Err::<Seq<u8>, SandboxError>(
                refused,
            )
            &&& gone.populate_begun(start, end) == gone
            &&& gone.answer(op, later) == Err::<ResponseModel, SandboxError>(refused)
            &&& gone.settled(op, later) == gone
            &&& gone.function_minted(later) == Err::<u64, SandboxError>(refused)
            &&& gone.function_registered(later) == gone
            &&& gone.data_minted(later) == Err::<u64, SandboxError>(refused)
            &&& gone.data_registered(later) == gone
            &&& gone.page(later, room) == Err::<Seq<u8>, SandboxError>(refused)
        }),
{
    let gone = s.settled(Operation::Shutdown, event);
    let c = gone.controller->0;
    assert(!c.alive && c.pending is None);
    assert(gone.settled(op, later) =~= gone);
    assert(gone.function_registered(later) =~= gone);
}

// -------------------------------------------------------------- range calls

/// A range that ends before it starts is refused before anything is sent, and
/// the handle stays as it was.
pub proof fn lemma_backward_range_is_refused(
    s: SandboxState,
    function_token: u64,
    start: usize,
    end: usize,
)
    requires
        s.ready(),
        end < start,
    ensures
        s.populate_frame(function_token, start, end) == Err::<Seq<u8>, SandboxError>(
            SandboxError::InvalidRange,
        ),
        s.populate_begun(start, end) == s,
{
}

/// A range of no bytes is asked for like any other, and the call succeeds with
/// no byte copied where the answer's first value is an empty byte sequence.
pub proof fn lemma_empty_range_copies_nothing(
    s: SandboxState,
    function_token: u64,
    at: usize,
    response: ResponseModel,
)
    requires
        s.ready(),
        reply_fits(ReplyModel::Values(response)),
        response.value.len() > 0,
        response.value[0] == ValueModel::Bytes(Seq::<u8>::empty()),
    ensures
        s.populate_frame(function_token, at, at) is Ok,
        s.populate_begun(at, at).page(Ok(encode_reply(ReplyModel::Values(response))), 0) == Ok::<
            Seq<u8>,
            SandboxError,
        >(Seq::<u8>::empty()),
{
    lemma_reply_round_trip(ReplyModel::Values(response));
}

/// Where the subordinate does not know the token of a call, the call fails with
/// `UnknownToken`. (The second step of a range call leaves its destination as
/// it was on every failure.)
pub proof fn lemma_unknown_token_fails(s: SandboxState, room: nat)
    requires
        s.awaits(Operation::Call),
    ensures
        s.answer(Operation::Call, Ok(encode_reply(ReplyModel::UnknownToken))) == Err::<
            ResponseModel,
            SandboxError,
        >(SandboxError::Protocol(ProtocolError::UnknownToken)),
        s.page(Ok(encode_reply(ReplyModel::UnknownToken)), room) == Err::<Seq<u8>, SandboxError>(
            SandboxError::Protocol(ProtocolError::UnknownToken),
        ),
{
    lemma_reply_round_trip(ReplyModel::UnknownToken);
}

// --------------------------------------------------------------------- echo

/// The answer of a subordinate that sends back the arguments of each call: the
/// main arguments after the token as values, the auxiliary ones as they are.
pub open spec fn echo(frame: Seq<u8>) -> Seq<u8> {
    match parse_request(frame) {
        Some(request) => encode_reply(
            ReplyModel::Values(ResponseModel { value: request.main.skip(1), aux: request.aux }),
        ),
        None => Seq::empty(),
    }
}

/// A call answered by its own arguments gives exactly those arguments back.
pub proof fn lemma_echo_gives_arguments_back(
    s: SandboxState,
    token: u64,
    main: Seq<ValueModel>,
    aux: Seq<ValueModel>,
)
    requires
        s.ready(),
        values_fit(main),
        values_fit(aux),
        main.len() < u64::MAX,
    ensures
        s.begun(Operation::Call).answer(
            Operation::Call,
            Ok(echo(encode_request(call_request(token, main, aux)))),
        ) == Ok::<ResponseModel, SandboxError>(ResponseModel { value: main, aux }),
{
    let request = call_request(token, main, aux);
    reveal_strlit("call");
    assert(encode_utf8("call"@).len() <= u64::MAX) by {
        vstd::utf8::is_ascii_chars_encode_utf8("call"@);
    }
    assert(values_fit(request.main)) by {
        assert forall|i: int| 0 <= i < request.main.len() implies value_fits(
            #[trigger] request.main[i],
        ) by {
            if i > 0 {
                assert(request.main[i] == main[i - 1]);
            }
        }
    }
    lemma_request_round_trip(request);
    assert(request.main.skip(1) =~= main);
    lemma_reply_round_trip(ReplyModel::Values(ResponseModel { value: main, aux }));
}

} // verus!
