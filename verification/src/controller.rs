//! The controller: the one place that talks to one subordinate process.
//!
//! The controller admits one exchange at a time. An operation begins by yielding
//! the frame to transmit and marking the exchange as pending; it ends when the
//! caller hands over what the channel brought back. Nothing else moves the
//! controller.

use crate::error::{ProtocolError, SandboxError, SpawnError, TransportError};
use crate::message::{Reply, ReplyModel, Request, RequestModel, Response, ResponseModel};
use crate::token::FunctionToken;
use crate::value::{models, GenericValue, ValueModel};
use crate::wire::{encode_request, parse_reply, parse_request, read_reply, write_request};
use vstd::prelude::*;
use vstd::slice::slice_to_vec;
use vstd::string::StringExecFns;

verus! {

/// The operation whose answer is awaited.
#[derive(Clone, Copy, Debug, PartialEq, Eq, Structural)]
pub enum Operation {
    Shutdown,
    Define,
    Poke,
    Call,
}

/// What a controller is, for the purposes of its contracts.
pub ghost struct ControllerState {
    /// Whether the subordinate can still be spoken to.
    pub alive: bool,
    /// The exchange in flight, if there is one.
    pub pending: Option<Operation>,
    /// The tokens given out for functions so far, oldest first.
    pub functions: Seq<u64>,
}

/// What the channel brought back, as contracts see it.
pub open spec fn delivered(event: Result<Vec<u8>, TransportError>) -> Result<
    Seq<u8>,
    TransportError,
> {
    match event {
        Ok(frame) => Ok(frame@),
        Err(e) => Err(e),
    }
}

/// What an exchange comes to, given what the channel brought back.
pub open spec fn exchange_outcome(event: Result<Seq<u8>, TransportError>) -> Result<
    ResponseModel,
    SandboxError,
> {
    match event {
        Err(_) => Err(SandboxError::Protocol(ProtocolError::Disconnected)),
        Ok(frame) => match parse_reply(frame) {
            None => Err(SandboxError::Protocol(ProtocolError::BadResponse)),
            Some(ReplyModel::UnknownToken) => Err(
                SandboxError::Protocol(ProtocolError::UnknownToken),
            ),
            Some(ReplyModel::Values(response)) => Ok(response),
        },
    }
}

/// The token in a response whose only value is one `u64`.
pub open spec fn sole_token(response: ResponseModel) -> Option<u64> {
    if response.value.len() == 1 {
        match response.value[0] {
            ValueModel::U64(token) => Some(token),
            _ => None,
        }
    } else {
        None
    }
}

pub open spec fn shutdown_request(aux: Seq<ValueModel>) -> RequestModel {
    RequestModel { opcode: "shutdown"@, main: Seq::empty(), aux }
}

pub open spec fn define_request(
    serialized_function: Seq<u8>,
    main: Seq<ValueModel>,
    aux: Seq<ValueModel>,
) -> RequestModel {
    RequestModel {
        opcode: "define"@,
        main: seq![ValueModel::Bytes(serialized_function)] + main,
        aux,
    }
}

pub open spec fn poke_request(opcode: Seq<char>, main: Seq<ValueModel>, aux: Seq<ValueModel>)
    -> RequestModel {
    RequestModel { opcode, main, aux }
}

pub open spec fn call_request(token: u64, main: Seq<ValueModel>, aux: Seq<ValueModel>)
    -> RequestModel {
    RequestModel { opcode: "call"@, main: seq![ValueModel::U64(token)] + main, aux }
}

impl ControllerState {
    /// The state of a controller that has just been started.
    pub open spec fn started() -> ControllerState {
        ControllerState { alive: true, pending: None, functions: Seq::empty() }
    }

    /// Whether a new exchange may begin.
    pub open spec fn ready(self) -> bool {
        self.alive && self.pending is None
    }

    /// Whether the answer to `op` is awaited.
    pub open spec fn awaits(self, op: Operation) -> bool {
        self.pending == Some(op)
    }

    /// The state after an attempt to begin `op`.
    pub open spec fn begun(self, op: Operation) -> ControllerState {
        if self.ready() {
            ControllerState { alive: true, pending: Some(op), functions: self.functions }
        } else {
            self
        }
    }

    /// The state after the channel's `event` was taken as the end of `op`. The
    /// subordinate counts as gone once the channel has failed, and once a shutdown
    /// has run its course.
    pub open spec fn settled(self, op: Operation, event: Result<Seq<u8>, TransportError>)
        -> ControllerState {
        if self.awaits(op) {
            ControllerState {
                alive: event is Ok && op != Operation::Shutdown,
                pending: None,
                functions: self.functions,
            }
        } else {
            self
        }
    }

    /// What taking `event` as the end of `op` gives back.
    pub open spec fn answer(self, op: Operation, event: Result<Seq<u8>, TransportError>) -> Result<
        ResponseModel,
        SandboxError,
    > {
        if self.awaits(op) {
            exchange_outcome(event)
        } else {
            Err(SandboxError::InvalidState)
        }
    }

    /// The token that `event` brings for a function being defined.
    pub open spec fn minted(self, event: Result<Seq<u8>, TransportError>) -> Result<
        u64,
        SandboxError,
    > {
        match self.answer(Operation::Define, event) {
            Err(e) => Err(e),
            Ok(response) => match sole_token(response) {
                Some(token) => if token != 0 {
                    Ok(token)
                } else {
                    Err(SandboxError::Protocol(ProtocolError::BadResponse))
                },
                None => Err(SandboxError::Protocol(ProtocolError::BadResponse)),
            },
        }
    }

    /// The state after `event` was taken as the end of a definition.
    pub open spec fn defined(self, event: Result<Seq<u8>, TransportError>) -> ControllerState {
        let after = self.settled(Operation::Define, event);
        match self.minted(event) {
            Ok(token) => ControllerState {
                alive: after.alive,
                pending: after.pending,
                functions: self.functions.push(token),
            },
            Err(_) => after,
        }
    }
}

/// Owns the conversation with one subordinate process.
pub struct ControllerProcess {
    alive: bool,
    pending: Option<Operation>,
    functions: Ghost<Seq<u64>>,
}

impl View for ControllerProcess {
    type V = ControllerState;

    closed spec fn view(&self) -> ControllerState {
        ControllerState { alive: self.alive, pending: self.pending, functions: self.functions@ }
    }
}

impl ControllerProcess {
    /// The controller for a subordinate that was just launched, or the reason why
    /// there is none. Starting sends nothing.
    pub fn start(spawned: Result<(), SpawnError>) -> (r: Result<ControllerProcess, SpawnError>)
        ensures
            match r {
                Ok(controller) => spawned is Ok && controller@ == ControllerState::started(),
                Err(e) => spawned == Err::<(), SpawnError>(e),
            },
    {
        match spawned {
            Ok(_) => Ok(
                ControllerProcess { alive: true, pending: None, functions: Ghost(Seq::empty()) },
            ),
            Err(e) => Err(e),
        }
    }

    pub fn is_alive(&self) -> (alive: bool)
        ensures
            alive == self@.alive,
    {
        self.alive
    }

    pub fn is_ready(&self) -> (ready: bool)
        ensures
            ready == self@.ready(),
    {
        self.alive && self.pending.is_none()
    }

    /// The operation whose answer is awaited, if any.
    pub fn pending(&self) -> (op: Option<Operation>)
        ensures
            op == self@.pending,
    {
        self.pending
    }

    /// First half of every exchange: where none is in flight and the subordinate
    /// lives, marks `op` as pending and gives the frame of `request`.
    fn begin(&mut self, op: Operation, request: &Request) -> (r: Result<Vec<u8>, SandboxError>)
        ensures
            final(self)@ == old(self)@.begun(op),
            match r {
                Ok(frame) => old(self)@.ready() && frame@ == encode_request(request@)
                    && parse_request(frame@) == Some(request@),
                Err(e) => !old(self)@.ready() && e == SandboxError::InvalidState,
            },
    {
        if self.alive && self.pending.is_none() {
            self.pending = Some(op);
            Ok(write_request(request))
        } else {
            Err(SandboxError::InvalidState)
        }
    }

    /// Second half of every exchange: takes what the channel brought back as the
    /// answer to `op`.
    fn finish(&mut self, op: Operation, event: Result<Vec<u8>, TransportError>) -> (r: Result<
        Response,
        SandboxError,
    >)
        ensures
            final(self)@ == old(self)@.settled(op, delivered(event)),
            match r {
                Ok(response) => old(self)@.answer(op, delivered(event)) == Ok::<
                    ResponseModel,
                    SandboxError,
                >(response@),
                Err(e) => old(self)@.answer(op, delivered(event)) == Err::<
                    ResponseModel,
                    SandboxError,
                >(e),
            },
    {
        let awaited: bool = match self.pending {
            Some(pending) => pending == op,
            None => false,
        };
        if !awaited {
            return Err(SandboxError::InvalidState);
        }
        self.pending = None;
        match event {
            Err(_) => {
                self.alive = false;
                Err(SandboxError::Protocol(ProtocolError::Disconnected))
            },
            Ok(frame) => {
                self.alive = match op {
                    Operation::Shutdown => false,
                    _ => true,
                };
                match read_reply(frame.as_slice()) {
                    None => Err(SandboxError::Protocol(ProtocolError::BadResponse)),
                    Some(Reply::UnknownToken) => Err(
                        SandboxError::Protocol(ProtocolError::UnknownToken),
                    ),
                    Some(Reply::Values(response)) => Ok(response),
                }
            },
        }
    }

    /// Begins a shutdown that carries `aux` as its last words.
    pub fn shutdown(&mut self, aux: Vec<GenericValue>) -> (r: Result<Vec<u8>, SandboxError>)
        ensures
            final(self)@ == old(self)@.begun(Operation::Shutdown),
            match r {
                Ok(frame) => old(self)@.ready() && frame@ == encode_request(
                    shutdown_request(models(aux@)),
                ) && parse_request(frame@) == Some(
                    shutdown_request(models(aux@)),
                ),
                Err(e) => !old(self)@.ready() && e == SandboxError::InvalidState,
            },
    {
        let request = Request { opcode: String::from_str("shutdown"), main: Vec::new(), aux };
        assert(request@.main =~= Seq::<ValueModel>::empty());
        self.begin(Operation::Shutdown, &request)
    }

    /// Ends a shutdown. Whatever the answer, the subordinate is gone afterwards.
    pub fn shutdown_reply(&mut self, event: Result<Vec<u8>, TransportError>) -> (r: Result<
        (),
        SandboxError,
    >)
        ensures
            final(self)@ == old(self)@.settled(Operation::Shutdown, delivered(event)),
            match r {
                Ok(_) => old(self)@.answer(Operation::Shutdown, delivered(event)) is Ok,
                Err(e) => old(self)@.answer(Operation::Shutdown, delivered(event)) == Err::<
                    ResponseModel,
                    SandboxError,
                >(e),
            },
    {
        match self.finish(Operation::Shutdown, event) {
            Ok(_) => Ok(()),
            Err(e) => Err(e),
        }
    }

    /// Begins the definition of a function: the serialized function travels as the
    /// first main argument, before those of the caller.
    pub fn define_function(
        &mut self,
        serialized_function: &[u8],
        main: Vec<GenericValue>,
        aux: Vec<GenericValue>,
    ) -> (r: Result<Vec<u8>, SandboxError>)
        ensures
            final(self)@ == old(self)@.begun(Operation::Define),
            match r {
                Ok(frame) => old(self)@.ready() && frame@ == encode_request(
                    define_request(serialized_function@, models(main@), models(aux@)),
                ) && parse_request(frame@) == Some(
                    define_request(serialized_function@, models(main@), models(aux@)),
                ),
                Err(e) => !old(self)@.ready() && e == SandboxError::InvalidState,
            },
    {
        let mut arguments = main;
        arguments.insert(0, GenericValue::Vbytes(slice_to_vec(serialized_function)));
        let request = Request { opcode: String::from_str("define"), main: arguments, aux };
        assert(request@.main =~= seq![ValueModel::Bytes(serialized_function@)] + models(main@));
        self.begin(Operation::Define, &request)
    }

    /// Ends the definition of a function: the answer must hold one value, the
    /// function's token, which is not zero. The token goes on record.
    pub fn define_function_reply(&mut self, event: Result<Vec<u8>, TransportError>) -> (r: Result<
        FunctionToken,
        SandboxError,
    >)
        ensures
            final(self)@ == old(self)@.defined(delivered(event)),
            match r {
                Ok(token) => old(self)@.minted(delivered(event)) == Ok::<u64, SandboxError>(
                    token.value,
                ),
                Err(e) => old(self)@.minted(delivered(event)) == Err::<u64, SandboxError>(e),
            },
    {
        let response = match self.finish(Operation::Define, event) {
            Ok(response) => response,
            Err(e) => {
                return Err(e);
            },
        };
        if response.value.len() != 1 {
            return Err(SandboxError::Protocol(ProtocolError::BadResponse));
        }
        match response.value[0].expect_u64() {
            Ok(token) => {
                if token != 0 {
                    self.functions = Ghost(self.functions@.push(token));
                    Ok(FunctionToken { value: token })
                } else {
                    Err(SandboxError::Protocol(ProtocolError::BadResponse))
                }
            },
            Err(_) => Err(SandboxError::Protocol(ProtocolError::BadResponse)),
        }
    }

    /// Begins an operation that has no form of its own: `opcode` names it.
    pub fn poke(&mut self, opcode: &str, main: Vec<GenericValue>, aux: Vec<GenericValue>) -> (r:
        Result<Vec<u8>, SandboxError>)
        ensures
            final(self)@ == old(self)@.begun(Operation::Poke),
            match r {
                Ok(frame) => old(self)@.ready() && frame@ == encode_request(
                    poke_request(opcode@, models(main@), models(aux@)),
                ) && parse_request(frame@) == Some(
                    poke_request(opcode@, models(main@), models(aux@)),
                ),
                Err(e) => !old(self)@.ready() && e == SandboxError::InvalidState,
            },
    {
        let request = Request { opcode: String::from_str(opcode), main, aux };
        self.begin(Operation::Poke, &request)
    }

    /// Ends a poke: the response goes to the caller as it came.
    pub fn poke_reply(&mut self, event: Result<Vec<u8>, TransportError>) -> (r: Result<
        Response,
        SandboxError,
    >)
        ensures
            final(self)@ == old(self)@.settled(Operation::Poke, delivered(event)),
            match r {
                Ok(response) => old(self)@.answer(Operation::Poke, delivered(event)) == Ok::<
                    ResponseModel,
                    SandboxError,
                >(response@),
                Err(e) => old(self)@.answer(Operation::Poke, delivered(event)) == Err::<
                    ResponseModel,
                    SandboxError,
                >(e),
            },
    {
        self.finish(Operation::Poke, event)
    }

    /// Begins a call of the function that `token` names. The token travels as the
    /// first main argument; whether it names anything is for the subordinate to say.
    pub fn call_function(
        &mut self,
        token: &FunctionToken,
        main: Vec<GenericValue>,
        aux: Vec<GenericValue>,
    ) -> (r: Result<Vec<u8>, SandboxError>)
        ensures
            final(self)@ == old(self)@.begun(Operation::Call),
            match r {
                Ok(frame) => old(self)@.ready() && frame@ == encode_request(
                    call_request(token.value, models(main@), models(aux@)),
                ) && parse_request(frame@) == Some(
                    call_request(token.value, models(main@), models(aux@)),
                ),
                Err(e) => !old(self)@.ready() && e == SandboxError::InvalidState,
            },
    {
        let mut arguments = main;
        arguments.insert(0, GenericValue::Vu64(token.value));
        let request = Request { opcode: String::from_str("call"), main: arguments, aux };
        assert(request@.main =~= seq![ValueModel::U64(token.value)] + models(main@));
        self.begin(Operation::Call, &request)
    }

    /// Ends a call: the response goes to the caller as it came.
    pub fn call_function_reply(&mut self, event: Result<Vec<u8>, TransportError>) -> (r: Result<
        Response,
        SandboxError,
    >)
        ensures
            final(self)@ == old(self)@.settled(Operation::Call, delivered(event)),
            match r {
                Ok(response) => old(self)@.answer(Operation::Call, delivered(event)) == Ok::<
                    ResponseModel,
                    SandboxError,
                >(response@),
                Err(e) => old(self)@.answer(Operation::Call, delivered(event)) == Err::<
                    ResponseModel,
                    SandboxError,
                >(e),
            },
    {
        self.finish(Operation::Call, event)
    }
}

} // verus!
