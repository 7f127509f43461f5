//! The sandbox handle, and the bridge that pages bytes out of the sandbox.
//!
//! A handle is what the embedding layer shares between callers, behind its lock.
//! It is empty where no subordinate could be started. Every operation on it is
//! one operation of the controller: a first step that gives the frame to
//! transmit, and a second that takes what the channel brought back. A handle that
//! is empty, poisoned or shut down refuses every step and stays as it is.

use crate::controller::{
    call_request, define_request, delivered, poke_request, shutdown_request, ControllerProcess,
    ControllerState, Operation,
};
use crate::error::{ProtocolError, SandboxError, SpawnError, TransportError, TypeMismatch, ValueKind};
use crate::message::{RequestModel, ResponseModel};
use crate::token::{DataToken, FunctionToken};
use crate::value::{models, CArrayFactory, GenericValue, ValueModel};
use crate::wire::{encode_request, parse_request};
use vstd::prelude::*;
use vstd::string::StringExecFns;

verus! {

/// What a handle is, for the purposes of its contracts.
pub ghost struct SandboxState {
    /// The controller, unless the handle is empty.
    pub controller: Option<ControllerState>,
    /// Whether a fault has made the handle unusable for good.
    pub poisoned: bool,
    /// The tokens given out for data objects so far, oldest first.
    pub data: Seq<u64>,
    /// The length of the byte range that the call in flight asked for.
    pub span: usize,
}

/// A frame, or the failure to make one, as contracts see it.
pub open spec fn framed(r: Result<Vec<u8>, SandboxError>) -> Result<Seq<u8>, SandboxError> {
    match r {
        Ok(frame) => Ok(frame@),
        Err(e) => Err(e),
    }
}

/// The request that registers `serialized_function`, which reads the data object
/// `data_token`.
pub open spec fn register_function_request(data_token: u64, serialized_function: Seq<u8>)
    -> RequestModel {
    define_request(serialized_function, seq![ValueModel::U64(data_token)], Seq::empty())
}

/// The request that registers `serialized_data`.
pub open spec fn register_user_data_request(serialized_data: Seq<u8>) -> RequestModel {
    poke_request("new"@, seq![ValueModel::Bytes(serialized_data)], Seq::empty())
}

/// What a range call is made for. The subordinate reads it from the first
/// auxiliary argument.
#[derive(Clone, Copy, Debug, PartialEq, Eq, Structural)]
pub enum Purpose {
    /// Fill a region of host memory with the bytes of the range.
    Populate,
}

impl Purpose {
    pub open spec fn spec_tag(self) -> Seq<char> {
        match self {
            Purpose::Populate => "pop"@,
        }
    }

    /// The word that stands for the purpose on the wire.
    pub fn tag(self) -> (word: &'static str)
        ensures
            word@ == self.spec_tag(),
    {
        match self {
            Purpose::Populate => "pop",
        }
    }
}

/// The request for the bytes from `start` up to `end` of what `function_token`
/// computes.
pub open spec fn populate_request(function_token: u64, start: usize, end: usize) -> RequestModel {
    call_request(
        function_token,
        seq![ValueModel::Usize(start), ValueModel::Usize(end)],
        seq![ValueModel::Text(Purpose::Populate.spec_tag())],
    )
}

/// The request that ends the sandbox and leaves it `data`.
pub open spec fn farewell_request(data: Seq<u8>) -> RequestModel {
    shutdown_request(seq![ValueModel::Bytes(data)])
}

impl SandboxState {
    /// The handle that holds no sandbox.
    pub open spec fn none() -> SandboxState {
        SandboxState { controller: None, poisoned: false, data: Seq::empty(), span: 0 }
    }

    /// The handle of a sandbox that has just been started.
    pub open spec fn started() -> SandboxState {
        SandboxState {
            controller: Some(ControllerState::started()),
            poisoned: false,
            data: Seq::empty(),
            span: 0,
        }
    }

    /// Whether the handle holds a controller and may use it.
    pub open spec fn usable(self) -> bool {
        self.controller is Some && !self.poisoned
    }

    /// Whether a new operation may begin.
    pub open spec fn ready(self) -> bool {
        self.usable() && self.controller->0.ready()
    }

    /// Whether the answer to `op` is awaited.
    pub open spec fn awaits(self, op: Operation) -> bool {
        self.usable() && self.controller->0.awaits(op)
    }

    /// Whether an exchange is in flight.
    pub open spec fn busy(self) -> bool {
        self.usable() && self.controller->0.pending is Some
    }

    /// The first step of an operation gives this: the frame of `request`, where
    /// an operation may begin.
    pub open spec fn frame_of(self, request: RequestModel) -> Result<Seq<u8>, SandboxError> {
        if self.ready() {
            Ok(encode_request(request))
        } else {
            Err(SandboxError::InvalidState)
        }
    }

    /// The state after an attempt to begin `op`.
    pub open spec fn begun(self, op: Operation) -> SandboxState {
        if self.ready() {
            SandboxState {
                controller: Some(self.controller->0.begun(op)),
                poisoned: self.poisoned,
                data: self.data,
                span: self.span,
            }
        } else {
            self
        }
    }

    /// The first step of a range call gives this.
    pub open spec fn populate_frame(self, function_token: u64, start: usize, end: usize) -> Result<
        Seq<u8>,
        SandboxError,
    > {
        if !self.ready() {
            Err(SandboxError::InvalidState)
        } else if end < start {
            Err(SandboxError::InvalidRange)
        } else {
            Ok(encode_request(populate_request(function_token, start, end)))
        }
    }

    /// The state after an attempt to begin a range call.
    pub open spec fn populate_begun(self, start: usize, end: usize) -> SandboxState {
        if self.ready() && start <= end {
            SandboxState {
                controller: Some(self.controller->0.begun(Operation::Call)),
                poisoned: self.poisoned,
                data: self.data,
                span: (end - start) as usize,
            }
        } else {
            self
        }
    }

    /// What taking `event` as the end of `op` gives back.
    pub open spec fn answer(self, op: Operation, event: Result<Seq<u8>, TransportError>) -> Result<
        ResponseModel,
        SandboxError,
    > {
        if self.usable() {
            self.controller->0.answer(op, event)
        } else {
            Err(SandboxError::InvalidState)
        }
    }

    /// The state after `event` was taken as the end of `op`.
    pub open spec fn settled(self, op: Operation, event: Result<Seq<u8>, TransportError>)
        -> SandboxState {
        if self.usable() {
            SandboxState {
                controller: Some(self.controller->0.settled(op, event)),
                poisoned: self.poisoned,
                data: self.data,
                span: self.span,
            }
        } else {
            self
        }
    }

    /// The token that `event` brings for a function being registered.
    pub open spec fn function_minted(self, event: Result<Seq<u8>, TransportError>) -> Result<
        u64,
        SandboxError,
    > {
        if self.usable() {
            self.controller->0.minted(event)
        } else {
            Err(SandboxError::InvalidState)
        }
    }

    /// The state after `event` was taken as the end of a function's registration.
    pub open spec fn function_registered(self, event: Result<Seq<u8>, TransportError>)
        -> SandboxState {
        if self.usable() {
            SandboxState {
                controller: Some(self.controller->0.defined(event)),
                poisoned: self.poisoned,
                data: self.data,
                span: self.span,
            }
        } else {
            self
        }
    }

    /// The token that `event` brings for a data object being registered: the first
    /// auxiliary value of the response, a `u64` that is not zero.
    pub open spec fn data_minted(self, event: Result<Seq<u8>, TransportError>) -> Result<
        u64,
        SandboxError,
    > {
        match self.answer(Operation::Poke, event) {
            Err(e) => Err(e),
            Ok(response) => if response.aux.len() == 0 {
                Err(SandboxError::Protocol(ProtocolError::BadResponse))
            } else {
                match response.aux[0] {
                    ValueModel::U64(token) => if token != 0 {
                        Ok(token)
                    } else {
                        Err(SandboxError::Protocol(ProtocolError::BadResponse))
                    },
                    other => Err(
                        SandboxError::TypeMismatch(
                            TypeMismatch { expected: ValueKind::U64, found: other.kind() },
                        ),
                    ),
                }
            },
        }
    }

    /// The state after `event` was taken as the end of a data object's
    /// registration.
    pub open spec fn data_registered(self, event: Result<Seq<u8>, TransportError>)
        -> SandboxState {
        let after = self.settled(Operation::Poke, event);
        match self.data_minted(event) {
            Ok(token) => SandboxState {
                controller: after.controller,
                poisoned: after.poisoned,
                data: self.data.push(token),
                span: after.span,
            },
            Err(_) => after,
        }
    }

    /// The bytes that `event` brings for a destination of `room` bytes: the first
    /// value of the response, a byte sequence exactly as long as the range asked
    /// for, which the destination spans.
    pub open spec fn page(self, event: Result<Seq<u8>, TransportError>, room: nat) -> Result<
        Seq<u8>,
        SandboxError,
    > {
        match self.answer(Operation::Call, event) {
            Err(e) => Err(e),
            Ok(response) => if response.value.len() == 0 {
                Err(SandboxError::Protocol(ProtocolError::BadResponse))
            } else {
                match response.value[0] {
                    ValueModel::Bytes(bytes) => if bytes.len() != self.span {
                        Err(SandboxError::Protocol(ProtocolError::BadResponse))
                    } else if room != self.span {
                        Err(SandboxError::InvalidRange)
                    } else {
                        Ok(bytes)
                    },
                    other => Err(
                        SandboxError::TypeMismatch(
                            TypeMismatch { expected: ValueKind::Bytes, found: other.kind() },
                        ),
                    ),
                }
            },
        }
    }

    /// The state once the handle is poisoned.
    pub open spec fn after_poison(self) -> SandboxState {
        SandboxState {
            controller: self.controller,
            poisoned: true,
            data: self.data,
            span: self.span,
        }
    }
}

/// The boundary's word for a function token: the token, or zero for none.
pub open spec fn function_sentinel(r: Result<FunctionToken, SandboxError>) -> u64 {
    match r {
        Ok(token) => token.value,
        Err(_) => 0,
    }
}

/// The boundary's word for a data token: the token, or zero for none.
pub open spec fn data_sentinel(r: Result<DataToken, SandboxError>) -> u64 {
    match r {
        Ok(token) => token.value,
        Err(_) => 0,
    }
}

/// One sandbox, or none.
pub struct Sandbox {
    controller: Option<ControllerProcess>,
    poisoned: bool,
    data: Ghost<Seq<u64>>,
    span: usize,
}

impl View for Sandbox {
    type V = SandboxState;

    closed spec fn view(&self) -> SandboxState {
        SandboxState {
            controller: match self.controller {
                Some(controller) => Some(controller@),
                None => None,
            },
            poisoned: self.poisoned,
            data: self.data@,
            span: self.span,
        }
    }
}

impl Sandbox {
    /// The handle that holds no sandbox.
    pub fn none() -> (handle: Sandbox)
        ensures
            handle@ == SandboxState::none(),
    {
        Sandbox { controller: None, poisoned: false, data: Ghost(Seq::empty()), span: 0 }
    }

    /// The handle for a subordinate that was just launched, or the empty handle
    /// where the launch failed.
    pub fn sandbox_start(spawned: Result<(), SpawnError>) -> (handle: Sandbox)
        ensures
            handle@ == if spawned is Ok {
                SandboxState::started()
            } else {
                SandboxState::none()
            },
    {
        match ControllerProcess::start(spawned) {
            Ok(controller) => Sandbox {
                controller: Some(controller),
                poisoned: false,
                data: Ghost(Seq::empty()),
                span: 0,
            },
            Err(_) => Sandbox::none(),
        }
    }

    pub fn is_none(&self) -> (none: bool)
        ensures
            none == (self@.controller is None),
    {
        self.controller.is_none()
    }

    pub fn is_poisoned(&self) -> (poisoned: bool)
        ensures
            poisoned == self@.poisoned,
    {
        self.poisoned
    }

    /// Whether a new operation may begin.
    pub fn is_ready(&self) -> (ready: bool)
        ensures
            ready == self@.ready(),
    {
        match &self.controller {
            Some(controller) => !self.poisoned && controller.is_ready(),
            None => false,
        }
    }

    /// Makes the handle unusable for good. The embedding layer calls this when a
    /// fault struck while the handle was held.
    pub fn poison(&mut self)
        ensures
            final(self)@ == old(self)@.after_poison(),
    {
        self.poisoned = true;
    }

    /// Begins the shutdown of the sandbox; `data` goes along as its last words.
    pub fn sandbox_shutdown(&mut self, data: &[u8]) -> (r: Result<Vec<u8>, SandboxError>)
        ensures
            final(self)@ == old(self)@.begun(Operation::Shutdown),
            framed(r) == old(self)@.frame_of(farewell_request(data@)),
            r matches Ok(frame) ==> parse_request(frame@) == Some(farewell_request(data@)),
    {
        if self.poisoned {
            return Err(SandboxError::InvalidState);
        }
        match &mut self.controller {
            Some(controller) => {
                let mut aux: Vec<GenericValue> = Vec::new();
                aux.push(CArrayFactory::new(data).into_value());
                assert(models(aux@) =~= seq![ValueModel::Bytes(data@)]);
                controller.shutdown(aux)
            },
            None => Err(SandboxError::InvalidState),
        }
    }

    /// Ends the shutdown. Whatever the answer, the sandbox is gone afterwards.
    pub fn sandbox_shutdown_reply(&mut self, event: Result<Vec<u8>, TransportError>) -> (r: Result<
        (),
        SandboxError,
    >)
        ensures
            final(self)@ == old(self)@.settled(Operation::Shutdown, delivered(event)),
            match r {
                Ok(_) => old(self)@.answer(Operation::Shutdown, delivered(event)) is Ok,
                Err(e) => old(self)@.answer(Operation::Shutdown, delivered(event)) == Err::<
                    ResponseModel,
                    SandboxError,
                >(e),
            },
    {
        if self.poisoned {
            return Err(SandboxError::InvalidState);
        }
        match &mut self.controller {
            Some(controller) => controller.shutdown_reply(event),
            None => Err(SandboxError::InvalidState),
        }
    }

    /// Begins the registration of a function that reads the data object
    /// `data_token`.
    pub fn sandbox_register_function(&mut self, data_token: u64, serialized_function: &[u8]) -> (r:
        Result<Vec<u8>, SandboxError>)
        ensures
            final(self)@ == old(self)@.begun(Operation::Define),
            framed(r) == old(self)@.frame_of(
                register_function_request(data_token, serialized_function@),
            ),
            r matches Ok(frame) ==> parse_request(frame@) == Some(
                register_function_request(data_token, serialized_function@),
            ),
    {
        if self.poisoned {
            return Err(SandboxError::InvalidState);
        }
        match &mut self.controller {
            Some(controller) => {
                let mut main: Vec<GenericValue> = Vec::new();
                main.push(GenericValue::Vu64(data_token));
                assert(models(main@) =~= seq![ValueModel::U64(data_token)]);
                let aux: Vec<GenericValue> = Vec::new();
                assert(models(aux@) =~= Seq::<ValueModel>::empty());
                controller.define_function(serialized_function, main, aux)
            },
            None => Err(SandboxError::InvalidState),
        }
    }

    /// Ends the registration of a function and gives its token.
    pub fn sandbox_register_function_reply(&mut self, event: Result<Vec<u8>, TransportError>) -> (r:
        Result<FunctionToken, SandboxError>)
        ensures
            final(self)@ == old(self)@.function_registered(delivered(event)),
            match r {
                Ok(token) => old(self)@.function_minted(delivered(event)) == Ok::<
                    u64,
                    SandboxError,
                >(token.value),
                Err(e) => old(self)@.function_minted(delivered(event)) == Err::<u64, SandboxError>(
                    e,
                ),
            },
    {
        if self.poisoned {
            return Err(SandboxError::InvalidState);
        }
        match &mut self.controller {
            Some(controller) => controller.define_function_reply(event),
            None => Err(SandboxError::InvalidState),
        }
    }

    /// Begins the registration of a data object.
    pub fn sandbox_register_user_data(&mut self, serialized_data: &[u8]) -> (r: Result<
        Vec<u8>,
        SandboxError,
    >)
        ensures
            final(self)@ == old(self)@.begun(Operation::Poke),
            framed(r) == old(self)@.frame_of(register_user_data_request(serialized_data@)),
            r matches Ok(frame) ==> parse_request(frame@) == Some(register_user_data_request(serialized_data@)),
    {
        if self.poisoned {
            return Err(SandboxError::InvalidState);
        }
        match &mut self.controller {
            Some(controller) => {
                let mut main: Vec<GenericValue> = Vec::new();
                main.push(CArrayFactory::new(serialized_data).into_value());
                assert(models(main@) =~= seq![ValueModel::Bytes(serialized_data@)]);
                let aux: Vec<GenericValue> = Vec::new();
                assert(models(aux@) =~= Seq::<ValueModel>::empty());
                controller.poke("new", main, aux)
            },
            None => Err(SandboxError::InvalidState),
        }
    }

    /// Ends the registration of a data object and gives its token.
    pub fn sandbox_register_user_data_reply(&mut self, event: Result<Vec<u8>, TransportError>) -> (r:
        Result<DataToken, SandboxError>)
        ensures
            final(self)@ == old(self)@.data_registered(delivered(event)),
            match r {
                Ok(token) => old(self)@.data_minted(delivered(event)) == Ok::<u64, SandboxError>(
                    token.value,
                ),
                Err(e) => old(self)@.data_minted(delivered(event)) == Err::<u64, SandboxError>(e),
            },
    {
        if self.poisoned {
            return Err(SandboxError::InvalidState);
        }
        let response = match &mut self.controller {
            Some(controller) => match controller.poke_reply(event) {
                Ok(response) => response,
                Err(e) => {
                    return Err(e);
                },
            },
            None => {
                return Err(SandboxError::InvalidState);
            },
        };
        if response.response_aux.len() == 0 {
            return Err(SandboxError::Protocol(ProtocolError::BadResponse));
        }
        match response.response_aux[0].expect_u64() {
            Ok(token) => {
                if token != 0 {
                    self.data = Ghost(self.data@.push(token));
                    Ok(DataToken { value: token })
                } else {
                    Err(SandboxError::Protocol(ProtocolError::BadResponse))
                }
            },
            Err(mismatch) => Err(SandboxError::TypeMismatch(mismatch)),
        }
    }

    /// Begins a range call: asks the function `function_token` for the bytes from
    /// `start` up to `end`. A range that ends before it starts is refused, and
    /// nothing is sent.
    pub fn sandbox_call_populate(&mut self, function_token: u64, start: usize, end: usize) -> (r:
        Result<Vec<u8>, SandboxError>)
        ensures
            final(self)@ == old(self)@.populate_begun(start, end),
            framed(r) == old(self)@.populate_frame(function_token, start, end),
            r matches Ok(frame) ==> parse_request(frame@) == Some(
                populate_request(function_token, start, end),
            ),
    {
        if !self.is_ready() {
            return Err(SandboxError::InvalidState);
        }
        if end < start {
            return Err(SandboxError::InvalidRange);
        }
        match &mut self.controller {
            Some(controller) => {
                let token = FunctionToken::from(function_token);
                let mut main: Vec<GenericValue> = Vec::new();
                main.push(GenericValue::Vusize(start));
                main.push(GenericValue::Vusize(end));
                assert(models(main@) =~= seq![
                    ValueModel::Usize(start),
                    ValueModel::Usize(end),
                ]);
                let mut aux: Vec<GenericValue> = Vec::new();
                aux.push(GenericValue::Vstring(String::from_str(Purpose::Populate.tag())));
                assert(models(aux@) =~= seq![ValueModel::Text(Purpose::Populate.spec_tag())]);
                let r = controller.call_function(&token, main, aux);
                self.span = end - start;
                r
            },
            None => Err(SandboxError::InvalidState),
        }
    }

    /// Ends a range call: copies the bytes that came into `destination`. Where
    /// the call fails, for whatever reason, `destination` is left as it was.
    pub fn sandbox_call_populate_reply(
        &mut self,
        event: Result<Vec<u8>, TransportError>,
        destination: &mut [u8],
    ) -> (r: Result<(), SandboxError>)
        ensures
            final(self)@ == old(self)@.settled(Operation::Call, delivered(event)),
            match r {
                Ok(_) => old(self)@.page(delivered(event), old(destination)@.len()) == Ok::<
                    Seq<u8>,
                    SandboxError,
                >(final(destination)@),
                Err(e) => old(self)@.page(delivered(event), old(destination)@.len()) == Err::<
                    Seq<u8>,
                    SandboxError,
                >(e) && final(destination)@ == old(destination)@,
            },
    {
        if self.poisoned {
            return Err(SandboxError::InvalidState);
        }
        let response = match &mut self.controller {
            Some(controller) => match controller.call_function_reply(event) {
                Ok(response) => response,
                Err(e) => {
                    return Err(e);
                },
            },
            None => {
                return Err(SandboxError::InvalidState);
            },
        };
        if response.value.len() == 0 {
            return Err(SandboxError::Protocol(ProtocolError::BadResponse));
        }
        let bytes = match response.value[0].expect_bytes() {
            Ok(bytes) => bytes,
            Err(mismatch) => {
                return Err(SandboxError::TypeMismatch(mismatch));
            },
        };
        if bytes.len() != self.span {
            return Err(SandboxError::Protocol(ProtocolError::BadResponse));
        }
        if destination.len() != self.span {
            return Err(SandboxError::InvalidRange);
        }
        copy_page(destination, bytes.as_slice());
        Ok(())
    }
}

/// Copies `page` over `destination`, which has the same length.
fn copy_page(destination: &mut [u8], page: &[u8])
    requires
        old(destination)@.len() == page@.len(),
    ensures
        final(destination)@ == page@,
{
    let n: usize = page.len();
    let mut i: usize = 0;
    while i < n
        invariant
            i <= n,
            n == page@.len(),
            destination@.len() == n,
            forall|k: int| 0 <= k < i ==> destination@[k] == page@[k],
        decreases n - i,
    {
        destination[i] = page[i];
        i = i + 1;
    }
    assert(destination@ =~= page@);
}

/// The boundary's word for the outcome of a function's registration.
pub fn function_token_or_zero(r: Result<FunctionToken, SandboxError>) -> (word: u64)
    ensures
        word == function_sentinel(r),
{
    match r {
        Ok(token) => token.value,
        Err(_) => 0,
    }
}

/// The boundary's word for the outcome of a data object's registration.
pub fn data_token_or_zero(r: Result<DataToken, SandboxError>) -> (word: u64)
    ensures
        word == data_sentinel(r),
{
    match r {
        Ok(token) => token.value,
        Err(_) => 0,
    }
}

} // verus!
