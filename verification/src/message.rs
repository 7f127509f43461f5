//! Requests, responses and replies: the envelopes of an exchange.

use crate::value::{models, GenericValue, ValueModel};
use vstd::prelude::*;

verus! {

/// What the host asks of the subordinate: an operation name, its main arguments
/// and its auxiliary arguments.
#[derive(Clone, Debug, PartialEq, Eq)]
pub struct Request {
    pub opcode: String,
    pub main: Vec<GenericValue>,
    pub aux: Vec<GenericValue>,
}

pub ghost struct RequestModel {
    pub opcode: Seq<char>,
    pub main: Seq<ValueModel>,
    pub aux: Seq<ValueModel>,
}

impl View for Request {
    type V = RequestModel;

    open spec fn view(&self) -> RequestModel {
        RequestModel { opcode: self.opcode@, main: models(self.main@), aux: models(self.aux@) }
    }
}

/// What the subordinate answers: result values and auxiliary values.
#[derive(Clone, Debug, PartialEq, Eq)]
pub struct Response {
    pub value: Vec<GenericValue>,
    pub response_aux: Vec<GenericValue>,
}

pub ghost struct ResponseModel {
    pub value: Seq<ValueModel>,
    pub aux: Seq<ValueModel>,
}

impl View for Response {
    type V = ResponseModel;

    open spec fn view(&self) -> ResponseModel {
        ResponseModel { value: models(self.value@), aux: models(self.response_aux@) }
    }
}

/// One frame from the subordinate: a response, or its refusal of a token.
#[derive(Clone, Debug, PartialEq, Eq)]
pub enum Reply {
    Values(Response),
    UnknownToken,
}

pub ghost enum ReplyModel {
    Values(ResponseModel),
    UnknownToken,
}

impl View for Reply {
    type V = ReplyModel;

    open spec fn view(&self) -> ReplyModel {
        match self {
            Reply::Values(r) => ReplyModel::Values(r@),
            Reply::UnknownToken => ReplyModel::UnknownToken,
        }
    }
}

} // verus!
