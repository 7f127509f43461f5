//! The tagged values that requests and responses carry.

use crate::error::{TypeMismatch, ValueKind};
use vstd::prelude::*;
use vstd::slice::slice_to_vec;

verus! {

/// One argument or result crossing the protocol.
#[derive(Clone, Debug, PartialEq, Eq)]
pub enum GenericValue {
    Vu64(u64),
    Vusize(usize),
    Vstring(String),
    Vbytes(Vec<u8>),
}

/// What a [`GenericValue`] stands for.
pub ghost enum ValueModel {
    U64(u64),
    Usize(usize),
    Text(Seq<char>),
    Bytes(Seq<u8>),
}

impl ValueModel {
    pub open spec fn kind(self) -> ValueKind {
        match self {
            ValueModel::U64(_) => ValueKind::U64,
            ValueModel::Usize(_) => ValueKind::Usize,
            ValueModel::Text(_) => ValueKind::String,
            ValueModel::Bytes(_) => ValueKind::Bytes,
        }
    }
}

impl View for GenericValue {
    type V = ValueModel;

    open spec fn view(&self) -> ValueModel {
        match self {
            GenericValue::Vu64(x) => ValueModel::U64(*x),
            GenericValue::Vusize(x) => ValueModel::Usize(*x),
            GenericValue::Vstring(s) => ValueModel::Text(s@),
            GenericValue::Vbytes(b) => ValueModel::Bytes(b@),
        }
    }
}

/// The models of a list of values, in order.
pub open spec fn models(values: Seq<GenericValue>) -> Seq<ValueModel> {
    values.map_values(|v: GenericValue| v@)
}

impl GenericValue {
    pub fn kind(&self) -> (k: ValueKind)
        ensures
            k == self@.kind(),
    {
        match self {
            GenericValue::Vu64(_) => ValueKind::U64,
            GenericValue::Vusize(_) => ValueKind::Usize,
            GenericValue::Vstring(_) => ValueKind::String,
            GenericValue::Vbytes(_) => ValueKind::Bytes,
        }
    }

    /// The integer held, or the mismatch if the value is not a `Vu64`.
    pub fn expect_u64(&self) -> (r: Result<u64, TypeMismatch>)
        ensures
            r == match self@ {
                ValueModel::U64(x) => Ok::<u64, TypeMismatch>(x),
                _ => Err(TypeMismatch { expected: ValueKind::U64, found: self@.kind() }),
            },
    {
        match self {
            GenericValue::Vu64(x) => Ok(*x),
            _ => Err(TypeMismatch { expected: ValueKind::U64, found: self.kind() }),
        }
    }

    /// The size held, or the mismatch if the value is not a `Vusize`.
    pub fn expect_usize(&self) -> (r: Result<usize, TypeMismatch>)
        ensures
            r == match self@ {
                ValueModel::Usize(x) => Ok::<usize, TypeMismatch>(x),
                _ => Err(TypeMismatch { expected: ValueKind::Usize, found: self@.kind() }),
            },
    {
        match self {
            GenericValue::Vusize(x) => Ok(*x),
            _ => Err(TypeMismatch { expected: ValueKind::Usize, found: self.kind() }),
        }
    }

    /// The text held, or the mismatch if the value is not a `Vstring`.
    pub fn expect_string(&self) -> (r: Result<&String, TypeMismatch>)
        ensures
            match r {
                Ok(s) => self@ == ValueModel::Text(s@),
                Err(e) => !(self@ is Text) && e == (TypeMismatch {
                    expected: ValueKind::String,
                    found: self@.kind(),
                }),
            },
    {
        match self {
            GenericValue::Vstring(s) => Ok(s),
            _ => Err(TypeMismatch { expected: ValueKind::String, found: self.kind() }),
        }
    }

    /// The bytes held, or the mismatch if the value is not a `Vbytes`.
    pub fn expect_bytes(&self) -> (r: Result<&Vec<u8>, TypeMismatch>)
        ensures
            match r {
                Ok(b) => self@ == ValueModel::Bytes(b@),
                Err(e) => !(self@ is Bytes) && e == (TypeMismatch {
                    expected: ValueKind::Bytes,
                    found: self@.kind(),
                }),
            },
    {
        match self {
            GenericValue::Vbytes(b) => Ok(b),
            _ => Err(TypeMismatch { expected: ValueKind::Bytes, found: self.kind() }),
        }
    }
}

/// A byte array that lives in memory owned by the caller.
///
/// Making one copies nothing; [`CArrayFactory::into_value`] copies the bytes into
/// storage of their own, which is the form that may enter an exchange.
pub struct CArrayFactory<'a> {
    data: &'a [u8],
}

impl<'a> CArrayFactory<'a> {
    pub closed spec fn bytes(&self) -> Seq<u8> {
        self.data@
    }

    pub fn new(data: &'a [u8]) -> (factory: Self)
        ensures
            factory.bytes() == data@,
    {
        CArrayFactory { data }
    }

    /// The borrowed bytes themselves.
    pub fn as_slice(&self) -> (slice: &'a [u8])
        ensures
            slice@ == self.bytes(),
    {
        self.data
    }

    /// An owned byte value with the same contents.
    pub fn into_value(self) -> (value: GenericValue)
        ensures
            value@ == ValueModel::Bytes(self.bytes()),
    {
        GenericValue::Vbytes(slice_to_vec(self.data))
    }
}

} // verus!
