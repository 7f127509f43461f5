//! The byte form of values, requests and replies.
//!
//! Integers are eight bytes, least significant first. A blob is its length as
//! such an integer, then its bytes. A value is one tag byte and its payload: an
//! integer, or a blob (text travels as UTF-8). A list is its count, then its
//! values. A request is the operation name as a blob, then the main and the
//! auxiliary list. A reply is one status byte and, where the status is success,
//! the value and the auxiliary list. A frame holds nothing else.

use crate::message::{Reply, ReplyModel, Request, RequestModel, Response, ResponseModel};
use crate::value::{models, GenericValue, ValueModel};
use vstd::bytes::{spec_u64_from_le_bytes, spec_u64_to_le_bytes, u64_from_le_bytes, u64_to_le_bytes};
use vstd::bytes::lemma_auto_spec_u64_to_from_le_bytes;
use vstd::prelude::*;
use vstd::slice::{slice_subrange, slice_to_vec};
use vstd::utf8::{
    decode_utf8, encode_utf8, encode_utf8_decode_utf8, encode_utf8_valid_utf8, valid_utf8,
};

verus! {

pub const TAG_U64: u8 = 0;

pub const TAG_USIZE: u8 = 1;

pub const TAG_STRING: u8 = 2;

pub const TAG_BYTES: u8 = 3;

pub const STATUS_VALUES: u8 = 0;

pub const STATUS_UNKNOWN_TOKEN: u8 = 1;

// ---------------------------------------------------------------- encoding

pub open spec fn encode_word(x: u64) -> Seq<u8> {
    spec_u64_to_le_bytes(x)
}

pub open spec fn encode_blob(bytes: Seq<u8>) -> Seq<u8> {
    encode_word(bytes.len() as u64) + bytes
}

pub open spec fn encode_value(v: ValueModel) -> Seq<u8> {
    match v {
        ValueModel::U64(x) => seq![TAG_U64] + encode_word(x),
        ValueModel::Usize(x) => seq![TAG_USIZE] + encode_word(x as u64),
        ValueModel::Text(s) => seq![TAG_STRING] + encode_blob(encode_utf8(s)),
        ValueModel::Bytes(b) => seq![TAG_BYTES] + encode_blob(b),
    }
}

pub open spec fn encode_items(values: Seq<ValueModel>) -> Seq<u8>
    decreases values.len(),
{
    if values.len() == 0 {
        Seq::empty()
    } else {
        encode_value(values.first()) + encode_items(values.drop_first())
    }
}

pub open spec fn encode_list(values: Seq<ValueModel>) -> Seq<u8> {
    encode_word(values.len() as u64) + encode_items(values)
}

pub open spec fn encode_request(r: RequestModel) -> Seq<u8> {
    encode_blob(encode_utf8(r.opcode)) + encode_list(r.main) + encode_list(r.aux)
}

pub open spec fn encode_response(r: ResponseModel) -> Seq<u8> {
    encode_list(r.value) + encode_list(r.aux)
}

pub open spec fn encode_reply(r: ReplyModel) -> Seq<u8> {
    match r {
        ReplyModel::Values(response) => seq![STATUS_VALUES] + encode_response(response),
        ReplyModel::UnknownToken => seq![STATUS_UNKNOWN_TOKEN],
    }
}

// ----------------------------------------------------------------- parsing
//
// Each parser takes the bytes still unread and gives what it read together with
// the bytes that follow, or `None` where the bytes do not start with such an item.

pub open spec fn parse_word(s: Seq<u8>) -> Option<(u64, Seq<u8>)> {
    if s.len() >= 8 {
        Some((spec_u64_from_le_bytes(s.take(8)), s.skip(8)))
    } else {
        None
    }
}

pub open spec fn parse_blob(s: Seq<u8>) -> Option<(Seq<u8>, Seq<u8>)> {
    match parse_word(s) {
        Some((n, rest)) => if n <= rest.len() {
            Some((rest.take(n as int), rest.skip(n as int)))
        } else {
            None
        },
        None => None,
    }
}

pub open spec fn parse_value(s: Seq<u8>) -> Option<(ValueModel, Seq<u8>)> {
    if s.len() == 0 {
        None
    } else if s[0] == TAG_U64 {
        match parse_word(s.skip(1)) {
            Some((x, rest)) => Some((ValueModel::U64(x), rest)),
            None => None,
        }
    } else if s[0] == TAG_USIZE {
        match parse_word(s.skip(1)) {
            Some((x, rest)) => if x <= usize::MAX {
                Some((ValueModel::Usize(x as usize), rest))
            } else {
                None
            },
            None => None,
        }
    } else if s[0] == TAG_STRING {
        match parse_blob(s.skip(1)) {
            Some((b, rest)) => if valid_utf8(b) {
                Some((ValueModel::Text(decode_utf8(b)), rest))
            } else {
                None
            },
            None => None,
        }
    } else if s[0] == TAG_BYTES {
        match parse_blob(s.skip(1)) {
            Some((b, rest)) => Some((ValueModel::Bytes(b), rest)),
            None => None,
        }
    } else {
        None
    }
}

pub open spec fn parse_items(s: Seq<u8>, count: nat) -> Option<(Seq<ValueModel>, Seq<u8>)>
    decreases count,
{
    if count == 0 {
        Some((Seq::empty(), s))
    } else {
        match parse_value(s) {
            Some((v, rest)) => match parse_items(rest, (count - 1) as nat) {
                Some((values, end)) => Some((seq![v] + values, end)),
                None => None,
            },
            None => None,
        }
    }
}

pub open spec fn parse_list(s: Seq<u8>) -> Option<(Seq<ValueModel>, Seq<u8>)> {
    match parse_word(s) {
        Some((n, rest)) => parse_items(rest, n as nat),
        None => None,
    }
}

/// The request that a whole frame holds.
pub open spec fn parse_request(s: Seq<u8>) -> Option<RequestModel> {
    match parse_blob(s) {
        Some((name, s1)) => if valid_utf8(name) {
            match parse_list(s1) {
                Some((main, s2)) => match parse_list(s2) {
                    Some((aux, s3)) => if s3.len() == 0 {
                        Some(RequestModel { opcode: decode_utf8(name), main, aux })
                    } else {
                        None
                    },
                    None => None,
                },
                None => None,
            }
        } else {
            None
        },
        None => None,
    }
}

/// The reply that a whole frame holds.
pub open spec fn parse_reply(s: Seq<u8>) -> Option<ReplyModel> {
    if s.len() == 0 {
        None
    } else if s[0] == STATUS_UNKNOWN_TOKEN {
        if s.len() == 1 {
            Some(ReplyModel::UnknownToken)
        } else {
            None
        }
    } else if s[0] == STATUS_VALUES {
        match parse_list(s.skip(1)) {
            Some((value, s1)) => match parse_list(s1) {
                Some((aux, s2)) => if s2.len() == 0 {
                    Some(ReplyModel::Values(ResponseModel { value, aux }))
                } else {
                    None
                },
                None => None,
            },
            None => None,
        }
    } else {
        None
    }
}

// ------------------------------------------------------- encoding, executable

/// `encode_items` of a list with one more value at its end.
pub proof fn lemma_encode_items_push(values: Seq<ValueModel>, v: ValueModel)
    ensures
        encode_items(values.push(v)) == encode_items(values) + encode_value(v),
    decreases values.len(),
{
    let longer = values.push(v);
    if values.len() == 0 {
        assert(longer.drop_first() =~= Seq::<ValueModel>::empty());
        assert(encode_items(longer.drop_first()) =~= Seq::<u8>::empty());
        assert(encode_items(longer) =~= encode_value(v));
        assert(encode_items(values) + encode_value(v) =~= encode_value(v));
    } else {
        assert(longer.drop_first() =~= values.drop_first().push(v));
        assert(longer.first() == values.first());
        lemma_encode_items_push(values.drop_first(), v);
        assert(encode_items(longer) =~= encode_items(values) + encode_value(v));
    }
}

fn put_word(out: &mut Vec<u8>, x: u64)
    ensures
        final(out)@ == old(out)@ + encode_word(x),
{
    let mut word = u64_to_le_bytes(x);
    out.append(&mut word);
}

fn put_blob(out: &mut Vec<u8>, bytes: &[u8])
    ensures
        final(out)@ == old(out)@ + encode_blob(bytes@),
        bytes@.len() <= u64::MAX,
{
    put_word(out, bytes.len() as u64);
    let ghost before = out@;
    out.extend_from_slice(bytes);
    assert(out@ =~= before + bytes@);
    assert(out@ =~= old(out)@ + encode_blob(bytes@));
}

fn put_value(out: &mut Vec<u8>, v: &GenericValue)
    ensures
        final(out)@ == old(out)@ + encode_value(v@),
        value_fits(v@),
{
    match v {
        GenericValue::Vu64(x) => {
            out.push(TAG_U64);
            put_word(out, *x);
            assert(out@ =~= old(out)@ + encode_value(v@));
        },
        GenericValue::Vusize(x) => {
            out.push(TAG_USIZE);
            put_word(out, *x as u64);
            assert(out@ =~= old(out)@ + encode_value(v@));
        },
        GenericValue::Vstring(s) => {
            out.push(TAG_STRING);
            put_blob(out, s.as_str().as_bytes());
            assert(out@ =~= old(out)@ + encode_value(v@));
        },
        GenericValue::Vbytes(b) => {
            out.push(TAG_BYTES);
            put_blob(out, b.as_slice());
            assert(out@ =~= old(out)@ + encode_value(v@));
        },
    }
}

fn put_list(out: &mut Vec<u8>, values: &Vec<GenericValue>)
    ensures
        final(out)@ == old(out)@ + encode_list(models(values@)),
        values_fit(models(values@)),
{
    put_word(out, values.len() as u64);
    let ghost all = models(values@);
    let ghost start = out@;
    let mut i: usize = 0;
    assert(all.take(0) =~= Seq::<ValueModel>::empty());
    while i < values.len()
        invariant
            i <= values.len(),
            all == models(values@),
            out@ == start + encode_items(all.take(i as int)),
            forall|k: int| 0 <= k < i ==> value_fits(#[trigger] all[k]),
        decreases values.len() - i,
    {
        let ghost before = out@;
        put_value(out, &values[i]);
        proof {
            lemma_encode_items_push(all.take(i as int), all[i as int]);
            assert(all.take(i as int + 1) =~= all.take(i as int).push(all[i as int]));
            assert(out@ =~= start + encode_items(all.take(i as int + 1)));
        }
        i = i + 1;
    }
    assert(all.take(i as int) =~= all);
    assert(out@ =~= old(out)@ + encode_list(all));
}

/// The frame that carries `request`. Reading the frame gives the request back.
pub fn write_request(request: &Request) -> (frame: Vec<u8>)
    ensures
        frame@ == encode_request(request@),
        parse_request(frame@) == Some(request@),
{
    let mut frame: Vec<u8> = Vec::new();
    put_blob(&mut frame, request.opcode.as_str().as_bytes());
    put_list(&mut frame, &request.main);
    put_list(&mut frame, &request.aux);
    assert(frame@ =~= encode_request(request@));
    proof {
        lemma_request_round_trip(request@);
    }
    frame
}

/// The frame that carries `reply`. Reading the frame gives the reply back.
pub fn write_reply(reply: &Reply) -> (frame: Vec<u8>)
    ensures
        frame@ == encode_reply(reply@),
        parse_reply(frame@) == Some(reply@),
{
    let mut frame: Vec<u8> = Vec::new();
    match reply {
        Reply::Values(response) => {
            frame.push(STATUS_VALUES);
            put_list(&mut frame, &response.value);
            put_list(&mut frame, &response.response_aux);
            assert(frame@ =~= encode_reply(reply@));
        },
        Reply::UnknownToken => {
            frame.push(STATUS_UNKNOWN_TOKEN);
            assert(frame@ =~= encode_reply(reply@));
        },
    }
    proof {
        lemma_reply_round_trip(reply@);
    }
    frame
}

// ------------------------------------------------------------- round trips

/// Whether the lengths inside `v` can be written as eight-byte integers.
pub open spec fn value_fits(v: ValueModel) -> bool {
    match v {
        ValueModel::Text(s) => encode_utf8(s).len() <= u64::MAX,
        ValueModel::Bytes(b) => b.len() <= u64::MAX,
        _ => true,
    }
}

pub open spec fn values_fit(values: Seq<ValueModel>) -> bool {
    &&& values.len() <= u64::MAX
    &&& forall|i: int| 0 <= i < values.len() ==> value_fits(#[trigger] values[i])
}

pub open spec fn request_fits(r: RequestModel) -> bool {
    &&& encode_utf8(r.opcode).len() <= u64::MAX
    &&& values_fit(r.main)
    &&& values_fit(r.aux)
}

pub open spec fn reply_fits(r: ReplyModel) -> bool {
    match r {
        ReplyModel::Values(response) => values_fit(response.value) && values_fit(response.aux),
        ReplyModel::UnknownToken => true,
    }
}

pub proof fn lemma_word_round_trip(x: u64, tail: Seq<u8>)
    ensures
        encode_word(x).len() == 8,
        parse_word(encode_word(x) + tail) == Some((x, tail)),
{
    lemma_auto_spec_u64_to_from_le_bytes();
    let s = encode_word(x) + tail;
    assert(s.take(8) =~= encode_word(x));
    assert(s.skip(8) =~= tail);
}

pub proof fn lemma_blob_round_trip(bytes: Seq<u8>, tail: Seq<u8>)
    requires
        bytes.len() <= u64::MAX,
    ensures
        parse_blob(encode_blob(bytes) + tail) == Some((bytes, tail)),
{
    let n = bytes.len() as u64;
    let body = bytes + tail;
    assert(encode_blob(bytes) + tail =~= encode_word(n) + body);
    lemma_word_round_trip(n, body);
    assert(body.take(n as int) =~= bytes);
    assert(body.skip(n as int) =~= tail);
}

pub proof fn lemma_value_round_trip(v: ValueModel, tail: Seq<u8>)
    requires
        value_fits(v),
    ensures
        parse_value(encode_value(v) + tail) == Some((v, tail)),
{
    let s = encode_value(v) + tail;
    match v {
        ValueModel::U64(x) => {
            assert(s.skip(1) =~= encode_word(x) + tail);
            lemma_word_round_trip(x, tail);
        },
        ValueModel::Usize(x) => {
            assert(s.skip(1) =~= encode_word(x as u64) + tail);
            lemma_word_round_trip(x as u64, tail);
        },
        ValueModel::Text(t) => {
            assert(s.skip(1) =~= encode_blob(encode_utf8(t)) + tail);
            lemma_blob_round_trip(encode_utf8(t), tail);
            encode_utf8_valid_utf8(t);
            encode_utf8_decode_utf8(t);
        },
        ValueModel::Bytes(b) => {
            assert(s.skip(1) =~= encode_blob(b) + tail);
            lemma_blob_round_trip(b, tail);
        },
    }
}

pub proof fn lemma_items_round_trip(values: Seq<ValueModel>, tail: Seq<u8>)
    requires
        forall|i: int| 0 <= i < values.len() ==> value_fits(#[trigger] values[i]),
    ensures
        parse_items(encode_items(values) + tail, values.len()) == Some((values, tail)),
    decreases values.len(),
{
    if values.len() == 0 {
        assert(encode_items(values) + tail =~= tail);
        assert(values =~= Seq::<ValueModel>::empty());
    } else {
        let rest = values.drop_first();
        let after = encode_items(rest) + tail;
        assert(encode_items(values) + tail =~= encode_value(values.first()) + after);
        lemma_value_round_trip(values.first(), after);
        assert forall|i: int| 0 <= i < rest.len() implies value_fits(#[trigger] rest[i]) by {
            assert(rest[i] == values[i + 1]);
        }
        lemma_items_round_trip(rest, tail);
        assert(seq![values.first()] + rest =~= values);
    }
}

pub proof fn lemma_list_round_trip(values: Seq<ValueModel>, tail: Seq<u8>)
    requires
        values_fit(values),
    ensures
        parse_list(encode_list(values) + tail) == Some((values, tail)),
{
    let n = values.len() as u64;
    let body = encode_items(values) + tail;
    assert(encode_list(values) + tail =~= encode_word(n) + body);
    lemma_word_round_trip(n, body);
    lemma_items_round_trip(values, tail);
}

/// A request that is written and read again is the same request.
pub proof fn lemma_request_round_trip(r: RequestModel)
    requires
        request_fits(r),
    ensures
        parse_request(encode_request(r)) == Some(r),
{
    let name = encode_utf8(r.opcode);
    let s2 = encode_list(r.aux);
    let s1 = encode_list(r.main) + s2;
    assert(encode_request(r) =~= encode_blob(name) + s1);
    lemma_blob_round_trip(name, s1);
    encode_utf8_valid_utf8(r.opcode);
    encode_utf8_decode_utf8(r.opcode);
    lemma_list_round_trip(r.main, s2);
    assert(s2 =~= s2 + Seq::<u8>::empty());
    lemma_list_round_trip(r.aux, Seq::<u8>::empty());
}

/// A reply that is written and read again is the same reply.
pub proof fn lemma_reply_round_trip(r: ReplyModel)
    requires
        reply_fits(r),
    ensures
        parse_reply(encode_reply(r)) == Some(r),
{
    match r {
        ReplyModel::Values(response) => {
            let s = encode_reply(r);
            let s2 = encode_list(response.aux);
            assert(s.skip(1) =~= encode_list(response.value) + s2);
            lemma_list_round_trip(response.value, s2);
            assert(s2 =~= s2 + Seq::<u8>::empty());
            lemma_list_round_trip(response.aux, Seq::<u8>::empty());
        },
        ReplyModel::UnknownToken => {},
    }
}

// ------------------------------------------------------- decoding, executable

/// `String::from_utf8` of std: the conversion succeeds exactly on well-formed
/// UTF-8, and the text it gives has the given bytes as its encoding.
#[verifier::external_body]
fn text_from_utf8(bytes: Vec<u8>) -> (r: Option<String>)
    ensures
        r is Some <==> valid_utf8(bytes@),
        r matches Some(s) ==> encode_utf8(s@) == bytes@,
{
    match String::from_utf8(bytes) {
        Ok(text) => Some(text),
        Err(_) => None,
    }
}

fn take_word(bytes: &[u8], pos: usize) -> (r: Option<(u64, usize)>)
    requires
        pos <= bytes@.len(),
    ensures
        match r {
            Some((x, next)) => pos <= next <= bytes@.len() && parse_word(bytes@.skip(pos as int))
                == Some((x, bytes@.skip(next as int))),
            None => parse_word(bytes@.skip(pos as int)) is None,
        },
{
    if bytes.len() - pos < 8 {
        return None;
    }
    let x: u64 = u64_from_le_bytes(slice_subrange(bytes, pos, pos + 8));
    proof {
        assert(bytes@.subrange(pos as int, pos + 8) =~= bytes@.skip(pos as int).take(8));
        assert(bytes@.skip(pos as int).skip(8) =~= bytes@.skip(pos + 8));
    }
    Some((x, pos + 8))
}

fn take_blob<'a>(bytes: &'a [u8], pos: usize) -> (r: Option<(&'a [u8], usize)>)
    requires
        pos <= bytes@.len(),
    ensures
        match r {
            Some((blob, next)) => pos <= next <= bytes@.len() && parse_blob(bytes@.skip(pos as int))
                == Some((blob@, bytes@.skip(next as int))),
            None => parse_blob(bytes@.skip(pos as int)) is None,
        },
{
    match take_word(bytes, pos) {
        None => None,
        Some((n, body)) => {
            if n > (bytes.len() - body) as u64 {
                None
            } else {
                let end: usize = body + n as usize;
                let blob = slice_subrange(bytes, body, end);
                proof {
                    let rest = bytes@.skip(body as int);
                    assert(blob@ =~= rest.take(n as int));
                    assert(rest.skip(n as int) =~= bytes@.skip(end as int));
                }
                Some((blob, end))
            }
        },
    }
}

fn take_value(bytes: &[u8], pos: usize) -> (r: Option<(GenericValue, usize)>)
    requires
        pos <= bytes@.len(),
    ensures
        match r {
            Some((v, next)) => pos <= next <= bytes@.len() && parse_value(bytes@.skip(pos as int))
                == Some((v@, bytes@.skip(next as int))),
            None => parse_value(bytes@.skip(pos as int)) is None,
        },
{
    if pos == bytes.len() {
        return None;
    }
    let tag: u8 = bytes[pos];
    let body: usize = pos + 1;
    proof {
        assert(bytes@.skip(pos as int)[0] == tag);
        assert(bytes@.skip(pos as int).skip(1) =~= bytes@.skip(body as int));
    }
    if tag == TAG_U64 {
        match take_word(bytes, body) {
            Some((x, next)) => Some((GenericValue::Vu64(x), next)),
            None => None,
        }
    } else if tag == TAG_USIZE {
        match take_word(bytes, body) {
            Some((x, next)) => {
                if x <= usize::MAX as u64 {
                    Some((GenericValue::Vusize(x as usize), next))
                } else {
                    None
                }
            },
            None => None,
        }
    } else if tag == TAG_STRING {
        match take_blob(bytes, body) {
            Some((blob, next)) => {
                match text_from_utf8(slice_to_vec(blob)) {
                    Some(text) => {
                        proof {
                            encode_utf8_decode_utf8(text@);
                        }
                        Some((GenericValue::Vstring(text), next))
                    },
                    None => None,
                }
            },
            None => None,
        }
    } else if tag == TAG_BYTES {
        match take_blob(bytes, body) {
            Some((blob, next)) => Some((GenericValue::Vbytes(slice_to_vec(blob)), next)),
            None => None,
        }
    } else {
        None
    }
}

/// `tail` with `head` put before the values it read.
pub open spec fn after_values(head: Seq<ValueModel>, tail: Option<(Seq<ValueModel>, Seq<u8>)>)
    -> Option<(Seq<ValueModel>, Seq<u8>)> {
    match tail {
        Some((values, end)) => Some((head + values, end)),
        None => None,
    }
}

fn take_list(bytes: &[u8], pos: usize) -> (r: Option<(Vec<GenericValue>, usize)>)
    requires
        pos <= bytes@.len(),
    ensures
        match r {
            Some((values, next)) => pos <= next <= bytes@.len() && parse_list(
                bytes@.skip(pos as int),
            ) == Some((models(values@), bytes@.skip(next as int))),
            None => parse_list(bytes@.skip(pos as int)) is None,
        },
{
    let (count, first) = match take_word(bytes, pos) {
        Some(pair) => pair,
        None => {
            return None;
        },
    };
    let ghost whole = parse_items(bytes@.skip(first as int), count as nat);
    let mut values: Vec<GenericValue> = Vec::new();
    let mut cur: usize = first;
    let mut i: u64 = 0;
    assert(after_values(models(values@), whole) == whole) by {
        if whole is Some {
            assert(models(values@) + (whole->0).0 =~= (whole->0).0);
        }
    }
    while i < count
        invariant
            i <= count,
            first <= cur <= bytes@.len(),
            parse_list(bytes@.skip(pos as int)) == whole,
            whole == after_values(
                models(values@),
                parse_items(bytes@.skip(cur as int), (count - i) as nat),
            ),
        decreases count - i,
    {
        match take_value(bytes, cur) {
            None => {
                return None;
            },
            Some((v, next)) => {
                proof {
                    let head = models(values@);
                    let inner = parse_items(bytes@.skip(next as int), (count - i - 1) as nat);
                    assert(models(values@.push(v)) =~= head.push(v@));
                    if inner is Some {
                        assert(head + (seq![v@] + (inner->0).0) =~= head.push(v@) + (inner->0).0);
                    }
                }
                values.push(v);
                cur = next;
                i = i + 1;
            },
        }
    }
    proof {
        assert(models(values@) + Seq::<ValueModel>::empty() =~= models(values@));
    }
    Some((values, cur))
}

/// The request in `frame`, where the whole of `frame` is one well-formed request.
pub fn read_request(frame: &[u8]) -> (r: Option<Request>)
    ensures
        match r {
            Some(request) => parse_request(frame@) == Some(request@),
            None => parse_request(frame@) is None,
        },
{
    assert(frame@.skip(0) =~= frame@);
    let (name, s1) = match take_blob(frame, 0) {
        Some(pair) => pair,
        None => {
            return None;
        },
    };
    let opcode = match text_from_utf8(slice_to_vec(name)) {
        Some(text) => text,
        None => {
            return None;
        },
    };
    proof {
        encode_utf8_decode_utf8(opcode@);
    }
    let (main, s2) = match take_list(frame, s1) {
        Some(pair) => pair,
        None => {
            return None;
        },
    };
    let (aux, s3) = match take_list(frame, s2) {
        Some(pair) => pair,
        None => {
            return None;
        },
    };
    if s3 != frame.len() {
        return None;
    }
    Some(Request { opcode, main, aux })
}

/// The reply in `frame`, where the whole of `frame` is one well-formed reply.
pub fn read_reply(frame: &[u8]) -> (r: Option<Reply>)
    ensures
        match r {
            Some(reply) => parse_reply(frame@) == Some(reply@),
            None => parse_reply(frame@) is None,
        },
{
    if frame.len() == 0 {
        return None;
    }
    let status: u8 = frame[0];
    if status == STATUS_UNKNOWN_TOKEN {
        if frame.len() == 1 {
            Some(Reply::UnknownToken)
        } else {
            None
        }
    } else if status == STATUS_VALUES {
        let (value, s1) = match take_list(frame, 1) {
            Some(pair) => pair,
            None => {
                return None;
            },
        };
        let (response_aux, s2) = match take_list(frame, s1) {
            Some(pair) => pair,
            None => {
                return None;
            },
        };
        if s2 != frame.len() {
            return None;
        }
        Some(Reply::Values(Response { value, response_aux }))
    } else {
        None
    }
}

} // verus!
