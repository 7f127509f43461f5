use sandbox::{
    read_reply, read_request, write_reply, write_request, CArrayFactory, GenericValue, Reply,
    Request, Response, TypeMismatch, ValueKind,
};

fn sample_values() -> Vec<GenericValue> {
    vec![
        GenericValue::Vu64(0x0102_0304_0506_0708),
        GenericValue::Vusize(77),
        GenericValue::Vstring("héllo, wörld".to_string()),
        GenericValue::Vbytes(vec![0, 255, 1, 254]),
        GenericValue::Vstring(String::new()),
        GenericValue::Vbytes(Vec::new()),
    ]
}

#[test]
fn request_frame_has_the_documented_bytes() {
    let request = Request {
        opcode: "new".to_string(),
        main: vec![GenericValue::Vbytes(vec![b'a', b'b', b'c'])],
        aux: vec![],
    };
    let mut expected: Vec<u8> = Vec::new();
    expected.extend_from_slice(&[3, 0, 0, 0, 0, 0, 0, 0]);
    expected.extend_from_slice(b"new");
    expected.extend_from_slice(&[1, 0, 0, 0, 0, 0, 0, 0]);
    expected.push(3);
    expected.extend_from_slice(&[3, 0, 0, 0, 0, 0, 0, 0]);
    expected.extend_from_slice(b"abc");
    expected.extend_from_slice(&[0, 0, 0, 0, 0, 0, 0, 0]);
    assert_eq!(write_request(&request), expected);
}

#[test]
fn integer_values_are_written_least_significant_byte_first() {
    let reply = Reply::Values(Response {
        value: vec![GenericValue::Vu64(0x0102_0304_0506_0708)],
        response_aux: vec![GenericValue::Vusize(258)],
    });
    let mut expected: Vec<u8> = vec![0];
    expected.extend_from_slice(&[1, 0, 0, 0, 0, 0, 0, 0]);
    expected.push(0);
    expected.extend_from_slice(&[8, 7, 6, 5, 4, 3, 2, 1]);
    expected.extend_from_slice(&[1, 0, 0, 0, 0, 0, 0, 0]);
    expected.push(1);
    expected.extend_from_slice(&[2, 1, 0, 0, 0, 0, 0, 0]);
    assert_eq!(write_reply(&reply), expected);
}

#[test]
fn text_is_written_as_utf8() {
    let reply = Reply::Values(Response {
        value: vec![GenericValue::Vstring("é".to_string())],
        response_aux: vec![],
    });
    let mut expected: Vec<u8> = vec![0];
    expected.extend_from_slice(&[1, 0, 0, 0, 0, 0, 0, 0]);
    expected.push(2);
    expected.extend_from_slice(&[2, 0, 0, 0, 0, 0, 0, 0]);
    expected.extend_from_slice(&[0xC3, 0xA9]);
    expected.extend_from_slice(&[0, 0, 0, 0, 0, 0, 0, 0]);
    assert_eq!(write_reply(&reply), expected);
}

#[test]
fn unknown_token_reply_is_one_byte() {
    assert_eq!(write_reply(&Reply::UnknownToken), vec![1u8]);
    assert_eq!(read_reply(&[1u8]), Some(Reply::UnknownToken));
    assert_eq!(read_reply(&[1u8, 0u8]), None);
}

#[test]
fn request_round_trip() {
    let request = Request {
        opcode: "call".to_string(),
        main: sample_values(),
        aux: vec![GenericValue::Vstring("pop".to_string())],
    };
    let frame = write_request(&request);
    assert_eq!(read_request(&frame), Some(request));
}

#[test]
fn reply_round_trip() {
    let reply = Reply::Values(Response { value: sample_values(), response_aux: sample_values() });
    let frame = write_reply(&reply);
    assert_eq!(read_reply(&frame), Some(reply));
}

#[test]
fn empty_lists_round_trip() {
    let request = Request { opcode: String::new(), main: vec![], aux: vec![] };
    let frame = write_request(&request);
    assert_eq!(frame, vec![0u8; 24]);
    assert_eq!(read_request(&frame), Some(request));
    let reply = Reply::Values(Response { value: vec![], response_aux: vec![] });
    let frame = write_reply(&reply);
    assert_eq!(frame, vec![0u8; 17]);
    assert_eq!(read_reply(&frame), Some(reply));
}

#[test]
fn text_in_a_reply_is_decoded_from_utf8() {
    let mut frame: Vec<u8> = vec![0];
    frame.extend_from_slice(&[1, 0, 0, 0, 0, 0, 0, 0]);
    frame.push(2);
    frame.extend_from_slice(&[5, 0, 0, 0, 0, 0, 0, 0]);
    frame.extend_from_slice(&[b'n', 0xC3, 0xA9, b'e', b'!']);
    frame.extend_from_slice(&[0, 0, 0, 0, 0, 0, 0, 0]);
    let reply = read_reply(&frame);
    assert_eq!(
        reply,
        Some(Reply::Values(Response {
            value: vec![GenericValue::Vstring("née!".to_string())],
            response_aux: vec![],
        }))
    );
}

#[test]
fn text_that_is_not_utf8_is_refused() {
    let mut frame: Vec<u8> = vec![0];
    frame.extend_from_slice(&[1, 0, 0, 0, 0, 0, 0, 0]);
    frame.push(2);
    frame.extend_from_slice(&[2, 0, 0, 0, 0, 0, 0, 0]);
    frame.extend_from_slice(&[0xC3, 0x28]);
    frame.extend_from_slice(&[0, 0, 0, 0, 0, 0, 0, 0]);
    assert_eq!(read_reply(&frame), None);
    // The same bytes are fine as a byte value.
    frame[9] = 3;
    assert_eq!(
        read_reply(&frame),
        Some(Reply::Values(Response {
            value: vec![GenericValue::Vbytes(vec![0xC3, 0x28])],
            response_aux: vec![],
        }))
    );
}

#[test]
fn opcode_that_is_not_utf8_is_refused() {
    let mut frame: Vec<u8> = Vec::new();
    frame.extend_from_slice(&[1, 0, 0, 0, 0, 0, 0, 0]);
    frame.push(0xFF);
    frame.extend_from_slice(&[0u8; 16]);
    assert_eq!(read_request(&frame), None);
    frame[8] = b'x';
    assert_eq!(
        read_request(&frame),
        Some(Request { opcode: "x".to_string(), main: vec![], aux: vec![] })
    );
}

#[test]
fn truncated_frames_are_refused() {
    let reply = Reply::Values(Response { value: sample_values(), response_aux: sample_values() });
    let frame = write_reply(&reply);
    for cut in 0..frame.len() {
        assert_eq!(read_reply(&frame[..cut]), None, "cut at {}", cut);
    }
    let request = Request { opcode: "define".to_string(), main: sample_values(), aux: vec![] };
    let frame = write_request(&request);
    for cut in 0..frame.len() {
        assert_eq!(read_request(&frame[..cut]), None, "cut at {}", cut);
    }
}

#[test]
fn trailing_bytes_are_refused() {
    let reply = Reply::Values(Response { value: sample_values(), response_aux: vec![] });
    let mut frame = write_reply(&reply);
    frame.push(0);
    assert_eq!(read_reply(&frame), None);
    let request = Request { opcode: "new".to_string(), main: vec![], aux: sample_values() };
    let mut frame = write_request(&request);
    frame.push(7);
    assert_eq!(read_request(&frame), None);
}

#[test]
fn unknown_tags_and_statuses_are_refused() {
    assert_eq!(read_reply(&[]), None);
    assert_eq!(read_reply(&[2u8]), None);
    let mut frame: Vec<u8> = vec![0];
    frame.extend_from_slice(&[1, 0, 0, 0, 0, 0, 0, 0]);
    frame.push(4);
    frame.extend_from_slice(&[0u8; 8]);
    frame.extend_from_slice(&[0u8; 8]);
    assert_eq!(read_reply(&frame), None);
}

#[test]
fn count_larger_than_the_frame_is_refused() {
    let mut frame: Vec<u8> = vec![0];
    frame.extend_from_slice(&[0xFF; 8]);
    frame.extend_from_slice(&[0u8; 8]);
    assert_eq!(read_reply(&frame), None);
    // A blob that claims more bytes than there are.
    let mut frame: Vec<u8> = vec![0];
    frame.extend_from_slice(&[1, 0, 0, 0, 0, 0, 0, 0]);
    frame.push(3);
    frame.extend_from_slice(&[9, 0, 0, 0, 0, 0, 0, 0]);
    frame.extend_from_slice(&[0u8; 8]);
    assert_eq!(read_reply(&frame), None);
}

#[test]
fn typed_access_gives_the_value_or_the_mismatch() {
    let number = GenericValue::Vu64(9);
    let size = GenericValue::Vusize(4);
    let text = GenericValue::Vstring("t".to_string());
    let bytes = GenericValue::Vbytes(vec![1, 2]);
    assert_eq!(number.expect_u64(), Ok(9));
    assert_eq!(size.expect_usize(), Ok(4));
    assert_eq!(text.expect_string(), Ok(&"t".to_string()));
    assert_eq!(bytes.expect_bytes(), Ok(&vec![1u8, 2u8]));
    assert_eq!(
        bytes.expect_u64(),
        Err(TypeMismatch { expected: ValueKind::U64, found: ValueKind::Bytes })
    );
    assert_eq!(
        number.expect_usize(),
        Err(TypeMismatch { expected: ValueKind::Usize, found: ValueKind::U64 })
    );
    assert_eq!(
        size.expect_string(),
        Err(TypeMismatch { expected: ValueKind::String, found: ValueKind::Usize })
    );
    assert_eq!(
        text.expect_bytes(),
        Err(TypeMismatch { expected: ValueKind::Bytes, found: ValueKind::String })
    );
    assert_eq!(number.kind(), ValueKind::U64);
    assert_eq!(size.kind(), ValueKind::Usize);
    assert_eq!(text.kind(), ValueKind::String);
    assert_eq!(bytes.kind(), ValueKind::Bytes);
}

#[test]
fn borrowed_array_becomes_an_owned_value() {
    let memory = [5u8, 6, 7];
    let array = CArrayFactory::new(&memory);
    assert_eq!(array.as_slice(), &memory[..]);
    assert_eq!(array.into_value(), GenericValue::Vbytes(vec![5, 6, 7]));
    let nothing: [u8; 0] = [];
    assert_eq!(CArrayFactory::new(&nothing).into_value(), GenericValue::Vbytes(vec![]));
}
