use vm_agent::payload::{
    decode_command, decode_frame, decode_payload, encode_command, encode_frame, encode_payload,
    split_frame, CommandPayload, Payload, Request,
};
use vm_agent::reader::{decode_chunks, FrameReader};
use vm_agent::wire::{
    decode_header, encode_header, FrameError, Header, DEFAULT_MAX_PAYLOAD, HEADER_SIZE, KIND_SIZE,
    LENGTH_SIZE,
};

#[test]
fn test_listen_for_open_connections() {
    assert_eq!(true, true)
}

#[test]
fn header_size_is_the_sum_of_its_fields() {
    assert_eq!(KIND_SIZE, 1);
    assert_eq!(LENGTH_SIZE, 8);
    assert_eq!(HEADER_SIZE, 9);
    assert_eq!(DEFAULT_MAX_PAYLOAD, 16 * 1024 * 1024);
}

#[test]
fn header_is_nine_bytes_in_network_order() {
    let bytes = encode_header(1, 0x0102030405060708);
    assert_eq!(bytes.len(), HEADER_SIZE);
    assert_eq!(bytes, vec![1u8, 1, 2, 3, 4, 5, 6, 7, 8]);
    let header = decode_header(&bytes).unwrap();
    assert_eq!(header, Header { request_type: 1, payload_length: 0x0102030405060708 });
}

#[test]
fn header_of_small_length_has_leading_zeros() {
    assert_eq!(encode_header(7, 5), vec![7u8, 0, 0, 0, 0, 0, 0, 0, 5]);
    assert_eq!(encode_header(0, u64::MAX), vec![0u8, 255, 255, 255, 255, 255, 255, 255, 255]);
}

#[test]
fn short_header_is_truncated() {
    let bytes = encode_header(1, 5);
    for n in 0..HEADER_SIZE {
        assert_eq!(decode_header(&bytes[..n]), Err(FrameError::Truncated));
    }
}

#[test]
fn header_ignores_what_follows() {
    let mut bytes = encode_header(3, 2);
    bytes.extend_from_slice(&[9, 9, 9]);
    assert_eq!(decode_header(&bytes), Ok(Header { request_type: 3, payload_length: 2 }));
}

#[test]
fn payload_without_config_has_the_documented_bytes() {
    let payload = Payload { code: "hi".to_owned(), config: None };
    let bytes = encode_payload(&payload).unwrap();
    assert_eq!(bytes, vec![2u8, 0, 0, 0, 0, 0, 0, 0, b'h', b'i', 0]);
}

#[test]
fn payload_with_config_has_the_documented_bytes() {
    let payload = Payload { code: "é".to_owned(), config: Some("c".to_owned()) };
    let bytes = encode_payload(&payload).unwrap();
    assert_eq!(
        bytes,
        vec![2u8, 0, 0, 0, 0, 0, 0, 0, 0xc3, 0xa9, 1, 1, 0, 0, 0, 0, 0, 0, 0, b'c']
    );
}

#[test]
fn payload_round_trip() {
    for (code, config) in [
        ("", None),
        ("console.log('Hello world!');", None),
        ("x", Some("")),
        ("snowman \u{2603}", Some("{\"a\": 1}")),
    ] {
        let payload = Payload { code: code.to_owned(), config: config.map(|c| c.to_owned()) };
        let bytes = encode_payload(&payload).unwrap();
        let back = decode_payload(&bytes).unwrap();
        assert_eq!(back.code, payload.code);
        assert_eq!(back.config, payload.config);
    }
}

#[test]
fn malformed_payloads_are_refused() {
    let good = encode_payload(&Payload { code: "hi".to_owned(), config: None }).unwrap();
    // nothing at all
    assert!(matches!(decode_payload(&[]), Err(FrameError::Malformed)));
    // cut short
    assert!(matches!(decode_payload(&good[..good.len() - 1]), Err(FrameError::Malformed)));
    // a byte left over
    let mut long = good.clone();
    long.push(0);
    assert!(matches!(decode_payload(&long), Err(FrameError::Malformed)));
    // an option tag that is neither 0 nor 1
    let mut tag = good.clone();
    let last = tag.len() - 1;
    tag[last] = 2;
    assert!(matches!(decode_payload(&tag), Err(FrameError::Malformed)));
    // text that is not UTF-8
    let mut text = good.clone();
    text[8] = 0xff;
    assert!(matches!(decode_payload(&text), Err(FrameError::Malformed)));
    // a length that runs past the end
    let mut length = good.clone();
    length[7] = 0x7f;
    assert!(matches!(decode_payload(&length), Err(FrameError::Malformed)));
}

#[test]
fn request_announces_the_size_of_its_payload() {
    let request = Request::new(1, "console.log(1)".to_owned(), None).unwrap();
    assert_eq!(request.header.request_type, 1);
    assert_eq!(request.header.payload_length, 8 + 14 + 1);
    assert_eq!(request.payload.code, "console.log(1)");
    assert_eq!(request.payload.config, None);
    let with = Request::new(2, "a".to_owned(), Some("bc".to_owned())).unwrap();
    assert_eq!(with.header.payload_length, 8 + 1 + 1 + 8 + 2);
}

#[test]
fn frame_round_trip() {
    let request = Request::new(1, "console.log('hi')".to_owned(), Some("cfg".to_owned())).unwrap();
    let bytes = request.encode().unwrap();
    assert_eq!(bytes.len() as u64, HEADER_SIZE as u64 + request.header.payload_length);
    let back = decode_frame(&bytes, 1024).unwrap();
    assert_eq!(back.header, request.header);
    assert_eq!(back.payload.code, request.payload.code);
    assert_eq!(back.payload.config, request.payload.config);
    // bytes after the frame are not looked at
    let mut more = bytes.clone();
    more.extend_from_slice(b"next");
    let again = decode_frame(&more, 1024).unwrap();
    assert_eq!(again.payload.code, request.payload.code);
}

#[test]
fn oversized_length_is_too_large() {
    let request = Request::new(1, "0123456789".to_owned(), None).unwrap();
    let bytes = request.encode().unwrap();
    assert!(matches!(decode_frame(&bytes, 18), Err(FrameError::TooLarge)));
    assert!(decode_frame(&bytes, 19).is_ok());
    // the length alone decides, before any payload has arrived
    let header = encode_header(1, u64::MAX);
    assert!(matches!(decode_frame(&header, 1024), Err(FrameError::TooLarge)));
    assert!(matches!(split_frame(&header, usize::MAX - 1), Err(FrameError::TooLarge)));
}

#[test]
fn five_announced_three_delivered_is_truncated() {
    let mut bytes = encode_header(1, 5);
    bytes.extend_from_slice(&[1, 2, 3]);
    assert!(matches!(decode_frame(&bytes, 1024), Err(FrameError::Truncated)));

    let mut reader = FrameReader::new(1024);
    assert_eq!(reader.wanted(), 9);
    assert_eq!(reader.feed(&bytes[..9]), 9);
    assert_eq!(reader.wanted(), 5);
    assert_eq!(reader.feed(&bytes[9..]), 3);
    assert_eq!(reader.wanted(), 2);
    // the connection closes here
    assert!(matches!(reader.finish(), Err(FrameError::Truncated)));
}

#[test]
fn malformed_frame_body() {
    let mut bytes = encode_header(1, 3);
    bytes.extend_from_slice(&[1, 2, 3]);
    assert!(matches!(decode_frame(&bytes, 1024), Err(FrameError::Malformed)));
}

#[test]
fn reader_takes_pieces_of_any_size() {
    let request = Request::new(4, "let x = 1;".to_owned(), Some("conf".to_owned())).unwrap();
    let bytes = request.encode().unwrap();
    for piece in 1..bytes.len() + 2 {
        let mut reader = FrameReader::new(4096);
        let mut at = 0;
        while reader.wanted() > 0 {
            let end = usize::min(at + piece, bytes.len());
            let taken = reader.feed(&bytes[at..end]);
            assert!(taken > 0);
            at += taken;
        }
        assert_eq!(at, bytes.len());
        let back = reader.finish().unwrap();
        assert_eq!(back.header, request.header);
        assert_eq!(back.payload.code, "let x = 1;");
        assert_eq!(back.payload.config, Some("conf".to_owned()));
    }
}

#[test]
fn reader_leaves_what_follows_the_frame() {
    let request = Request::new(1, "a".to_owned(), None).unwrap();
    let mut bytes = request.encode().unwrap();
    let frame = bytes.len();
    bytes.extend_from_slice(b"tail");
    let mut reader = FrameReader::new(64);
    assert_eq!(reader.feed(&bytes), frame);
    assert_eq!(reader.wanted(), 0);
    assert_eq!(reader.feed(b"more"), 0);
    assert_eq!(reader.finish().unwrap().payload.code, "a");
}

#[test]
fn reader_refuses_an_oversized_length_and_buffers_nothing() {
    let mut bytes = encode_header(1, 1 << 40);
    bytes.extend_from_slice(&[0; 32]);
    let mut reader = FrameReader::new(1 << 20);
    assert_eq!(reader.feed(&bytes), HEADER_SIZE);
    assert_eq!(reader.wanted(), 0);
    assert_eq!(reader.feed(&[0; 32]), 0);
    assert!(matches!(reader.finish_raw(), Err(FrameError::TooLarge)));
}

#[test]
fn reader_hands_out_header_and_body() {
    let bytes = encode_frame(9, b"raw output");
    let mut reader = FrameReader::new(64);
    assert_eq!(reader.feed(&bytes), bytes.len());
    let (header, body) = reader.finish_raw().unwrap();
    assert_eq!(header, Header { request_type: 9, payload_length: 10 });
    assert_eq!(body, b"raw output".to_vec());
}

#[test]
fn empty_stream_is_truncated() {
    let reader = FrameReader::new(64);
    assert!(matches!(reader.finish(), Err(FrameError::Truncated)));
}

#[test]
fn framed_body_is_header_then_body() {
    assert_eq!(encode_frame(2, b"hi\n"), vec![2u8, 0, 0, 0, 0, 0, 0, 0, 3, b'h', b'i', b'\n']);
    assert_eq!(encode_frame(2, b""), vec![2u8, 0, 0, 0, 0, 0, 0, 0, 0]);
    let framed = encode_frame(2, b"hi\n");
    let (header, body) = split_frame(&framed, 16).unwrap();
    assert_eq!(header.payload_length, 3);
    assert_eq!(body, b"hi\n");
}

#[test]
fn command_has_the_documented_bytes() {
    let payload = CommandPayload { command: vec!["echo".to_owned(), "hi".to_owned()] };
    let bytes = encode_command(&payload).unwrap();
    assert_eq!(
        bytes,
        vec![
            2u8, 0, 0, 0, 0, 0, 0, 0, 4, 0, 0, 0, 0, 0, 0, 0, b'e', b'c', b'h', b'o', 2, 0, 0, 0,
            0, 0, 0, 0, b'h', b'i'
        ]
    );
    assert_eq!(encode_command(&CommandPayload { command: vec![] }).unwrap(), vec![0u8; 8]);
}

#[test]
fn command_round_trip() {
    for words in [vec![], vec![""], vec!["/bin/false"], vec!["node", "-e", "console.log(\"\u{e9}\")"]] {
        let command: Vec<String> = words.iter().map(|w| w.to_string()).collect();
        let bytes = encode_command(&CommandPayload { command: command.clone() }).unwrap();
        assert_eq!(decode_command(&bytes).unwrap().command, command);
    }
}

#[test]
fn malformed_commands_are_refused() {
    let good = encode_command(&CommandPayload { command: vec!["echo".to_owned()] }).unwrap();
    assert!(matches!(decode_command(&[]), Err(FrameError::Malformed)));
    assert!(matches!(decode_command(&good[..good.len() - 1]), Err(FrameError::Malformed)));
    let mut long = good.clone();
    long.push(b'x');
    assert!(matches!(decode_command(&long), Err(FrameError::Malformed)));
    let mut count = good.clone();
    count[0] = 2;
    assert!(matches!(decode_command(&count), Err(FrameError::Malformed)));
    let mut text = good.clone();
    text[16] = 0xff;
    assert!(matches!(decode_command(&text), Err(FrameError::Malformed)));
}

#[test]
fn pieces_decode_like_the_whole() {
    let request = Request::new(1, "let x = 1;".to_owned(), Some("conf".to_owned())).unwrap();
    let mut bytes = request.encode().unwrap();
    bytes.extend_from_slice(b"after the frame");
    for size in 1..bytes.len() + 1 {
        let chunks: Vec<Vec<u8>> = bytes.chunks(size).map(|c| c.to_vec()).collect();
        let back = decode_chunks(&chunks, 64).unwrap();
        assert_eq!(back.header, request.header);
        assert_eq!(back.payload.code, "let x = 1;");
        assert_eq!(back.payload.config, Some("conf".to_owned()));
        assert!(matches!(decode_chunks(&chunks, 10), Err(FrameError::TooLarge)));
    }
    assert!(matches!(decode_chunks(&vec![], 64), Err(FrameError::Truncated)));
    let short = vec![encode_header(1, 5), vec![1, 2], vec![], vec![3]];
    assert!(matches!(decode_chunks(&short, 64), Err(FrameError::Truncated)));
    let wrong = vec![encode_header(1, 3), vec![1, 2], vec![3, 4]];
    assert!(matches!(decode_chunks(&wrong, 64), Err(FrameError::Malformed)));
}
