use serial_bridge::error::ReceiveError;
use serial_bridge::length_field::{format_length, parse_length, LENGTH_FIELD_LEN, LENGTH_LIMIT};
use serial_bridge::marker::MARKER_LEN;
use serial_bridge::serial_bridge_protocol::{
    receive_message, send_message, Received, ALIGNMENT_SEQUENCE,
};

const MARKER_TEXT: &str = "==\"'= ALIGNMENT SEQUENCE - SOLSTICE =\"'==";

fn frame(payload: &[u8]) -> Vec<u8> {
    let mut out = Vec::new();
    send_message(&mut out, payload);
    out
}

#[test]
fn marker_is_the_documented_text() {
    assert_eq!(&ALIGNMENT_SEQUENCE[..], MARKER_TEXT.as_bytes());
    assert_eq!(ALIGNMENT_SEQUENCE.len(), MARKER_LEN);
    assert_eq!(MARKER_LEN, 41);
    assert!(!ALIGNMENT_SEQUENCE.contains(&0u8));
}

#[test]
fn length_zero_formats_to_24_zeros() {
    let field = format_length(0).unwrap();
    assert_eq!(field, b"000000000000000000000000".to_vec());
    assert_eq!(field.len(), LENGTH_FIELD_LEN);
    assert_eq!(parse_length(&field), Ok(0));
}

#[test]
fn length_one_formats_and_parses_back() {
    let field = format_length(1).unwrap();
    assert_eq!(field, b"000000000000000000000001".to_vec());
    assert_eq!(parse_length(&field), Ok(1));
}

#[test]
fn length_of_23_nines_formats_and_parses_back() {
    let n: u128 = 100_000_000_000_000_000_000_000 - 1;
    let field = format_length(n).unwrap();
    assert_eq!(field, b"099999999999999999999999".to_vec());
    assert_eq!(field.len(), 24);
    assert_eq!(parse_length(&field), Ok(n));
}

#[test]
fn length_formats_like_a_zero_padded_decimal() {
    for n in [7u128, 10, 42, 65, 1234567890, u64::MAX as u128, LENGTH_LIMIT - 1] {
        let field = format_length(n).unwrap();
        assert_eq!(String::from_utf8(field.clone()).unwrap(), format!("{:024}", n));
        assert_eq!(parse_length(&field), Ok(n));
    }
}

#[test]
fn length_beyond_24_digits_is_refused() {
    assert_eq!(format_length(LENGTH_LIMIT), None);
    assert_eq!(format_length(u128::MAX), None);
    assert!(format_length(LENGTH_LIMIT - 1).is_some());
}

#[test]
fn length_field_with_a_non_digit_is_malformed() {
    assert_eq!(parse_length(b"00000000000000000000000x"), Err(ReceiveError::MalformedLength));
    assert_eq!(parse_length(b"+00000000000000000000001"), Err(ReceiveError::MalformedLength));
    assert_eq!(parse_length(b" 00000000000000000000001"), Err(ReceiveError::MalformedLength));
    assert_eq!(parse_length(b"0000000000000000000000-1"), Err(ReceiveError::MalformedLength));
    assert_eq!(parse_length(&[0xffu8; 24]), Err(ReceiveError::MalformedLength));
}

#[test]
fn length_field_of_another_width_is_malformed() {
    assert_eq!(parse_length(b""), Err(ReceiveError::MalformedLength));
    assert_eq!(parse_length(b"00000000000000000000001"), Err(ReceiveError::MalformedLength));
    assert_eq!(parse_length(b"0000000000000000000000001"), Err(ReceiveError::MalformedLength));
}

#[test]
fn send_message_writes_marker_length_and_payload() {
    let bytes = frame(b"\"Done\"");
    let mut expected = MARKER_TEXT.as_bytes().to_vec();
    expected.extend_from_slice(b"000000000000000000000006");
    expected.extend_from_slice(b"\"Done\"");
    assert_eq!(bytes, expected);
    assert_eq!(bytes.len(), 41 + 24 + 6);
}

#[test]
fn send_message_appends_to_what_the_stream_holds() {
    let mut stream = b"boot".to_vec();
    send_message(&mut stream, b"a");
    send_message(&mut stream, b"");
    let mut expected = b"boot".to_vec();
    expected.extend_from_slice(MARKER_TEXT.as_bytes());
    expected.extend_from_slice(b"000000000000000000000001a");
    expected.extend_from_slice(MARKER_TEXT.as_bytes());
    expected.extend_from_slice(b"000000000000000000000000");
    assert_eq!(stream, expected);
}

#[test]
fn receive_message_reads_back_what_was_sent() {
    for payload in [&b""[..], &b"x"[..], &b"\"WhatTestsShouldIRun\""[..], &[0u8, 255, 10, 13][..]] {
        let bytes = frame(payload);
        assert_eq!(
            receive_message(&bytes),
            Ok(Received { payload: payload.to_vec(), preamble: 41, consumed: 65 + payload.len() })
        );
    }
}

#[test]
fn receive_message_skips_noise_before_the_marker() {
    for k in [0usize, 1, 40, 41, 50, 500] {
        let mut stream: Vec<u8> = (0..k).map(|i| b'a' + (i % 26) as u8).collect();
        stream.extend_from_slice(&frame(b"{\"k\":1}"));
        stream.extend_from_slice(b"trailing bytes");
        let got = receive_message(&stream).unwrap();
        assert_eq!(got.preamble, k + 41);
        assert_eq!(got.payload, b"{\"k\":1}".to_vec());
        assert_eq!(got.consumed, k + 41 + 24 + 7);
    }
}

#[test]
fn receive_message_is_not_fooled_by_a_nearly_complete_marker() {
    let mut stream = MARKER_TEXT.as_bytes()[..40].to_vec();
    stream.push(b'!');
    let k = stream.len();
    stream.extend_from_slice(&frame(b"ok"));
    let got = receive_message(&stream).unwrap();
    assert_eq!(got.preamble, k + 41);
    assert_eq!(got.payload, b"ok".to_vec());
}

#[test]
fn receive_message_skips_zero_bytes_before_the_marker() {
    let mut stream = vec![0u8; 41];
    stream.extend_from_slice(&frame(b"z"));
    let got = receive_message(&stream).unwrap();
    assert_eq!(got.preamble, 82);
    assert_eq!(got.payload, b"z".to_vec());
}

#[test]
fn receive_message_finds_a_marker_that_noise_completes_early() {
    // The marker begins and ends with `==`: noise that ends with its first 39 bytes is
    // completed by the first two bytes of the marker that follows.
    let mut stream = MARKER_TEXT.as_bytes()[..39].to_vec();
    stream.extend_from_slice(MARKER_TEXT.as_bytes());
    stream.extend_from_slice(b"000000000000000000000000");
    assert_eq!(receive_message(&stream), Err(ReceiveError::MalformedLength));

    let mut longer = MARKER_TEXT.as_bytes()[..40].to_vec();
    longer.extend_from_slice(&frame(b"late"));
    assert_eq!(receive_message(&longer), Err(ReceiveError::MalformedLength));
}

#[test]
fn receive_message_without_a_marker_is_stream_closed() {
    assert_eq!(receive_message(b""), Err(ReceiveError::StreamClosed));
    assert_eq!(receive_message(b"no frame here"), Err(ReceiveError::StreamClosed));
    assert_eq!(receive_message(&MARKER_TEXT.as_bytes()[..40]), Err(ReceiveError::StreamClosed));
    assert_eq!(receive_message(&[0u8; 100]), Err(ReceiveError::StreamClosed));
}

#[test]
fn receive_message_with_a_short_length_field_is_stream_closed() {
    let whole = frame(b"abc");
    for cut in 41..65 {
        assert_eq!(receive_message(&whole[..cut]), Err(ReceiveError::StreamClosed));
    }
}

#[test]
fn receive_message_with_a_short_payload_is_stream_closed() {
    let whole = frame(b"abc");
    assert_eq!(receive_message(&whole[..65]), Err(ReceiveError::StreamClosed));
    assert_eq!(receive_message(&whole[..67]), Err(ReceiveError::StreamClosed));
    assert!(receive_message(&whole[..68]).is_ok());
}

#[test]
fn receive_message_with_a_bad_length_field_is_malformed() {
    let mut stream = MARKER_TEXT.as_bytes().to_vec();
    stream.extend_from_slice(b"00000000000000000000000a");
    stream.extend_from_slice(b"payload");
    assert_eq!(receive_message(&stream), Err(ReceiveError::MalformedLength));
}

#[test]
fn receive_message_with_a_payload_that_never_comes_is_stream_closed() {
    let mut stream = MARKER_TEXT.as_bytes().to_vec();
    stream.extend_from_slice(b"099999999999999999999999");
    assert_eq!(receive_message(&stream), Err(ReceiveError::StreamClosed));

    let mut longest = MARKER_TEXT.as_bytes().to_vec();
    longest.extend_from_slice(b"999999999999999999999999");
    longest.extend_from_slice(b"payload");
    assert_eq!(receive_message(&longest), Err(ReceiveError::StreamClosed));

    let mut one_short = MARKER_TEXT.as_bytes().to_vec();
    one_short.extend_from_slice(b"000000000000000000000008");
    one_short.extend_from_slice(b"payload");
    assert_eq!(receive_message(&one_short), Err(ReceiveError::StreamClosed));
}

#[test]
fn receive_message_reads_frames_one_after_another() {
    let mut stream = b"\r\nbooting...\r\n".to_vec();
    stream.extend_from_slice(&frame(b"first"));
    stream.extend_from_slice(b"chatter");
    stream.extend_from_slice(&frame(b"second"));
    let one = receive_message(&stream).unwrap();
    assert_eq!(one.payload, b"first".to_vec());
    let two = receive_message(&stream[one.consumed..]).unwrap();
    assert_eq!(two.payload, b"second".to_vec());
    assert_eq!(two.preamble, 7 + 41);
    assert_eq!(one.consumed + two.consumed, stream.len());
    assert_eq!(receive_message(&stream[one.consumed + two.consumed..]), Err(ReceiveError::StreamClosed));
}
