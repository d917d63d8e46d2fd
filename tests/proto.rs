use kvsnap::proto::decode;
use kvsnap::proto::encode;

#[test]
fn test_encode_array() {
    let str = encode::array(&["ECHO", "hey"]);
    assert_eq!(str, "*2\r\n$4\r\nECHO\r\n$3\r\nhey\r\n");
}

#[test]
fn test_decode_array() {
    let vec = decode::array("*2\r\n$4\r\nECHO\r\n$3\r\nhey\r\n");
    assert_eq!(&vec, &["ECHO", "hey"]);
}

#[test]
fn encode_simple_error_and_null() {
    assert_eq!(encode::text("PONG"), "+PONG\r\n");
    assert_eq!(encode::error("boom"), "-Error boom\r\n");
    assert_eq!(encode::null(), "$-1\r\n");
}

#[test]
fn encode_empty_array() {
    assert_eq!(encode::array(&[]), "*0\r\n");
}

#[test]
fn encode_array_counts_bytes_not_chars() {
    assert_eq!(encode::array(&["é"]), "*1\r\n$2\r\né\r\n");
    assert_eq!(encode::array(&["0123456789"]), "*1\r\n$10\r\n0123456789\r\n");
}

#[test]
fn decode_empty_and_header_only() {
    assert!(decode::array("").is_empty());
    assert!(decode::array("*0\r\n").is_empty());
}

#[test]
fn decode_keeps_payload_that_looks_like_a_prefix() {
    let encoded = encode::array(&["$", "*2", "$3"]);
    let vec = decode::array(&encoded);
    assert_eq!(&vec, &["$", "*2", "$3"]);
}

#[test]
fn decode_splits_frames_at_headers() {
    let frames = decode::frames("*1\r\n$4\r\nPING\r\n*2\r\n$4\r\nECHO\r\n$1\r\n*\r\n");
    assert_eq!(
        frames,
        vec![vec![], vec!["PING".to_string()], vec!["ECHO".to_string(), "*".to_string()]]
    );
}

#[test]
fn decode_drops_lines_outside_the_framing() {
    let vec = decode::array("*2\r\nECHO\r\n$3\r\nhey\r\n");
    assert_eq!(&vec, &["hey"]);
}

#[test]
fn decode_keeps_last_line_without_terminator() {
    let vec = decode::array("*1\r\n$4\r\nPING");
    assert_eq!(&vec, &["PING"]);
}

#[test]
fn decode_accepts_bare_newlines() {
    let vec = decode::array("*2\n$4\nECHO\n$3\nhey\n");
    assert_eq!(&vec, &["ECHO", "hey"]);
}
