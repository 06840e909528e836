use bytes::BytesMut;
use karics_core::response::{
    encode, encode_error, encoded_len, status_code_to_message, Response, MAX_HEADERS,
};

const DATE: &[u8] = b"Mon, 01 Jan 2024 00:00:00 GMT";

fn encoded(rsp: &Response, date: &[u8]) -> Vec<u8> {
    let mut buf = BytesMut::new();
    encode(rsp, date, &mut buf);
    buf.to_vec()
}

#[test]
fn reason_phrases_follow_the_registry() {
    assert_eq!(status_code_to_message(200), "OK");
    assert_eq!(status_code_to_message(404), "Not Found");
    assert_eq!(status_code_to_message(405), "Method Not Allowed");
    assert_eq!(status_code_to_message(418), "I'm a teapot");
    assert_eq!(status_code_to_message(511), "Network Authentication Required");
    assert_eq!(status_code_to_message(799), "Unknown Status Code");
    assert_eq!(status_code_to_message(0), "Unknown Status Code");
}

#[test]
fn ok_body_round_trip() {
    let mut rsp = Response::new(BytesMut::new());
    rsp.body("OK");
    let out = encoded(&rsp, DATE);
    let expected = b"HTTP/1.1 200 OK\r\nServer: M\r\nDate: Mon, 01 Jan 2024 00:00:00 GMT\r\nContent-Length: 2\r\n\r\nOK";
    assert_eq!(out, expected.to_vec());
    assert!(out.ends_with(b"\r\n\r\nOK"));
}

#[test]
fn encoding_twice_is_identical_but_for_the_date() {
    let mut rsp = Response::new(BytesMut::new());
    rsp.status_code(201, "Created").header("X-Id: 7");
    rsp.body_vec(b"{\"id\": 7}".to_vec());
    let mut buf = BytesMut::new();
    encode(&rsp, DATE, &mut buf);
    let first = buf.to_vec();
    buf.clear();
    encode(&rsp, DATE, &mut buf);
    assert_eq!(first, buf.to_vec());
    buf.clear();
    let other = b"Tue, 02 Jan 2024 00:00:00 GMT";
    encode(&rsp, other, &mut buf);
    let second = buf.to_vec();
    let swapped = String::from_utf8(first).unwrap().replace(
        "Mon, 01 Jan 2024 00:00:00 GMT",
        "Tue, 02 Jan 2024 00:00:00 GMT",
    );
    assert_eq!(swapped.into_bytes(), second);
}

#[test]
fn unknown_status_gets_unknown_reason() {
    let rsp = Response::builder().status(799).body(Vec::new());
    let out = encoded(&rsp, DATE);
    assert!(out.starts_with(b"HTTP/1.1 799 Unknown Status Code\r\n"));
    assert!(out.ends_with(b"Content-Length: 0\r\n\r\n"));
}

#[test]
fn header_lines_come_verbatim_in_order() {
    let mut rsp = Response::new(BytesMut::new());
    rsp.header("A: 1").header("B: 2");
    rsp.body("x");
    let out = String::from_utf8(encoded(&rsp, b"D")).unwrap();
    assert_eq!(
        out,
        "HTTP/1.1 200 OK\r\nServer: M\r\nDate: D\r\nContent-Length: 1\r\nA: 1\r\nB: 2\r\n\r\nx"
    );
}

#[test]
fn full_header_capacity_is_accepted() {
    let mut rsp = Response::new(BytesMut::new());
    for _ in 0..MAX_HEADERS {
        rsp.header("H: v");
    }
    let out = String::from_utf8(encoded(&rsp, b"D")).unwrap();
    assert_eq!(out.matches("\r\nH: v").count(), MAX_HEADERS);
}

#[test]
fn content_length_counts_bytes_not_chars() {
    let mut rsp = Response::new(BytesMut::new());
    rsp.body("héllo");
    assert_eq!(rsp.body_len(), 6);
    let out = encoded(&rsp, b"D");
    assert!(String::from_utf8(out).unwrap().contains("Content-Length: 6\r\n"));
}

#[test]
fn multi_digit_content_length() {
    let mut rsp = Response::new(BytesMut::new());
    rsp.body_vec(vec![b'a'; 1234]);
    let out = String::from_utf8(encoded(&rsp, b"D")).unwrap();
    assert!(out.contains("\r\nContent-Length: 1234\r\n\r\n"));
    assert_eq!(encoded_len(&rsp, b"D"), Some(out.len()));
}

#[test]
fn builder_joins_header_name_and_value() {
    let rsp = Response::builder()
        .status(404)
        .header("Content-Type", "application/json")
        .body(b"{}".to_vec());
    let out = String::from_utf8(encoded(&rsp, b"D")).unwrap();
    assert_eq!(
        out,
        "HTTP/1.1 404 Not Found\r\nServer: M\r\nDate: D\r\nContent-Length: 2\r\nContent-Type: application/json\r\n\r\n{}"
    );
}

#[test]
fn scratch_body_grows_in_place() {
    let mut rsp = Response::new(BytesMut::new());
    rsp.body("ab");
    rsp.body_mut().extend_from_slice(b"cd");
    assert_eq!(rsp.get_body(), b"abcd");
    assert_eq!(rsp.body_len(), 4);
    let out = encoded(&rsp, b"D");
    assert!(out.ends_with(b"Content-Length: 4\r\n\r\nabcd"));
}

#[test]
fn fallback_error_is_a_500_with_the_message() {
    let mut buf = BytesMut::new();
    encode_error("boom", b"D", &mut buf);
    assert_eq!(
        buf.to_vec(),
        b"HTTP/1.1 500 Internal Server Error\r\nServer: M\r\nDate: D\r\nContent-Length: 4\r\n\r\nboom"
            .to_vec()
    );
}

#[test]
fn encoding_appends_after_existing_bytes() {
    let mut buf = BytesMut::new();
    buf.extend_from_slice(b"prev");
    let rsp = Response::new(BytesMut::new());
    encode(&rsp, b"D", &mut buf);
    assert!(buf.starts_with(b"prevHTTP/1.1 200 OK\r\n"));
    assert!(buf.ends_with(b"Content-Length: 0\r\n\r\n"));
}

#[test]
fn scratch_body_is_kept_when_moved() {
    let mut scratch = BytesMut::new();
    scratch.extend_from_slice(b"abc");
    let mut rsp = Response::new(scratch);
    assert_eq!(rsp.get_body(), b"abc");
    rsp.body_mut();
    assert_eq!(rsp.get_body(), b"abc");
    assert_eq!(rsp.body_len(), 3);
}
