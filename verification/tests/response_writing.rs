use espresso::response::{
    EspressoResponse, EspressoResponseError, ResponseWriter, Serialize, Write,
};

fn count(hay: &[u8], needle: &[u8]) -> usize {
    hay.windows(needle.len()).filter(|w| w.eq_ignore_ascii_case(needle)).count()
}

#[test]
fn content_length_is_added_exactly_once() {
    let mut response = EspressoResponse::new();
    response.status(200);
    response.send("OK");
    let mut writer = ResponseWriter::new();
    let wire = writer.write_response(response);
    assert_eq!(wire, b"HTTP/1.1 200 OK\r\nContent-Length: 2\r\n\r\nOK".to_vec());
    assert_eq!(count(&wire, b"Content-Length: 2\r\n"), 1);
    assert_eq!(count(&wire, b"content-length"), 1);
}

#[test]
fn a_length_set_by_the_caller_is_not_doubled() {
    for name in ["Content-Length", "CONTENT-LENGTH", "content-length"] {
        let mut response = EspressoResponse::new();
        response.set_header(name, "5");
        response.send("hello");
        let wire = ResponseWriter::new().write_response(response);
        let mut expected = b"HTTP/1.1 200 OK\r\n".to_vec();
        expected.extend_from_slice(name.as_bytes());
        expected.extend_from_slice(b": 5\r\n\r\nhello");
        assert_eq!(wire, expected);
        assert_eq!(count(&wire, b"content-length"), 1);
    }
}

#[test]
fn headers_go_out_in_the_order_they_were_set() {
    let mut response = EspressoResponse::new();
    response.set_header("X-A", "1");
    response.set_header("X-B", "2");
    response.set_header("X-A", "3");
    let wire = ResponseWriter::new().write_response(response);
    assert_eq!(
        wire,
        b"HTTP/1.1 200 OK\r\nContent-Length: 0\r\nX-A: 3\r\nX-B: 2\r\n\r\n".to_vec()
    );
}

#[test]
fn a_fresh_response_is_200_ok_and_empty() {
    let response = EspressoResponse::new();
    assert_eq!(response.status, 200);
    assert_eq!(response.message, b"OK".to_vec());
    assert_eq!(response.body, Vec::<u8>::new());
    assert_eq!(response.headers.len(), 0);
}

#[test]
fn status_brings_its_reason_phrase_for_200_and_400_only() {
    let mut response = EspressoResponse::new();
    response.status(400);
    assert_eq!(response.status, 400);
    assert_eq!(response.message, b"BAD REQUEST".to_vec());
    response.status(404);
    assert_eq!(response.status, 404);
    assert_eq!(response.message, b"BAD REQUEST".to_vec());
    response.status(200);
    assert_eq!(response.message, b"OK".to_vec());
    response.status(1234567);
    let wire = ResponseWriter::new().write_response(response);
    assert_eq!(wire, b"HTTP/1.1 1234567 OK\r\nContent-Length: 0\r\n\r\n".to_vec());
}

#[test]
fn send_only_appends() {
    let mut response = EspressoResponse::new();
    response.send("Hello ");
    response.send("w\u{f6}rld");
    assert_eq!(response.body, "Hello w\u{f6}rld".as_bytes().to_vec());
    let wire = ResponseWriter::new().write_response(response);
    assert_eq!(
        wire,
        "HTTP/1.1 200 OK\r\nContent-Length: 12\r\n\r\nHello w\u{f6}rld".as_bytes().to_vec()
    );
}

#[test]
fn body_lengths_are_written_in_decimal() {
    for len in [0usize, 9, 10, 99, 100, 1005] {
        let mut response = EspressoResponse::new();
        response.send(&"x".repeat(len));
        let wire = ResponseWriter::new().write_response(response);
        let head = format!("HTTP/1.1 200 OK\r\nContent-Length: {}\r\n\r\n", len);
        assert_eq!(&wire[..head.len()], head.as_bytes());
        assert_eq!(wire.len(), head.len() + len);
    }
}

#[test]
fn writer_buffers_until_flushed() {
    let mut writer = ResponseWriter::new();
    writer.write_bytes(b"ab");
    writer.write_str("cd");
    writer.write_string("ef".to_string());
    assert_eq!(writer.get(), b"abcdef");
    let bytes = writer.flush();
    assert_eq!(bytes, b"abcdef".to_vec());
    assert_eq!(writer.get(), b"");
    writer.write_bytes(b"gh");
    writer.clear();
    assert_eq!(writer.get(), b"");
}

#[test]
fn write_response_sends_what_was_buffered_before_it_too() {
    let mut writer = ResponseWriter::new();
    writer.write_bytes(b"##");
    let wire = writer.write_response(EspressoResponse::new());
    assert_eq!(wire, b"##HTTP/1.1 200 OK\r\nContent-Length: 0\r\n\r\n".to_vec());
    assert_eq!(writer.get(), b"");
}

#[test]
fn a_refused_write_is_a_buffer_error() {
    assert_eq!(ResponseWriter::flushed(41, true), Ok(41));
    assert_eq!(ResponseWriter::flushed(41, false), Err(EspressoResponseError::BufferError));
}
