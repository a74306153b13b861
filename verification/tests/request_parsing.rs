use espresso::error::EspressoRequestError;
use espresso::number::declared_length;
use espresso::request::{
    parse_header_line, parse_method, parse_request_line, read_request, take_line, EspressoRequest,
    RequestMethod,
};
use espresso::error::Fault;

fn malformed(text: &str) -> EspressoRequestError {
    EspressoRequestError::MalformedRequest(text.to_string())
}

#[test]
fn get_request_with_one_header_has_no_body() {
    let wire: &[u8] = b"GET /foo HTTP/1.1\r\nHost: x\r\n\r\n";
    let request = EspressoRequest::try_from(wire).unwrap();
    assert_eq!(request.method, RequestMethod::GET);
    assert_eq!(request.resource, b"/foo".to_vec());
    assert_eq!(request.protocol_ver, b"HTTP/1.1".to_vec());
    assert_eq!(request.headers.len(), 1);
    assert_eq!(request.headers.get(b"HOST"), Some(&b"x".to_vec()));
    assert_eq!(request.body, None);
    assert_eq!(request.body_len, None);
}

#[test]
fn declared_length_bounds_the_body() {
    let wire: &[u8] = b"POST /echo HTTP/1.1\r\nContent-Length: 5\r\n\r\nhello";
    let request = EspressoRequest::try_from(wire).unwrap();
    assert_eq!(request.method, RequestMethod::POST);
    assert_eq!(request.body, Some(b"hello".to_vec()));
    assert_eq!(request.body_len, Some(5));
}

#[test]
fn bytes_behind_the_declared_length_are_left_alone() {
    let wire: &[u8] = b"POST /echo HTTP/1.1\r\nContent-Length: 5\r\n\r\nhelloGET / HTTP/1.1\r\n";
    let request = EspressoRequest::try_from(wire).unwrap();
    assert_eq!(request.body, Some(b"hello".to_vec()));
    assert_eq!(request.body_len, Some(5));
}

#[test]
fn short_body_is_incomplete() {
    let wire: &[u8] = b"POST /echo HTTP/1.1\r\nContent-Length: 5\r\n\r\nhel";
    let error = EspressoRequest::try_from(wire).unwrap_err();
    assert_eq!(
        error,
        EspressoRequestError::IncompleteRequest(
            "Request body is shorter than its declared length.".to_string()
        )
    );
    assert_eq!(error.message(), "Request body is shorter than its declared length.");
}

#[test]
fn without_a_declared_length_the_next_request_is_not_read_as_body() {
    let wire: &[u8] = b"GET /a HTTP/1.1\r\n\r\nGET /b HTTP/1.1\r\n\r\n";
    let request = EspressoRequest::try_from(wire).unwrap();
    assert_eq!(request.resource, b"/a".to_vec());
    assert_eq!(request.body, None);
}

#[test]
fn empty_input_is_reported_as_empty() {
    let error = EspressoRequest::try_from(&b""[..]).unwrap_err();
    assert_eq!(error, malformed("TCP Stream was empty."));
    assert_eq!(read_request(b""), Err(Fault::Empty));
}

#[test]
fn unsupported_methods_are_malformed_requests() {
    for wire in [
        &b"BREW /pot HTTP/1.1\r\n\r\n"[..],
        &b"PATCH /x HTTP/1.1\r\n\r\n"[..],
        &b"OPTIONS /x HTTP/1.1\r\n\r\n"[..],
        &b"HEAD /x HTTP/1.1\r\n\r\n"[..],
        &b"\r\n"[..],
    ] {
        let error = EspressoRequest::try_from(wire).unwrap_err();
        assert_eq!(error, malformed("Request method not supported"));
    }
}

#[test]
fn method_names_are_read_in_any_case() {
    assert_eq!(parse_method(b"GET"), Some(RequestMethod::GET));
    assert_eq!(parse_method(b"get"), Some(RequestMethod::GET));
    assert_eq!(parse_method(b"Put"), Some(RequestMethod::PUT));
    assert_eq!(parse_method(b"pOsT"), Some(RequestMethod::POST));
    assert_eq!(parse_method(b"delete"), Some(RequestMethod::DELETE));
    assert_eq!(parse_method(b"GETS"), None);
    assert_eq!(parse_method(b"GE"), None);
    assert_eq!(parse_method(b""), None);
}

#[test]
fn request_line_needs_exactly_three_tokens() {
    assert_eq!(
        parse_request_line(b"GET /foo HTTP/1.1"),
        Ok((RequestMethod::GET, b"/foo".to_vec(), b"HTTP/1.1".to_vec()))
    );
    assert_eq!(parse_request_line(b"GET"), Err(Fault::Misaligned));
    assert_eq!(parse_request_line(b"GET /foo"), Err(Fault::Misaligned));
    assert_eq!(parse_request_line(b"GET /foo "), Err(Fault::Misaligned));
    assert_eq!(parse_request_line(b"GET  HTTP/1.1"), Err(Fault::Misaligned));
    assert_eq!(parse_request_line(b"GET /foo HTTP/1.1 extra"), Err(Fault::Misaligned));
    assert_eq!(parse_request_line(b" /foo HTTP/1.1"), Err(Fault::UnsupportedMethod));
    assert_eq!(parse_request_line(b"FETCH"), Err(Fault::UnsupportedMethod));
}

#[test]
fn lines_end_in_cr_lf() {
    assert_eq!(take_line(b"abc\r\ndef"), Some((&b"abc"[..], &b"def"[..])));
    assert_eq!(take_line(b"\r\n"), Some((&b""[..], &b""[..])));
    assert_eq!(take_line(b"abc\ndef"), None);
    assert_eq!(take_line(b"\n"), None);
    assert_eq!(take_line(b"abc"), None);
    assert_eq!(take_line(b"a\rb\r\n"), Some((&b"a\rb"[..], &b""[..])));
    let error = EspressoRequest::try_from(&b"GET /foo HTTP/1.1\n\n"[..]).unwrap_err();
    assert_eq!(error, malformed("Request is misaligned or incomplete."));
    let error = EspressoRequest::try_from(&b"GET /foo HTTP/1.1"[..]).unwrap_err();
    assert_eq!(error, malformed("Request is misaligned or incomplete."));
}

#[test]
fn header_splits_on_the_first_separator_only() {
    assert_eq!(
        parse_header_line(b"Referer: http://a: b"),
        Ok((b"REFERER".to_vec(), b"http://a: b".to_vec()))
    );
    assert_eq!(parse_header_line(b"X-Empty: "), Ok((b"X-EMPTY".to_vec(), b"".to_vec())));
    assert_eq!(parse_header_line(b": v"), Ok((b"".to_vec(), b"v".to_vec())));
    assert_eq!(parse_header_line(b"NoSeparator"), Err(Fault::Misaligned));
    assert_eq!(parse_header_line(b"Colon:only"), Err(Fault::Misaligned));
}

#[test]
fn header_without_separator_is_malformed() {
    let wire: &[u8] = b"GET / HTTP/1.1\r\nBroken\r\n\r\n";
    let error = EspressoRequest::try_from(wire).unwrap_err();
    assert_eq!(error, malformed("Request is misaligned or incomplete."));
}

#[test]
fn unterminated_header_section_is_malformed() {
    let wire: &[u8] = b"GET / HTTP/1.1\r\nHost: x\r\n";
    let error = EspressoRequest::try_from(wire).unwrap_err();
    assert_eq!(error, malformed("Request is misaligned or incomplete."));
}

#[test]
fn header_names_are_case_insensitive_and_the_last_value_wins() {
    let wire: &[u8] = b"GET / HTTP/1.1\r\nAccept: a\r\nHost: h\r\naCCEPT: b\r\n\r\n";
    let request = EspressoRequest::try_from(wire).unwrap();
    assert_eq!(request.headers.len(), 2);
    assert_eq!(request.headers.get(b"ACCEPT"), Some(&b"b".to_vec()));
    assert_eq!(request.headers.get(b"Accept"), None);
    assert_eq!(request.header(b"accept"), Some(&b"b".to_vec()));
    assert_eq!(request.header(b"host"), Some(&b"h".to_vec()));
    assert_eq!(request.header(b"missing"), None);
    assert_eq!(request.headers.name_at(0), &b"ACCEPT".to_vec());
    assert_eq!(request.headers.value_at(0), &b"b".to_vec());
    assert_eq!(request.headers.name_at(1), &b"HOST".to_vec());
    assert_eq!(request.get_header(), Some(String::new()));
}

#[test]
fn length_header_without_a_number_gives_an_empty_body() {
    let wire: &[u8] = b"PUT /x HTTP/1.1\r\nContent-Length: many\r\n\r\nabc";
    let request = EspressoRequest::try_from(wire).unwrap();
    assert_eq!(request.body, Some(Vec::new()));
    assert_eq!(request.body_len, None);
}

#[test]
fn zero_length_gives_an_empty_body() {
    let wire: &[u8] = b"DELETE /x HTTP/1.1\r\ncontent-length: 0\r\n\r\n";
    let request = EspressoRequest::try_from(wire).unwrap();
    assert_eq!(request.method, RequestMethod::DELETE);
    assert_eq!(request.body, Some(Vec::new()));
    assert_eq!(request.body_len, Some(0));
}

#[test]
fn declared_length_reads_a_leading_number() {
    assert_eq!(declared_length(b"5"), Some(5));
    assert_eq!(declared_length(b"0042"), Some(42));
    assert_eq!(declared_length(b"42 bytes"), Some(42));
    assert_eq!(declared_length(b"+7"), Some(7));
    assert_eq!(declared_length(b"4294967295"), Some(4294967295));
    assert_eq!(declared_length(b"4294967296"), None);
    assert_eq!(declared_length(b"99999999999999999999"), None);
    assert_eq!(declared_length(b""), None);
    assert_eq!(declared_length(b"abc"), None);
    assert_eq!(declared_length(b" 5"), None);
    assert_eq!(declared_length(b"-1"), None);
    assert_eq!(declared_length(b"-10"), None);
    assert_eq!(declared_length(b"-0"), Some(0));
    assert_eq!(declared_length(b"-000x"), Some(0));
    assert_eq!(declared_length(b"+"), Some(0));
    assert_eq!(declared_length(b"-"), Some(0));
    assert_eq!(declared_length(b"+x"), Some(0));
    assert_eq!(declared_length(b"++1"), Some(0));
}
