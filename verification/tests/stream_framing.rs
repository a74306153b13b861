use espresso::error::{EspressoProcessingError, EspressoRequestError};
use espresso::request::{Demand, EspressoStream, FrameState, RequestMethod, StreamStep};
use espresso::response::{Serialize, Write};

/// Feeds a stream from a byte string the way a connection would: line by
/// line, then as many body bytes as it asks for, until a frame, a failure or
/// the end comes out.
fn pull(stream: &mut EspressoStream, wire: &[u8], at: &mut usize) -> StreamStep {
    loop {
        let input: &[u8] = match stream.reader.demand() {
            Demand::Nothing => &[],
            Demand::Line => {
                let rest = &wire[*at..];
                let end = match rest.iter().position(|b| *b == b'\n') {
                    Some(i) => i + 1,
                    None => rest.len(),
                };
                *at += end;
                &rest[..end]
            }
            Demand::Body(n) => {
                let rest = &wire[*at..];
                let end = n.min(rest.len());
                *at += end;
                &rest[..end]
            }
        };
        match stream.next(input) {
            StreamStep::NeedLine | StreamStep::NeedBody(_) => continue,
            step => return step,
        }
    }
}

#[test]
fn one_request_yields_exactly_one_frame() {
    let wire = b"GET /foo HTTP/1.1\r\nHost: x\r\n\r\n";
    let mut stream = EspressoStream::new();
    let mut at = 0;
    match pull(&mut stream, wire, &mut at) {
        StreamStep::Frame(frame) => {
            assert_eq!(frame.request.method, RequestMethod::GET);
            assert_eq!(frame.request.resource, b"/foo".to_vec());
            assert_eq!(frame.request.protocol_ver, b"HTTP/1.1".to_vec());
            assert_eq!(frame.request.headers.len(), 1);
            assert_eq!(frame.request.headers.get(b"HOST"), Some(&b"x".to_vec()));
            assert_eq!(frame.request.body, None);
            assert_eq!(frame.request.body_len, None);
        }
        other => panic!("expected a frame, got {:?}", other),
    }
    assert_eq!(stream.reader.state(), FrameState::FrameReady);
    assert_eq!(pull(&mut stream, wire, &mut at), StreamStep::Closed);
    assert_eq!(stream.reader.state(), FrameState::Closed);
    assert_eq!(stream.reader.demand(), Demand::Nothing);
    assert_eq!(pull(&mut stream, wire, &mut at), StreamStep::Closed);
}

#[test]
fn body_is_exactly_the_declared_bytes() {
    let wire = b"POST /echo HTTP/1.1\r\nContent-Length: 5\r\n\r\nhello";
    let mut stream = EspressoStream::new();
    let mut at = 0;
    match pull(&mut stream, wire, &mut at) {
        StreamStep::Frame(frame) => {
            assert_eq!(frame.request.body, Some(b"hello".to_vec()));
            assert_eq!(frame.request.body_len, Some(5));
        }
        other => panic!("expected a frame, got {:?}", other),
    }
    assert_eq!(at, wire.len());
}

#[test]
fn peer_closing_inside_the_body_is_an_incomplete_request() {
    let wire = b"POST /echo HTTP/1.1\r\nContent-Length: 5\r\n\r\nhel";
    let mut stream = EspressoStream::new();
    let mut at = 0;
    match pull(&mut stream, wire, &mut at) {
        StreamStep::Failed(EspressoRequestError::IncompleteRequest(_)) => {}
        other => panic!("expected an incomplete request, got {:?}", other),
    }
    assert_eq!(stream.reader.state(), FrameState::Closed);
}

#[test]
fn states_follow_the_request() {
    let mut stream = EspressoStream::new();
    assert_eq!(stream.reader.state(), FrameState::AwaitRequestLine);
    assert_eq!(stream.reader.demand(), Demand::Line);
    assert_eq!(stream.next(b"PUT /x HTTP/1.1\r\n"), StreamStep::NeedLine);
    assert_eq!(stream.reader.state(), FrameState::AwaitHeaders);
    assert_eq!(stream.next(b"Content-Length: 3\r\n"), StreamStep::NeedLine);
    assert_eq!(stream.reader.state(), FrameState::AwaitHeaders);
    assert_eq!(stream.next(b"\r\n"), StreamStep::NeedBody(3));
    assert_eq!(stream.reader.state(), FrameState::AwaitBody);
    assert_eq!(stream.reader.demand(), Demand::Body(3));
    match stream.next(b"abc") {
        StreamStep::Frame(frame) => {
            assert_eq!(frame.request.method, RequestMethod::PUT);
            assert_eq!(frame.request.body, Some(b"abc".to_vec()));
            assert_eq!(frame.request.body_len, Some(3));
        }
        other => panic!("expected a frame, got {:?}", other),
    }
    assert_eq!(stream.reader.state(), FrameState::FrameReady);
    assert_eq!(stream.reader.demand(), Demand::Line);
}

#[test]
fn frames_come_in_arrival_order_without_reading_ahead() {
    let wire = b"GET /a HTTP/1.1\r\n\r\nPOST /b HTTP/1.1\r\nContent-Length: 2\r\n\r\nhiDELETE /c HTTP/1.1\r\n\r\n";
    let mut stream = EspressoStream::new();
    let mut at = 0;
    let mut seen: Vec<(RequestMethod, Vec<u8>, Option<Vec<u8>>)> = Vec::new();
    loop {
        match pull(&mut stream, wire, &mut at) {
            StreamStep::Frame(frame) => seen.push((
                frame.request.method,
                frame.request.resource,
                frame.request.body,
            )),
            StreamStep::Closed => break,
            other => panic!("unexpected step {:?}", other),
        }
    }
    assert_eq!(
        seen,
        vec![
            (RequestMethod::GET, b"/a".to_vec(), None),
            (RequestMethod::POST, b"/b".to_vec(), Some(b"hi".to_vec())),
            (RequestMethod::DELETE, b"/c".to_vec(), None),
        ]
    );
}

#[test]
fn end_of_stream_before_any_byte_is_no_error() {
    let mut stream = EspressoStream::new();
    assert_eq!(stream.next(b""), StreamStep::Closed);
    assert_eq!(stream.reader.state(), FrameState::Closed);
}

#[test]
fn unsupported_method_fails_the_frame_and_closes() {
    let mut stream = EspressoStream::new();
    assert_eq!(
        stream.next(b"BREW /pot HTTP/1.1\r\n"),
        StreamStep::Failed(EspressoRequestError::MalformedRequest(
            "Request method not supported".to_string()
        ))
    );
    assert_eq!(stream.reader.state(), FrameState::Closed);
    assert_eq!(stream.next(b"GET / HTTP/1.1\r\n"), StreamStep::Closed);
}

#[test]
fn malformed_lines_fail_the_frame() {
    let misaligned = StreamStep::Failed(EspressoRequestError::MalformedRequest(
        "Request is misaligned or incomplete.".to_string(),
    ));
    let mut stream = EspressoStream::new();
    assert_eq!(stream.next(b"GET / HTTP/1.1"), misaligned);

    let mut stream = EspressoStream::new();
    assert_eq!(stream.next(b"GET / HTTP/1.1\r\nHost: x\r\n"), misaligned);

    let mut stream = EspressoStream::new();
    assert_eq!(stream.next(b"GET / HTTP/1.1\r\n"), StreamStep::NeedLine);
    assert_eq!(stream.next(b"no separator here\r\n"), misaligned);

    let mut stream = EspressoStream::new();
    assert_eq!(stream.next(b"GET / HTTP/1.1\r\n"), StreamStep::NeedLine);
    assert_eq!(stream.next(b""), misaligned);
    assert_eq!(stream.reader.state(), FrameState::Closed);
}

#[test]
fn stepping_leaves_the_writer_alone() {
    let mut stream = EspressoStream::new();
    stream.writer.write_bytes(b"pending");
    assert_eq!(stream.next(b"GET / HTTP/1.1\r\n"), StreamStep::NeedLine);
    assert!(matches!(stream.next(b"\r\n"), StreamStep::Frame(_)));
    assert_eq!(stream.writer.get(), b"pending");
}

#[test]
fn clone_gives_a_fresh_handle_unless_closed() {
    let mut stream = EspressoStream::new();
    assert_eq!(stream.next(b"GET / HTTP/1.1\r\n"), StreamStep::NeedLine);
    let second = stream.clone().unwrap();
    assert_eq!(second.reader.state(), FrameState::AwaitRequestLine);
    assert_eq!(stream.next(b"oops"), StreamStep::Failed(EspressoRequestError::MalformedRequest(
        "Request is misaligned or incomplete.".to_string(),
    )));
    match stream.clone() {
        Err(e) => assert_eq!(e, EspressoProcessingError::ConnectionClosed),
        Ok(_) => panic!("a closed stream has no second handle"),
    }
}
