//! Responses and the writer that puts them on the wire.

use crate::headers::{has_name_ignoring_case, put, Headers};
use crate::text::{decimal, push_decimal, COLON, CR, LF, SP};
use vstd::prelude::*;
use vstd::string::StringSliceAdditionalSpecFns;
use vstd::utf8::encode_utf8;

verus! {

/// The mathematical content of a response.
pub struct ResponseView {
    pub status: usize,
    pub message: Seq<u8>,
    pub body: Seq<u8>,
    pub headers: Seq<(Seq<u8>, Seq<u8>)>,
}

/// The response that the handlers of a request fill in.
#[derive(Clone, Debug, PartialEq, Eq)]
pub struct EspressoResponse {
    /// The status code.
    pub status: usize,
    /// The reason phrase that goes with the status code.
    pub message: Vec<u8>,
    /// The body; handlers only ever append to it.
    pub body: Vec<u8>,
    /// The headers that the handlers set.
    pub headers: Headers,
}

impl View for EspressoResponse {
    type V = ResponseView;

    open spec fn view(&self) -> ResponseView {
        ResponseView {
            status: self.status,
            message: self.message@,
            body: self.body@,
            headers: self.headers@,
        }
    }
}

/// The reason phrase `OK`.
pub open spec fn reason_ok() -> Seq<u8> {
    seq![79u8, 75u8]
}

/// The reason phrase `BAD REQUEST`.
pub open spec fn reason_bad_request() -> Seq<u8> {
    seq![66u8, 65u8, 68u8, 32u8, 82u8, 69u8, 81u8, 85u8, 69u8, 83u8, 84u8]
}

/// The reason phrase that a status code brings with it; other codes leave
/// the phrase `current` as it is.
pub open spec fn reason_for(status: usize, current: Seq<u8>) -> Seq<u8> {
    if status == 200 {
        reason_ok()
    } else if status == 400 {
        reason_bad_request()
    } else {
        current
    }
}

/// The protocol token of a status line: `HTTP/1.1`.
pub open spec fn protocol() -> Seq<u8> {
    seq![72u8, 84u8, 84u8, 80u8, 47u8, 49u8, 46u8, 49u8]
}

/// The name of the header that the writer adds: `Content-Length`.
pub open spec fn length_name() -> Seq<u8> {
    seq![
        67u8,
        111u8,
        110u8,
        116u8,
        101u8,
        110u8,
        116u8,
        45u8,
        76u8,
        101u8,
        110u8,
        103u8,
        116u8,
        104u8,
    ]
}

/// The end of a line on the wire: CR LF.
pub open spec fn line_end() -> Seq<u8> {
    seq![CR, LF]
}

/// A status line: protocol, code and reason phrase, one space between
/// neighbours, and the line end.
pub open spec fn status_line(status: usize, message: Seq<u8>) -> Seq<u8> {
    protocol() + seq![SP] + decimal(status as nat) + seq![SP] + message + line_end()
}

/// One header on the wire: name, colon, space, value and the line end.
pub open spec fn header_bytes(name: Seq<u8>, value: Seq<u8>) -> Seq<u8> {
    name + seq![COLON, SP] + value + line_end()
}

/// The headers of `h` on the wire, in their order.
pub open spec fn header_lines(h: Seq<(Seq<u8>, Seq<u8>)>) -> Seq<u8>
    decreases h.len(),
{
    if h.len() == 0 {
        Seq::empty()
    } else {
        header_lines(h.drop_last()) + header_bytes(h.last().0, h.last().1)
    }
}

/// The `Content-Length` header that the writer adds for a body of `n` bytes.
pub open spec fn length_line(n: nat) -> Seq<u8> {
    header_bytes(length_name(), decimal(n))
}

/// Whether the response sets a content length itself, under any letter case.
pub open spec fn declares_length(r: ResponseView) -> bool {
    has_name_ignoring_case(r.headers, length_name())
}

/// A response on the wire: the status line, a `Content-Length` header for
/// the body unless the response sets one itself, the response's headers, an
/// empty line and the body.
pub open spec fn wire(r: ResponseView) -> Seq<u8> {
    status_line(r.status, r.message) + (if declares_length(r) {
        Seq::empty()
    } else {
        length_line(r.body.len())
    }) + header_lines(r.headers) + line_end() + r.body
}

impl EspressoResponse {
    /// A response with status 200 `OK`, no headers and an empty body.
    pub fn new() -> (r: EspressoResponse)
        ensures
            r@ == (ResponseView {
                status: 200,
                message: reason_ok(),
                body: Seq::empty(),
                headers: Seq::empty(),
            }),
            r.headers.wf(),
    {
        let mut message: Vec<u8> = Vec::new();
        message.push(79);
        message.push(75);
        assert(message@ =~= reason_ok());
        EspressoResponse { status: 200, message, body: Vec::new(), headers: Headers::new() }
    }

    /// Sets the status code, and with it the reason phrase where the code is
    /// 200 or 400.
    pub fn status(&mut self, status: usize)
        ensures
            final(self)@ == (ResponseView {
                status,
                message: reason_for(status, old(self)@.message),
                ..old(self)@
            }),
            final(self).headers == old(self).headers,
    {
        self.status = status;
        if status == 200 {
            let mut message: Vec<u8> = Vec::new();
            message.push(79);
            message.push(75);
            assert(message@ =~= reason_ok());
            self.message = message;
        } else if status == 400 {
            let text: [u8; 11] = [66, 65, 68, 32, 82, 69, 81, 85, 69, 83, 84];
            let mut message: Vec<u8> = Vec::new();
            message.extend_from_slice(text.as_slice());
            assert(message@ =~= reason_bad_request());
            self.message = message;
        }
    }

    /// Appends the bytes of `message` to the body.
    pub fn send(&mut self, message: &str)
        ensures
            final(self)@ == (ResponseView {
                body: old(self)@.body + message.spec_bytes(),
                ..old(self)@
            }),
            final(self).headers == old(self).headers,
    {
        self.body.extend_from_slice(message.as_bytes());
        assert(self.body@ =~= old(self).body@ + message.spec_bytes());
    }

    /// Sets the header `header_name` to `header_value`, replacing a value set
    /// earlier under the same name.
    pub fn set_header(&mut self, header_name: &str, header_value: &str)
        requires
            old(self).headers.wf(),
        ensures
            final(self)@ == (ResponseView {
                headers: put(
                    old(self)@.headers,
                    header_name.spec_bytes(),
                    header_value.spec_bytes(),
                ),
                ..old(self)@
            }),
            final(self).headers.wf(),
    {
        let mut name: Vec<u8> = Vec::new();
        name.extend_from_slice(header_name.as_bytes());
        assert(name@ =~= header_name.spec_bytes());
        let mut value: Vec<u8> = Vec::new();
        value.extend_from_slice(header_value.as_bytes());
        assert(value@ =~= header_value.spec_bytes());
        self.headers.insert(name, value);
    }
}

/// Why a response did not reach the connection.
#[derive(Clone, Copy, Debug, PartialEq, Eq, Structural)]
pub enum EspressoResponseError {
    /// The connection did not take the buffered bytes.
    BufferError,
    Unknown,
}

/// A sink of bytes.
pub trait Write {
    /// The bytes written so far.
    spec fn written(&self) -> Seq<u8>;

    /// Appends `bytes`.
    fn write_bytes(&mut self, bytes: &[u8])
        ensures
            final(self).written() == old(self).written() + bytes@,
    ;

    /// Appends the UTF-8 bytes of `text`.
    fn write_str(&mut self, text: &str)
        ensures
            final(self).written() == old(self).written() + text.spec_bytes(),
    ;

    /// Appends the UTF-8 bytes of `string`.
    fn write_string(&mut self, string: String)
        ensures
            final(self).written() == old(self).written() + encode_utf8(string@),
    ;
}

/// A value with a byte image.
pub trait Serialize {
    /// The byte image.
    spec fn image(&self) -> Seq<u8>;

    /// The byte image, borrowed.
    fn get(&self) -> (bytes: &[u8])
        ensures
            bytes@ == self.image(),
    ;
}

/// Buffers the bytes of a response until they are handed to the connection
/// in one piece.
#[derive(Clone, Debug, PartialEq, Eq)]
pub struct ResponseWriter {
    buffer: Vec<u8>,
}

impl View for ResponseWriter {
    type V = Seq<u8>;

    /// The buffered bytes.
    closed spec fn view(&self) -> Seq<u8> {
        self.buffer@
    }
}

impl Write for ResponseWriter {
    open spec fn written(&self) -> Seq<u8> {
        self@
    }

    fn write_bytes(&mut self, bytes: &[u8]) {
        self.buffer.extend_from_slice(bytes);
    }

    fn write_str(&mut self, text: &str) {
        self.write_bytes(text.as_bytes());
    }

    fn write_string(&mut self, string: String) {
        self.write_bytes(string.as_str().as_bytes());
    }
}

impl Serialize for ResponseWriter {
    open spec fn image(&self) -> Seq<u8> {
        self@
    }

    fn get(&self) -> (bytes: &[u8]) {
        self.buffer.as_slice()
    }
}

impl ResponseWriter {
    /// A writer with an empty buffer.
    pub fn new() -> (w: ResponseWriter)
        ensures
            w@ == Seq::<u8>::empty(),
    {
        ResponseWriter { buffer: Vec::new() }
    }

    /// Empties the buffer.
    pub fn clear(&mut self)
        ensures
            final(self)@ == Seq::<u8>::empty(),
    {
        self.buffer.clear();
    }

    /// Hands out the buffered bytes, to be put on the connection in one
    /// write, and empties the buffer whatever becomes of that write.
    pub fn flush(&mut self) -> (bytes: Vec<u8>)
        ensures
            bytes@ == old(self)@,
            final(self)@ == Seq::<u8>::empty(),
    {
        let mut bytes: Vec<u8> = Vec::new();
        bytes.append(&mut self.buffer);
        bytes
    }

    /// What a flush of `len` bytes reports once the connection has taken
    /// them or refused them: the number of bytes written, or a buffer error.
    /// A refused write is not tried again.
    pub fn flushed(len: usize, delivered: bool) -> (r: Result<usize, EspressoResponseError>)
        ensures
            r == if delivered {
                Ok::<usize, EspressoResponseError>(len)
            } else {
                Err::<usize, EspressoResponseError>(EspressoResponseError::BufferError)
            },
    {
        if delivered {
            Ok(len)
        } else {
            Err(EspressoResponseError::BufferError)
        }
    }

    /// Appends one header line to the buffer.
    fn write_header(&mut self, name: &[u8], value: &[u8])
        ensures
            final(self)@ == old(self)@ + header_bytes(name@, value@),
    {
        let separator: [u8; 2] = [COLON, SP];
        let end: [u8; 2] = [CR, LF];
        self.write_bytes(name);
        self.write_bytes(separator.as_slice());
        self.write_bytes(value);
        self.write_bytes(end.as_slice());
    }

    /// Serialises `response` behind what the buffer holds and hands out the
    /// whole buffer for one write, leaving it empty.
    pub fn write_response(&mut self, response: EspressoResponse) -> (bytes: Vec<u8>)
        ensures
            bytes@ == old(self)@ + wire(response@),
            final(self)@ == Seq::<u8>::empty(),
    {
        let protocol_token: [u8; 8] = [72, 84, 84, 80, 47, 49, 46, 49];
        let length_token: [u8; 14] = [67, 111, 110, 116, 101, 110, 116, 45, 76, 101, 110, 103, 116, 104];
        let space: [u8; 1] = [SP];
        let end: [u8; 2] = [CR, LF];

        self.write_bytes(protocol_token.as_slice());
        self.write_bytes(space.as_slice());
        push_decimal(&mut self.buffer, response.status);
        self.write_bytes(space.as_slice());
        self.write_bytes(response.message.as_slice());
        self.write_bytes(end.as_slice());

        if !response.headers.declares(length_token.as_slice()) {
            let mut digits: Vec<u8> = Vec::new();
            push_decimal(&mut digits, response.body.len());
            self.write_header(length_token.as_slice(), digits.as_slice());
        }
        let ghost head = self@;
        let count = response.headers.len();
        let mut i: usize = 0;
        while i < count
            invariant
                i <= count,
                count == response.headers@.len(),
                self@ == head + header_lines(response.headers@.take(i as int)),
            decreases count - i,
        {
            let name = response.headers.name_at(i);
            let value = response.headers.value_at(i);
            self.write_header(name.as_slice(), value.as_slice());
            proof {
                let h = response.headers@;
                assert(h.take(i + 1).drop_last() =~= h.take(i as int));
            }
            i += 1;
        }
        assert(response.headers@.take(count as int) =~= response.headers@);
        self.write_bytes(end.as_slice());
        self.write_bytes(response.body.as_slice());
        self.flush()
    }
}

} // verus!
