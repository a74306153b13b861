//! Requests and the grammar that reads them off a byte stream.

use crate::error::{EspressoProcessingError, EspressoRequestError, Fault};
use crate::headers::{put, value_of, Headers};
use crate::number::{declared_length, leading_u32};
use crate::response::ResponseWriter;
use crate::text::{
    copy_of, find, first_match, to_upper, upper, COLON, CR, LF, SP,
};
use vstd::prelude::*;
use vstd::slice::slice_subrange;

verus! {

/// The request methods that the engine knows by name.
#[derive(Clone, Copy, Debug, PartialEq, Eq, Hash, Structural)]
pub enum RequestMethod {
    GET,
    POST,
    PUT,
    PATCH,
    DELETE,
    OPTIONS,
    HEAD,
}

/// The mathematical content of a request.
pub struct RequestView {
    pub headers: Seq<(Seq<u8>, Seq<u8>)>,
    pub method: RequestMethod,
    pub resource: Seq<u8>,
    pub protocol_ver: Seq<u8>,
    pub body: Option<Seq<u8>>,
    pub body_len: Option<usize>,
}

/// One request as read off a connection.
#[derive(Clone, Debug, PartialEq, Eq)]
pub struct EspressoRequest {
    /// The headers, each under its upper-cased name.
    pub headers: Headers,
    pub method: RequestMethod,
    /// The path that the request line names.
    pub resource: Vec<u8>,
    /// The protocol version that the request line names.
    pub protocol_ver: Vec<u8>,
    /// The body: absent where no length was declared.
    pub body: Option<Vec<u8>>,
    /// The declared body length, where the header that declares it holds a number.
    pub body_len: Option<usize>,
}

impl View for EspressoRequest {
    type V = RequestView;

    open spec fn view(&self) -> RequestView {
        RequestView {
            headers: self.headers@,
            method: self.method,
            resource: self.resource@,
            protocol_ver: self.protocol_ver@,
            body: match self.body {
                Some(b) => Some(b@),
                None => None,
            },
            body_len: self.body_len,
        }
    }
}

/// One frame of a connection: a single parsed request.
#[derive(Clone, Debug, PartialEq, Eq)]
pub struct EspressoStreamFrame {
    pub request: EspressoRequest,
}

/// The name under which a request's declared body length is stored:
/// `CONTENT-LENGTH`.
pub open spec fn length_header() -> Seq<u8> {
    seq![67u8, 79u8, 78u8, 84u8, 69u8, 78u8, 84u8, 45u8, 76u8, 69u8, 78u8, 71u8, 84u8, 72u8]
}

/// The method that a token names, letter case aside: `GET`, `PUT`, `POST` or
/// `DELETE`.
pub open spec fn method_of(token: Seq<u8>) -> Option<RequestMethod> {
    let t = upper(token);
    if t == seq![71u8, 69u8, 84u8] {
        Some(RequestMethod::GET)
    } else if t == seq![80u8, 85u8, 84u8] {
        Some(RequestMethod::PUT)
    } else if t == seq![80u8, 79u8, 83u8, 84u8] {
        Some(RequestMethod::POST)
    } else if t == seq![68u8, 69u8, 76u8, 69u8, 84u8, 69u8] {
        Some(RequestMethod::DELETE)
    } else {
        None
    }
}

/// Splits `s` behind its first line feed. The line must end in CR LF, which
/// is not part of it; the second component is what follows the line.
pub open spec fn split_line(s: Seq<u8>) -> Option<(Seq<u8>, Seq<u8>)> {
    match first_match(s, seq![LF]) {
        Some(i) => if i >= 1 && s[i - 1] == CR {
            Some((s.subrange(0, i - 1), s.subrange(i + 1, s.len() as int)))
        } else {
            None
        },
        None => None,
    }
}

/// Reads a request line: a supported method, a path and a version, each
/// non-empty and free of spaces, with one space between neighbours.
pub open spec fn request_line(line: Seq<u8>) -> Result<(RequestMethod, Seq<u8>, Seq<u8>), Fault> {
    let first = first_match(line, seq![SP]);
    let token = match first {
        Some(a) => line.subrange(0, a),
        None => line,
    };
    match method_of(token) {
        None => Err(Fault::UnsupportedMethod),
        Some(method) => match first {
            None => Err(Fault::Misaligned),
            Some(a) => {
                let rest = line.subrange(a + 1, line.len() as int);
                match first_match(rest, seq![SP]) {
                    None => Err(Fault::Misaligned),
                    Some(b) => {
                        let resource = rest.subrange(0, b);
                        let version = rest.subrange(b + 1, rest.len() as int);
                        if resource.len() == 0 || version.len() == 0 || first_match(
                            version,
                            seq![SP],
                        ) is Some {
                            Err(Fault::Misaligned)
                        } else {
                            Ok((method, resource, version))
                        }
                    },
                }
            },
        },
    }
}

/// Reads a header line: the name, upper-cased, stands before the first
/// colon-space pair and the value is everything behind that pair.
pub open spec fn header_line(line: Seq<u8>) -> Result<(Seq<u8>, Seq<u8>), Fault> {
    match first_match(line, seq![COLON, SP]) {
        None => Err(Fault::Misaligned),
        Some(i) => Ok((upper(line.subrange(0, i)), line.subrange(i + 2, line.len() as int))),
    }
}

/// Reads header lines up to the empty line that ends them, storing each in
/// `acc`; a later header of the same name replaces an earlier one. Gives the
/// headers and what follows the empty line.
pub open spec fn header_block(s: Seq<u8>, acc: Seq<(Seq<u8>, Seq<u8>)>) -> Result<
    (Seq<(Seq<u8>, Seq<u8>)>, Seq<u8>),
    Fault,
>
    decreases s.len(),
{
    match split_line(s) {
        None => Err(Fault::Misaligned),
        Some((line, rest)) => if line.len() == 0 {
            Ok((acc, rest))
        } else {
            match header_line(line) {
                Err(fault) => Err(fault),
                Ok((name, value)) => header_block(rest, put(acc, name, value)),
            }
        },
    }
}

/// What the headers say about the body.
pub enum BodyPlan {
    /// No length is declared: there is no body.
    Absent,
    /// The length header holds no number: the body is empty.
    Unsized,
    /// The body has the declared length.
    Sized(usize),
}

/// The body plan that a request's headers call for.
pub open spec fn body_plan(headers: Seq<(Seq<u8>, Seq<u8>)>) -> BodyPlan {
    match value_of(headers, length_header()) {
        None => BodyPlan::Absent,
        Some(v) => match leading_u32(v) {
            None => BodyPlan::Unsized,
            Some(n) => BodyPlan::Sized(n as usize),
        },
    }
}

/// The body, with the declared length, that `rest` yields under `plan`.
pub open spec fn body_of(plan: BodyPlan, rest: Seq<u8>) -> Result<
    (Option<Seq<u8>>, Option<usize>),
    Fault,
> {
    match plan {
        BodyPlan::Absent => Ok((None, None)),
        BodyPlan::Unsized => Ok((Some(Seq::empty()), None)),
        BodyPlan::Sized(n) => if rest.len() >= n {
            Ok((Some(rest.subrange(0, n as int)), Some(n)))
        } else {
            Err(Fault::ShortBody)
        },
    }
}

/// Reads one request from the start of `s`: a request line, the header
/// lines, an empty line, and as many body bytes as the headers declare.
/// Bytes behind the request are ignored.
pub open spec fn parse_request(s: Seq<u8>) -> Result<RequestView, Fault> {
    if s.len() == 0 {
        Err(Fault::Empty)
    } else {
        match split_line(s) {
            None => Err(Fault::Misaligned),
            Some((line, rest)) => match request_line(line) {
                Err(fault) => Err(fault),
                Ok((method, resource, protocol_ver)) => match header_block(rest, Seq::empty()) {
                    Err(fault) => Err(fault),
                    Ok((headers, tail)) => match body_of(body_plan(headers), tail) {
                        Err(fault) => Err(fault),
                        Ok((body, body_len)) => Ok(
                            RequestView { headers, method, resource, protocol_ver, body, body_len },
                        ),
                    },
                },
            },
        }
    }
}

/// Reads the method that a token names.
pub fn parse_method(token: &[u8]) -> (r: Option<RequestMethod>)
    ensures
        r == method_of(token@),
{
    let t = to_upper(token);
    if t.len() == 3 && t[0] == 71 && t[1] == 69 && t[2] == 84 {
        assert(t@ =~= seq![71u8, 69u8, 84u8]);
        Some(RequestMethod::GET)
    } else if t.len() == 3 && t[0] == 80 && t[1] == 85 && t[2] == 84 {
        assert(t@ =~= seq![80u8, 85u8, 84u8]);
        Some(RequestMethod::PUT)
    } else if t.len() == 4 && t[0] == 80 && t[1] == 79 && t[2] == 83 && t[3] == 84 {
        assert(t@ =~= seq![80u8, 79u8, 83u8, 84u8]);
        Some(RequestMethod::POST)
    } else if t.len() == 6 && t[0] == 68 && t[1] == 69 && t[2] == 76 && t[3] == 69 && t[4] == 84
        && t[5] == 69 {
        assert(t@ =~= seq![68u8, 69u8, 76u8, 69u8, 84u8, 69u8]);
        Some(RequestMethod::DELETE)
    } else {
        None
    }
}

/// Splits a byte string behind its first line (see `split_line`).
pub fn take_line<'a>(s: &'a [u8]) -> (r: Option<(&'a [u8], &'a [u8])>)
    ensures
        match split_line(s@) {
            Some((line, rest)) => r is Some && r.unwrap().0@ == line && r.unwrap().1@ == rest,
            None => r is None,
        },
{
    let pat: [u8; 1] = [LF];
    assert(pat@ =~= seq![LF]);
    match find(s, pat.as_slice()) {
        Some(i) => {
            if i >= 1 && s[i - 1] == CR {
                Some((slice_subrange(s, 0, i - 1), slice_subrange(s, i + 1, s.len())))
            } else {
                None
            }
        },
        None => None,
    }
}

/// Reads a request line (see `request_line`).
pub fn parse_request_line(line: &[u8]) -> (r: Result<(RequestMethod, Vec<u8>, Vec<u8>), Fault>)
    ensures
        match request_line(line@) {
            Ok((method, resource, version)) => r is Ok && r->Ok_0.0 == method && r->Ok_0.1@
                == resource && r->Ok_0.2@ == version,
            Err(fault) => r == Err::<(RequestMethod, Vec<u8>, Vec<u8>), Fault>(fault),
        },
{
    let space: [u8; 1] = [SP];
    assert(space@ =~= seq![SP]);
    let first = find(line, space.as_slice());
    let token: &[u8] = match first {
        Some(a) => slice_subrange(line, 0, a),
        None => line,
    };
    let method = match parse_method(token) {
        Some(method) => method,
        None => {
            return Err(Fault::UnsupportedMethod);
        },
    };
    let a = match first {
        Some(a) => a,
        None => {
            return Err(Fault::Misaligned);
        },
    };
    let end = line.len();
    let rest = slice_subrange(line, a + 1, end);
    let b = match find(rest, space.as_slice()) {
        Some(b) => b,
        None => {
            return Err(Fault::Misaligned);
        },
    };
    let resource = slice_subrange(rest, 0, b);
    let version = slice_subrange(rest, b + 1, rest.len());
    if resource.len() == 0 || version.len() == 0 {
        return Err(Fault::Misaligned);
    }
    match find(version, space.as_slice()) {
        Some(_) => Err(Fault::Misaligned),
        None => Ok((method, copy_of(resource), copy_of(version))),
    }
}

/// Reads a header line (see `header_line`).
pub fn parse_header_line(line: &[u8]) -> (r: Result<(Vec<u8>, Vec<u8>), Fault>)
    ensures
        match header_line(line@) {
            Ok((name, value)) => r is Ok && r->Ok_0.0@ == name && r->Ok_0.1@ == value,
            Err(fault) => r == Err::<(Vec<u8>, Vec<u8>), Fault>(fault),
        },
{
    let separator: [u8; 2] = [COLON, SP];
    match find(line, separator.as_slice()) {
        None => Err(Fault::Misaligned),
        Some(i) => {
            let name = to_upper(slice_subrange(line, 0, i));
            let end = line.len();
            let value = copy_of(slice_subrange(line, i + 2, end));
            Ok((name, value))
        },
    }
}

/// Reads a header section (see `header_block`), starting without headers.
pub fn read_headers<'a>(s: &'a [u8]) -> (r: Result<(Headers, &'a [u8]), Fault>)
    ensures
        match header_block(s@, Seq::empty()) {
            Ok((headers, rest)) => r is Ok && r->Ok_0.0@ == headers && r->Ok_0.0.wf() && r->Ok_0.1@
                == rest,
            Err(fault) => r == Err::<(Headers, &'a [u8]), Fault>(fault),
        },
{
    let mut headers = Headers::new();
    let mut rest: &[u8] = s;
    loop
        invariant
            headers.wf(),
            header_block(s@, Seq::empty()) == header_block(rest@, headers@),
        decreases rest@.len(),
    {
        match take_line(rest) {
            None => {
                return Err(Fault::Misaligned);
            },
            Some((line, tail)) => {
                if line.len() == 0 {
                    return Ok((headers, tail));
                }
                match parse_header_line(line) {
                    Err(fault) => {
                        return Err(fault);
                    },
                    Ok((name, value)) => {
                        headers.insert(name, value);
                        rest = tail;
                    },
                }
            },
        }
    }
}

/// Works out what the headers say about the body (see `body_plan`).
pub fn plan_body(headers: &Headers) -> (plan: BodyPlan)
    requires
        headers.wf(),
    ensures
        plan == body_plan(headers@),
{
    let name: [u8; 14] = [67, 79, 78, 84, 69, 78, 84, 45, 76, 69, 78, 71, 84, 72];
    match headers.get(name.as_slice()) {
        None => BodyPlan::Absent,
        Some(value) => match declared_length(value.as_slice()) {
            None => BodyPlan::Unsized,
            Some(n) => BodyPlan::Sized(n),
        },
    }
}

/// Takes the body off the bytes that follow the header section (see `body_of`).
pub fn read_body(plan: BodyPlan, rest: &[u8]) -> (r: Result<(Option<Vec<u8>>, Option<usize>), Fault>)
    ensures
        match body_of(plan, rest@) {
            Ok((body, body_len)) => r is Ok && r->Ok_0.1 == body_len && match body {
                Some(b) => r->Ok_0.0 is Some && r->Ok_0.0.unwrap()@ == b,
                None => r->Ok_0.0 is None,
            },
            Err(fault) => r == Err::<(Option<Vec<u8>>, Option<usize>), Fault>(fault),
        },
{
    match plan {
        BodyPlan::Absent => Ok((None, None)),
        BodyPlan::Unsized => Ok((Some(Vec::new()), None)),
        BodyPlan::Sized(n) => {
            if rest.len() >= n {
                Ok((Some(copy_of(slice_subrange(rest, 0, n))), Some(n)))
            } else {
                Err(Fault::ShortBody)
            }
        },
    }
}

/// Reads one request from the start of a byte string (see `parse_request`).
pub fn read_request(value: &[u8]) -> (r: Result<EspressoRequest, Fault>)
    ensures
        match parse_request(value@) {
            Ok(request) => r is Ok && r->Ok_0@ == request && r->Ok_0.headers.wf(),
            Err(fault) => r == Err::<EspressoRequest, Fault>(fault),
        },
{
    if value.len() == 0 {
        return Err(Fault::Empty);
    }
    let (line, rest) = match take_line(value) {
        Some(split) => split,
        None => {
            return Err(Fault::Misaligned);
        },
    };
    let (method, resource, protocol_ver) = match parse_request_line(line) {
        Ok(parts) => parts,
        Err(fault) => {
            return Err(fault);
        },
    };
    let (headers, tail) = match read_headers(rest) {
        Ok(section) => section,
        Err(fault) => {
            return Err(fault);
        },
    };
    let plan = plan_body(&headers);
    let (body, body_len) = match read_body(plan, tail) {
        Ok(body) => body,
        Err(fault) => {
            return Err(fault);
        },
    };
    Ok(EspressoRequest { headers, method, resource, protocol_ver, body, body_len })
}

impl EspressoRequest {
    /// The value of the header without a name. Every header of a request
    /// has a name, so this is always the empty string; `header` looks a
    /// header up by its name.
    pub fn get_header(&self) -> (r: Option<String>)
        ensures
            r matches Some(s) && s@ == Seq::<char>::empty(),
    {
        Some(String::new())
    }

    /// The value of the header `name`, letter case aside.
    pub fn header(&self, name: &[u8]) -> (r: Option<&Vec<u8>>)
        requires
            self.headers.wf(),
        ensures
            match value_of(self@.headers, upper(name@)) {
                Some(v) => r is Some && r.unwrap()@ == v,
                None => r is None,
            },
    {
        let key = to_upper(name);
        self.headers.get(key.as_slice())
    }
}

impl<'a> TryFrom<&'a [u8]> for EspressoRequest {
    type Error = EspressoRequestError;

    /// Reads a single request from a byte string: `Ok` with the request that
    /// `parse_request` describes, else the error that reports its fault.
    fn try_from(value: &'a [u8]) -> (r: Result<EspressoRequest, EspressoRequestError>)
        ensures
            match parse_request(value@) {
                Ok(request) => r is Ok && r->Ok_0@ == request && r->Ok_0.headers.wf(),
                Err(fault) => r is Err && r->Err_0.reports(fault),
            },
    {
        match read_request(value) {
            Ok(request) => Ok(request),
            Err(fault) => Err(fault.error()),
        }
    }
}

impl<'a> vstd::std_specs::convert::TryFromSpecImpl<&'a [u8]> for EspressoRequest {
    open spec fn obeys_try_from_spec() -> bool {
        false
    }

    open spec fn try_from_spec(value: &'a [u8]) -> Result<Self, EspressoRequestError> {
        arbitrary()
    }
}

/// Where a connection stands in reading its next request.
#[derive(Clone, Copy, Debug, PartialEq, Eq, Structural)]
pub enum FrameState {
    /// The next line is a request line.
    AwaitRequestLine,
    /// The next line is a header line or the empty line that ends the headers.
    AwaitHeaders,
    /// The declared number of body bytes is still to come.
    AwaitBody,
    /// A frame has just been handed out; the next line is a request line.
    FrameReady,
    /// The stream has ended or failed; no frame will follow.
    Closed,
}

/// The mathematical content of a stream's reading side: its state and the
/// parts of the request read so far.
pub struct StreamView {
    pub state: FrameState,
    pub method: RequestMethod,
    pub resource: Seq<u8>,
    pub protocol_ver: Seq<u8>,
    pub headers: Seq<(Seq<u8>, Seq<u8>)>,
    /// The number of body bytes awaited in `AwaitBody`.
    pub awaited: usize,
}

/// What one step of a stream amounts to.
pub enum StepView {
    /// The stream needs the next line.
    NeedLine,
    /// The stream needs that many body bytes.
    NeedBody(usize),
    /// A request is complete.
    Frame(RequestView),
    /// The request is faulty; the stream is closed.
    Failed(Fault),
    /// The stream has ended; there are no more frames.
    Closed,
}

/// A stream between requests, in state `state`.
pub open spec fn at_rest(state: FrameState) -> StreamView {
    StreamView {
        state,
        method: RequestMethod::GET,
        resource: Seq::empty(),
        protocol_ver: Seq::empty(),
        headers: Seq::empty(),
        awaited: 0,
    }
}

/// The line that `raw` consists of: `raw` without its final CR LF, where it
/// holds one line feed and that at its very end, behind a CR.
pub open spec fn whole_line(raw: Seq<u8>) -> Option<Seq<u8>> {
    match split_line(raw) {
        Some((line, rest)) => if rest.len() == 0 {
            Some(line)
        } else {
            None
        },
        None => None,
    }
}

/// The request that a stream has gathered, completed by a body.
pub open spec fn gathered(v: StreamView, body: Option<Seq<u8>>, body_len: Option<usize>)
    -> RequestView {
    RequestView {
        headers: v.headers,
        method: v.method,
        resource: v.resource,
        protocol_ver: v.protocol_ver,
        body,
        body_len,
    }
}

/// The step from the end of the header section: the frame, where no body
/// bytes are to be read, else the demand for them.
pub open spec fn after_headers(v: StreamView) -> (StreamView, StepView) {
    match body_plan(v.headers) {
        BodyPlan::Sized(n) => if n > 0 {
            (StreamView { state: FrameState::AwaitBody, awaited: n, ..v }, StepView::NeedBody(n))
        } else {
            (at_rest(FrameState::FrameReady), StepView::Frame(gathered(v, Some(Seq::empty()), Some(n))))
        },
        BodyPlan::Unsized => (
            at_rest(FrameState::FrameReady),
            StepView::Frame(gathered(v, Some(Seq::empty()), None)),
        ),
        BodyPlan::Absent => (at_rest(FrameState::FrameReady), StepView::Frame(gathered(v, None, None))),
    }
}

/// One step of a stream: the state it enters and what the step amounts to,
/// given the bytes that were read for it. Where the stream awaits a line,
/// `input` is that line with its terminator, or empty at the end of the
/// stream; where it awaits a body, `input` is the bytes that could be read.
pub open spec fn step(v: StreamView, input: Seq<u8>) -> (StreamView, StepView) {
    match v.state {
        FrameState::Closed => (v, StepView::Closed),
        FrameState::AwaitRequestLine | FrameState::FrameReady => if input.len() == 0 {
            (at_rest(FrameState::Closed), StepView::Closed)
        } else {
            match whole_line(input) {
                None => (at_rest(FrameState::Closed), StepView::Failed(Fault::Misaligned)),
                Some(line) => match request_line(line) {
                    Err(fault) => (at_rest(FrameState::Closed), StepView::Failed(fault)),
                    Ok((method, resource, protocol_ver)) => (
                        StreamView {
                            state: FrameState::AwaitHeaders,
                            method,
                            resource,
                            protocol_ver,
                            headers: Seq::empty(),
                            awaited: 0,
                        },
                        StepView::NeedLine,
                    ),
                },
            }
        },
        FrameState::AwaitHeaders => match whole_line(input) {
            None => (at_rest(FrameState::Closed), StepView::Failed(Fault::Misaligned)),
            Some(line) => if line.len() == 0 {
                after_headers(v)
            } else {
                match header_line(line) {
                    Err(fault) => (at_rest(FrameState::Closed), StepView::Failed(fault)),
                    Ok((name, value)) => (
                        StreamView { headers: put(v.headers, name, value), ..v },
                        StepView::NeedLine,
                    ),
                }
            },
        },
        FrameState::AwaitBody => match body_of(BodyPlan::Sized(v.awaited), input) {
            Err(fault) => (at_rest(FrameState::Closed), StepView::Failed(fault)),
            Ok((body, body_len)) => (
                at_rest(FrameState::FrameReady),
                StepView::Frame(gathered(v, body, body_len)),
            ),
        },
    }
}

/// What a stream needs before its next step.
#[derive(Clone, Copy, Debug, PartialEq, Eq, Structural)]
pub enum Demand {
    /// One line, up to and including its line feed.
    Line,
    /// That many body bytes.
    Body(usize),
    /// Nothing: the stream is closed.
    Nothing,
}

/// The demand of a stream in the given state.
pub open spec fn demand_of(v: StreamView) -> Demand {
    match v.state {
        FrameState::Closed => Demand::Nothing,
        FrameState::AwaitBody => Demand::Body(v.awaited),
        _ => Demand::Line,
    }
}

/// What one step of a stream came to.
#[derive(Debug, PartialEq, Eq)]
pub enum StreamStep {
    /// The stream needs the next line.
    NeedLine,
    /// The stream needs that many body bytes.
    NeedBody(usize),
    /// A request is complete.
    Frame(EspressoStreamFrame),
    /// The request is faulty; the stream is closed.
    Failed(EspressoRequestError),
    /// The stream has ended; there are no more frames.
    Closed,
}

impl StreamStep {
    /// Whether the step is the one that `v` describes.
    pub open spec fn amounts_to(&self, v: StepView) -> bool {
        match (*self, v) {
            (StreamStep::NeedLine, StepView::NeedLine) => true,
            (StreamStep::NeedBody(n), StepView::NeedBody(m)) => n == m,
            (StreamStep::Frame(frame), StepView::Frame(request)) => frame.request@ == request
                && frame.request.headers.wf(),
            (StreamStep::Failed(error), StepView::Failed(fault)) => error.reports(fault),
            (StreamStep::Closed, StepView::Closed) => true,
            _ => false,
        }
    }
}

/// The reading side of a connection: the state machine that gathers one
/// request after another. It does no I/O: its owner reads what the reader
/// demands and hands it to `next`.
#[derive(Debug)]
pub struct RequestReader {
    state: FrameState,
    method: RequestMethod,
    resource: Vec<u8>,
    protocol_ver: Vec<u8>,
    headers: Headers,
    awaited: usize,
}

impl View for RequestReader {
    type V = StreamView;

    closed spec fn view(&self) -> StreamView {
        StreamView {
            state: self.state,
            method: self.method,
            resource: self.resource@,
            protocol_ver: self.protocol_ver@,
            headers: self.headers@,
            awaited: self.awaited,
        }
    }
}

impl RequestReader {
    /// The reader's invariant: no header name is held twice.
    pub open spec fn wf(&self) -> bool {
        crate::headers::distinct(self@.headers)
    }

    /// A reader at the start of a connection.
    pub fn new() -> (s: RequestReader)
        ensures
            s.wf(),
            s@ == at_rest(FrameState::AwaitRequestLine),
    {
        RequestReader {
            state: FrameState::AwaitRequestLine,
            method: RequestMethod::GET,
            resource: Vec::new(),
            protocol_ver: Vec::new(),
            headers: Headers::new(),
            awaited: 0,
        }
    }

    /// The state the reader is in.
    pub fn state(&self) -> (state: FrameState)
        ensures
            state == self@.state,
    {
        self.state
    }

    /// What the reader needs before its next step.
    pub fn demand(&self) -> (d: Demand)
        ensures
            d == demand_of(self@),
    {
        match self.state {
            FrameState::Closed => Demand::Nothing,
            FrameState::AwaitBody => Demand::Body(self.awaited),
            _ => Demand::Line,
        }
    }

    /// Puts the reader to rest in `state`, handing out the parts gathered.
    fn rest(&mut self, state: FrameState) -> (parts: (RequestMethod, Vec<u8>, Vec<u8>, Headers))
        requires
            old(self).wf(),
        ensures
            final(self).wf(),
            final(self)@ == at_rest(state),
            parts.0 == old(self)@.method,
            parts.1@ == old(self)@.resource,
            parts.2@ == old(self)@.protocol_ver,
            parts.3@ == old(self)@.headers,
            parts.3.wf(),
    {
        let mut resource: Vec<u8> = Vec::new();
        let mut protocol_ver: Vec<u8> = Vec::new();
        let mut headers = Headers::new();
        let method = self.method;
        core::mem::swap(&mut resource, &mut self.resource);
        core::mem::swap(&mut protocol_ver, &mut self.protocol_ver);
        core::mem::swap(&mut headers, &mut self.headers);
        self.method = RequestMethod::GET;
        self.awaited = 0;
        self.state = state;
        (method, resource, protocol_ver, headers)
    }

    /// Closes the reader over a fault.
    fn fail(&mut self, fault: Fault) -> (r: StreamStep)
        requires
            old(self).wf(),
        ensures
            final(self).wf(),
            final(self)@ == at_rest(FrameState::Closed),
            r.amounts_to(StepView::Failed(fault)),
    {
        let _ = self.rest(FrameState::Closed);
        StreamStep::Failed(fault.error())
    }

    /// Hands out the gathered request with the given body.
    fn emit(&mut self, body: Option<Vec<u8>>, body_len: Option<usize>) -> (r: StreamStep)
        requires
            old(self).wf(),
        ensures
            final(self).wf(),
            final(self)@ == at_rest(FrameState::FrameReady),
            r.amounts_to(
                StepView::Frame(
                    gathered(
                        old(self)@,
                        match body {
                            Some(b) => Some(b@),
                            None => None,
                        },
                        body_len,
                    ),
                ),
            ),
    {
        let (method, resource, protocol_ver, headers) = self.rest(FrameState::FrameReady);
        StreamStep::Frame(
            EspressoStreamFrame {
                request: EspressoRequest { headers, method, resource, protocol_ver, body, body_len },
            },
        )
    }

    /// Reads `raw` as one whole line (see `whole_line`).
    fn line_of<'a>(raw: &'a [u8]) -> (r: Option<&'a [u8]>)
        ensures
            match whole_line(raw@) {
                Some(line) => r is Some && r.unwrap()@ == line,
                None => r is None,
            },
    {
        match take_line(raw) {
            Some((line, rest)) => {
                if rest.len() == 0 {
                    Some(line)
                } else {
                    None
                }
            },
            None => None,
        }
    }

    /// Takes one step with the bytes that were read for it (see `step`).
    pub fn next(&mut self, input: &[u8]) -> (r: StreamStep)
        requires
            old(self).wf(),
        ensures
            final(self).wf(),
            final(self)@ == step(old(self)@, input@).0,
            r.amounts_to(step(old(self)@, input@).1),
    {
        match self.state {
            FrameState::Closed => StreamStep::Closed,
            FrameState::AwaitRequestLine | FrameState::FrameReady => {
                if input.len() == 0 {
                    let _ = self.rest(FrameState::Closed);
                    return StreamStep::Closed;
                }
                match RequestReader::line_of(input) {
                    None => self.fail(Fault::Misaligned),
                    Some(line) => match parse_request_line(line) {
                        Err(fault) => self.fail(fault),
                        Ok((method, resource, protocol_ver)) => {
                            let _ = self.rest(FrameState::AwaitHeaders);
                            self.method = method;
                            self.resource = resource;
                            self.protocol_ver = protocol_ver;
                            StreamStep::NeedLine
                        },
                    },
                }
            },
            FrameState::AwaitHeaders => {
                match RequestReader::line_of(input) {
                    None => self.fail(Fault::Misaligned),
                    Some(line) => {
                        if line.len() == 0 {
                            match plan_body(&self.headers) {
                                BodyPlan::Sized(n) => {
                                    if n > 0 {
                                        self.awaited = n;
                                        self.state = FrameState::AwaitBody;
                                        StreamStep::NeedBody(n)
                                    } else {
                                        self.emit(Some(Vec::new()), Some(n))
                                    }
                                },
                                BodyPlan::Unsized => self.emit(Some(Vec::new()), None),
                                BodyPlan::Absent => self.emit(None, None),
                            }
                        } else {
                            match parse_header_line(line) {
                                Err(fault) => self.fail(fault),
                                Ok((name, value)) => {
                                    self.headers.insert(name, value);
                                    StreamStep::NeedLine
                                },
                            }
                        }
                    },
                }
            },
            FrameState::AwaitBody => {
                match read_body(BodyPlan::Sized(self.awaited), input) {
                    Err(fault) => self.fail(fault),
                    Ok((body, body_len)) => self.emit(body, body_len),
                }
            },
        }
    }
}

/// One connection: the reader that gathers its requests frame by frame,
/// paired with the writer for its responses.
#[derive(Debug)]
pub struct EspressoStream {
    /// The reading side.
    pub reader: RequestReader,
    /// The writer for the responses of this connection.
    pub writer: ResponseWriter,
}

impl EspressoStream {
    /// A stream at the start of a connection, with an empty writer.
    pub fn new() -> (s: EspressoStream)
        ensures
            s.reader.wf(),
            s.reader@ == at_rest(FrameState::AwaitRequestLine),
            s.writer@ == Seq::<u8>::empty(),
    {
        EspressoStream { reader: RequestReader::new(), writer: ResponseWriter::new() }
    }

    /// A second handle on the same connection, reading from the start of a
    /// request with an empty writer; a closed stream has none to give.
    pub fn clone(&self) -> (r: Result<EspressoStream, EspressoProcessingError>)
        ensures
            match r {
                Ok(s) => self.reader@.state != FrameState::Closed && s.reader.wf() && s.reader@
                    == at_rest(FrameState::AwaitRequestLine) && s.writer@ == Seq::<u8>::empty(),
                Err(e) => self.reader@.state == FrameState::Closed && e
                    == EspressoProcessingError::ConnectionClosed,
            },
    {
        match self.reader.state() {
            FrameState::Closed => Err(EspressoProcessingError::ConnectionClosed),
            _ => Ok(EspressoStream::new()),
        }
    }

    /// Takes one step of the reading side with the bytes that were read for
    /// it (see `step`); the writer is left alone.
    pub fn next(&mut self, input: &[u8]) -> (r: StreamStep)
        requires
            old(self).reader.wf(),
        ensures
            final(self).reader.wf(),
            final(self).reader@ == step(old(self).reader@, input@).0,
            r.amounts_to(step(old(self).reader@, input@).1),
            final(self).writer == old(self).writer,
    {
        self.reader.next(input)
    }
}

} // verus!
