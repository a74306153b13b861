//! The incremental reader and the grammar of whole requests agree: a reader
//! fed a byte string piece by piece, as a connection feeds it, comes to what
//! the grammar makes of the byte string as a whole.

use crate::error::Fault;
use crate::headers::put;
use crate::request::{
    after_headers, at_rest, body_of, body_plan, demand_of, gathered, header_block, header_line,
    parse_request, request_line, split_line, step, whole_line, BodyPlan, Demand, FrameState,
    RequestView, StepView, StreamView,
};
use crate::text::{first_match, is_first_match, lemma_first_match_is, matches_at, LF};
use vstd::prelude::*;

verus! {

/// The length of the piece that a connection reads for a demand at the
/// start of `s`: for a line, up to and including the first line feed, or
/// all of `s` where there is none; for a body, the demanded number of bytes,
/// or all of `s` where it is shorter.
pub open spec fn piece_len(demand: Demand, s: Seq<u8>) -> int {
    match demand {
        Demand::Nothing => 0,
        Demand::Line => match first_match(s, seq![LF]) {
            Some(i) => i + 1,
            None => s.len() as int,
        },
        Demand::Body(n) => if n <= s.len() {
            n as int
        } else {
            s.len() as int
        },
    }
}

/// What a reader in state `v` comes to when it is fed `s` piece by piece:
/// its first frame, failure or end.
pub open spec fn feed(v: StreamView, s: Seq<u8>) -> StepView
    decreases s.len(),
{
    let n = piece_len(demand_of(v), s);
    if 0 <= n <= s.len() {
        let (next, outcome) = step(v, s.subrange(0, n));
        match outcome {
            StepView::NeedLine | StepView::NeedBody(_) => if n > 0 {
                feed(next, s.subrange(n, s.len() as int))
            } else {
                outcome
            },
            _ => outcome,
        }
    } else {
        StepView::Closed
    }
}

/// What the grammar's reading of a whole byte string means as the outcome
/// of a connection: a frame, a failure, or, for the empty string, the end.
pub open spec fn outcome_of(parsed: Result<RequestView, Fault>) -> StepView {
    match parsed {
        Ok(request) => StepView::Frame(request),
        Err(Fault::Empty) => StepView::Closed,
        Err(fault) => StepView::Failed(fault),
    }
}

/// The piece read for a line holds the first line of `s` and nothing else.
proof fn lemma_piece_is_first_line(s: Seq<u8>)
    ensures
        0 <= piece_len(Demand::Line, s) <= s.len(),
        match split_line(s) {
            Some((line, rest)) => whole_line(s.subrange(0, piece_len(Demand::Line, s))) == Some(
                line,
            ) && s.subrange(piece_len(Demand::Line, s), s.len() as int) == rest && piece_len(
                Demand::Line,
                s,
            ) > 0,
            None => whole_line(s.subrange(0, piece_len(Demand::Line, s))) is None,
        },
{
    let pat = seq![LF];
    let n = piece_len(Demand::Line, s);
    match first_match(s, pat) {
        Some(i) => {
            let piece = s.subrange(0, i + 1);
            assert(piece.subrange(i, i + 1) =~= s.subrange(i, i + 1));
            assert forall|j: int| 0 <= j < i implies !matches_at(piece, pat, j) by {
                if matches_at(piece, pat, j) {
                    assert(s.subrange(j, j + 1) =~= piece.subrange(j, j + 1));
                    assert(matches_at(s, pat, j));
                }
            }
            lemma_first_match_is(piece, pat, i);
        },
        None => {
            assert(s.subrange(0, s.len() as int) =~= s);
        },
    }
}

/// From the end of the header section on, reader and grammar agree.
proof fn lemma_body_agrees(v: StreamView, tail: Seq<u8>)
    requires
        v.state == FrameState::AwaitHeaders,
    ensures
        ({
            let (next, outcome) = after_headers(v);
            let fed = match outcome {
                StepView::NeedBody(_) => feed(next, tail),
                _ => outcome,
            };
            fed == match body_of(body_plan(v.headers), tail) {
                Ok((body, body_len)) => StepView::Frame(gathered(v, body, body_len)),
                Err(fault) => StepView::Failed(fault),
            }
        }),
{
    match body_plan(v.headers) {
        BodyPlan::Sized(n) => {
            if n > 0 {
                if n <= tail.len() {
                    let piece = tail.subrange(0, piece_len(Demand::Body(n), tail));
                    assert(piece.subrange(0, n as int) =~= tail.subrange(0, n as int));
                }
            } else {
                assert(tail.subrange(0, 0) =~= Seq::<u8>::empty());
            }
        },
        _ => {},
    }
}

/// Within the header section, reader and grammar agree.
proof fn lemma_headers_agree(v: StreamView, s: Seq<u8>)
    requires
        v.state == FrameState::AwaitHeaders,
    ensures
        feed(v, s) == match header_block(s, v.headers) {
            Err(fault) => StepView::Failed(fault),
            Ok((headers, tail)) => match body_of(body_plan(headers), tail) {
                Ok((body, body_len)) => StepView::Frame(
                    gathered(StreamView { headers, ..v }, body, body_len),
                ),
                Err(fault) => StepView::Failed(fault),
            },
        },
    decreases s.len(),
{
    lemma_piece_is_first_line(s);
    match split_line(s) {
        Some((line, rest)) => {
            if line.len() == 0 {
                lemma_body_agrees(v, rest);
            } else {
                match header_line(line) {
                    Ok((name, value)) => {
                        lemma_headers_agree(StreamView { headers: put(v.headers, name, value), ..v }, rest);
                    },
                    Err(_) => {},
                }
            }
        },
        None => {},
    }
}

/// A header section fails for no other reason than a misaligned line.
proof fn lemma_header_faults(s: Seq<u8>, acc: Seq<(Seq<u8>, Seq<u8>)>)
    ensures
        header_block(s, acc) matches Err(fault) ==> fault == Fault::Misaligned,
    decreases s.len(),
{
    match split_line(s) {
        None => {},
        Some((line, rest)) => {
            if line.len() != 0 {
                match header_line(line) {
                    Ok((name, value)) => {
                        lemma_header_faults(rest, put(acc, name, value));
                    },
                    Err(_) => {},
                }
            }
        },
    }
}

/// A reader between requests, fed a byte string piece by piece, comes to
/// what the grammar reads from the byte string as a whole.
proof fn lemma_request_agrees(v: StreamView, s: Seq<u8>)
    requires
        v == at_rest(FrameState::AwaitRequestLine) || v == at_rest(FrameState::FrameReady),
    ensures
        feed(v, s) == outcome_of(parse_request(s)),
{
    lemma_piece_is_first_line(s);
    if s.len() > 0 {
        match split_line(s) {
            Some((line, rest)) => match request_line(line) {
                Ok((method, resource, protocol_ver)) => {
                    let next = StreamView {
                        state: FrameState::AwaitHeaders,
                        method,
                        resource,
                        protocol_ver,
                        headers: Seq::empty(),
                        awaited: 0,
                    };
                    lemma_headers_agree(next, rest);
                    lemma_header_faults(rest, Seq::empty());
                },
                Err(_) => {},
            },
            None => {},
        }
    }
}

/// A reader at the start of a connection, or one that has just handed out
/// a frame, fed a byte string piece by piece, comes to the request that the
/// grammar reads from the byte string as a whole, or fails with the same
/// fault; on the empty string it reports the end of the stream instead of a
/// fault.
pub proof fn lemma_reader_agrees_with_grammar(s: Seq<u8>)
    ensures
        feed(at_rest(FrameState::AwaitRequestLine), s) == outcome_of(parse_request(s)),
        feed(at_rest(FrameState::FrameReady), s) == outcome_of(parse_request(s)),
{
    lemma_request_agrees(at_rest(FrameState::AwaitRequestLine), s);
    lemma_request_agrees(at_rest(FrameState::FrameReady), s);
}

/// A body is never cut short: where the grammar reads a request with a
/// declared length, the body has exactly that many bytes.
pub proof fn lemma_body_has_declared_length(s: Seq<u8>)
    ensures
        parse_request(s) matches Ok(request) ==> match request.body_len {
            Some(n) => request.body matches Some(body) && body.len() == n,
            None => request.body matches Some(body) ==> body.len() == 0,
        },
{
}

} // verus!
