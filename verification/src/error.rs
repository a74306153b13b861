//! Error kinds of the engine.

use vstd::prelude::*;
use vstd::string::StringExecFns;

verus! {

/// Why a byte stream could not be read as a request.
#[derive(Clone, Copy, Debug, PartialEq, Eq, Structural)]
pub enum Fault {
    /// The stream held no bytes at all.
    Empty,
    /// The method token is none of the supported methods.
    UnsupportedMethod,
    /// A request line or header line is not of the expected shape, or the
    /// stream ends before the header section does.
    Misaligned,
    /// The stream ends before the declared body length is reached.
    ShortBody,
}

impl Fault {
    /// Whether the fault is an incomplete request rather than a malformed one.
    pub open spec fn is_incomplete(self) -> bool {
        self == Fault::ShortBody
    }

    /// The message that reports the fault.
    pub open spec fn text(self) -> Seq<char> {
        match self {
            Fault::Empty => "TCP Stream was empty."@,
            Fault::UnsupportedMethod => "Request method not supported"@,
            Fault::Misaligned => "Request is misaligned or incomplete."@,
            Fault::ShortBody => "Request body is shorter than its declared length."@,
        }
    }

    /// The request error that reports the fault.
    pub fn error(self) -> (e: EspressoRequestError)
        ensures
            e.reports(self),
    {
        match self {
            Fault::Empty => EspressoRequestError::MalformedRequest(
                String::from_str("TCP Stream was empty."),
            ),
            Fault::UnsupportedMethod => EspressoRequestError::MalformedRequest(
                String::from_str("Request method not supported"),
            ),
            Fault::Misaligned => EspressoRequestError::MalformedRequest(
                String::from_str("Request is misaligned or incomplete."),
            ),
            Fault::ShortBody => EspressoRequestError::IncompleteRequest(
                String::from_str("Request body is shorter than its declared length."),
            ),
        }
    }
}

/// A request that could not be read off the byte stream.
#[derive(Clone, Debug, PartialEq, Eq)]
pub enum EspressoRequestError {
    /// The bytes do not form a request line or a header line.
    MalformedRequest(String),
    /// The stream ended before the declared body length was reached.
    IncompleteRequest(String),
}

impl EspressoRequestError {
    /// Whether the error is the one that reports `fault`.
    pub open spec fn reports(&self, fault: Fault) -> bool {
        match *self {
            EspressoRequestError::MalformedRequest(m) => !fault.is_incomplete() && m@
                == fault.text(),
            EspressoRequestError::IncompleteRequest(m) => fault.is_incomplete() && m@
                == fault.text(),
        }
    }

    /// The message carried by the error.
    pub fn message(&self) -> (m: &String)
        ensures
            m@ == match *self {
                EspressoRequestError::MalformedRequest(t) => t@,
                EspressoRequestError::IncompleteRequest(t) => t@,
            },
    {
        match self {
            EspressoRequestError::MalformedRequest(m) => m,
            EspressoRequestError::IncompleteRequest(m) => m,
        }
    }
}

/// A failure of the serving machinery itself.
#[derive(Clone, Copy, Debug, PartialEq, Eq, Structural)]
pub enum EspressoProcessingError {
    /// A connection was handed over before the server started listening.
    HandleBeforeListen,
    /// The worker pool did not accept the task.
    FailedThreadPool,
    /// The connection is closed.
    ConnectionClosed,
}

} // verus!
