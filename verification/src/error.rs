//! What can end a connection.

use vstd::prelude::*;

verus! {

/// Why a request head was refused.
#[derive(Clone, Copy, Debug, PartialEq, Eq)]
pub enum ParseError {
    /// The request line or a header line is not well formed.
    Malformed,
    /// The head has more header lines than a request may have.
    TooManyHeaders,
    /// The version on the request line is not HTTP/1.1.
    UnsupportedVersion,
}

/// A failure of the codec or of the transport. Each is fatal to the
/// connection it occurs on.
#[derive(Clone, Copy, Debug, PartialEq, Eq)]
pub enum Error {
    /// The bytes read are no request.
    Parse(ParseError),
    /// The stream ended in the middle of a frame.
    TrailingBytes,
    /// A write took no byte while bytes were waiting.
    BrokenConnection,
    /// The status code of a response has no reason phrase.
    UnknownStatus,
    /// The clock gives no time that a date header can be written for.
    DateUnavailable,
}

} // verus!
