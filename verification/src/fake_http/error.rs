//! Why an operation on an HTTP stream fails.

use std::error::Error;
use std::io::ErrorKind;
use vstd::prelude::*;

verus! {

/// An I/O error.
#[verifier::external_type_specification]
#[verifier::external_body]
pub struct ExIoError(std::io::Error);

/// Why a response could not be put together.
pub enum ResponseError {
    /// A header name is empty, too long, or holds a byte that no field name may
    /// hold.
    HeaderName,
    /// A header value holds a control character.
    HeaderValue,
    /// The header map has no room for another line.
    HeaderMapFull,
    /// The status code does not have three digits.
    Status,
    /// The body could not be compressed. No encoder of this crate fails so.
    Compression(std::io::Error),
}

/// Why a stream refuses an operation. Scripts see these as errors of the class
/// `Http`.
#[derive(Clone, Copy, Debug, PartialEq, Eq, Structural)]
pub enum HttpError {
    AlreadyInUse,
    ResponseHeadersAlreadySent,
    ConnectionClosed,
    NoResponseHeaders,
    ResponseAlreadyCompleted,
}

impl HttpError {
    /// What the error says.
    pub open spec fn text(self) -> Seq<char> {
        match self {
            HttpError::AlreadyInUse => "already in use"@,
            HttpError::ResponseHeadersAlreadySent => "response headers already sent"@,
            HttpError::ConnectionClosed => "connection closed while sending response"@,
            HttpError::NoResponseHeaders => "no response headers"@,
            HttpError::ResponseAlreadyCompleted => "response already completed"@,
        }
    }

    /// The message that a script sees.
    pub fn message(self) -> (r: &'static str)
        ensures
            r@ == self.text(),
    {
        match self {
            HttpError::AlreadyInUse => "already in use",
            HttpError::ResponseHeadersAlreadySent => "response headers already sent",
            HttpError::ConnectionClosed => "connection closed while sending response",
            HttpError::NoResponseHeaders => "no response headers",
            HttpError::ResponseAlreadyCompleted => "response already completed",
        }
    }
}

/// An error of hyper's.
#[verifier::external_type_specification]
#[verifier::external_body]
pub struct ExHyperError(hyper::Error);

/// Whether an error comes of an I/O error that says that there is no
/// connection.
pub uninterp spec fn not_connected(error: hyper::Error) -> bool;

/// `Error::source` of a hyper error, reduced to whether it is an I/O error of
/// the kind `NotConnected`.
#[verifier::external_body]
fn is_not_connected(error: &hyper::Error) -> (r: bool)
    ensures
        r == not_connected(*error),
{
    let source = error.source().and_then(|source| source.downcast_ref::<std::io::Error>());
    matches!(source.map(|source| source.kind()), Some(ErrorKind::NotConnected))
}

/// What a shutdown that ended in an error comes to, given whether the error
/// says that there was no connection left.
pub fn failed_shutdown<E>(error: E, not_connected: bool) -> (r: Result<(), E>)
    ensures
        not_connected ==> r is Ok,
        !not_connected ==> r == Err::<(), E>(error),
{
    if not_connected {
        Ok(())
    } else {
        Err(error)
    }
}

/// Drops the error of a shutdown whose peer was gone already.
pub fn filter_enotconn(result: Result<(), hyper::Error>) -> (r: Result<(), hyper::Error>)
    ensures
        match result {
            Ok(_) => r is Ok,
            Err(error) => if not_connected(error) {
                r is Ok
            } else {
                r == Err::<(), hyper::Error>(error)
            },
        },
{
    match result {
        Ok(()) => Ok(()),
        Err(error) => {
            let gone = is_not_connected(&error);
            failed_shutdown(error, gone)
        },
    }
}

} // verus!
