//! Writing the response to a request.

use vstd::prelude::*;

use crate::fake_http::error::{failed_shutdown, filter_enotconn, not_connected, HttpError};
use crate::fake_http::writer::{send_outcome, CopyAction, CopyEvent, HttpResponseWriter};

verus! {

/// The first head goes out through what the request came with; for any further
/// one there is nothing to send it through.
pub proof fn law_head_is_sent_once<T, W, U>(
    writer: &mut HttpResponseWriter<T, W, U>,
    new_wr: HttpResponseWriter<T, W, U>,
    r: Result<T, HttpError>,
)
    requires
        call_ensures(HttpResponseWriter::<T, W, U>::begin_response, (writer, new_wr), r),
    ensures
        *final(writer) == new_wr,
        match *old(writer) {
            HttpResponseWriter::Headers(response_tx) => r == Ok::<T, HttpError>(response_tx),
            _ => r == Err::<T, HttpError>(HttpError::ResponseHeadersAlreadySent),
        },
{
}

/// A part of the body can be sent between the head and the end of the stream,
/// and at no other time.
pub proof fn law_body_follows_the_head<T, W, U>(
    writer: HttpResponseWriter<T, W, U>,
    r: Result<(), HttpError>,
)
    requires
        call_ensures(HttpResponseWriter::<T, W, U>::check_writable, (&writer,), r),
    ensures
        match writer {
            HttpResponseWriter::Headers(_) => r == Err::<(), HttpError>(
                HttpError::NoResponseHeaders,
            ),
            HttpResponseWriter::Body(_) => r is Ok,
            HttpResponseWriter::BodyUncompressed(_) => r is Ok,
            HttpResponseWriter::Closed => r == Err::<(), HttpError>(
                HttpError::ResponseAlreadyCompleted,
            ),
        },
{
}

/// A part that went out leaves the stream as it is; one that found the peer gone
/// closes it.
pub proof fn law_write_ends<T, W, U>(
    writer: &mut HttpResponseWriter<T, W, U>,
    delivered: bool,
    r: Result<(), HttpError>,
)
    requires
        call_ensures(HttpResponseWriter::<T, W, U>::finish_write, (writer, delivered), r),
    ensures
        delivered ==> r is Ok && *final(writer) == *old(writer),
        !delivered ==> r == Err::<(), HttpError>(HttpError::ResponseAlreadyCompleted),
        !delivered ==> *final(writer) is Closed,
{
}

/// A copy sends every chunk that the resource yields, whole and as it is, and
/// ends with the first empty one. It reads on after each chunk that went out, in
/// pieces of 64 KiB. It is refused only where no head was sent or the stream is
/// closed, and closes the stream only where the peer is gone.
pub proof fn law_copy<T, W, U, E>(
    writer: &mut HttpResponseWriter<T, W, U>,
    event: CopyEvent<E>,
    r: CopyAction<E>,
)
    requires
        call_ensures(HttpResponseWriter::<T, W, U>::copy_step::<E>, (writer, event), r),
    ensures
        match event {
            CopyEvent::Read(Ok(chunk)) => {
                &&& *final(writer) == *old(writer)
                &&& chunk@.len() > 0 ==> r == CopyAction::<E>::Write(chunk)
                &&& chunk@.len() == 0 ==> r is Finished
            },
            CopyEvent::Read(Err(error)) => {
                &&& *final(writer) == *old(writer)
                &&& r == CopyAction::<E>::ReadFailed(error)
            },
            CopyEvent::Written(false) => {
                &&& *final(writer) is Closed
                &&& r == CopyAction::<E>::Refused(HttpError::ResponseAlreadyCompleted)
            },
            // The copy has just begun, or a chunk went out.
            _ => {
                &&& *final(writer) == *old(writer)
                &&& match *old(writer) {
                    HttpResponseWriter::Headers(_) => r == CopyAction::<E>::Refused(
                        HttpError::NoResponseHeaders,
                    ),
                    HttpResponseWriter::Body(_) => r == CopyAction::<E>::Read(65536),
                    HttpResponseWriter::BodyUncompressed(_) => r == CopyAction::<E>::Read(65536),
                    HttpResponseWriter::Closed => r == CopyAction::<E>::Refused(
                        HttpError::ResponseAlreadyCompleted,
                    ),
                }
            },
        },
{
}

/// A stream that is shut down is closed, and what it went through is handed out
/// whole.
pub proof fn law_shutdown<T, W, U>(
    writer: &mut HttpResponseWriter<T, W, U>,
    r: HttpResponseWriter<T, W, U>,
)
    requires
        call_ensures(HttpResponseWriter::<T, W, U>::shutdown, (writer,), r),
    ensures
        r == *old(writer),
        *final(writer) is Closed,
{
}

/// A head that was not delivered found the connection closed.
pub proof fn law_head_is_delivered(delivered: bool, r: Result<(), HttpError>)
    requires
        call_ensures(send_outcome, (delivered,), r),
    ensures
        r is Ok <==> delivered,
        r matches Err(error) ==> error is ConnectionClosed,
{
}

/// Of the errors of a shutdown those are dropped that say that there was no
/// connection left, and no others.
pub proof fn law_lost_connections_are_no_errors(
    result: Result<(), hyper::Error>,
    r: Result<(), hyper::Error>,
)
    requires
        call_ensures(filter_enotconn, (result,), r),
    ensures
        r is Err <==> (result matches Err(error) && !not_connected(error)),
        r matches Err(error) ==> result == Err::<(), hyper::Error>(error),
{
}

/// An error is dropped exactly where the connection was gone.
pub proof fn law_failed_shutdown<E>(error: E, gone: bool, r: Result<(), E>)
    requires
        call_ensures(failed_shutdown::<E>, (error, gone), r),
    ensures
        r is Ok <==> gone,
        r matches Err(kept) ==> kept == error,
{
}

/// Each error says what it is about.
pub proof fn law_messages(error: HttpError, r: &'static str)
    requires
        call_ensures(HttpError::message, (error,), r),
    ensures
        match error {
            HttpError::AlreadyInUse => r@ == "already in use"@,
            HttpError::ResponseHeadersAlreadySent => r@ == "response headers already sent"@,
            HttpError::ConnectionClosed => r@ == "connection closed while sending response"@,
            HttpError::NoResponseHeaders => r@ == "no response headers"@,
            HttpError::ResponseAlreadyCompleted => r@ == "response already completed"@,
        },
{
}

/// A stream that was given up is closed.
pub proof fn law_closed_by_default<T, W, U>(r: HttpResponseWriter<T, W, U>)
    requires
        call_ensures(<HttpResponseWriter<T, W, U> as Default>::default, (), r),
    ensures
        r is Closed,
{
}

} // verus!
