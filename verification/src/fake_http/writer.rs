//! The write half of an HTTP stream.

use vstd::prelude::*;

use super::error::HttpError;
use crate::place::replace;

verus! {

/// The write half of an HTTP stream. What the response goes through belongs to
/// the runtime: `T` takes the head, `W` a compressed body, `U` a plain one.
pub enum HttpResponseWriter<T, W, U> {
    /// The head is still to be sent.
    Headers(T),
    /// The head was sent; the body is compressed on its way.
    Body(W),
    /// The head was sent; the body goes out as it is.
    BodyUncompressed(U),
    /// Nothing more can be sent.
    Closed,
}

impl<T, W, U> Default for HttpResponseWriter<T, W, U> {
    fn default() -> (r: Self)
        ensures
            r is Closed,
    {
        HttpResponseWriter::Closed
    }
}

/// How far a response has come.
pub enum Phase {
    Headers,
    Body,
    Closed,
}

/// Why a writer in this phase takes no part of a body, where it takes none.
pub open spec fn refusal(phase: Phase) -> Option<HttpError> {
    match phase {
        Phase::Headers => Some(HttpError::NoResponseHeaders),
        Phase::Closed => Some(HttpError::ResponseAlreadyCompleted),
        Phase::Body => None,
    }
}

/// The phase of a writer once a part of the body was sent, or its peer was
/// found to be gone.
pub open spec fn phase_after_write(phase: Phase, delivered: bool) -> Phase {
    if delivered {
        phase
    } else {
        Phase::Closed
    }
}

/// Something that happened while a resource was copied into a response.
pub enum CopyEvent<E> {
    /// The copy was asked for.
    Started,
    /// The resource yielded a chunk, or failed to.
    Read(Result<Vec<u8>, E>),
    /// The chunk went out, or, with `false`, the peer was found to be gone.
    Written(bool),
}

/// What the copy of a resource into a response calls for next.
pub enum CopyAction<E> {
    /// Read the next chunk of the resource, of at most so many bytes.
    Read(usize),
    /// Send this chunk.
    Write(Vec<u8>),
    /// The resource was copied as a whole.
    Finished,
    /// The resource failed.
    ReadFailed(E),
    /// The stream takes no body.
    Refused(HttpError),
}

/// How much of a resource is read at a time.
pub const COPY_CHUNK: usize = 65536;

/// What a copy does next while the writer is in `phase`.
pub open spec fn proceed<E>(phase: Phase) -> CopyAction<E> {
    match refusal(phase) {
        Some(error) => CopyAction::Refused(error),
        None => CopyAction::Read(COPY_CHUNK),
    }
}

/// The phase of a writer after a step of a copy.
pub open spec fn copy_phase<E>(phase: Phase, event: CopyEvent<E>) -> Phase {
    match event {
        CopyEvent::Written(delivered) => phase_after_write(phase, delivered),
        _ => phase,
    }
}

/// What a copy does next after an event. An empty chunk marks the end of the
/// resource.
pub open spec fn copy_action<E>(phase: Phase, event: CopyEvent<E>) -> CopyAction<E> {
    match event {
        CopyEvent::Started => proceed(phase),
        CopyEvent::Read(Ok(chunk)) => if chunk@.len() == 0 {
            CopyAction::Finished
        } else {
            CopyAction::Write(chunk)
        },
        CopyEvent::Read(Err(error)) => CopyAction::ReadFailed(error),
        CopyEvent::Written(delivered) => proceed(phase_after_write(phase, delivered)),
    }
}

impl<T, W, U> HttpResponseWriter<T, W, U> {
    /// How far the response has come.
    pub open spec fn phase(self) -> Phase {
        match self {
            HttpResponseWriter::Headers(_) => Phase::Headers,
            HttpResponseWriter::Body(_) => Phase::Body,
            HttpResponseWriter::BodyUncompressed(_) => Phase::Body,
            HttpResponseWriter::Closed => Phase::Closed,
        }
    }

    /// Makes way for the writer of the body, and hands out what the head is to
    /// be sent through. Where the head was sent before, the stream goes over to
    /// the new writer all the same.
    pub fn begin_response(&mut self, new_wr: Self) -> (r: Result<T, HttpError>)
        ensures
            *final(self) == new_wr,
            r == (match *old(self) {
                HttpResponseWriter::Headers(response_tx) => Ok(response_tx),
                _ => Err(HttpError::ResponseHeadersAlreadySent),
            }),
    {
        match replace(self, new_wr) {
            HttpResponseWriter::Headers(response_tx) => Ok(response_tx),
            _ => Err(HttpError::ResponseHeadersAlreadySent),
        }
    }

    /// Whether the stream takes a part of the body, and if not, why.
    pub fn check_writable(&self) -> (r: Result<(), HttpError>)
        ensures
            r == (match refusal(self.phase()) {
                Some(error) => Err(error),
                None => Ok(()),
            }),
    {
        match self {
            HttpResponseWriter::Headers(_) => Err(HttpError::NoResponseHeaders),
            HttpResponseWriter::Closed => Err(HttpError::ResponseAlreadyCompleted),
            _ => Ok(()),
        }
    }

    /// What a write comes to. `delivered` tells whether the part went out; where
    /// the peer was gone, the stream is closed.
    pub fn finish_write(&mut self, delivered: bool) -> (r: Result<(), HttpError>)
        ensures
            final(self).phase() == phase_after_write(old(self).phase(), delivered),
            if delivered {
                r is Ok && *final(self) == *old(self)
            } else {
                r == Err::<(), HttpError>(HttpError::ResponseAlreadyCompleted)
            },
    {
        if delivered {
            Ok(())
        } else {
            *self = HttpResponseWriter::Closed;
            Err(HttpError::ResponseAlreadyCompleted)
        }
    }

    /// What the copy of a resource into the response does next.
    pub fn copy_step<E>(&mut self, event: CopyEvent<E>) -> (r: CopyAction<E>)
        ensures
            r == copy_action(old(self).phase(), event),
            final(self).phase() == copy_phase(old(self).phase(), event),
            event != CopyEvent::<E>::Written(false) ==> *final(self) == *old(self),
    {
        match event {
            CopyEvent::Read(Err(error)) => return CopyAction::ReadFailed(error),
            CopyEvent::Read(Ok(chunk)) => {
                if chunk.is_empty() {
                    return CopyAction::Finished;
                }
                return CopyAction::Write(chunk);
            },
            CopyEvent::Started => {},
            CopyEvent::Written(delivered) => {
                if !delivered {
                    *self = HttpResponseWriter::Closed;
                }
            },
        }
        match self.check_writable() {
            Ok(_) => CopyAction::Read(COPY_CHUNK),
            Err(error) => CopyAction::Refused(error),
        }
    }

    /// Closes the stream, and hands out the writer that is to be shut down.
    pub fn shutdown(&mut self) -> (r: Self)
        ensures
            r == *old(self),
            *final(self) is Closed,
    {
        replace(self, HttpResponseWriter::Closed)
    }
}

/// What sending the head of a response comes to.
pub fn send_outcome(delivered: bool) -> (r: Result<(), HttpError>)
    ensures
        r == (if delivered {
            Ok(())
        } else {
            Err(HttpError::ConnectionClosed)
        }),
{
    if delivered {
        Ok(())
    } else {
        Err(HttpError::ConnectionClosed)
    }
}

/// An operation on the write half of a stream.
pub enum WriterEvent {
    /// A head was to be sent; the writer of its body starts out in this phase.
    Begin(Phase),
    /// A part of the body was to be sent, which went out or found the peer
    /// gone.
    Write(bool),
    /// The stream was shut down.
    Shutdown,
}

/// The phase of a writer after an operation.
pub open spec fn phase_after(phase: Phase, event: WriterEvent) -> Phase {
    match event {
        WriterEvent::Begin(next) => next,
        WriterEvent::Write(delivered) => if refusal(phase) is Some {
            phase
        } else {
            phase_after_write(phase, delivered)
        },
        WriterEvent::Shutdown => Phase::Closed,
    }
}

/// The phase of a fresh writer after `events`.
pub open spec fn phase_of(events: Seq<WriterEvent>) -> Phase
    decreases events.len(),
{
    if events.len() == 0 {
        Phase::Headers
    } else {
        phase_after(phase_of(events.drop_last()), events.last())
    }
}

/// Whether no event leads a stream back to a head that is still to be sent. No
/// body starts out so.
pub open spec fn bodies_only(events: Seq<WriterEvent>) -> bool {
    forall|i: int| 0 <= i < events.len() ==> #[trigger] events[i] != WriterEvent::Begin(
        Phase::Headers,
    )
}

/// How many heads a fresh writer sent in the course of `events`.
pub open spec fn heads_sent(events: Seq<WriterEvent>) -> nat
    decreases events.len(),
{
    if events.len() == 0 {
        0
    } else {
        heads_sent(events.drop_last()) + (if events.last() is Begin && phase_of(events.drop_last())
            is Headers {
            1nat
        } else {
            0nat
        })
    }
}

/// A stream sends one head at most, whatever is done to it, and none once it
/// has left its first phase.
pub proof fn law_one_head(events: Seq<WriterEvent>)
    requires
        bodies_only(events),
    ensures
        heads_sent(events) <= 1,
        phase_of(events) is Headers ==> heads_sent(events) == 0,
    decreases events.len(),
{
    if events.len() > 0 {
        let earlier = events.drop_last();
        assert forall|i: int| 0 <= i < earlier.len() implies #[trigger] earlier[i]
            != WriterEvent::Begin(Phase::Headers) by {
            assert(events[i] == earlier[i]);
        }
        law_one_head(earlier);
        assert(events[events.len() - 1] == events.last());
    }
}

/// A closed stream stays closed, and says that the response is completed,
/// until another head is begun.
pub proof fn law_closed_stays_closed(events: Seq<WriterEvent>, later: Seq<WriterEvent>)
    requires
        phase_of(events) is Closed,
        forall|i: int| 0 <= i < later.len() ==> !(#[trigger] later[i] is Begin),
    ensures
        phase_of(events + later) is Closed,
        refusal(phase_of(events + later)) == Some(HttpError::ResponseAlreadyCompleted),
    decreases later.len(),
{
    if later.len() == 0 {
        assert(events + later =~= events);
    } else {
        assert((events + later).drop_last() =~= events + later.drop_last());
        assert((events + later).last() == later[later.len() - 1]);
        law_closed_stays_closed(events, later.drop_last());
    }
}

/// A stream whose head was not sent takes no body, and stays as it is.
pub proof fn law_no_body_before_head(events: Seq<WriterEvent>)
    requires
        forall|i: int| 0 <= i < events.len() ==> #[trigger] events[i] is Write,
    ensures
        phase_of(events) is Headers,
        refusal(phase_of(events)) == Some(HttpError::NoResponseHeaders),
    decreases events.len(),
{
    if events.len() > 0 {
        assert(events[events.len() - 1] == events.last());
        law_no_body_before_head(events.drop_last());
    }
}

/// A copy whose peer is gone ends at once, with the answer that the response is
/// completed, and leaves the stream closed.
pub proof fn law_copy_ends_when_peer_is_gone<E>(phase: Phase)
    ensures
        copy_phase(phase, CopyEvent::<E>::Written(false)) is Closed,
        copy_action(phase, CopyEvent::<E>::Written(false)) == CopyAction::<E>::Refused(
            HttpError::ResponseAlreadyCompleted,
        ),
{
}

/// The phase of a writer in the course of a copy.
pub open spec fn phase_in_copy<E>(start: Phase, events: Seq<CopyEvent<E>>) -> Phase
    decreases events.len(),
{
    if events.len() == 0 {
        start
    } else {
        copy_phase(phase_in_copy(start, events.drop_last()), events.last())
    }
}

/// Whether `events` answer what the copy called for: each but the first follows
/// an action that it belongs to.
pub open spec fn is_copy<E>(start: Phase, events: Seq<CopyEvent<E>>) -> bool
    decreases events.len(),
{
    if events.len() == 0 {
        true
    } else if events.len() == 1 {
        events[0] is Started
    } else {
        let earlier = events.drop_last();
        &&& is_copy(start, earlier)
        &&& match copy_action(phase_in_copy(start, earlier.drop_last()), earlier.last()) {
            CopyAction::Read(_) => events.last() is Read,
            CopyAction::Write(_) => events.last() is Written,
            _ => false,
        }
    }
}

/// The bytes that the resource yielded.
pub open spec fn bytes_read<E>(events: Seq<CopyEvent<E>>) -> Seq<u8>
    decreases events.len(),
{
    if events.len() == 0 {
        Seq::empty()
    } else {
        match events.last() {
            CopyEvent::Read(Ok(chunk)) => bytes_read(events.drop_last()) + chunk@,
            _ => bytes_read(events.drop_last()),
        }
    }
}

/// The bytes that went out: the chunks that the copy had sent, without those
/// that found the peer gone.
pub open spec fn bytes_sent<E>(start: Phase, events: Seq<CopyEvent<E>>) -> Seq<u8>
    decreases events.len(),
{
    if events.len() < 2 {
        Seq::empty()
    } else {
        let earlier = events.drop_last();
        match (
            copy_action(phase_in_copy(start, earlier.drop_last()), earlier.last()),
            events.last(),
        ) {
            (CopyAction::Write(chunk), CopyEvent::Written(true)) => bytes_sent(start, earlier)
                + chunk@,
            _ => bytes_sent(start, earlier),
        }
    }
}

/// A copy that finished has sent what the resource yielded, in order, each byte
/// once; so has, up to the present moment, one that is about to read on.
pub proof fn law_copy_is_faithful<E>(start: Phase, events: Seq<CopyEvent<E>>)
    requires
        events.len() > 0,
        is_copy(start, events),
    ensures
        match copy_action(phase_in_copy(start, events.drop_last()), events.last()) {
            CopyAction::Finished => bytes_sent(start, events) == bytes_read(events),
            CopyAction::Read(_) => bytes_sent(start, events) == bytes_read(events),
            CopyAction::Write(chunk) => bytes_sent(start, events) + chunk@ == bytes_read(events),
            _ => true,
        },
    decreases events.len(),
{
    if events.len() == 1 {
        assert(events.last() == events[0]);
        assert(bytes_read(events.drop_last()) == Seq::<u8>::empty());
    } else {
        let earlier = events.drop_last();
        law_copy_is_faithful(start, earlier);
        match events.last() {
            CopyEvent::Read(Ok(chunk)) => {
                assert(bytes_read(earlier) + chunk@ =~= bytes_read(events));
                if chunk@.len() == 0 {
                    assert(bytes_read(events) =~= bytes_read(earlier));
                }
            },
            _ => {},
        }
    }
}

} // verus!
