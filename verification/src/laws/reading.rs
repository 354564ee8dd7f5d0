//! Reading the body of a request.

use hyper::body::Bytes;
use vstd::prelude::*;

use crate::fake_http::body::{
    ahead_after, arrived, asked_in_turn, chunk_bytes, delivered, law_reads_keep_the_body,
    read_outcome, waiting, BodyEvent, Lookahead, PeekableBody, ReadStep,
};
use crate::fake_http::request::{HttpRequestReader, HttpStreamReadResource, Request};

verus! {

/// A body of which nothing was read knows nothing of what its source holds.
pub proof fn law_fresh_body<B, E>(stream: B, r: PeekableBody<B, E>)
    requires
        call_ensures(PeekableBody::<B, E>::new, (stream,), r),
    ensures
        r.stream == stream,
        r.ahead is Unknown,
{
}

/// A reader gets the front of the chunk that waits: all of it, or as much as
/// was asked for, and the rest goes on waiting. Where no byte waits, the source
/// has to be asked, whatever the reader asks for. The end is told where it was
/// known before, and a failure once.
pub proof fn law_read<B, E>(body: &mut PeekableBody<B, E>, limit: usize, r: ReadStep<E>)
    requires
        call_ensures(PeekableBody::<B, E>::read_step, (body, limit), r),
    ensures
        final(body).stream == old(body).stream,
        match old(body).ahead {
            Lookahead::Unknown => r is Poll && final(body).ahead is Unknown,
            Lookahead::Item(Ok(chunk)) => if chunk_bytes(chunk).len() == 0 {
                r is Poll && final(body).ahead is Unknown
            } else {
                &&& r matches ReadStep::Chunk(piece)
                &&& final(body).ahead matches Lookahead::Item(Ok(rest))
                &&& chunk_bytes(piece) + chunk_bytes(rest) == chunk_bytes(chunk)
                &&& chunk_bytes(piece).len() <= limit
                &&& chunk_bytes(rest).len() > 0 ==> chunk_bytes(piece).len() == limit
            },
            Lookahead::Item(Err(error)) => r == ReadStep::Failed(error)
                && final(body).ahead is Unknown,
            Lookahead::End => r is End && final(body).ahead is End,
        },
{
    if let Lookahead::Item(Ok(chunk)) = body.ahead {
        let bytes = chunk_bytes(chunk);
        let len = if limit < bytes.len() {
            limit as int
        } else {
            bytes.len() as int
        };
        assert(bytes.take(len) + bytes.skip(len) =~= bytes);
    }
}

/// What the source yielded is what waits; a source that yielded nothing is at
/// its end.
pub proof fn law_arrival<B, E>(
    body: &mut PeekableBody<B, E>,
    item: Option<Result<Bytes, E>>,
    r: (),
)
    requires
        call_ensures(PeekableBody::<B, E>::arrive, (body, item), r),
    ensures
        final(body).stream == old(body).stream,
        match item {
            Some(Ok(chunk)) => final(body).ahead matches Lookahead::Item(Ok(kept)) && chunk_bytes(
                kept,
            ) == chunk_bytes(chunk),
            Some(Err(error)) => final(body).ahead == Lookahead::<E>::Item(Err(error)),
            None => final(body).ahead is End,
        },
{
}

/// A reader is told that the body is at its end only after the source, asked,
/// had nothing more to yield.
pub proof fn law_end_comes_from_the_source<E>(events: Seq<BodyEvent<E>>, limit: nat)
    requires
        read_outcome(ahead_after(events), limit) is End,
    ensures
        exists|i: int|
            0 <= i < events.len() && #[trigger] events[i] == BodyEvent::<E>::Arrived(None),
    decreases events.len(),
{
    let earlier = events.drop_last();
    match events.last() {
        BodyEvent::Arrived(item) => {
            assert(events[events.len() - 1] == BodyEvent::<E>::Arrived(None));
        },
        BodyEvent::Read(before) => {
            law_end_comes_from_the_source(earlier, before);
            let i = choose|i: int|
                0 <= i < earlier.len() && #[trigger] earlier[i] == BodyEvent::<E>::Arrived(None);
            assert(events[i] == BodyEvent::<E>::Arrived(None));
        },
    }
}

/// Where readers took all that the source has yielded so far, and the source has
/// neither failed nor ended, it has to be asked, whatever the reader asks for.
pub proof fn law_source_is_asked<E>(events: Seq<BodyEvent<E>>, limit: nat)
    requires
        asked_in_turn(events),
        delivered(events) == arrived(events),
        forall|i: int|
            0 <= i < events.len() ==> (#[trigger] events[i] matches BodyEvent::Arrived(item)
                ==> item matches Some(Ok(_))),
    ensures
        read_outcome(ahead_after(events), limit) is Poll,
{
    law_reads_keep_the_body(events);
    let waits = waiting(ahead_after(events));
    assert((delivered(events) + waits).len() == delivered(events).len() + waits.len());
    if read_outcome(ahead_after(events), limit) is End {
        law_end_comes_from_the_source(events, limit);
    }
    if ahead_after(events) is Failed {
        assert(events[events.len() - 1] == events.last());
    }
}

/// A reader of a request asks the source of the body before anything else,
/// keeps the headers, and then reads the body piece by piece as it arrives. A
/// closed reader is at its end.
pub proof fn law_request_is_read<B, E>(
    reader: &mut HttpRequestReader<B, E>,
    limit: usize,
    r: ReadStep<E>,
)
    requires
        call_ensures(HttpRequestReader::<B, E>::read_step, (reader, limit), r),
    ensures
        match *old(reader) {
            HttpRequestReader::Headers(request) => {
                &&& r is Poll
                &&& *final(reader) matches HttpRequestReader::Body(headers, body)
                &&& headers == request.headers
                &&& body.stream == request.body
                &&& body.ahead is Unknown
            },
            HttpRequestReader::Body(headers, body) => {
                &&& *final(reader) matches HttpRequestReader::Body(kept, left)
                &&& kept == headers
                &&& left.stream == body.stream
                &&& match body.ahead {
                    Lookahead::Unknown => r is Poll && left.ahead is Unknown,
                    Lookahead::Item(Ok(chunk)) => if chunk_bytes(chunk).len() == 0 {
                        r is Poll && left.ahead is Unknown
                    } else {
                        &&& r matches ReadStep::Chunk(piece)
                        &&& left.ahead matches Lookahead::Item(Ok(rest))
                        &&& chunk_bytes(piece) + chunk_bytes(rest) == chunk_bytes(chunk)
                        &&& chunk_bytes(piece).len() <= limit
                        &&& chunk_bytes(rest).len() > 0 ==> chunk_bytes(piece).len() == limit
                    },
                    Lookahead::Item(Err(error)) => r == ReadStep::Failed(error)
                        && left.ahead is Unknown,
                    Lookahead::End => r is End && left.ahead is End,
                }
            },
            HttpRequestReader::Closed => r is End && *final(reader) is Closed,
        },
{
    if let HttpRequestReader::Body(_, body) = *reader {
        if let Lookahead::Item(Ok(chunk)) = body.ahead {
            let bytes = chunk_bytes(chunk);
            let len = if limit < bytes.len() {
                limit as int
            } else {
                bytes.len() as int
            };
            assert(bytes.take(len) + bytes.skip(len) =~= bytes);
        }
    }
}

/// What the source of a request's body yielded is what waits for its reader.
pub proof fn law_request_body_arrives<B, E>(
    reader: &mut HttpRequestReader<B, E>,
    item: Option<Result<Bytes, E>>,
    r: (),
)
    requires
        call_ensures(HttpRequestReader::<B, E>::arrive, (reader, item), r),
    ensures
        *old(reader) matches HttpRequestReader::Body(headers, body) ==> {
            &&& *final(reader) matches HttpRequestReader::Body(kept, left)
            &&& kept == headers
            &&& left.stream == body.stream
            &&& match item {
                Some(Ok(chunk)) => left.ahead matches Lookahead::Item(Ok(waiting)) && chunk_bytes(
                    waiting,
                ) == chunk_bytes(chunk),
                Some(Err(error)) => left.ahead == Lookahead::<E>::Item(Err(error)),
                None => left.ahead is End,
            }
        },
{
}

/// The read half of a stream starts with the request as it came, and reports
/// the size that the request came with.
pub proof fn law_read_half<B, E>(
    request: Request<B>,
    resource: HttpStreamReadResource<B, E>,
    size: (u64, Option<u64>),
    name: &'static str,
)
    requires
        call_ensures(HttpStreamReadResource::<B, E>::new, (request,), resource),
        call_ensures(HttpStreamReadResource::<B, E>::size_hint, (&resource,), size),
        call_ensures(HttpStreamReadResource::<B, E>::name, (&resource,), name),
    ensures
        resource.rd == HttpRequestReader::<B, E>::Headers(request),
        size == request.size,
        name@ == "httpReadStream"@,
{
}

/// A reader that was given up is closed.
pub proof fn law_reader_closed_by_default<B, E>(r: HttpRequestReader<B, E>)
    requires
        call_ensures(<HttpRequestReader<B, E> as Default>::default, (), r),
    ensures
        r is Closed,
{
}

} // verus!
