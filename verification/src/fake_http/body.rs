//! The body of a request, read in pieces no larger than the reader asks for.

use hyper::body::Bytes;
use vstd::prelude::*;

use crate::place::replace;

verus! {

/// A chunk of a body, as hyper hands it out.
#[verifier::external_type_specification]
#[verifier::external_body]
pub struct ExBytes(Bytes);

/// The bytes that a chunk holds.
pub uninterp spec fn chunk_bytes(chunk: Bytes) -> Seq<u8>;

/// `Bytes::len`: the number of bytes in the chunk.
#[verifier::external_body]
fn chunk_len(chunk: &Bytes) -> (r: usize)
    ensures
        r == chunk_bytes(*chunk).len(),
{
    chunk.len()
}

/// `Bytes::split_to`: takes the first `at` bytes off the chunk.
#[verifier::external_body]
fn split_front(chunk: &mut Bytes, at: usize) -> (front: Bytes)
    requires
        at <= chunk_bytes(*old(chunk)).len(),
    ensures
        chunk_bytes(front) == chunk_bytes(*old(chunk)).take(at as int),
        chunk_bytes(*final(chunk)) == chunk_bytes(*old(chunk)).skip(at as int),
{
    chunk.split_to(at)
}

/// What is known of the part of the body that no reader has got yet.
pub enum Lookahead<E> {
    /// The stream has to be asked.
    Unknown,
    /// The stream has yielded this, and it is not used up.
    Item(Result<Bytes, E>),
    /// The stream has ended.
    End,
}

/// The model of a `Lookahead`: a chunk stands for the bytes it holds.
pub enum Ahead<E> {
    Unknown,
    Chunk(Seq<u8>),
    Failed(E),
    End,
}

/// What comes of an attempt to read.
pub enum ReadStep<E> {
    /// The stream has to yield an item first.
    Poll,
    /// The next piece of the body.
    Chunk(Bytes),
    /// The body is at its end: the reader gets an empty piece.
    End,
    /// The stream failed.
    Failed(E),
}

/// The model of a `ReadStep`.
pub enum ReadOutcome<E> {
    Poll,
    Chunk(Seq<u8>),
    End,
    Failed(E),
}

impl<E> View for Lookahead<E> {
    type V = Ahead<E>;

    open spec fn view(&self) -> Ahead<E> {
        match *self {
            Lookahead::Unknown => Ahead::Unknown,
            Lookahead::Item(Ok(chunk)) => Ahead::Chunk(chunk_bytes(chunk)),
            Lookahead::Item(Err(error)) => Ahead::Failed(error),
            Lookahead::End => Ahead::End,
        }
    }
}

impl<E> View for ReadStep<E> {
    type V = ReadOutcome<E>;

    open spec fn view(&self) -> ReadOutcome<E> {
        match *self {
            ReadStep::Poll => ReadOutcome::Poll,
            ReadStep::Chunk(chunk) => ReadOutcome::Chunk(chunk_bytes(chunk)),
            ReadStep::End => ReadOutcome::End,
            ReadStep::Failed(error) => ReadOutcome::Failed(error),
        }
    }
}

/// How much of `available` bytes a reader gets who asks for at most `limit`.
pub open spec fn piece_len(limit: nat, available: nat) -> int {
    if limit < available {
        limit as int
    } else {
        available as int
    }
}

/// What a reader gets who asks for at most `limit` bytes.
pub open spec fn read_outcome<E>(ahead: Ahead<E>, limit: nat) -> ReadOutcome<E> {
    match ahead {
        Ahead::Unknown => ReadOutcome::Poll,
        Ahead::Chunk(bytes) => if bytes.len() == 0 {
            ReadOutcome::Poll
        } else {
            ReadOutcome::Chunk(bytes.take(piece_len(limit, bytes.len())))
        },
        Ahead::Failed(error) => ReadOutcome::Failed(error),
        Ahead::End => ReadOutcome::End,
    }
}

/// What is left once a reader has asked for at most `limit` bytes.
pub open spec fn after_read<E>(ahead: Ahead<E>, limit: nat) -> Ahead<E> {
    match ahead {
        Ahead::Unknown => Ahead::Unknown,
        Ahead::Chunk(bytes) => if bytes.len() == 0 {
            Ahead::Unknown
        } else {
            Ahead::Chunk(bytes.skip(piece_len(limit, bytes.len())))
        },
        Ahead::Failed(error) => Ahead::Unknown,
        Ahead::End => Ahead::End,
    }
}

/// What is known once the stream has yielded `item`, or ended.
pub open spec fn after_arrival<E>(item: Option<Result<Seq<u8>, E>>) -> Ahead<E> {
    match item {
        Some(Ok(bytes)) => Ahead::Chunk(bytes),
        Some(Err(error)) => Ahead::Failed(error),
        None => Ahead::End,
    }
}

/// The model of an item of the stream.
pub open spec fn item_view<E>(item: Option<Result<Bytes, E>>) -> Option<Result<Seq<u8>, E>> {
    match item {
        Some(Ok(chunk)) => Some(Ok(chunk_bytes(chunk))),
        Some(Err(error)) => Some(Err(error)),
        None => None,
    }
}

/// A body, with the item of its stream that is not used up yet.
pub struct PeekableBody<B, E> {
    /// Where further items come from.
    pub stream: B,
    pub ahead: Lookahead<E>,
}

impl<B, E> PeekableBody<B, E> {
    /// A body of which nothing was read.
    pub fn new(stream: B) -> (r: Self)
        ensures
            r.stream == stream,
            r.ahead@ == Ahead::<E>::Unknown,
    {
        PeekableBody { stream, ahead: Lookahead::Unknown }
    }

    /// Takes the next piece, of at most `limit` bytes, off the body. Chunks
    /// without bytes are passed over.
    pub fn read_step(&mut self, limit: usize) -> (r: ReadStep<E>)
        ensures
            r@ == read_outcome(old(self).ahead@, limit as nat),
            final(self).ahead@ == after_read(old(self).ahead@, limit as nat),
            final(self).stream == old(self).stream,
    {
        match replace(&mut self.ahead, Lookahead::Unknown) {
            Lookahead::Unknown => ReadStep::Poll,
            Lookahead::Item(Ok(mut chunk)) => {
                let available: usize = chunk_len(&chunk);
                if available == 0 {
                    return ReadStep::Poll;
                }
                let len: usize = if limit < available {
                    limit
                } else {
                    available
                };
                let front = split_front(&mut chunk, len);
                self.ahead = Lookahead::Item(Ok(chunk));
                ReadStep::Chunk(front)
            },
            Lookahead::Item(Err(error)) => ReadStep::Failed(error),
            Lookahead::End => {
                self.ahead = Lookahead::End;
                ReadStep::End
            },
        }
    }

    /// Takes note of what the stream yielded when it was asked.
    pub fn arrive(&mut self, item: Option<Result<Bytes, E>>)
        requires
            old(self).ahead@ is Unknown,
        ensures
            final(self).ahead@ == after_arrival(item_view(item)),
            final(self).stream == old(self).stream,
    {
        self.ahead = match item {
            Some(item) => Lookahead::Item(item),
            None => Lookahead::End,
        };
    }
}

/// Something that happens to a body.
pub enum BodyEvent<E> {
    /// The stream, asked, yielded an item or ended.
    Arrived(Option<Result<Seq<u8>, E>>),
    /// A reader asked for at most so many bytes.
    Read(nat),
}

/// What is known of a fresh body after `events`.
pub open spec fn ahead_after<E>(events: Seq<BodyEvent<E>>) -> Ahead<E>
    decreases events.len(),
{
    if events.len() == 0 {
        Ahead::Unknown
    } else {
        match events.last() {
            BodyEvent::Arrived(item) => after_arrival(item),
            BodyEvent::Read(limit) => after_read(ahead_after(events.drop_last()), limit),
        }
    }
}

/// Whether the stream was asked only when its last item was used up.
pub open spec fn asked_in_turn<E>(events: Seq<BodyEvent<E>>) -> bool
    decreases events.len(),
{
    events.len() > 0 ==> {
        &&& asked_in_turn(events.drop_last())
        &&& events.last() is Arrived ==> ahead_after(events.drop_last()) is Unknown
    }
}

/// The bytes of all chunks that the stream yielded.
pub open spec fn arrived<E>(events: Seq<BodyEvent<E>>) -> Seq<u8>
    decreases events.len(),
{
    if events.len() == 0 {
        Seq::empty()
    } else {
        match events.last() {
            BodyEvent::Arrived(Some(Ok(bytes))) => arrived(events.drop_last()) + bytes,
            _ => arrived(events.drop_last()),
        }
    }
}

/// The bytes of all pieces that readers got.
pub open spec fn delivered<E>(events: Seq<BodyEvent<E>>) -> Seq<u8>
    decreases events.len(),
{
    if events.len() == 0 {
        Seq::empty()
    } else {
        let before = delivered(events.drop_last());
        match events.last() {
            BodyEvent::Read(limit) => match read_outcome(ahead_after(events.drop_last()), limit) {
                ReadOutcome::Chunk(bytes) => before + bytes,
                _ => before,
            },
            BodyEvent::Arrived(_) => before,
        }
    }
}

/// The bytes that arrived and wait for a reader.
pub open spec fn waiting<E>(ahead: Ahead<E>) -> Seq<u8> {
    match ahead {
        Ahead::Chunk(bytes) => bytes,
        _ => Seq::empty(),
    }
}

/// Reading neither loses nor adds a byte: what readers got, followed by what
/// still waits, is what the stream yielded.
pub proof fn law_reads_keep_the_body<E>(events: Seq<BodyEvent<E>>)
    requires
        asked_in_turn(events),
    ensures
        delivered(events) + waiting(ahead_after(events)) == arrived(events),
    decreases events.len(),
{
    if events.len() > 0 {
        let earlier = events.drop_last();
        law_reads_keep_the_body(earlier);
        match events.last() {
            BodyEvent::Arrived(item) => {
                assert(waiting(ahead_after(earlier)) == Seq::<u8>::empty());
                assert(delivered(earlier) + Seq::<u8>::empty() =~= delivered(earlier));
                assert(delivered(events) + waiting(ahead_after(events)) =~= arrived(events));
            },
            BodyEvent::Read(limit) => {
                match ahead_after(earlier) {
                    Ahead::Chunk(bytes) => {
                        let len = piece_len(limit, bytes.len());
                        assert(bytes.take(len) + bytes.skip(len) =~= bytes);
                        assert((delivered(earlier) + bytes.take(len)) + bytes.skip(len)
                            =~= delivered(earlier) + bytes);
                    },
                    _ => {},
                }
            },
        }
    }
}

/// A reader who is told that the body is at its end has got all that the stream
/// yielded.
pub proof fn law_end_means_complete<E>(events: Seq<BodyEvent<E>>, limit: nat)
    requires
        asked_in_turn(events),
        read_outcome(ahead_after(events), limit) is End,
    ensures
        delivered(events) == arrived(events),
{
    law_reads_keep_the_body(events);
    assert(delivered(events) + Seq::<u8>::empty() =~= delivered(events));
}

/// Once a reader was told that the body is at its end, so is every later one.
pub proof fn law_end_is_final<E>(ahead: Ahead<E>, first: nat, second: nat)
    requires
        read_outcome(ahead, first) is End,
    ensures
        read_outcome(after_read(ahead, first), second) is End,
{
}

/// A piece is empty only where the reader asks for nothing, and never longer
/// than asked for.
pub proof fn law_pieces_fit<E>(ahead: Ahead<E>, limit: nat)
    ensures
        read_outcome(ahead, limit) matches ReadOutcome::Chunk(bytes) ==> bytes.len() <= limit && (
        bytes.len() == 0 ==> limit == 0),
{
}

} // verus!
