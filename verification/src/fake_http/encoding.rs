//! The content codings that responses are compressed with.

use brotli::CompressorWriter;
use flate2::write::GzEncoder;
use flate2::Compression;
use std::io::Write;
use vstd::prelude::*;
use vstd::string::*;

use crate::calls::call_on_all;

verus! {

/// A content coding that a client may ask for.
#[derive(Clone, Copy, Debug, PartialEq, Eq, Structural)]
pub enum Encoding {
    Brotli,
    Gzip,
    Identity,
    /// A coding that responses are never compressed with.
    Other,
}

impl Encoding {
    /// Whether responses are compressed with this coding.
    pub open spec fn compresses(self) -> bool {
        self is Brotli || self is Gzip
    }

    /// What a `Content-Encoding` field calls the coding, where responses are
    /// compressed with it.
    pub open spec fn token(self) -> Option<Seq<u8>> {
        match self {
            Encoding::Brotli => Some("br".spec_bytes()),
            Encoding::Gzip => Some("gzip".spec_bytes()),
            _ => None,
        }
    }

    /// Whether a response in this coding is compressed.
    pub fn accepts_compression(self) -> (r: bool)
        ensures
            r == self.compresses(),
    {
        match self {
            Encoding::Brotli => true,
            Encoding::Gzip => true,
            _ => false,
        }
    }
}

/// Whether one item of a parsed `Accept-Encoding` field offers a coding that
/// responses are compressed with.
pub open spec fn offers_compression<Q, E>(offer: Result<(Option<Encoding>, Q), E>) -> bool {
    match offer {
        Ok((Some(encoding), _)) => encoding.compresses(),
        _ => false,
    }
}

/// Of the items of a parsed `Accept-Encoding` field those that offer a coding
/// that responses are compressed with. Items that are malformed, that speak of
/// any coding, or of another one, are left out.
pub fn compressible_offers<Q, E>(parsed: Vec<Result<(Option<Encoding>, Q), E>>) -> (r: Vec<
    Result<(Option<Encoding>, Q), E>,
>)
    ensures
        r@ == parsed@.filter(|offer: Result<(Option<Encoding>, Q), E>| offers_compression(offer)),
{
    let ghost wanted = |offer: Result<(Option<Encoding>, Q), E>| offers_compression(offer);
    let ghost all = parsed@;
    let mut kept: Vec<Result<(Option<Encoding>, Q), E>> = Vec::new();
    for offer in offers: parsed
        invariant
            wanted == (|offer: Result<(Option<Encoding>, Q), E>| offers_compression(offer)),
            offers.seq() == all,
            kept@ == all.take(offers.index()).filter(wanted),
    {
        proof {
            reveal(Seq::filter);
            assert(all.take(offers.index() + 1).drop_last() =~= all.take(offers.index()));
        }
        let keep = match &offer {
            Ok((Some(encoding), _)) => encoding.accepts_compression(),
            _ => false,
        };
        if keep {
            kept.push(offer);
        }
    }
    assert(all.take(all.len() as int) =~= all);
    kept
}

/// The coding of the response, given which of the offered codings the client
/// prefers. Without a preference the response is not encoded.
pub fn chosen_encoding<E>(preferred: Result<Option<Encoding>, E>) -> (r: Encoding)
    ensures
        r == (match preferred {
            Ok(Some(encoding)) => encoding,
            _ => Encoding::Identity,
        }),
{
    match preferred {
        Ok(Some(encoding)) => encoding,
        _ => Encoding::Identity,
    }
}

/// What `GzEncoder` makes of `data` at a compression level.
pub uninterp spec fn gzip_encoded(data: Seq<u8>, level: u32) -> Seq<u8>;

/// What `GzDecoder` reads out of `body`, where it is a gzip member.
pub uninterp spec fn gzip_decoded(body: Seq<u8>) -> Option<Seq<u8>>;

/// What brotli's `Decompressor` reads out of `body`, where it is a brotli
/// stream.
pub uninterp spec fn brotli_decoded(body: Seq<u8>) -> Option<Seq<u8>>;

/// The compression level of gzip bodies.
pub const GZIP_DEFAULT_COMPRESSION_LEVEL: u8 = 1;

/// The size of the buffer that brotli bodies pass through.
pub const BROTLI_BUFFER_SIZE: usize = 4096;

/// The quality of brotli bodies that are known as a whole.
pub const BROTLI_QUALITY: u32 = 6;

/// The logarithm of the window size of brotli bodies.
pub const BROTLI_WINDOW: u32 = 22;

/// `GzEncoder` on a vector, which takes all that is written to it: it succeeds,
/// its bytes are a function of the data and the level, and they decode to the
/// data.
#[verifier::external_body]
fn gzip(data: &[u8], level: u32) -> (r: Result<Vec<u8>, std::io::Error>)
    requires
        level <= 9,
    ensures
        r is Ok,
        r matches Ok(body) ==> body@ == gzip_encoded(data@, level) && gzip_decoded(body@) == Some(
            data@,
        ),
{
    let mut writer = GzEncoder::new(Vec::new(), Compression::new(level));
    writer.write_all(data)?;
    writer.finish()
}

/// brotli's `CompressorWriter` on a vector, which takes all that is written to
/// it: it succeeds, and its bytes decode to the data. Which of the encodings of
/// the data comes out is not stated: the encoder compares costs that it computes
/// with the machine's `log2` on floating-point numbers.
#[verifier::external_body]
pub(crate) fn brotli(data: &[u8], buffer_size: usize, quality: u32, window: u32) -> (r: Result<
    Vec<u8>,
    std::io::Error,
>)
    requires
        0 < buffer_size,
        quality <= 11,
        10 <= window <= 24,
    ensures
        r is Ok,
        r matches Ok(body) ==> brotli_decoded(body@) == Some(data@),
{
    let mut writer = CompressorWriter::new(Vec::new(), buffer_size, quality, window);
    writer.write_all(data)?;
    Ok(writer.into_inner())
}

/// Whether `body` is what `brotli` may make of `data` with the buffer, the
/// quality and the window of this crate.
pub closed spec fn made_by_brotli(data: Seq<u8>, body: Seq<u8>) -> bool {
    exists|given: &[u8], made: Vec<u8>|
        {
            &&& given@ == data
            &&& made@ == body
            &&& #[trigger] call_ensures(
                brotli,
                (given, BROTLI_BUFFER_SIZE, BROTLI_QUALITY, BROTLI_WINDOW),
                Ok(made),
            )
        }
}

/// What a client reads out of a body in the coding `encoding`.
pub open spec fn decoded(encoding: Encoding, body: Seq<u8>) -> Option<Seq<u8>> {
    match encoding {
        Encoding::Brotli => brotli_decoded(body),
        Encoding::Gzip => gzip_decoded(body),
        Encoding::Identity => Some(body),
        Encoding::Other => None,
    }
}

/// Whether `body` is `data` in the coding `encoding`, as this crate makes it.
pub open spec fn is_encoded(encoding: Encoding, data: Seq<u8>, body: Seq<u8>) -> bool {
    &&& decoded(encoding, body) == Some(data)
    &&& match encoding {
        Encoding::Brotli => made_by_brotli(data, body),
        Encoding::Gzip => body == gzip_encoded(data, GZIP_DEFAULT_COMPRESSION_LEVEL as u32),
        _ => false,
    }
}

/// `data` in a coding that compresses.
pub fn encode(encoding: Encoding, data: &[u8]) -> (r: Result<Vec<u8>, std::io::Error>)
    requires
        encoding.compresses(),
    ensures
        r matches Ok(body) && is_encoded(encoding, data@, body@),
{
    match encoding {
        Encoding::Brotli => call_on_all(
            brotli,
            data,
            BROTLI_BUFFER_SIZE,
            BROTLI_QUALITY,
            BROTLI_WINDOW,
        ),
        _ => gzip(data, GZIP_DEFAULT_COMPRESSION_LEVEL as u32),
    }
}

/// Bodies go through brotli in pieces of 4 KiB, at quality 6, with a window of
/// 4 MiB.
pub(crate) proof fn law_brotli_settings(data: Seq<u8>, body: Seq<u8>)
    requires
        made_by_brotli(data, body),
    ensures
        exists|given: &[u8], made: Vec<u8>|
            {
                &&& given@ == data
                &&& made@ == body
                &&& #[trigger] call_ensures(brotli, (given, 4096usize, 6u32, 22u32), Ok(made))
            },
{
}

} // verus!
