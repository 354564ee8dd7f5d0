//! Putting a response together: its head, and whether and how its body is
//! compressed.

use hyper::header::{HeaderMap, HeaderValue};
use hyper::http::status::InvalidStatusCode;
use hyper::StatusCode;
use vstd::prelude::*;
use vstd::set_lib::lemma_len_subset;
use vstd::string::*;

use super::bytes::lists;
use super::encoding::{decoded, encode, is_encoded, Encoding};
use super::error::ResponseError;
use super::header_map::{
    append_line, canonical_name, has_values, header_lines, header_values, insert_line,
    is_field_name, is_field_value, lemma_canonical_is_canonical, lemma_finite_names,
    lemma_known_names, lemma_no_lines, lemma_visible_text, line_views, name_count, new_map,
    parse_name, parse_value, remove_name, reserve_lines, values_named, with_line, MAX_RESERVE,
    SURE_ROOM,
};
use super::headers::{
    ensure_vary_accept_encoding, judged, law_vary_lists_accept_encoding, lemma_names_differ,
    lemma_weak_tag_is_weak, should_compress, varied, weaken_etag, weakened,
};
use super::writer::HttpResponseWriter;

verus! {

/// The error of `StatusCode::from_u16`.
#[verifier::external_type_specification]
#[verifier::external_body]
pub struct ExInvalidStatusCode(InvalidStatusCode);

/// The body of a response.
pub enum ResponseBody<S> {
    /// A body that is known as a whole.
    Full(Vec<u8>),
    /// A body that is written later, and comes out of this.
    Stream(S),
}

/// A response that is ready to be sent.
pub struct Response<S> {
    pub status: u16,
    pub headers: HeaderMap<HeaderValue>,
    pub body: ResponseBody<S>,
}

/// What is wrong with a header line.
pub enum LineFault {
    Name,
    Value,
}

/// What is wrong with the first header line that has a fault.
pub open spec fn first_fault(lines: Seq<(Seq<u8>, Seq<u8>)>) -> Option<LineFault>
    decreases lines.len(),
{
    if lines.len() == 0 {
        None
    } else if first_fault(lines.drop_last()) is Some {
        first_fault(lines.drop_last())
    } else if !is_field_name(lines.last().0) {
        Some(LineFault::Name)
    } else if !is_field_value(lines.last().1) {
        Some(LineFault::Value)
    } else {
        None
    }
}

/// What a header map associates with each name once `lines` have been added to
/// it, one after the other.
pub open spec fn collected(lines: Seq<(Seq<u8>, Seq<u8>)>) -> Map<Seq<u8>, Seq<Seq<u8>>>
    decreases lines.len(),
{
    if lines.len() == 0 {
        Map::empty()
    } else {
        with_line(collected(lines.drop_last()), canonical_name(lines.last().0), lines.last().1)
    }
}

proof fn lemma_fault_stays(lines: Seq<(Seq<u8>, Seq<u8>)>, n: int)
    requires
        0 <= n <= lines.len(),
        first_fault(lines.take(n)) is Some,
    ensures
        first_fault(lines) == first_fault(lines.take(n)),
    decreases lines.len(),
{
    if n == lines.len() {
        assert(lines.take(n) =~= lines);
    } else {
        assert(lines.drop_last().take(n) =~= lines.take(n));
        lemma_fault_stays(lines.drop_last(), n);
    }
}

/// Adding lines takes no name away, and leaves only so many.
proof fn lemma_names_stay(lines: Seq<(Seq<u8>, Seq<u8>)>, n: int)
    requires
        0 <= n <= lines.len(),
    ensures
        collected(lines).dom().finite(),
        collected(lines.take(n)).dom().subset_of(collected(lines).dom()),
        name_count(collected(lines.take(n))) <= name_count(collected(lines)),
    decreases lines.len(),
{
    if n == lines.len() {
        assert(lines.take(n) =~= lines);
        if n > 0 {
            lemma_names_stay(lines.drop_last(), n - 1);
        }
    } else {
        assert(lines.drop_last().take(n) =~= lines.take(n));
        lemma_names_stay(lines.drop_last(), n);
    }
    lemma_len_subset(collected(lines.take(n)).dom(), collected(lines).dom());
}

/// The header map that a script's header lines make up. Fails on the first line
/// that is not a header, and may fail where there are more names than a header
/// map is sure to hold.
pub fn response_headers(headers: Vec<(Vec<u8>, Vec<u8>)>) -> (r: Result<
    HeaderMap<HeaderValue>,
    ResponseError,
>)
    ensures
        r matches Ok(map) ==> {
            &&& first_fault(line_views(headers@)) is None
            &&& header_values(map) == collected(line_views(headers@))
            &&& header_lines(map).len() == headers@.len()
        },
        r matches Err(error) ==> match error {
            ResponseError::HeaderName => first_fault(line_views(headers@)) == Some(LineFault::Name),
            ResponseError::HeaderValue => first_fault(line_views(headers@)) == Some(
                LineFault::Value,
            ),
            ResponseError::HeaderMapFull => {
                ||| headers@.len() + 2 > MAX_RESERVE
                ||| name_count(collected(line_views(headers@))) > SURE_ROOM
            },
            _ => false,
        },
        headers@.len() + 2 > MAX_RESERVE ==> (r matches Err(error) && error is HeaderMapFull),
{
    let ghost lines = line_views(headers@);
    let mut hmap = new_map();
    proof {
        lemma_no_lines(hmap);
        assert(lines.take(0) =~= Seq::empty());
    }
    // Two lines may be added to those of the script.
    if reserve_lines(&mut hmap, headers.len().saturating_add(2)).is_err() {
        return Err(ResponseError::HeaderMapFull);
    }
    proof {
        lemma_no_lines(hmap);
    }
    for line in it: headers
        invariant
            it.seq() == headers@,
            lines == line_views(headers@),
            headers@.len() + 2 <= MAX_RESERVE,
            first_fault(lines.take(it.index())) is None,
            header_values(hmap) == collected(lines.take(it.index())),
            header_lines(hmap).len() == it.index(),
    {
        let (k, v) = line;
        proof {
            let next = lines.take(it.index() + 1);
            assert(next.drop_last() =~= lines.take(it.index()));
            assert(next.last() == (k@, v@));
            if first_fault(next) is Some {
                lemma_fault_stays(lines, it.index() + 1);
            }
            if is_field_name(k@) {
                lemma_canonical_is_canonical(k@);
            }
        }
        let name = match parse_name(&k) {
            Ok(name) => name,
            Err(_) => return Err(ResponseError::HeaderName),
        };
        let value = match parse_value(v) {
            Ok(value) => value,
            Err(_) => return Err(ResponseError::HeaderValue),
        };
        if append_line(&mut hmap, &name, value).is_err() {
            proof {
                lemma_names_stay(lines, it.index());
            }
            return Err(ResponseError::HeaderMapFull);
        }
    }
    assert(lines.take(lines.len() as int) =~= lines);
    Ok(hmap)
}

/// The largest body that is not worth compressing.
pub const SMALL_BODY: usize = 20;

/// Whether `verdict` is an answer to the question whether a body is to be
/// compressed. Only codings that compress come into question, and of bodies
/// that are known as a whole only those that are not small.
pub open spec fn compression_judged<F: Fn(&[u8]) -> bool>(
    is_content_compressible: F,
    encoding: Encoding,
    size: Option<usize>,
    values: Map<Seq<u8>, Seq<Seq<u8>>>,
    verdict: bool,
) -> bool {
    if encoding.compresses() && (size matches Some(len) ==> len > SMALL_BODY) {
        judged(is_content_compressible, values, verdict)
    } else {
        !verdict
    }
}

/// Whether the body of a response is to be compressed. `size` is the size of a
/// body that is known as a whole.
pub fn decide_compression<F: Fn(&[u8]) -> bool>(
    encoding: Encoding,
    size: Option<usize>,
    headers: &HeaderMap<HeaderValue>,
    is_content_compressible: F,
) -> (r: bool)
    requires
        forall|content_type: &[u8]| call_requires(is_content_compressible, (content_type,)),
    ensures
        compression_judged(
            is_content_compressible,
            encoding,
            size,
            header_values(*headers),
            r,
        ),
{
    let large = match size {
        Some(len) => len > SMALL_BODY,
        None => true,
    };
    encoding.accepts_compression() && large && should_compress(headers, is_content_compressible)
}

/// The header values of a response whose body is compressed: its entity tag is
/// weak, its length is not given, and its coding is.
pub open spec fn compressed_head(
    values: Map<Seq<u8>, Seq<Seq<u8>>>,
    encoding: Encoding,
) -> Map<Seq<u8>, Seq<Seq<u8>>> {
    let head = weakened(values).remove("content-length".spec_bytes());
    match encoding.token() {
        Some(token) => head.insert("content-encoding".spec_bytes(), seq![token]),
        None => head,
    }
}

/// The header values of a response, given whether its body is compressed.
pub open spec fn finished_head(
    values: Map<Seq<u8>, Seq<Seq<u8>>>,
    compressing: bool,
    encoding: Encoding,
) -> Map<Seq<u8>, Seq<Seq<u8>>> {
    if compressing {
        compressed_head(values, encoding)
    } else {
        values
    }
}

/// Makes the head of a response say that the body is compressed. Fails only
/// where a line has to be added to a map that is full.
pub fn mark_compressed(hmap: &mut HeaderMap<HeaderValue>, encoding: Encoding) -> (r: Result<
    (),
    ResponseError,
>)
    requires
        encoding.compresses(),
    ensures
        r is Ok ==> header_values(*final(hmap)) == compressed_head(
            header_values(*old(hmap)),
            encoding,
        ),
        r matches Err(error) ==> error is HeaderMapFull && name_count(header_values(*old(hmap)))
            > SURE_ROOM,
{
    proof {
        lemma_known_names();
        reveal_strlit("br");
        lemma_visible_text("br");
        reveal_strlit("gzip");
        lemma_visible_text("gzip");
    }
    let ghost before = header_values(*hmap);
    weaken_etag(hmap);
    // The length is that of the compressed body, which the server works out.
    remove_name(hmap, "content-length");
    let token = match encoding {
        Encoding::Brotli => "br",
        _ => "gzip",
    };
    match insert_line(hmap, "content-encoding", vstd::slice::slice_to_vec(token.as_bytes())) {
        Ok(_) => Ok(()),
        Err(_) => {
            proof {
                lemma_finite_names(*old(hmap));
                lemma_len_subset(
                    weakened(before).remove("content-length".spec_bytes()).dom(),
                    before.dom(),
                );
            }
            Err(ResponseError::HeaderMapFull)
        },
    }
}

/// Whether a response with this data goes out through this writer and body.
pub open spec fn written_as<T, W, U, S, O, C>(
    data: Option<Vec<u8>>,
    compressing: bool,
    encoding: Encoding,
    open_compressed: O,
    open_channel: C,
    writer: HttpResponseWriter<T, W, U>,
    body: ResponseBody<S>,
) -> bool where O: FnOnce(Encoding) -> (W, S), C: FnOnce() -> (U, S) {
    match data {
        Some(data) => {
            &&& writer is Closed
            &&& body matches ResponseBody::Full(bytes)
            &&& if compressing {
                is_encoded(encoding, data@, bytes@)
            } else {
                bytes@ == data@
            }
        },
        None => {
            &&& body matches ResponseBody::Stream(stream)
            &&& if compressing {
                &&& writer matches HttpResponseWriter::Body(sink)
                &&& call_ensures(open_compressed, (encoding,), (sink, stream))
            } else {
                &&& writer matches HttpResponseWriter::BodyUncompressed(sink)
                &&& call_ensures(open_channel, (), (sink, stream))
            }
        },
    }
}

/// A body that was compressed as a whole leaves nothing to be written.
pub fn full_response<T, W, U, S>(encoded: Result<Vec<u8>, std::io::Error>) -> (r: Result<
    (HttpResponseWriter<T, W, U>, ResponseBody<S>),
    std::io::Error,
>)
    ensures
        match encoded {
            Ok(bytes) => r matches Ok((writer, body)) && writer is Closed && body
                == ResponseBody::<S>::Full(bytes),
            Err(error) => r == Err::<(HttpResponseWriter<T, W, U>, ResponseBody<S>), std::io::Error>(
                error,
            ),
        },
{
    match encoded {
        Ok(bytes) => Ok((HttpResponseWriter::Closed, ResponseBody::Full(bytes))),
        Err(error) => Err(error),
    }
}

/// The body of a response, and the writer that the rest of it goes through. A
/// body that is known as a whole leaves nothing to be written, and compressing
/// it succeeds without losing a byte. For one that is written later,
/// `open_compressed` and `open_channel` make the two ends.
pub fn http_response<T, W, U, S, O, C>(
    data: Option<Vec<u8>>,
    compressing: bool,
    encoding: Encoding,
    open_compressed: O,
    open_channel: C,
) -> (r: Result<(HttpResponseWriter<T, W, U>, ResponseBody<S>), std::io::Error>) where
    O: FnOnce(Encoding) -> (W, S),
    C: FnOnce() -> (U, S),

    requires
        compressing ==> encoding.compresses(),
        data is None && compressing ==> call_requires(open_compressed, (encoding,)),
        data is None && !compressing ==> call_requires(open_channel, ()),
    ensures
        r matches Ok((writer, body)) && written_as(
            data,
            compressing,
            encoding,
            open_compressed,
            open_channel,
            writer,
            body,
        ),
        compressing ==> (data matches Some(data) ==> {
            &&& r matches Ok((writer, body))
            &&& writer is Closed
            &&& body matches ResponseBody::Full(bytes)
            &&& decoded(encoding, bytes@) == Some(data@)
        }),
{
    match data {
        Some(data) => if compressing {
            full_response(encode(encoding, &data))
        } else {
            full_response(Ok(data))
        },
        None => if compressing {
            let (sink, stream) = open_compressed(encoding);
            Ok((HttpResponseWriter::Body(sink), ResponseBody::Stream(stream)))
        } else {
            let (sink, stream) = open_channel();
            Ok((HttpResponseWriter::BodyUncompressed(sink), ResponseBody::Stream(stream)))
        },
    }
}

/// Whether `status` is a status code: a number of three digits.
pub open spec fn is_status(status: u16) -> bool {
    100 <= status < 1000
}

/// `StatusCode::from_u16`: accepts numbers of three digits.
#[verifier::external_body]
fn parse_status(status: u16) -> (r: Result<u16, InvalidStatusCode>)
    ensures
        r is Ok <==> is_status(status),
        r matches Ok(code) ==> code == status,
{
    StatusCode::from_u16(status).map(|code| code.as_u16())
}

/// Puts a response together, given whether its body is compressed, and makes
/// the writer that the rest of the body goes through. The status is looked at
/// last.
pub fn assemble_response<T, W, U, S, O, C>(
    status: u16,
    headers: HeaderMap<HeaderValue>,
    data: Option<Vec<u8>>,
    compressing: bool,
    encoding: Encoding,
    open_compressed: O,
    open_channel: C,
) -> (r: Result<(HttpResponseWriter<T, W, U>, Response<S>), ResponseError>) where
    O: FnOnce(Encoding) -> (W, S),
    C: FnOnce() -> (U, S),

    requires
        compressing ==> encoding.compresses(),
        data is None && compressing ==> call_requires(open_compressed, (encoding,)),
        data is None && !compressing ==> call_requires(open_channel, ()),
    ensures
        r matches Ok((writer, response)) ==> {
            &&& is_status(status)
            &&& response.status == status
            &&& header_values(response.headers) == finished_head(
                header_values(headers),
                compressing,
                encoding,
            )
            &&& written_as(
                data,
                compressing,
                encoding,
                open_compressed,
                open_channel,
                writer,
                response.body,
            )
        },
        r matches Err(error) ==> match error {
            ResponseError::HeaderMapFull => {
                &&& compressing
                &&& name_count(header_values(headers)) > SURE_ROOM
            },
            ResponseError::Compression(_) => false,
            ResponseError::Status => !is_status(status),
            _ => false,
        },
{
    let mut hmap = headers;
    if compressing {
        match mark_compressed(&mut hmap, encoding) {
            Ok(_) => {},
            Err(error) => return Err(error),
        }
    }
    let (writer, body) = match http_response(
        data,
        compressing,
        encoding,
        open_compressed,
        open_channel,
    ) {
        Ok(parts) => parts,
        Err(error) => return Err(ResponseError::Compression(error)),
    };
    match parse_status(status) {
        Ok(status) => Ok((writer, Response { status, headers: hmap, body })),
        Err(_) => Err(ResponseError::Status),
    }
}

/// Puts the response to a request together from what a script hands over, and
/// makes the writer that the rest of the body goes through. `encoding` is the
/// coding that the client wants; `is_content_compressible` judges the content
/// type.
pub fn build_response<T, W, U, S, F, O, C>(
    encoding: Encoding,
    status: u16,
    headers: Vec<(Vec<u8>, Vec<u8>)>,
    data: Option<Vec<u8>>,
    is_content_compressible: F,
    open_compressed: O,
    open_channel: C,
) -> (r: Result<(HttpResponseWriter<T, W, U>, Response<S>), ResponseError>) where
    F: Fn(&[u8]) -> bool,
    O: FnOnce(Encoding) -> (W, S),
    C: FnOnce() -> (U, S),

    requires
        forall|content_type: &[u8]| call_requires(is_content_compressible, (content_type,)),
        data is None && encoding.compresses() ==> call_requires(open_compressed, (encoding,)),
        data is None ==> call_requires(open_channel, ()),
    ensures
        r matches Ok((writer, response)) ==> {
            &&& first_fault(line_views(headers@)) is None
            &&& is_status(status)
            &&& response.status == status
            &&& exists|compressing: bool|
                {
                    &&& #[trigger] compression_judged(
                        is_content_compressible,
                        encoding,
                        size_of(data),
                        varied(collected(line_views(headers@))),
                        compressing,
                    )
                    &&& header_values(response.headers) == finished_head(
                        varied(collected(line_views(headers@))),
                        compressing,
                        encoding,
                    )
                    &&& written_as(
                        data,
                        compressing,
                        encoding,
                        open_compressed,
                        open_channel,
                        writer,
                        response.body,
                    )
                }
        },
        r matches Err(error) ==> match error {
            ResponseError::HeaderName => first_fault(line_views(headers@)) == Some(LineFault::Name),
            ResponseError::HeaderValue => first_fault(line_views(headers@)) == Some(
                LineFault::Value,
            ),
            ResponseError::HeaderMapFull => {
                ||| headers@.len() + 2 > MAX_RESERVE
                ||| name_count(varied(collected(line_views(headers@)))) > SURE_ROOM
            },
            ResponseError::Compression(_) => false,
            ResponseError::Status => first_fault(line_views(headers@)) is None && !is_status(
                status,
            ),
        },
        headers@.len() + 2 > MAX_RESERVE ==> (r matches Err(error) && error is HeaderMapFull),
{
    proof {
        let lines = line_views(headers@);
        lemma_names_stay(lines, lines.len() as int);
        lemma_len_subset(collected(lines).dom(), varied(collected(lines)).dom());
    }
    let mut hmap = match response_headers(headers) {
        Ok(hmap) => hmap,
        Err(error) => return Err(error),
    };
    match ensure_vary_accept_encoding(&mut hmap) {
        Ok(_) => {},
        Err(error) => return Err(error),
    }
    let size: Option<usize> = match &data {
        Some(data) => Some(data.len()),
        None => None,
    };
    let compressing = decide_compression(encoding, size, &hmap, is_content_compressible);
    assemble_response(status, hmap, data, compressing, encoding, open_compressed, open_channel)
}

/// The size of a body that is known as a whole.
pub open spec fn size_of(data: Option<Vec<u8>>) -> Option<usize> {
    match data {
        Some(data) => Some(data.len()),
        None => None,
    }
}

/// The head of a compressed response names the coding, and only it, gives no
/// length, and has a weak entity tag where it has one.
pub proof fn law_compressed_head(values: Map<Seq<u8>, Seq<Seq<u8>>>, encoding: Encoding)
    requires
        has_values(values),
        encoding.compresses(),
    ensures
        encoding.token() matches Some(token) && compressed_head(
            values,
            encoding,
        )["content-encoding".spec_bytes()] == seq![token],
        !compressed_head(values, encoding).contains_key("content-length".spec_bytes()),
        values.contains_key("etag".spec_bytes()) ==> "W/".spec_bytes().is_prefix_of(
            compressed_head(values, encoding)["etag".spec_bytes()][0],
        ),
{
    lemma_names_differ();
    lemma_weak_tag_is_weak(values["etag".spec_bytes()][0]);
}

/// A response that was compressed is not compressed again.
pub proof fn law_compressed_once<F: Fn(&[u8]) -> bool>(
    is_content_compressible: F,
    values: Map<Seq<u8>, Seq<Seq<u8>>>,
    encoding: Encoding,
    again: Encoding,
    size: Option<usize>,
    verdict: bool,
)
    requires
        encoding.compresses(),
        compression_judged(
            is_content_compressible,
            again,
            size,
            compressed_head(values, encoding),
            verdict,
        ),
    ensures
        !verdict,
{
}

/// Of the header fields that a script hands over, a response changes `Vary`
/// and, where it is compressed, `ETag`, `Content-Length` and
/// `Content-Encoding`, and no others.
pub proof fn law_other_fields_stay(
    values: Map<Seq<u8>, Seq<Seq<u8>>>,
    compressing: bool,
    encoding: Encoding,
    name: Seq<u8>,
)
    requires
        name != "vary".spec_bytes(),
        compressing ==> name != "etag".spec_bytes() && name != "content-length".spec_bytes() && name
            != "content-encoding".spec_bytes(),
    ensures
        finished_head(varied(values), compressing, encoding).contains_key(name)
            <==> values.contains_key(name),
        values.contains_key(name) ==> finished_head(varied(values), compressing, encoding)[name]
            == values[name],
{
}

/// The `Vary` of every response lists `Accept-Encoding`, whether or not the body
/// is compressed.
pub proof fn law_responses_vary(
    values: Map<Seq<u8>, Seq<Seq<u8>>>,
    compressing: bool,
    encoding: Encoding,
)
    requires
        has_values(values),
    ensures
        finished_head(varied(values), compressing, encoding).contains_key("vary".spec_bytes()),
        lists(
            finished_head(varied(values), compressing, encoding)["vary".spec_bytes()][0],
            "accept-encoding".spec_bytes(),
        ),
{
    lemma_names_differ();
    law_vary_lists_accept_encoding(values);
}

/// The body of a response is the data of the script: as it is, or compressed so
/// that it decodes to the data.
pub proof fn law_body_is_the_data<T, W, U, S, O, C>(
    data: Vec<u8>,
    compressing: bool,
    encoding: Encoding,
    open_compressed: O,
    open_channel: C,
    writer: HttpResponseWriter<T, W, U>,
    body: ResponseBody<S>,
) where O: FnOnce(Encoding) -> (W, S), C: FnOnce() -> (U, S)
    requires
        written_as(Some(data), compressing, encoding, open_compressed, open_channel, writer, body),
    ensures
        body matches ResponseBody::Full(bytes) && (if compressing {
            decoded(encoding, bytes@) == Some(data@)
        } else {
            bytes@ == data@
        }),
        writer is Closed,
{
}

/// A writer that a response goes through has no head to send.
pub proof fn law_new_writers_hold_no_head<T, W, U, S, O, C>(
    data: Option<Vec<u8>>,
    compressing: bool,
    encoding: Encoding,
    open_compressed: O,
    open_channel: C,
    writer: HttpResponseWriter<T, W, U>,
    body: ResponseBody<S>,
) where O: FnOnce(Encoding) -> (W, S), C: FnOnce() -> (U, S)
    requires
        written_as(data, compressing, encoding, open_compressed, open_channel, writer, body),
    ensures
        !(writer.phase() is Headers),
        data is Some ==> writer.phase() is Closed,
{
}

/// What a script's header lines make up has a value under each of its names.
pub proof fn law_collected_has_values(lines: Seq<(Seq<u8>, Seq<u8>)>)
    ensures
        has_values(collected(lines)),
    decreases lines.len(),
{
    if lines.len() > 0 {
        law_collected_has_values(lines.drop_last());
    }
}

/// Header lines with their names in canonical form.
pub open spec fn canonical_lines(lines: Seq<(Seq<u8>, Seq<u8>)>) -> Seq<(Seq<u8>, Seq<u8>)> {
    Seq::new(lines.len(), |i: int| (canonical_name(lines[i].0), lines[i].1))
}

/// A header map that is made of a script's lines has under each name the values
/// of the lines that bear it, in order, however the script spelt the name.
pub proof fn law_collected_keeps_values(lines: Seq<(Seq<u8>, Seq<u8>)>, name: Seq<u8>)
    ensures
        collected(lines).contains_key(name) <==> values_named(canonical_lines(lines), name).len()
            > 0,
        collected(lines).contains_key(name) ==> collected(lines)[name] == values_named(
            canonical_lines(lines),
            name,
        ),
    decreases lines.len(),
{
    if lines.len() > 0 {
        law_collected_keeps_values(lines.drop_last(), name);
        assert(canonical_lines(lines).drop_last() =~= canonical_lines(lines.drop_last()));
        let earlier = values_named(canonical_lines(lines.drop_last()), name);
        if canonical_name(lines.last().0) == name && earlier.len() == 0 {
            assert(earlier.push(lines.last().1) =~= seq![lines.last().1]);
        }
    }
}

} // verus!
