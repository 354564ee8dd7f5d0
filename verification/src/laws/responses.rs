//! Putting a response together.

use hyper::header::{HeaderMap, HeaderValue};
use vstd::prelude::*;
use vstd::string::*;

use crate::fake_http::encoding::{
    brotli_decoded, encode, gzip_decoded, gzip_encoded, made_by_brotli, Encoding,
};
use crate::fake_http::error::ResponseError;
use crate::fake_http::header_map::{
    canonical_name, has_values, header_lines, header_values, is_field_name, is_field_value,
    lemma_visible_text, line_views,
};
use crate::fake_http::headers::{lemma_names_differ, varied, weakened};
use crate::fake_http::response::{
    assemble_response, build_response, collected, compressed_head, compression_judged,
    decide_compression, finished_head, first_fault, full_response, http_response,
    law_collected_has_values, mark_compressed, response_headers, size_of, LineFault, Response,
    ResponseBody,
};
use crate::fake_http::writer::HttpResponseWriter;

use super::headers::{
    first_is_weak, is_right_verdict, lemma_first_is_weak, lemma_vary_is_set, same_but, vary_is_set,
};

verus! {

/// Compressing succeeds, and a client that decodes the result gets the data
/// back. The bytes of gzip are those of its lowest level.
pub proof fn law_encoding(
    encoding: Encoding,
    data: &[u8],
    r: Result<Vec<u8>, std::io::Error>,
)
    requires
        call_ensures(encode, (encoding, data), r),
    ensures
        r is Ok,
        encoding is Brotli ==> (r matches Ok(body) && brotli_decoded(body@) == Some(data@)
            && made_by_brotli(data@, body@)),
        encoding is Gzip ==> (r matches Ok(body) && gzip_decoded(body@) == Some(data@) && body@
            == gzip_encoded(data@, 1)),
{
}

/// What is wrong with a header line comes to light at the first line that has a
/// fault, in its name before its value.
proof fn lemma_fault(lines: Seq<(Seq<u8>, Seq<u8>)>)
    ensures
        match first_fault(lines) {
            None => forall|i: int|
                0 <= i < lines.len() ==> is_field_name((#[trigger] lines[i]).0) && is_field_value(
                    lines[i].1,
                ),
            Some(LineFault::Name) => exists|i: int|
                0 <= i < lines.len() && !is_field_name((#[trigger] lines[i]).0) && all_good(lines, i),
            Some(LineFault::Value) => exists|i: int|
                0 <= i < lines.len() && is_field_name((#[trigger] lines[i]).0) && !is_field_value(
                    lines[i].1,
                ) && all_good(lines, i),
        },
    decreases lines.len(),
{
    if lines.len() > 0 {
        let earlier = lines.drop_last();
        let last = lines.len() - 1;
        lemma_fault(earlier);
        assert(lines[last] == lines.last());
        match first_fault(earlier) {
            None => {
                assert forall|i: int| 0 <= i < last implies is_field_name((#[trigger] lines[i]).0)
                    && is_field_value(lines[i].1) by {
                    assert(lines[i] == earlier[i]);
                }
                if !is_field_name(lines[last].0) || !is_field_value(lines[last].1) {
                    assert(all_good(lines, last));
                }
            },
            Some(LineFault::Name) => {
                let i = choose|i: int|
                    0 <= i < earlier.len() && !is_field_name((#[trigger] earlier[i]).0) && all_good(
                        earlier,
                        i,
                    );
                lemma_all_good(lines, i);
                assert(!is_field_name(lines[i].0) && all_good(lines, i));
            },
            Some(LineFault::Value) => {
                let i = choose|i: int|
                    0 <= i < earlier.len() && is_field_name((#[trigger] earlier[i]).0)
                        && !is_field_value(earlier[i].1) && all_good(earlier, i);
                lemma_all_good(lines, i);
                assert(is_field_name(lines[i].0) && !is_field_value(lines[i].1) && all_good(
                    lines,
                    i,
                ));
            },
        }
    }
}

proof fn lemma_all_good(lines: Seq<(Seq<u8>, Seq<u8>)>, n: int)
    requires
        0 <= n < lines.len(),
        all_good(lines.drop_last(), n),
    ensures
        all_good(lines, n),
{
    assert forall|i: int| 0 <= i < n implies is_field_name((#[trigger] lines[i]).0)
        && is_field_value(lines[i].1) by {
        assert(lines.drop_last()[i] == lines[i]);
    }
}

/// Whether each of the first `n` lines is a header: a field name and a field
/// value.
pub open spec fn all_good(lines: Seq<(Seq<u8>, Seq<u8>)>, n: int) -> bool {
    forall|i: int|
        0 <= i < n ==> is_field_name((#[trigger] lines[i]).0) && is_field_value(lines[i].1)
}

/// The values that a script gives for a field, in order, however it spells the
/// name.
pub open spec fn values_given(lines: Seq<(Seq<u8>, Seq<u8>)>, name: Seq<u8>) -> Seq<Seq<u8>> {
    lines.filter(|line: (Seq<u8>, Seq<u8>)| canonical_name(line.0) == name).map_values(
        |line: (Seq<u8>, Seq<u8>)| line.1,
    )
}

/// The fields that a script gives values for, with all their values.
pub open spec fn fields_given(lines: Seq<(Seq<u8>, Seq<u8>)>) -> Map<Seq<u8>, Seq<Seq<u8>>> {
    Map::new(
        |name: Seq<u8>| values_given(lines, name).len() > 0,
        |name: Seq<u8>| values_given(lines, name),
    )
}

/// The names of the fields that a script gives values for, in canonical form.
pub open spec fn names_given(lines: Seq<(Seq<u8>, Seq<u8>)>) -> Set<Seq<u8>> {
    lines.map_values(|line: (Seq<u8>, Seq<u8>)| canonical_name(line.0)).to_set()
}

proof fn lemma_values_collected(lines: Seq<(Seq<u8>, Seq<u8>)>, name: Seq<u8>)
    ensures
        collected(lines).contains_key(name) <==> values_given(lines, name).len() > 0,
        collected(lines).contains_key(name) ==> collected(lines)[name] == values_given(
            lines,
            name,
        ),
        collected(lines).contains_key(name) <==> names_given(lines).contains(name),
    decreases lines.len(),
{
    reveal(Seq::filter);
    let named = |line: (Seq<u8>, Seq<u8>)| canonical_name(line.0) == name;
    let value = |line: (Seq<u8>, Seq<u8>)| line.1;
    let canonical = |line: (Seq<u8>, Seq<u8>)| canonical_name(line.0);
    let names = lines.map_values(canonical);
    if lines.len() == 0 {
        assert(values_given(lines, name) =~= Seq::empty());
    } else {
        let earlier = lines.drop_last();
        lemma_values_collected(earlier, name);
        let rest = earlier.filter(named);
        let before = values_given(earlier, name);
        assert(rest.push(lines.last()).map_values(value) =~= before.push(lines.last().1));
        if before.len() == 0 {
            assert(before.push(lines.last().1) =~= seq![lines.last().1]);
        }
        let earlier_names = earlier.map_values(canonical);
        assert(names =~= earlier_names.push(canonical_name(lines.last().0)));
        if earlier_names.contains(name) {
            let i = choose|i: int| 0 <= i < earlier_names.len() && earlier_names[i] == name;
            assert(names[i] == name);
        }
        assert(names[lines.len() - 1] == canonical_name(lines.last().0));
        if names.contains(name) && canonical_name(lines.last().0) != name {
            let i = choose|i: int| 0 <= i < names.len() && names[i] == name;
            assert(earlier_names[i] == name);
        }
    }
}

proof fn lemma_collected(lines: Seq<(Seq<u8>, Seq<u8>)>)
    ensures
        collected(lines) == fields_given(lines),
        collected(lines).dom() == names_given(lines),
{
    assert forall|name: Seq<u8>| collected(lines).contains_key(name) <==> fields_given(
        lines,
    ).contains_key(name) by {
        lemma_values_collected(lines, name);
    }
    assert forall|name: Seq<u8>| collected(lines).contains_key(name) implies collected(lines)[name]
        == fields_given(lines)[name] by {
        lemma_values_collected(lines, name);
    }
    assert forall|name: Seq<u8>| collected(lines).dom().contains(name) <==> names_given(
        lines,
    ).contains(name) by {
        lemma_values_collected(lines, name);
    }
    assert(collected(lines) =~= fields_given(lines));
    assert(collected(lines).dom() =~= names_given(lines));
}

/// Whether it is right to answer `error` to a script that hands over `lines`, of
/// the errors that concern them. `names` are those that the map is to hold.
pub open spec fn is_right_fault(
    lines: Seq<(Seq<u8>, Seq<u8>)>,
    names: Set<Seq<u8>>,
    error: ResponseError,
) -> bool {
    match error {
        ResponseError::HeaderName => exists|i: int|
            0 <= i < lines.len() && !is_field_name((#[trigger] lines[i]).0) && all_good(lines, i),
        ResponseError::HeaderValue => exists|i: int|
            0 <= i < lines.len() && is_field_name((#[trigger] lines[i]).0) && !is_field_value(
                lines[i].1,
            ) && all_good(lines, i),
        ResponseError::HeaderMapFull => lines.len() + 2 > 32768 || names.len() > 6553,
        _ => false,
    }
}

/// The header map of a response holds every line that the script hands over: under
/// each name the values of the lines that bear it, in order. It is refused at the
/// first line that is not a header, or where there are too many lines or names.
pub proof fn law_header_map(
    headers: Vec<(Vec<u8>, Vec<u8>)>,
    r: Result<HeaderMap<HeaderValue>, ResponseError>,
)
    requires
        call_ensures(response_headers, (headers,), r),
    ensures
        ({
            let lines = line_views(headers@);
            match r {
                Ok(map) => {
                    &&& all_good(lines, lines.len() as int)
                    &&& lines.len() + 2 <= 32768
                    &&& header_values(map) == fields_given(lines)
                    &&& header_lines(map).len() == lines.len()
                },
                Err(error) => is_right_fault(lines, names_given(lines), error),
            }
        }),
{
    let lines = line_views(headers@);
    lemma_fault(lines);
    lemma_collected(lines);
}

/// Whether it is right to decide so about compressing a body of this size, or
/// one that is streamed. A coding that does not compress, or a body of at most
/// 20 bytes, speaks against it.
pub open spec fn is_right_decision<F: Fn(&[u8]) -> bool>(
    encoding: Encoding,
    size: Option<usize>,
    values: Map<Seq<u8>, Seq<Seq<u8>>>,
    is_content_compressible: F,
    compressing: bool,
) -> bool {
    if (encoding is Brotli || encoding is Gzip) && (size matches Some(len) ==> len > 20) {
        is_right_verdict(is_content_compressible, values, compressing)
    } else {
        !compressing
    }
}

/// A body is compressed only where the client takes a coding that compresses and
/// the body is streamed or longer than 20 bytes; there it is, streamed or not,
/// exactly where the headers allow it and the content type is worth it.
pub proof fn law_compression_is_decided<F: Fn(&[u8]) -> bool>(
    encoding: Encoding,
    size: Option<usize>,
    headers: &HeaderMap<HeaderValue>,
    is_content_compressible: F,
    r: bool,
)
    requires
        call_ensures(
            decide_compression::<F>,
            (encoding, size, headers, is_content_compressible),
            r,
        ),
    ensures
        is_right_decision(
            encoding,
            size,
            header_values(*headers),
            is_content_compressible,
            r,
        ),
{
}

/// Whether `after` is the head of a response that was given the fields `before`
/// and whose body is compressed: it names the coding and no other, gives no
/// length, and has a weak entity tag where it has one. Nothing else is changed,
/// except perhaps `Vary`.
pub open spec fn is_compressed_head(
    before: Map<Seq<u8>, Seq<Seq<u8>>>,
    encoding: Encoding,
    after: Map<Seq<u8>, Seq<Seq<u8>>>,
) -> bool {
    let coding = "content-encoding".spec_bytes();
    let length = "content-length".spec_bytes();
    let tag = "etag".spec_bytes();
    &&& after.contains_key(coding)
    &&& encoding is Brotli ==> after[coding] == seq!["br".spec_bytes()]
    &&& encoding is Gzip ==> after[coding] == seq!["gzip".spec_bytes()]
    &&& !after.contains_key(length)
    &&& after.contains_key(tag) <==> before.contains_key(tag)
    &&& before.contains_key(tag) ==> first_is_weak(before[tag], after[tag])
    &&& same_but(before, after, set![coding, length, tag, "vary".spec_bytes()])
}

proof fn lemma_compressed_head(values: Map<Seq<u8>, Seq<Seq<u8>>>, encoding: Encoding)
    requires
        has_values(values),
        encoding is Brotli || encoding is Gzip,
    ensures
        is_compressed_head(values, encoding, compressed_head(values, encoding)),
        compressed_head(values, encoding).contains_key("vary".spec_bytes())
            <==> values.contains_key("vary".spec_bytes()),
        values.contains_key("vary".spec_bytes()) ==> compressed_head(
            values,
            encoding,
        )["vary".spec_bytes()] == values["vary".spec_bytes()],
{
    lemma_names_differ();
    if values.contains_key("etag".spec_bytes()) {
        lemma_first_is_weak(values);
    }
}

/// The head of a response whose body is compressed says so, and says nothing
/// that no longer holds. It fails only where the map is full of names.
pub proof fn law_compressed_responses_say_so(
    hmap: &mut HeaderMap<HeaderValue>,
    encoding: Encoding,
    r: Result<(), ResponseError>,
)
    requires
        call_ensures(mark_compressed, (hmap, encoding), r),
        encoding is Brotli || encoding is Gzip,
    ensures
        ({
            let before = header_values(*old(hmap));
            let after = header_values(*final(hmap));
            let vary = "vary".spec_bytes();
            match r {
                Ok(_) => {
                    &&& is_compressed_head(before, encoding, after)
                    &&& after.contains_key(vary) <==> before.contains_key(vary)
                    &&& before.contains_key(vary) ==> after[vary] == before[vary]
                },
                Err(error) => error is HeaderMapFull && before.dom().len() > 6553,
            }
        }),
{
    lemma_compressed_head(header_values(*hmap), encoding);
}

/// Whether a response with this data goes out right through this writer and
/// body. Data that is known as a whole leaves nothing to be written: the body is
/// the data, or decodes to it. Otherwise the body comes out of what the writer
/// goes into, which compresses exactly where it should.
pub open spec fn goes_out_right<T, W, U, S, O, C>(
    data: Option<Vec<u8>>,
    compressing: bool,
    encoding: Encoding,
    open_compressed: O,
    open_channel: C,
    writer: HttpResponseWriter<T, W, U>,
    body: ResponseBody<S>,
) -> bool where O: FnOnce(Encoding) -> (W, S), C: FnOnce() -> (U, S) {
    match (data, body) {
        (Some(data), ResponseBody::Full(bytes)) => {
            &&& writer is Closed
            &&& !compressing ==> bytes@ == data@
            &&& compressing && encoding is Brotli ==> brotli_decoded(bytes@) == Some(data@)
                && made_by_brotli(data@, bytes@)
            &&& compressing && encoding is Gzip ==> gzip_decoded(bytes@) == Some(data@) && bytes@
                == gzip_encoded(data@, 1)
        },
        (None, ResponseBody::Stream(stream)) => match writer {
            HttpResponseWriter::Body(sink) => compressing && call_ensures(
                open_compressed,
                (encoding,),
                (sink, stream),
            ),
            HttpResponseWriter::BodyUncompressed(sink) => !compressing && call_ensures(
                open_channel,
                (),
                (sink, stream),
            ),
            _ => false,
        },
        _ => false,
    }
}

/// A body that was compressed as a whole goes out as it is, with nothing left to
/// be written; a failure is passed on.
pub proof fn law_full_response<T, W, U, S>(
    encoded: Result<Vec<u8>, std::io::Error>,
    r: Result<(HttpResponseWriter<T, W, U>, ResponseBody<S>), std::io::Error>,
)
    requires
        call_ensures(full_response::<T, W, U, S>, (encoded,), r),
    ensures
        r is Ok <==> encoded is Ok,
        encoded matches Ok(bytes) ==> (r matches Ok((writer, body)) && writer is Closed && body
            == ResponseBody::<S>::Full(bytes)),
        encoded matches Err(error) ==> (r matches Err(given) && given == error),
{
}

/// A response always has a body to go out with, and it goes out right.
pub proof fn law_response_goes_out<T, W, U, S, O, C>(
    data: Option<Vec<u8>>,
    compressing: bool,
    encoding: Encoding,
    open_compressed: O,
    open_channel: C,
    r: Result<(HttpResponseWriter<T, W, U>, ResponseBody<S>), std::io::Error>,
) where O: FnOnce(Encoding) -> (W, S), C: FnOnce() -> (U, S)
    requires
        call_ensures(
            http_response::<T, W, U, S, O, C>,
            (data, compressing, encoding, open_compressed, open_channel),
            r,
        ),
    ensures
        r matches Ok((writer, body)) && goes_out_right(
            data,
            compressing,
            encoding,
            open_compressed,
            open_channel,
            writer,
            body,
        ),
{
}

/// A response bears the status and the head that it was given, changed only as
/// far as compressing calls for it, and goes out right. It fails only over a
/// status without three digits, or a map that is full of names.
pub proof fn law_response_is_assembled<T, W, U, S, O, C>(
    status: u16,
    headers: HeaderMap<HeaderValue>,
    data: Option<Vec<u8>>,
    compressing: bool,
    encoding: Encoding,
    open_compressed: O,
    open_channel: C,
    r: Result<(HttpResponseWriter<T, W, U>, Response<S>), ResponseError>,
) where O: FnOnce(Encoding) -> (W, S), C: FnOnce() -> (U, S)
    requires
        call_ensures(
            assemble_response::<T, W, U, S, O, C>,
            (status, headers, data, compressing, encoding, open_compressed, open_channel),
            r,
        ),
        compressing ==> encoding is Brotli || encoding is Gzip,
    ensures
        match r {
            Ok((writer, response)) => {
                &&& 100 <= status <= 999
                &&& response.status == status
                &&& !compressing ==> header_values(response.headers) == header_values(headers)
                &&& compressing ==> is_compressed_head(
                    header_values(headers),
                    encoding,
                    header_values(response.headers),
                )
                &&& goes_out_right(
                    data,
                    compressing,
                    encoding,
                    open_compressed,
                    open_channel,
                    writer,
                    response.body,
                )
            },
            Err(error) => {
                ||| error is Status && !(100 <= status <= 999)
                ||| error is HeaderMapFull && compressing && header_values(headers).dom().len()
                    > 6553
            },
        },
{
    if compressing {
        lemma_compressed_head(header_values(headers), encoding);
    }
}

proof fn lemma_fields_differ()
    ensures
        "vary".spec_bytes() != "content-range".spec_bytes(),
        "vary".spec_bytes() != "content-type".spec_bytes(),
        "vary".spec_bytes() != "cache-control".spec_bytes(),
{
    reveal_strlit("vary");
    lemma_visible_text("vary");
    reveal_strlit("content-range");
    lemma_visible_text("content-range");
    reveal_strlit("content-type");
    lemma_visible_text("content-type");
    reveal_strlit("cache-control");
    lemma_visible_text("cache-control");
}

/// A response is made of what the script hands over. It bears the status; its
/// head holds all the fields with all their values, and a `Vary` that has
/// `Accept-Encoding` as one of its parts. The body is compressed exactly where
/// the client takes a coding that compresses, the body is streamed or longer
/// than 20 bytes, the headers allow it and the content type is worth it; the
/// head then says so. Either way the body is the data.
pub proof fn law_response<T, W, U, S, F, O, C>(
    encoding: Encoding,
    status: u16,
    headers: Vec<(Vec<u8>, Vec<u8>)>,
    data: Option<Vec<u8>>,
    is_content_compressible: F,
    open_compressed: O,
    open_channel: C,
    writer: HttpResponseWriter<T, W, U>,
    response: Response<S>,
) where
    F: Fn(&[u8]) -> bool,
    O: FnOnce(Encoding) -> (W, S),
    C: FnOnce() -> (U, S),

    requires
        call_ensures(
            build_response::<T, W, U, S, F, O, C>,
            (
                encoding,
                status,
                headers,
                data,
                is_content_compressible,
                open_compressed,
                open_channel,
            ),
            Ok((writer, response)),
        ),
    ensures
        ({
            let lines = line_views(headers@);
            let given = fields_given(lines);
            let sent = header_values(response.headers);
            &&& all_good(lines, lines.len() as int)
            &&& 100 <= status <= 999
            &&& response.status == status
            &&& vary_is_set(given, sent)
            &&& exists|size: Option<usize>, compressing: bool|
                {
                    &&& match data {
                        Some(data) => size matches Some(len) && len == data@.len(),
                        None => size is None,
                    }
                    &&& #[trigger] is_right_decision(
                        encoding,
                        size,
                        given,
                        is_content_compressible,
                        compressing,
                    )
                    &&& compressing ==> is_compressed_head(given, encoding, sent)
                    &&& !compressing ==> same_but(given, sent, set!["vary".spec_bytes()])
                    &&& goes_out_right(
                        data,
                        compressing,
                        encoding,
                        open_compressed,
                        open_channel,
                        writer,
                        response.body,
                    )
                }
        }),
{
    let lines = line_views(headers@);
    let given = fields_given(lines);
    lemma_fault(lines);
    lemma_collected(lines);
    law_collected_has_values(lines);
    lemma_vary_is_set(given);
    lemma_names_differ();
    lemma_fields_differ();
    let values = varied(given);
    let compressing = choose|compressing: bool|
        {
            &&& #[trigger] compression_judged(
                is_content_compressible,
                encoding,
                size_of(data),
                values,
                compressing,
            )
            &&& header_values(response.headers) == finished_head(values, compressing, encoding)
            &&& goes_out_right(
                data,
                compressing,
                encoding,
                open_compressed,
                open_channel,
                writer,
                response.body,
            )
        };
    assert(has_values(values));
    if compressing {
        lemma_compressed_head(values, encoding);
    }
    assert(compression_judged(
        is_content_compressible,
        encoding,
        size_of(data),
        given,
        compressing,
    ));
    assert(is_right_decision(
        encoding,
        size_of(data),
        given,
        is_content_compressible,
        compressing,
    ));
}

/// A response is refused at the first line that is not a header, over a status
/// without three digits, or where there are too many lines or names, and for no
/// other reason.
pub proof fn law_response_is_refused<T, W, U, S, F, O, C>(
    encoding: Encoding,
    status: u16,
    headers: Vec<(Vec<u8>, Vec<u8>)>,
    data: Option<Vec<u8>>,
    is_content_compressible: F,
    open_compressed: O,
    open_channel: C,
    r: Result<(HttpResponseWriter<T, W, U>, Response<S>), ResponseError>,
) where
    F: Fn(&[u8]) -> bool,
    O: FnOnce(Encoding) -> (W, S),
    C: FnOnce() -> (U, S),

    requires
        call_ensures(
            build_response::<T, W, U, S, F, O, C>,
            (
                encoding,
                status,
                headers,
                data,
                is_content_compressible,
                open_compressed,
                open_channel,
            ),
            r,
        ),
    ensures
        ({
            let lines = line_views(headers@);
            let names = names_given(lines).insert("vary".spec_bytes());
            &&& lines.len() + 2 > 32768 ==> (r matches Err(error) && error is HeaderMapFull)
            &&& r matches Err(error) ==> {
                ||| is_right_fault(lines, names, error)
                ||| error is Status && all_good(lines, lines.len() as int) && !(100 <= status
                    <= 999)
            }
        }),
{
    let lines = line_views(headers@);
    lemma_fault(lines);
    lemma_collected(lines);
    assert(varied(collected(lines)).dom() =~= names_given(lines).insert("vary".spec_bytes()));
}

} // verus!
