//! Handing a request to a script.

use hyper::header::{HeaderMap, HeaderValue};
use vstd::prelude::*;
use vstd::string::*;
use vstd::utf8::*;

use crate::fake_http::encoding::Encoding;
use crate::fake_http::header_map::{header_values, is_visible};
use crate::fake_http::request::{
    build_http_stream_resource, req_url, request_host, HttpRequestReader,
    HttpStreamReadResource, HttpStreamWriteResource, Request,
};
use crate::fake_http::writer::HttpResponseWriter;

verus! {

/// A request is addressed to what its first `Host` field says, where that is
/// plain text, and to this machine where it has none.
pub proof fn law_host(headers: &HeaderMap<HeaderValue>, r: Option<String>)
    requires
        call_ensures(request_host, (headers,), r),
    ensures
        !header_values(*headers).contains_key("host".spec_bytes()) ==> (r matches Some(host)
            && host@ == "127.0.0.1"@),
        header_values(*headers).contains_key("host".spec_bytes()) ==> {
            let value = header_values(*headers)["host".spec_bytes()][0];
            &&& r is Some <==> is_visible(value)
            &&& r matches Some(host) ==> host@ == decode_utf8(value)
        },
{
}

/// The URL of a request is made of the scheme, the host that `request_host`
/// names, and the path, which is the root where the request has none.
pub proof fn law_url<B>(
    request: Request<B>,
    scheme: &str,
    host: Option<String>,
    r: String,
)
    requires
        call_ensures(request_host, (&request.headers,), host),
        call_ensures(req_url::<B>, (&request, scheme), r),
        host is Some,
    ensures
        host matches Some(host) && r@ == scheme@ + "://"@ + host@ + (match request.path_and_query {
            Some(path) => path@,
            None => "/"@,
        }),
{
}

/// A request becomes a stream: its read half holds the request as it came, its
/// write half what the response is sent through and the coding that the headers
/// of the request were negotiated to; beside them stand method and URL.
pub proof fn law_request_becomes_a_stream<B, E, T, W, U, F, P, Q, X>(
    scheme: &str,
    request: Request<B>,
    response_tx: T,
    encodings: F,
    preferred: P,
    host: Option<String>,
    r: (HttpStreamReadResource<B, E>, HttpStreamWriteResource<T, W, U>, String, String),
) where
    F: FnOnce(&HeaderMap<HeaderValue>) -> Vec<Result<(Option<Encoding>, Q), X>>,
    P: FnOnce(Vec<Result<(Option<Encoding>, Q), X>>) -> Result<Option<Encoding>, X>,

    requires
        call_ensures(
            build_http_stream_resource::<B, E, T, W, U, F, P, Q, X>,
            (scheme, request, response_tx, encodings, preferred),
            r,
        ),
        call_ensures(request_host, (&request.headers,), host),
        host is Some,
    ensures
        r.0.rd == HttpRequestReader::<B, E>::Headers(request),
        r.0.size == request.size,
        r.1.wr == HttpResponseWriter::<T, W, U>::Headers(response_tx),
        r.2@ == request.method@,
        host matches Some(host) && r.3@ == scheme@ + "://"@ + host@ + (
        match request.path_and_query {
            Some(path) => path@,
            None => "/"@,
        }),
        exists|
            parsed: Vec<Result<(Option<Encoding>, Q), X>>,
            offers: Vec<Result<(Option<Encoding>, Q), X>>,
            choice: Result<Option<Encoding>, X>,
        |
            {
                &&& #[trigger] call_ensures(encodings, (&request.headers,), parsed)
                &&& offers@ == parsed@.filter(
                    |offer: Result<(Option<Encoding>, Q), X>|
                        offer matches Ok((Some(coding), _)) && (coding is Brotli || coding is Gzip),
                )
                &&& #[trigger] call_ensures(preferred, (offers,), choice)
                &&& choice matches Ok(Some(coding)) ==> r.1.accept_encoding == coding
                &&& !(choice matches Ok(Some(_))) ==> r.1.accept_encoding is Identity
            },
{
    super::negotiation::lemma_counting_offers::<Q, X>();
}

/// The write half of a stream starts with the head still to be sent.
pub proof fn law_write_half<T, W, U>(
    response_tx: T,
    accept_encoding: Encoding,
    r: HttpStreamWriteResource<T, W, U>,
    name: &'static str,
)
    requires
        call_ensures(
            HttpStreamWriteResource::<T, W, U>::new,
            (response_tx, accept_encoding),
            r,
        ),
        call_ensures(HttpStreamWriteResource::<T, W, U>::name, (&r,), name),
    ensures
        r.wr == HttpResponseWriter::<T, W, U>::Headers(response_tx),
        r.accept_encoding == accept_encoding,
        name@ == "httpWriteStream"@,
{
}

} // verus!
