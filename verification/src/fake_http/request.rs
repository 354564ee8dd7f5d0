//! A request and the two halves of the stream that it is served through.

use hyper::body::Bytes;
use hyper::header::{HeaderMap, HeaderValue};
use vstd::prelude::*;
use vstd::string::*;
use vstd::utf8::*;

use super::body::{
    after_arrival, after_read, item_view, read_outcome, Ahead, PeekableBody, ReadStep,
};
use super::encoding::{chosen_encoding, compressible_offers, offers_compression, Encoding};
use super::header_map::{
    first_under, first_value, header_lines, header_values, is_visible, lemma_known_names,
    line_views, value_text,
};
use super::headers::{req_headers, request_lines};
use super::writer::HttpResponseWriter;
use crate::place::replace;

verus! {

/// A request, as far as the crate looks into it. The body belongs to the
/// runtime.
pub struct Request<B> {
    pub method: String,
    /// The path of the URI, with the query where there is one. Not every form
    /// of a URI has a path.
    pub path_and_query: Option<String>,
    pub headers: HeaderMap<HeaderValue>,
    /// A lower and, where it is known, an upper bound of the size of the body.
    pub size: (u64, Option<u64>),
    pub body: B,
}

/// A request, and what the response to it is to be sent through.
pub struct RequestContext<B, T> {
    pub request: Request<B>,
    pub response_tx: T,
}

/// The read half of an HTTP stream.
pub enum HttpRequestReader<B, E> {
    /// The body was not touched yet.
    Headers(Request<B>),
    /// The body is being read.
    Body(HeaderMap<HeaderValue>, PeekableBody<B, E>),
    Closed,
}

impl<B, E> Default for HttpRequestReader<B, E> {
    fn default() -> (r: Self)
        ensures
            r is Closed,
    {
        HttpRequestReader::Closed
    }
}

impl<B, E> HttpRequestReader<B, E> {
    /// What is known of the part of the body that no reader has got yet. A
    /// closed reader has nothing left.
    pub open spec fn ahead(self) -> Ahead<E> {
        match self {
            HttpRequestReader::Headers(_) => Ahead::Unknown,
            HttpRequestReader::Body(_, body) => body.ahead@,
            HttpRequestReader::Closed => Ahead::End,
        }
    }

    /// The headers of the request, which a closed reader has given up.
    pub open spec fn request_headers(self) -> Option<HeaderMap<HeaderValue>> {
        match self {
            HttpRequestReader::Headers(request) => Some(request.headers),
            HttpRequestReader::Body(headers, _) => Some(headers),
            HttpRequestReader::Closed => None,
        }
    }

    /// Where the body comes from, which a closed reader has given up.
    pub open spec fn source(self) -> Option<B> {
        match self {
            HttpRequestReader::Headers(request) => Some(request.body),
            HttpRequestReader::Body(_, body) => Some(body.stream),
            HttpRequestReader::Closed => None,
        }
    }

    /// Turns to the body, where that was not done before.
    fn open_body(&mut self)
        ensures
            !(*final(self) is Headers),
            *old(self) is Closed <==> *final(self) is Closed,
            final(self).ahead() == old(self).ahead(),
            final(self).request_headers() == old(self).request_headers(),
            final(self).source() == old(self).source(),
    {
        match replace(self, HttpRequestReader::Closed) {
            HttpRequestReader::Headers(request) => {
                *self = HttpRequestReader::Body(request.headers, PeekableBody::new(request.body));
            },
            other => {
                *self = other;
            },
        }
    }

    /// Reads at most `limit` bytes of the body. Reading closes no reader and
    /// keeps the headers, so they can be listed at any time.
    pub fn read_step(&mut self, limit: usize) -> (r: ReadStep<E>)
        ensures
            r@ == read_outcome(old(self).ahead(), limit as nat),
            final(self).ahead() == after_read(old(self).ahead(), limit as nat),
            final(self).request_headers() == old(self).request_headers(),
            final(self).source() == old(self).source(),
            *final(self) is Closed <==> *old(self) is Closed,
            !(*final(self) is Headers),
    {
        self.open_body();
        match self {
            HttpRequestReader::Body(_, body) => body.read_step(limit),
            _ => ReadStep::End,
        }
    }

    /// Takes note of what the source of the body yielded when it was asked.
    pub fn arrive(&mut self, item: Option<Result<Bytes, E>>)
        requires
            *old(self) is Body,
            old(self).ahead() is Unknown,
        ensures
            *final(self) is Body,
            final(self).ahead() == after_arrival(item_view(item)),
            final(self).request_headers() == old(self).request_headers(),
            final(self).source() == old(self).source(),
    {
        if let HttpRequestReader::Body(_, body) = self {
            body.arrive(item);
        }
    }

    /// The header lines of the request as a script sees them.
    pub fn header_list(&self) -> (r: Vec<(Vec<u8>, Vec<u8>)>)
        requires
            !(self is Closed),
        ensures
            line_views(r@) == request_lines(header_lines(self.request_headers()->0)),
    {
        match self {
            HttpRequestReader::Headers(request) => req_headers(&request.headers),
            HttpRequestReader::Body(headers, _) => req_headers(headers),
            HttpRequestReader::Closed => Vec::new(),
        }
    }
}

/// A resource that reads the body of a request.
pub struct HttpStreamReadResource<B, E> {
    pub rd: HttpRequestReader<B, E>,
    /// The bounds on the size of the body that the request came with.
    pub size: (u64, Option<u64>),
}

impl<B, E> HttpStreamReadResource<B, E> {
    /// The read half of a request that was just received.
    pub fn new(request: Request<B>) -> (r: Self)
        ensures
            r.rd == HttpRequestReader::<B, E>::Headers(request),
            r.size == request.size,
    {
        let size = request.size;
        HttpStreamReadResource { rd: HttpRequestReader::Headers(request), size }
    }

    /// What the resource is called.
    pub fn name(&self) -> (r: &'static str)
        ensures
            r@ == "httpReadStream"@,
    {
        "httpReadStream"
    }

    /// The bounds on the size of the body that the request came with, however
    /// much of it was read since.
    pub fn size_hint(&self) -> (r: (u64, Option<u64>))
        ensures
            r == self.size,
    {
        self.size
    }
}

/// A resource that writes the response to a request.
pub struct HttpStreamWriteResource<T, W, U> {
    pub wr: HttpResponseWriter<T, W, U>,
    /// The coding that the client wants the body in.
    pub accept_encoding: Encoding,
}

impl<T, W, U> HttpStreamWriteResource<T, W, U> {
    /// The write half of a request that was just received.
    pub fn new(response_tx: T, accept_encoding: Encoding) -> (r: Self)
        ensures
            r.wr == HttpResponseWriter::<T, W, U>::Headers(response_tx),
            r.accept_encoding == accept_encoding,
    {
        HttpStreamWriteResource { wr: HttpResponseWriter::Headers(response_tx), accept_encoding }
    }

    /// What the resource is called.
    pub fn name(&self) -> (r: &'static str)
        ensures
            r@ == "httpWriteStream"@,
    {
        "httpWriteStream"
    }
}

/// Whether the `Host` field, where there is one, is plain text.
pub open spec fn readable_host(values: Map<Seq<u8>, Seq<Seq<u8>>>) -> bool {
    match first_under(values, "host".spec_bytes()) {
        Some(host) => is_visible(host),
        None => true,
    }
}

/// The host that a request is addressed to.
pub open spec fn host_of(values: Map<Seq<u8>, Seq<Seq<u8>>>) -> Seq<char> {
    match first_under(values, "host".spec_bytes()) {
        Some(host) => decode_utf8(host),
        None => "127.0.0.1"@,
    }
}

/// The URL of a request.
pub open spec fn url_of<B>(request: Request<B>, scheme: Seq<char>) -> Seq<char> {
    let path = match request.path_and_query {
        Some(path) => path@,
        None => "/"@,
    };
    scheme + "://"@ + host_of(header_values(request.headers)) + path
}

/// The host that a request is addressed to, where its `Host` field can be read.
pub fn request_host(headers: &HeaderMap<HeaderValue>) -> (r: Option<String>)
    ensures
        r is Some <==> readable_host(header_values(*headers)),
        r matches Some(host) ==> host@ == host_of(header_values(*headers)),
{
    proof {
        lemma_known_names();
    }
    match first_value(headers, "host") {
        Some(host) => match value_text(host) {
            Ok(text) => Some(text),
            Err(_) => None,
        },
        None => Some("127.0.0.1".to_string()),
    }
}

/// The URL of a request. Its `Host` field has to be plain text: `request_host`
/// tells whether it is.
pub fn req_url<B>(req: &Request<B>, scheme: &str) -> (r: String)
    requires
        readable_host(header_values(req.headers)),
    ensures
        r@ == url_of(*req, scheme@),
{
    let host = match request_host(&req.headers) {
        Some(host) => host,
        None => String::new(),
    };
    let mut url = scheme.to_string();
    url.append("://");
    url.append(host.as_str());
    match &req.path_and_query {
        Some(path) => url.append(path.as_str()),
        None => url.append("/"),
    }
    url
}

/// Whether `encoding` is a coding that `preferred` may pick from what a parsed
/// `Accept-Encoding` field offers.
pub open spec fn negotiated<Q, X, P>(
    parsed: Seq<Result<(Option<Encoding>, Q), X>>,
    preferred: P,
    encoding: Encoding,
) -> bool where
    P: FnOnce(Vec<Result<(Option<Encoding>, Q), X>>) -> Result<Option<Encoding>, X>,
 {
    exists|offers: Vec<Result<(Option<Encoding>, Q), X>>, choice: Result<Option<Encoding>, X>|
        {
            &&& offers@ == parsed.filter(
                |offer: Result<(Option<Encoding>, Q), X>| offers_compression(offer),
            )
            &&& #[trigger] call_ensures(preferred, (offers,), choice)
            &&& encoding == (match choice {
                Ok(Some(encoding)) => encoding,
                _ => Encoding::Identity,
            })
        }
}

/// Whether `encoding` is a coding for the response to a request with these
/// headers: one that `preferred` may pick from what `encodings` reads out of
/// them.
pub open spec fn negotiated_from<F, P, Q, X>(
    headers: HeaderMap<HeaderValue>,
    encodings: F,
    preferred: P,
    encoding: Encoding,
) -> bool where
    F: FnOnce(&HeaderMap<HeaderValue>) -> Vec<Result<(Option<Encoding>, Q), X>>,
    P: FnOnce(Vec<Result<(Option<Encoding>, Q), X>>) -> Result<Option<Encoding>, X>,
 {
    exists|parsed: Vec<Result<(Option<Encoding>, Q), X>>|
        #[trigger] call_ensures(encodings, (&headers,), parsed) && negotiated(
            parsed@,
            preferred,
            encoding,
        )
}

/// The coding of the response to a request with these headers. `encodings` reads
/// their `Accept-Encoding` field, and `preferred` picks a coding from the offers.
pub fn negotiate<F, P, Q, X>(
    headers: &HeaderMap<HeaderValue>,
    encodings: F,
    preferred: P,
) -> (r: Encoding) where
    F: FnOnce(&HeaderMap<HeaderValue>) -> Vec<Result<(Option<Encoding>, Q), X>>,
    P: FnOnce(Vec<Result<(Option<Encoding>, Q), X>>) -> Result<Option<Encoding>, X>,

    requires
        call_requires(encodings, (headers,)),
        forall|offers: Vec<Result<(Option<Encoding>, Q), X>>| call_requires(preferred, (offers,)),
    ensures
        negotiated_from(*headers, encodings, preferred, r),
{
    let parsed = encodings(headers);
    let ghost given = parsed;
    let encoding = chosen_encoding(preferred(compressible_offers(parsed)));
    assert(negotiated(given@, preferred, encoding));
    encoding
}

/// The two halves of the stream of a request, its method and its URL.
/// `encodings` reads the `Accept-Encoding` field of the request, and `preferred`
/// picks a coding from the offers.
pub fn build_http_stream_resource<B, E, T, W, U, F, P, Q, X>(
    scheme: &str,
    request: Request<B>,
    response_tx: T,
    encodings: F,
    preferred: P,
) -> (r: (HttpStreamReadResource<B, E>, HttpStreamWriteResource<T, W, U>, String, String)) where
    F: FnOnce(&HeaderMap<HeaderValue>) -> Vec<Result<(Option<Encoding>, Q), X>>,
    P: FnOnce(Vec<Result<(Option<Encoding>, Q), X>>) -> Result<Option<Encoding>, X>,

    requires
        readable_host(header_values(request.headers)),
        call_requires(encodings, (&request.headers,)),
        forall|offers: Vec<Result<(Option<Encoding>, Q), X>>| call_requires(preferred, (offers,)),
    ensures
        r.0.rd == HttpRequestReader::<B, E>::Headers(request),
        r.0.size == request.size,
        r.1.wr == HttpResponseWriter::<T, W, U>::Headers(response_tx),
        negotiated_from(request.headers, encodings, preferred, r.1.accept_encoding),
        r.2@ == request.method@,
        r.3@ == url_of(request, scheme@),
{
    let accept_encoding = negotiate(&request.headers, encodings, preferred);
    let method = request.method.clone();
    let url = req_url(&request, scheme);
    let read_stream = HttpStreamReadResource::new(request);
    let write_stream = HttpStreamWriteResource::new(response_tx, accept_encoding);
    (read_stream, write_stream, method, url)
}

/// What a script is told of the next request: the identifiers of the two halves
/// of its stream, its method and its URL.
pub struct NextRequestResponse(pub u32, pub u32, pub String, pub String);

} // verus!
