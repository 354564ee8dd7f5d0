use deno_host::fake_http::encoding::{chosen_encoding, compressible_offers, encode, Encoding};
use deno_host::fake_http::error::{failed_shutdown, filter_enotconn, HttpError, ResponseError};
use deno_host::fake_http::response::{
    assemble_response, build_response, decide_compression, full_response, http_response,
    response_headers, Response, ResponseBody,
};
use deno_host::fake_http::writer::HttpResponseWriter;
use hyper::body::HttpBody;
use hyper::header::{HeaderMap, HeaderValue};
use std::io::Read;

type Writer = HttpResponseWriter<&'static str, (&'static str, Encoding), &'static str>;

const TEXT: &[u8] = b"a text of more than twenty bytes, a text of more than twenty bytes";

fn line(name: &str, value: &str) -> (Vec<u8>, Vec<u8>) {
    (name.as_bytes().to_vec(), value.as_bytes().to_vec())
}

fn is_text(content_type: &[u8]) -> bool {
    content_type.starts_with(b"text/")
}

fn open_compressed(encoding: Encoding) -> ((&'static str, Encoding), u8) {
    (("compressed sink", encoding), 1)
}

fn open_channel() -> (&'static str, u8) {
    ("plain sink", 2)
}

fn build(
    encoding: Encoding,
    status: u16,
    headers: Vec<(Vec<u8>, Vec<u8>)>,
    data: Option<&[u8]>,
) -> Result<(Writer, Response<u8>), ResponseError> {
    build_response(
        encoding,
        status,
        headers,
        data.map(|data| data.to_vec()),
        is_text,
        open_compressed,
        open_channel,
    )
}

fn gunzip(body: &[u8]) -> Vec<u8> {
    let mut out = Vec::new();
    flate2::read::GzDecoder::new(body).read_to_end(&mut out).unwrap();
    out
}

fn unbrotli(body: &[u8]) -> Vec<u8> {
    let mut out = Vec::new();
    brotli::Decompressor::new(body, 4096).read_to_end(&mut out).unwrap();
    out
}

fn full(body: ResponseBody<u8>) -> Vec<u8> {
    match body {
        ResponseBody::Full(bytes) => bytes,
        ResponseBody::Stream(_) => panic!("a stream"),
    }
}

#[test]
fn gzip_response() {
    let headers = vec![
        line("Content-Type", "text/plain"),
        line("Content-Length", "66"),
        line("ETag", "\"x\""),
    ];
    let (writer, response) = build(Encoding::Gzip, 200, headers, Some(TEXT)).ok().unwrap();
    assert!(matches!(writer, HttpResponseWriter::Closed));
    assert_eq!(response.status, 200);
    assert_eq!(response.headers.get("content-encoding").unwrap(), "gzip");
    assert_eq!(response.headers.get("etag").unwrap(), "W/\"x\"");
    assert_eq!(response.headers.get("vary").unwrap(), "Accept-Encoding");
    assert!(response.headers.get("content-length").is_none());
    assert_eq!(response.headers.get("content-type").unwrap(), "text/plain");
    let body = full(response.body);
    assert_ne!(body, TEXT);
    assert_eq!(gunzip(&body), TEXT);
}

#[test]
fn brotli_response() {
    let headers = vec![line("content-type", "text/plain")];
    let (_, response) = build(Encoding::Brotli, 404, headers, Some(TEXT)).ok().unwrap();
    assert_eq!(response.status, 404);
    assert_eq!(response.headers.get("content-encoding").unwrap(), "br");
    let body = full(response.body);
    assert_ne!(body, TEXT);
    assert_eq!(unbrotli(&body), TEXT);
}

#[test]
fn plain_response_keeps_its_head() {
    let headers = vec![line("content-type", "text/plain"), line("content-length", "66")];
    let (writer, response) = build(Encoding::Identity, 200, headers, Some(TEXT)).ok().unwrap();
    assert!(matches!(writer, HttpResponseWriter::Closed));
    assert_eq!(response.headers.get("content-length").unwrap(), "66");
    assert!(response.headers.get("content-encoding").is_none());
    assert_eq!(response.headers.get("vary").unwrap(), "Accept-Encoding");
    assert_eq!(full(response.body), TEXT);
}

#[test]
fn small_bodies_are_not_compressed() {
    let head = || vec![line("content-type", "text/plain")];
    let (_, response) = build(Encoding::Gzip, 200, head(), Some(&TEXT[..20])).ok().unwrap();
    assert_eq!(full(response.body), &TEXT[..20]);
    let (_, response) = build(Encoding::Gzip, 200, head(), Some(&TEXT[..21])).ok().unwrap();
    assert_eq!(gunzip(&full(response.body)), &TEXT[..21]);
}

#[test]
fn streamed_bodies() {
    let head = || vec![line("content-type", "text/plain")];
    let (writer, response) = build(Encoding::Brotli, 200, head(), None).ok().unwrap();
    assert!(matches!(
        writer,
        HttpResponseWriter::Body(("compressed sink", Encoding::Brotli))
    ));
    assert!(matches!(response.body, ResponseBody::Stream(1)));
    assert_eq!(response.headers.get("content-encoding").unwrap(), "br");
    let (writer, response) = build(Encoding::Other, 200, head(), None).ok().unwrap();
    assert!(matches!(writer, HttpResponseWriter::BodyUncompressed("plain sink")));
    assert!(matches!(response.body, ResponseBody::Stream(2)));
    assert!(response.headers.get("content-encoding").is_none());
}

#[test]
fn compressed_responses_are_not_compressed_again() {
    let headers = vec![line("content-type", "text/plain"), line("content-encoding", "gzip")];
    let (_, response) = build(Encoding::Brotli, 200, headers, Some(TEXT)).ok().unwrap();
    assert_eq!(response.headers.get("content-encoding").unwrap(), "gzip");
    assert_eq!(full(response.body), TEXT);
}

#[test]
fn names_and_values_are_checked_in_order() {
    let error = |headers| build(Encoding::Identity, 200, headers, None).err().unwrap();
    assert!(matches!(error(vec![line("a b", "1")]), ResponseError::HeaderName));
    assert!(matches!(error(vec![line("", "1")]), ResponseError::HeaderName));
    assert!(matches!(error(vec![line("a", "1\n")]), ResponseError::HeaderValue));
    assert!(matches!(error(vec![line("a b", "1\n")]), ResponseError::HeaderName));
    assert!(matches!(
        error(vec![line("a", "1\n"), line("a b", "1")]),
        ResponseError::HeaderValue
    ));
    assert!(matches!(
        error(vec![(vec![b'a'; 65536], vec![])]),
        ResponseError::HeaderName
    ));
}

#[test]
fn statuses_have_three_digits() {
    for status in [0, 99, 1000, 65535] {
        assert!(matches!(
            build(Encoding::Identity, status, vec![], None),
            Err(ResponseError::Status)
        ));
    }
    for status in [100, 999] {
        assert_eq!(
            build(Encoding::Identity, status, vec![], None).ok().unwrap().1.status,
            status
        );
    }
}

#[test]
fn too_many_lines_are_refused() {
    let many = vec![line("a", "1"); 32767];
    assert!(matches!(response_headers(many), Err(ResponseError::HeaderMapFull)));
    let fewer = vec![line("a", "1"); 32766];
    assert_eq!(response_headers(fewer).ok().unwrap().len(), 32766);
}

#[test]
fn maps_hold_what_they_are_sure_to_hold() {
    let lines: Vec<(Vec<u8>, Vec<u8>)> =
        (0..6553).map(|i| line(&format!("name-{}", i), &format!("{}", i))).collect();
    let map = response_headers(lines).ok().unwrap();
    assert_eq!(map.len(), 6553);
    assert_eq!(map.get("name-6552").unwrap(), "6552");
}

#[test]
fn many_lines_under_few_names_fit() {
    let lines: Vec<(Vec<u8>, Vec<u8>)> =
        (0..32766).map(|i| line(&format!("Name-{}", i % 3), &format!("{}", i))).collect();
    let map = response_headers(lines).unwrap_or_else(|_| panic!("refused"));
    assert_eq!((map.len(), map.keys_len()), (32766, 3));
    assert_eq!(map.get_all("name-1").iter().last().unwrap(), "32764");
}

#[test]
fn header_lines_are_collected() {
    let map = response_headers(vec![line("X-A", "1"), line("b", "2"), line("x-a", "3")])
        .ok()
        .unwrap();
    let values: Vec<&HeaderValue> = map.get_all("x-a").iter().collect();
    assert_eq!(values, vec!["1", "3"]);
    assert_eq!(map.get("b").unwrap(), "2");
    assert_eq!(map.len(), 3);
}

#[test]
fn the_decision_takes_coding_size_and_head() {
    let mut headers: HeaderMap<HeaderValue> = HeaderMap::new();
    headers.insert("content-type", HeaderValue::from_static("text/plain"));
    assert!(decide_compression(Encoding::Gzip, None, &headers, is_text));
    assert!(decide_compression(Encoding::Brotli, Some(21), &headers, is_text));
    assert!(!decide_compression(Encoding::Brotli, Some(20), &headers, is_text));
    assert!(!decide_compression(Encoding::Identity, None, &headers, is_text));
    headers.insert("content-type", HeaderValue::from_static("image/png"));
    assert!(!decide_compression(Encoding::Gzip, None, &headers, is_text));
}

#[test]
fn the_given_decision_is_carried_out() {
    let assembled: Result<(Writer, Response<u8>), ResponseError> = assemble_response(
        200,
        HeaderMap::new(),
        Some(TEXT.to_vec()),
        true,
        Encoding::Gzip,
        open_compressed,
        open_channel,
    );
    let (_, response) = assembled.ok().unwrap();
    assert_eq!(response.headers.get("content-encoding").unwrap(), "gzip");
    assert_eq!(gunzip(&full(response.body)), TEXT);
    let plain: Result<(Writer, ResponseBody<u8>), std::io::Error> = http_response(
        Some(TEXT.to_vec()),
        false,
        Encoding::Gzip,
        open_compressed,
        open_channel,
    );
    assert_eq!(full(plain.unwrap_or_else(|_| panic!("plain")).1), TEXT);
}

#[test]
fn a_failed_compression_is_passed_on() {
    let failed: Result<(Writer, ResponseBody<u8>), std::io::Error> =
        full_response(Err(std::io::Error::from(std::io::ErrorKind::WriteZero)));
    assert_eq!(failed.err().unwrap().kind(), std::io::ErrorKind::WriteZero);
    let done: Result<(Writer, ResponseBody<u8>), std::io::Error> = full_response(Ok(vec![7]));
    assert_eq!(full(done.ok().unwrap().1), vec![7]);
}

#[test]
fn codings_decode_to_the_data() {
    for data in [&b""[..], &b"a"[..], TEXT] {
        assert_eq!(gunzip(&encode(Encoding::Gzip, data).unwrap()), data);
        assert_eq!(unbrotli(&encode(Encoding::Brotli, data).unwrap()), data);
    }
    let pattern: Vec<u8> = (0..300000u64).map(|i| (i * i / 7) as u8).collect();
    let mut state: u32 = 1;
    let noise: Vec<u8> = (0..300000)
        .map(|_| {
            state = state.wrapping_mul(1664525).wrapping_add(1013904223);
            (state >> 24) as u8
        })
        .collect();
    for data in [&pattern, &noise] {
        assert_eq!(&gunzip(&encode(Encoding::Gzip, data).unwrap()), data);
        assert_eq!(&unbrotli(&encode(Encoding::Brotli, data).unwrap()), data);
    }
}

#[test]
fn gzip_header_tells_the_fastest_level() {
    let body = encode(Encoding::Gzip, TEXT).unwrap();
    assert_eq!(&body[..10], &[0x1f, 0x8b, 8, 0, 0, 0, 0, 0, 4, 255]);
}

#[test]
fn only_compressing_codings_are_offers() {
    let parsed: Vec<Result<(Option<Encoding>, f32), &str>> = vec![
        Ok((Some(Encoding::Other), 1.0)),
        Err("malformed"),
        Ok((Some(Encoding::Gzip), 0.5)),
        Ok((None, 1.0)),
        Ok((Some(Encoding::Identity), 1.0)),
        Ok((Some(Encoding::Brotli), 0.25)),
    ];
    assert_eq!(
        compressible_offers(parsed),
        vec![Ok((Some(Encoding::Gzip), 0.5)), Ok((Some(Encoding::Brotli), 0.25))]
    );
}

#[test]
fn without_a_preference_there_is_no_coding() {
    assert_eq!(chosen_encoding::<()>(Ok(Some(Encoding::Gzip))), Encoding::Gzip);
    assert_eq!(chosen_encoding::<()>(Ok(None)), Encoding::Identity);
    assert_eq!(chosen_encoding(Err("malformed")), Encoding::Identity);
}

#[test]
fn error_messages() {
    assert_eq!(HttpError::AlreadyInUse.message(), "already in use");
    assert_eq!(
        HttpError::ResponseHeadersAlreadySent.message(),
        "response headers already sent"
    );
    assert_eq!(
        HttpError::ConnectionClosed.message(),
        "connection closed while sending response"
    );
    assert_eq!(HttpError::NoResponseHeaders.message(), "no response headers");
    assert_eq!(
        HttpError::ResponseAlreadyCompleted.message(),
        "response already completed"
    );
}

fn broken_body(kind: std::io::ErrorKind) -> hyper::Error {
    let chunk: Result<&'static str, std::io::Error> = Err(std::io::Error::from(kind));
    let mut body = hyper::Body::wrap_stream(futures::stream::iter(vec![chunk]));
    futures::executor::block_on(body.data()).unwrap().unwrap_err()
}

#[test]
fn a_gone_peer_is_no_error_of_a_shutdown() {
    assert!(filter_enotconn(Ok(())).is_ok());
    assert!(filter_enotconn(Err(broken_body(std::io::ErrorKind::NotConnected))).is_ok());
    let kept = filter_enotconn(Err(broken_body(std::io::ErrorKind::BrokenPipe))).unwrap_err();
    let source = std::error::Error::source(&kept).unwrap();
    assert_eq!(
        source.downcast_ref::<std::io::Error>().unwrap().kind(),
        std::io::ErrorKind::BrokenPipe
    );
    assert_eq!(failed_shutdown(1, true), Ok(()));
    assert_eq!(failed_shutdown(1, false), Err(1));
}
