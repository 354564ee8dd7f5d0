use deno_host::fake_http::body::{PeekableBody, ReadStep};
use deno_host::fake_http::encoding::Encoding;
use deno_host::fake_http::error::HttpError;
use deno_host::fake_http::request::{
    build_http_stream_resource, negotiate, req_url, request_host, HttpRequestReader,
    HttpStreamReadResource, HttpStreamWriteResource, Request,
};
use deno_host::fake_http::writer::{
    send_outcome, CopyAction, CopyEvent, HttpResponseWriter, COPY_CHUNK,
};
use hyper::body::Bytes;
use hyper::header::{HeaderMap, HeaderValue};

type Reader = HttpRequestReader<&'static str, &'static str>;
type Writer = HttpResponseWriter<u8, u16, u32>;

fn request(path: Option<&str>, host: Option<&[u8]>) -> Request<&'static str> {
    let mut headers = HeaderMap::new();
    if let Some(host) = host {
        headers.insert("host", HeaderValue::from_bytes(host).unwrap());
    }
    headers.append("cookie", HeaderValue::from_static("a=1"));
    headers.append("cookie", HeaderValue::from_static("b=2"));
    Request {
        method: "POST".to_string(),
        path_and_query: path.map(|path| path.to_string()),
        headers,
        size: (3, Some(9)),
        body: "source",
    }
}

fn chunk(step: ReadStep<&'static str>) -> Vec<u8> {
    match step {
        ReadStep::Chunk(bytes) => bytes.to_vec(),
        _ => panic!("no chunk"),
    }
}

#[test]
fn urls() {
    assert_eq!(
        req_url(&request(Some("/a?b=c"), Some(b"localhost:8000")), "http"),
        "http://localhost:8000/a?b=c"
    );
    assert_eq!(req_url(&request(None, None), "https"), "https://127.0.0.1/");
}

#[test]
fn unreadable_hosts_are_told() {
    assert_eq!(request_host(&request(None, Some(b"\xff")).headers), None);
    assert_eq!(
        request_host(&request(None, Some(b"h")).headers),
        Some("h".to_string())
    );
    assert_eq!(
        request_host(&request(None, None).headers),
        Some("127.0.0.1".to_string())
    );
}

fn offers_in(headers: &HeaderMap) -> Vec<Result<(Option<Encoding>, u8), &'static str>> {
    assert_eq!(headers.get_all("cookie").iter().count(), 2);
    vec![
        Ok((Some(Encoding::Other), 9)),
        Ok((Some(Encoding::Gzip), 1)),
        Ok((Some(Encoding::Brotli), 2)),
        Ok((None, 8)),
    ]
}

#[test]
fn codings_are_negotiated() {
    let headers = request(None, None).headers;
    let mut seen = 0;
    let first = negotiate(&headers, offers_in, |offers| {
        seen = offers.len();
        offers.into_iter().next().unwrap().map(|offer| offer.0)
    });
    assert_eq!((first, seen), (Encoding::Gzip, 2));
    assert_eq!(negotiate(&headers, offers_in, |_| Err("malformed")), Encoding::Identity);
    assert_eq!(negotiate(&headers, offers_in, |_| Ok(None)), Encoding::Identity);
}

#[test]
fn a_request_becomes_a_stream() {
    let (read, write, method, url): (
        HttpStreamReadResource<&str, &str>,
        HttpStreamWriteResource<u8, u16, u32>,
        String,
        String,
    ) = build_http_stream_resource(
        "http",
        request(Some("/"), Some(b"h")),
        5,
        |headers: &HeaderMap| offers_in(headers),
        |offers: Vec<Result<(Option<Encoding>, u8), &'static str>>| {
            assert_eq!(offers.len(), 2);
            Ok(offers.into_iter().flatten().max_by_key(|offer| offer.1).and_then(|offer| offer.0))
        },
    );
    assert_eq!(method, "POST");
    assert_eq!(url, "http://h/");
    assert_eq!(read.size_hint(), (3, Some(9)));
    assert_eq!(read.name(), "httpReadStream");
    assert!(matches!(read.rd, HttpRequestReader::Headers(_)));
    assert_eq!(write.accept_encoding, Encoding::Brotli);
    assert_eq!(write.name(), "httpWriteStream");
    assert!(matches!(write.wr, HttpResponseWriter::Headers(5)));
}

#[test]
fn bodies_are_read_in_pieces() {
    let mut reader: Reader = HttpRequestReader::Headers(request(None, None));
    assert!(matches!(reader.read_step(2), ReadStep::Poll));
    reader.arrive(Some(Ok(Bytes::from_static(b"abcde"))));
    assert_eq!(chunk(reader.read_step(2)), b"ab");
    assert_eq!(chunk(reader.read_step(0)), b"");
    assert_eq!(chunk(reader.read_step(9)), b"cde");
    assert!(matches!(reader.read_step(2), ReadStep::Poll));
    reader.arrive(Some(Ok(Bytes::new())));
    assert!(matches!(reader.read_step(2), ReadStep::Poll));
    reader.arrive(Some(Ok(Bytes::from_static(b"f"))));
    assert_eq!(chunk(reader.read_step(1)), b"f");
    assert!(matches!(reader.read_step(1), ReadStep::Poll));
    reader.arrive(None);
    assert!(matches!(reader.read_step(1), ReadStep::End));
    assert!(matches!(reader.read_step(1), ReadStep::End));
}

#[test]
fn a_failure_of_the_source_is_passed_on_once() {
    let mut body: PeekableBody<&str, &str> = PeekableBody::new("source");
    body.arrive(Some(Err("broken")));
    assert!(matches!(body.read_step(1), ReadStep::Failed("broken")));
    assert!(matches!(body.read_step(1), ReadStep::Poll));
}

#[test]
fn reading_keeps_the_headers() {
    let mut reader: Reader = HttpRequestReader::Headers(request(None, None));
    let before = reader.header_list();
    assert_eq!(before, vec![(b"cookie".to_vec(), b"a=1; b=2".to_vec())]);
    reader.read_step(1);
    reader.arrive(None);
    reader.read_step(1);
    assert_eq!(reader.header_list(), before);
}

#[test]
fn a_closed_reader_is_at_its_end() {
    let mut reader: Reader = HttpRequestReader::default();
    assert!(matches!(reader.read_step(1), ReadStep::End));
    assert!(matches!(reader, HttpRequestReader::Closed));
}

#[test]
fn a_head_is_sent_once() {
    let mut writer: Writer = HttpResponseWriter::Headers(7);
    assert_eq!(writer.begin_response(HttpResponseWriter::Body(1)), Ok(7));
    assert_eq!(
        writer.begin_response(HttpResponseWriter::BodyUncompressed(2)),
        Err(HttpError::ResponseHeadersAlreadySent)
    );
    assert!(matches!(writer, HttpResponseWriter::BodyUncompressed(2)));
    assert_eq!(send_outcome(true), Ok(()));
    assert_eq!(send_outcome(false), Err(HttpError::ConnectionClosed));
}

#[test]
fn a_body_goes_between_head_and_end() {
    let mut writer: Writer = HttpResponseWriter::Headers(7);
    assert_eq!(writer.check_writable(), Err(HttpError::NoResponseHeaders));
    assert_eq!(writer.begin_response(HttpResponseWriter::Body(1)), Ok(7));
    assert_eq!(writer.check_writable(), Ok(()));
    assert_eq!(writer.finish_write(true), Ok(()));
    assert!(matches!(writer, HttpResponseWriter::Body(1)));
    assert_eq!(writer.finish_write(false), Err(HttpError::ResponseAlreadyCompleted));
    assert_eq!(writer.check_writable(), Err(HttpError::ResponseAlreadyCompleted));
}

#[test]
fn a_shutdown_closes_the_stream() {
    let mut writer: Writer = HttpResponseWriter::BodyUncompressed(3);
    assert!(matches!(writer.shutdown(), HttpResponseWriter::BodyUncompressed(3)));
    assert!(matches!(writer, HttpResponseWriter::Closed));
    assert!(matches!(writer.shutdown(), HttpResponseWriter::Closed));
    assert_eq!(writer.check_writable(), Err(HttpError::ResponseAlreadyCompleted));
    assert!(matches!(Writer::default(), HttpResponseWriter::Closed));
}

#[test]
fn a_resource_is_copied_chunk_by_chunk() {
    let mut writer: Writer = HttpResponseWriter::Body(1);
    assert!(matches!(writer.copy_step::<()>(CopyEvent::Started), CopyAction::Read(65536)));
    match writer.copy_step::<()>(CopyEvent::Read(Ok(vec![1, 2]))) {
        CopyAction::Write(chunk) => assert_eq!(chunk, vec![1, 2]),
        _ => panic!("no write"),
    }
    assert!(matches!(writer.copy_step::<()>(CopyEvent::Written(true)), CopyAction::Read(65536)));
    assert!(matches!(
        writer.copy_step::<()>(CopyEvent::Read(Ok(vec![]))),
        CopyAction::Finished
    ));
    assert!(matches!(writer, HttpResponseWriter::Body(1)));
    assert_eq!(COPY_CHUNK, 64 * 1024);
}

#[test]
fn a_copy_ends_early() {
    let mut writer: Writer = HttpResponseWriter::Headers(1);
    assert!(matches!(
        writer.copy_step::<()>(CopyEvent::Started),
        CopyAction::Refused(HttpError::NoResponseHeaders)
    ));
    let mut writer: Writer = HttpResponseWriter::BodyUncompressed(1);
    assert!(matches!(
        writer.copy_step(CopyEvent::Read(Err("broken"))),
        CopyAction::ReadFailed("broken")
    ));
    assert!(matches!(
        writer.copy_step::<()>(CopyEvent::Written(false)),
        CopyAction::Refused(HttpError::ResponseAlreadyCompleted)
    ));
    assert!(matches!(writer, HttpResponseWriter::Closed));
}
