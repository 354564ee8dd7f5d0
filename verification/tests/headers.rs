use deno_host::fake_http::cache_control::cache_control_no_transform;
use deno_host::fake_http::headers::{
    ensure_vary_accept_encoding, may_transform, req_headers, should_compress, weaken_etag,
};
use hyper::header::{HeaderMap, HeaderName, HeaderValue};

fn map(lines: &[(&str, &[u8])]) -> HeaderMap<HeaderValue> {
    let mut map = HeaderMap::new();
    for (name, value) in lines {
        map.append(
            HeaderName::from_bytes(name.as_bytes()).unwrap(),
            HeaderValue::from_bytes(value).unwrap(),
        );
    }
    map
}

fn line(name: &str, value: &str) -> (Vec<u8>, Vec<u8>) {
    (name.as_bytes().to_vec(), value.as_bytes().to_vec())
}

fn is_text(content_type: &[u8]) -> bool {
    content_type.starts_with(b"text/")
}

#[test]
fn strong_etag_is_weakened() {
    let mut headers = map(&[("etag", b"\"abc\""), ("x-a", b"1")]);
    weaken_etag(&mut headers);
    assert_eq!(headers.get("etag").unwrap(), "W/\"abc\"");
    assert_eq!(headers.get("x-a").unwrap(), "1");
    assert_eq!(headers.len(), 2);
}

#[test]
fn weakening_twice_is_weakening_once() {
    let mut headers = map(&[("etag", b"\"abc\"")]);
    weaken_etag(&mut headers);
    let once = headers.clone();
    weaken_etag(&mut headers);
    assert_eq!(headers, once);
}

#[test]
fn weak_or_missing_etag_stays() {
    let mut headers = map(&[("etag", b"W/\"abc\"")]);
    weaken_etag(&mut headers);
    assert_eq!(headers.get("etag").unwrap(), "W/\"abc\"");
    let mut headers = map(&[]);
    weaken_etag(&mut headers);
    assert!(headers.is_empty());
    let mut headers = map(&[("etag", b"W")]);
    weaken_etag(&mut headers);
    assert_eq!(headers.get("etag").unwrap(), "W/W");
}

#[test]
fn only_the_first_etag_is_weakened() {
    let mut headers = map(&[("etag", b"a"), ("etag", b"b")]);
    weaken_etag(&mut headers);
    let tags: Vec<&HeaderValue> = headers.get_all("etag").iter().collect();
    assert_eq!(tags, vec!["W/a", "b"]);
}

#[test]
fn vary_is_added() {
    let mut headers = map(&[("x-a", b"1")]);
    assert!(ensure_vary_accept_encoding(&mut headers).is_ok());
    assert_eq!(headers.get("vary").unwrap(), "Accept-Encoding");
    assert_eq!(headers.get("x-a").unwrap(), "1");
}

#[test]
fn vary_is_extended() {
    let mut headers = map(&[("vary", b"Cookie")]);
    assert!(ensure_vary_accept_encoding(&mut headers).is_ok());
    assert_eq!(headers.get("vary").unwrap(), "Accept-Encoding, Cookie");
    assert!(ensure_vary_accept_encoding(&mut headers).is_ok());
    assert_eq!(headers.get("vary").unwrap(), "Accept-Encoding, Cookie");
}

#[test]
fn vary_that_says_so_in_any_case_stays() {
    let mut headers = map(&[("vary", b"Cookie, ACCEPT-Encoding")]);
    assert!(ensure_vary_accept_encoding(&mut headers).is_ok());
    assert_eq!(headers.get("vary").unwrap(), "Cookie, ACCEPT-Encoding");
}

#[test]
fn vary_that_lists_only_a_longer_name_is_extended() {
    for (before, after) in [
        ("X-Accept-Encoding-Hint", "Accept-Encoding, X-Accept-Encoding-Hint"),
        ("Accept-Encoding-Hint", "Accept-Encoding, Accept-Encoding-Hint"),
        ("Cookie Accept-Encoding", "Accept-Encoding, Cookie Accept-Encoding"),
        ("*", "Accept-Encoding, *"),
        ("", "Accept-Encoding, "),
    ] {
        let mut headers = map(&[("vary", before.as_bytes())]);
        assert!(ensure_vary_accept_encoding(&mut headers).is_ok());
        assert_eq!(headers.get("vary").unwrap(), after);
    }
}

#[test]
fn vary_that_lists_the_field_among_others_stays() {
    for vary in [
        "accept-encoding",
        "X-Accept-Encoding-Hint, Accept-Encoding",
        "Cookie,accept-encoding,Origin",
        "Cookie , \tAccept-Encoding\t ,Origin",
        " Accept-Encoding ",
    ] {
        let mut headers = map(&[("vary", vary.as_bytes())]);
        assert!(ensure_vary_accept_encoding(&mut headers).is_ok());
        assert_eq!(headers.get("vary").unwrap(), vary);
    }
}

#[test]
fn unreadable_vary_gives_way() {
    let mut headers = map(&[("vary", b"\xff"), ("vary", b"Cookie")]);
    assert!(ensure_vary_accept_encoding(&mut headers).is_ok());
    let all: Vec<&HeaderValue> = headers.get_all("vary").iter().collect();
    assert_eq!(all, vec!["Accept-Encoding"]);
}

#[test]
fn content_type_decides() {
    assert!(should_compress(&map(&[("content-type", b"text/html")]), is_text));
    assert!(!should_compress(&map(&[("content-type", b"image/png")]), is_text));
    assert!(!should_compress(&map(&[]), is_text));
}

#[test]
fn range_and_encoding_speak_against_compression() {
    assert!(!should_compress(
        &map(&[("content-type", b"text/html"), ("content-range", b"bytes 0-1/2")]),
        is_text
    ));
    assert!(!should_compress(
        &map(&[("content-type", b"text/html"), ("content-encoding", b"gzip")]),
        is_text
    ));
    assert!(may_transform(false, false, None));
    assert!(may_transform(false, false, Some(false)));
    assert!(!may_transform(false, false, Some(true)));
    assert!(!may_transform(true, false, None));
    assert!(!may_transform(false, true, None));
}

#[test]
fn cache_control_may_forbid_compression() {
    let verdict = |value: &[u8]| cache_control_no_transform(&map(&[("cache-control", value)]));
    assert_eq!(verdict(b"no-transform"), Some(true));
    assert_eq!(verdict(b"public, no-transform"), Some(true));
    assert_eq!(verdict(b"public, max-age=60"), Some(false));
    assert_eq!(verdict(b"max-age=soon"), None);
    assert_eq!(verdict(b"\xff"), Some(true));
    assert_eq!(cache_control_no_transform(&map(&[])), None);
    assert!(!should_compress(
        &map(&[("content-type", b"text/html"), ("cache-control", b"no-transform")]),
        is_text
    ));
    assert!(should_compress(
        &map(&[("content-type", b"text/html"), ("cache-control", b"max-age=soon")]),
        is_text
    ));
}

#[test]
fn cookies_become_one_line() {
    let headers = map(&[("cookie", b"a=1"), ("accept", b"*/*"), ("cookie", b"b=2")]);
    assert_eq!(
        req_headers(&headers),
        vec![line("accept", "*/*"), line("cookie", "a=1; b=2")]
    );
}

#[test]
fn headers_without_cookies_are_kept() {
    let headers = map(&[("Accept", b"a"), ("x-b", b"1"), ("x-b", b"2")]);
    assert_eq!(
        req_headers(&headers),
        vec![line("accept", "a"), line("x-b", "1"), line("x-b", "2")]
    );
    assert_eq!(req_headers(&map(&[])), vec![]);
    assert_eq!(req_headers(&map(&[("cookie", b"a")])), vec![line("cookie", "a")]);
}
