//! What the `Cache-Control` field of a response says about transforming it.

use cache_control::CacheControl;
use hyper::header::{HeaderMap, HeaderValue};
use vstd::prelude::*;
use vstd::string::*;
use vstd::utf8::*;

use super::header_map::{first_under, first_value, header_values, lemma_known_names};

verus! {

/// What `CacheControl::from_value` makes of the value of a `Cache-Control`
/// field: nothing where a duration in it is malformed, and otherwise whether it
/// holds the directive `no-transform`.
pub uninterp spec fn no_transform_directive(value: Seq<char>) -> Option<bool>;

/// `CacheControl::from_value`, reduced to the flag `no_transform` of what it
/// returns.
#[verifier::external_body]
fn parse_no_transform(value: &str) -> (r: Option<bool>)
    ensures
        r == no_transform_directive(value@),
{
    CacheControl::from_value(value).map(|parsed| parsed.no_transform)
}

/// `std::str::from_utf8`: the text that the bytes encode, where they are UTF-8.
#[verifier::external_body]
fn utf8_text<'a>(bytes: &'a [u8]) -> (r: Option<&'a str>)
    ensures
        r is Some <==> valid_utf8(bytes@),
        r matches Some(text) ==> text@ == decode_utf8(bytes@),
{
    std::str::from_utf8(bytes).ok()
}

/// What a `Cache-Control` field says about transforming the response, where it
/// says anything. A value that is not UTF-8 forbids it.
pub open spec fn cache_control_verdict(value: Option<Seq<u8>>) -> Option<bool> {
    match value {
        Some(bytes) => if valid_utf8(bytes) {
            no_transform_directive(decode_utf8(bytes))
        } else {
            Some(true)
        },
        None => None,
    }
}

/// Whether the `Cache-Control` field, where the response has one that can be
/// read, forbids to transform the response.
pub fn cache_control_no_transform(headers: &HeaderMap<HeaderValue>) -> (r: Option<bool>)
    ensures
        r == cache_control_verdict(
            first_under(header_values(*headers), "cache-control".spec_bytes()),
        ),
{
    proof {
        lemma_known_names();
    }
    match first_value(headers, "cache-control") {
        Some(value) => match utf8_text(value) {
            Some(text) => parse_no_transform(text),
            None => Some(true),
        },
        None => None,
    }
}

} // verus!
