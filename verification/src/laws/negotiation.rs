//! Agreeing on the coding of a response.

use hyper::header::{HeaderMap, HeaderValue};
use vstd::prelude::*;

use crate::fake_http::encoding::{
    chosen_encoding, compressible_offers, offers_compression, Encoding,
};
use crate::fake_http::request::negotiate;

verus! {

/// Responses are compressed with brotli or gzip, and with nothing else.
pub proof fn law_codings_that_compress(encoding: Encoding, r: bool)
    requires
        call_ensures(Encoding::accepts_compression, (encoding,), r),
    ensures
        r <==> encoding is Brotli || encoding is Gzip,
{
}

/// Of the items of a client's list exactly those are considered, in their order,
/// that offer brotli or gzip.
pub proof fn law_offers_that_count<Q, E>(
    parsed: Vec<Result<(Option<Encoding>, Q), E>>,
    r: Vec<Result<(Option<Encoding>, Q), E>>,
)
    requires
        call_ensures(compressible_offers::<Q, E>, (parsed,), r),
    ensures
        r@ == parsed@.filter(
            |offer: Result<(Option<Encoding>, Q), E>|
                offer matches Ok((Some(coding), _)) && (coding is Brotli || coding is Gzip),
        ),
{
    lemma_counting_offers::<Q, E>();
}

pub(crate) proof fn lemma_counting_offers<Q, E>()
    ensures
        (|offer: Result<(Option<Encoding>, Q), E>| offers_compression(offer)) == (|
            offer: Result<(Option<Encoding>, Q), E>,
        | offer matches Ok((Some(coding), _)) && (coding is Brotli || coding is Gzip)),
{
    assert((|offer: Result<(Option<Encoding>, Q), E>| offers_compression(offer)) =~= (|
        offer: Result<(Option<Encoding>, Q), E>,
    | offer matches Ok((Some(coding), _)) && (coding is Brotli || coding is Gzip)));
}

/// A preference is followed; without one the response is not encoded.
pub proof fn law_choice<E>(preferred: Result<Option<Encoding>, E>, r: Encoding)
    requires
        call_ensures(chosen_encoding::<E>, (preferred,), r),
    ensures
        preferred matches Ok(Some(coding)) ==> r == coding,
        !(preferred matches Ok(Some(_))) ==> r is Identity,
{
}

/// The coding is what the client's preference among its offers of brotli and
/// gzip comes to, and none where there is no preference.
pub proof fn law_preference_decides<F, P, Q, X>(
    headers: &HeaderMap<HeaderValue>,
    encodings: F,
    preferred: P,
    r: Encoding,
) where
    F: FnOnce(&HeaderMap<HeaderValue>) -> Vec<Result<(Option<Encoding>, Q), X>>,
    P: FnOnce(Vec<Result<(Option<Encoding>, Q), X>>) -> Result<Option<Encoding>, X>,

    requires
        call_ensures(negotiate::<F, P, Q, X>, (headers, encodings, preferred), r),
    ensures
        exists|
            parsed: Vec<Result<(Option<Encoding>, Q), X>>,
            offers: Vec<Result<(Option<Encoding>, Q), X>>,
            choice: Result<Option<Encoding>, X>,
        |
            {
                &&& #[trigger] call_ensures(encodings, (headers,), parsed)
                &&& offers@ == parsed@.filter(
                    |offer: Result<(Option<Encoding>, Q), X>|
                        offer matches Ok((Some(coding), _)) && (coding is Brotli || coding is Gzip),
                )
                &&& #[trigger] call_ensures(preferred, (offers,), choice)
                &&& choice matches Ok(Some(coding)) ==> r == coding
                &&& !(choice matches Ok(Some(_))) ==> r is Identity
            },
{
    lemma_counting_offers::<Q, X>();
}

/// Where the preference falls on one of the offers or on none, the client gets a
/// coding that it offered, or the body as it is.
pub proof fn law_coding_was_offered<F, P, Q, X>(
    headers: &HeaderMap<HeaderValue>,
    encodings: F,
    preferred: P,
    r: Encoding,
) where
    F: FnOnce(&HeaderMap<HeaderValue>) -> Vec<Result<(Option<Encoding>, Q), X>>,
    P: FnOnce(Vec<Result<(Option<Encoding>, Q), X>>) -> Result<Option<Encoding>, X>,

    requires
        call_ensures(negotiate::<F, P, Q, X>, (headers, encodings, preferred), r),
        forall|offers: Vec<Result<(Option<Encoding>, Q), X>>, coding: Encoding|
            #[trigger] call_ensures(preferred, (offers,), Ok(Some(coding))) ==> exists|i: int|
                0 <= i < offers@.len() && (#[trigger] offers@[i] matches Ok((Some(offered), _))
                    && offered == coding),
    ensures
        r is Identity || r is Brotli || r is Gzip,
        r is Identity || exists|parsed: Vec<Result<(Option<Encoding>, Q), X>>, i: int|
            {
                &&& #[trigger] call_ensures(encodings, (headers,), parsed)
                &&& 0 <= i < parsed@.len()
                &&& #[trigger] parsed@[i] matches Ok((Some(offered), _))
                &&& offered == r
            },
{
    law_preference_decides(headers, encodings, preferred, r);
    let counts = |offer: Result<(Option<Encoding>, Q), X>|
        offer matches Ok((Some(coding), _)) && (coding is Brotli || coding is Gzip);
    let (parsed, offers, choice) = choose|
        parsed: Vec<Result<(Option<Encoding>, Q), X>>,
        offers: Vec<Result<(Option<Encoding>, Q), X>>,
        choice: Result<Option<Encoding>, X>,
    |
        {
            &&& #[trigger] call_ensures(encodings, (headers,), parsed)
            &&& offers@ == parsed@.filter(counts)
            &&& #[trigger] call_ensures(preferred, (offers,), choice)
            &&& choice matches Ok(Some(coding)) ==> r == coding
            &&& !(choice matches Ok(Some(_))) ==> r is Identity
        };
    if let Ok(Some(coding)) = choice {
        let i = choose|i: int|
            0 <= i < offers@.len() && (#[trigger] offers@[i] matches Ok((Some(offered), _))
                && offered == coding);
        assert(offers@.contains(offers@[i]));
        parsed@.lemma_filter_contains_rev(counts, offers@[i]);
        parsed@.lemma_filter_pred(counts, i);
        let j = choose|j: int| 0 <= j < parsed@.len() && parsed@[j] == offers@[i];
        assert(parsed@[j] matches Ok((Some(offered), _)) && offered == r);
    }
}

/// Where the preference never falls on a coding, the body goes out as it is;
/// where it always falls on the same one, that is the coding.
pub proof fn law_steady_preference<F, P, Q, X>(
    headers: &HeaderMap<HeaderValue>,
    encodings: F,
    preferred: P,
    coding: Option<Encoding>,
    r: Encoding,
) where
    F: FnOnce(&HeaderMap<HeaderValue>) -> Vec<Result<(Option<Encoding>, Q), X>>,
    P: FnOnce(Vec<Result<(Option<Encoding>, Q), X>>) -> Result<Option<Encoding>, X>,

    requires
        call_ensures(negotiate::<F, P, Q, X>, (headers, encodings, preferred), r),
        forall|
            offers: Vec<Result<(Option<Encoding>, Q), X>>,
            choice: Result<Option<Encoding>, X>,
        | #[trigger]
            call_ensures(preferred, (offers,), choice) ==> match coding {
                Some(coding) => choice == Ok::<Option<Encoding>, X>(Some(coding)),
                None => !(choice matches Ok(Some(_))),
            },
    ensures
        match coding {
            Some(coding) => r == coding,
            None => r is Identity,
        },
{
    law_preference_decides(headers, encodings, preferred, r);
}

} // verus!
