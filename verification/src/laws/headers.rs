//! The headers of requests and responses.

use hyper::header::{HeaderMap, HeaderValue};
use vstd::prelude::*;
use vstd::string::*;
use vstd::utf8::*;

use crate::fake_http::bytes::{
    closes_at, lists, lists_at, lower_byte, lower_bytes, mentions_at, opens_at,
};
use crate::fake_http::cache_control::{cache_control_no_transform, no_transform_directive};
use crate::fake_http::error::ResponseError;
use crate::fake_http::header_map::{
    has_values, header_lines, header_values, is_visible, lemma_visible_text, line_views,
    values_named,
};
use crate::fake_http::headers::{
    ensure_vary_accept_encoding, joined, law_vary_lists_accept_encoding, lines_without,
    may_transform, req_headers, should_compress, varied, weaken_etag, weakened,
};
use crate::fake_http::request::HttpRequestReader;

verus! {

/// The values under a name are those of the lines that bear it, in order.
pub proof fn law_values_under_a_name(lines: Seq<(Seq<u8>, Seq<u8>)>, name: Seq<u8>)
    ensures
        values_named(lines, name) == lines.filter(
            |line: (Seq<u8>, Seq<u8>)| line.0 == name,
        ).map_values(|line: (Seq<u8>, Seq<u8>)| line.1),
    decreases lines.len(),
{
    reveal(Seq::filter);
    let named = |line: (Seq<u8>, Seq<u8>)| line.0 == name;
    let value = |line: (Seq<u8>, Seq<u8>)| line.1;
    if lines.len() > 0 {
        law_values_under_a_name(lines.drop_last(), name);
        let rest = lines.drop_last().filter(named);
        assert(rest.push(lines.last()).map_values(value) =~= rest.map_values(value).push(
            lines.last().1,
        ));
    }
    assert(values_named(lines, name) =~= lines.filter(named).map_values(value));
}

/// The lines that do not bear a name are left out, and all others stay, in
/// order.
pub proof fn law_lines_without_a_name(lines: Seq<(Seq<u8>, Seq<u8>)>, name: Seq<u8>)
    ensures
        lines_without(lines, name) == lines.filter(|line: (Seq<u8>, Seq<u8>)| line.0 != name),
    decreases lines.len(),
{
    reveal(Seq::filter);
    if lines.len() > 0 {
        law_lines_without_a_name(lines.drop_last(), name);
    }
}

/// Whether `joint` is made of `parts`, one behind the other, the k-th at
/// `offsets[k]`, with `separator` before each but the first.
pub open spec fn is_made_of(
    joint: Seq<u8>,
    parts: Seq<Seq<u8>>,
    separator: Seq<u8>,
    offsets: Seq<int>,
) -> bool {
    &&& offsets.len() == parts.len()
    &&& parts.len() > 0
    &&& offsets[0] == 0
    &&& joint.len() == offsets.last() + parts.last().len()
    &&& forall|k: int|
        0 <= k < parts.len() ==> {
            &&& 0 <= #[trigger] offsets[k] <= offsets[k] + parts[k].len() <= joint.len()
            &&& joint.subrange(offsets[k], offsets[k] + parts[k].len()) == parts[k]
        }
    &&& forall|k: int|
        0 < k < parts.len() ==> {
            &&& #[trigger] offsets[k] == offsets[k - 1] + parts[k - 1].len() + separator.len()
            &&& joint.subrange(offsets[k] - separator.len(), offsets[k]) == separator
        }
}

/// Joining loses nothing and adds nothing but separators: every part stands in
/// the joint text, in order, and whatever the parts are, one more goes behind
/// what they were joined to.
pub proof fn law_joining(parts: Seq<Seq<u8>>, separator: Seq<u8>, more: Seq<u8>)
    requires
        parts.len() > 0,
    ensures
        joined(parts.push(more), separator) == joined(parts, separator) + separator + more,
        exists|offsets: Seq<int>|
            is_made_of(joined(parts, separator), parts, separator, offsets),
    decreases parts.len(),
{
    assert(parts.push(more).drop_last() =~= parts);
    let joint = joined(parts, separator);
    if parts.len() == 1 {
        assert(parts[0].subrange(0, parts[0].len() as int) =~= parts[0]);
        assert(is_made_of(joint, parts, separator, seq![0int]));
    } else {
        let earlier = parts.drop_last();
        law_joining(earlier, separator, parts.last());
        assert(earlier.push(parts.last()) =~= parts);
        let before = joined(earlier, separator);
        let old_offsets = choose|offsets: Seq<int>|
            is_made_of(before, earlier, separator, offsets);
        let offsets = old_offsets.push((before.len() + separator.len()) as int);
        assert forall|k: int| 0 <= k < parts.len() implies {
            &&& 0 <= #[trigger] offsets[k] <= offsets[k] + parts[k].len() <= joint.len()
            &&& joint.subrange(offsets[k], offsets[k] + parts[k].len()) == parts[k]
        } by {
            if k < earlier.len() {
                assert(offsets[k] == old_offsets[k]);
                assert(parts[k] == earlier[k]);
                assert(joint.subrange(offsets[k], offsets[k] + parts[k].len()) =~= before.subrange(
                    offsets[k],
                    offsets[k] + parts[k].len(),
                ));
            } else {
                assert(joint.subrange(offsets[k], offsets[k] + parts[k].len()) =~= parts[k]);
            }
        }
        assert forall|k: int| 0 < k < parts.len() implies {
            &&& #[trigger] offsets[k] == offsets[k - 1] + parts[k - 1].len() + separator.len()
            &&& joint.subrange(offsets[k] - separator.len(), offsets[k]) == separator
        } by {
            assert(offsets[k - 1] == old_offsets[k - 1]);
            assert(parts[k - 1] == earlier[k - 1]);
            if k < earlier.len() {
                assert(offsets[k] == old_offsets[k]);
                assert(joint.subrange(offsets[k] - separator.len(), offsets[k])
                    =~= before.subrange(offsets[k] - separator.len(), offsets[k]));
            } else {
                assert(joint.subrange(offsets[k] - separator.len(), offsets[k]) =~= separator);
            }
        }
        assert(is_made_of(joint, parts, separator, offsets));
    }
}

/// A script sees the lines of a request but the cookies, in order, and behind
/// them, where there are cookies, one line that holds every one of them.
pub proof fn law_request_headers(map: &HeaderMap<HeaderValue>, r: Vec<(Vec<u8>, Vec<u8>)>)
    requires
        call_ensures(req_headers, (map,), r),
    ensures
        ({
            let cookie = "cookie".spec_bytes();
            let others = header_lines(*map).filter(|line: (Seq<u8>, Seq<u8>)| line.0 != cookie);
            let cookies = header_lines(*map).filter(
                |line: (Seq<u8>, Seq<u8>)| line.0 == cookie,
            ).map_values(|line: (Seq<u8>, Seq<u8>)| line.1);
            if cookies.len() == 0 {
                line_views(r@) == others
            } else {
                exists|joint: Seq<u8>, offsets: Seq<int>|
                    {
                        &&& line_views(r@) == others.push((cookie, joint))
                        &&& #[trigger] is_made_of(joint, cookies, "; ".spec_bytes(), offsets)
                    }
            }
        }),
{
    let cookie = "cookie".spec_bytes();
    law_values_under_a_name(header_lines(*map), cookie);
    law_lines_without_a_name(header_lines(*map), cookie);
    let cookies = values_named(header_lines(*map), cookie);
    if cookies.len() > 0 {
        law_joining(cookies, "; ".spec_bytes(), Seq::empty());
        let offsets = choose|offsets: Seq<int>|
            is_made_of(
                joined(cookies, "; ".spec_bytes()),
                cookies,
                "; ".spec_bytes(),
                offsets,
            );
        assert(is_made_of(
            joined(cookies, "; ".spec_bytes()),
            cookies,
            "; ".spec_bytes(),
            offsets,
        ));
    }
}

/// The headers of a request can be listed until the reader is closed, and are
/// the same before and after the body was read.
pub proof fn law_headers_are_listed<B, E>(
    reader: HttpRequestReader<B, E>,
    listed: Vec<(Vec<u8>, Vec<u8>)>,
    direct: Vec<(Vec<u8>, Vec<u8>)>,
)
    requires
        call_ensures(HttpRequestReader::<B, E>::header_list, (&reader,), listed),
        match reader {
            HttpRequestReader::Headers(request) => call_ensures(
                req_headers,
                (&request.headers,),
                direct,
            ),
            HttpRequestReader::Body(headers, _) => call_ensures(req_headers, (&headers,), direct),
            HttpRequestReader::Closed => false,
        },
    ensures
        line_views(listed@) == line_views(direct@),
{
}

/// Whether `after` are the entity tags `before` with the first one marked `W/`,
/// once.
pub open spec fn first_is_weak(before: Seq<Seq<u8>>, after: Seq<Seq<u8>>) -> bool {
    &&& after.len() == before.len()
    &&& forall|i: int| 0 < i < before.len() ==> #[trigger] after[i] == before[i]
    &&& if before[0].len() >= 2 && before[0][0] == 87 && before[0][1] == 47 {
        after[0] == before[0]
    } else {
        after[0] == seq![87u8, 47u8] + before[0]
    }
}

/// Whether `after` holds under each name but `but` what `before` does.
pub open spec fn same_but(
    before: Map<Seq<u8>, Seq<Seq<u8>>>,
    after: Map<Seq<u8>, Seq<Seq<u8>>>,
    but: Set<Seq<u8>>,
) -> bool {
    &&& forall|name: Seq<u8>|
        !but.contains(name) ==> (#[trigger] after.contains_key(name) <==> before.contains_key(name))
    &&& forall|name: Seq<u8>|
        !but.contains(name) && before.contains_key(name) ==> #[trigger] after[name] == before[name]
}

pub(crate) proof fn lemma_first_is_weak(values: Map<Seq<u8>, Seq<Seq<u8>>>)
    requires
        has_values(values),
        values.contains_key("etag".spec_bytes()),
    ensures
        weakened(values).contains_key("etag".spec_bytes()),
        first_is_weak(
            values["etag".spec_bytes()],
            weakened(values)["etag".spec_bytes()],
        ),
{
    reveal_strlit("W/");
    lemma_visible_text("W/");
    let mark = "W/".spec_bytes();
    assert(mark =~= seq![87u8, 47u8]);
    let tag = values["etag".spec_bytes()][0];
    if tag.len() >= 2 {
        assert(tag.subrange(0, 2)[0] == tag[0]);
        assert(tag.subrange(0, 2)[1] == tag[1]);
        if tag[0] == 87 && tag[1] == 47 {
            assert(tag.subrange(0, 2) =~= mark);
        }
    }
}

/// The first entity tag is marked `W/`, once, and nothing else changes.
pub proof fn law_weak_tags(hmap: &mut HeaderMap<HeaderValue>, r: ())
    requires
        call_ensures(weaken_etag, (hmap,), r),
    ensures
        ({
            let before = header_values(*old(hmap));
            let after = header_values(*final(hmap));
            let name = "etag".spec_bytes();
            &&& same_but(before, after, set![name])
            &&& after.contains_key(name) <==> before.contains_key(name)
            &&& before.contains_key(name) ==> first_is_weak(before[name], after[name])
        }),
{
    let before = header_values(*hmap);
    if before.contains_key("etag".spec_bytes()) {
        lemma_first_is_weak(before);
    }
}

/// Whether the part of `text` from `from` to `to`, which commas or the ends of
/// `text` bound, is `word` in upper or lower case, with blanks around it.
pub open spec fn is_part(
    text: Seq<u8>,
    word: Seq<u8>,
    from: int,
    start: int,
    to: int,
) -> bool {
    let end = start + word.len();
    &&& 0 <= from <= start <= end <= to <= text.len()
    &&& from == 0 || text[from - 1] == 44
    &&& to == text.len() || text[to] == 44
    &&& forall|i: int| from <= i < start ==> #[trigger] text[i] == 32 || text[i] == 9
    &&& forall|i: int| end <= i < to ==> #[trigger] text[i] == 32 || text[i] == 9
    &&& forall|j: int|
        0 <= j < word.len() ==> #[trigger] text[start + j] == word[j] || (65 <= text[start + j]
            <= 90 && text[start + j] + 32 == word[j])
}

/// Whether one of the comma-separated parts of `text` is `word`.
pub open spec fn has_part(text: Seq<u8>, word: Seq<u8>) -> bool {
    exists|from: int, start: int, to: int| is_part(text, word, from, start, to)
}

proof fn lemma_opening(text: Seq<u8>, at: int) -> (from: int)
    requires
        0 <= at <= text.len(),
        opens_at(text, at),
    ensures
        0 <= from <= at,
        from == 0 || text[from - 1] == 44,
        forall|i: int| from <= i < at ==> #[trigger] text[i] == 32 || text[i] == 9,
    decreases at,
{
    if at == 0 || text[at - 1] == 44 {
        at
    } else {
        lemma_opening(text, at - 1)
    }
}

proof fn lemma_opened(text: Seq<u8>, from: int, at: int)
    requires
        0 <= from <= at <= text.len(),
        from == 0 || text[from - 1] == 44,
        forall|i: int| from <= i < at ==> #[trigger] text[i] == 32 || text[i] == 9,
    ensures
        opens_at(text, at),
    decreases at,
{
    if from < at {
        lemma_opened(text, from, at - 1);
    }
}

proof fn lemma_closing(text: Seq<u8>, at: int) -> (to: int)
    requires
        0 <= at <= text.len(),
        closes_at(text, at),
    ensures
        at <= to <= text.len(),
        to == text.len() || text[to] == 44,
        forall|i: int| at <= i < to ==> #[trigger] text[i] == 32 || text[i] == 9,
    decreases text.len() - at,
{
    if at == text.len() || text[at] == 44 {
        at
    } else {
        lemma_closing(text, at + 1)
    }
}

proof fn lemma_closed(text: Seq<u8>, at: int, to: int)
    requires
        0 <= at <= to <= text.len(),
        to == text.len() || text[to] == 44,
        forall|i: int| at <= i < to ==> #[trigger] text[i] == 32 || text[i] == 9,
    ensures
        closes_at(text, at),
    decreases text.len() - at,
{
    if at < to {
        lemma_closed(text, at + 1, to);
    }
}

/// A word without capitals is listed exactly where one of the comma-separated
/// parts of the text is that word.
pub proof fn law_membership(text: Seq<u8>, word: Seq<u8>)
    requires
        forall|j: int| 0 <= j < word.len() ==> !(65 <= #[trigger] word[j] <= 90),
    ensures
        lists(text, word) <==> has_part(text, word),
{
    if lists(text, word) {
        let at = choose|at: int| lists_at(text, word, at);
        let end = at + word.len();
        let from = lemma_opening(text, at);
        let to = lemma_closing(text, end);
        assert forall|j: int| 0 <= j < word.len() implies #[trigger] text[at + j] == word[j] || (65
            <= text[at + j] <= 90 && text[at + j] + 32 == word[j]) by {
            assert(lower_bytes(text).subrange(at, end)[j] == lower_byte(text[at + j]));
        }
        assert(is_part(text, word, from, at, to));
    }
    if has_part(text, word) {
        let (from, start, to) = choose|from: int, start: int, to: int|
            is_part(text, word, from, start, to);
        let end = start + word.len();
        lemma_opened(text, from, start);
        lemma_closed(text, end, to);
        let there = lower_bytes(text).subrange(start, end);
        assert forall|j: int| 0 <= j < word.len() implies #[trigger] there[j] == word[j] by {
            assert(!(65 <= word[j] <= 90));
            assert(there[j] == lower_byte(text[start + j]));
        }
        assert(there =~= word);
        assert(mentions_at(text, word, start));
        assert(lists_at(text, word, start));
    }
}

/// Whether the `Vary` of `after` is what becomes of that of `before`. Its first
/// value has `Accept-Encoding` as one of its parts. One that had so before
/// stays; another one that can be read goes on behind the new part; one that
/// cannot gives way.
pub open spec fn vary_is_set(
    before: Map<Seq<u8>, Seq<Seq<u8>>>,
    after: Map<Seq<u8>, Seq<Seq<u8>>>,
) -> bool {
    let name = "vary".spec_bytes();
    let word = "accept-encoding".spec_bytes();
    &&& after.contains_key(name)
    &&& has_part(after[name][0], word)
    &&& if !before.contains_key(name) || !is_visible(before[name][0]) {
        after[name] == seq!["Accept-Encoding".spec_bytes()]
    } else if has_part(before[name][0], word) {
        after[name] == before[name]
    } else {
        &&& after[name].len() == before[name].len()
        &&& after[name][0] == "Accept-Encoding, ".spec_bytes() + before[name][0]
        &&& forall|i: int|
            0 < i < before[name].len() ==> #[trigger] after[name][i] == before[name][i]
    }
}

pub(crate) proof fn lemma_vary_is_set(values: Map<Seq<u8>, Seq<Seq<u8>>>)
    requires
        has_values(values),
    ensures
        vary_is_set(values, varied(values)),
        same_but(values, varied(values), set!["vary".spec_bytes()]),
{
    reveal_strlit("accept-encoding");
    lemma_visible_text("accept-encoding");
    let name = "vary".spec_bytes();
    let word = "accept-encoding".spec_bytes();
    law_vary_lists_accept_encoding(values);
    law_membership(varied(values)[name][0], word);
    if values.contains_key(name) {
        law_membership(values[name][0], word);
    }
}

/// After it was set, the first `Vary` has `Accept-Encoding` as one of its parts,
/// and nothing else has changed. It fails only where there is no `Vary` that can
/// be read and the map is full of names.
pub proof fn law_vary(hmap: &mut HeaderMap<HeaderValue>, r: Result<(), ResponseError>)
    requires
        call_ensures(ensure_vary_accept_encoding, (hmap,), r),
    ensures
        ({
            let before = header_values(*old(hmap));
            let after = header_values(*final(hmap));
            let name = "vary".spec_bytes();
            match r {
                Ok(_) => {
                    &&& vary_is_set(before, after)
                    &&& same_but(before, after, set![name])
                },
                Err(error) => {
                    &&& error is HeaderMapFull
                    &&& !before.contains_key(name) || !is_visible(before[name][0])
                    &&& before.dom().len() > 6553
                    &&& header_lines(*final(hmap)) == header_lines(*old(hmap))
                },
            }
        }),
{
    lemma_vary_is_set(header_values(*hmap));
}

/// Whether the first `Cache-Control` of a response forbids to transform it: it is
/// not UTF-8, or holds the directive `no-transform`.
pub open spec fn forbids_transform(values: Map<Seq<u8>, Seq<Seq<u8>>>) -> bool {
    &&& values.contains_key("cache-control".spec_bytes())
    &&& {
        let value = values["cache-control".spec_bytes()][0];
        !valid_utf8(value) || no_transform_directive(decode_utf8(value)) == Some(true)
    }
}

/// The verdict of the cache control is that of its parser, where there is text
/// to parse.
pub proof fn law_cache_control(headers: &HeaderMap<HeaderValue>, r: Option<bool>)
    requires
        call_ensures(cache_control_no_transform, (headers,), r),
    ensures
        r == Some(true) <==> forbids_transform(header_values(*headers)),
        !header_values(*headers).contains_key("cache-control".spec_bytes()) ==> r is None,
        header_values(*headers).contains_key("cache-control".spec_bytes()) && valid_utf8(
            header_values(*headers)["cache-control".spec_bytes()][0],
        ) ==> r == no_transform_directive(
            decode_utf8(header_values(*headers)["cache-control".spec_bytes()][0]),
        ),
{
}

/// A body may be transformed where nothing speaks against it.
pub proof fn law_may_transform(
    content_range: bool,
    precompressed: bool,
    no_transform: Option<bool>,
    r: bool,
)
    requires
        call_ensures(may_transform, (content_range, precompressed, no_transform), r),
    ensures
        content_range ==> !r,
        precompressed ==> !r,
        no_transform == Some(true) ==> !r,
        !content_range && !precompressed && no_transform != Some(true) ==> r,
{
}

/// Whether `verdict` is what is to be answered to the question whether a body
/// with these header values may be compressed and is worth it.
pub open spec fn is_right_verdict<F: Fn(&[u8]) -> bool>(
    is_content_compressible: F,
    values: Map<Seq<u8>, Seq<Seq<u8>>>,
    verdict: bool,
) -> bool {
    let content_type = "content-type".spec_bytes();
    let forbidden = values.contains_key("content-range".spec_bytes()) || values.contains_key(
        "content-encoding".spec_bytes(),
    ) || forbids_transform(values) || !values.contains_key(content_type);
    if forbidden {
        !verdict
    } else {
        exists|given: &[u8]|
            given@ == values[content_type][0] && #[trigger] call_ensures(
                is_content_compressible,
                (given,),
                verdict,
            )
    }
}

/// A response is compressed exactly where it is not part of a whole, bears no
/// encoding, may be transformed, and has a content type that is worth it.
pub proof fn law_should_compress<F: Fn(&[u8]) -> bool>(
    headers: &HeaderMap<HeaderValue>,
    is_content_compressible: F,
    r: bool,
)
    requires
        call_ensures(should_compress::<F>, (headers, is_content_compressible), r),
    ensures
        is_right_verdict(is_content_compressible, header_values(*headers), r),
{
}

} // verus!
