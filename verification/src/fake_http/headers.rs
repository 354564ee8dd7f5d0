//! The rules on the headers of requests and responses.

use hyper::header::{HeaderMap, HeaderValue};
use vstd::prelude::*;
use vstd::string::*;

use super::bytes::{
    closes_at, concat, lists, lists_at, lists_word, lower_bytes, mentions_at, opens_at, same_bytes,
    starts_with,
};
use super::cache_control::{cache_control_no_transform, cache_control_verdict};
use super::error::ResponseError;
use super::header_map::{
    all_lines, contains_name, first_under, first_value, has_values, header_lines, header_values,
    insert_line, is_field_value, is_visible, lemma_known_names, lemma_value_concat,
    lemma_visible_text, line_views, name_count, replace_first, value_text, values_named, SURE_ROOM,
};

verus! {

/// The weak form of an entity tag: marked `W/`.
pub open spec fn weak_tag(etag: Seq<u8>) -> Seq<u8> {
    if "W/".spec_bytes().is_prefix_of(etag) {
        etag
    } else {
        "W/".spec_bytes() + etag
    }
}

/// Header values with the first entity tag, where there is one, made weak.
pub open spec fn weakened(values: Map<Seq<u8>, Seq<Seq<u8>>>) -> Map<Seq<u8>, Seq<Seq<u8>>> {
    let name = "etag".spec_bytes();
    if values.contains_key(name) {
        values.insert(name, values[name].update(0, weak_tag(values[name][0])))
    } else {
        values
    }
}

/// Makes the entity tag of a response weak, as the tag of a body that is to be
/// compressed must be.
pub fn weaken_etag(hmap: &mut HeaderMap<HeaderValue>)
    ensures
        header_values(*final(hmap)) == weakened(header_values(*old(hmap))),
{
    proof {
        lemma_known_names();
        lemma_known_values();
    }
    let ghost before = header_values(*hmap);
    let weak = match first_value(hmap, "etag") {
        Some(etag) => if starts_with(etag, "W/".as_bytes()) {
            None
        } else {
            Some(concat("W/".as_bytes(), etag))
        },
        None => None,
    };
    if let Some(value) = weak {
        proof {
            lemma_value_concat("W/".spec_bytes(), before["etag".spec_bytes()][0]);
        }
        replace_first(hmap, "etag", value);
    } else {
        proof {
            let tags = before["etag".spec_bytes()];
            assert(before.contains_key("etag".spec_bytes()) ==> tags.update(0, tags[0]) =~= tags);
        }
        assert(weakened(before) =~= before);
    }
}

/// Header values that tell caches that the response varies with the
/// `Accept-Encoding` of the request: the first `Vary` lists the field already, is
/// made to list it, or, where it cannot be read, gives way to one that does.
pub open spec fn varied(values: Map<Seq<u8>, Seq<Seq<u8>>>) -> Map<Seq<u8>, Seq<Seq<u8>>> {
    let name = "vary".spec_bytes();
    if readable_vary(values) {
        let vary = values[name][0];
        if lists(vary, "accept-encoding".spec_bytes()) {
            values
        } else {
            values.insert(name, values[name].update(0, "Accept-Encoding, ".spec_bytes() + vary))
        }
    } else {
        values.insert(name, seq!["Accept-Encoding".spec_bytes()])
    }
}

/// Whether there is a `Vary` whose first value is plain text.
pub open spec fn readable_vary(values: Map<Seq<u8>, Seq<Seq<u8>>>) -> bool {
    let name = "vary".spec_bytes();
    values.contains_key(name) && is_visible(values[name][0])
}

/// Sets `Vary: Accept-Encoding`, whether or not the body is compressed, so that
/// no cache serves the plain body to clients that take a compressed one. Fails
/// only where a line has to be added to a map that is full.
pub fn ensure_vary_accept_encoding(hmap: &mut HeaderMap<HeaderValue>) -> (r: Result<
    (),
    ResponseError,
>)
    ensures
        r is Ok ==> header_values(*final(hmap)) == varied(header_values(*old(hmap))),
        r matches Err(error) ==> {
            &&& error is HeaderMapFull
            &&& !readable_vary(header_values(*old(hmap)))
            &&& name_count(header_values(*old(hmap))) > SURE_ROOM
            &&& header_lines(*final(hmap)) == header_lines(*old(hmap))
        },
{
    proof {
        lemma_known_names();
        lemma_known_values();
    }
    let ghost before = header_values(*hmap);
    let replaced = match first_value(hmap, "vary") {
        Some(vary) => match value_text(vary) {
            Ok(_) => {
                if lists_word(vary, "accept-encoding".as_bytes()) {
                    return Ok(());
                }
                Some(concat("Accept-Encoding, ".as_bytes(), vary))
            },
            Err(_) => None,
        },
        None => None,
    };
    if let Some(value) = replaced {
        proof {
            lemma_value_concat("Accept-Encoding, ".spec_bytes(), before["vary".spec_bytes()][0]);
        }
        replace_first(hmap, "vary", value);
        return Ok(());
    }
    let value = vstd::slice::slice_to_vec("Accept-Encoding".as_bytes());
    match insert_line(hmap, "vary", value) {
        Ok(_) => Ok(()),
        Err(_) => Err(ResponseError::HeaderMapFull),
    }
}

proof fn lemma_known_values()
    ensures
        is_field_value("W/".spec_bytes()),
        is_field_value("Accept-Encoding".spec_bytes()),
        is_field_value("Accept-Encoding, ".spec_bytes()),
{
    reveal_strlit("W/");
    lemma_visible_text("W/");
    reveal_strlit("Accept-Encoding");
    lemma_visible_text("Accept-Encoding");
    reveal_strlit("Accept-Encoding, ");
    lemma_visible_text("Accept-Encoding, ");
}

/// Whether nothing in the head of a response speaks against compressing it:
/// neither is the body part of a whole, nor compressed already, nor does its
/// cache control forbid to transform it.
pub open spec fn transformable(values: Map<Seq<u8>, Seq<Seq<u8>>>) -> bool {
    &&& !values.contains_key("content-range".spec_bytes())
    &&& !values.contains_key("content-encoding".spec_bytes())
    &&& cache_control_verdict(first_under(values, "cache-control".spec_bytes())) != Some(true)
}

/// Whether `verdict` is an answer that `is_content_compressible` gives on the
/// content type of a response. One without a content type is not compressible.
pub open spec fn type_verdict<F: Fn(&[u8]) -> bool>(
    is_content_compressible: F,
    values: Map<Seq<u8>, Seq<Seq<u8>>>,
    verdict: bool,
) -> bool {
    match first_under(values, "content-type".spec_bytes()) {
        Some(bytes) => exists|content_type: &[u8]|
            content_type@ == bytes && #[trigger] call_ensures(
                is_content_compressible,
                (content_type,),
                verdict,
            ),
        None => !verdict,
    }
}

/// Whether `verdict` is an answer to the question whether a response with these
/// header values is to be compressed.
pub open spec fn judged<F: Fn(&[u8]) -> bool>(
    is_content_compressible: F,
    values: Map<Seq<u8>, Seq<Seq<u8>>>,
    verdict: bool,
) -> bool {
    if transformable(values) {
        type_verdict(is_content_compressible, values, verdict)
    } else {
        !verdict
    }
}

/// Whether a body with this content range, content encoding and verdict of the
/// cache control may be transformed.
pub fn may_transform(content_range: bool, precompressed: bool, no_transform: Option<bool>) -> (r:
    bool)
    ensures
        r == (!content_range && !precompressed && no_transform != Some(true)),
{
    let forbidden = match no_transform {
        Some(flag) => flag,
        None => false,
    };
    !content_range && !precompressed && !forbidden
}

/// Whether the body of a response with these headers is worth compressing and
/// may be. `is_content_compressible` judges the content type.
pub fn should_compress<F: Fn(&[u8]) -> bool>(
    headers: &HeaderMap<HeaderValue>,
    is_content_compressible: F,
) -> (r: bool)
    requires
        forall|content_type: &[u8]| call_requires(is_content_compressible, (content_type,)),
    ensures
        judged(is_content_compressible, header_values(*headers), r),
{
    proof {
        lemma_known_names();
    }
    // The range of a body was negotiated on the body as it is.
    let content_range = contains_name(headers, "content-range");
    // A body that bears an encoding is taken to be compressed already.
    let precompressed = contains_name(headers, "content-encoding");
    if !may_transform(content_range, precompressed, cache_control_no_transform(headers)) {
        return false;
    }
    match first_value(headers, "content-type") {
        Some(content_type) => is_content_compressible(content_type),
        None => false,
    }
}

/// The lines that do not bear `name`, in order.
pub open spec fn lines_without(lines: Seq<(Seq<u8>, Seq<u8>)>, name: Seq<u8>) -> Seq<
    (Seq<u8>, Seq<u8>),
>
    decreases lines.len(),
{
    if lines.len() == 0 {
        Seq::empty()
    } else {
        let rest = lines_without(lines.drop_last(), name);
        if lines.last().0 == name {
            rest
        } else {
            rest.push(lines.last())
        }
    }
}

/// `parts` one behind the other, with `separator` between each two.
pub open spec fn joined(parts: Seq<Seq<u8>>, separator: Seq<u8>) -> Seq<u8>
    decreases parts.len(),
{
    if parts.len() == 0 {
        Seq::empty()
    } else if parts.len() == 1 {
        parts[0]
    } else {
        joined(parts.drop_last(), separator) + separator + parts.last()
    }
}

/// The header lines of a request as a script sees them: the lines of the
/// request, except that its cookies, where it has any, make up one line at the
/// end.
pub open spec fn request_lines(lines: Seq<(Seq<u8>, Seq<u8>)>) -> Seq<(Seq<u8>, Seq<u8>)> {
    let name = "cookie".spec_bytes();
    let cookies = values_named(lines, name);
    if cookies.len() == 0 {
        lines_without(lines, name)
    } else {
        lines_without(lines, name).push((name, joined(cookies, "; ".spec_bytes())))
    }
}

/// The headers of a request. All cookie headers become a single one, joined by
/// semicolons, so that the script's `Headers` object cannot mangle them.
pub fn req_headers(header_map: &HeaderMap<HeaderValue>) -> (r: Vec<(Vec<u8>, Vec<u8>)>)
    ensures
        line_views(r@) == request_lines(header_lines(*header_map)),
{
    let ghost name = "cookie".spec_bytes();
    let ghost separator = "; ".spec_bytes();
    let lines = all_lines(header_map);
    let ghost views = line_views(lines@);
    let mut cookies: Option<Vec<u8>> = None;
    let mut headers: Vec<(Vec<u8>, Vec<u8>)> = Vec::with_capacity(lines.len());
    let mut i: usize = 0;
    while i < lines.len()
        invariant
            name == "cookie".spec_bytes(),
            separator == "; ".spec_bytes(),
            i <= lines@.len(),
            views == line_views(lines@),
            line_views(headers@) == lines_without(views.take(i as int), name),
            cookies is Some <==> values_named(views.take(i as int), name).len() > 0,
            cookies matches Some(joint) ==> joint@ == joined(
                values_named(views.take(i as int), name),
                separator,
            ),
        decreases lines@.len() - i,
    {
        let (field, value) = (&lines[i].0, &lines[i].1);
        proof {
            let next = views.take(i + 1);
            assert(next.drop_last() =~= views.take(i as int));
            assert(next.last() == (field@, value@));
        }
        if same_bytes(field, "cookie".as_bytes()) {
            cookies = Some(
                match cookies {
                    Some(joint) => concat(&concat(&joint, "; ".as_bytes()), value),
                    None => vstd::slice::slice_to_vec(value),
                },
            );
            proof {
                let all = values_named(views.take(i + 1), name);
                assert(all.drop_last() =~= values_named(views.take(i as int), name));
            }
        } else {
            let ghost before = headers@;
            headers.push((vstd::slice::slice_to_vec(field), vstd::slice::slice_to_vec(value)));
            assert(line_views(headers@) =~= line_views(before).push((field@, value@)));
        }
        i += 1;
    }
    assert(views.take(i as int) =~= views);
    if let Some(joint) = cookies {
        let ghost before = headers@;
        headers.push((vstd::slice::slice_to_vec("cookie".as_bytes()), joint));
        assert(line_views(headers@) =~= line_views(before).push((name, joint@)));
    }
    headers
}

/// The names of the fields that the crate sets are different names.
pub(crate) proof fn lemma_names_differ()
    ensures
        "vary".spec_bytes() != "etag".spec_bytes(),
        "vary".spec_bytes() != "content-length".spec_bytes(),
        "vary".spec_bytes() != "content-encoding".spec_bytes(),
        "etag".spec_bytes() != "content-length".spec_bytes(),
        "etag".spec_bytes() != "content-encoding".spec_bytes(),
        "content-length".spec_bytes() != "content-encoding".spec_bytes(),
{
    reveal_strlit("vary");
    lemma_visible_text("vary");
    reveal_strlit("etag");
    lemma_visible_text("etag");
    reveal_strlit("content-length");
    lemma_visible_text("content-length");
    reveal_strlit("content-encoding");
    lemma_visible_text("content-encoding");
    assert("vary".spec_bytes()[0] != "etag".spec_bytes()[0]);
}

/// The weak form of a tag is marked as weak, and is its own weak form.
pub proof fn lemma_weak_tag_is_weak(etag: Seq<u8>)
    ensures
        "W/".spec_bytes().is_prefix_of(weak_tag(etag)),
        weak_tag(weak_tag(etag)) == weak_tag(etag),
{
    let mark = "W/".spec_bytes();
    assert((mark + etag).subrange(0, mark.len() as int) =~= mark);
}

/// Making the entity tag of a response weak twice is the same as doing it once.
pub proof fn law_weaken_twice_is_once(values: Map<Seq<u8>, Seq<Seq<u8>>>)
    requires
        has_values(values),
    ensures
        weakened(weakened(values)) == weakened(values),
{
    let name = "etag".spec_bytes();
    if values.contains_key(name) {
        lemma_weak_tag_is_weak(values[name][0]);
        let once = weakened(values);
        assert(once[name].update(0, weak_tag(once[name][0])) =~= once[name]);
        assert(weakened(once) =~= once);
    }
}

proof fn lemma_vary_words()
    ensures
        lower_bytes("Accept-Encoding".spec_bytes()) == "accept-encoding".spec_bytes(),
        lower_bytes("Accept-Encoding, ".spec_bytes()).subrange(0, 15)
            == "accept-encoding".spec_bytes(),
        "accept-encoding".spec_bytes().len() == 15,
        "Accept-Encoding".spec_bytes().len() == 15,
        "Accept-Encoding, ".spec_bytes().len() == 17,
        "Accept-Encoding, ".spec_bytes()[15] == 44,
        is_visible("Accept-Encoding".spec_bytes()),
        is_visible("Accept-Encoding, ".spec_bytes()),
{
    reveal_strlit("Accept-Encoding");
    lemma_visible_text("Accept-Encoding");
    reveal_strlit("accept-encoding");
    lemma_visible_text("accept-encoding");
    reveal_strlit("Accept-Encoding, ");
    lemma_visible_text("Accept-Encoding, ");
    assert(lower_bytes("Accept-Encoding".spec_bytes()) =~= "accept-encoding".spec_bytes());
    assert(lower_bytes("Accept-Encoding, ".spec_bytes()).subrange(0, 15)
        =~= "accept-encoding".spec_bytes());
}

/// After `Vary` was set, it can be read and lists `Accept-Encoding`.
pub proof fn law_vary_lists_accept_encoding(values: Map<Seq<u8>, Seq<Seq<u8>>>)
    requires
        has_values(values),
    ensures
        readable_vary(varied(values)),
        lists(varied(values)["vary".spec_bytes()][0], "accept-encoding".spec_bytes()),
{
    lemma_vary_words();
    let name = "vary".spec_bytes();
    let word = "accept-encoding".spec_bytes();
    if readable_vary(values) {
        let vary = values[name][0];
        if !lists(vary, word) {
            let prefix = "Accept-Encoding, ".spec_bytes();
            let text = prefix + vary;
            assert(varied(values)[name][0] == text);
            assert(lower_bytes(text).subrange(0, 15) =~= lower_bytes(prefix).subrange(0, 15));
            assert(mentions_at(text, word, 0));
            assert(text[15] == prefix[15]);
            assert(opens_at(text, 0) && closes_at(text, 15));
            assert(lists_at(text, word, 0));
            assert forall|i: int| 0 <= i < text.len() implies 32 <= #[trigger] text[i] < 127
                || text[i] == 9 by {
                if i < prefix.len() {
                    assert(text[i] == prefix[i]);
                } else {
                    assert(text[i] == vary[i - prefix.len()]);
                }
            }
        }
    } else {
        let text = "Accept-Encoding".spec_bytes();
        assert(varied(values)[name][0] == text);
        assert(lower_bytes(text).subrange(0, 15) =~= lower_bytes(text));
        assert(mentions_at(text, word, 0));
        assert(opens_at(text, 0) && closes_at(text, 15));
        assert(lists_at(text, word, 0));
    }
}

/// Setting `Vary` twice is the same as setting it once.
pub proof fn law_vary_twice_is_once(values: Map<Seq<u8>, Seq<Seq<u8>>>)
    requires
        has_values(values),
    ensures
        varied(varied(values)) == varied(values),
{
    law_vary_lists_accept_encoding(values);
}

proof fn lemma_without(lines: Seq<(Seq<u8>, Seq<u8>)>, gone: Seq<u8>, name: Seq<u8>)
    ensures
        name != gone ==> values_named(lines_without(lines, gone), name) == values_named(
            lines,
            name,
        ),
        values_named(lines_without(lines, gone), gone).len() == 0,
        lines_without(lines_without(lines, gone), gone) == lines_without(lines, gone),
    decreases lines.len(),
{
    if lines.len() > 0 {
        lemma_without(lines.drop_last(), gone, name);
        let rest = lines_without(lines.drop_last(), gone);
        if lines.last().0 != gone {
            assert(rest.push(lines.last()).drop_last() =~= rest);
        }
    }
}

/// A script sees every field of a request but the cookies with all its values,
/// in order.
pub proof fn law_other_fields_are_kept(lines: Seq<(Seq<u8>, Seq<u8>)>, name: Seq<u8>)
    requires
        name != "cookie".spec_bytes(),
    ensures
        values_named(request_lines(lines), name) == values_named(lines, name),
{
    let cookie = "cookie".spec_bytes();
    lemma_without(lines, cookie, name);
    let rest = lines_without(lines, cookie);
    let line = (cookie, joined(values_named(lines, cookie), "; ".spec_bytes()));
    assert(rest.push(line).drop_last() =~= rest);
}

/// A script sees one cookie field at most, and one exactly where the request
/// has any: all the cookies, in order.
pub proof fn law_one_cookie_field(lines: Seq<(Seq<u8>, Seq<u8>)>)
    ensures
        values_named(request_lines(lines), "cookie".spec_bytes()) == (if values_named(
            lines,
            "cookie".spec_bytes(),
        ).len() == 0 {
            Seq::empty()
        } else {
            seq![joined(values_named(lines, "cookie".spec_bytes()), "; ".spec_bytes())]
        }),
{
    let cookie = "cookie".spec_bytes();
    lemma_without(lines, cookie, cookie);
    let rest = lines_without(lines, cookie);
    let line = (cookie, joined(values_named(lines, cookie), "; ".spec_bytes()));
    assert(rest.push(line).drop_last() =~= rest);
    assert(values_named(request_lines(lines), cookie) =~= (if values_named(lines, cookie).len()
        == 0 {
        Seq::empty()
    } else {
        seq![line.1]
    }));
}

/// Joining the cookies of lines whose cookies were joined changes nothing.
pub proof fn law_join_twice_is_once(lines: Seq<(Seq<u8>, Seq<u8>)>)
    ensures
        request_lines(request_lines(lines)) == request_lines(lines),
{
    let cookie = "cookie".spec_bytes();
    law_one_cookie_field(lines);
    lemma_without(lines, cookie, cookie);
    let rest = lines_without(lines, cookie);
    let line = (cookie, joined(values_named(lines, cookie), "; ".spec_bytes()));
    assert(rest.push(line).drop_last() =~= rest);
}

} // verus!
