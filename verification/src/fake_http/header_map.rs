//! `hyper::HeaderMap` as a collection: what it holds, and the operations on it
//! that the rest of the crate relies on.

use hyper::header::{
    HeaderMap, HeaderName, HeaderValue, InvalidHeaderName, InvalidHeaderValue, MaxSizeReached,
    ToStrError,
};
use vstd::prelude::*;
use vstd::seq_lib::seq_to_set_is_finite;
use vstd::set_lib::lemma_set_subset_finite;
use vstd::string::*;
use vstd::utf8::*;

verus! {

/// hyper's header map.
#[verifier::external_type_specification]
#[verifier::external_body]
#[verifier::reject_recursive_types(T)]
pub struct ExHeaderMap<T>(HeaderMap<T>);

/// The value of a line of a header map.
#[verifier::external_type_specification]
#[verifier::external_body]
pub struct ExHeaderValue(HeaderValue);

/// The error of `HeaderName::from_bytes`.
#[verifier::external_type_specification]
#[verifier::external_body]
pub struct ExInvalidHeaderName(InvalidHeaderName);

/// The error of `HeaderValue::try_from`.
#[verifier::external_type_specification]
#[verifier::external_body]
pub struct ExInvalidHeaderValue(InvalidHeaderValue);

/// The error of operations that find a header map full.
#[verifier::external_type_specification]
#[verifier::external_body]
pub struct ExMaxSizeReached(MaxSizeReached);

/// The error of `HeaderValue::to_str`.
#[verifier::external_type_specification]
#[verifier::external_body]
pub struct ExToStrError(ToStrError);

/// The lines of a header map, name and value of each, in the order in which
/// `HeaderMap::iter` visits them. Names stand in their canonical, lower-case
/// form.
pub uninterp spec fn header_lines(map: HeaderMap<HeaderValue>) -> Seq<(Seq<u8>, Seq<u8>)>;

/// Lines that are held as vectors of bytes.
pub open spec fn line_views(lines: Seq<(Vec<u8>, Vec<u8>)>) -> Seq<(Seq<u8>, Seq<u8>)> {
    Seq::new(lines.len(), |i: int| (lines[i].0@, lines[i].1@))
}

/// The values of the lines that bear `name`, in order.
pub open spec fn values_named(lines: Seq<(Seq<u8>, Seq<u8>)>, name: Seq<u8>) -> Seq<Seq<u8>>
    decreases lines.len(),
{
    if lines.len() == 0 {
        Seq::empty()
    } else {
        let rest = values_named(lines.drop_last(), name);
        if lines.last().0 == name {
            rest.push(lines.last().1)
        } else {
            rest
        }
    }
}

/// What a header map associates with each name that occurs in it: the values,
/// at least one, in the order in which they were added.
pub open spec fn header_values(map: HeaderMap<HeaderValue>) -> Map<Seq<u8>, Seq<Seq<u8>>> {
    Map::new(
        |name: Seq<u8>| values_named(header_lines(map), name).len() > 0,
        |name: Seq<u8>| values_named(header_lines(map), name),
    )
}

/// Whether there is a value under each name, as there is in a header map.
pub open spec fn has_values(values: Map<Seq<u8>, Seq<Seq<u8>>>) -> bool {
    forall|name: Seq<u8>| #[trigger] values.contains_key(name) ==> values[name].len() > 0
}

/// The first of the values under a name, where the name occurs.
pub open spec fn first_under(values: Map<Seq<u8>, Seq<Seq<u8>>>, name: Seq<u8>) -> Option<Seq<u8>> {
    if values.contains_key(name) {
        Some(values[name][0])
    } else {
        None
    }
}

/// The lower-case form of a byte that may stand in a field name, and 0 for one
/// that may not.
pub open spec fn name_byte(b: u8) -> u8 {
    if 65 <= b <= 90 {
        (b + 32) as u8
    } else if 33 <= b <= 39 || b == 42 || b == 43 || b == 45 || b == 46 || 48 <= b <= 57
        || 94 <= b <= 122 || b == 124 || b == 126 {
        b
    } else {
        0
    }
}

/// Whether `raw` spells a field name.
pub open spec fn is_field_name(raw: Seq<u8>) -> bool {
    &&& 1 <= raw.len() <= 65535
    &&& forall|i: int| 0 <= i < raw.len() ==> name_byte(#[trigger] raw[i]) != 0
}

/// The canonical form of a field name.
pub open spec fn canonical_name(raw: Seq<u8>) -> Seq<u8> {
    Seq::new(raw.len(), |i: int| name_byte(raw[i]))
}

/// Whether `name` is a field name in its canonical form.
pub open spec fn is_canonical(name: Seq<u8>) -> bool {
    is_field_name(name) && canonical_name(name) == name
}

/// Whether `raw` may stand as the value of a field.
pub open spec fn is_field_value(raw: Seq<u8>) -> bool {
    forall|i: int| 0 <= i < raw.len() ==> (#[trigger] raw[i] >= 32 && raw[i] != 127) || raw[i] == 9
}

/// Whether a field value consists of visible ASCII, blanks and tabs.
pub open spec fn is_visible(raw: Seq<u8>) -> bool {
    forall|i: int| 0 <= i < raw.len() ==> 32 <= #[trigger] raw[i] < 127 || raw[i] == 9
}

/// How many names occur, each counted once however many values it has.
pub open spec fn name_count(values: Map<Seq<u8>, Seq<Seq<u8>>>) -> nat {
    values.dom().len()
}

/// A map with no more names than this takes another line, whatever the names: it
/// fills less than a fifth of the largest table, so that a map whose names
/// collide is hashed anew instead of growing. A fuller map may refuse a line,
/// depending on how the names hash.
pub const SURE_ROOM: usize = 6553;

/// `HeaderMap::new`: the map starts without lines.
#[verifier::external_body]
pub(crate) fn new_map() -> (map: HeaderMap<HeaderValue>)
    ensures
        header_lines(map) == Seq::<(Seq<u8>, Seq<u8>)>::empty(),
{
    HeaderMap::new()
}

/// The number of lines that a header map can be asked to make room for.
pub const MAX_RESERVE: usize = 32768;

/// `HeaderMap::try_reserve` on a map without lines: fails only where more room
/// is asked for than any map has, and leaves the map without lines.
#[verifier::external_body]
pub(crate) fn reserve_lines(map: &mut HeaderMap<HeaderValue>, additional: usize) -> (r: Result<
    (),
    MaxSizeReached,
>)
    requires
        header_lines(*old(map)).len() == 0,
    ensures
        r is Ok <==> additional <= MAX_RESERVE,
        header_lines(*final(map)).len() == 0,
{
    map.try_reserve(additional)
}

/// `HeaderName::from_bytes`: accepts what spells a field name and brings it to
/// its canonical form.
#[verifier::external_body]
pub(crate) fn parse_name(raw: &[u8]) -> (r: Result<Vec<u8>, InvalidHeaderName>)
    ensures
        r is Ok <==> is_field_name(raw@),
        r matches Ok(name) ==> name@ == canonical_name(raw@),
{
    HeaderName::from_bytes(raw).map(|name| name.as_str().as_bytes().to_vec())
}

/// `HeaderValue::try_from` on a vector of bytes: accepts what may stand as a
/// field value and keeps the bytes as they are.
#[verifier::external_body]
pub(crate) fn parse_value(raw: Vec<u8>) -> (r: Result<Vec<u8>, InvalidHeaderValue>)
    ensures
        r is Ok <==> is_field_value(raw@),
        r matches Ok(value) ==> value@ == raw@,
{
    HeaderValue::try_from(raw).map(|value| value.as_bytes().to_vec())
}

/// `HeaderValue::to_str`: the text of a value that is visible throughout, and
/// an error for any other value.
#[verifier::external_body]
pub(crate) fn value_text(value: &[u8]) -> (r: Result<String, ToStrError>)
    requires
        is_field_value(value@),
    ensures
        r is Ok <==> is_visible(value@),
        r matches Ok(text) ==> text@ == decode_utf8(value@),
{
    HeaderValue::from_bytes(value).unwrap().to_str().map(|text| text.to_owned())
}

/// `HeaderMap::get`: the first value under the name, which like every value of
/// a header map may stand as a field value, or nothing where the name does not
/// occur.
#[verifier::external_body]
pub(crate) fn first_value<'a>(map: &'a HeaderMap<HeaderValue>, name: &str) -> (r: Option<&'a [u8]>)
    requires
        is_canonical(name.spec_bytes()),
    ensures
        r is Some <==> header_values(*map).contains_key(name.spec_bytes()),
        r matches Some(value) ==> value@ == header_values(*map)[name.spec_bytes()][0]
            && is_field_value(value@),
{
    map.get(name).map(|value| value.as_bytes())
}

/// `HeaderMap::contains_key`: whether the name occurs.
#[verifier::external_body]
pub(crate) fn contains_name(map: &HeaderMap<HeaderValue>, name: &str) -> (r: bool)
    requires
        is_canonical(name.spec_bytes()),
    ensures
        r == header_values(*map).contains_key(name.spec_bytes()),
{
    map.contains_key(name)
}

/// An assignment through `HeaderMap::get_mut`: the first value under the name
/// gives way to `value`, and nothing else changes.
#[verifier::external_body]
pub(crate) fn replace_first(map: &mut HeaderMap<HeaderValue>, name: &str, value: Vec<u8>)
    requires
        is_canonical(name.spec_bytes()),
        is_field_value(value@),
        header_values(*old(map)).contains_key(name.spec_bytes()),
    ensures
        header_values(*final(map)) == header_values(*old(map)).insert(
            name.spec_bytes(),
            header_values(*old(map))[name.spec_bytes()].update(0, value@),
        ),
{
    *map.get_mut(name).unwrap() = HeaderValue::try_from(value).unwrap();
}

/// `HeaderMap::try_append`: adds the value behind those that the name already
/// has. A full map refuses the line and keeps what it holds.
#[verifier::external_body]
pub(crate) fn append_line(map: &mut HeaderMap<HeaderValue>, name: &[u8], value: Vec<u8>) -> (r:
    Result<bool, MaxSizeReached>)
    requires
        is_canonical(name@),
        is_field_value(value@),
    ensures
        name_count(header_values(*old(map))) <= SURE_ROOM ==> r is Ok,
        r matches Ok(occurred) ==> {
            &&& occurred == header_values(*old(map)).contains_key(name@)
            &&& header_values(*final(map)) == with_line(
                header_values(*old(map)),
                name@,
                value@,
            )
            &&& header_lines(*final(map)).len() == header_lines(*old(map)).len() + 1
        },
        r is Err ==> header_lines(*final(map)) == header_lines(*old(map)),
{
    map.try_append(HeaderName::from_bytes(name).unwrap(), HeaderValue::try_from(value).unwrap())
}

/// `HeaderMap::try_insert`: the value becomes the only one under the name. A
/// full map refuses the line and keeps what it holds.
#[verifier::external_body]
pub(crate) fn insert_line(
    map: &mut HeaderMap<HeaderValue>,
    name: &'static str,
    value: Vec<u8>,
) -> (r: Result<Option<HeaderValue>, MaxSizeReached>)
    requires
        is_canonical(name.spec_bytes()),
        is_field_value(value@),
    ensures
        name_count(header_values(*old(map))) <= SURE_ROOM ==> r is Ok,
        r is Ok ==> header_values(*final(map)) == header_values(*old(map)).insert(
            name.spec_bytes(),
            seq![value@],
        ),
        r is Err ==> header_lines(*final(map)) == header_lines(*old(map)),
{
    map.try_insert(name, HeaderValue::try_from(value).unwrap())
}

/// `HeaderMap::remove`: the name and all its values are gone.
#[verifier::external_body]
pub(crate) fn remove_name(map: &mut HeaderMap<HeaderValue>, name: &str)
    requires
        is_canonical(name.spec_bytes()),
    ensures
        header_values(*final(map)) == header_values(*old(map)).remove(name.spec_bytes()),
{
    map.remove(name);
}

/// `HeaderMap::iter`: every line, name and value as bytes, in the order of the
/// map.
#[verifier::external_body]
pub(crate) fn all_lines(map: &HeaderMap<HeaderValue>) -> (lines: Vec<(Vec<u8>, Vec<u8>)>)
    ensures
        line_views(lines@) == header_lines(*map),
{
    map.iter()
        .map(|(name, value)| (name.as_str().as_bytes().to_vec(), value.as_bytes().to_vec()))
        .collect()
}

/// The values of a header map once `value` has been added under `name`.
pub open spec fn with_line(
    values: Map<Seq<u8>, Seq<Seq<u8>>>,
    name: Seq<u8>,
    value: Seq<u8>,
) -> Map<Seq<u8>, Seq<Seq<u8>>> {
    if values.contains_key(name) {
        values.insert(name, values[name].push(value))
    } else {
        values.insert(name, seq![value])
    }
}

/// Two field values, one behind the other, are a field value.
pub(crate) proof fn lemma_value_concat(a: Seq<u8>, b: Seq<u8>)
    requires
        is_field_value(a),
        is_field_value(b),
    ensures
        is_field_value(a + b),
{
    assert forall|i: int| 0 <= i < (a + b).len() implies (#[trigger] (a + b)[i] >= 32 && (a + b)[i]
        != 127) || (a + b)[i] == 9 by {
        if i < a.len() {
            assert((a + b)[i] == a[i]);
        } else {
            assert((a + b)[i] == b[i - a.len()]);
        }
    }
}

/// The bytes of a text of visible ASCII characters.
pub(crate) proof fn lemma_visible_text(text: &str)
    requires
        text.is_ascii(),
        forall|i: int|
            0 <= i < text@.len() ==> 32 <= #[trigger] text@[i] as u8 && (text@[i] as u8) < 127,
    ensures
        text.spec_bytes() == Seq::new(text@.len(), |i: int| text@[i] as u8),
        is_visible(text.spec_bytes()),
        is_field_value(text.spec_bytes()),
{
    is_ascii_spec_bytes(text);
}

/// In a header map only so many names occur.
pub(crate) proof fn lemma_finite_names(map: HeaderMap<HeaderValue>)
    ensures
        header_values(map).dom().finite(),
{
    let names = header_lines(map).map_values(|line: (Seq<u8>, Seq<u8>)| line.0).to_set();
    seq_to_set_is_finite(header_lines(map).map_values(|line: (Seq<u8>, Seq<u8>)| line.0));
    assert forall|name: Seq<u8>| header_values(map).dom().contains(name) implies names.contains(
        name,
    ) by {
        lemma_named_line(header_lines(map), name);
        let i = choose|i: int|
            0 <= i < header_lines(map).len() && #[trigger] header_lines(map)[i].0 == name;
        assert(header_lines(map).map_values(|line: (Seq<u8>, Seq<u8>)| line.0)[i] == name);
    }
    lemma_set_subset_finite(names, header_values(map).dom());
}

proof fn lemma_named_line(lines: Seq<(Seq<u8>, Seq<u8>)>, name: Seq<u8>)
    requires
        values_named(lines, name).len() > 0,
    ensures
        exists|i: int| 0 <= i < lines.len() && #[trigger] lines[i].0 == name,
    decreases lines.len(),
{
    if lines.last().0 == name {
        assert(lines[lines.len() - 1].0 == name);
    } else {
        lemma_named_line(lines.drop_last(), name);
        let i = choose|i: int|
            0 <= i < lines.drop_last().len() && #[trigger] lines.drop_last()[i].0 == name;
        assert(lines[i].0 == name);
    }
}

/// A map without lines associates nothing with any name.
pub(crate) proof fn lemma_no_lines(map: HeaderMap<HeaderValue>)
    requires
        header_lines(map).len() == 0,
    ensures
        header_values(map) == Map::<Seq<u8>, Seq<Seq<u8>>>::empty(),
{
    assert(header_values(map) =~= Map::<Seq<u8>, Seq<Seq<u8>>>::empty());
}

/// The canonical form of a field name is a field name in its canonical form.
pub proof fn lemma_canonical_is_canonical(raw: Seq<u8>)
    requires
        is_field_name(raw),
    ensures
        is_canonical(canonical_name(raw)),
{
    let name = canonical_name(raw);
    assert forall|i: int| 0 <= i < name.len() implies name_byte(#[trigger] name[i]) == name[i]
        && name[i] != 0 by {
        assert(name_byte(raw[i]) != 0);
    }
    assert(canonical_name(name) =~= name);
}

proof fn lemma_canonical_text(name: &str)
    requires
        name.is_ascii(),
        1 <= name@.len() <= 65535,
        forall|i: int|
            0 <= i < name@.len() ==> name_byte(#[trigger] name@[i] as u8) == name@[i] as u8
                && name@[i] as u8 != 0,
    ensures
        is_canonical(name.spec_bytes()),
{
    is_ascii_spec_bytes(name);
    assert(canonical_name(name.spec_bytes()) =~= name.spec_bytes());
}

/// The names that the crate looks up are in canonical form.
pub proof fn lemma_known_names()
    ensures
        is_canonical("etag".spec_bytes()),
        is_canonical("vary".spec_bytes()),
        is_canonical("cache-control".spec_bytes()),
        is_canonical("content-range".spec_bytes()),
        is_canonical("content-encoding".spec_bytes()),
        is_canonical("content-type".spec_bytes()),
        is_canonical("content-length".spec_bytes()),
        is_canonical("host".spec_bytes()),
        is_canonical("cookie".spec_bytes()),
{
    reveal_strlit("etag");
    lemma_canonical_text("etag");
    reveal_strlit("vary");
    lemma_canonical_text("vary");
    reveal_strlit("cache-control");
    lemma_canonical_text("cache-control");
    reveal_strlit("content-range");
    lemma_canonical_text("content-range");
    reveal_strlit("content-encoding");
    lemma_canonical_text("content-encoding");
    reveal_strlit("content-type");
    lemma_canonical_text("content-type");
    reveal_strlit("content-length");
    lemma_canonical_text("content-length");
    reveal_strlit("host");
    lemma_canonical_text("host");
    reveal_strlit("cookie");
    lemma_canonical_text("cookie");
}

} // verus!
