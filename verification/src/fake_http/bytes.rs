//! Tests on text that is held as bytes.

use vstd::prelude::*;

verus! {

/// The lower-case form of an ASCII byte; other bytes stay as they are.
pub open spec fn lower_byte(b: u8) -> u8 {
    if 65 <= b <= 90 {
        (b + 32) as u8
    } else {
        b
    }
}

/// `text` in lower case.
pub open spec fn lower_bytes(text: Seq<u8>) -> Seq<u8> {
    Seq::new(text.len(), |i: int| lower_byte(text[i]))
}

/// Whether `word` stands in `text` at `at`, when `text` is read in lower case.
pub open spec fn mentions_at(text: Seq<u8>, word: Seq<u8>, at: int) -> bool {
    &&& 0 <= at <= text.len() - word.len()
    &&& lower_bytes(text).subrange(at, at + word.len()) == word
}

/// Whether `b` is a blank: a space or a tab.
pub open spec fn is_blank(b: u8) -> bool {
    b == 32 || b == 9
}

/// Whether nothing but blanks stands between `at` and the comma before it, or
/// the beginning of `text`.
pub open spec fn opens_at(text: Seq<u8>, at: int) -> bool
    decreases at,
{
    at <= 0 || text[at - 1] == 44 || (is_blank(text[at - 1]) && opens_at(text, at - 1))
}

/// Whether nothing but blanks stands between `at` and the comma behind it, or
/// the end of `text`.
pub open spec fn closes_at(text: Seq<u8>, at: int) -> bool
    decreases text.len() - at,
{
    at >= text.len() || text[at] == 44 || (is_blank(text[at]) && closes_at(text, at + 1))
}

/// Whether the member of the comma-separated list `text` that stands at `at` is
/// `word`, when `text` is read in lower case. Blanks around a member do not
/// count.
pub open spec fn lists_at(text: Seq<u8>, word: Seq<u8>, at: int) -> bool {
    &&& mentions_at(text, word, at)
    &&& opens_at(text, at)
    &&& closes_at(text, at + word.len())
}

/// Whether `word` is a member of the comma-separated list `text`, when `text` is
/// read in lower case.
pub open spec fn lists(text: Seq<u8>, word: Seq<u8>) -> bool {
    exists|at: int| lists_at(text, word, at)
}

/// Whether `text` begins with `start`.
pub fn starts_with(text: &[u8], start: &[u8]) -> (r: bool)
    ensures
        r == start@.is_prefix_of(text@),
{
    if text.len() < start.len() {
        return false;
    }
    let mut i: usize = 0;
    while i < start.len()
        invariant
            start@.len() <= text@.len(),
            i <= start@.len(),
            forall|j: int| 0 <= j < i ==> text@[j] == start@[j],
        decreases start@.len() - i,
    {
        if text[i] != start[i] {
            assert(text@.subrange(0, start@.len() as int)[i as int] != start@[i as int]);
            return false;
        }
        i += 1;
    }
    assert(text@.subrange(0, start@.len() as int) =~= start@);
    true
}

/// Whether `a` and `b` hold the same bytes.
pub fn same_bytes(a: &[u8], b: &[u8]) -> (r: bool)
    ensures
        r == (a@ == b@),
{
    let r = a.len() == b.len() && starts_with(a, b);
    assert(a@.len() == b@.len() ==> a@.subrange(0, b@.len() as int) =~= a@);
    r
}

fn lower(b: u8) -> (r: u8)
    ensures
        r == lower_byte(b),
{
    if 65 <= b && b <= 90 {
        b + 32
    } else {
        b
    }
}

fn stands_at(text: &[u8], word: &[u8], at: usize) -> (r: bool)
    requires
        at + word@.len() <= text@.len(),
    ensures
        r == mentions_at(text@, word@, at as int),
{
    let len: usize = text.len();
    let mut i: usize = 0;
    while i < word.len()
        invariant
            len == text@.len(),
            at + word@.len() <= text@.len(),
            i <= word@.len(),
            forall|j: int| 0 <= j < i ==> lower_byte(text@[at + j]) == word@[j],
        decreases word@.len() - i,
    {
        if lower(text[at + i]) != word[i] {
            assert(lower_bytes(text@).subrange(at as int, at + word@.len())[i as int]
                != word@[i as int]);
            return false;
        }
        i += 1;
    }
    assert(lower_bytes(text@).subrange(at as int, at + word@.len()) =~= word@);
    true
}

fn begins_member(text: &[u8], at: usize) -> (r: bool)
    requires
        at <= text@.len(),
    ensures
        r == opens_at(text@, at as int),
{
    let mut i: usize = at;
    while i > 0 && (text[i - 1] == 32 || text[i - 1] == 9)
        invariant
            i <= at <= text@.len(),
            opens_at(text@, at as int) == opens_at(text@, i as int),
        decreases i,
    {
        i -= 1;
    }
    i == 0 || text[i - 1] == 44
}

fn ends_member(text: &[u8], at: usize) -> (r: bool)
    requires
        at <= text@.len(),
    ensures
        r == closes_at(text@, at as int),
{
    let mut i: usize = at;
    while i < text.len() && (text[i] == 32 || text[i] == 9)
        invariant
            i <= text@.len(),
            closes_at(text@, at as int) == closes_at(text@, i as int),
        decreases text@.len() - i,
    {
        i += 1;
    }
    i == text.len() || text[i] == 44
}

/// Whether `word` is a member of the comma-separated list `text`, when `text` is
/// read in lower case.
pub fn lists_word(text: &[u8], word: &[u8]) -> (r: bool)
    ensures
        r == lists(text@, word@),
{
    if text.len() < word.len() {
        return false;
    }
    let mut at: usize = 0;
    while at <= text.len() - word.len()
        invariant
            word@.len() <= text@.len(),
            at <= text@.len() - word@.len() + 1,
            forall|i: int| 0 <= i < at ==> !lists_at(text@, word@, i),
        decreases text@.len() - word@.len() + 1 - at,
    {
        if stands_at(text, word, at) && begins_member(text, at) && ends_member(
            text,
            at + word.len(),
        ) {
            assert(lists_at(text@, word@, at as int));
            return true;
        }
        if at == text.len() - word.len() {
            assert forall|i: int| !lists_at(text@, word@, i) by {}
            return false;
        }
        at += 1;
    }
    false
}

/// `a` followed by `b`.
pub fn concat(a: &[u8], b: &[u8]) -> (r: Vec<u8>)
    ensures
        r@ == a@ + b@,
{
    let mut r = vstd::slice::slice_to_vec(a);
    r.extend_from_slice(b);
    assert(r@ =~= a@ + b@);
    r
}

} // verus!
