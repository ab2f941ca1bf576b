//! Small verified helpers on strings and characters.

use vstd::prelude::*;

verus! {

broadcast use vstd::string::group_string_axioms;

/// The view of an optional string.
pub open spec fn text_option_view(s: Option<String>) -> Option<Seq<char>> {
    match s {
        Some(s) => Some(s@),
        None => None,
    }
}

/// The view of an optional string slice.
pub open spec fn slice_option_view(s: Option<&str>) -> Option<Seq<char>> {
    match s {
        Some(s) => Some(s@),
        None => None,
    }
}

/// Whether a text begins with a slash.
pub open spec fn begins_with_slash(s: Seq<char>) -> bool {
    s.len() >= 1 && s[0] == '/'
}

/// Whether a text begins with two slashes.
pub open spec fn begins_with_two_slashes(s: Seq<char>) -> bool {
    s.len() >= 2 && s[0] == '/' && s[1] == '/'
}

/// Whether `prefix` is what `text` begins with.
pub open spec fn begins_with(text: Seq<char>, prefix: Seq<char>) -> bool {
    prefix.len() <= text.len() && text.subrange(0, prefix.len() as int) == prefix
}

/// Whether a character may stand as it is where the characters of
/// `forbidden` must be percent-encoded: it is a printable ASCII character
/// and none of them.
pub open spec fn is_plain(c: char, forbidden: Seq<char>) -> bool {
    ' ' <= c && c <= '~' && !forbidden.contains(c)
}

/// Whether a text is percent-encoded as far as `forbidden` asks: it holds
/// printable ASCII characters only and none of `forbidden`.
pub open spec fn encoded(s: Seq<char>, forbidden: Seq<char>) -> bool {
    forall|i: int| 0 <= i < s.len() ==> is_plain(#[trigger] s[i], forbidden)
}

/// Whether a character is one of the marks that are switched on: a colon,
/// an at sign, a slash, a question mark, a hash.
pub open spec fn is_mark(c: char, colon: bool, at: bool, slash: bool, question: bool, hash: bool)
    -> bool {
    (colon && c == ':') || (at && c == '@') || (slash && c == '/') || (question && c == '?') || (
    hash && c == '#')
}

/// Whether a text holds none of the marks that are switched on.
pub open spec fn free_of(
    s: Seq<char>,
    colon: bool,
    at: bool,
    slash: bool,
    question: bool,
    hash: bool,
) -> bool {
    forall|i: int| 0 <= i < s.len() ==> !is_mark(#[trigger] s[i], colon, at, slash, question, hash)
}

/// `String::push` appends one character to the end of the string.
pub assume_specification[ String::push ](s: &mut String, c: char)
    ensures
        final(s)@ == old(s)@.push(c),
;

/// Whether two string slices hold the same text.
pub fn str_eq(a: &str, b: &str) -> (r: bool)
    ensures
        r == (a@ == b@),
{
    let x = a.to_owned();
    let y = b.to_owned();
    x == y
}

/// The characters of a string slice, in order.
pub fn to_chars(s: &str) -> (v: Vec<char>)
    ensures
        v@ == s@,
{
    let mut v: Vec<char> = Vec::new();
    for c in it: s.chars()
        invariant
            v@ == it.seq().take(it.index() as int),
            it.seq() == s@,
    {
        v.push(c);
    }
    v
}

/// Whether `s` holds none of the marks that are switched on.
pub fn is_free_of(s: &str, colon: bool, at: bool, slash: bool, question: bool, hash: bool) -> (r:
    bool)
    ensures
        r == free_of(s@, colon, at, slash, question, hash),
{
    let cs = to_chars(s);
    let mut i: usize = 0;
    while i < cs.len()
        invariant
            i <= cs.len(),
            cs@ == s@,
            forall|j: int| 0 <= j < i ==> !is_mark(#[trigger] cs@[j], colon, at, slash, question, hash),
        decreases cs.len() - i,
    {
        let c = cs[i];
        if (colon && c == ':') || (at && c == '@') || (slash && c == '/') || (question && c == '?')
            || (hash && c == '#') {
            assert(is_mark(s@[i as int], colon, at, slash, question, hash));
            return false;
        }
        i += 1;
    }
    true
}

/// Whether `cs` holds the character `c`.
fn holds(cs: &Vec<char>, c: char) -> (r: bool)
    ensures
        r == cs@.contains(c),
{
    let mut i: usize = 0;
    while i < cs.len()
        invariant
            i <= cs.len(),
            forall|j: int| 0 <= j < i ==> cs@[j] != c,
        decreases cs.len() - i,
    {
        if cs[i] == c {
            return true;
        }
        i += 1;
    }
    false
}

/// Whether `s` is percent-encoded as far as `forbidden` asks.
pub fn is_encoded(s: &str, forbidden: &str) -> (r: bool)
    ensures
        r == encoded(s@, forbidden@),
{
    let cs = to_chars(s);
    let marks = to_chars(forbidden);
    let mut i: usize = 0;
    while i < cs.len()
        invariant
            i <= cs.len(),
            cs@ == s@,
            marks@ == forbidden@,
            forall|j: int| 0 <= j < i ==> is_plain(#[trigger] cs@[j], forbidden@),
        decreases cs.len() - i,
    {
        let c = cs[i];
        if !(' ' <= c && c <= '~') || holds(&marks, c) {
            assert(!is_plain(s@[i as int], forbidden@));
            return false;
        }
        i += 1;
    }
    true
}

/// Whether two optional strings are both absent or hold the same text.
pub fn text_option_eq(a: &Option<String>, b: &Option<String>) -> (r: bool)
    ensures
        r == (text_option_view(*a) == text_option_view(*b)),
{
    match (a, b) {
        (Some(x), Some(y)) => str_eq(x.as_str(), y.as_str()),
        (None, None) => true,
        _ => false,
    }
}

/// A copy of an optional string.
pub fn duplicate_text_option(s: &Option<String>) -> (r: Option<String>)
    ensures
        text_option_view(r) == text_option_view(*s),
{
    match s {
        Some(t) => Some(t.clone()),
        None => None,
    }
}

/// An optional string as an optional slice.
pub fn as_slice_option(s: &Option<String>) -> (r: Option<&str>)
    ensures
        slice_option_view(r) == text_option_view(*s),
{
    match s {
        Some(t) => Some(t.as_str()),
        None => None,
    }
}

} // verus!
