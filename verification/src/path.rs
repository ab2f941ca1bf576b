//! Paths as sequences of segments.

use vstd::prelude::*;
use crate::text::{begins_with_slash, free_of, is_free_of, str_eq, to_chars};

verus! {

/// The parts of a text between the occurrences of a separator. A text
/// without the separator is one part; an empty text is one empty part.
pub open spec fn split_on(s: Seq<char>, sep: char) -> Seq<Seq<char>>
    decreases s.len(),
{
    if s.len() == 0 {
        seq![Seq::<char>::empty()]
    } else {
        let init = split_on(s.drop_last(), sep);
        if s.last() == sep {
            init.push(Seq::<char>::empty())
        } else {
            init.drop_last().push(init.last().push(s.last()))
        }
    }
}

/// The segments of a path: what stands between the slashes behind the
/// first one. A path that does not begin with a slash has no segments.
pub open spec fn spec_path_segments(path: Seq<char>) -> Option<Seq<Seq<char>>> {
    if begins_with_slash(path) {
        Some(split_on(path.skip(1), '/'))
    } else {
        None
    }
}

/// The views of a sequence of strings.
pub open spec fn texts_view(v: Seq<String>) -> Seq<Seq<char>> {
    Seq::new(v.len(), |i: int| v[i]@)
}

/// Splits what stands in `cs` from `start` on at each `sep`.
pub fn split_from(cs: &Vec<char>, start: usize, sep: char) -> (parts: Vec<String>)
    requires
        start <= cs.len(),
    ensures
        texts_view(parts@) == split_on(cs@.skip(start as int), sep),
        parts.len() >= 1,
{
    let mut parts: Vec<String> = Vec::new();
    let mut cur = String::new();
    let mut i: usize = start;
    assert(cs@.subrange(start as int, start as int) =~= Seq::<char>::empty());
    assert(texts_view(parts@).push(cur@) =~= seq![Seq::<char>::empty()]);
    while i < cs.len()
        invariant
            start <= i <= cs.len(),
            split_on(cs@.subrange(start as int, i as int), sep) == texts_view(parts@).push(cur@),
        decreases cs.len() - i,
    {
        let c = cs[i];
        let ghost prev = cs@.subrange(start as int, i as int);
        let ghost next = cs@.subrange(start as int, i + 1);
        let ghost old_parts = parts@;
        let ghost old_cur = cur@;
        proof {
            assert(next.drop_last() =~= prev);
            assert(next.last() == c);
        }
        if c == sep {
            parts.push(cur);
            cur = String::new();
            proof {
                assert(texts_view(parts@) =~= texts_view(old_parts).push(old_cur));
            }
        } else {
            cur.push(c);
            proof {
                let init = texts_view(old_parts).push(old_cur);
                assert(init.drop_last() =~= texts_view(parts@));
                assert(init.last() == old_cur);
            }
        }
        i += 1;
    }
    let ghost before = parts@;
    let ghost last = cur@;
    parts.push(cur);
    proof {
        assert(texts_view(parts@) =~= texts_view(before).push(last));
        assert(cs@.subrange(start as int, cs.len() as int) =~= cs@.skip(start as int));
    }
    parts
}

/// The segments of `path`, if it begins with a slash.
pub fn segments_of(path: &str) -> (r: Option<Vec<String>>)
    ensures
        match r {
            Some(v) => spec_path_segments(path@) == Some(texts_view(v@)) && v.len() >= 1,
            None => spec_path_segments(path@) is None,
        },
{
    let cs = to_chars(path);
    if cs.len() >= 1 && cs[0] == '/' {
        Some(split_from(&cs, 1, '/'))
    } else {
        None
    }
}

/// What is to be resolved to append `other` to a path as a new last
/// segment: the last segment of the path, a slash and `other`; or `other`
/// alone where the path ends in a slash or has no segments.
pub open spec fn spec_appended_segments(path: Seq<char>, other: Seq<char>) -> Seq<char> {
    match spec_path_segments(path) {
        Some(segments) => if segments.last().len() > 0 {
            segments.last() + seq!['/'] + other
        } else {
            other
        },
        None => other,
    }
}

/// Whether a text holds a colon, so that it could be read as a scheme and
/// what follows it.
pub open spec fn holds_a_colon(s: Seq<char>) -> bool {
    !free_of(s, true, false, false, false, false)
}

/// The reference that appends `other` to a path as a new last segment:
/// what is to be resolved, behind `./` where it holds a colon, so that it
/// is never read as a URL of its own.
pub open spec fn spec_append_reference(path: Seq<char>, other: Seq<char>) -> Seq<char> {
    let plain = spec_appended_segments(path, other);
    if holds_a_colon(plain) {
        seq!['.', '/'] + plain
    } else {
        plain
    }
}

/// The reference that, resolved against a URL with the given path, appends
/// `other` as a new last segment instead of replacing the last one.
pub fn append_reference(path: &str, other: &str) -> (r: String)
    ensures
        r@ == spec_append_reference(path@, other@),
{
    let plain = match segments_of(path) {
        Some(segments) => {
            let last = &segments[segments.len() - 1];
            assert(last@ == texts_view(segments@).last());
            if !last.as_str().is_empty() {
                let mut r = last.clone();
                r.push('/');
                r.append(other);
                assert(r@ =~= last@ + seq!['/'] + other@);
                r
            } else {
                other.to_owned()
            }
        },
        None => other.to_owned(),
    };
    if is_free_of(plain.as_str(), true, false, false, false, false) {
        plain
    } else {
        let mut r = String::new();
        r.push('.');
        r.push('/');
        r.append(plain.as_str());
        assert(r@ =~= seq!['.', '/'] + plain@);
        r
    }
}

/// Whether a dot written in percent-encoded form, `%2e` or `%2E`, stands
/// at place `i` of a segment.
pub open spec fn encoded_dot_at(segment: Seq<char>, i: int) -> bool {
    segment[i] == '%' && segment[i + 1] == '2' && (segment[i + 2] == 'e' || segment[i + 2] == 'E')
}

/// The segment that stands for the place where it is: one dot, written as
/// `.`, `%2e` or `%2E`.
pub open spec fn is_dot(segment: Seq<char>) -> bool {
    (segment.len() == 1 && segment[0] == '.') || (segment.len() == 3 && encoded_dot_at(segment, 0))
}

/// The segment that stands for the place above: two dots, each written as
/// `.`, `%2e` or `%2E`.
pub open spec fn is_dot_dot(segment: Seq<char>) -> bool {
    ||| segment.len() == 2 && segment[0] == '.' && segment[1] == '.'
    ||| segment.len() == 4 && segment[0] == '.' && encoded_dot_at(segment, 1)
    ||| segment.len() == 4 && encoded_dot_at(segment, 0) && segment[3] == '.'
    ||| segment.len() == 6 && encoded_dot_at(segment, 0) && encoded_dot_at(segment, 3)
}

/// A drive letter: an ASCII letter and a colon.
pub open spec fn is_drive_letter(segment: Seq<char>) -> bool {
    &&& segment.len() == 2
    &&& (('a' <= segment[0] && segment[0] <= 'z') || ('A' <= segment[0] && segment[0] <= 'Z'))
    &&& segment[1] == ':'
}

/// What one more segment makes of the segments so far: `.` leaves them as
/// they are; `..` takes the last one away, unless there is none or the only
/// one is a drive letter; any other segment is added.
pub open spec fn resolve_step(out: Seq<Seq<char>>, segment: Seq<char>) -> Seq<Seq<char>> {
    if is_dot(segment) {
        out
    } else if is_dot_dot(segment) {
        if out.len() == 0 || (out.len() == 1 && is_drive_letter(out[0])) {
            out
        } else {
            out.drop_last()
        }
    } else {
        out.push(segment)
    }
}

/// The segments with every `.` and `..` resolved, from the first to the last.
pub open spec fn resolve_dots(segments: Seq<Seq<char>>) -> Seq<Seq<char>>
    decreases segments.len(),
{
    if segments.len() == 0 {
        Seq::<Seq<char>>::empty()
    } else {
        resolve_step(resolve_dots(segments.drop_last()), segments.last())
    }
}

/// What a path takes over from its base: all segments of the base but the
/// last, where there is a base and the path is relative to it; else nothing.
pub open spec fn inherited(base: Option<Seq<Seq<char>>>, is_relative_prefix: bool) -> Seq<
    Seq<char>,
> {
    match base {
        Some(b) => if is_relative_prefix && b.len() > 0 {
            b.drop_last()
        } else {
            Seq::<Seq<char>>::empty()
        },
        None => Seq::<Seq<char>>::empty(),
    }
}

/// The normal form of a path: what it takes over from its base, then its
/// own segments, with every `.` and `..` resolved.
pub open spec fn spec_normalize(
    segments: Seq<Seq<char>>,
    base: Option<Seq<Seq<char>>>,
    is_relative_prefix: bool,
) -> Seq<Seq<char>> {
    resolve_dots(inherited(base, is_relative_prefix) + segments)
}

/// Whether no segment is `.` or `..`.
pub open spec fn has_no_dots(segments: Seq<Seq<char>>) -> bool {
    forall|i: int|
        0 <= i < segments.len() ==> !is_dot(#[trigger] segments[i]) && !is_dot_dot(segments[i])
}

/// Resolved segments hold no `.` and no `..`, and are no more than there
/// were.
pub proof fn lemma_resolve_dots_has_no_dots(segments: Seq<Seq<char>>)
    ensures
        has_no_dots(resolve_dots(segments)),
        resolve_dots(segments).len() <= segments.len(),
    decreases segments.len(),
{
    if segments.len() > 0 {
        lemma_resolve_dots_has_no_dots(segments.drop_last());
    }
}

/// Segments without `.` and `..` are their own normal form.
pub proof fn lemma_resolve_dots_fixes_plain_segments(segments: Seq<Seq<char>>)
    requires
        has_no_dots(segments),
    ensures
        resolve_dots(segments) == segments,
    decreases segments.len(),
{
    if segments.len() > 0 {
        lemma_resolve_dots_fixes_plain_segments(segments.drop_last());
        assert(segments.drop_last().push(segments.last()) =~= segments);
    }
}

/// Resolving twice gives what resolving once gives.
pub proof fn lemma_resolve_dots_idempotent(segments: Seq<Seq<char>>)
    ensures
        resolve_dots(resolve_dots(segments)) == resolve_dots(segments),
{
    lemma_resolve_dots_has_no_dots(segments);
    lemma_resolve_dots_fixes_plain_segments(resolve_dots(segments));
}

/// Resolving a sequence with one more segment is one more step.
pub proof fn lemma_resolve_dots_push(segments: Seq<Seq<char>>, segment: Seq<char>)
    ensures
        resolve_dots(segments.push(segment)) == resolve_step(resolve_dots(segments), segment),
{
    assert(segments.push(segment).drop_last() =~= segments);
}

/// Segments that are their own normal form hold no `.` and no `..`.
pub proof fn lemma_normal_form_has_no_dots(segments: Seq<Seq<char>>)
    requires
        spec_normalize(segments, None, false) == segments,
    ensures
        has_no_dots(segments),
{
    assert(Seq::<Seq<char>>::empty() + segments =~= segments);
    lemma_resolve_dots_has_no_dots(segments);
}

/// Whether a dot in percent-encoded form stands at place `i` of `cs`.
fn is_encoded_dot_at(cs: &Vec<char>, i: usize) -> (r: bool)
    requires
        i + 3 <= cs.len(),
    ensures
        r == encoded_dot_at(cs@, i as int),
{
    cs[i] == '%' && cs[i + 1] == '2' && (cs[i + 2] == 'e' || cs[i + 2] == 'E')
}

/// Whether `segment` is one dot.
fn single_dot(segment: &str) -> (r: bool)
    ensures
        r == is_dot(segment@),
{
    let cs = to_chars(segment);
    (cs.len() == 1 && cs[0] == '.') || (cs.len() == 3 && is_encoded_dot_at(&cs, 0))
}

/// Whether `segment` is two dots.
fn double_dot(segment: &str) -> (r: bool)
    ensures
        r == is_dot_dot(segment@),
{
    let cs = to_chars(segment);
    if cs.len() == 2 {
        cs[0] == '.' && cs[1] == '.'
    } else if cs.len() == 4 {
        (cs[0] == '.' && is_encoded_dot_at(&cs, 1)) || (is_encoded_dot_at(&cs, 0) && cs[3] == '.')
    } else if cs.len() == 6 {
        is_encoded_dot_at(&cs, 0) && is_encoded_dot_at(&cs, 3)
    } else {
        false
    }
}

/// Whether two lists of strings hold the same texts in the same order.
pub fn texts_eq(a: &Vec<String>, b: &Vec<String>) -> (r: bool)
    ensures
        r == (texts_view(a@) == texts_view(b@)),
{
    if a.len() != b.len() {
        assert(texts_view(a@).len() != texts_view(b@).len());
        return false;
    }
    let mut i: usize = 0;
    while i < a.len()
        invariant
            i <= a.len(),
            a.len() == b.len(),
            forall|j: int| 0 <= j < i ==> texts_view(a@)[j] == texts_view(b@)[j],
        decreases a.len() - i,
    {
        if !str_eq(a[i].as_str(), b[i].as_str()) {
            assert(texts_view(a@)[i as int] != texts_view(b@)[i as int]);
            return false;
        }
        i += 1;
    }
    assert(texts_view(a@) =~= texts_view(b@));
    true
}

/// Whether `segment` is a drive letter.
fn drive_letter(segment: &str) -> (r: bool)
    ensures
        r == is_drive_letter(segment@),
{
    let cs = to_chars(segment);
    cs.len() == 2 && (('a' <= cs[0] && cs[0] <= 'z') || ('A' <= cs[0] && cs[0] <= 'Z')) && cs[1]
        == ':'
}

/// Takes one more segment into the segments so far.
fn resolve_into(out: &mut Vec<String>, segment: &str)
    ensures
        texts_view(final(out)@) == resolve_step(texts_view(old(out)@), segment@),
{
    if single_dot(segment) {
    } else if double_dot(segment) {
        let keep = out.len() == 0 || (out.len() == 1 && drive_letter(out[0].as_str()));
        if !keep {
            out.pop();
            assert(texts_view(out@) =~= texts_view(old(out)@).drop_last());
        }
    } else {
        out.push(segment.to_owned());
        assert(texts_view(out@) =~= texts_view(old(out)@).push(segment@));
    }
}

/// The views of optional segments.
pub open spec fn texts_option_view(v: Option<&Vec<String>>) -> Option<Seq<Seq<char>>> {
    match v {
        Some(v) => Some(texts_view(v@)),
        None => None,
    }
}

/// Normalizes a path given as segments. Where there is a base and
/// `is_relative_prefix` says that the path is relative to it, the path
/// begins where the base's last segment stood. Every `.` is dropped, and
/// every `..` takes away the segment before it, if there is one and it is
/// no drive letter in the first place. A dot may be written as `%2e`.
pub fn normalize(
    segments: &Vec<String>,
    base_segments: Option<&Vec<String>>,
    is_relative_prefix: bool,
) -> (out: Vec<String>)
    ensures
        texts_view(out@) == spec_normalize(
            texts_view(segments@),
            texts_option_view(base_segments),
            is_relative_prefix,
        ),
        has_no_dots(texts_view(out@)),
{
    let mut out: Vec<String> = Vec::new();
    let ghost start = inherited(texts_option_view(base_segments), is_relative_prefix);
    assert(texts_view(out@) =~= resolve_dots(start.take(0)));
    match base_segments {
        Some(base) => {
            if is_relative_prefix && base.len() > 0 {
                let mut i: usize = 0;
                while i < base.len() - 1
                    invariant
                        i <= base.len() - 1,
                        start == texts_view(base@).drop_last(),
                        texts_view(out@) == resolve_dots(start.take(i as int)),
                    decreases base.len() - i,
                {
                    proof {
                        assert(start.take(i + 1) =~= start.take(i as int).push(base@[i as int]@));
                        lemma_resolve_dots_push(start.take(i as int), base@[i as int]@);
                    }
                    resolve_into(&mut out, base[i].as_str());
                    i += 1;
                }
                assert(start.take(i as int) =~= start);
            } else {
                assert(start.take(0) =~= start);
            }
        },
        None => {
            assert(start.take(0) =~= start);
        },
    }
    let ghost own = texts_view(segments@);
    assert(start + own.take(0) =~= start);
    let mut j: usize = 0;
    while j < segments.len()
        invariant
            j <= segments.len(),
            own == texts_view(segments@),
            texts_view(out@) == resolve_dots(start + own.take(j as int)),
        decreases segments.len() - j,
    {
        proof {
            assert(start + own.take(j + 1) =~= (start + own.take(j as int)).push(
                segments@[j as int]@,
            ));
            lemma_resolve_dots_push(start + own.take(j as int), segments@[j as int]@);
        }
        resolve_into(&mut out, segments[j].as_str());
        j += 1;
    }
    proof {
        assert(own.take(j as int) =~= own);
        lemma_resolve_dots_has_no_dots(start + own);
    }
    out
}

} // verus!
