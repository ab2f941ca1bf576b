//! The serialization decides the components: two records that obey the
//! rules of the data model and have one serialization agree field by field.

use vstd::prelude::*;
use crate::path::{
    has_no_dots, is_dot, lemma_normal_form_has_no_dots, spec_path_segments, split_on,
};
use crate::record::{
    authority_text, decimal, digit_char, is_bracketed, is_scheme_char, marked_text, path_guard,
    port_text, serialized, userinfo_text, valid_host_text, valid_marks, valid_scheme,
    well_formed, UrlView,
};
use crate::text::{begins_with_slash, begins_with_two_slashes, free_of, is_mark};

verus! {

/// Whether a text does not hold the character `c`.
pub open spec fn lacks(s: Seq<char>, c: char) -> bool {
    forall|i: int| 0 <= i < s.len() ==> #[trigger] s[i] != c
}

/// The place of the first `c` in a text, or the length of the text where
/// there is none.
pub open spec fn first_index(s: Seq<char>, c: char) -> int
    decreases s.len(),
{
    if s.len() == 0 {
        0
    } else if s[0] == c {
        0
    } else {
        1 + first_index(s.drop_first(), c)
    }
}

/// How many characters stand behind the last `c` of a text, or the length
/// of the text where there is none.
pub open spec fn tail_length(s: Seq<char>, c: char) -> int
    decreases s.len(),
{
    if s.len() == 0 {
        0
    } else if s.last() == c {
        0
    } else {
        1 + tail_length(s.drop_last(), c)
    }
}

/// The first `c` of a text stands where its part without `c` ends.
pub proof fn lemma_first_index(a: Seq<char>, b: Seq<char>, c: char)
    requires
        lacks(a, c),
        b.len() == 0 || b[0] == c,
    ensures
        first_index(a + b, c) == a.len(),
    decreases a.len(),
{
    if a.len() == 0 {
        assert(a + b =~= b);
    } else {
        assert((a + b)[0] == a[0]);
        assert((a + b).drop_first() =~= a.drop_first() + b);
        assert forall|i: int| 0 <= i < a.drop_first().len() implies #[trigger] a.drop_first()[i]
            != c by {
            assert(a.drop_first()[i] == a[i + 1]);
        }
        lemma_first_index(a.drop_first(), b, c);
    }
}

/// Behind the last `c` of a text stands its part without `c`.
pub proof fn lemma_tail_length(a: Seq<char>, b: Seq<char>, c: char)
    requires
        lacks(b, c),
        a.len() == 0 || a.last() == c,
    ensures
        tail_length(a + b, c) == b.len(),
    decreases b.len(),
{
    if b.len() == 0 {
        assert(a + b =~= a);
    } else {
        assert((a + b).last() == b.last());
        assert((a + b).drop_last() =~= a + b.drop_last());
        assert forall|i: int| 0 <= i < b.drop_last().len() implies #[trigger] b.drop_last()[i]
            != c by {
            assert(b.drop_last()[i] == b[i]);
        }
        lemma_tail_length(a, b.drop_last(), c);
    }
}

/// A text is cut in one way only into a part without `c` and a rest that is
/// empty or begins with `c`.
pub proof fn lemma_unique_cut(
    a1: Seq<char>,
    b1: Seq<char>,
    a2: Seq<char>,
    b2: Seq<char>,
    c: char,
)
    requires
        a1 + b1 == a2 + b2,
        lacks(a1, c),
        lacks(a2, c),
        b1.len() == 0 || b1[0] == c,
        b2.len() == 0 || b2[0] == c,
    ensures
        a1 == a2,
        b1 == b2,
{
    lemma_first_index(a1, b1, c);
    lemma_first_index(a2, b2, c);
    let whole = a1 + b1;
    assert(a1 =~= whole.subrange(0, a1.len() as int));
    assert(a2 =~= (a2 + b2).subrange(0, a2.len() as int));
    assert(b1 =~= whole.subrange(a1.len() as int, whole.len() as int));
    assert(b2 =~= (a2 + b2).subrange(a2.len() as int, (a2 + b2).len() as int));
}

/// A text is cut in one way only into a part that is empty or ends with `c`
/// and a rest without `c`.
pub proof fn lemma_unique_cut_from_end(
    a1: Seq<char>,
    b1: Seq<char>,
    a2: Seq<char>,
    b2: Seq<char>,
    c: char,
)
    requires
        a1 + b1 == a2 + b2,
        lacks(b1, c),
        lacks(b2, c),
        a1.len() == 0 || a1.last() == c,
        a2.len() == 0 || a2.last() == c,
    ensures
        a1 == a2,
        b1 == b2,
{
    lemma_tail_length(a1, b1, c);
    lemma_tail_length(a2, b2, c);
    let whole = a1 + b1;
    assert(a1.len() == a2.len());
    assert(a1 =~= whole.subrange(0, a1.len() as int));
    assert(a2 =~= (a2 + b2).subrange(0, a2.len() as int));
    assert(b1 =~= whole.subrange(a1.len() as int, whole.len() as int));
    assert(b2 =~= (a2 + b2).subrange(a2.len() as int, (a2 + b2).len() as int));
}

/// Whether a character is a decimal digit.
pub open spec fn is_digit(c: char) -> bool {
    '0' <= c && c <= '9'
}

/// A number in decimal is one digit at least, and two where the number is
/// ten or more.
pub proof fn lemma_decimal_is_digits(n: nat)
    ensures
        decimal(n).len() >= 1,
        n >= 10 ==> decimal(n).len() >= 2,
        forall|i: int| 0 <= i < decimal(n).len() ==> is_digit(#[trigger] decimal(n)[i]),
    decreases n,
{
    if n >= 10 {
        lemma_decimal_is_digits(n / 10);
    }
}

/// A number in decimal holds no character that is no digit.
pub proof fn lemma_decimal_lacks(n: nat, c: char)
    requires
        !is_digit(c),
    ensures
        lacks(decimal(n), c),
{
    lemma_decimal_is_digits(n);
}

/// Two digits with one character are one digit.
proof fn lemma_digit_injective(x: int, y: int)
    requires
        0 <= x <= 9,
        0 <= y <= 9,
        digit_char(x) == digit_char(y),
    ensures
        x == y,
{
}

/// Two numbers with one decimal form are one number.
pub proof fn lemma_decimal_injective(n: nat, m: nat)
    requires
        decimal(n) == decimal(m),
    ensures
        n == m,
    decreases n,
{
    lemma_decimal_is_digits(n);
    lemma_decimal_is_digits(m);
    if n >= 10 && m >= 10 {
        let dn = decimal(n / 10).push(digit_char((n % 10) as int));
        let dm = decimal(m / 10).push(digit_char((m % 10) as int));
        assert(dn.last() == dm.last());
        assert(dn.drop_last() =~= decimal(n / 10));
        assert(dm.drop_last() =~= decimal(m / 10));
        lemma_decimal_injective(n / 10, m / 10);
        lemma_digit_injective((n % 10) as int, (m % 10) as int);
        assert(n == 10 * (n / 10) + n % 10);
        assert(m == 10 * (m / 10) + m % 10);
    } else if n < 10 && m < 10 {
        assert(decimal(n)[0] == digit_char(n as int));
        assert(decimal(m)[0] == digit_char(m as int));
        lemma_digit_injective(n as int, m as int);
    } else {
        assert(decimal(n).len() != decimal(m).len());
    }
}

/// A scheme holds no character that no scheme may hold.
pub proof fn lemma_scheme_lacks(s: Seq<char>, c: char)
    requires
        valid_scheme(s),
        !is_scheme_char(c),
    ensures
        lacks(s, c),
{
}

/// A text that is free of some marks holds none of them.
pub proof fn lemma_free_of_lacks(
    s: Seq<char>,
    colon: bool,
    at: bool,
    slash: bool,
    question: bool,
    hash: bool,
    c: char,
)
    requires
        free_of(s, colon, at, slash, question, hash),
        is_mark(c, colon, at, slash, question, hash),
    ensures
        lacks(s, c),
{
    assert forall|i: int| 0 <= i < s.len() implies #[trigger] s[i] != c by {
        assert(!is_mark(s[i], colon, at, slash, question, hash));
    }
}

/// The text of the host, empty where there is none.
pub open spec fn host_text(v: UrlView) -> Seq<char> {
    match v.host_str {
        Some(h) => h,
        None => Seq::<char>::empty(),
    }
}

/// What the authority holds behind its two slashes.
pub open spec fn authority_inside(v: UrlView) -> Seq<char> {
    userinfo_text(v.username, v.password) + host_text(v) + port_text(v.port)
}

/// What the serialization holds behind the scheme and its colon, up to the
/// query.
pub open spec fn after_scheme(v: UrlView) -> Seq<char> {
    authority_text(v) + path_guard(v) + v.path
}

/// What the serialization holds before the query.
pub open spec fn before_query(v: UrlView) -> Seq<char> {
    v.scheme + seq![':'] + authority_text(v) + path_guard(v) + v.path
}

/// What the serialization holds before the fragment.
pub open spec fn before_fragment(v: UrlView) -> Seq<char> {
    before_query(v) + marked_text('?', v.query)
}

/// Whether `c` is one of the three marks that end an authority.
pub open spec fn ends_authority(c: char) -> bool {
    c == '/' || c == '?' || c == '#'
}

/// The user and the password hold no mark that ends an authority, and
/// neither does the `@` behind them.
proof fn lemma_userinfo_lacks(v: UrlView, c: char)
    requires
        valid_marks(v),
        ends_authority(c),
    ensures
        lacks(userinfo_text(v.username, v.password), c),
{
    lemma_free_of_lacks(v.username, true, true, true, true, true, c);
    match v.password {
        Some(p) => {
            lemma_free_of_lacks(p, false, true, true, true, true, c);
        },
        None => {},
    }
}

/// The host and the port hold no mark that ends an authority, and no `@`.
proof fn lemma_host_and_port_lack(v: UrlView, c: char)
    requires
        valid_marks(v),
        ends_authority(c) || c == '@',
    ensures
        lacks(host_text(v) + port_text(v.port), c),
{
    match v.host_str {
        Some(h) => {
            lemma_free_of_lacks(h, !is_bracketed(h), true, true, true, true, c);
        },
        None => {},
    }
    match v.port {
        Some(p) => {
            lemma_decimal_lacks(p as nat, c);
        },
        None => {},
    }
}

/// What the authority holds behind its two slashes holds no mark that ends
/// an authority.
proof fn lemma_authority_inside_lacks(v: UrlView, c: char)
    requires
        valid_marks(v),
        ends_authority(c),
    ensures
        lacks(authority_inside(v), c),
{
    lemma_userinfo_lacks(v, c);
    lemma_host_and_port_lack(v, c);
    assert(authority_inside(v) =~= userinfo_text(v.username, v.password) + (host_text(v)
        + port_text(v.port)));
}

/// Before the query the serialization holds no `?` and no `#`.
proof fn lemma_before_query_lacks(v: UrlView, c: char)
    requires
        well_formed(v),
        c == '?' || c == '#',
    ensures
        lacks(before_query(v), c),
{
    lemma_scheme_lacks(v.scheme, c);
    lemma_authority_inside_lacks(v, c);
    lemma_free_of_lacks(v.path, false, false, false, true, true, c);
    if v.has_authority {
        assert(authority_text(v) =~= seq!['/', '/'] + authority_inside(v));
    }
}

/// Before the fragment the serialization holds no `#`.
proof fn lemma_before_fragment_lacks(v: UrlView)
    requires
        well_formed(v),
    ensures
        lacks(before_fragment(v), '#'),
{
    lemma_before_query_lacks(v, '#');
    match v.query {
        Some(q) => {
            lemma_free_of_lacks(q, false, false, false, false, true, '#');
        },
        None => {},
    }
}

/// A component behind its mark is decided by the text that holds both.
proof fn lemma_marked_text_injective(mark: char, a: Option<Seq<char>>, b: Option<Seq<char>>)
    requires
        marked_text(mark, a) == marked_text(mark, b),
    ensures
        a == b,
{
    match (a, b) {
        (Some(x), Some(y)) => {
            assert(x =~= marked_text(mark, a).skip(1));
            assert(y =~= marked_text(mark, b).skip(1));
        },
        (Some(x), None) => {
            assert(marked_text(mark, a).len() > 0);
        },
        (None, Some(y)) => {
            assert(marked_text(mark, b).len() > 0);
        },
        (None, None) => {},
    }
}

/// Two records with one serialization have one fragment, one query and one
/// scheme, and hold the same text between the scheme and the query.
proof fn lemma_outer_components(a: UrlView, b: UrlView)
    requires
        well_formed(a),
        well_formed(b),
        a.serialization == b.serialization,
    ensures
        a.fragment == b.fragment,
        a.query == b.query,
        a.scheme == b.scheme,
        after_scheme(a) == after_scheme(b),
{
    lemma_before_fragment_lacks(a);
    lemma_before_fragment_lacks(b);
    assert(serialized(a) == before_fragment(a) + marked_text('#', a.fragment));
    assert(serialized(b) == before_fragment(b) + marked_text('#', b.fragment));
    lemma_unique_cut(
        before_fragment(a),
        marked_text('#', a.fragment),
        before_fragment(b),
        marked_text('#', b.fragment),
        '#',
    );
    lemma_marked_text_injective('#', a.fragment, b.fragment);
    lemma_before_query_lacks(a, '?');
    lemma_before_query_lacks(b, '?');
    lemma_unique_cut(
        before_query(a),
        marked_text('?', a.query),
        before_query(b),
        marked_text('?', b.query),
        '?',
    );
    lemma_marked_text_injective('?', a.query, b.query);
    lemma_scheme_lacks(a.scheme, ':');
    lemma_scheme_lacks(b.scheme, ':');
    let rest_a = seq![':'] + after_scheme(a);
    let rest_b = seq![':'] + after_scheme(b);
    assert(before_query(a) =~= a.scheme + rest_a);
    assert(before_query(b) =~= b.scheme + rest_b);
    lemma_unique_cut(a.scheme, rest_a, b.scheme, rest_b, ':');
    assert(after_scheme(a) =~= rest_a.skip(1));
    assert(after_scheme(b) =~= rest_b.skip(1));
}

/// Behind the scheme and its colon stand two slashes exactly where the
/// record has an authority.
proof fn lemma_authority_flag(v: UrlView)
    requires
        well_formed(v),
    ensures
        begins_with_two_slashes(after_scheme(v)) == v.has_authority,
{
    if v.has_authority {
        assert(authority_text(v) =~= seq!['/', '/'] + authority_inside(v));
        assert(after_scheme(v) =~= seq!['/', '/'] + (authority_inside(v) + v.path));
    } else if begins_with_two_slashes(v.path) {
        assert(after_scheme(v) =~= seq!['/', '.'] + v.path);
    } else {
        assert(after_scheme(v) =~= v.path);
    }
}

/// The first part of a text that begins with a dot and a slash is the dot.
proof fn lemma_dot_is_the_first_part(s: Seq<char>)
    requires
        s.len() >= 2,
        s[0] == '.',
        s[1] == '/',
    ensures
        split_on(s, '/').len() >= 2,
        split_on(s, '/')[0] == seq!['.'],
    decreases s.len(),
{
    let init = s.drop_last();
    if s.len() == 2 {
        assert(init.drop_last() =~= Seq::<char>::empty());
        assert(split_on(init.drop_last(), '/') =~= seq![Seq::<char>::empty()]);
        assert(init.last() == '.');
        assert(split_on(init, '/') =~= seq![seq!['.']]);
        assert(split_on(s, '/') =~= seq![seq!['.'], Seq::<char>::empty()]);
    } else {
        lemma_dot_is_the_first_part(init);
    }
}

/// Without an authority, the path is decided by the text behind the scheme.
proof fn lemma_path_without_authority(a: UrlView, b: UrlView)
    requires
        well_formed(a),
        well_formed(b),
        !a.has_authority,
        !b.has_authority,
        after_scheme(a) == after_scheme(b),
    ensures
        a.path == b.path,
{
    let ga = begins_with_two_slashes(a.path);
    let gb = begins_with_two_slashes(b.path);
    if ga {
        assert(after_scheme(a) =~= seq!['/', '.'] + a.path);
    } else {
        assert(after_scheme(a) =~= a.path);
    }
    if gb {
        assert(after_scheme(b) =~= seq!['/', '.'] + b.path);
    } else {
        assert(after_scheme(b) =~= b.path);
    }
    if ga && gb {
        assert(a.path =~= after_scheme(a).skip(2));
        assert(b.path =~= after_scheme(b).skip(2));
    } else if ga && !gb {
        lemma_guarded_path_is_no_path(a.path, b.path);
        lemma_normal_form_has_no_dots(spec_path_segments(b.path).unwrap());
    } else if !ga && gb {
        lemma_guarded_path_is_no_path(b.path, a.path);
        lemma_normal_form_has_no_dots(spec_path_segments(a.path).unwrap());
    }
}

/// The first segment of `/.` before a path that begins with two slashes is
/// a dot.
proof fn lemma_guarded_path_is_no_path(guarded: Seq<char>, plain: Seq<char>)
    requires
        begins_with_two_slashes(guarded),
        plain == seq!['/', '.'] + guarded,
    ensures
        spec_path_segments(plain) matches Some(segments) && !has_no_dots(segments),
{
    let rest = plain.skip(1);
    assert(rest[0] == '.');
    assert(rest[1] == '/');
    lemma_dot_is_the_first_part(rest);
    assert(begins_with_slash(plain));
    let segments = split_on(rest, '/');
    assert(is_dot(segments[0]));
}

/// The user followed by the password behind its colon.
pub open spec fn credentials(v: UrlView) -> Seq<char> {
    v.username + marked_text(':', v.password)
}

/// Whether the record has a user or a password.
pub open spec fn has_credentials(v: UrlView) -> bool {
    v.username.len() > 0 || v.password is Some
}

/// The host and the port are decided by the text that holds both.
proof fn lemma_host_and_port(a: UrlView, b: UrlView)
    requires
        valid_marks(a),
        valid_marks(b),
        host_text(a) + port_text(a.port) == host_text(b) + port_text(b.port),
    ensures
        a.host_str == b.host_str,
        a.port == b.port,
{
    match (a.port, b.port) {
        (Some(p), Some(q)) => {
            lemma_decimal_lacks(p as nat, ':');
            lemma_decimal_lacks(q as nat, ':');
            let fa = host_text(a) + seq![':'];
            let fb = host_text(b) + seq![':'];
            assert(host_text(a) + port_text(a.port) =~= fa + decimal(p as nat));
            assert(host_text(b) + port_text(b.port) =~= fb + decimal(q as nat));
            lemma_unique_cut_from_end(fa, decimal(p as nat), fb, decimal(q as nat), ':');
            lemma_decimal_injective(p as nat, q as nat);
            assert(host_text(a) =~= fa.drop_last());
            assert(host_text(b) =~= fb.drop_last());
        },
        (None, Some(q)) => {
            assert(host_text(a) =~= host_text(a) + port_text(a.port));
            lemma_port_is_no_host(host_text(a), host_text(b), q);
        },
        (Some(p), None) => {
            assert(host_text(b) =~= host_text(b) + port_text(b.port));
            lemma_port_is_no_host(host_text(b), host_text(a), p);
        },
        (None, None) => {
            assert(host_text(a) =~= host_text(a) + port_text(a.port));
            assert(host_text(b) =~= host_text(b) + port_text(b.port));
        },
    }
    assert(host_text(a) == host_text(b));
}

/// A text followed by a colon and a number is no text of a host.
proof fn lemma_port_is_no_host(h: Seq<char>, other: Seq<char>, port: u16)
    requires
        h == other + port_text(Some(port)),
    ensures
        !valid_host_text(Some(h)),
{
    let d = decimal(port as nat);
    lemma_decimal_is_digits(port as nat);
    assert(other + port_text(Some(port)) =~= (other + seq![':']) + d);
    assert(h.len() > 0);
    assert(h.last() == d.last());
    assert(is_digit(d[d.len() - 1]));
    assert(!is_bracketed(h));
    assert(h[other.len() as int] == ':');
    assert(is_mark(h[other.len() as int], true, true, true, true, true));
}

/// With an authority, the credentials, the host, the port and the path are
/// decided by the text behind the scheme.
proof fn lemma_components_with_authority(a: UrlView, b: UrlView)
    requires
        well_formed(a),
        well_formed(b),
        a.has_authority,
        b.has_authority,
        after_scheme(a) == after_scheme(b),
    ensures
        a.username == b.username,
        a.password == b.password,
        a.host_str == b.host_str,
        a.port == b.port,
        a.path == b.path,
{
    assert(authority_text(a) =~= seq!['/', '/'] + authority_inside(a));
    assert(authority_text(b) =~= seq!['/', '/'] + authority_inside(b));
    assert(authority_inside(a) + a.path =~= after_scheme(a).skip(2));
    assert(authority_inside(b) + b.path =~= after_scheme(b).skip(2));
    lemma_authority_inside_lacks(a, '/');
    lemma_authority_inside_lacks(b, '/');
    lemma_unique_cut(authority_inside(a), a.path, authority_inside(b), b.path, '/');
    lemma_credentials(a, b);
}

/// What stands before the first `@` of the authority, or the whole where
/// there is none.
spec fn before_at(v: UrlView) -> Seq<char> {
    if has_credentials(v) {
        credentials(v)
    } else {
        host_text(v) + port_text(v.port)
    }
}

/// What stands from the first `@` of the authority on.
spec fn from_at(v: UrlView) -> Seq<char> {
    if has_credentials(v) {
        seq!['@'] + (host_text(v) + port_text(v.port))
    } else {
        Seq::<char>::empty()
    }
}

/// The credentials, the host and the port are decided by what the
/// authority holds behind its two slashes.
proof fn lemma_credentials(a: UrlView, b: UrlView)
    requires
        well_formed(a),
        well_formed(b),
        authority_inside(a) == authority_inside(b),
    ensures
        a.username == b.username,
        a.password == b.password,
        a.host_str == b.host_str,
        a.port == b.port,
{
    lemma_cut_at_the_at(a);
    lemma_cut_at_the_at(b);
    lemma_unique_cut(before_at(a), from_at(a), before_at(b), from_at(b), '@');
    if has_credentials(a) {
        assert(from_at(b).len() > 0);
        assert(host_text(a) + port_text(a.port) =~= from_at(a).skip(1));
        assert(host_text(b) + port_text(b.port) =~= from_at(b).skip(1));
        lemma_free_of_lacks(a.username, true, true, true, true, true, ':');
        lemma_free_of_lacks(b.username, true, true, true, true, true, ':');
        lemma_unique_cut(
            a.username,
            marked_text(':', a.password),
            b.username,
            marked_text(':', b.password),
            ':',
        );
        lemma_marked_text_injective(':', a.password, b.password);
    } else {
        assert(from_at(b).len() == 0);
        assert(a.username =~= b.username);
    }
    lemma_host_and_port(a, b);
}

/// What the authority holds behind its two slashes is what stands before
/// its first `@` and what stands from there on.
proof fn lemma_cut_at_the_at(v: UrlView)
    requires
        well_formed(v),
    ensures
        authority_inside(v) == before_at(v) + from_at(v),
        lacks(before_at(v), '@'),
        from_at(v).len() == 0 || from_at(v)[0] == '@',
{
    let rest = host_text(v) + port_text(v.port);
    lemma_host_and_port_lack(v, '@');
    if has_credentials(v) {
        lemma_free_of_lacks(v.username, true, true, true, true, true, '@');
        match v.password {
            Some(p) => {
                lemma_free_of_lacks(p, false, true, true, true, true, '@');
                assert(userinfo_text(v.username, v.password) =~= credentials(v) + seq!['@']);
            },
            None => {
                assert(credentials(v) =~= v.username);
            },
        }
        assert(authority_inside(v) =~= credentials(v) + (seq!['@'] + rest));
    } else {
        assert(authority_inside(v) =~= rest);
        assert(before_at(v) + from_at(v) =~= rest);
    }
}

/// Two records that obey the rules of the data model and have one
/// serialization are one record: the serialization decides every component.
pub proof fn lemma_serialization_decides_record(a: UrlView, b: UrlView)
    requires
        well_formed(a),
        well_formed(b),
        a.serialization == b.serialization,
    ensures
        a == b,
{
    lemma_outer_components(a, b);
    lemma_authority_flag(a);
    lemma_authority_flag(b);
    if a.has_authority {
        lemma_components_with_authority(a, b);
    } else {
        lemma_path_without_authority(a, b);
    }
    assert(a.username == b.username);
    assert(a.password == b.password);
    assert(a.host_str == b.host_str);
    assert(a.port == b.port);
    assert(a.path == b.path);
    assert(a.host == b.host);
    assert(a.cannot_be_a_base == b.cannot_be_a_base);
    assert(a =~= b);
}

} // verus!
