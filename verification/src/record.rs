//! The URL record: its components, its canonical serialization and the
//! rules that every record obeys.

use vstd::prelude::*;
use vstd::std_specs::cmp::PartialEqSpecImpl;
use vstd::std_specs::hash::DefaultHasherAdditionalSpecFns;
use vstd::utf8::encode_utf8;
use std::collections::hash_map::DefaultHasher;
use std::hash::Hasher;
use crate::error::{ParseErrorKind, UrlError, UrlErrorView};
use crate::host::{clone_host_option, host_option_eq, host_option_view, Host, HostView};
use crate::scheme::{default_port, is_special, spec_default_port, spec_is_special};
use crate::canonical::lemma_serialization_decides_record;
use crate::classify::{classify, spec_classify};
use crate::classify::host_outcome_view;
use crate::engine::{parse_outside, reads_as};
use crate::reading::{parts_of, read_parts, reported_host_is_plain};
use crate::path::{normalize, segments_of, spec_normalize, spec_path_segments, texts_eq};
use crate::text::{
    as_slice_option, begins_with_slash, begins_with_two_slashes, duplicate_text_option, encoded,
    free_of, is_encoded, is_free_of, slice_option_view, str_eq, text_option_eq, text_option_view,
    to_chars,
};

verus! {

/// The components of a URL as plain values, with nothing yet checked.
#[derive(Debug)]
pub struct UrlParts {
    /// The canonical text of the whole URL.
    pub serialization: String,
    /// The scheme, without the colon.
    pub scheme: String,
    /// Whether the text holds `//` behind the scheme's colon.
    pub has_authority: bool,
    pub username: String,
    pub password: Option<String>,
    pub host: Option<Host>,
    /// The host as it is written in the serialization.
    pub host_str: Option<String>,
    /// The port, unless it is the default of the scheme.
    pub port: Option<u16>,
    /// The path: segments behind slashes, or one opaque text.
    pub path: String,
    /// The query, without the question mark.
    pub query: Option<String>,
    /// The fragment, without the hash.
    pub fragment: Option<String>,
    pub cannot_be_a_base: bool,
}

/// The mathematical content of a URL record.
pub struct UrlView {
    pub serialization: Seq<char>,
    pub scheme: Seq<char>,
    pub has_authority: bool,
    pub username: Seq<char>,
    pub password: Option<Seq<char>>,
    pub host: Option<HostView>,
    pub host_str: Option<Seq<char>>,
    pub port: Option<u16>,
    pub path: Seq<char>,
    pub query: Option<Seq<char>>,
    pub fragment: Option<Seq<char>>,
    pub cannot_be_a_base: bool,
}

impl View for UrlParts {
    type V = UrlView;

    open spec fn view(&self) -> UrlView {
        UrlView {
            serialization: self.serialization@,
            scheme: self.scheme@,
            has_authority: self.has_authority,
            username: self.username@,
            password: text_option_view(self.password),
            host: host_option_view(self.host),
            host_str: text_option_view(self.host_str),
            port: self.port,
            path: self.path@,
            query: text_option_view(self.query),
            fragment: text_option_view(self.fragment),
            cannot_be_a_base: self.cannot_be_a_base,
        }
    }
}

/// The character of a decimal digit.
pub open spec fn digit_char(d: int) -> char {
    if d == 0 {
        '0'
    } else if d == 1 {
        '1'
    } else if d == 2 {
        '2'
    } else if d == 3 {
        '3'
    } else if d == 4 {
        '4'
    } else if d == 5 {
        '5'
    } else if d == 6 {
        '6'
    } else if d == 7 {
        '7'
    } else if d == 8 {
        '8'
    } else {
        '9'
    }
}

/// A number in decimal, without leading zeros.
pub open spec fn decimal(n: nat) -> Seq<char>
    decreases n,
{
    if n < 10 {
        seq![digit_char(n as int)]
    } else {
        decimal(n / 10).push(digit_char((n % 10) as int))
    }
}

/// The user and the password as the serialization holds them: nothing where
/// both are absent, else the user, the password behind a colon if there is
/// one, and `@`.
pub open spec fn userinfo_text(username: Seq<char>, password: Option<Seq<char>>) -> Seq<char> {
    match password {
        Some(p) => username + seq![':'] + p + seq!['@'],
        None => if username.len() > 0 {
            username + seq!['@']
        } else {
            Seq::<char>::empty()
        },
    }
}

/// The port as the serialization holds it.
pub open spec fn port_text(port: Option<u16>) -> Seq<char> {
    match port {
        Some(p) => seq![':'] + decimal(p as nat),
        None => Seq::<char>::empty(),
    }
}

/// An optional component behind the mark that introduces it.
pub open spec fn marked_text(mark: char, part: Option<Seq<char>>) -> Seq<char> {
    match part {
        Some(t) => seq![mark] + t,
        None => Seq::<char>::empty(),
    }
}

/// The authority as the serialization holds it.
pub open spec fn authority_text(v: UrlView) -> Seq<char> {
    if v.has_authority {
        seq!['/', '/'] + userinfo_text(v.username, v.password) + (match v.host_str {
            Some(h) => h,
            None => Seq::<char>::empty(),
        }) + port_text(v.port)
    } else {
        Seq::<char>::empty()
    }
}

/// What stands before a path that would otherwise read as an authority:
/// `/.` where there is no authority and the path begins with two slashes.
pub open spec fn path_guard(v: UrlView) -> Seq<char> {
    if !v.has_authority && begins_with_two_slashes(v.path) {
        seq!['/', '.']
    } else {
        Seq::<char>::empty()
    }
}

/// The canonical serialization of the components: the scheme and a colon,
/// the authority if there is one, the path, the query behind `?` and the
/// fragment behind `#`.
pub open spec fn serialized(v: UrlView) -> Seq<char> {
    v.scheme + seq![':'] + authority_text(v) + path_guard(v) + v.path + marked_text('?', v.query)
        + marked_text('#', v.fragment)
}

/// Whether a character may stand in a scheme.
pub open spec fn is_scheme_char(c: char) -> bool {
    ('a' <= c && c <= 'z') || ('0' <= c && c <= '9') || c == '+' || c == '-' || c == '.'
}

/// A scheme is not empty, begins with a lower-case letter and goes on in
/// lower-case letters, digits, `+`, `-` and `.`.
pub open spec fn valid_scheme(s: Seq<char>) -> bool {
    &&& s.len() > 0
    &&& 'a' <= s[0] && s[0] <= 'z'
    &&& forall|i: int| 0 <= i < s.len() ==> is_scheme_char(#[trigger] s[i])
}

/// An IPv4 address as a host is written: its four bytes in decimal, with
/// dots between them.
pub open spec fn dotted(octets: Seq<u8>) -> Seq<char> {
    decimal(octets[0] as nat) + seq!['.'] + decimal(octets[1] as nat) + seq!['.'] + decimal(
        octets[2] as nat,
    ) + seq!['.'] + decimal(octets[3] as nat)
}

/// Whether `text` is how the host is written: a name as it is, an IPv4
/// address in dotted decimal, an IPv6 address as the classifier reads it.
pub open spec fn written_as(host: HostView, text: Seq<char>) -> bool {
    match host {
        HostView::Domain(name) => text == name,
        HostView::Opaque(name) => text == name,
        HostView::Ipv4(octets) => octets.len() == 4 && text == dotted(octets),
        HostView::Ipv6(octets) => octets.len() == 16,
    }
}

/// Whether a host agrees with its text, given what the classifier makes of
/// the text: the classifier gives that host, and the text is how the host
/// is written.
pub open spec fn host_agrees_with(
    host: HostView,
    text: Seq<char>,
    classified: Result<HostView, UrlErrorView>,
) -> bool {
    classified == Ok::<HostView, UrlErrorView>(host) && written_as(host, text)
}

/// The host agrees with the text that the serialization holds for it: the
/// host is what the classifier makes of the text under the scheme of the
/// record, and the text is how the host is written.
pub open spec fn valid_host(v: UrlView) -> bool {
    match v.host {
        Some(host) => v.host_str matches Some(text) && host_agrees_with(
            host,
            text,
            spec_classify(text, spec_is_special(v.scheme)),
        ),
        None => v.host_str is None,
    }
}

/// Whether a host text is in brackets.
pub open spec fn is_bracketed(s: Seq<char>) -> bool {
    s.len() >= 2 && s[0] == '[' && s.last() == ']'
}

/// The text of a host is not empty and holds nothing that would end the
/// host: no `/`, `?`, `#` or `@`, and no `:` unless the text is in brackets.
pub open spec fn valid_host_text(host_str: Option<Seq<char>>) -> bool {
    match host_str {
        Some(s) => s.len() > 0 && free_of(s, !is_bracketed(s), true, true, true, true),
        None => true,
    }
}

/// No component holds a mark that would end it early: the user no `:`, `@`,
/// `/`, `?` or `#`; the password no `@`, `/`, `?` or `#`; the path no `?` or
/// `#`; the query no `#`.
pub open spec fn valid_marks(v: UrlView) -> bool {
    &&& free_of(v.username, true, true, true, true, true)
    &&& (v.password matches Some(p) ==> free_of(p, false, true, true, true, true))
    &&& valid_host_text(v.host_str)
    &&& free_of(v.path, false, false, false, true, true)
    &&& (v.query matches Some(q) ==> free_of(q, false, false, false, false, true))
}

/// The path is in normal form: behind an authority it is empty or begins
/// with a slash, and normalizing its segments gives the same segments.
pub open spec fn valid_path(v: UrlView) -> bool {
    &&& (v.has_authority ==> v.path.len() == 0 || begins_with_slash(v.path))
    &&& (spec_path_segments(v.path) matches Some(segments) ==> spec_normalize(
        segments,
        None,
        false,
    ) == segments)
}

/// What must be percent-encoded in a fragment, beside control characters
/// and characters beyond ASCII.
pub open spec fn fragment_marks() -> Seq<char> {
    " \"<>`"@
}

/// What must be percent-encoded in a path of segments.
pub open spec fn path_marks() -> Seq<char> {
    " \"<>`#?{}"@
}

/// What must be percent-encoded in a user or a password.
pub open spec fn userinfo_marks() -> Seq<char> {
    " \"<>`#?{}/:;=@[\\]^|"@
}

/// What must be percent-encoded in a query.
pub open spec fn query_marks() -> Seq<char> {
    " \"#<>"@
}

/// What must be percent-encoded in a query under a special scheme.
pub open spec fn special_query_marks() -> Seq<char> {
    " \"#<>'"@
}

/// What must be percent-encoded in an opaque path or in a host, beside
/// control characters and characters beyond ASCII: nothing.
pub open spec fn no_marks() -> Seq<char> {
    ""@
}

/// Every component is percent-encoded as its place asks: it holds printable
/// ASCII characters only, and none that must be encoded in its place.
pub open spec fn valid_encoding(v: UrlView) -> bool {
    &&& encoded(v.username, userinfo_marks())
    &&& (v.password matches Some(p) ==> encoded(p, userinfo_marks()))
    &&& (v.host_str matches Some(h) ==> encoded(h, no_marks()))
    &&& encoded(
        v.path,
        if v.cannot_be_a_base {
            no_marks()
        } else {
            path_marks()
        },
    )
    &&& (v.query matches Some(q) ==> encoded(
        q,
        if spec_is_special(v.scheme) {
            special_query_marks()
        } else {
            query_marks()
        },
    ))
    &&& (v.fragment matches Some(f) ==> encoded(f, fragment_marks()))
}

/// The rules of the data model: the scheme is valid; the host agrees with
/// its text and stands in an authority; without a host there are no
/// credentials and no port; the port is not the default of the scheme; the
/// URL cannot be a base exactly if it has no authority and its path does not
/// begin with a slash; no component holds a mark that would end it early;
/// every component is percent-encoded as its place asks; the path is in
/// normal form; and the serialization is the canonical text
/// of the components.
pub open spec fn well_formed(v: UrlView) -> bool {
    &&& valid_scheme(v.scheme)
    &&& valid_host(v)
    &&& (v.host is Some ==> v.has_authority)
    &&& (v.host is None ==> v.username.len() == 0 && v.password is None && v.port is None)
    &&& (v.port matches Some(p) ==> spec_default_port(v.scheme) != Some(p))
    &&& v.cannot_be_a_base == (!v.has_authority && !begins_with_slash(v.path))
    &&& valid_marks(v)
    &&& valid_encoding(v)
    &&& valid_path(v)
    &&& v.serialization == serialized(v)
}

/// One decimal digit.
fn digit(d: u16) -> (c: char)
    requires
        d < 10,
    ensures
        c == digit_char(d as int),
{
    if d == 0 {
        '0'
    } else if d == 1 {
        '1'
    } else if d == 2 {
        '2'
    } else if d == 3 {
        '3'
    } else if d == 4 {
        '4'
    } else if d == 5 {
        '5'
    } else if d == 6 {
        '6'
    } else if d == 7 {
        '7'
    } else if d == 8 {
        '8'
    } else {
        '9'
    }
}

/// Writes a number in decimal behind a text.
fn push_decimal(s: &mut String, n: u16)
    ensures
        final(s)@ == old(s)@ + decimal(n as nat),
    decreases n,
{
    if n >= 10 {
        push_decimal(s, n / 10);
    }
    s.push(digit(n % 10));
    proof {
        if n >= 10 {
            assert(s@ =~= old(s)@ + decimal((n / 10) as nat).push(digit_char((n % 10) as int)));
        } else {
            assert(s@ =~= old(s)@ + seq![digit_char(n as int)]);
        }
    }
}

/// Writes an optional component behind its mark.
fn push_marked(s: &mut String, mark: char, part: Option<&str>)
    ensures
        final(s)@ == old(s)@ + marked_text(mark, slice_option_view(part)),
{
    match part {
        Some(t) => {
            s.push(mark);
            s.append(t);
            assert(s@ =~= old(s)@ + (seq![mark] + t@));
        },
        None => {
            assert(s@ =~= old(s)@ + Seq::<char>::empty());
        },
    }
}

/// Writes the authority of `parts`, if it has one.
fn push_authority(s: &mut String, parts: &UrlParts)
    ensures
        final(s)@ == old(s)@ + authority_text(parts@),
{
    if parts.has_authority {
        s.push('/');
        s.push('/');
        match &parts.password {
            Some(p) => {
                s.append(parts.username.as_str());
                s.push(':');
                s.append(p.as_str());
                s.push('@');
            },
            None => {
                if !parts.username.as_str().is_empty() {
                    s.append(parts.username.as_str());
                    s.push('@');
                }
            },
        }
        assert(s@ =~= old(s)@ + (seq!['/', '/'] + userinfo_text(
            parts@.username,
            parts@.password,
        )));
        let ghost before_host = s@;
        match &parts.host_str {
            Some(h) => {
                s.append(h.as_str());
            },
            None => {
                assert(s@ =~= before_host + Seq::<char>::empty());
            },
        }
        let ghost before_port = s@;
        match parts.port {
            Some(p) => {
                s.push(':');
                push_decimal(s, p);
                assert(s@ =~= before_port + port_text(parts@.port));
            },
            None => {
                assert(s@ =~= before_port + port_text(parts@.port));
            },
        }
        assert(s@ =~= old(s)@ + authority_text(parts@));
    } else {
        assert(s@ =~= old(s)@ + authority_text(parts@));
    }
}

/// The canonical serialization of `parts`.
pub fn serialize(parts: &UrlParts) -> (s: String)
    ensures
        s@ == serialized(parts@),
{
    let mut s = String::new();
    s.append(parts.scheme.as_str());
    s.push(':');
    assert(s@ =~= parts@.scheme + seq![':']);
    push_authority(&mut s, parts);
    let path = to_chars(parts.path.as_str());
    let ghost before_guard = s@;
    if !parts.has_authority && path.len() >= 2 && path[0] == '/' && path[1] == '/' {
        s.push('/');
        s.push('.');
        assert(s@ =~= before_guard + path_guard(parts@));
    } else {
        assert(s@ =~= before_guard + path_guard(parts@));
    }
    s.append(parts.path.as_str());
    push_marked(&mut s, '?', as_slice_option(&parts.query));
    push_marked(&mut s, '#', as_slice_option(&parts.fragment));
    s
}

/// Whether `scheme` is a valid scheme.
pub fn is_valid_scheme(scheme: &str) -> (r: bool)
    ensures
        r == valid_scheme(scheme@),
{
    let cs = to_chars(scheme);
    if cs.len() == 0 {
        return false;
    }
    if !('a' <= cs[0] && cs[0] <= 'z') {
        return false;
    }
    let mut i: usize = 0;
    while i < cs.len()
        invariant
            i <= cs.len(),
            cs@ == scheme@,
            forall|j: int| 0 <= j < i ==> is_scheme_char(#[trigger] cs@[j]),
        decreases cs.len() - i,
    {
        let c = cs[i];
        let ok = ('a' <= c && c <= 'z') || ('0' <= c && c <= '9') || c == '+' || c == '-' || c
            == '.';
        if !ok {
            assert(!is_scheme_char(scheme@[i as int]));
            return false;
        }
        i += 1;
    }
    true
}

/// An IPv4 address as a host is written.
pub fn dotted_text(octets: &[u8; 4]) -> (s: String)
    ensures
        s@ == dotted(octets@),
{
    let mut s = String::new();
    push_decimal(&mut s, octets[0] as u16);
    s.push('.');
    push_decimal(&mut s, octets[1] as u16);
    s.push('.');
    push_decimal(&mut s, octets[2] as u16);
    s.push('.');
    push_decimal(&mut s, octets[3] as u16);
    assert(s@ =~= dotted(octets@));
    s
}

/// Whether `text` is how `host` is written.
fn is_written_as(host: &Host, text: &str) -> (r: bool)
    ensures
        r == written_as(host@, text@),
{
    match host {
        Host::Domain(name) => str_eq(text, name.as_str()),
        Host::Opaque(name) => str_eq(text, name.as_str()),
        Host::Ipv4(octets) => {
            let written = dotted_text(octets);
            str_eq(text, written.as_str())
        },
        Host::Ipv6(_) => true,
    }
}

/// Whether `host` agrees with `text`, given what the classifier made of the
/// text.
pub fn host_agrees(host: &Host, text: &str, classified: &Result<Host, UrlError>) -> (r: bool)
    ensures
        r == host_agrees_with(host@, text@, host_outcome_view(*classified)),
{
    match classified {
        Ok(found) => *found == *host && is_written_as(host, text),
        Err(_) => false,
    }
}

/// Whether the host of `parts` agrees with its text and its scheme.
fn is_valid_host(parts: &UrlParts) -> (r: bool)
    ensures
        r == valid_host(parts@),
{
    match (&parts.host, &parts.host_str) {
        (Some(host), Some(text)) => {
            let classified = classify(text.as_str(), is_special(parts.scheme.as_str()));
            host_agrees(host, text.as_str(), &classified)
        },
        (Some(_), None) => false,
        (None, Some(_)) => false,
        (None, None) => true,
    }
}

/// Whether the text of the host is not empty and holds nothing that would
/// end the host.
fn is_valid_host_text(host_str: &Option<String>) -> (r: bool)
    ensures
        r == valid_host_text(text_option_view(*host_str)),
{
    match host_str {
        Some(s) => {
            let cs = to_chars(s.as_str());
            if cs.len() == 0 {
                return false;
            }
            let bracketed = cs.len() >= 2 && cs[0] == '[' && cs[cs.len() - 1] == ']';
            is_free_of(s.as_str(), !bracketed, true, true, true, true)
        },
        None => true,
    }
}

/// Whether no component of `parts` holds a mark that would end it early.
fn has_valid_marks(parts: &UrlParts) -> (r: bool)
    ensures
        r == valid_marks(parts@),
{
    if !is_free_of(parts.username.as_str(), true, true, true, true, true) {
        return false;
    }
    match &parts.password {
        Some(p) => {
            if !is_free_of(p.as_str(), false, true, true, true, true) {
                return false;
            }
        },
        None => {},
    }
    if !is_valid_host_text(&parts.host_str) {
        return false;
    }
    if !is_free_of(parts.path.as_str(), false, false, false, true, true) {
        return false;
    }
    match &parts.query {
        Some(q) => is_free_of(q.as_str(), false, false, false, false, true),
        None => true,
    }
}

/// Whether the path of `parts` is in normal form.
fn has_valid_path(parts: &UrlParts) -> (r: bool)
    ensures
        r == valid_path(parts@),
{
    match segments_of(parts.path.as_str()) {
        Some(segments) => {
            let normal = normalize(&segments, None, false);
            texts_eq(&normal, &segments)
        },
        None => !parts.has_authority || parts.path.as_str().is_empty(),
    }
}

/// Whether every component of `parts` is percent-encoded as its place asks.
fn has_valid_encoding(parts: &UrlParts) -> (r: bool)
    ensures
        r == valid_encoding(parts@),
{
    if !is_encoded(parts.username.as_str(), " \"<>`#?{}/:;=@[\\]^|") {
        return false;
    }
    match &parts.password {
        Some(p) => {
            if !is_encoded(p.as_str(), " \"<>`#?{}/:;=@[\\]^|") {
                return false;
            }
        },
        None => {},
    }
    match &parts.host_str {
        Some(h) => {
            if !is_encoded(h.as_str(), "") {
                return false;
            }
        },
        None => {},
    }
    let path_ok = if parts.cannot_be_a_base {
        is_encoded(parts.path.as_str(), "")
    } else {
        is_encoded(parts.path.as_str(), " \"<>`#?{}")
    };
    if !path_ok {
        return false;
    }
    match &parts.query {
        Some(q) => {
            let query_ok = if is_special(parts.scheme.as_str()) {
                is_encoded(q.as_str(), " \"#<>'")
            } else {
                is_encoded(q.as_str(), " \"#<>")
            };
            if !query_ok {
                return false;
            }
        },
        None => {},
    }
    match &parts.fragment {
        Some(f) => is_encoded(f.as_str(), " \"<>`"),
        None => true,
    }
}

/// Whether two sets of components are the same.
pub fn parts_eq(a: &UrlParts, b: &UrlParts) -> (r: bool)
    ensures
        r == (a@ == b@),
{
    let same = str_eq(a.serialization.as_str(), b.serialization.as_str()) && str_eq(
        a.scheme.as_str(),
        b.scheme.as_str(),
    ) && a.has_authority == b.has_authority && str_eq(a.username.as_str(), b.username.as_str())
        && text_option_eq(&a.password, &b.password) && host_option_eq(&a.host, &b.host)
        && text_option_eq(&a.host_str, &b.host_str) && a.port == b.port && str_eq(
        a.path.as_str(),
        b.path.as_str(),
    ) && text_option_eq(&a.query, &b.query) && text_option_eq(&a.fragment, &b.fragment)
        && a.cannot_be_a_base == b.cannot_be_a_base;
    assert(same ==> a@ =~= b@);
    same
}

/// Whether `parts` obeys the rules of the data model.
pub fn is_well_formed(parts: &UrlParts) -> (r: bool)
    ensures
        r == well_formed(parts@),
{
    if !is_valid_scheme(parts.scheme.as_str()) {
        return false;
    }
    if !is_valid_host(parts) {
        return false;
    }
    if parts.host.is_some() && !parts.has_authority {
        return false;
    }
    if parts.host.is_none() && (!parts.username.as_str().is_empty() || parts.password.is_some()
        || parts.port.is_some()) {
        return false;
    }
    match parts.port {
        Some(p) => {
            match default_port(parts.scheme.as_str()) {
                Some(d) => {
                    if d == p {
                        return false;
                    }
                },
                None => {},
            }
        },
        None => {},
    }
    let path = to_chars(parts.path.as_str());
    let slash = path.len() >= 1 && path[0] == '/';
    if parts.cannot_be_a_base != (!parts.has_authority && !slash) {
        return false;
    }
    if !has_valid_marks(parts) {
        return false;
    }
    if !has_valid_encoding(parts) {
        return false;
    }
    if !has_valid_path(parts) {
        return false;
    }
    let text = serialize(parts);
    str_eq(text.as_str(), parts.serialization.as_str())
}

/// A URL record. Every value obeys the rules of the data model, see
/// [`well_formed`]: among them, its serialization is the canonical text of
/// its components, a default port is never stored, and there are no
/// credentials and no port without a host. And every value is what the
/// parser reports for its own serialization, see [`canonical`].
#[derive(Debug)]
pub struct UrlRecord {
    parts: UrlParts,
}

impl View for UrlRecord {
    type V = UrlView;

    closed spec fn view(&self) -> UrlView {
        self.parts@
    }
}

/// The hash of a text: that of its bytes in UTF-8 and one byte that ends
/// them.
pub open spec fn hash_of(text: Seq<char>) -> u64 {
    DefaultHasher::spec_finish(seq![encode_utf8(text), seq![0xffu8]])
}

/// The view of the outcome of an operation that makes a record.
pub open spec fn outcome_view(r: Result<UrlRecord, UrlError>) -> Result<UrlView, UrlErrorView> {
    match r {
        Ok(u) => Ok(u@),
        Err(e) => Err(e@),
    }
}

/// What makes components the components of a record: they obey the rules
/// of the data model, and they are what the parser reports for their
/// serialization, which it reads as itself.
pub open spec fn canonical(v: UrlView) -> bool {
    &&& well_formed(v)
    &&& reads_as(v.serialization, v.serialization)
    &&& parts_of(v.serialization) == v
    &&& reported_host_is_plain(v.serialization)
}

/// What checking the components `v` gives: the record, or the catch-all
/// error about the serialization.
pub open spec fn checked(v: UrlView) -> Result<UrlView, UrlErrorView> {
    if canonical(v) {
        Ok(v)
    } else {
        Err(UrlErrorView { kind: ParseErrorKind::UrlError, input: v.serialization })
    }
}

impl UrlRecord {
    #[verifier::type_invariant]
    spec fn inv(self) -> bool {
        canonical(self.parts@)
    }

    /// Makes a record of components that obey the rules of the data model
    /// and that the parser reports for their serialization, and refuses any
    /// others.
    pub fn from_parts(parts: UrlParts) -> (r: Result<UrlRecord, UrlError>)
        ensures
            outcome_view(r) == checked(parts@),
            r is Ok <==> canonical(parts@),
    {
        if is_well_formed(&parts) {
            match parse_outside(parts.serialization.as_str()) {
                Ok(h) => {
                    let read = read_parts(&h);
                    if parts_eq(&read, &parts) {
                        return Ok(UrlRecord { parts });
                    }
                },
                Err(_) => {},
            }
        }
        Err(UrlError::new(ParseErrorKind::UrlError, parts.serialization.as_str()))
    }

    /// Makes a record of the components that the parser reports for a text
    /// that it reads as itself, if they obey the rules of the data model.
    pub(crate) fn from_read_parts(parts: UrlParts) -> (r: Option<UrlRecord>)
        requires
            reads_as(parts@.serialization, parts@.serialization),
            parts@ == parts_of(parts@.serialization),
            reported_host_is_plain(parts@.serialization),
        ensures
            match r {
                Some(u) => u@ == parts@ && well_formed(parts@),
                None => !well_formed(parts@),
            },
    {
        if is_well_formed(&parts) {
            Some(UrlRecord { parts })
        } else {
            None
        }
    }

    /// All components at once. They obey the rules of the data model, and
    /// they are what the parser reports for the serialization.
    pub fn parts(&self) -> (p: &UrlParts)
        ensures
            p@ == self@,
            well_formed(p@),
            canonical(p@),
    {
        proof {
            use_type_invariant(self);
        }
        &self.parts
    }

    /// The canonical serialization.
    pub fn as_str(&self) -> (s: &str)
        ensures
            s@ == self@.serialization,
            s@ == serialized(self@),
    {
        proof {
            use_type_invariant(self);
        }
        self.parts.serialization.as_str()
    }

    /// The canonical serialization, as an owned string.
    pub fn to_string(&self) -> (s: String)
        ensures
            s@ == self@.serialization,
            s@ == serialized(self@),
    {
        proof {
            use_type_invariant(self);
        }
        self.parts.serialization.clone()
    }

    pub fn scheme(&self) -> (s: &str)
        ensures
            s@ == self@.scheme,
            valid_scheme(s@),
    {
        proof {
            use_type_invariant(self);
        }
        self.parts.scheme.as_str()
    }

    /// Whether the serialization holds `//` behind the scheme's colon.
    pub fn has_authority(&self) -> (r: bool)
        ensures
            r == self@.has_authority,
    {
        self.parts.has_authority
    }

    pub fn username(&self) -> (s: &str)
        ensures
            s@ == self@.username,
            self@.host is None ==> s@.len() == 0,
    {
        proof {
            use_type_invariant(self);
        }
        self.parts.username.as_str()
    }

    pub fn password(&self) -> (s: Option<&str>)
        ensures
            slice_option_view(s) == self@.password,
            self@.host is None ==> s is None,
    {
        proof {
            use_type_invariant(self);
        }
        as_slice_option(&self.parts.password)
    }

    pub fn host(&self) -> (h: Option<Host>)
        ensures
            host_option_view(h) == self@.host,
    {
        clone_host_option(&self.parts.host)
    }

    /// The name of the host, where the host is a domain.
    pub fn domain(&self) -> (s: Option<&str>)
        ensures
            match self@.host {
                Some(HostView::Domain(name)) => s matches Some(d) && d@ == name,
                _ => s is None,
            },
    {
        match &self.parts.host {
            Some(h) => h.domain(),
            None => None,
        }
    }

    /// The host as the serialization holds it.
    pub fn host_str(&self) -> (s: Option<&str>)
        ensures
            slice_option_view(s) == self@.host_str,
            s is Some <==> self@.host is Some,
    {
        proof {
            use_type_invariant(self);
        }
        as_slice_option(&self.parts.host_str)
    }

    /// The port, which is never the default port of the scheme.
    pub fn port(&self) -> (p: Option<u16>)
        ensures
            p == self@.port,
            p is Some ==> p != spec_default_port(self@.scheme),
            self@.host is None ==> p is None,
    {
        proof {
            use_type_invariant(self);
        }
        self.parts.port
    }

    pub fn path(&self) -> (s: &str)
        ensures
            s@ == self@.path,
    {
        self.parts.path.as_str()
    }

    pub fn query(&self) -> (s: Option<&str>)
        ensures
            slice_option_view(s) == self@.query,
    {
        as_slice_option(&self.parts.query)
    }

    pub fn fragment(&self) -> (s: Option<&str>)
        ensures
            slice_option_view(s) == self@.fragment,
    {
        as_slice_option(&self.parts.fragment)
    }

    /// The hash of the canonical serialization: records that are equal
    /// have the same hash.
    pub fn hash_code(&self) -> (h: u64)
        ensures
            h == hash_of(self@.serialization),
    {
        let mut hasher = DefaultHasher::new();
        hasher.write(self.parts.serialization.as_str().as_bytes());
        let end: [u8; 1] = [0xff];
        let last = end.as_slice();
        assert(last@ =~= seq![0xffu8]);
        hasher.write(last);
        assert(hasher@ =~= seq![encode_utf8(self@.serialization), seq![0xffu8]]);
        hasher.finish()
    }

    /// Whether the URL has no authority and a path that is one opaque text.
    pub fn cannot_be_a_base(&self) -> (r: bool)
        ensures
            r == self@.cannot_be_a_base,
            r == (!self@.has_authority && !begins_with_slash(self@.path)),
    {
        proof {
            use_type_invariant(self);
        }
        self.parts.cannot_be_a_base
    }
}

impl Clone for UrlParts {
    fn clone(&self) -> (p: UrlParts)
        ensures
            p@ == self@,
    {
        UrlParts {
            serialization: self.serialization.clone(),
            scheme: self.scheme.clone(),
            has_authority: self.has_authority,
            username: self.username.clone(),
            password: duplicate_text_option(&self.password),
            host: clone_host_option(&self.host),
            host_str: duplicate_text_option(&self.host_str),
            port: self.port,
            path: self.path.clone(),
            query: duplicate_text_option(&self.query),
            fragment: duplicate_text_option(&self.fragment),
            cannot_be_a_base: self.cannot_be_a_base,
        }
    }
}

impl Clone for UrlRecord {
    fn clone(&self) -> (u: UrlRecord)
        ensures
            u@ == self@,
    {
        proof {
            use_type_invariant(self);
        }
        UrlRecord { parts: self.parts.clone() }
    }
}

/// Two records are equal when their serializations are the same text, and
/// then they agree in every component.
impl PartialEq for UrlRecord {
    fn eq(&self, other: &UrlRecord) -> (r: bool) {
        proof {
            use_type_invariant(self);
            use_type_invariant(other);
            if self@.serialization == other@.serialization {
                lemma_serialization_decides_record(self@, other@);
            }
        }
        str_eq(self.parts.serialization.as_str(), other.parts.serialization.as_str())
    }
}

impl PartialEqSpecImpl for UrlRecord {
    open spec fn obeys_eq_spec() -> bool {
        true
    }

    open spec fn eq_spec(&self, other: &UrlRecord) -> bool {
        self@ == other@
    }
}

impl Eq for UrlRecord {

}

} // verus!
