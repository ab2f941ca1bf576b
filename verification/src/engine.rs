//! The boundary to the `url` crate.
//!
//! Every call into the parser is made here, and nothing here is proved: each
//! contract is a claim about the `url` crate that the verifier takes on
//! trust. A [`Handle`] carries the URL that the parser made of a text; what
//! the parser's functions return for it is named as a function of that text
//! and of the call's other arguments, or stated in full where a few lines
//! state it. A URL that was changed is never read: its serialization is
//! handed out and parsed anew.

use vstd::prelude::*;
use vstd::utf8::encode_utf8;
use crate::error::{ParseErrorKind, kind_of};
use crate::host::{Host, HostView, host_option_view};
use crate::text::{begins_with, slice_option_view, text_option_view};

verus! {

/// `url::Url`, a parsed URL. Nothing of its inside is visible to the verifier.
#[verifier::external_type_specification]
#[verifier::external_body]
pub struct ExUrl(url::Url);

/// The URL that the parser made of a text, held with that text. Only
/// [`parse_outside`] makes one, so a handle is never the outcome of a change.
pub struct Handle {
    inner: url::Url,
    source: String,
}

impl View for Handle {
    type V = Seq<char>;

    /// The text that was parsed.
    closed spec fn view(&self) -> Seq<char> {
        self.source@
    }
}

/// The number of bytes that a text takes in UTF-8.
pub open spec fn byte_len(s: Seq<char>) -> nat {
    encode_utf8(s).len()
}

/// The text of a success, empty for an error.
pub open spec fn ok_text(outcome: Result<Seq<char>, ParseErrorKind>) -> Seq<char> {
    match outcome {
        Ok(text) => text,
        Err(_) => Seq::<char>::empty(),
    }
}

/// Whether the parser reads `source` as a URL with the serialization
/// `text`.
pub open spec fn reads_as(source: Seq<char>, text: Seq<char>) -> bool {
    parsed_text(source) == Ok::<Seq<char>, ParseErrorKind>(text)
}

/// What `Url::parse` makes of an input: the serialization of the URL, or the
/// kind of its error.
pub uninterp spec fn parsed_text(input: Seq<char>) -> Result<Seq<char>, ParseErrorKind>;

/// What `Url::join` makes of a reference on the URL parsed from `base`: the
/// serialization of the result, or the kind of its error.
pub uninterp spec fn joined_text(base: Seq<char>, input: Seq<char>) -> Result<
    Seq<char>,
    ParseErrorKind,
>;

/// What `Url::make_relative` returns for the URLs parsed from `base` and
/// from `target`.
pub uninterp spec fn relative_text(base: Seq<char>, target: Seq<char>) -> Option<Seq<char>>;

/// The serialization of the URL parsed from `source` after
/// `Url::set_fragment`.
pub uninterp spec fn refragmented_text(source: Seq<char>, fragment: Option<Seq<char>>) -> Seq<
    char,
>;

/// The serialization of the URL parsed from `source` after `Url::set_host`,
/// or the kind of its error.
pub uninterp spec fn rehosted_text(source: Seq<char>, host: Option<Seq<char>>) -> Result<
    Seq<char>,
    ParseErrorKind,
>;

/// The bytes that the `application/x-www-form-urlencoded` form leaves as
/// they are: ASCII letters and digits, `*`, `-`, `.` and `_`.
pub open spec fn is_form_plain(b: u8) -> bool {
    b == 0x2a || b == 0x2d || b == 0x2e || (0x30 <= b && b <= 0x39) || (0x41 <= b && b <= 0x5a)
        || b == 0x5f || (0x61 <= b && b <= 0x7a)
}

/// The upper-case hexadecimal digit of a number below sixteen.
pub open spec fn hex_upper(n: int) -> char {
    if n == 0 {
        '0'
    } else if n == 1 {
        '1'
    } else if n == 2 {
        '2'
    } else if n == 3 {
        '3'
    } else if n == 4 {
        '4'
    } else if n == 5 {
        '5'
    } else if n == 6 {
        '6'
    } else if n == 7 {
        '7'
    } else if n == 8 {
        '8'
    } else if n == 9 {
        '9'
    } else if n == 10 {
        'A'
    } else if n == 11 {
        'B'
    } else if n == 12 {
        'C'
    } else if n == 13 {
        'D'
    } else if n == 14 {
        'E'
    } else {
        'F'
    }
}

/// One byte in `application/x-www-form-urlencoded` form: itself, `+` for a
/// space, or `%` and its two hexadecimal digits.
pub open spec fn form_encoded_byte(b: u8) -> Seq<char> {
    if is_form_plain(b) {
        seq![b as char]
    } else if b == 0x20 {
        seq!['+']
    } else {
        seq!['%', hex_upper(b as int / 16), hex_upper(b as int % 16)]
    }
}

/// Bytes in `application/x-www-form-urlencoded` form.
pub open spec fn form_encoded_bytes(bytes: Seq<u8>) -> Seq<char>
    decreases bytes.len(),
{
    if bytes.len() == 0 {
        Seq::<char>::empty()
    } else {
        form_encoded_bytes(bytes.drop_last()) + form_encoded_byte(bytes.last())
    }
}

/// A text in `application/x-www-form-urlencoded` form: that of its bytes in
/// UTF-8.
pub open spec fn form_encoded(s: Seq<char>) -> Seq<char> {
    form_encoded_bytes(encode_utf8(s))
}

/// A query with one more pair: the query so far, `&` if it was not empty,
/// the encoded name, `=`, and the encoded value.
pub open spec fn query_with_pair(
    query: Option<Seq<char>>,
    encoded_name: Seq<char>,
    encoded_value: Seq<char>,
) -> Seq<char> {
    let before = match query {
        Some(q) => q,
        None => Seq::<char>::empty(),
    };
    (if before.len() > 0 {
        before + seq!['&']
    } else {
        before
    }) + encoded_name + seq!['='] + encoded_value
}

/// Whether the parser can change the fragment of a URL with the given
/// serialization: the text is within its 32-bit positions.
pub open spec fn fragment_fits(text: Seq<char>) -> bool {
    byte_len(text) <= u32::MAX
}

/// Whether a new host keeps a text within the parser's 32-bit positions:
/// the text fills at most half of them and the host is at most a mebibyte.
pub open spec fn host_fits(text: Seq<char>, host: Option<Seq<char>>) -> bool {
    byte_len(text) <= 0x7fff_ffff && (match host {
        Some(s) => byte_len(s) <= 0x10_0000,
        None => true,
    })
}

/// What `Url::scheme` returns for the URL parsed from `source`.
pub uninterp spec fn scheme_of(source: Seq<char>) -> Seq<char>;

/// What `Url::has_authority` returns for the URL parsed from `source`:
/// whether `://` stands behind the scheme in the serialization.
pub open spec fn has_authority_of(source: Seq<char>) -> bool {
    begins_with(
        ok_text(parsed_text(source)).skip(scheme_of(source).len() as int),
        seq![':', '/', '/'],
    )
}

/// What `Url::username` returns for the URL parsed from `source`.
pub uninterp spec fn username_of(source: Seq<char>) -> Seq<char>;

/// What `Url::password` returns for the URL parsed from `source`.
pub uninterp spec fn password_of(source: Seq<char>) -> Option<Seq<char>>;

/// What `Url::host` returns for the URL parsed from `source`; a name that
/// is no address is reported as a domain.
pub uninterp spec fn host_of(source: Seq<char>) -> Option<HostView>;

/// What `Url::host_str` returns for the URL parsed from `source`.
pub uninterp spec fn host_str_of(source: Seq<char>) -> Option<Seq<char>>;

/// What `Url::port` returns for the URL parsed from `source`.
pub uninterp spec fn port_of(source: Seq<char>) -> Option<u16>;

/// What `Url::path` returns for the URL parsed from `source`.
pub uninterp spec fn path_of(source: Seq<char>) -> Seq<char>;

/// What `Url::query` returns for the URL parsed from `source`.
pub uninterp spec fn query_of(source: Seq<char>) -> Option<Seq<char>>;

/// What `Url::fragment` returns for the URL parsed from `source`.
pub uninterp spec fn fragment_of(source: Seq<char>) -> Option<Seq<char>>;

/// What `Url::cannot_be_a_base` returns for the URL parsed from `source`:
/// whether no slash stands behind the scheme and its colon in the
/// serialization.
pub open spec fn cannot_be_a_base_of(source: Seq<char>) -> bool {
    !begins_with(ok_text(parsed_text(source)).skip(scheme_of(source).len() as int + 1), seq!['/'])
}

/// Whether the URLs parsed from two texts have the same scheme, host and
/// port, as the parser reports them.
pub open spec fn same_origin_of(base: Seq<char>, target: Seq<char>) -> bool {
    scheme_of(base) == scheme_of(target) && host_of(base) == host_of(target) && port_of(base)
        == port_of(target)
}

/// Whether the parser can remove or replace the host of the URL parsed
/// from `source`. Where the host is to be removed, the path must not be
/// empty: before an empty path that a query or a fragment follows, the
/// parser stops the program.
pub open spec fn host_can_change(source: Seq<char>, host: Option<Seq<char>>) -> bool {
    host_fits(ok_text(parsed_text(source)), host) && (host is None ==> path_of(source).len() > 0)
}

/// Whether a host text opens a bracket that it does not close.
pub open spec fn unclosed_bracket(text: Seq<char>) -> bool {
    text.len() > 0 && text[0] == '[' && text.last() != ']'
}

/// The characters that no opaque host may hold.
pub open spec fn is_forbidden_host_char(c: char) -> bool {
    c == '\0' || c == '\t' || c == '\n' || c == '\r' || c == ' ' || c == '#' || c == '/' || c == ':'
        || c == '<' || c == '>' || c == '?' || c == '@' || c == '[' || c == '\\' || c == ']' || c
        == '^' || c == '|'
}

/// Whether a text holds a character that no opaque host may hold.
pub open spec fn has_forbidden_host_char(text: Seq<char>) -> bool {
    exists|i: int| 0 <= i < text.len() && is_forbidden_host_char(#[trigger] text[i])
}

/// What `Host::parse` makes of a host text: a domain or an address, or the
/// kind of its error.
pub uninterp spec fn parsed_host(text: Seq<char>) -> Result<HostView, ParseErrorKind>;

/// What `Host::parse_opaque` makes of a host text; a name comes back under
/// the variant `Domain`, as the parser reports it.
pub uninterp spec fn parsed_opaque_host(text: Seq<char>) -> Result<HostView, ParseErrorKind>;

/// Calls `Url::parse`. Whether it succeeds is a function of the input alone,
/// and so is its error. The handle holds the URL and the input.
#[verifier::external_body]
pub(crate) fn parse_outside(input: &str) -> (r: Result<Handle, url::ParseError>)
    ensures
        match r {
            Ok(h) => h@ == input@ && parsed_text(input@) is Ok,
            Err(e) => parsed_text(input@) == Err::<Seq<char>, ParseErrorKind>(kind_of(e)),
        },
{
    url::Url::parse(input).map(|inner| Handle { inner, source: input.to_owned() })
}

/// Calls `Url::join` on the URL that `base` holds and hands out the
/// serialization of the result, a function of the text that `base` was
/// parsed from and of the reference.
#[verifier::external_body]
pub(crate) fn join_outside(base: &Handle, input: &str) -> (r: Result<String, url::ParseError>)
    ensures
        match r {
            Ok(text) => joined_text(base@, input@) == Ok::<Seq<char>, ParseErrorKind>(text@),
            Err(e) => joined_text(base@, input@) == Err::<Seq<char>, ParseErrorKind>(kind_of(e)),
        },
{
    base.inner.join(input).map(|joined| joined.as_str().to_owned())
}

/// Calls `Url::make_relative`. The result is a function of the two texts
/// that the handles were parsed from. There is one exactly where the base
/// can be a base and the two URLs have the same scheme, host and port.
#[verifier::external_body]
pub(crate) fn make_relative_outside(base: &Handle, target: &Handle) -> (r: Option<String>)
    ensures
        text_option_view(r) == relative_text(base@, target@),
        r.is_some() == (!cannot_be_a_base_of(base@) && same_origin_of(base@, target@)),
{
    base.inner.make_relative(&target.inner)
}

/// Calls `Url::set_fragment` on a copy of the URL that `h` holds and hands
/// out the serialization of the copy. The parser indexes its text with
/// 32-bit positions and stops the program where the text before the
/// fragment is longer than that; the bound leaves that case out.
#[verifier::external_body]
pub(crate) fn set_fragment_outside(h: &Handle, fragment: Option<&str>) -> (r: String)
    requires
        parsed_text(h@) matches Ok(text) && fragment_fits(text),
    ensures
        r@ == refragmented_text(h@, slice_option_view(fragment)),
{
    let mut changed = h.inner.clone();
    changed.set_fragment(fragment);
    changed.as_str().to_owned()
}

/// Calls `Url::set_host` on a copy of the URL that `h` holds and hands out
/// the serialization of the copy. The parser stops the program in two
/// cases, which the bound leaves out. One is a text that outgrows its 32-bit
/// positions: it writes the host in its ASCII form, which is far less than
/// a thousand times as long as the host was given, so a text that fills
/// half of the positions and a host of a mebibyte stay within them. The
/// other is the removal of a host before an empty path that a query or a
/// fragment follows.
#[verifier::external_body]
pub(crate) fn set_host_outside(h: &Handle, host: Option<&str>) -> (r: Result<
    String,
    url::ParseError,
>)
    requires
        parsed_text(h@) is Ok,
        host_can_change(h@, slice_option_view(host)),
    ensures
        match r {
            Ok(text) => rehosted_text(h@, slice_option_view(host)) == Ok::<
                Seq<char>,
                ParseErrorKind,
            >(text@),
            Err(e) => rehosted_text(h@, slice_option_view(host)) == Err::<
                Seq<char>,
                ParseErrorKind,
            >(kind_of(e)),
        },
{
    let mut changed = h.inner.clone();
    changed.set_host(host).map(|_| changed.as_str().to_owned())
}

/// Calls `form_urlencoded::byte_serialize` on the bytes of a text and joins
/// what it yields. Each byte comes out as itself, as `+` for a space, or as
/// `%` and its two upper-case hexadecimal digits.
#[verifier::external_body]
pub(crate) fn form_encode_outside(input: &str) -> (r: String)
    ensures
        r@ == form_encoded(input@),
{
    url::form_urlencoded::byte_serialize(input.as_bytes()).collect()
}

/// Calls `Host::parse`, the host parser of special schemes, and hands the
/// host over variant by variant, a name as a domain. A text that opens a
/// bracket and does not end with the closing one is no IPv6 address.
#[verifier::external_body]
pub(crate) fn parse_host_outside(text: &str) -> (r: Result<Host, url::ParseError>)
    ensures
        match r {
            Ok(h) => parsed_host(text@) == Ok::<HostView, ParseErrorKind>(h@),
            Err(e) => parsed_host(text@) == Err::<HostView, ParseErrorKind>(kind_of(e)),
        },
        unclosed_bracket(text@) ==> r matches Err(url::ParseError::InvalidIpv6Address),
        !(r matches Ok(Host::Opaque(_))),
{
    url::Host::parse(text).map(|host| match host {
        url::Host::Domain(d) => Host::Domain(d),
        url::Host::Ipv4(a) => Host::Ipv4(a.octets()),
        url::Host::Ipv6(a) => Host::Ipv6(a.octets()),
    })
}

/// Calls `Host::parse_opaque`, the host parser of the other schemes, and
/// hands the host over variant by variant. A text that opens a bracket is
/// read as an IPv6 address, and must end with the closing bracket. Any other
/// text is refused if it holds a forbidden character, and is a name if not.
#[verifier::external_body]
pub(crate) fn parse_opaque_host_outside(text: &str) -> (r: Result<Host, url::ParseError>)
    ensures
        match r {
            Ok(h) => parsed_opaque_host(text@) == Ok::<HostView, ParseErrorKind>(h@),
            Err(e) => parsed_opaque_host(text@) == Err::<HostView, ParseErrorKind>(kind_of(e)),
        },
        unclosed_bracket(text@) ==> r matches Err(url::ParseError::InvalidIpv6Address),
        !(text@.len() > 0 && text@[0] == '[') ==> (if has_forbidden_host_char(text@) {
            r matches Err(url::ParseError::InvalidDomainCharacter)
        } else {
            r matches Ok(Host::Domain(_))
        }),
{
    url::Host::parse_opaque(text).map(|host| match host {
        url::Host::Domain(d) => Host::Domain(d),
        url::Host::Ipv4(a) => Host::Ipv4(a.octets()),
        url::Host::Ipv6(a) => Host::Ipv6(a.octets()),
    })
}

impl Handle {
    /// The text that was parsed.
    pub fn source(&self) -> (s: &str)
        ensures
            s@ == self@,
    {
        self.source.as_str()
    }

    /// Calls `Url::as_str`: the serialization of the URL, which is what
    /// parsing gives for the text that the URL was parsed from.
    #[verifier::external_body]
    pub(crate) fn text(&self) -> (r: String)
        ensures
            reads_as(self@, r@),
    {
        self.inner.as_str().to_owned()
    }

    /// Calls `Url::scheme`. The result is a function of the text that the URL
    /// was parsed from.
    #[verifier::external_body]
    pub(crate) fn scheme(&self) -> (r: String)
        ensures
            r@ == scheme_of(self@),
    {
        self.inner.scheme().to_owned()
    }

    /// Calls `Url::has_authority`, which says whether `://` stands behind
    /// the scheme in the serialization.
    #[verifier::external_body]
    pub(crate) fn has_authority(&self) -> (r: bool)
        ensures
            r == has_authority_of(self@),
    {
        self.inner.has_authority()
    }

    /// Calls `Url::username`. The result is a function of the text that the URL
    /// was parsed from.
    #[verifier::external_body]
    pub(crate) fn username(&self) -> (r: String)
        ensures
            r@ == username_of(self@),
    {
        self.inner.username().to_owned()
    }

    /// Calls `Url::password`. The result is a function of the text that the URL
    /// was parsed from.
    #[verifier::external_body]
    pub(crate) fn password(&self) -> (r: Option<String>)
        ensures
            text_option_view(r) == password_of(self@),
    {
        self.inner.password().map(|s| s.to_owned())
    }

    /// Calls `Url::host` and hands the host over variant by variant, a name
    /// as a domain. The result is a function of the text that the URL was
    /// parsed from.
    #[verifier::external_body]
    pub(crate) fn host(&self) -> (r: Option<Host>)
        ensures
            host_option_view(r) == host_of(self@),
            !(r matches Some(Host::Opaque(_))),
    {
        self.inner.host().map(|host| match host {
            url::Host::Domain(d) => Host::Domain(d.to_owned()),
            url::Host::Ipv4(a) => Host::Ipv4(a.octets()),
            url::Host::Ipv6(a) => Host::Ipv6(a.octets()),
        })
    }

    /// Calls `Url::host_str`. The result is a function of the text that the URL
    /// was parsed from.
    #[verifier::external_body]
    pub(crate) fn host_str(&self) -> (r: Option<String>)
        ensures
            text_option_view(r) == host_str_of(self@),
    {
        self.inner.host_str().map(|s| s.to_owned())
    }

    /// Calls `Url::port`. The result is a function of the text that the URL
    /// was parsed from.
    #[verifier::external_body]
    pub(crate) fn port(&self) -> (r: Option<u16>)
        ensures
            r == port_of(self@),
    {
        self.inner.port()
    }

    /// Calls `Url::path`. The result is a function of the text that the URL
    /// was parsed from.
    #[verifier::external_body]
    pub(crate) fn path(&self) -> (r: String)
        ensures
            r@ == path_of(self@),
    {
        self.inner.path().to_owned()
    }

    /// Calls `Url::query`. The result is a function of the text that the URL
    /// was parsed from.
    #[verifier::external_body]
    pub(crate) fn query(&self) -> (r: Option<String>)
        ensures
            text_option_view(r) == query_of(self@),
    {
        self.inner.query().map(|s| s.to_owned())
    }

    /// Calls `Url::fragment`. The result is a function of the text that the URL
    /// was parsed from.
    #[verifier::external_body]
    pub(crate) fn fragment(&self) -> (r: Option<String>)
        ensures
            text_option_view(r) == fragment_of(self@),
    {
        self.inner.fragment().map(|s| s.to_owned())
    }

    /// Calls `Url::cannot_be_a_base`, which says whether no slash stands
    /// behind the scheme and its colon in the serialization.
    #[verifier::external_body]
    pub(crate) fn cannot_be_a_base(&self) -> (r: bool)
        ensures
            r == cannot_be_a_base_of(self@),
    {
        self.inner.cannot_be_a_base()
    }
}

} // verus!
