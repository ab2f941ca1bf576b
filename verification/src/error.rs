//! The closed taxonomy of failures and how the parser's errors map onto it.

use vstd::prelude::*;

verus! {

/// `url::ParseError`, the error of every fallible call into the `url` crate:
/// an enum without fields. The verifier reads its variants from the crate, so
/// that the mapping below is checked arm by arm.
#[verifier::external_type_specification]
pub struct ExParseError(url::ParseError);

/// What went wrong while parsing, classifying or resolving.
#[derive(Clone, Copy, Debug, PartialEq, Eq, Structural)]
pub enum ParseErrorKind {
    EmptyHost,
    IdnaError,
    InvalidPort,
    InvalidIpv4Address,
    InvalidIpv6Address,
    InvalidDomainCharacter,
    RelativeUrlWithoutBase,
    RelativeUrlWithCannotBeABaseBase,
    SetHostOnCannotBeABaseUrl,
    /// Any other violation of the grammar or of the data model.
    UrlError,
}

/// The kind that stands for a parser error.
pub open spec fn kind_of(e: url::ParseError) -> ParseErrorKind {
    match e {
        url::ParseError::EmptyHost => ParseErrorKind::EmptyHost,
        url::ParseError::IdnaError => ParseErrorKind::IdnaError,
        url::ParseError::InvalidPort => ParseErrorKind::InvalidPort,
        url::ParseError::InvalidIpv4Address => ParseErrorKind::InvalidIpv4Address,
        url::ParseError::InvalidIpv6Address => ParseErrorKind::InvalidIpv6Address,
        url::ParseError::InvalidDomainCharacter => ParseErrorKind::InvalidDomainCharacter,
        url::ParseError::RelativeUrlWithoutBase => ParseErrorKind::RelativeUrlWithoutBase,
        url::ParseError::RelativeUrlWithCannotBeABaseBase => ParseErrorKind::RelativeUrlWithCannotBeABaseBase,
        url::ParseError::SetHostOnCannotBeABaseUrl => ParseErrorKind::SetHostOnCannotBeABaseUrl,
        _ => ParseErrorKind::UrlError,
    }
}

/// A failure together with the text that was being processed when it arose.
#[derive(Debug, PartialEq, Eq)]
pub struct UrlError {
    pub kind: ParseErrorKind,
    pub input: String,
}

/// The mathematical content of a [`UrlError`].
pub struct UrlErrorView {
    pub kind: ParseErrorKind,
    pub input: Seq<char>,
}

impl View for UrlError {
    type V = UrlErrorView;

    open spec fn view(&self) -> UrlErrorView {
        UrlErrorView { kind: self.kind, input: self.input@ }
    }
}

/// The one-line description of each kind.
pub open spec fn description_of(kind: ParseErrorKind) -> Seq<char> {
    match kind {
        ParseErrorKind::EmptyHost => "empty host"@,
        ParseErrorKind::IdnaError => "invalid international domain name"@,
        ParseErrorKind::InvalidPort => "invalid port number"@,
        ParseErrorKind::InvalidIpv4Address => "invalid IPv4 address"@,
        ParseErrorKind::InvalidIpv6Address => "invalid IPv6 address"@,
        ParseErrorKind::InvalidDomainCharacter => "invalid domain character"@,
        ParseErrorKind::RelativeUrlWithoutBase => "relative URL without a base"@,
        ParseErrorKind::RelativeUrlWithCannotBeABaseBase => "relative URL with a cannot-be-a-base base"@,
        ParseErrorKind::SetHostOnCannotBeABaseUrl => "a cannot-be-a-base URL doesn\u{2019}t have a host to set"@,
        ParseErrorKind::UrlError => "malformed URL"@,
    }
}

impl Clone for UrlError {
    fn clone(&self) -> (e: UrlError)
        ensures
            e@ == self@,
    {
        UrlError { kind: self.kind, input: self.input.clone() }
    }
}

impl UrlError {
    /// An error of the given kind about the given text.
    pub fn new(kind: ParseErrorKind, input: &str) -> (e: UrlError)
        ensures
            e@ == (UrlErrorView { kind, input: input@ }),
    {
        UrlError { kind, input: input.to_owned() }
    }

    /// The error that stands for a failure of the parser on `input`.
    pub fn from_parse_error(e: url::ParseError, input: &str) -> (r: UrlError)
        ensures
            r@ == (UrlErrorView { kind: kind_of(e), input: input@ }),
    {
        UrlError { kind: ParseErrorKind::from_parse_error(e), input: input.to_owned() }
    }

    pub fn kind(&self) -> (k: ParseErrorKind)
        ensures
            k == self@.kind,
    {
        self.kind
    }

    /// The text that was being processed.
    pub fn input(&self) -> (s: &str)
        ensures
            s@ == self@.input,
    {
        self.input.as_str()
    }

    /// A one-line description of the failure.
    pub fn message(&self) -> (s: &'static str)
        ensures
            s@ == description_of(self@.kind),
    {
        self.kind.description()
    }
}

impl ParseErrorKind {
    /// A one-line description of this kind of failure.
    pub fn description(&self) -> (s: &'static str)
        ensures
            s@ == description_of(*self),
    {
        match self {
            ParseErrorKind::EmptyHost => "empty host",
            ParseErrorKind::IdnaError => "invalid international domain name",
            ParseErrorKind::InvalidPort => "invalid port number",
            ParseErrorKind::InvalidIpv4Address => "invalid IPv4 address",
            ParseErrorKind::InvalidIpv6Address => "invalid IPv6 address",
            ParseErrorKind::InvalidDomainCharacter => "invalid domain character",
            ParseErrorKind::RelativeUrlWithoutBase => "relative URL without a base",
            ParseErrorKind::RelativeUrlWithCannotBeABaseBase => "relative URL with a cannot-be-a-base base",
            ParseErrorKind::SetHostOnCannotBeABaseUrl => "a cannot-be-a-base URL doesn\u{2019}t have a host to set",
            ParseErrorKind::UrlError => "malformed URL",
        }
    }

    /// Maps a parser error to its kind, one arm for each named variant and
    /// the catch-all for the rest.
    pub fn from_parse_error(e: url::ParseError) -> (k: ParseErrorKind)
        ensures
            k == kind_of(e),
    {
        match e {
            url::ParseError::EmptyHost => ParseErrorKind::EmptyHost,
            url::ParseError::IdnaError => ParseErrorKind::IdnaError,
            url::ParseError::InvalidPort => ParseErrorKind::InvalidPort,
            url::ParseError::InvalidIpv4Address => ParseErrorKind::InvalidIpv4Address,
            url::ParseError::InvalidIpv6Address => ParseErrorKind::InvalidIpv6Address,
            url::ParseError::InvalidDomainCharacter => ParseErrorKind::InvalidDomainCharacter,
            url::ParseError::RelativeUrlWithoutBase => ParseErrorKind::RelativeUrlWithoutBase,
            url::ParseError::RelativeUrlWithCannotBeABaseBase => ParseErrorKind::RelativeUrlWithCannotBeABaseBase,
            url::ParseError::SetHostOnCannotBeABaseUrl => ParseErrorKind::SetHostOnCannotBeABaseUrl,
            _ => ParseErrorKind::UrlError,
        }
    }
}

} // verus!
