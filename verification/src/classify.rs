//! The host classifier: which of the four kinds a host text is.

use vstd::prelude::*;
use crate::engine::{
    has_forbidden_host_char, parse_host_outside, parse_opaque_host_outside, parsed_host,
    parsed_opaque_host, unclosed_bracket,
};
use crate::error::{ParseErrorKind, UrlError, UrlErrorView};
use crate::host::{Host, HostView};

verus! {

/// The view of the outcome of a classification.
pub open spec fn host_outcome_view(r: Result<Host, UrlError>) -> Result<HostView, UrlErrorView> {
    match r {
        Ok(h) => Ok(h@),
        Err(e) => Err(e@),
    }
}

/// What classifying `text` gives. Under a special scheme the host parser
/// decides between an IPv6 address, an IPv4 address and a domain. Under any
/// other scheme the opaque-host parser decides between an IPv6 address and a
/// name, and the name is an opaque host: there a host is checked against
/// the forbidden characters only and is never read as an IPv4 address, so
/// that `1.2.3.4` is a name like any other.
pub open spec fn spec_classify(text: Seq<char>, scheme_is_special: bool) -> Result<
    HostView,
    UrlErrorView,
> {
    if scheme_is_special {
        match parsed_host(text) {
            Ok(h) => Ok(h),
            Err(kind) => Err(UrlErrorView { kind, input: text }),
        }
    } else {
        match parsed_opaque_host(text) {
            Ok(HostView::Domain(name)) => Ok(HostView::Opaque(name)),
            Ok(h) => Ok(h),
            Err(kind) => Err(UrlErrorView { kind, input: text }),
        }
    }
}

/// An error of the given kind about `text`.
pub open spec fn refused(r: Result<Host, UrlError>, kind: ParseErrorKind, text: Seq<char>) -> bool {
    r matches Err(e) && e@ == (UrlErrorView { kind, input: text })
}

/// Classifies a host text as an IPv6 address, an IPv4 address, a domain or
/// an opaque host, or says why it is none of them.
pub fn classify(text: &str, scheme_is_special: bool) -> (r: Result<Host, UrlError>)
    ensures
        host_outcome_view(r) == spec_classify(text@, scheme_is_special),
        unclosed_bracket(text@) ==> refused(r, ParseErrorKind::InvalidIpv6Address, text@),
        !scheme_is_special && !(text@.len() > 0 && text@[0] == '[') ==> (if has_forbidden_host_char(
            text@,
        ) {
            refused(r, ParseErrorKind::InvalidDomainCharacter, text@)
        } else {
            r matches Ok(Host::Opaque(_))
        }),
        scheme_is_special ==> !(r matches Ok(Host::Opaque(_))),
        !scheme_is_special ==> !(r matches Ok(Host::Domain(_))),
{
    if scheme_is_special {
        match parse_host_outside(text) {
            Ok(h) => Ok(h),
            Err(e) => Err(UrlError::from_parse_error(e, text)),
        }
    } else {
        match parse_opaque_host_outside(text) {
            Ok(Host::Domain(name)) => Ok(Host::Opaque(name)),
            Ok(h) => Ok(h),
            Err(e) => Err(UrlError::from_parse_error(e, text)),
        }
    }
}

} // verus!
