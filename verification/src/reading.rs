//! Reading the components of a URL off the parser.

use vstd::prelude::*;
use crate::engine::{
    cannot_be_a_base_of, fragment_of, has_authority_of, host_of, host_str_of, ok_text, parsed_text,
    password_of, path_of, port_of, query_of, reads_as, scheme_of, username_of, Handle,
};
use crate::host::{Host, HostView};
use crate::record::{UrlParts, UrlView};
use crate::scheme::{is_special, spec_is_special};

verus! {

/// The host as a record holds it: the parser reports every name as a
/// domain, and a name under a scheme that is not special is opaque.
pub open spec fn host_for_scheme(host: Option<HostView>, scheme: Seq<char>) -> Option<HostView> {
    match host {
        Some(HostView::Domain(name)) => if spec_is_special(scheme) {
            Some(HostView::Domain(name))
        } else {
            Some(HostView::Opaque(name))
        },
        other => other,
    }
}

/// The serialization that the parser gives for a text, empty where it
/// gives none.
pub open spec fn serialization_of(source: Seq<char>) -> Seq<char> {
    ok_text(parsed_text(source))
}

/// The components that the parser reports for the URL that it makes of a
/// text.
pub open spec fn parts_of(source: Seq<char>) -> UrlView {
    UrlView {
        serialization: serialization_of(source),
        scheme: scheme_of(source),
        has_authority: has_authority_of(source),
        username: username_of(source),
        password: password_of(source),
        host: host_for_scheme(host_of(source), scheme_of(source)),
        host_str: host_str_of(source),
        port: port_of(source),
        path: path_of(source),
        query: query_of(source),
        fragment: fragment_of(source),
        cannot_be_a_base: cannot_be_a_base_of(source),
    }
}

/// Whether the parser reads a text as a URL with that same text as its
/// serialization.
pub open spec fn reads_as_itself(text: Seq<char>) -> bool {
    reads_as(text, text)
}

/// Whether the host that the parser reports for a text is of one of its own
/// three kinds: a name as a domain, or an address.
pub open spec fn reported_host_is_plain(source: Seq<char>) -> bool {
    !(host_of(source) matches Some(HostView::Opaque(_)))
}

/// Reads the components of the URL that `h` holds.
pub(crate) fn read_parts(h: &Handle) -> (parts: UrlParts)
    ensures
        parts@ == parts_of(h@),
        reads_as(h@, parts@.serialization),
        reported_host_is_plain(h@),
{
    let scheme = h.scheme();
    let host = match h.host() {
        Some(Host::Domain(name)) => if is_special(scheme.as_str()) {
            Some(Host::Domain(name))
        } else {
            Some(Host::Opaque(name))
        },
        other => other,
    };
    UrlParts {
        serialization: h.text(),
        scheme,
        has_authority: h.has_authority(),
        username: h.username(),
        password: h.password(),
        host,
        host_str: h.host_str(),
        port: h.port(),
        path: h.path(),
        query: h.query(),
        fragment: h.fragment(),
        cannot_be_a_base: h.cannot_be_a_base(),
    }
}

} // verus!
