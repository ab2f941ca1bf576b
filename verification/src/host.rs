//! The host of a URL: a sum of four kinds.

use vstd::prelude::*;
use vstd::std_specs::cmp::PartialEqSpecImpl;
use vstd::std_specs::hash::DefaultHasherAdditionalSpecFns;
use vstd::utf8::encode_utf8;
use std::collections::hash_map::DefaultHasher;
use std::hash::Hasher;
use crate::text::str_eq;

verus! {

/// A host. Domains belong to special schemes and are stored in their ASCII
/// form; hosts of other schemes are opaque strings; addresses are stored as
/// their bytes in network order.
#[derive(Debug)]
pub enum Host {
    Domain(String),
    Ipv4([u8; 4]),
    Ipv6([u8; 16]),
    Opaque(String),
}

/// The mathematical content of a [`Host`].
pub enum HostView {
    Domain(Seq<char>),
    Ipv4(Seq<u8>),
    Ipv6(Seq<u8>),
    Opaque(Seq<char>),
}

impl View for Host {
    type V = HostView;

    open spec fn view(&self) -> HostView {
        match self {
            Host::Domain(s) => HostView::Domain(s@),
            Host::Ipv4(a) => HostView::Ipv4(a@),
            Host::Ipv6(a) => HostView::Ipv6(a@),
            Host::Opaque(s) => HostView::Opaque(s@),
        }
    }
}

/// The hash of a host: that of a byte for its kind and of the bytes of its
/// name or address.
pub open spec fn host_hash_of(host: HostView) -> u64 {
    match host {
        HostView::Domain(name) => DefaultHasher::spec_finish(seq![seq![0u8], encode_utf8(name)]),
        HostView::Ipv4(octets) => DefaultHasher::spec_finish(seq![seq![1u8], octets]),
        HostView::Ipv6(octets) => DefaultHasher::spec_finish(seq![seq![2u8], octets]),
        HostView::Opaque(name) => DefaultHasher::spec_finish(seq![seq![3u8], encode_utf8(name)]),
    }
}

/// The view of an optional host.
pub open spec fn host_option_view(h: Option<Host>) -> Option<HostView> {
    match h {
        Some(h) => Some(h@),
        None => None,
    }
}

/// Whether two byte arrays of one length hold the same bytes.
fn bytes_eq<const N: usize>(a: &[u8; N], b: &[u8; N]) -> (r: bool)
    ensures
        r == (a@ == b@),
{
    let mut i: usize = 0;
    while i < N
        invariant
            i <= N,
            forall|j: int| 0 <= j < i ==> a@[j] == b@[j],
        decreases N - i,
    {
        if a[i] != b[i] {
            return false;
        }
        i += 1;
    }
    assert(a@ =~= b@);
    true
}

impl Host {
    /// The domain host with the given name.
    pub fn new(input: String) -> (h: Host)
        ensures
            h@ == HostView::Domain(input@),
    {
        Host::Domain(input)
    }

    /// The hash of this host: hosts that are equal have the same hash.
    pub fn hash_code(&self) -> (h: u64)
        ensures
            h == host_hash_of(self@),
    {
        let mut hasher = DefaultHasher::new();
        match self {
            Host::Domain(name) => {
                let tag: [u8; 1] = [0];
                let first = tag.as_slice();
                assert(first@ =~= seq![0u8]);
                hasher.write(first);
                hasher.write(name.as_str().as_bytes());
                assert(hasher@ =~= seq![seq![0u8], encode_utf8(name@)]);
            },
            Host::Ipv4(octets) => {
                let tag: [u8; 1] = [1];
                let first = tag.as_slice();
                assert(first@ =~= seq![1u8]);
                hasher.write(first);
                hasher.write(octets.as_slice());
                assert(hasher@ =~= seq![seq![1u8], octets@]);
            },
            Host::Ipv6(octets) => {
                let tag: [u8; 1] = [2];
                let first = tag.as_slice();
                assert(first@ =~= seq![2u8]);
                hasher.write(first);
                hasher.write(octets.as_slice());
                assert(hasher@ =~= seq![seq![2u8], octets@]);
            },
            Host::Opaque(name) => {
                let tag: [u8; 1] = [3];
                let first = tag.as_slice();
                assert(first@ =~= seq![3u8]);
                hasher.write(first);
                hasher.write(name.as_str().as_bytes());
                assert(hasher@ =~= seq![seq![3u8], encode_utf8(name@)]);
            },
        }
        hasher.finish()
    }

    /// The domain name, where this host is a domain.
    pub fn domain(&self) -> (r: Option<&str>)
        ensures
            match self@ {
                HostView::Domain(s) => r matches Some(d) && d@ == s,
                _ => r is None,
            },
    {
        match self {
            Host::Domain(s) => Some(s.as_str()),
            _ => None,
        }
    }
}

impl Clone for Host {
    fn clone(&self) -> (h: Host)
        ensures
            h@ == self@,
    {
        match self {
            Host::Domain(s) => Host::Domain(s.clone()),
            Host::Ipv4(a) => Host::Ipv4(*a),
            Host::Ipv6(a) => Host::Ipv6(*a),
            Host::Opaque(s) => Host::Opaque(s.clone()),
        }
    }
}

/// Two hosts are equal when they are of one kind and hold the same name or
/// the same address.
impl PartialEq for Host {
    fn eq(&self, other: &Host) -> (r: bool) {
        match (self, other) {
            (Host::Domain(a), Host::Domain(b)) => str_eq(a.as_str(), b.as_str()),
            (Host::Ipv4(a), Host::Ipv4(b)) => bytes_eq(a, b),
            (Host::Ipv6(a), Host::Ipv6(b)) => bytes_eq(a, b),
            (Host::Opaque(a), Host::Opaque(b)) => str_eq(a.as_str(), b.as_str()),
            _ => false,
        }
    }
}

impl PartialEqSpecImpl for Host {
    open spec fn obeys_eq_spec() -> bool {
        true
    }

    open spec fn eq_spec(&self, other: &Host) -> bool {
        self@ == other@
    }
}

impl Eq for Host {

}

/// A copy of an optional host.
pub fn clone_host_option(h: &Option<Host>) -> (r: Option<Host>)
    ensures
        host_option_view(r) == host_option_view(*h),
{
    match h {
        Some(h) => Some(h.clone()),
        None => None,
    }
}

/// Whether two optional hosts are both absent or equal.
pub fn host_option_eq(a: &Option<Host>, b: &Option<Host>) -> (r: bool)
    ensures
        r == (host_option_view(*a) == host_option_view(*b)),
{
    match (a, b) {
        (Some(x), Some(y)) => x == y,
        (None, None) => true,
        _ => false,
    }
}

} // verus!
