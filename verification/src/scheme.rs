//! The fixed table of special schemes and their default ports.

use vstd::prelude::*;
use crate::text::str_eq;

verus! {

/// Whether `scheme` is one of `http`, `https`, `ws`, `wss`, `ftp`, `file`.
pub open spec fn spec_is_special(scheme: Seq<char>) -> bool {
    scheme == "http"@ || scheme == "https"@ || scheme == "ws"@ || scheme == "wss"@
        || scheme == "ftp"@ || scheme == "file"@
}

/// The port that a scheme implies when none is written; `file` and every
/// scheme that is not special have none.
pub open spec fn spec_default_port(scheme: Seq<char>) -> Option<u16> {
    if scheme == "http"@ || scheme == "ws"@ {
        Some(80u16)
    } else if scheme == "https"@ || scheme == "wss"@ {
        Some(443u16)
    } else if scheme == "ftp"@ {
        Some(21u16)
    } else {
        None
    }
}

/// Whether `scheme` is a special scheme.
pub fn is_special(scheme: &str) -> (r: bool)
    ensures
        r == spec_is_special(scheme@),
{
    str_eq(scheme, "http") || str_eq(scheme, "https") || str_eq(scheme, "ws") || str_eq(
        scheme,
        "wss",
    ) || str_eq(scheme, "ftp") || str_eq(scheme, "file")
}

/// The default port of `scheme`, if it has one.
pub fn default_port(scheme: &str) -> (r: Option<u16>)
    ensures
        r == spec_default_port(scheme@),
{
    if str_eq(scheme, "http") || str_eq(scheme, "ws") {
        Some(80)
    } else if str_eq(scheme, "https") || str_eq(scheme, "wss") {
        Some(443)
    } else if str_eq(scheme, "ftp") {
        Some(21)
    } else {
        None
    }
}

} // verus!
