//! Parsing, resolution against a base, and the operations that derive one
//! record from another. Every record that comes out is the one that the
//! parser reports for its own serialization.

use vstd::prelude::*;
use crate::engine::{
    fragment_fits, host_fits, join_outside, joined_text, make_relative_outside, parse_outside,
    parsed_text, refragmented_text, rehosted_text, relative_text, set_fragment_outside,
    set_host_outside, Handle,
};
use crate::error::{kind_of, ParseErrorKind, UrlError, UrlErrorView};
use crate::host::host_option_eq;
use crate::path::{
    append_reference, has_no_dots, lemma_normal_form_has_no_dots, segments_of,
    spec_append_reference, spec_path_segments, texts_view,
};
use crate::reading::{parts_of, read_parts, reads_as_itself};
use crate::record::{outcome_view, well_formed, UrlParts, UrlRecord, UrlView};
use crate::text::{slice_option_view, str_eq, text_option_eq, text_option_view};

verus! {

/// An error of the given kind about the given text.
pub open spec fn failure(kind: ParseErrorKind, input: Seq<char>) -> Result<UrlView, UrlErrorView> {
    Err(UrlErrorView { kind, input })
}

/// Whether a text is the serialization of a record: the parser reads it as
/// itself, and the components that it reports obey the rules of the data
/// model.
pub open spec fn is_record_text(text: Seq<char>) -> bool {
    reads_as_itself(text) && well_formed(parts_of(text))
}

/// The record with the serialization `text`: the components that the
/// parser reports for it; or the catch-all error about `input` where the
/// text is not the serialization of a record.
pub open spec fn record_of(text: Seq<char>, input: Seq<char>) -> Result<UrlView, UrlErrorView> {
    if is_record_text(text) {
        Ok(parts_of(text))
    } else {
        failure(ParseErrorKind::UrlError, input)
    }
}

/// What parsing `source` gives, with errors about `input`: the record of
/// the serialization that the parser gives, or the parser's error.
pub open spec fn parsed_record(source: Seq<char>, input: Seq<char>) -> Result<
    UrlView,
    UrlErrorView,
> {
    match parsed_text(source) {
        Ok(text) => record_of(text, input),
        Err(kind) => failure(kind, input),
    }
}

/// What the parser's outcome on `input` becomes.
pub open spec fn spec_from_result(outcome: Result<Handle, url::ParseError>, input: Seq<char>)
    -> Result<UrlView, UrlErrorView> {
    match outcome {
        Ok(h) => parsed_record(h@, input),
        Err(e) => failure(kind_of(e), input),
    }
}

/// What parsing `input` gives.
pub open spec fn spec_parse(input: Seq<char>) -> Result<UrlView, UrlErrorView> {
    parsed_record(input, input)
}

/// What resolving `input` against the URL with serialization `base` gives:
/// the parser resolves the reference, and the text that it gives is parsed.
pub open spec fn spec_join(base: Seq<char>, input: Seq<char>) -> Result<UrlView, UrlErrorView> {
    match joined_text(base, input) {
        Ok(text) => parsed_record(text, input),
        Err(kind) => failure(kind, input),
    }
}

/// Whether two URLs have the same scheme, host and port.
pub open spec fn same_origin(a: UrlView, b: UrlView) -> bool {
    a.scheme == b.scheme && a.host == b.host && a.port == b.port
}

/// Whether two URLs have the same scheme, credentials, host and port.
pub open spec fn same_place(a: UrlView, b: UrlView) -> bool {
    same_origin(a, b) && a.username == b.username && a.password == b.password
}

/// An outcome with every record refused that does not stand at the same
/// place as `v`.
pub open spec fn at_the_place_of(
    outcome: Result<UrlView, UrlErrorView>,
    v: UrlView,
    input: Seq<char>,
) -> Result<UrlView, UrlErrorView> {
    match outcome {
        Ok(u) => if same_place(u, v) {
            Ok(u)
        } else {
            failure(ParseErrorKind::UrlError, input)
        },
        Err(e) => Err(e),
    }
}

/// What appending `other` to the path of `v` gives: the reference for it is
/// resolved, and the result is refused unless it stands at the same place.
pub open spec fn spec_div(v: UrlView, other: Seq<char>) -> Result<UrlView, UrlErrorView> {
    at_the_place_of(
        spec_join(v.serialization, spec_append_reference(v.path, other)),
        v,
        other,
    )
}

/// The relative reference from `base` to `target`: there is one exactly
/// where the base can be a base and the two agree in scheme, host and port.
pub open spec fn spec_make_relative(base: UrlView, target: UrlView) -> Option<Seq<char>> {
    if base.cannot_be_a_base || !same_origin(base, target) {
        None
    } else {
        relative_text(base.serialization, target.serialization)
    }
}

/// What a change of the fragment keeps: scheme, credentials, host, port and
/// query; and the path, but for the spaces at the end of an opaque path
/// when the fragment is removed. Afterwards there is a fragment exactly if
/// one was given.
pub open spec fn keeps_all_but_the_fragment(
    u: UrlView,
    v: UrlView,
    fragment: Option<Seq<char>>,
) -> bool {
    &&& same_place(u, v)
    &&& u.query == v.query
    &&& (u.fragment is Some <==> fragment is Some)
    &&& (u.path == v.path || (fragment is None && v.cannot_be_a_base))
}

/// What replacing the fragment of the URL `v` gives: the parser changes the
/// fragment, the text that it gives is parsed, and the result is refused
/// unless it keeps what such a change keeps.
pub open spec fn spec_with_fragment(v: UrlView, fragment: Option<Seq<char>>) -> Result<
    UrlView,
    UrlErrorView,
> {
    if !fragment_fits(v.serialization) {
        failure(ParseErrorKind::UrlError, v.serialization)
    } else {
        match parsed_record(refragmented_text(v.serialization, fragment), v.serialization) {
            Ok(u) => if keeps_all_but_the_fragment(u, v, fragment) {
                Ok(u)
            } else {
                failure(ParseErrorKind::UrlError, v.serialization)
            },
            Err(e) => Err(e),
        }
    }
}

/// The text of an optional host, empty where there is none.
pub open spec fn host_input(host: Option<Seq<char>>) -> Seq<char> {
    match host {
        Some(h) => h,
        None => Seq::<char>::empty(),
    }
}

/// What a change of the host keeps: scheme, path, query and fragment; and
/// credentials and port where a host is given. Afterwards there is a host
/// exactly if one was given.
pub open spec fn keeps_all_but_the_host(u: UrlView, v: UrlView, host: Option<Seq<char>>) -> bool {
    &&& u.scheme == v.scheme
    &&& u.path == v.path
    &&& u.query == v.query
    &&& u.fragment == v.fragment
    &&& (u.host is Some <==> host is Some)
    &&& (host is Some ==> u.username == v.username && u.password == v.password && u.port
        == v.port)
}

/// Whether the host of the URL `v` can be changed: the text stays within
/// the parser's positions, and a host is not removed before an empty path.
pub open spec fn host_may_change(v: UrlView, host: Option<Seq<char>>) -> bool {
    host_fits(v.serialization, host) && (host is None ==> v.path.len() > 0)
}

/// What replacing the host of the URL `v` gives: a cannot-be-a-base URL has
/// no host to set; for any other the parser changes the host, the text that
/// it gives is parsed, and the result is refused unless it keeps what such
/// a change keeps.
pub open spec fn spec_with_host(v: UrlView, host: Option<Seq<char>>) -> Result<
    UrlView,
    UrlErrorView,
> {
    if v.cannot_be_a_base {
        failure(ParseErrorKind::SetHostOnCannotBeABaseUrl, host_input(host))
    } else if !host_may_change(v, host) {
        failure(ParseErrorKind::UrlError, host_input(host))
    } else {
        match rehosted_text(v.serialization, host) {
            Ok(changed) => match parsed_record(changed, host_input(host)) {
                Ok(u) => if keeps_all_but_the_host(u, v, host) {
                    Ok(u)
                } else {
                    failure(ParseErrorKind::UrlError, host_input(host))
                },
                Err(e) => Err(e),
            },
            Err(kind) => failure(kind, host_input(host)),
        }
    }
}

/// Parsing the serialization of a parsed record gives the same record,
/// field for field.
pub proof fn lemma_round_trip(input: Seq<char>, record: UrlView)
    requires
        spec_parse(input) == Ok::<UrlView, UrlErrorView>(record),
    ensures
        spec_parse(record.serialization) == Ok::<UrlView, UrlErrorView>(record),
{
}

/// Resolving a reference gives a record that parsing its serialization
/// gives too.
pub proof fn lemma_joined_record_is_a_parsed_record(
    base: Seq<char>,
    input: Seq<char>,
    record: UrlView,
)
    requires
        spec_join(base, input) == Ok::<UrlView, UrlErrorView>(record),
    ensures
        spec_parse(record.serialization) == Ok::<UrlView, UrlErrorView>(record),
{
}

/// Makes the record of the URL that `h` holds, which the parser read as
/// itself; or the catch-all error about `input` where its components break
/// the rules of the data model.
fn from_reading(h: &Handle, input: &str) -> (r: Result<UrlRecord, UrlError>)
    requires
        reads_as_itself(h@),
    ensures
        outcome_view(r) == record_of(h@, input@),
{
    match UrlRecord::from_read_parts(read_parts(h)) {
        Some(u) => Ok(u),
        None => Err(UrlError::new(ParseErrorKind::UrlError, input)),
    }
}

/// Makes the record of the serialization that `h` holds: that of `h`
/// itself where the parser read its own serialization, else that of the
/// serialization parsed anew.
fn from_handle(h: &Handle, input: &str) -> (r: Result<UrlRecord, UrlError>)
    ensures
        outcome_view(r) == parsed_record(h@, input@),
{
    let text = h.text();
    if str_eq(text.as_str(), h.source()) {
        return from_reading(h, input);
    }
    match parse_outside(text.as_str()) {
        Ok(again) => {
            let second = again.text();
            if str_eq(second.as_str(), text.as_str()) {
                from_reading(&again, input)
            } else {
                Err(UrlError::new(ParseErrorKind::UrlError, input))
            }
        },
        Err(_) => Err(UrlError::new(ParseErrorKind::UrlError, input)),
    }
}

/// Turns the parser's outcome on `input` into a record or into an error of
/// this library. Each error of the parser becomes the kind of its name. A
/// success becomes the record of the serialization, where that text is the
/// serialization of a record, and the catch-all error where it is not.
pub fn from_result(outcome: Result<Handle, url::ParseError>, input: &str) -> (r: Result<
    UrlRecord,
    UrlError,
>)
    ensures
        outcome_view(r) == spec_from_result(outcome, input@),
        r is Ok <==> (outcome matches Ok(h) && parsed_text(h@) matches Ok(text) && is_record_text(
            text,
        )),
{
    match outcome {
        Ok(h) => from_handle(&h, input),
        Err(e) => Err(UrlError::from_parse_error(e, input)),
    }
}

/// Parses `source` and makes the record, with errors about `input`.
fn parse_about(source: &str, input: &str) -> (r: Result<UrlRecord, UrlError>)
    ensures
        outcome_view(r) == parsed_record(source@, input@),
{
    from_result(parse_outside(source), input)
}

/// Whether two sets of components stand at the same place.
fn is_same_place(a: &UrlParts, b: &UrlParts) -> (r: bool)
    ensures
        r == same_place(a@, b@),
{
    str_eq(a.scheme.as_str(), b.scheme.as_str()) && host_option_eq(&a.host, &b.host) && a.port
        == b.port && str_eq(a.username.as_str(), b.username.as_str()) && text_option_eq(
        &a.password,
        &b.password,
    )
}

impl UrlRecord {
    /// Parses an absolute URL. The record is the one that parsing its
    /// serialization gives again.
    pub fn parse(input: &str) -> (r: Result<UrlRecord, UrlError>)
        ensures
            outcome_view(r) == spec_parse(input@),
            r is Ok <==> (parsed_text(input@) matches Ok(text) && is_record_text(text)),
            r matches Ok(u) ==> spec_parse(u@.serialization) == Ok::<UrlView, UrlErrorView>(u@),
    {
        parse_about(input, input)
    }

    /// Resolves a reference against this URL.
    pub fn join(&self, input: &str) -> (r: Result<UrlRecord, UrlError>)
        ensures
            outcome_view(r) == spec_join(self@.serialization, input@),
            r matches Ok(u) ==> spec_parse(u@.serialization) == Ok::<UrlView, UrlErrorView>(u@),
    {
        let parts = self.parts();
        match parse_outside(self.as_str()) {
            Ok(base) => match join_outside(&base, input) {
                Ok(text) => parse_about(text.as_str(), input),
                Err(e) => Err(UrlError::from_parse_error(e, input)),
            },
            Err(e) => Err(UrlError::from_parse_error(e, input)),
        }
    }

    /// Appends `other` to the path as a new last segment. Unlike `join`,
    /// this never replaces the last segment, and never leaves the place of
    /// this URL: where the path does not end in a slash, `other` goes
    /// behind that segment and a slash, and a result with another scheme,
    /// other credentials, another host or another port is refused.
    pub fn div(&self, other: &str) -> (r: Result<UrlRecord, UrlError>)
        ensures
            outcome_view(r) == spec_div(self@, other@),
            r matches Ok(u) ==> same_place(u@, self@),
    {
        let reference = append_reference(self.path(), other);
        match self.join(reference.as_str()) {
            Ok(u) => if is_same_place(u.parts(), self.parts()) {
                Ok(u)
            } else {
                Err(UrlError::new(ParseErrorKind::UrlError, other))
            },
            Err(e) => Err(e),
        }
    }

    /// The relative reference that leads from this URL to `target`. There
    /// is one exactly where the two agree in scheme, host and port, and
    /// this URL is not a cannot-be-a-base URL.
    pub fn make_relative(&self, target: &UrlRecord) -> (r: Option<String>)
        ensures
            text_option_view(r) == spec_make_relative(self@, target@),
            r is Some <==> !self@.cannot_be_a_base && same_origin(self@, target@),
    {
        let base_parts = self.parts();
        let target_parts = target.parts();
        if base_parts.cannot_be_a_base {
            return None;
        }
        if !str_eq(base_parts.scheme.as_str(), target_parts.scheme.as_str()) {
            return None;
        }
        if !host_option_eq(&base_parts.host, &target_parts.host) {
            return None;
        }
        if base_parts.port != target_parts.port {
            return None;
        }
        match parse_outside(self.as_str()) {
            Ok(b) => match parse_outside(target.as_str()) {
                Ok(t) => make_relative_outside(&b, &t),
                Err(_) => None,
            },
            Err(_) => None,
        }
    }

    /// A copy of this URL with the fragment replaced, or removed where
    /// `fragment` is `None`. Nothing else changes, but that the spaces at
    /// the end of an opaque path go with a fragment that is removed.
    pub fn with_fragment(&self, fragment: Option<&str>) -> (r: Result<UrlRecord, UrlError>)
        ensures
            outcome_view(r) == spec_with_fragment(self@, slice_option_view(fragment)),
            r matches Ok(u) ==> keeps_all_but_the_fragment(u@, self@, slice_option_view(fragment)),
    {
        let parts = self.parts();
        if self.as_str().as_bytes().len() as u128 > 0xffff_ffffu128 {
            return Err(UrlError::new(ParseErrorKind::UrlError, self.as_str()));
        }
        match parse_outside(self.as_str()) {
            Ok(h) => {
                let changed = set_fragment_outside(&h, fragment);
                match parse_about(changed.as_str(), self.as_str()) {
                    Ok(u) => {
                        let after = u.parts();
                        let kept = is_same_place(after, parts) && text_option_eq(
                            &after.query,
                            &parts.query,
                        ) && after.fragment.is_some() == fragment.is_some() && (str_eq(
                            after.path.as_str(),
                            parts.path.as_str(),
                        ) || (fragment.is_none() && parts.cannot_be_a_base));
                        if kept {
                            Ok(u)
                        } else {
                            Err(UrlError::new(ParseErrorKind::UrlError, self.as_str()))
                        }
                    },
                    Err(e) => Err(e),
                }
            },
            Err(e) => Err(UrlError::from_parse_error(e, self.as_str())),
        }
    }

    /// A copy of this URL with the host replaced, or removed where `host`
    /// is `None`. A cannot-be-a-base URL has no host to set, and a host
    /// before an empty path cannot be removed. Scheme, path, query and
    /// fragment stay as they are.
    pub fn with_host(&self, host: Option<&str>) -> (r: Result<UrlRecord, UrlError>)
        ensures
            outcome_view(r) == spec_with_host(self@, slice_option_view(host)),
            self@.cannot_be_a_base ==> (r matches Err(e) && e@.kind
                == ParseErrorKind::SetHostOnCannotBeABaseUrl),
            r matches Ok(u) ==> keeps_all_but_the_host(u@, self@, slice_option_view(host)),
    {
        let parts = self.parts();
        let host_text = match host {
            Some(s) => s,
            None => "",
        };
        proof {
            reveal_strlit("");
            assert(host_text@ =~= host_input(slice_option_view(host)));
        }
        if parts.cannot_be_a_base {
            return Err(UrlError::new(ParseErrorKind::SetHostOnCannotBeABaseUrl, host_text));
        }
        let fits = self.as_str().as_bytes().len() <= 0x7fff_ffff && (host.is_none()
            || host_text.as_bytes().len() <= 0x10_0000);
        if !fits || (host.is_none() && parts.path.as_str().is_empty()) {
            return Err(UrlError::new(ParseErrorKind::UrlError, host_text));
        }
        match parse_outside(self.as_str()) {
            Ok(h) => match set_host_outside(&h, host) {
                Ok(changed) => match parse_about(changed.as_str(), host_text) {
                    Ok(u) => {
                        let after = u.parts();
                        let kept = str_eq(after.scheme.as_str(), parts.scheme.as_str()) && str_eq(
                            after.path.as_str(),
                            parts.path.as_str(),
                        ) && text_option_eq(&after.query, &parts.query) && text_option_eq(
                            &after.fragment,
                            &parts.fragment,
                        ) && after.host.is_some() == host.is_some() && (host.is_none() || (str_eq(
                            after.username.as_str(),
                            parts.username.as_str(),
                        ) && text_option_eq(&after.password, &parts.password) && after.port
                            == parts.port));
                        if kept {
                            Ok(u)
                        } else {
                            Err(UrlError::new(ParseErrorKind::UrlError, host_text))
                        }
                    },
                    Err(e) => Err(e),
                },
                Err(e) => Err(UrlError::from_parse_error(e, host_text)),
            },
            Err(e) => Err(UrlError::from_parse_error(e, host_text)),
        }
    }

    /// The segments of the path, unless the URL is a cannot-be-a-base URL
    /// or has no path.
    pub fn path_segments(&self) -> (r: Option<Vec<String>>)
        ensures
            match r {
                Some(v) => spec_path_segments(self@.path) == Some(texts_view(v@)) && v.len() >= 1
                    && has_no_dots(texts_view(v@)),
                None => spec_path_segments(self@.path) is None,
            },
            self@.cannot_be_a_base ==> r is None,
    {
        let parts = self.parts();
        if parts.cannot_be_a_base {
            return None;
        }
        let r = segments_of(parts.path.as_str());
        proof {
            if let Some(segments) = spec_path_segments(self@.path) {
                lemma_normal_form_has_no_dots(segments);
            }
        }
        r
    }
}

} // verus!
