//! Appending name/value pairs to a query.

use vstd::prelude::*;
use crate::engine::{form_encode_outside, form_encoded, query_with_pair};
use crate::error::{UrlError, UrlErrorView};
use crate::record::{checked, outcome_view, serialize, serialized, UrlRecord, UrlView};
use crate::resolve::spec_parse;
use crate::text::begins_with;

verus! {

/// The views of a sequence of pairs.
pub open spec fn pairs_view(pairs: Seq<(String, String)>) -> Seq<(Seq<char>, Seq<char>)> {
    Seq::new(pairs.len(), |i: int| (pairs[i].0@, pairs[i].1@))
}

/// The query after the pairs were appended one by one, in their order:
/// each pair stands behind all that came before it.
pub open spec fn appended_query(query: Option<Seq<char>>, pairs: Seq<(Seq<char>, Seq<char>)>)
    -> Option<Seq<char>>
    decreases pairs.len(),
{
    if pairs.len() == 0 {
        query
    } else {
        Some(
            query_with_pair(
                appended_query(query, pairs.drop_last()),
                form_encoded(pairs.last().0),
                form_encoded(pairs.last().1),
            ),
        )
    }
}

/// What a query holds so far: nothing where there is none.
pub open spec fn query_so_far(query: Option<Seq<char>>) -> Seq<char> {
    match query {
        Some(q) => q,
        None => Seq::<char>::empty(),
    }
}

/// The components `v` with another query, and with the serialization that
/// the components then have.
pub open spec fn with_query(v: UrlView, query: Option<Seq<char>>) -> UrlView {
    let changed = UrlView { query, ..v };
    UrlView { serialization: serialized(changed), ..changed }
}

/// What appending the pairs to the query of a record gives: the same
/// record with the longer query.
pub open spec fn spec_append_pairs(v: UrlView, pairs: Seq<(Seq<char>, Seq<char>)>) -> UrlView {
    with_query(v, appended_query(v.query, pairs))
}

/// What parsing `input` and appending the pairs to its query gives.
pub open spec fn spec_parse_with_params(input: Seq<char>, pairs: Seq<(Seq<char>, Seq<char>)>)
    -> Result<UrlView, UrlErrorView> {
    match spec_parse(input) {
        Ok(v) => checked(spec_append_pairs(v, pairs)),
        Err(e) => Err(e),
    }
}

/// Appending pairs in two steps gives what appending all of them at once
/// gives: the order of the pairs is kept.
pub proof fn lemma_append_in_two_steps(
    query: Option<Seq<char>>,
    first: Seq<(Seq<char>, Seq<char>)>,
    second: Seq<(Seq<char>, Seq<char>)>,
)
    ensures
        appended_query(appended_query(query, first), second) == appended_query(
            query,
            first + second,
        ),
    decreases second.len(),
{
    if second.len() == 0 {
        assert(first + second =~= first);
    } else {
        lemma_append_in_two_steps(query, first, second.drop_last());
        assert((first + second).drop_last() =~= first + second.drop_last());
        assert((first + second).last() == second.last());
    }
}

/// Appending pairs keeps what the query held: the new query begins with the
/// old one.
pub proof fn lemma_append_keeps_the_query(
    query: Option<Seq<char>>,
    pairs: Seq<(Seq<char>, Seq<char>)>,
)
    ensures
        begins_with(query_so_far(appended_query(query, pairs)), query_so_far(query)),
    decreases pairs.len(),
{
    let old = query_so_far(query);
    if pairs.len() == 0 {
        assert(old.subrange(0, old.len() as int) =~= old);
    } else {
        lemma_append_keeps_the_query(query, pairs.drop_last());
        let before = query_so_far(appended_query(query, pairs.drop_last()));
        let after = query_so_far(appended_query(query, pairs));
        assert(begins_with(after, before)) by {
            assert(after.subrange(0, before.len() as int) =~= before);
        }
        assert(after.subrange(0, old.len() as int) =~= before.subrange(0, old.len() as int));
    }
}

/// Writes one more pair behind a query.
fn push_pair(query: &mut String, name: &str, value: &str)
    ensures
        final(query)@ == query_with_pair(
            Some(old(query)@),
            form_encoded(name@),
            form_encoded(value@),
        ),
{
    if !query.as_str().is_empty() {
        query.push('&');
    }
    let encoded_name = form_encode_outside(name);
    query.append(encoded_name.as_str());
    query.push('=');
    let encoded_value = form_encode_outside(value);
    query.append(encoded_value.as_str());
    assert(query@ =~= query_with_pair(
        Some(old(query)@),
        form_encoded(name@),
        form_encoded(value@),
    ));
}

impl UrlRecord {
    /// Appends the pairs to the query of this URL, in their order and
    /// behind what the query holds already. Names and values are written in
    /// `application/x-www-form-urlencoded` form; nothing else changes. The
    /// result is refused where the parser does not report the same
    /// components for it.
    pub fn append_pairs(&self, pairs: &Vec<(String, String)>) -> (r: Result<UrlRecord, UrlError>)
        ensures
            outcome_view(r) == checked(spec_append_pairs(self@, pairs_view(pairs@))),
            r matches Ok(u) ==> u@.query == appended_query(self@.query, pairs_view(pairs@)),
            pairs.len() == 0 ==> r is Ok,
    {
        let old_parts = self.parts();
        if pairs.len() == 0 {
            return Ok(self.clone());
        }
        let mut query = match self.query() {
            Some(q) => q.to_owned(),
            None => String::new(),
        };
        let ghost all = pairs_view(pairs@);
        let mut i: usize = 0;
        assert(all.take(0) =~= Seq::<(Seq<char>, Seq<char>)>::empty());
        while i < pairs.len()
            invariant
                i <= pairs.len(),
                all == pairs_view(pairs@),
                i == 0 ==> query@ == query_so_far(self@.query),
                i > 0 ==> appended_query(self@.query, all.take(i as int)) == Some(query@),
            decreases pairs.len() - i,
        {
            let name = pairs[i].0.as_str();
            let value = pairs[i].1.as_str();
            let ghost before = query@;
            proof {
                assert(all.take(i + 1).drop_last() =~= all.take(i as int));
                assert(all.take(i + 1).last() == (name@, value@));
                assert(appended_query(self@.query, all.take(i + 1)) == Some(
                    query_with_pair(
                        appended_query(self@.query, all.take(i as int)),
                        form_encoded(name@),
                        form_encoded(value@),
                    ),
                ));
                assert(query_with_pair(
                    appended_query(self@.query, all.take(i as int)),
                    form_encoded(name@),
                    form_encoded(value@),
                ) == query_with_pair(Some(before), form_encoded(name@), form_encoded(value@)));
            }
            push_pair(&mut query, name, value);
            i += 1;
        }
        assert(all.take(pairs.len() as int) =~= all);
        let mut parts = old_parts.clone();
        parts.query = Some(query);
        let text = serialize(&parts);
        parts.serialization = text;
        UrlRecord::from_parts(parts)
    }

    /// Parses an absolute URL and appends the pairs to its query, in their
    /// order and behind what the query holds already.
    pub fn parse_with_params(input: &str, pairs: &Vec<(String, String)>) -> (r: Result<
        UrlRecord,
        UrlError,
    >)
        ensures
            outcome_view(r) == spec_parse_with_params(input@, pairs_view(pairs@)),
    {
        match UrlRecord::parse(input) {
            Ok(u) => u.append_pairs(pairs),
            Err(e) => Err(e),
        }
    }
}

} // verus!
