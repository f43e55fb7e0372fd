//! Provider-side logic that does not touch the network: the records that
//! provider responses are decoded into, their mapping onto the canonical
//! model, pagination and request helpers.


pub mod anilist;
pub mod http;
pub mod imdb;
pub mod jikan;
pub mod kitsu;
pub mod tvmaze;

use vstd::prelude::*;
use vstd::string::StrSliceExecFns;
use crate::model::{CanonicalMedia, SyncCursor};
use crate::text::{clone_string, trim, trim_str, spec_parse_i64, parse_i64};
use crate::error::Error;
use vstd::string::StringExecFns;

verus! {

/// A page of results returned by a paginated provider fetch.
#[derive(Debug, Clone)]
pub struct FetchPage {
    pub items: Vec<CanonicalMedia>,
    pub next_cursor: Option<SyncCursor>,
}

/// The views of an optional string.
pub open spec fn opt_view(o: Option<String>) -> Option<Seq<char>> {
    match o {
        Some(s) => Some(s@),
        None => None,
    }
}

/// The first present value of three.
pub open spec fn first_some3<T>(a: Option<T>, b: Option<T>, c: Option<T>) -> Option<T> {
    if a is Some {
        a
    } else if b is Some {
        b
    } else {
        c
    }
}

/// The trimmed query of a provider search, or nothing to search for when
/// it is blank.
pub fn search_query(query: &str) -> (r: Option<String>)
    ensures
        trim(query@).len() == 0 ==> r is None,
        trim(query@).len() > 0 ==> (r matches Some(q) && q@ == trim(query@)),
{
    let q = trim_str(query);
    if q.as_str().unicode_len() == 0 {
        None
    } else {
        Some(q)
    }
}

/// The error for a provider id that is not an integer.
pub open spec fn invalid_id_message(label: Seq<char>, source_id: Seq<char>) -> Seq<char> {
    "invalid "@ + label + " id: "@ + source_id
}

/// Parses a provider's numeric record id; `label` names the provider in
/// the error for text that is not an `i64`.
pub fn parse_provider_id(source_id: &str, label: &str) -> (r: Result<i64, Error>)
    ensures
        spec_parse_i64(source_id@) matches Some(x) ==> r == Ok::<i64, Error>(x),
        spec_parse_i64(source_id@) is None ==> (r matches Err(Error::Validation(m)) && m@
            == invalid_id_message(label@, source_id@)),
{
    match parse_i64(source_id) {
        Some(x) => Ok(x),
        None => {
            let mut m = String::from_str("invalid ");
            m.append(label);
            m.append(" id: ");
            m.append(source_id);
            Err(Error::Validation(m))
        },
    }
}

/// The values that are present, in order.
pub open spec fn present_strings(v: Seq<Option<String>>) -> Seq<String>
    decreases v.len(),
{
    if v.len() == 0 {
        seq![]
    } else {
        let k = present_strings(v.drop_last());
        match v.last() {
            Some(s) => k.push(s),
            None => k,
        }
    }
}

/// Collects the values that are present, in order.
pub fn collect_present(v: &Vec<Option<String>>) -> (r: Vec<String>)
    ensures
        r@ == present_strings(v@),
{
    let mut out: Vec<String> = Vec::new();
    let mut i: usize = 0;
    while i < v.len()
        invariant
            i <= v@.len(),
            out@ == present_strings(v@.subrange(0, i as int)),
        decreases v.len() - i,
    {
        proof {
            assert(v@.subrange(0, i + 1).drop_last() =~= v@.subrange(0, i as int));
        }
        match &v[i] {
            Some(s) => out.push(clone_string(s)),
            None => {},
        }
        i = i + 1;
    }
    assert(v@.subrange(0, v@.len() as int) =~= v@);
    out
}

} // verus!
