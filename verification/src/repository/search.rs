//! The plan of a local full-text search: the query, the page and the
//! filters that the storage layer applies.

use vstd::prelude::*;
use crate::error::Error;
use crate::model::{MediaKind, SearchOptions};
use crate::text::{str_to_ascii_upper, upper_seq};
use super::common::{build_fts_query, fts_terms, join_with, lookup_chars, words};

verus! {

/// A local search as the storage layer runs it.
#[derive(Debug, Clone)]
pub struct SearchPlan {
    pub fts_query: String,
    pub limit: i64,
    pub offset: i64,
    pub media_kind: Option<MediaKind>,
    pub format_upper: Option<String>,
}

/// Plans a local search: the full-text query of the text, a limit of at
/// least one, the offset, the kind filter and the format filter in upper
/// case. A query without words is refused.
pub fn search_plan(query: &str, options: &SearchOptions) -> (r: Result<SearchPlan, Error>)
    ensures
        words(lookup_chars(query@)).len() == 0 ==> (r matches Err(Error::Validation(m))
            && m@ == "search query cannot be empty"@),
        words(lookup_chars(query@)).len() > 0 ==> (r matches Ok(p) && p.fts_query@ == join_with(
            fts_terms(words(lookup_chars(query@))),
            ' ',
        ) && p.limit == (if options.limit < 1 {
            1usize
        } else {
            options.limit
        }) as i64 && p.offset == options.offset as i64 && p.media_kind == options.media_kind
            && (match options.format {
            Some(f) => p.format_upper matches Some(u) && u@ == upper_seq(f@),
            None => p.format_upper is None,
        })),
{
    let fts_query = match build_fts_query(query) {
        Ok(q) => q,
        Err(e) => {
            return Err(e);
        },
    };
    let l: usize = if options.limit < 1 {
        1
    } else {
        options.limit
    };
    let format_upper = match &options.format {
        Some(f) => Some(str_to_ascii_upper(f.as_str())),
        None => None,
    };
    Ok(
        SearchPlan {
            fts_query,
            limit: l as i64,
            offset: options.offset as i64,
            media_kind: options.media_kind,
            format_upper,
        },
    )
}

} // verus!
