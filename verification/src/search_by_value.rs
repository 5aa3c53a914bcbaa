//! `cx search-by-value`: the refusals of a value search, and the gathering
//! of the matches that each profile sent.

use crate::answers::{all_failed, failed_count, gather, gathered_errors, gathered_items, item_view, Gathered};
use crate::text::{trim, views};
use vstd::prelude::*;

verus! {

/// Why a value search was refused.
#[derive(Debug, PartialEq, Eq, Structural)]
pub enum SearchError {
    /// The query is blank.
    EmptyQuery,
    /// Every profile asked failed.
    AllProfilesFailed,
}

impl SearchError {
    pub open spec fn spec_message(&self) -> Seq<char> {
        match self {
            SearchError::EmptyQuery => "query text cannot be empty"@,
            SearchError::AllProfilesFailed => "all profiles returned errors; see above for details"@,
        }
    }

    /// The message shown for the refusal.
    pub fn message(&self) -> (r: &'static str)
        ensures
            r@ == self.spec_message(),
    {
        match self {
            SearchError::EmptyQuery => "query text cannot be empty",
            SearchError::AllProfilesFailed => "all profiles returned errors; see above for details",
        }
    }
}

/// A query is searched for only when it is not blank.
pub fn check_query(query: &str) -> (r: Result<(), SearchError>)
    ensures
        r is Err <==> trim(query@).len() == 0,
        r matches Err(e) ==> e == SearchError::EmptyQuery,
{
    let t = crate::text::trim_str(query);
    if t.unicode_len() == 0 {
        Err(SearchError::EmptyQuery)
    } else {
        Ok(())
    }
}

/// The matches of every profile gathered in order, with a failure line for
/// each profile that failed, and the refusal owed when there were profiles
/// and all of them failed.
pub fn gather_matches<T>(per_profile: Vec<(String, Result<Vec<T>, String>)>) -> (r: (
    Gathered<T>,
    Option<SearchError>,
))
    ensures
        r.0.items@.map_values(|p: (String, T)| item_view(p)) == gathered_items(per_profile@),
        views(r.0.errors@) == gathered_errors(per_profile@),
        r.1 is Some <==> (per_profile@.len() > 0 && failed_count(per_profile@) == per_profile@.len()),
        r.1 matches Some(e) ==> e == SearchError::AllProfilesFailed,
{
    let failed = all_failed(&per_profile);
    let g = gather(per_profile);
    if failed {
        (g, Some(SearchError::AllProfilesFailed))
    } else {
        (g, None)
    }
}

} // verus!
