//! Shaping of what the index engine returns: the free-text result cap and
//! the explicit-failure rule for point lookups.

use vstd::prelude::*;
use crate::resolve::ResolveError;

verus! {

/// One free-text search hit, in the engine's ranking order. The relevance
/// score stays with the caller: this crate orders and caps, it does not
/// rank.
#[derive(Debug)]
pub struct Hit {
    pub id: u64,
    pub author: Vec<u8>,
    pub title: Vec<u8>,
}

/// A free-text search returns at most this many results.
pub const SEARCH_LIMIT: usize = 10;

/// Caps ranked hits at `SEARCH_LIMIT`, keeping the ranking order: the result
/// is exactly the first ten hits (or all of them, when there are fewer).
/// Every returned hit is one of the given hits, so ids of capped results
/// never leave the indexed set they were drawn from.
pub fn cap_hits(hits: Vec<Hit>) -> (r: Vec<Hit>)
    ensures
        r@.len() <= SEARCH_LIMIT as int,
        hits@.len() <= SEARCH_LIMIT as int ==> r@ == hits@,
        hits@.len() > SEARCH_LIMIT as int ==> r@ == hits@.subrange(0, SEARCH_LIMIT as int),
        forall|i: int| 0 <= i < r@.len() ==> r@[i] == hits@[i],
{
    let mut hits = hits;
    if hits.len() > SEARCH_LIMIT {
        hits.truncate(SEARCH_LIMIT);
    }
    hits
}

/// Turns a point-lookup outcome into the pair the caller asked for. The
/// lookup must fail explicitly: an identifier without a document gives the
/// distinct identifier-not-found error, never empty fields.
pub fn info_from_lookup(id: u64, found: Option<(Vec<u8>, Vec<u8>)>) -> (r: Result<
    (Vec<u8>, Vec<u8>),
    ResolveError,
>)
    ensures
        match r {
            Ok(p) => found matches Some(q) && p == q,
            Err(e) => found is None && e == (ResolveError::IdNotFound { id }),
        },
{
    match found {
        Some(p) => Ok(p),
        None => Err(ResolveError::IdNotFound { id }),
    }
}

} // verus!
