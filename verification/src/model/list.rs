//! A paginated slice of a larger listing.

use vstd::prelude::*;

verus! {

/// `items` holds one page of a listing of `total` entries, starting at
/// `offset` and at most `limit` long.
pub struct PaginatedList<T> {
    pub total: i64,
    pub limit: i64,
    pub offset: i64,
    pub items: Vec<T>,
}

} // verus!
