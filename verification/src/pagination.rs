//! Paging of listings: the page a client asks for, the clamped page the
//! service queries, and the page of rows it answers with.
use vstd::prelude::*;

verus! {

/// The largest page size a listing serves.
pub const LIMIT: i64 = 100;

/// The offset of a listing when the client gives none.
pub const OFFSET: i64 = 0;

/// The page a client asks for.
#[derive(Debug, Clone, Copy, PartialEq, Eq)]
pub struct PageParams {
    pub offset: Option<i64>,
    pub limit: Option<i64>,
}

/// The page a listing is queried with.
#[derive(Debug, Clone, Copy, PartialEq, Eq)]
pub struct Pagination {
    pub count: i64,
    pub offset: i64,
    pub limit: i64,
}

/// A page under construction; `count` must be set before it is built.
#[derive(Debug, Clone, Copy, PartialEq, Eq)]
pub struct PaginationBuilder {
    pub count: Option<i64>,
    pub offset: i64,
    pub limit: i64,
}

/// A page of rows together with the number of rows in the whole listing.
#[derive(Debug)]
pub struct PageTurnResponse<T> {
    pub total_count: i64,
    pub data: Vec<T>,
}

/// The page size served for a request: the requested size capped at `LIMIT`,
/// or `LIMIT` when none is requested.
pub open spec fn served_limit(requested: Option<i64>) -> i64 {
    match requested {
        Some(l) => if l < LIMIT { l } else { LIMIT },
        None => LIMIT,
    }
}

/// The offset served for a request: the requested one, or `OFFSET`.
pub open spec fn served_offset(requested: Option<i64>) -> i64 {
    match requested {
        Some(o) => o,
        None => OFFSET,
    }
}

/// The builder `b` with its row count set to `count`.
pub open spec fn with_count(b: PaginationBuilder, count: i64) -> PaginationBuilder {
    PaginationBuilder { count: Some(count), ..b }
}

/// The page that a builder with a set count finishes into.
pub open spec fn built(b: PaginationBuilder) -> Pagination {
    Pagination { count: b.count->0, offset: b.offset, limit: b.limit }
}

impl Pagination {
    /// Starts a page from the client's request, capping the page size.
    pub fn build_from_request_query(query: PageParams) -> (r: PaginationBuilder)
        ensures
            r.count is None,
            r.limit == served_limit(query.limit),
            r.offset == served_offset(query.offset),
    {
        let limit = match query.limit {
            Some(limit) => if limit < LIMIT { limit } else { LIMIT },
            None => LIMIT,
        };
        let offset = match query.offset {
            Some(o) => o,
            None => OFFSET,
        };
        PaginationBuilder { count: None, offset, limit }
    }
}

impl Default for PaginationBuilder {
    fn default() -> (r: Self)
        ensures
            r == (PaginationBuilder { count: None, offset: OFFSET, limit: LIMIT }),
    {
        PaginationBuilder { count: None, offset: OFFSET, limit: LIMIT }
    }
}

impl PaginationBuilder {
    /// Sets the row count of the page.
    pub fn count(self, count: i64) -> (r: Self)
        ensures
            r == with_count(self, count),
    {
        let mut b = self;
        b.count = Some(count);
        b
    }

    /// Finishes the page; the count must have been set.
    pub fn build(self) -> (r: Pagination)
        requires
            self.count is Some,
        ensures
            r == built(self),
    {
        let count = match self.count {
            Some(c) => c,
            None => 0,
        };
        Pagination { count, offset: self.offset, limit: self.limit }
    }
}

impl<T> PageTurnResponse<T> {
    /// A page of `data` out of `total_count` rows.
    pub fn new(total_count: i64, data: Vec<T>) -> (r: Self)
        ensures
            r.total_count == total_count,
            r.data@ == data@,
    {
        PageTurnResponse { total_count, data }
    }
}

/// A listing never serves more than `LIMIT` rows per page, whatever the client asks.
pub proof fn lemma_page_size_capped(query: PageParams)
    ensures
        served_limit(query.limit) <= LIMIT,
        query.limit is None ==> served_limit(query.limit) == LIMIT,
        query.limit matches Some(l) ==> (l <= LIMIT ==> served_limit(query.limit) == l),
{
}

/// A page started from a request, given a count and built, queries with the
/// served limit and offset of that request and the given count.
pub proof fn lemma_request_count_build(query: PageParams, count: i64)
    ensures
        ({
            let started = PaginationBuilder {
                count: None,
                offset: served_offset(query.offset),
                limit: served_limit(query.limit),
            };
            let counted = with_count(started, count);
            &&& counted.count is Some
            &&& built(counted) == (Pagination {
                count,
                offset: served_offset(query.offset),
                limit: served_limit(query.limit),
            })
        }),
{
}

} // verus!
