//! What a caller sends: bids, and queries for pages of transactions.

use vstd::prelude::*;

verus! {

/// Page that a query asks for when it names none.
pub const DEFAULT_PAGE: u32 = 1;

/// Page size that a query asks for when it names none.
pub const DEFAULT_PAGE_SIZE: u32 = 20;

/// Greatest page size that a query can ask for.
pub const MAX_PAGE_SIZE: u32 = 100;

/// A bid for the next slot.
#[derive(Debug, PartialEq, Eq)]
pub struct JitBidRequest {
    pub session_id: Option<String>,
    pub bid_amount: u64,
    pub compute_units: u64,
    pub data: String,
}

/// A bid for a slot ahead.
#[derive(Debug, PartialEq, Eq)]
pub struct AotBidRequest {
    pub session_id: Option<String>,
    pub slot_number: u64,
    pub bid_amount: u64,
    pub compute_units: u64,
    pub data: String,
}

/// A query for a page of the transactions of a session, or of all.
#[derive(Debug, PartialEq, Eq)]
pub struct TransactionQuery {
    pub session_id: Option<String>,
    pub page: Option<u32>,
    pub limit: Option<u32>,
    pub show_all: Option<bool>,
}

/// A query for a page of transactions.
#[derive(Clone, Copy, Debug, PartialEq, Eq)]
pub struct TransactionBatchQuery {
    pub page: Option<u32>,
    pub limit: Option<u32>,
}

/// The page that a query means: its number, its size, and the place of its
/// first entry.
#[derive(Clone, Copy, Debug, PartialEq, Eq, Structural)]
pub struct PageRequest {
    pub page: u32,
    pub limit: u32,
    pub offset: u64,
}

/// The description of a page among `total_count` entries.
#[derive(Clone, Copy, Debug, PartialEq, Eq, Structural)]
pub struct Pagination {
    pub current_page: u32,
    pub total_pages: u64,
    pub page_size: u32,
    pub total_count: u64,
    pub has_next: bool,
    pub has_prev: bool,
}

/// The page number that a query means: the one it names, or the first; at
/// least 1.
pub open spec fn page_of(page: Option<u32>) -> u32 {
    match page {
        Some(page) => if page < 1 {
            1
        } else {
            page
        },
        None => DEFAULT_PAGE,
    }
}

/// The page size that a query means: the one it names, or the default;
/// at least 1 and at most [`MAX_PAGE_SIZE`].
pub open spec fn limit_of(limit: Option<u32>) -> u32 {
    match limit {
        Some(limit) => if limit > MAX_PAGE_SIZE {
            MAX_PAGE_SIZE
        } else if limit < 1 {
            1
        } else {
            limit
        },
        None => DEFAULT_PAGE_SIZE,
    }
}

/// The page that a query with `page` and `limit` means.
pub fn page_request(page: Option<u32>, limit: Option<u32>) -> (request: PageRequest)
    ensures
        request.page == page_of(page),
        request.limit == limit_of(limit),
        request.offset == (request.page - 1) * request.limit,
        1 <= request.page,
        1 <= request.limit <= MAX_PAGE_SIZE,
{
    let page = match page {
        Some(page) => if page < 1 {
            1
        } else {
            page
        },
        None => DEFAULT_PAGE,
    };
    let limit = match limit {
        Some(limit) => if limit > MAX_PAGE_SIZE {
            MAX_PAGE_SIZE
        } else if limit < 1 {
            1
        } else {
            limit
        },
        None => DEFAULT_PAGE_SIZE,
    };
    assert((page - 1) * limit <= 0xffff_ffff * 100) by (nonlinear_arith)
        requires
            1 <= page <= 0xffff_ffff,
            1 <= limit <= 100,
    ;
    let offset: u64 = ((page - 1) as u64) * (limit as u64);
    PageRequest { page, limit, offset }
}

/// The description of the page `request` among `total_count` entries: the
/// number of pages is the count divided by the page size, rounded up.
pub fn paginate(request: PageRequest, total_count: u64) -> (pagination: Pagination)
    requires
        request.limit >= 1,
    ensures
        pagination.current_page == request.page,
        pagination.page_size == request.limit,
        pagination.total_count == total_count,
        pagination.total_pages == (total_count + request.limit - 1) / (request.limit as int),
        pagination.has_next == (request.page < pagination.total_pages),
        pagination.has_prev == (request.page > 1),
{
    let limit = request.limit as u128;
    let count = total_count as u128;
    assert((count + limit - 1) / (limit as int) <= count) by (nonlinear_arith)
        requires
            limit >= 1,
            count >= 0,
    ;
    let total_pages = ((count + limit - 1) / limit) as u64;
    Pagination {
        current_page: request.page,
        total_pages,
        page_size: request.limit,
        total_count,
        has_next: (request.page as u64) < total_pages,
        has_prev: request.page > 1,
    }
}

impl TransactionQuery {
    /// The page that the query means.
    pub fn page_request(&self) -> (request: PageRequest)
        ensures
            request.page == page_of(self.page),
            request.limit == limit_of(self.limit),
            request.offset == (request.page - 1) * request.limit,
    {
        page_request(self.page, self.limit)
    }

    /// Whether the query asks for the transactions of all sessions.
    pub fn wants_all(&self) -> (all: bool)
        ensures
            all == (self.show_all == Some(true)),
    {
        match self.show_all {
            Some(all) => all,
            None => false,
        }
    }
}

impl TransactionBatchQuery {
    /// The page that the query means.
    pub fn page_request(&self) -> (request: PageRequest)
        ensures
            request.page == page_of(self.page),
            request.limit == limit_of(self.limit),
            request.offset == (request.page - 1) * request.limit,
    {
        page_request(self.page, self.limit)
    }
}

} // verus!
