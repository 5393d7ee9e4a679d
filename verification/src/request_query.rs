//! Listing requests: the page asked for, with optional ordering and filter.
use vstd::prelude::*;
pub use crate::pagination::{PageParams, PageTurnResponse};

verus! {

/// The default ordering of a listing; it carries no settings.
pub struct DefaulOrder {}

/// A listing request: the page, and optionally an ordering and a filter.
pub struct PageTurnReq<T, U> {
    pub page_turn: PageParams,
    pub orders: Option<U>,
    pub filter: Option<T>,
}

} // verus!
