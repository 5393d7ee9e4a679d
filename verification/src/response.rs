//! Responses: a body with its status and, for listings, the page it covers.
use vstd::prelude::*;
use crate::pagination::Pagination;
use crate::text::{signed_decimal, signed_decimal_string};

verus! {

/// The status of a response that nobody set otherwise.
pub const STATUS_OK: u16 = 200;

/// A response ready to be sent.
#[derive(Debug)]
pub struct CustomResponse<T> {
    pub body: Option<T>,
    pub status_code: u16,
    pub pagination: Option<Pagination>,
}

/// A response under construction.
pub struct CustomResponseBuilder<T> {
    pub body: Option<T>,
    pub status_code: u16,
    pub pagination: Option<Pagination>,
}

impl<T> Default for CustomResponseBuilder<T> {
    fn default() -> (r: Self)
        ensures
            r.body is None,
            r.status_code == STATUS_OK,
            r.pagination is None,
    {
        CustomResponseBuilder { body: None, status_code: STATUS_OK, pagination: None }
    }
}

impl<T> CustomResponseBuilder<T> {
    /// An empty response with status 200.
    pub fn new() -> (r: Self)
        ensures
            r.body is None,
            r.status_code == STATUS_OK,
            r.pagination is None,
    {
        Self::default()
    }

    /// Sets the body.
    pub fn body(self, body: T) -> (r: Self)
        ensures
            r.body == Some(body),
            r.status_code == self.status_code,
            r.pagination == self.pagination,
    {
        CustomResponseBuilder { body: Some(body), status_code: self.status_code, pagination: self.pagination }
    }

    /// Sets the status.
    pub fn status_code(self, status_code: u16) -> (r: Self)
        ensures
            r.body == self.body,
            r.status_code == status_code,
            r.pagination == self.pagination,
    {
        CustomResponseBuilder { body: self.body, status_code, pagination: self.pagination }
    }

    /// Sets the page the response covers.
    pub fn pagination(self, pagination: Pagination) -> (r: Self)
        ensures
            r.body == self.body,
            r.status_code == self.status_code,
            r.pagination == Some(pagination),
    {
        CustomResponseBuilder { body: self.body, status_code: self.status_code, pagination: Some(pagination) }
    }

    /// Finishes the response.
    pub fn build(self) -> (r: CustomResponse<T>)
        ensures
            r.body == self.body,
            r.status_code == self.status_code,
            r.pagination == self.pagination,
    {
        CustomResponse { body: self.body, status_code: self.status_code, pagination: self.pagination }
    }
}

/// The status of a request that failed on the server's side.
pub const STATUS_INTERNAL_SERVER_ERROR: u16 = 500;

/// The answer to a request that changes data: the service's message with
/// status 200 when it succeeded, the text of its error with status 500 when
/// it failed; neither covers a page.
pub fn outcome_response(outcome: Result<String, String>) -> (r: CustomResponse<String>)
    ensures
        r.pagination is None,
        outcome matches Ok(m) ==> r.body == Some(m) && r.status_code == STATUS_OK,
        outcome matches Err(e) ==> r.body == Some(e) && r.status_code
            == STATUS_INTERNAL_SERVER_ERROR,
{
    match outcome {
        Ok(m) => CustomResponseBuilder::new().body(m).build(),
        Err(e) => CustomResponseBuilder::new().body(e).status_code(STATUS_INTERNAL_SERVER_ERROR).build(),
    }
}

/// The JSON text of a response body, kept for the operation log.
#[derive(Debug)]
pub struct ResJsonString(pub String);

/// A page template to be rendered as the response.
pub struct HtmlTemplate<T>(pub T);

/// The headers that tell a client which page of a listing it got: the row
/// count, the offset and the limit, each in decimal.
pub fn pagination_headers(p: &Pagination) -> (r: Vec<(String, String)>)
    ensures
        r@.len() == 3,
        r@[0].0@ == "x-pagination-count"@ && r@[0].1@ == signed_decimal(p.count as int),
        r@[1].0@ == "x-pagination-offset"@ && r@[1].1@ == signed_decimal(p.offset as int),
        r@[2].0@ == "x-pagination-limit"@ && r@[2].1@ == signed_decimal(p.limit as int),
{
    let mut headers: Vec<(String, String)> = Vec::new();
    headers.push(("x-pagination-count".to_owned(), signed_decimal_string(p.count)));
    headers.push(("x-pagination-offset".to_owned(), signed_decimal_string(p.offset)));
    headers.push(("x-pagination-limit".to_owned(), signed_decimal_string(p.limit)));
    headers
}

} // verus!
