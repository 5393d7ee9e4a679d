use playoh::pagination::{PageParams, PageTurnResponse, Pagination, PaginationBuilder, LIMIT};
use playoh::response::{pagination_headers, CustomResponseBuilder, ResJsonString, HtmlTemplate};
use playoh::request_query::{DefaulOrder, PageTurnReq};

#[test]
fn limit_is_capped_and_defaults_apply() {
    let b = Pagination::build_from_request_query(PageParams { offset: None, limit: None });
    assert_eq!(b.limit, LIMIT);
    assert_eq!(b.offset, 0);
    assert_eq!(b.count, None);
    let b = Pagination::build_from_request_query(PageParams { offset: Some(30), limit: Some(500) });
    assert_eq!(b.limit, 100);
    assert_eq!(b.offset, 30);
    let b = Pagination::build_from_request_query(PageParams { offset: Some(-5), limit: Some(20) });
    assert_eq!(b.limit, 20);
    assert_eq!(b.offset, -5);
}

#[test]
fn count_then_build() {
    let p = Pagination::build_from_request_query(PageParams { offset: Some(10), limit: Some(5) })
        .count(1)
        .build();
    assert_eq!(p, Pagination { count: 1, offset: 10, limit: 5 });
    let d = PaginationBuilder::default();
    assert_eq!(d, PaginationBuilder { count: None, offset: 0, limit: 100 });
    assert_eq!(d.count(7).build(), Pagination { count: 7, offset: 0, limit: 100 });
}

#[test]
fn page_turn_response_holds_rows() {
    let r = PageTurnResponse::new(42, vec![1, 2, 3]);
    assert_eq!(r.total_count, 42);
    assert_eq!(r.data, vec![1, 2, 3]);
    let req: PageTurnReq<String, DefaulOrder> = PageTurnReq {
        page_turn: PageParams { offset: Some(1), limit: Some(2) },
        orders: Some(DefaulOrder {}),
        filter: None,
    };
    assert_eq!(req.page_turn.limit, Some(2));
}

#[test]
fn response_builder() {
    let r = CustomResponseBuilder::new().body("x".to_string()).build();
    assert_eq!(r.body.as_deref(), Some("x"));
    assert_eq!(r.status_code, 200);
    assert!(r.pagination.is_none());
    let p = Pagination { count: 3, offset: 6, limit: 9 };
    let r = CustomResponseBuilder::<String>::new().status_code(500).pagination(p).build();
    assert_eq!(r.status_code, 500);
    assert!(r.body.is_none());
    assert_eq!(r.pagination, Some(p));
    let _ = ResJsonString("{}".to_string());
    let _ = HtmlTemplate(1u8);
}

#[test]
fn pagination_header_values() {
    let h = pagination_headers(&Pagination { count: 12, offset: -3, limit: 100 });
    assert_eq!(
        h,
        vec![
            ("x-pagination-count".to_string(), "12".to_string()),
            ("x-pagination-offset".to_string(), "-3".to_string()),
            ("x-pagination-limit".to_string(), "100".to_string()),
        ]
    );
}
