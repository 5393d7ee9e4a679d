use playoh::function::{AddReq as HistoryAddReq, Function};
use playoh::menu::SearchReq;
use playoh::menu_page::page_statements;
use playoh::pg_args::BoundStatement;
use sqlx::Arguments;
use playoh::oper_log::{api_name_of, oper_log_record, ApiEntry, OnlineOperator, OperLogRequest};
use playoh::password::{hash_password, password_verdict, verify_password};
use playoh::error::ServiceError;
use playoh::response::outcome_response;
use playoh::run_messages::RunMessages;
use playoh::runtime::MsgArgs;

const ROWS: &str = "select cast(id as varchar) ,  cast(pid as varchar), path, auth_type,menu_name, icon, menu_type, query, order_sort, status, api, method, component, visible, is_cache, log_method, data_cache_method, is_frame, data_scope, i18n, remark from public.sys_menu where deleted_at is null ";
const COUNT: &str = "select count(1) as count from public.sys_menu where deleted_at is null ";

fn empty_search() -> SearchReq {
    SearchReq {
        id: None,
        menu_name: None,
        menu_type: None,
        method: None,
        status: None,
        begin_time: None,
        end_time: None,
    }
}

/// How many values a statement binds: the argument list writes the number of
/// the last one as its placeholder.
fn bound_count(st: &BoundStatement) -> String {
    let mut s = String::new();
    st.args.format_placeholder(&mut s).unwrap();
    s
}

#[test]
fn page_without_search_has_no_filter() {
    let r = page_statements(&None);
    assert_eq!(bound_count(&r.rows), "$0");
    assert_eq!(r.rows.sql, ROWS);
    assert_eq!(r.count.sql, COUNT);
}

#[test]
fn page_with_empty_search_has_no_filter() {
    let r = page_statements(&Some(empty_search()));
    assert_eq!(r.rows.sql, ROWS);
    assert_eq!(r.count.sql, COUNT);
}

#[test]
fn page_filters_are_numbered_in_order() {
    let mut s = empty_search();
    s.menu_name = Some("user".to_string());
    s.method = Some("GET".to_string());
    s.end_time = Some("2023-01-01".to_string());
    let r = page_statements(&Some(s));
    let tail = " and menu_name like concat('%', $1, '%') and method = '$2' and end_time >= '$3'";
    assert_eq!(bound_count(&r.rows), "$3");
    assert_eq!(bound_count(&r.count), "$3");
    assert_eq!(r.rows.sql, format!("{}{}", ROWS, tail));
    assert_eq!(r.count.sql, format!("{}{}", COUNT, tail));
}

#[test]
fn page_status_and_type_filter_component_and_api() {
    let mut s = empty_search();
    s.status = Some("1".to_string());
    s.menu_type = Some("M".to_string());
    s.begin_time = Some("2022".to_string());
    let r = page_statements(&Some(s));
    let tail = " and component = '$1' and api = '$2' and begin_time <= '$3'";
    assert_eq!(r.count.sql, format!("{}{}", COUNT, tail));
}

fn apis() -> Vec<ApiEntry> {
    vec![
        ApiEntry { path: "/system/menu/add".to_string(), name: "添加菜单".to_string(), log_method: "2".to_string() },
        ApiEntry { path: "/system/menu/edit".to_string(), name: "修改菜单".to_string(), log_method: "1".to_string() },
    ]
}

#[test]
fn api_name_found_and_missing() {
    assert_eq!(api_name_of(&apis(), "/system/menu/edit"), "修改菜单");
    assert_eq!(api_name_of(&apis(), "/system/menu/add"), "添加菜单");
    assert_eq!(api_name_of(&apis(), "/nowhere"), "");
    assert_eq!(api_name_of(&Vec::new(), "/system/menu/add"), "");
}

#[test]
fn oper_log_record_of_online_user() {
    let req = OperLogRequest { path: "/system/menu/edit".to_string(), method: "PUT".to_string() };
    let user = OnlineOperator { user_id: 7, user_name: "admin".to_string(), net: "10.0.0.1".to_string() };
    let rec = oper_log_record(
        &req,
        Some(user),
        "修改菜单".to_string(),
        "{\"ok\":1}".to_string(),
        "1".to_string(),
        String::new(),
        1_500,
    )
    .unwrap();
    assert_eq!(rec.user_id, 7);
    assert_eq!(rec.title, "修改菜单");
    assert_eq!(rec.business_type, "0");
    assert_eq!(rec.method, "PUT");
    assert_eq!(rec.request_method, "PUT");
    assert_eq!(rec.operator_type, "3");
    assert_eq!(rec.oper_name, "admin");
    assert_eq!(rec.dept_name, "default");
    assert_eq!(rec.oper_url, "/system/menu/edit");
    assert_eq!(rec.oper_ip, "10.0.0.1");
    assert_eq!(rec.oper_location, "");
    assert_eq!(rec.oper_param, "");
    assert_eq!(rec.json_result, "{\"ok\":1}");
    assert_eq!(rec.path_param, "");
    assert_eq!(rec.status, "1");
    assert_eq!(rec.error_msg, "");
    assert_eq!(rec.duration, 1_500);
}

#[test]
fn oper_log_record_without_session_is_skipped() {
    let req = OperLogRequest { path: "/a".to_string(), method: "GET".to_string() };
    let rec = oper_log_record(&req, None, String::new(), String::new(), "1".to_string(), String::new(), 3);
    assert!(rec.is_none());
}

#[test]
fn oper_log_duration_keeps_low_bits() {
    let req = OperLogRequest { path: "/a".to_string(), method: "PATCH".to_string() };
    let user = OnlineOperator { user_id: 1, user_name: "u".to_string(), net: "n".to_string() };
    let micros: u128 = (1u128 << 64) + 5;
    let rec = oper_log_record(&req, Some(user), String::new(), String::new(), "1".to_string(), String::new(), micros).unwrap();
    assert_eq!(rec.duration, 5);
    assert_eq!(rec.operator_type, "0");
}

fn msg(id: &str, key: &str, m: &str) -> MsgArgs {
    MsgArgs { id: id.to_string(), key: key.to_string(), msg: m.to_string() }
}

#[test]
fn run_gives_back_posted_messages() {
    let mut store = RunMessages::new();
    store.open_run("run-1".to_string());
    store.open_run("run-2".to_string());
    store.add_msg(msg("run-1", "total", "3"));
    store.add_msg(msg("run-2", "other", "x"));
    store.add_msg(msg("run-1", "total", "4"));
    let entries = store.take_result("run-1");
    let expected: Vec<(String, String)> = vec![
        ("code".to_string(), "200".to_string()),
        ("total".to_string(), "3".to_string()),
        ("total".to_string(), "4".to_string()),
    ];
    assert_eq!(entries, expected);
    let rest = store.take_result("run-2");
    assert_eq!(rest, vec![("code".to_string(), "200".to_string()), ("other".to_string(), "x".to_string())]);
}

#[test]
fn reopening_a_run_starts_over() {
    let mut store = RunMessages::new();
    store.open_run("r".to_string());
    store.add_msg(msg("r", "k", "v"));
    store.open_run("r".to_string());
    assert_eq!(store.take_result("r"), vec![("code".to_string(), "200".to_string())]);
}

#[test]
fn password_roundtrip() {
    let hash = hash_password("hunter2".to_string()).unwrap();
    assert!(hash.starts_with("$argon2"));
    assert!(verify_password("hunter2".to_string(), hash.clone()).is_ok());
    match verify_password("wrong".to_string(), hash) {
        Err(ServiceError::Rejected(m)) => assert_eq!(m, "invalid password"),
        other => panic!("unexpected {:?}", other),
    }
}

#[test]
fn password_with_unreadable_hash() {
    match verify_password("pw".to_string(), String::new()) {
        Err(ServiceError::Rejected(m)) => {
            assert_eq!(m, "invalid password hash: password hash string missing field")
        }
        other => panic!("unexpected {:?}", other),
    }
}

#[test]
fn password_verdicts() {
    assert!(password_verdict(Ok(true)).is_ok());
    match password_verdict(Err("bad".to_string())) {
        Err(ServiceError::Rejected(m)) => assert_eq!(m, "invalid password hash: bad"),
        other => panic!("unexpected {:?}", other),
    }
}

#[test]
fn outcome_responses() {
    let ok = outcome_response(Ok("添加成功".to_string()));
    assert_eq!(ok.body, Some("添加成功".to_string()));
    assert_eq!(ok.status_code, 200);
    assert!(ok.pagination.is_none());
    let err = outcome_response(Err("路由已存在".to_string()));
    assert_eq!(err.body, Some("路由已存在".to_string()));
    assert_eq!(err.status_code, 500);
}

#[test]
fn history_entry_of_function() {
    let f = Function {
        function_id: 11,
        function_name: "hello".to_string(),
        status: "dev".to_string(),
        code: "add_msg('a','b')".to_string(),
        created_by: 22,
        call_number: 3,
        created_at: 1_000,
        path: "f".to_string(),
        version: 2,
        updated_by: None,
        updated_at: None,
    };
    let h = HistoryAddReq::from(f);
    assert_eq!(h.function_id, 11);
    assert_eq!(h.function_name, "hello");
    assert_eq!(h.status, "dev");
    assert_eq!(h.code, "add_msg('a','b')");
    assert_eq!(h.created_by, 22);
    assert_eq!(h.tag, None);
    assert_eq!(h.path, "f");
    assert_eq!(h.version, 2);
}
