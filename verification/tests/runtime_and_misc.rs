use playoh::menu::SearchReq;
use playoh::menu_service::{
    create_next, create_start, delete_next, delete_start, get_by_id, get_enabled_menus,
    get_routers, log_cache_updated, update_log_cache_method, update_next, update_start, AddReq,
    MenuCreateStep, MenuDeleteStep, MenuUpdateStep, RouterSource, UpdateReq,
};
use playoh::error::ServiceError;
use playoh::oper_log::operator_type;
use playoh::rand_utils::{chars_from_draws, rand_s};
use playoh::runtime::{
    script_source, AddReq as LogAddReq, ExecutionResult, RuntimeFuctionService, ServiceContext,
    Source, Status,
};
use playoh::transaction::{RollbackOnly, TransactionManager};

const ID: &str = "67e55044-10b1-426f-9247-bb680e5fe0c8";
const PID: &str = "00000000-0000-0000-0000-000000000001";

#[test]
fn stage_and_outcome_names() {
    assert_eq!(Source::Dev.to_string(), "dev");
    assert_eq!(Source::Staging.to_string(), "staging");
    assert_eq!(Source::Prod.to_string(), "prod");
    assert_eq!(Status::Running.to_string(), "running");
    assert_eq!(Status::Success.to_string(), "success");
    assert_eq!(Status::Failed.to_string(), "failed");
    assert_eq!(Status::Timeout.to_string(), "timeout");
}

#[test]
fn script_has_prelude_then_code() {
    let s = script_source("ID1", "{}", "add_msg('a','b');");
    assert_eq!(
        s,
        "const inner_id=\"ID1\";\n        const args = JSON.parse('{}');\n     function add_msg(key,msg){\n        result(inner_id,key,msg);\n    }\n    add_msg('a','b');"
    );
}

#[test]
fn run_log_entry_measures_duration() {
    let start: i128 = 1_700_000_000_000_000_000;
    let e = LogAddReq::new(
        "f".to_string(),
        start,
        Source::Dev,
        Status::Success,
        Some(7),
        &9,
        true,
        "{}".to_string(),
        "ok".to_string(),
        Some("log".to_string()),
        None,
    );
    assert_eq!(e.status, "success");
    assert_eq!(e.source, "dev");
    assert_eq!(e.source_id, 9);
    assert_eq!(e.execution_user_id, Some(7));
    assert_eq!(e.result.as_deref(), Some("ok"));
    assert_eq!(e.arguments.as_deref(), Some("{}"));
    assert!(e.end_time > start);
    assert_eq!(e.duration_ms as i128, (e.end_time - start) / 1_000_000);
    let r = ExecutionResult::new("1".to_string(), None, Some("err".to_string()));
    assert_eq!(r.console_error.as_deref(), Some("err"));
}

#[test]
fn run_log_entry_for_a_future_start_is_negative() {
    let now_ns = time::OffsetDateTime::now_utc().unix_timestamp_nanos();
    let start = now_ns + 3_600_000_000_000;
    let e = LogAddReq::new(
        "f".to_string(), start, Source::Prod, Status::Failed, None, &1, false,
        String::new(), String::new(), None, None,
    );
    assert!(e.duration_ms < 0);
    assert_eq!(e.duration_ms as i128, -((start - e.end_time) / 1_000_000));
}

#[test]
fn operator_kinds() {
    assert_eq!(operator_type("GET"), "1");
    assert_eq!(operator_type("POST"), "2");
    assert_eq!(operator_type("PUT"), "3");
    assert_eq!(operator_type("DELETE"), "4");
    assert_eq!(operator_type("PATCH"), "0");
    assert_eq!(operator_type("get"), "0");
}

#[test]
fn random_strings() {
    let charset = "ABCDEFGHIJKLMNOPQRSTUVWXYZabcdefghijklmnopqrstuvwxyz0123456789)(*&^%$#@!~";
    for n in [0usize, 1, 16, 200] {
        let s = rand_s(n);
        assert_eq!(s.chars().count(), n);
        assert!(s.chars().all(|c| charset.contains(c)));
    }
}

#[test]
fn transactions_marked_rollback_only_refuse_commit() {
    let mut t = TransactionManager::new(5u32);
    assert_eq!(*t.transaction(), 5);
    *t.transaction() = 9;
    assert_eq!(t.commit(), Ok(9));
    let mut t = TransactionManager::new(6u32);
    t.rollback_only();
    assert_eq!(*t.transaction(), 6);
    assert_eq!(t.commit(), Err(RollbackOnly));
    let mut t = TransactionManager::new(7u32);
    t.rollback_only();
    assert_eq!(t.rollback(), 7);
}

#[test]
fn services() {
    let _ = RuntimeFuctionService::new();
    let _ctx = ServiceContext::default();
}

#[test]
fn enabled_menu_queries() {
    assert!(matches!(get_enabled_menus(true, true), Err(ServiceError::Rejected(m)) if m == "请求参数错误"));
    assert!(get_enabled_menus(true, false).unwrap().contains("menu_type <> 'F'"));
    assert!(get_enabled_menus(false, true).unwrap().contains("menu_type = 'F'"));
    let all = get_enabled_menus(false, false).unwrap();
    assert!(!all.contains("menu_type <>") && !all.contains("menu_type ="));
    assert!(all.ends_with("order by order_sort "));
    for q in [get_enabled_menus(true, false).unwrap(), get_enabled_menus(false, true).unwrap(), all] {
        assert!(q.contains(", remark, auth_type from public.sys_menu"));
    }
}

#[test]
fn menu_lookups() {
    let mut s = SearchReq::default();
    assert!(matches!(get_by_id(&s), Err(ServiceError::Rejected(_))));
    s.id = Some("nope".to_string());
    assert!(matches!(get_by_id(&s), Err(ServiceError::InvalidUuid)));
    s.id = Some(PID.to_string());
    assert_eq!(get_by_id(&s).unwrap(), 1);
    assert_eq!(update_log_cache_method(PID).unwrap(), 1);
    assert!(update_log_cache_method("x").is_err());
    assert_eq!(log_cache_updated(), "更新成功");
}

#[test]
fn routes_of_a_user() {
    let supers = vec!["boss".to_string()];
    assert!(matches!(get_routers(None, &supers, "boss"), Err(ServiceError::Rejected(m)) if m == "用户角色不存在"));
    assert_eq!(get_routers(Some(3), &supers, "boss").unwrap(), RouterSource::AllRouters);
    assert_eq!(get_routers(Some(3), &supers, "clerk").unwrap(), RouterSource::ByRole(3));
}

fn add_req(pid: &str) -> AddReq {
    AddReq {
        pid: pid.to_string(), path: Some("p".to_string()), menu_name: "m".to_string(), icon: None,
        menu_type: "M".to_string(), query: None, order_sort: 1, status: "1".to_string(),
        api: "/a".to_string(), method: None, component: None, visible: "1".to_string(),
        is_frame: "0".to_string(), is_cache: "1".to_string(), data_scope: "0".to_string(),
        log_method: "0".to_string(), data_cache_method: "0".to_string(), i18n: None, remark: String::new(),
    }
}

#[test]
fn adding_a_menu() {
    assert!(matches!(create_start(&add_req("bad")), MenuCreateStep::Done(Err(ServiceError::InvalidUuid))));
    let s = create_start(&add_req(PID));
    assert!(matches!(s, MenuCreateStep::CheckExists { pid: 1 }));
    assert!(matches!(create_next(create_start(&add_req(PID)), true), MenuCreateStep::Done(Err(ServiceError::Rejected(m))) if m == "路由已存在"));
    let s = create_next(s, false);
    assert!(matches!(s, MenuCreateStep::Insert { pid: 1 }));
    assert!(matches!(create_next(s, true), MenuCreateStep::Done(Ok(m)) if m == "添加成功"));
}

fn update_req(id: &str, pid: &str) -> UpdateReq {
    UpdateReq {
        id: id.to_string(), pid: pid.to_string(), path: "p".to_string(), menu_name: "m".to_string(),
        icon: None, menu_type: "M".to_string(), query: None, order_sort: 1, status: "1".to_string(),
        api: "/a".to_string(), method: None, component: "c".to_string(), visible: "1".to_string(),
        is_frame: "0".to_string(), is_cache: "1".to_string(), data_scope: "0".to_string(),
        log_method: "0".to_string(), data_cache_method: "0".to_string(), i18n: None, remark: String::new(),
    }
}

#[test]
fn changing_a_menu() {
    assert!(matches!(update_start(&update_req("bad", PID)), MenuUpdateStep::Done(Err(ServiceError::InvalidUuid))));
    assert!(matches!(update_start(&update_req(ID, "bad")), MenuUpdateStep::Done(Err(ServiceError::InvalidUuid))));
    let s = update_start(&update_req(ID, PID));
    assert!(matches!(s, MenuUpdateStep::CheckDuplicates { id: 0x67e5504410b1426f9247bb680e5fe0c8, pid: 1 }));
    assert!(matches!(update_next(update_start(&update_req(ID, PID)), true), MenuUpdateStep::Done(Err(ServiceError::Rejected(m))) if m == "路径或者名称重复"));
    let s = update_next(s, false);
    assert!(matches!(s, MenuUpdateStep::LookUp { .. }));
    let missing = update_next(update_next(update_start(&update_req(ID, PID)), false), false);
    assert!(matches!(missing, MenuUpdateStep::Done(Err(ServiceError::Rejected(m))) if m == "路由不存在"));
    let s = update_next(s, true);
    assert!(matches!(s, MenuUpdateStep::Store { .. }));
    assert!(matches!(update_next(s, true), MenuUpdateStep::Done(Ok(m)) if m == "修改成功"));
}

#[test]
fn deleting_a_menu() {
    assert!(matches!(delete_start("bad"), MenuDeleteStep::Done(Err(ServiceError::InvalidUuid))));
    let s = delete_start(PID);
    assert!(matches!(s, MenuDeleteStep::FindApi { id: 1 }));
    assert!(matches!(delete_next(delete_start(PID), None), MenuDeleteStep::Done(Err(ServiceError::Rejected(m))) if m == "请求参数错误"));
    let s = delete_next(s, Some("/api".to_string()));
    assert!(matches!(&s, MenuDeleteStep::Remove { id: 1, api } if api == "/api"));
    assert!(matches!(delete_next(s, None), MenuDeleteStep::Done(Ok(m)) if m == "删除成功"));
}

#[test]
fn draws_pick_charset_characters() {
    assert_eq!(chars_from_draws(&vec![0, 25, 26, 52, 61, 62, 72]), "AZa09)~");
    assert_eq!(chars_from_draws(&Vec::new()), "");
}
