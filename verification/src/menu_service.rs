//! The rules of the menu service: which menus a listing reads, how a
//! request's ids are checked, and the steps of adding, changing and deleting
//! a menu, each decided from what the database answered to the step before.
use vstd::prelude::*;
use crate::auth::is_super_user;
use crate::error::ServiceError;
use crate::ids::{parse_uuid, uuid_parse};
use crate::menu::{
    get_menu_data, get_menu_tree, rank_decreases, root_id, router_entry_of, text_or_empty,
    tree_is_finite_below, is_tree_below, MenuResp, SearchReq, SysMenuTree,
};
use crate::text::trimmed;

verus! {

/// A request to add a menu; its parent id is given as text.
#[derive(Debug)]
pub struct AddReq {
    pub pid: String,
    pub path: Option<String>,
    pub menu_name: String,
    pub icon: Option<String>,
    pub menu_type: String,
    pub query: Option<String>,
    pub order_sort: i32,
    pub status: String,
    pub api: String,
    pub method: Option<String>,
    pub component: Option<String>,
    pub visible: String,
    pub is_frame: String,
    pub is_cache: String,
    pub data_scope: String,
    pub log_method: String,
    pub data_cache_method: String,
    pub i18n: Option<String>,
    pub remark: String,
}

/// A request to change a menu; its id and parent id are given as text.
#[derive(Debug)]
pub struct UpdateReq {
    pub id: String,
    pub pid: String,
    pub path: String,
    pub menu_name: String,
    pub icon: Option<String>,
    pub menu_type: String,
    pub query: Option<String>,
    pub order_sort: i32,
    pub status: String,
    pub api: String,
    pub method: Option<String>,
    pub component: String,
    pub visible: String,
    pub is_frame: String,
    pub is_cache: String,
    pub data_scope: String,
    pub log_method: String,
    pub data_cache_method: String,
    pub i18n: Option<String>,
    pub remark: String,
}

/// The query of all enabled menus that are routes (not buttons), in display
/// order, with every column a menu row is read with.
pub open spec fn router_menus_sql() -> Seq<char> {
    "select id::text, pid::text, path, menu_name, icon, menu_type, query, order_sort, status, api, method, component, visible, is_cache, log_method, data_cache_method, is_frame, data_scope, i18n, remark, auth_type from public.sys_menu where deleted_at is null and status = '1' and menu_type <> 'F' order by order_sort "@
}

/// The query of all enabled button-level menus (endpoints), in display order,
/// with every column a menu row is read with.
pub open spec fn api_menus_sql() -> Seq<char> {
    "select id::text, pid::text, path, menu_name, icon, menu_type, query, order_sort, status, api, method, component, visible, is_cache, log_method, data_cache_method, is_frame, data_scope, i18n, remark, auth_type from public.sys_menu where deleted_at is null and status = '1' and menu_type = 'F' order by order_sort "@
}

/// The query of all enabled menus, in display order, with every column a menu
/// row is read with.
pub open spec fn all_menus_sql() -> Seq<char> {
    "select id::text, pid::text, path, menu_name, icon, menu_type, query, order_sort, status, api, method, component, visible, is_cache, log_method, data_cache_method, is_frame, data_scope, i18n, remark, auth_type from public.sys_menu where deleted_at is null and status = '1' order by order_sort "@
}

/// `sub` occurs in `s` at some position.
pub open spec fn has_infix(s: Seq<char>, sub: Seq<char>) -> bool {
    exists|k: int| 0 <= k && k + sub.len() <= s.len() && #[trigger] s.subrange(k, k + sub.len()) == sub
}

/// Every menu listing reads only enabled menus that are not deleted: each
/// query `get_enabled_menus` gives restricts to `deleted_at is null` and
/// `status = '1'`; the route listing leaves out button-level menus
/// (`menu_type <> 'F'`) and the endpoint listing keeps only them
/// (`menu_type = 'F'`).
pub proof fn lemma_enabled_menus_only()
    ensures
        has_infix(router_menus_sql(), "deleted_at is null"@),
        has_infix(router_menus_sql(), "status = '1'"@),
        has_infix(router_menus_sql(), "menu_type <> 'F'"@),
        has_infix(api_menus_sql(), "deleted_at is null"@),
        has_infix(api_menus_sql(), "status = '1'"@),
        has_infix(api_menus_sql(), "menu_type = 'F'"@),
        has_infix(all_menus_sql(), "deleted_at is null"@),
        has_infix(all_menus_sql(), "status = '1'"@),
{
    reveal_strlit("deleted_at is null");
    reveal_strlit("status = '1'");
    reveal_strlit("menu_type <> 'F'");
    reveal_strlit("menu_type = 'F'");
    reveal_strlit("select id::text, pid::text, path, menu_name, icon, menu_type, query, order_sort, status, api, method, component, visible, is_cache, log_method, data_cache_method, is_frame, data_scope, i18n, remark, auth_type from public.sys_menu where deleted_at is null and status = '1' and menu_type <> 'F' order by order_sort ");
    reveal_strlit("select id::text, pid::text, path, menu_name, icon, menu_type, query, order_sort, status, api, method, component, visible, is_cache, log_method, data_cache_method, is_frame, data_scope, i18n, remark, auth_type from public.sys_menu where deleted_at is null and status = '1' and menu_type = 'F' order by order_sort ");
    reveal_strlit("select id::text, pid::text, path, menu_name, icon, menu_type, query, order_sort, status, api, method, component, visible, is_cache, log_method, data_cache_method, is_frame, data_scope, i18n, remark, auth_type from public.sys_menu where deleted_at is null and status = '1' order by order_sort ");
    assert(router_menus_sql().subrange(236int, 236int + "deleted_at is null"@.len()) =~= "deleted_at is null"@);
    assert(router_menus_sql().subrange(259int, 259int + "status = '1'"@.len()) =~= "status = '1'"@);
    assert(router_menus_sql().subrange(276int, 276int + "menu_type <> 'F'"@.len()) =~= "menu_type <> 'F'"@);
    assert(api_menus_sql().subrange(236int, 236int + "deleted_at is null"@.len()) =~= "deleted_at is null"@);
    assert(api_menus_sql().subrange(259int, 259int + "status = '1'"@.len()) =~= "status = '1'"@);
    assert(api_menus_sql().subrange(276int, 276int + "menu_type = 'F'"@.len()) =~= "menu_type = 'F'"@);
    assert(all_menus_sql().subrange(236int, 236int + "deleted_at is null"@.len()) =~= "deleted_at is null"@);
    assert(all_menus_sql().subrange(259int, 259int + "status = '1'"@.len()) =~= "status = '1'"@);
}

/// The message of a request that asks for something malformed or absent.
pub open spec fn bad_params_message() -> Seq<char> {
    "请求参数错误"@
}

/// The query that lists enabled menus: the routes when `is_router`, the
/// endpoints when `is_only_api`, all of them when neither; asking for both
/// is refused.
pub fn get_enabled_menus(is_router: bool, is_only_api: bool) -> (r: Result<String, ServiceError>)
    ensures
        (is_router && is_only_api) ==> (r matches Err(ServiceError::Rejected(m)) && m@
            == bad_params_message()),
        (is_router && !is_only_api) ==> (r matches Ok(q) && q@ == router_menus_sql()),
        (!is_router && is_only_api) ==> (r matches Ok(q) && q@ == api_menus_sql()),
        (!is_router && !is_only_api) ==> (r matches Ok(q) && q@ == all_menus_sql()),
{
    if is_only_api && is_router {
        return Err(ServiceError::Rejected("请求参数错误".to_owned()));
    }
    if is_router {
        Ok("select id::text, pid::text, path, menu_name, icon, menu_type, query, order_sort, status, api, method, component, visible, is_cache, log_method, data_cache_method, is_frame, data_scope, i18n, remark, auth_type from public.sys_menu where deleted_at is null and status = '1' and menu_type <> 'F' order by order_sort ".to_owned())
    } else if is_only_api {
        Ok("select id::text, pid::text, path, menu_name, icon, menu_type, query, order_sort, status, api, method, component, visible, is_cache, log_method, data_cache_method, is_frame, data_scope, i18n, remark, auth_type from public.sys_menu where deleted_at is null and status = '1' and menu_type = 'F' order by order_sort ".to_owned())
    } else {
        Ok("select id::text, pid::text, path, menu_name, icon, menu_type, query, order_sort, status, api, method, component, visible, is_cache, log_method, data_cache_method, is_frame, data_scope, i18n, remark, auth_type from public.sys_menu where deleted_at is null and status = '1' order by order_sort ".to_owned())
    }
}

/// The id of the menu a lookup asks for: refused when the request names
/// none, and a malformed id otherwise fails.
pub fn get_by_id(search_req: &SearchReq) -> (r: Result<u128, ServiceError>)
    ensures
        search_req.id is None ==> (r matches Err(ServiceError::Rejected(m)) && m@
            == bad_params_message()),
        search_req.id matches Some(t) ==> match uuid_parse(t@) {
            Some(v) => r matches Ok(x) && x == v,
            None => r matches Err(ServiceError::InvalidUuid),
        },
{
    match &search_req.id {
        Some(id) => match parse_uuid(id.as_str()) {
            Ok(v) => Ok(v),
            Err(_) => Err(ServiceError::InvalidUuid),
        },
        None => Err(ServiceError::Rejected("请求参数错误".to_owned())),
    }
}

/// Where a user's routes come from.
#[derive(Debug, Clone, Copy, PartialEq, Eq)]
pub enum RouterSource {
    /// Every enabled route: the user is a super user.
    AllRouters,
    /// The routes granted to the user's role.
    ByRole(u128),
}

/// Where the routes of user `user_id` come from: a user without a role is
/// refused; a configured super user gets every route, anyone else the routes
/// of their role.
pub fn get_routers(role_id: Option<u128>, super_users: &Vec<String>, user_id: &str) -> (r: Result<
    RouterSource,
    ServiceError,
>)
    ensures
        role_id is None ==> (r matches Err(ServiceError::Rejected(m)) && m@ == "用户角色不存在"@),
        role_id matches Some(role) ==> ((exists|i: int|
            0 <= i < super_users@.len() && #[trigger] super_users@[i]@ == user_id@) ==> r == Ok::<
            RouterSource,
            ServiceError,
        >(RouterSource::AllRouters)),
        role_id matches Some(role) ==> (!(exists|i: int|
            0 <= i < super_users@.len() && #[trigger] super_users@[i]@ == user_id@) ==> r == Ok::<
            RouterSource,
            ServiceError,
        >(RouterSource::ByRole(role))),
{
    match role_id {
        None => Err(ServiceError::Rejected("用户角色不存在".to_owned())),
        Some(role) => {
            if is_super_user(super_users, user_id) {
                Ok(RouterSource::AllRouters)
            } else {
                Ok(RouterSource::ByRole(role))
            }
        },
    }
}

/// The id a menu row stands for.
pub open spec fn row_id(m: MenuResp) -> Seq<char> {
    text_or_empty(m.id)
}

/// The parent id a menu row stands for, trimmed.
pub open spec fn row_pid(m: MenuResp) -> Seq<char> {
    trimmed(text_or_empty(m.pid))
}

/// `rank` is defined at the top level and falls strictly from every ranked
/// parent id of `menus` to the row's own id.
pub open spec fn rows_ranked(menus: Seq<MenuResp>, rank: spec_fn(Seq<char>) -> int) -> bool {
    rank(root_id()) >= 0 && forall|i: int|
        #![trigger menus[i]]
        0 <= i < menus.len() && rank(row_pid(menus[i])) >= 0 ==> 0 <= rank(row_id(menus[i]))
            < rank(row_pid(menus[i]))
}

/// Following parent-to-child links among the rows `menus` from the top
/// level never returns to a row already visited.
pub open spec fn rows_finite_below_root(menus: Seq<MenuResp>) -> bool {
    exists|rank: spec_fn(Seq<char>) -> int| #[trigger] rows_ranked(menus, rank)
}

/// The route tree of the enabled route menus `menus`: their router entries,
/// arranged below the top level.
pub fn get_all_router_tree(menus: Vec<MenuResp>) -> (r: Vec<SysMenuTree>)
    requires
        rows_finite_below_root(menus@),
    ensures
        exists|entries: Seq<SysMenuTree>|
            #![trigger is_tree_below(r@, entries, root_id())]
            {
                &&& entries.len() == menus@.len()
                &&& forall|i: int|
                    0 <= i < menus@.len() ==> router_entry_of(menus@[i], #[trigger] entries[i])
                &&& is_tree_below(r@, entries, root_id())
            },
{
    let ghost rows = menus@;
    let menu_data = get_menu_data(menus);
    proof {
        let rank = choose|rank: spec_fn(Seq<char>) -> int| #[trigger] rows_ranked(rows, rank);
        assert forall|i: int|
            #![trigger menu_data@[i]]
            0 <= i < menu_data@.len() && rank(menu_data@[i].user_menu.pid@) >= 0 implies 0 <= rank(
                menu_data@[i].user_menu.id@,
            ) < rank(menu_data@[i].user_menu.pid@) by {
            assert(router_entry_of(rows[i], menu_data@[i]));
            assert(rows[i] == rows[i]);
        }
        assert(rank_decreases(menu_data@, rank));
    }
    let root = "0".to_owned();
    proof {
        reveal_strlit("0");
        assert(root@ =~= root_id());
    }
    let ghost entries = menu_data@;
    let tree = get_menu_tree(menu_data, root);
    assert(forall|i: int| 0 <= i < rows.len() ==> router_entry_of(rows[i], #[trigger] entries[i]));
    tree
}

/// Whether a menu clashes with others below its parent, from the two counts
/// the database gave (a missing count is zero): the routes with the same
/// path, and the menus with the same name.
pub fn router_clash(same_path: Option<i64>, same_name: Option<i64>) -> (r: bool)
    ensures
        r == (match same_path {
            Some(c) => c > 0,
            None => false,
        } || match same_name {
            Some(c) => c > 0,
            None => false,
        }),
{
    let count1 = match same_path {
        Some(c) => c,
        None => 0,
    };
    let count2 = match same_name {
        Some(c) => c,
        None => 0,
    };
    count1 > 0 || count2 > 0
}

/// A step of adding a menu.
#[derive(Debug)]
pub enum MenuCreateStep {
    /// Ask whether a sibling route with the same path, or a sibling with the
    /// same name, exists below `pid`.
    CheckExists { pid: u128 },
    /// Store the menu below `pid`.
    Insert { pid: u128 },
    /// The request is answered.
    Done(Result<String, ServiceError>),
}

/// The first step of adding `req`: a malformed parent id fails at once.
pub fn create_start(req: &AddReq) -> (r: MenuCreateStep)
    ensures
        match uuid_parse(req.pid@) {
            Some(pid) => r == (MenuCreateStep::CheckExists { pid }),
            None => r matches MenuCreateStep::Done(Err(ServiceError::InvalidUuid)),
        },
{
    match parse_uuid(req.pid.as_str()) {
        Ok(pid) => MenuCreateStep::CheckExists { pid },
        Err(_) => MenuCreateStep::Done(Err(ServiceError::InvalidUuid)),
    }
}

/// The step after `step`, given the database's answer `answer` to it (whether
/// a clashing menu exists, or that the menu was stored): a clash is refused,
/// otherwise the menu is stored and the request answered.
pub fn create_next(step: MenuCreateStep, answer: bool) -> (r: MenuCreateStep)
    requires
        !(step is Done),
    ensures
        step matches MenuCreateStep::CheckExists { pid } ==> (answer ==> (r matches MenuCreateStep::Done(Err(ServiceError::Rejected(m))) && m@ == "路由已存在"@)),
        step matches MenuCreateStep::CheckExists { pid } ==> (!answer ==> r == (MenuCreateStep::Insert { pid })),
        step matches MenuCreateStep::Insert { pid } ==> (r matches MenuCreateStep::Done(Ok(m)) && m@ == "添加成功"@),
{
    match step {
        MenuCreateStep::CheckExists { pid } => {
            if answer {
                MenuCreateStep::Done(Err(ServiceError::Rejected("路由已存在".to_owned())))
            } else {
                MenuCreateStep::Insert { pid }
            }
        },
        MenuCreateStep::Insert { pid: _ } => MenuCreateStep::Done(Ok("添加成功".to_owned())),
        MenuCreateStep::Done(d) => MenuCreateStep::Done(d),
    }
}

/// A step of changing a menu.
#[derive(Debug)]
pub enum MenuUpdateStep {
    /// Ask whether another menu below `pid` has the same route path or name.
    CheckDuplicates { id: u128, pid: u128 },
    /// Ask whether the menu `id` exists.
    LookUp { id: u128, pid: u128 },
    /// Store the changes.
    Store { id: u128, pid: u128 },
    /// The request is answered.
    Done(Result<String, ServiceError>),
}

/// The first step of changing `req`: a malformed parent id or id fails at once.
pub fn update_start(req: &UpdateReq) -> (r: MenuUpdateStep)
    ensures
        match (uuid_parse(req.pid@), uuid_parse(req.id@)) {
            (Some(pid), Some(id)) => r == (MenuUpdateStep::CheckDuplicates { id, pid }),
            _ => r matches MenuUpdateStep::Done(Err(ServiceError::InvalidUuid)),
        },
{
    let pid = match parse_uuid(req.pid.as_str()) {
        Ok(v) => v,
        Err(_) => return MenuUpdateStep::Done(Err(ServiceError::InvalidUuid)),
    };
    let id = match parse_uuid(req.id.as_str()) {
        Ok(v) => v,
        Err(_) => return MenuUpdateStep::Done(Err(ServiceError::InvalidUuid)),
    };
    MenuUpdateStep::CheckDuplicates { id, pid }
}

/// The step after `step`, given the database's answer `answer` to it: a
/// duplicate path or name is refused, a missing menu is refused, otherwise
/// the changes are stored and the request answered.
pub fn update_next(step: MenuUpdateStep, answer: bool) -> (r: MenuUpdateStep)
    requires
        !(step is Done),
    ensures
        step matches MenuUpdateStep::CheckDuplicates { id, pid } ==> (answer ==> (r matches MenuUpdateStep::Done(Err(ServiceError::Rejected(m))) && m@ == "路径或者名称重复"@)),
        step matches MenuUpdateStep::CheckDuplicates { id, pid } ==> (!answer ==> r == (MenuUpdateStep::LookUp { id, pid })),
        step matches MenuUpdateStep::LookUp { id, pid } ==> (answer ==> r == (MenuUpdateStep::Store { id, pid })),
        step matches MenuUpdateStep::LookUp { id, pid } ==> (!answer ==> (r matches MenuUpdateStep::Done(Err(ServiceError::Rejected(m))) && m@ == "路由不存在"@)),
        step matches MenuUpdateStep::Store { id, pid } ==> (r matches MenuUpdateStep::Done(Ok(m)) && m@ == "修改成功"@),
{
    match step {
        MenuUpdateStep::CheckDuplicates { id, pid } => {
            if answer {
                MenuUpdateStep::Done(Err(ServiceError::Rejected("路径或者名称重复".to_owned())))
            } else {
                MenuUpdateStep::LookUp { id, pid }
            }
        },
        MenuUpdateStep::LookUp { id, pid } => {
            if answer {
                MenuUpdateStep::Store { id, pid }
            } else {
                MenuUpdateStep::Done(Err(ServiceError::Rejected("路由不存在".to_owned())))
            }
        },
        MenuUpdateStep::Store { id: _, pid: _ } => MenuUpdateStep::Done(Ok("修改成功".to_owned())),
        MenuUpdateStep::Done(d) => MenuUpdateStep::Done(d),
    }
}

/// A step of deleting a menu.
#[derive(Debug)]
pub enum MenuDeleteStep {
    /// Ask for the endpoint of a menu below `id`.
    FindApi { id: u128 },
    /// Delete the menu `id` and drop the endpoint `api` from the endpoint table.
    Remove { id: u128, api: String },
    /// The request is answered.
    Done(Result<String, ServiceError>),
}

/// The first step of deleting the menu `id`: a malformed id fails at once.
pub fn delete_start(id: &str) -> (r: MenuDeleteStep)
    ensures
        match uuid_parse(id@) {
            Some(v) => r == (MenuDeleteStep::FindApi { id: v }),
            None => r matches MenuDeleteStep::Done(Err(ServiceError::InvalidUuid)),
        },
{
    match parse_uuid(id) {
        Ok(v) => MenuDeleteStep::FindApi { id: v },
        Err(_) => MenuDeleteStep::Done(Err(ServiceError::InvalidUuid)),
    }
}

/// The step after `step`, given the endpoint the lookup found (`found_api`;
/// ignored after the removal): without one the request is refused, otherwise
/// the menu is removed and the request answered.
pub fn delete_next(step: MenuDeleteStep, found_api: Option<String>) -> (r: MenuDeleteStep)
    requires
        !(step is Done),
    ensures
        step matches MenuDeleteStep::FindApi { id } ==> (found_api matches Some(api) ==> r == (MenuDeleteStep::Remove { id, api })),
        step matches MenuDeleteStep::FindApi { id } ==> (found_api is None ==> (r matches MenuDeleteStep::Done(Err(ServiceError::Rejected(m))) && m@ == bad_params_message())),
        step matches MenuDeleteStep::Remove { id, api } ==> (r matches MenuDeleteStep::Done(Ok(m)) && m@ == "删除成功"@),
{
    match step {
        MenuDeleteStep::FindApi { id } => match found_api {
            Some(api) => MenuDeleteStep::Remove { id, api },
            None => MenuDeleteStep::Done(Err(ServiceError::Rejected("请求参数错误".to_owned()))),
        },
        MenuDeleteStep::Remove { id: _, api: _ } => MenuDeleteStep::Done(Ok("删除成功".to_owned())),
        MenuDeleteStep::Done(d) => MenuDeleteStep::Done(d),
    }
}

/// The menu whose logging and caching a request changes: a malformed id fails.
pub fn update_log_cache_method(id: &str) -> (r: Result<u128, ServiceError>)
    ensures
        match uuid_parse(id@) {
            Some(v) => r matches Ok(x) && x == v,
            None => r matches Err(ServiceError::InvalidUuid),
        },
{
    match parse_uuid(id) {
        Ok(v) => Ok(v),
        Err(_) => Err(ServiceError::InvalidUuid),
    }
}

/// The answer after the logging and caching of a menu was changed.
pub fn log_cache_updated() -> (r: String)
    ensures
        r@ == "更新成功"@,
{
    "更新成功".to_owned()
}

} // verus!
