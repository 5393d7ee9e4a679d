use playoh::menu::{
    get_menu_data, get_menu_tree, get_menu_tree_checked, router_entry, MenuClient, MenuResp, SysMenuTree,
};
use playoh::menu_service::{get_all_router_tree, router_clash};

fn row(id: &str, pid: &str, path: &str, visible: &str, is_cache: &str) -> MenuResp {
    MenuResp {
        id: Some(id.to_string()),
        pid: Some(pid.to_string()),
        path: path.to_string(),
        menu_name: format!("name-{}", id),
        icon: "icon".to_string(),
        menu_type: "M".to_string(),
        query: None,
        order_sort: 1,
        status: "1".to_string(),
        api: String::new(),
        method: "GET".to_string(),
        component: "Layout".to_string(),
        visible: visible.to_string(),
        is_frame: "0".to_string(),
        is_cache: is_cache.to_string(),
        data_scope: "0".to_string(),
        log_method: "0".to_string(),
        auth_type: "1".to_string(),
        i18n: Some("menu.i18n".to_string()),
        data_cache_method: "0".to_string(),
        remark: String::new(),
    }
}

fn ids(forest: &[SysMenuTree]) -> Vec<String> {
    forest.iter().map(|t| t.user_menu.id.clone()).collect()
}

#[test]
fn top_level_entry_gets_an_absolute_path_and_flags() {
    let t = router_entry(&row("a", " 0 ", "system", "1", "1"));
    assert_eq!(t.user_menu.pid, "0");
    assert_eq!(t.user_menu.path, "/system");
    assert_eq!(t.user_menu.name, "system");
    assert_eq!(t.user_menu.always_show, Some(true));
    assert!(!t.user_menu.hidden);
    assert!(!t.user_menu.meta.hidden);
    assert!(!t.user_menu.meta.no_cache);
    assert_eq!(t.user_menu.meta.link, None);
    assert_eq!(t.user_menu.meta.title, "name-a");
    assert_eq!(t.user_menu.meta.i18n.as_deref(), Some("menu.i18n"));
    assert!(t.children.is_none());
}

#[test]
fn nested_entry_keeps_its_path_and_reads_flags() {
    let t = router_entry(&row("b", "a", "user", "0", "0"));
    assert_eq!(t.user_menu.path, "user");
    assert_eq!(t.user_menu.always_show, None);
    assert!(t.user_menu.hidden);
    assert!(t.user_menu.meta.hidden);
    assert!(t.user_menu.meta.no_cache);
    let t = router_entry(&row("c", "0", "/already", "2", "1"));
    assert_eq!(t.user_menu.path, "/already");
    assert!(!t.user_menu.hidden);
    assert!(t.user_menu.meta.hidden);
}

#[test]
fn external_links_are_recognised() {
    let t = router_entry(&row("d", "0", "https://docs.example.com", "1", "1"));
    assert_eq!(t.user_menu.meta.link.as_deref(), Some("https://docs.example.com"));
    assert_eq!(t.user_menu.path, "/https://docs.example.com");
}

#[test]
fn missing_ids_become_empty() {
    let mut m = row("x", "0", "p", "1", "1");
    m.id = None;
    m.pid = None;
    let t = router_entry(&m);
    assert_eq!(t.user_menu.id, "");
    assert_eq!(t.user_menu.pid, "");
    assert_eq!(t.user_menu.path, "p");
}

#[test]
fn menu_data_keeps_order() {
    let data = get_menu_data(vec![row("a", "0", "a", "1", "1"), row("b", "a", "b", "1", "1")]);
    assert_eq!(ids(&data), vec!["a", "b"]);
}

#[test]
fn tree_nests_children_in_input_order() {
    let rows = vec![
        row("a", "0", "a", "1", "1"),
        row("b", "a", "b", "1", "1"),
        row("c", "0", "c", "1", "1"),
        row("d", "a", "d", "1", "1"),
        row("e", "b", "e", "1", "1"),
        row("z", "missing", "z", "1", "1"),
    ];
    let tree = get_menu_tree(get_menu_data(rows), "0".to_string());
    assert_eq!(ids(&tree), vec!["a", "c"]);
    let a = tree[0].children.as_ref().unwrap();
    assert_eq!(ids(a), vec!["b", "d"]);
    let b = a[0].children.as_ref().unwrap();
    assert_eq!(ids(b), vec!["e"]);
    assert!(b[0].children.as_ref().unwrap().is_empty());
    assert!(tree[1].children.as_ref().unwrap().is_empty());
}

#[test]
fn router_tree_from_rows() {
    let rows = vec![row("a", "0", "sys", "1", "1"), row("b", " a", "user", "1", "0")];
    let tree = get_all_router_tree(rows);
    assert_eq!(tree.len(), 1);
    assert_eq!(tree[0].user_menu.path, "/sys");
    let kids = tree[0].children.as_ref().unwrap();
    assert_eq!(kids.len(), 1);
    assert_eq!(kids[0].user_menu.pid, "a");
    assert_eq!(kids[0].user_menu.path, "user");
}

#[test]
fn empty_tree() {
    assert!(get_menu_tree(Vec::new(), "0".to_string()).is_empty());
    let _client = MenuClient::new();
}

#[test]
fn router_clash_counts() {
    assert!(!router_clash(None, None));
    assert!(!router_clash(Some(0), Some(0)));
    assert!(router_clash(Some(1), None));
    assert!(router_clash(None, Some(2)));
    assert!(!router_clash(Some(-1), Some(0)));
}

#[test]
fn checked_tree_of_plain_rows() {
    let rows = vec![
        row("a", "0", "system", "1", "1"),
        row("b", "a", "user", "1", "1"),
        row("c", "0", "runtime", "1", "1"),
    ];
    let tree = get_menu_tree_checked(get_menu_data(rows), "0".to_string()).unwrap();
    assert_eq!(ids(&tree), vec!["a".to_string(), "c".to_string()]);
}

#[test]
fn checked_tree_refuses_a_loop() {
    let rows = vec![
        row("a", "0", "system", "1", "1"),
        row("b", "a", "user", "1", "1"),
        row("a", "b", "again", "1", "1"),
    ];
    assert!(get_menu_tree_checked(get_menu_data(rows), "0".to_string()).is_none());
}

#[test]
fn checked_tree_accepts_a_shared_child() {
    let rows = vec![
        row("x", "0", "x", "1", "1"),
        row("y", "0", "y", "1", "1"),
        row("x", "y", "x-again", "1", "1"),
    ];
    let tree = get_menu_tree_checked(get_menu_data(rows), "0".to_string()).unwrap();
    assert_eq!(tree.len(), 2);
}

#[test]
fn checked_tree_ignores_a_loop_off_the_tree() {
    let rows = vec![
        row("a", "0", "system", "1", "1"),
        row("b", "c", "b", "1", "1"),
        row("c", "b", "c", "1", "1"),
    ];
    let tree = get_menu_tree_checked(get_menu_data(rows), "0".to_string()).unwrap();
    assert_eq!(ids(&tree), vec!["a".to_string()]);
}

fn count_id(forest: &[SysMenuTree], id: &str) -> usize {
    forest
        .iter()
        .map(|t| {
            (t.user_menu.id == id) as usize + t.children.as_ref().map(|c| count_id(c, id)).unwrap_or(0)
        })
        .sum()
}

#[test]
fn tree_holds_each_reachable_menu_once() {
    let rows = vec![
        row("a", "0", "system", "1", "1"),
        row("b", "a", "user", "1", "1"),
        row("c", "b", "role", "1", "1"),
        row("d", "x", "orphan", "1", "1"),
        row("e", "0", "runtime", "1", "1"),
    ];
    let tree = get_menu_tree_checked(get_menu_data(rows), "0".to_string()).unwrap();
    for id in ["a", "b", "c", "e"] {
        assert_eq!(count_id(&tree, id), 1, "{}", id);
    }
    assert_eq!(count_id(&tree, "d"), 0);
}
