//! Menus: the rows read from `sys_menu`, the router entries built from
//! them, and the parent/child tree that the front end renders.
use vstd::prelude::*;
use vstd::string::StringExecFns;
use crate::text::{has_prefix, starts_with, starts_with_char, str_eq, trim, trimmed};
use vstd::set_lib::{lemma_int_range, lemma_len_subset, set_int_range};

verus! {

/// One row of `sys_menu` as the service reads it.
#[derive(Debug, Default)]
pub struct MenuResp {
    pub id: Option<String>,
    pub pid: Option<String>,
    pub path: String,
    pub menu_name: String,
    pub icon: String,
    pub menu_type: String,
    pub query: Option<String>,
    pub order_sort: i32,
    pub status: String,
    pub api: String,
    pub method: String,
    pub component: String,
    pub visible: String,
    pub is_frame: String,
    pub is_cache: String,
    pub data_scope: String,
    pub log_method: String,
    pub auth_type: String,
    pub i18n: Option<String>,
    pub data_cache_method: String,
    pub remark: String,
}

/// Display metadata of a router entry.
#[derive(Debug, Default)]
pub struct Meta {
    pub icon: String,
    pub title: String,
    pub link: Option<String>,
    pub no_cache: bool,
    pub hidden: bool,
    pub i18n: Option<String>,
}

/// A router entry built from one menu row.
#[derive(Debug, Default)]
pub struct UserMenu {
    pub id: String,
    pub pid: String,
    pub always_show: Option<bool>,
    pub path: String,
    pub name: String,
    pub menu_name: String,
    pub menu_type: String,
    pub component: String,
    pub hidden: bool,
    pub meta: Meta,
}

/// A router entry together with the entries below it.
#[derive(Debug, Default)]
pub struct SysMenuTree {
    pub user_menu: UserMenu,
    pub children: Option<Vec<SysMenuTree>>,
}

/// A menu row with the tables and read endpoints related to it.
#[derive(Debug)]
pub struct MenuRelated {
    pub menu: MenuResp,
    pub dbs: Vec<String>,
    pub apis: Vec<String>,
}

/// A request to change how a menu's calls are logged and cached.
#[derive(Debug)]
pub struct LogCacheEditReq {
    pub id: String,
    pub log_method: String,
    pub data_cache_method: String,
}

/// Filters of a menu listing.
#[derive(Debug, Default)]
pub struct SearchReq {
    pub id: Option<String>,
    pub menu_name: Option<String>,
    pub menu_type: Option<String>,
    pub method: Option<String>,
    pub status: Option<String>,
    pub begin_time: Option<String>,
    pub end_time: Option<String>,
}

/// A handle for menu queries; it carries no state.
pub struct MenuClient {}

impl MenuClient {
    pub fn new() -> (r: Self)
        ensures
            r == (MenuClient {}),
    {
        MenuClient {}
    }
}

fn clone_opt_string(o: &Option<String>) -> (r: Option<String>)
    ensures
        r == *o,
{
    match o {
        Some(s) => Some(s.clone()),
        None => None,
    }
}

impl Clone for Meta {
    fn clone(&self) -> (r: Self)
        ensures
            r == *self,
    {
        Meta {
            icon: self.icon.clone(),
            title: self.title.clone(),
            link: clone_opt_string(&self.link),
            no_cache: self.no_cache,
            hidden: self.hidden,
            i18n: clone_opt_string(&self.i18n),
        }
    }
}

impl Clone for UserMenu {
    fn clone(&self) -> (r: Self)
        ensures
            r == *self,
    {
        UserMenu {
            id: self.id.clone(),
            pid: self.pid.clone(),
            always_show: self.always_show,
            path: self.path.clone(),
            name: self.name.clone(),
            menu_name: self.menu_name.clone(),
            menu_type: self.menu_type.clone(),
            component: self.component.clone(),
            hidden: self.hidden,
            meta: self.meta.clone(),
        }
    }
}

/// The text of an optional string, empty when absent (`unwrap_or_default`).
pub open spec fn text_or_empty(o: Option<String>) -> Seq<char> {
    match o {
        Some(s) => s@,
        None => Seq::empty(),
    }
}

/// The parent id of top-level menus.
pub open spec fn root_id() -> Seq<char> {
    seq!['0']
}

/// The flag value meaning "yes" in menu rows.
pub open spec fn flag_on() -> Seq<char> {
    seq!['1']
}

/// The flag value meaning "no" in menu rows.
pub open spec fn flag_off() -> Seq<char> {
    seq!['0']
}

/// The scheme prefix that marks a path as an external link.
pub open spec fn http_prefix() -> Seq<char> {
    seq!['h', 't', 't', 'p']
}

/// `t` is the router entry that the row `m` becomes: ids and parent ids taken
/// from the row (the parent id trimmed), top-level paths made absolute,
/// external links recognised by their `http` prefix, and the visibility and
/// cache flags read as `"1"` / `"0"`.
pub open spec fn router_entry_of(m: MenuResp, t: SysMenuTree) -> bool {
    let pid = trimmed(text_or_empty(m.pid));
    let u = t.user_menu;
    &&& t.children is None
    &&& u.id@ == text_or_empty(m.id)
    &&& u.pid@ == pid
    &&& u.path@ == (if !(m.path@.len() > 0 && m.path@[0] == '/') && pid == root_id() {
        seq!['/'] + m.path@
    } else {
        m.path@
    })
    &&& u.name == m.path
    &&& u.menu_name == m.menu_name
    &&& u.menu_type == m.menu_type
    &&& u.component == m.component
    &&& u.always_show == (if m.is_cache@ == flag_on() && pid == root_id() {
        Some(true)
    } else {
        None
    })
    &&& u.hidden == (m.visible@ == flag_off())
    &&& u.meta.icon == m.icon
    &&& u.meta.title == m.menu_name
    &&& u.meta.hidden == (m.visible@ != flag_on())
    &&& u.meta.link == (if has_prefix(m.path@, http_prefix()) {
        Some(m.path)
    } else {
        None
    })
    &&& u.meta.no_cache == (m.is_cache@ != flag_on())
    &&& u.meta.i18n == m.i18n
}

/// A router entry at the top level has an absolute path, and an entry that
/// is hidden from the router is hidden from the menu as well.
pub proof fn lemma_router_entry_shape(m: MenuResp, t: SysMenuTree)
    requires
        router_entry_of(m, t),
    ensures
        t.user_menu.pid@ == root_id() ==> t.user_menu.path@.len() > 0 && t.user_menu.path@[0] == '/',
        t.user_menu.hidden ==> t.user_menu.meta.hidden,
{
    if t.user_menu.pid@ == root_id() && !(m.path@.len() > 0 && m.path@[0] == '/') {
        assert((seq!['/'] + m.path@)[0] == '/');
    }
    if t.user_menu.hidden {
        assert(m.visible@ == flag_off());
        assert(flag_off() != flag_on()) by {
            assert(flag_off()[0] != flag_on()[0]);
        }
    }
}

/// What a router entry says of its row: it keeps the row's id and menu
/// name; it is always shown exactly when the row is at the top level (its
/// trimmed parent id is `"0"`) with caching on (`is_cache` `"1"`), and a
/// nested row is never marked always shown; it is hidden exactly when
/// `visible` is `"0"`, hidden from the menu exactly when `visible` is not
/// `"1"`, uncached exactly when `is_cache` is not `"1"`; and it links out
/// exactly when the path starts with `http`, to that path.
pub proof fn lemma_router_entry_flags(m: MenuResp, t: SysMenuTree)
    requires
        router_entry_of(m, t),
    ensures
        t.user_menu.id@ == text_or_empty(m.id),
        t.user_menu.menu_name == m.menu_name,
        t.user_menu.meta.title == m.menu_name,
        trimmed(text_or_empty(m.pid)) != seq!['0'] ==> t.user_menu.always_show is None,
        (t.user_menu.always_show == Some(true)) <==> (m.is_cache@ == seq!['1'] && trimmed(
            text_or_empty(m.pid),
        ) == seq!['0']),
        t.user_menu.always_show is None || t.user_menu.always_show == Some(true),
        t.user_menu.hidden <==> m.visible@ == seq!['0'],
        t.user_menu.meta.hidden <==> m.visible@ != seq!['1'],
        t.user_menu.meta.no_cache <==> m.is_cache@ != seq!['1'],
        t.user_menu.meta.link is Some <==> (m.path@.len() >= 4 && m.path@.subrange(0, 4)
            == seq!['h', 't', 't', 'p']),
        t.user_menu.meta.link matches Some(l) ==> l == m.path,
{
}

/// Builds the router entry for one menu row.
pub fn router_entry(menu: &MenuResp) -> (r: SysMenuTree)
    ensures
        router_entry_of(*menu, r),
{
    let raw_pid = match &menu.pid {
        Some(p) => p.clone(),
        None => String::new(),
    };
    let pid = trim(raw_pid.as_str());
    proof {
        reveal_strlit("1");
        reveal_strlit("0");
        reveal_strlit("http");
        assert("1"@ =~= flag_on());
        assert("0"@ =~= root_id());
        assert("http"@ =~= http_prefix());
    }
    let is_root = str_eq(pid.as_str(), "0");
    let visible_on = str_eq(menu.visible.as_str(), "1");
    let visible_off = str_eq(menu.visible.as_str(), "0");
    let cache_on = str_eq(menu.is_cache.as_str(), "1");
    let link = if starts_with(menu.path.as_str(), "http") {
        Some(menu.path.clone())
    } else {
        None
    };
    let meta = Meta {
        icon: menu.icon.clone(),
        title: menu.menu_name.clone(),
        hidden: !visible_on,
        link,
        no_cache: !cache_on,
        i18n: clone_opt_string(&menu.i18n),
    };
    let path = if !starts_with_char(menu.path.as_str(), '/') && is_root {
        let mut p = "/".to_owned();
        proof {
            reveal_strlit("/");
            assert("/"@ =~= seq!['/']);
        }
        p.append(menu.path.as_str());
        p
    } else {
        menu.path.clone()
    };
    let id = match &menu.id {
        Some(i) => i.clone(),
        None => String::new(),
    };
    let user_menu = UserMenu {
        meta,
        id,
        pid,
        path,
        name: menu.path.clone(),
        menu_name: menu.menu_name.clone(),
        menu_type: menu.menu_type.clone(),
        always_show: if cache_on && is_root {
            Some(true)
        } else {
            None
        },
        component: menu.component.clone(),
        hidden: visible_off,
    };
    SysMenuTree { user_menu, children: None }
}

/// Turns menu rows into router entries, one per row and in the same order.
pub fn get_menu_data(menus: Vec<MenuResp>) -> (r: Vec<SysMenuTree>)
    ensures
        r@.len() == menus@.len(),
        forall|i: int| 0 <= i < menus@.len() ==> router_entry_of(menus@[i], #[trigger] r@[i]),
{
    let mut menu_res: Vec<SysMenuTree> = Vec::new();
    let mut i: usize = 0;
    while i < menus.len()
        invariant
            i <= menus@.len(),
            menu_res@.len() == i,
            forall|k: int| 0 <= k < i ==> router_entry_of(menus@[k], #[trigger] menu_res@[k]),
        decreases menus@.len() - i,
    {
        let entry = router_entry(&menus[i]);
        menu_res.push(entry);
        i = i + 1;
    }
    menu_res
}

/// The router entries of `menus` whose parent id is `pid`, in input order.
pub open spec fn entries_under(menus: Seq<SysMenuTree>, pid: Seq<char>) -> Seq<UserMenu>
    decreases menus.len(),
{
    if menus.len() == 0 {
        Seq::empty()
    } else {
        let rest = entries_under(menus.drop_last(), pid);
        if menus.last().user_menu.pid@ == pid {
            rest.push(menus.last().user_menu)
        } else {
            rest
        }
    }
}

/// `forest` is the menu tree hanging below `pid`: its nodes are exactly the
/// entries of `menus` whose parent is `pid`, in input order, and each node
/// carries, as its children, the tree hanging below its own id.
pub open spec fn is_tree_below(forest: Seq<SysMenuTree>, menus: Seq<SysMenuTree>, pid: Seq<char>) -> bool
    decreases forest,
{
    let expected = entries_under(menus, pid);
    &&& forest.len() == expected.len()
    &&& forall|i: int|
        #![trigger forest[i]]
        0 <= i < forest.len() ==> {
            &&& forest[i].user_menu == expected[i]
            &&& forest[i].children is Some
            &&& is_tree_below(forest[i].children->0@, menus, forest[i].user_menu.id@)
        }
}

/// `rank` strictly decreases from every ranked parent to each of its children.
pub open spec fn rank_decreases(menus: Seq<SysMenuTree>, rank: spec_fn(Seq<char>) -> int) -> bool {
    forall|i: int|
        #![trigger menus[i]]
        0 <= i < menus.len() && rank(menus[i].user_menu.pid@) >= 0 ==> 0 <= rank(
            menus[i].user_menu.id@,
        ) < rank(menus[i].user_menu.pid@)
}

/// Following parent-to-child links from `pid` never returns to an id already
/// visited: some ranking of ids is defined at `pid` and falls strictly along
/// every link reachable from it.  This is exactly when building the tree below
/// `pid` terminates.
pub open spec fn tree_is_finite_below(menus: Seq<SysMenuTree>, pid: Seq<char>) -> bool {
    exists|rank: spec_fn(Seq<char>) -> int| rank(pid) >= 0 && rank_decreases(menus, rank)
}

fn build_tree_below(
    menus: &Vec<SysMenuTree>,
    pid: &String,
    Ghost(rank): Ghost<spec_fn(Seq<char>) -> int>,
) -> (r: Vec<SysMenuTree>)
    requires
        rank(pid@) >= 0,
        rank_decreases(menus@, rank),
    ensures
        is_tree_below(r@, menus@, pid@),
    decreases rank(pid@),
{
    let mut menu_tree: Vec<SysMenuTree> = Vec::new();
    let mut i: usize = 0;
    while i < menus.len()
        invariant
            i <= menus@.len(),
            rank(pid@) >= 0,
            rank_decreases(menus@, rank),
            menu_tree@.len() == entries_under(menus@.take(i as int), pid@).len(),
            forall|k: int|
                #![trigger menu_tree@[k]]
                0 <= k < menu_tree@.len() ==> {
                    &&& menu_tree@[k].user_menu == entries_under(menus@.take(i as int), pid@)[k]
                    &&& menu_tree@[k].children is Some
                    &&& is_tree_below(
                        menu_tree@[k].children->0@,
                        menus@,
                        menu_tree@[k].user_menu.id@,
                    )
                },
        decreases menus@.len() - i,
    {
        let ghost before = entries_under(menus@.take(i as int), pid@);
        proof {
            assert(menus@.take(i + 1).drop_last() =~= menus@.take(i as int));
            assert(menus@.take(i + 1).last() == menus@[i as int]);
        }
        let user_menu = &menus[i].user_menu;
        if user_menu.pid == *pid {
            assert(menus@[i as int] == menus@[i as int]);
            let children = build_tree_below(menus, &user_menu.id, Ghost(rank));
            menu_tree.push(SysMenuTree { user_menu: user_menu.clone(), children: Some(children) });
            assert(entries_under(menus@.take(i + 1), pid@) =~= before.push(menus@[i as int].user_menu));
        } else {
            assert(entries_under(menus@.take(i + 1), pid@) =~= before);
        }
        i = i + 1;
    }
    assert(menus@.take(menus@.len() as int) =~= menus@);
    menu_tree
}

/// Builds the menu tree hanging below `pid`.
pub fn get_menu_tree(user_menus: Vec<SysMenuTree>, pid: String) -> (r: Vec<SysMenuTree>)
    requires
        tree_is_finite_below(user_menus@, pid@),
    ensures
        is_tree_below(r@, user_menus@, pid@),
{
    let ghost rank = choose|rank: spec_fn(Seq<char>) -> int|
        rank(pid@) >= 0 && rank_decreases(user_menus@, rank);
    build_tree_below(&user_menus, &pid, Ghost(rank))
}

/// `i` is the first position in `depths` recorded under `key`.
pub open spec fn is_first(depths: Seq<(String, u64)>, key: Seq<char>, i: int) -> bool {
    &&& 0 <= i < depths.len()
    &&& depths[i].0@ == key
    &&& forall|j: int| 0 <= j < i ==> (#[trigger] depths[j]).0@ != key
}

/// The first position in `depths` recorded under `key`, if any.
pub open spec fn first_index(depths: Seq<(String, u64)>, key: Seq<char>) -> Option<int> {
    if exists|i: int| is_first(depths, key, i) {
        Some(choose|i: int| is_first(depths, key, i))
    } else {
        None
    }
}

/// The depth recorded for `key` in `depths`: that of the first entry under it.
pub open spec fn depth_of(depths: Seq<(String, u64)>, key: Seq<char>) -> Option<u64> {
    match first_index(depths, key) {
        Some(i) => Some(depths[i].1),
        None => None,
    }
}

/// A first position is the one `first_index` names.
proof fn lemma_first_unique(depths: Seq<(String, u64)>, key: Seq<char>, i: int)
    requires
        is_first(depths, key, i),
    ensures
        first_index(depths, key) == Some(i),
        depth_of(depths, key) == Some(depths[i].1),
{
    let j = choose|j: int| is_first(depths, key, j);
    assert(is_first(depths, key, j));
    if j < i {
        assert(depths[j].0@ != key);
    } else if i < j {
        assert(depths[i].0@ != key);
    }
}

/// Where no position holds `key`, nothing is recorded under it.
proof fn lemma_first_none(depths: Seq<(String, u64)>, key: Seq<char>)
    requires
        forall|j: int| 0 <= j < depths.len() ==> (#[trigger] depths[j]).0@ != key,
    ensures
        first_index(depths, key) is None,
        depth_of(depths, key) is None,
{
    if exists|i: int| is_first(depths, key, i) {
        let i = choose|i: int| is_first(depths, key, i);
        assert(depths[i].0@ == key);
    }
}

/// The depth recorded for `key`, and where: the first position under it.
fn find_depth(depths: &Vec<(String, u64)>, key: &str) -> (r: Option<(usize, u64)>)
    ensures
        match r {
            Some((at, d)) => is_first(depths@, key@, at as int) && d == depths@[at as int].1
                && first_index(depths@, key@) == Some(at as int) && depth_of(depths@, key@) == Some(d),
            None => first_index(depths@, key@) is None && depth_of(depths@, key@) is None,
        },
{
    let mut i: usize = 0;
    while i < depths.len()
        invariant
            i <= depths@.len(),
            forall|j: int| 0 <= j < i ==> (#[trigger] depths@[j]).0@ != key@,
        decreases depths@.len() - i,
    {
        if str_eq(depths[i].0.as_str(), key) {
            proof {
                lemma_first_unique(depths@, key@, i as int);
            }
            return Some((i, depths[i].1));
        }
        i = i + 1;
    }
    proof {
        lemma_first_none(depths@, key@);
    }
    None
}

/// The ranking read off recorded depths below a top of `top` levels: an id
/// recorded at depth `d` ranks `top - d`, an id not recorded ranks -1.
pub open spec fn rank_from_depths(depths: Seq<(String, u64)>, top: int) -> spec_fn(Seq<char>) -> int {
    |id: Seq<char>| match depth_of(depths, id) {
        Some(d) => top - d,
        None => -1,
    }
}

/// What deepening does for one entry `e`: when its parent is recorded at a
/// depth below `cap`, the entry's id is recorded one level deeper, unless it
/// is recorded that deep already (a new id is added at the end, a recorded
/// one is raised in place). The flag tells whether the depths changed.
pub open spec fn deepen_entry(depths: Seq<(String, u64)>, e: SysMenuTree, cap: u64) -> (Seq<(String, u64)>, bool) {
    match depth_of(depths, e.user_menu.pid@) {
        Some(dp) => if dp < cap {
            let want = (dp + 1) as u64;
            match first_index(depths, e.user_menu.id@) {
                None => (depths.push((e.user_menu.id, want)), true),
                Some(at) => if depths[at].1 < want {
                    (depths.update(at, (depths[at].0, want)), true)
                } else {
                    (depths, false)
                },
            }
        } else {
            (depths, false)
        },
        None => (depths, false),
    }
}

/// One pass of deepening over `entries` in order, and whether any step
/// changed the depths.
pub open spec fn deepen_pass(depths: Seq<(String, u64)>, entries: Seq<SysMenuTree>, cap: u64) -> (Seq<(String, u64)>, bool)
    decreases entries.len(),
{
    if entries.len() == 0 {
        (depths, false)
    } else {
        let before = deepen_pass(depths, entries.drop_last(), cap);
        let step = deepen_entry(before.0, entries.last(), cap);
        (step.0, before.1 || step.1)
    }
}

/// One pass of deepening over `menus`, in order, as `deepen_pass` says;
/// whether anything changed is returned.
fn deepen(menus: &Vec<SysMenuTree>, depths: &mut Vec<(String, u64)>, cap: u64) -> (changed: bool)
    ensures
        (final(depths)@, changed) == deepen_pass(old(depths)@, menus@, cap),
{
    let ghost start = depths@;
    let mut changed = false;
    let mut i: usize = 0;
    while i < menus.len()
        invariant
            i <= menus@.len(),
            (depths@, changed) == deepen_pass(start, menus@.take(i as int), cap),
        decreases menus@.len() - i,
    {
        let ghost before = depths@;
        proof {
            assert(menus@.take(i + 1).drop_last() =~= menus@.take(i as int));
            assert(menus@.take(i + 1).last() == menus@[i as int]);
        }
        let entry = &menus[i].user_menu;
        let ghost step = deepen_entry(before, menus@[i as int], cap);
        if let Some((_, dp)) = find_depth(depths, entry.pid.as_str()) {
            if dp < cap {
                let want = dp + 1;
                match find_depth(depths, entry.id.as_str()) {
                    None => {
                        depths.push((entry.id.clone(), want));
                        changed = true;
                    },
                    Some((at, di)) => {
                        if di < want {
                            let key = depths[at].0.clone();
                            depths.set(at, (key, want));
                            changed = true;
                        }
                    },
                }
            }
        }
        assert(depths@ =~= step.0);
        i = i + 1;
    }
    assert(menus@.take(menus@.len() as int) =~= menus@);
    changed
}

/// Whether the recorded depths rank `menus` below `pid`: exactly when the
/// ranking they give is defined at `pid` and falls along every link from a
/// ranked parent.
fn depths_rank(menus: &Vec<SysMenuTree>, pid: &String, depths: &Vec<(String, u64)>, top: u64) -> (r: bool)
    ensures
        r == (rank_from_depths(depths@, top as int)(pid@) >= 0 && rank_decreases(
            menus@,
            rank_from_depths(depths@, top as int),
        )),
{
    let ghost rank = rank_from_depths(depths@, top as int);
    match find_depth(depths, pid.as_str()) {
        Some((_, d)) => {
            if d > top {
                return false;
            }
        },
        None => {
            return false;
        },
    }
    let mut i: usize = 0;
    while i < menus.len()
        invariant
            i <= menus@.len(),
            rank == rank_from_depths(depths@, top as int),
            forall|k: int|
                #![trigger menus@[k]]
                0 <= k < i && rank(menus@[k].user_menu.pid@) >= 0 ==> 0 <= rank(
                    menus@[k].user_menu.id@,
                ) < rank(menus@[k].user_menu.pid@),
        decreases menus@.len() - i,
    {
        let entry = &menus[i].user_menu;
        proof {
            assert(menus@[i as int].user_menu == *entry);
        }
        let parent = find_depth(depths, entry.pid.as_str());
        let own = find_depth(depths, entry.id.as_str());
        match parent {
            Some((_, dp)) => {
                if dp <= top {
                    match own {
                        Some((_, di)) => {
                            if !(dp < di && di <= top) {
                                assert(!rank_decreases(menus@, rank));
                                return false;
                            }
                        },
                        None => {
                            assert(!rank_decreases(menus@, rank));
                            return false;
                        },
                    }
                }
            },
            None => {},
        }
        i = i + 1;
    }
    true
}

/// Every path of links that goes down from `x` in `menus` has fewer than
/// `f` links.
pub open spec fn paths_shorter(menus: Seq<SysMenuTree>, x: Seq<char>, f: nat) -> bool
    decreases f,
{
    f > 0 && forall|i: int|
        0 <= i < menus.len() && (#[trigger] menus[i]).user_menu.pid@ == x ==> paths_shorter(
            menus,
            menus[i].user_menu.id@,
            (f - 1) as nat,
        )
}

/// Whether every path down from `x` has fewer than `f` links.
fn paths_shorter_check(menus: &Vec<SysMenuTree>, x: &String, f: u128) -> (r: bool)
    ensures
        r == paths_shorter(menus@, x@, f as nat),
    decreases f,
{
    if f == 0 {
        return false;
    }
    let mut i: usize = 0;
    while i < menus.len()
        invariant
            0 < f,
            i <= menus@.len(),
            forall|k: int|
                0 <= k < i && (#[trigger] menus@[k]).user_menu.pid@ == x@ ==> paths_shorter(
                    menus@,
                    menus@[k].user_menu.id@,
                    (f - 1) as nat,
                ),
        decreases menus@.len() - i,
    {
        let entry = &menus[i].user_menu;
        proof {
            assert(menus@[i as int].user_menu == *entry);
        }
        if str_eq(entry.pid.as_str(), x.as_str()) {
            if !paths_shorter_check(menus, &entry.id, f - 1) {
                return false;
            }
        }
        i = i + 1;
    }
    true
}

/// A bound on path lengths holds for every larger bound too.
proof fn lemma_paths_shorter_grow(menus: Seq<SysMenuTree>, x: Seq<char>, f: nat, g: nat)
    requires
        paths_shorter(menus, x, f),
        f <= g,
    ensures
        paths_shorter(menus, x, g),
    decreases f,
{
    assert forall|i: int|
        0 <= i < menus.len() && (#[trigger] menus[i]).user_menu.pid@ == x implies paths_shorter(
            menus,
            menus[i].user_menu.id@,
            (g - 1) as nat,
        ) by {
        lemma_paths_shorter_grow(menus, menus[i].user_menu.id@, (f - 1) as nat, (g - 1) as nat);
    }
}

/// The entries whose link falls from a ranked parent to an id ranked below `x`.
pub open spec fn links_below(menus: Seq<SysMenuTree>, rank: spec_fn(Seq<char>) -> int, x: Seq<char>) -> Set<int> {
    Set::new(
        |i: int|
            0 <= i < menus.len() && rank(menus[i].user_menu.pid@) >= 0 && rank(menus[i].user_menu.id@)
                < rank(x),
    )
}

/// Below a ranked `x`, every path is shorter than the number of links that
/// fall below its rank, plus one.
proof fn lemma_ranked_paths_shorter(menus: Seq<SysMenuTree>, rank: spec_fn(Seq<char>) -> int, x: Seq<char>)
    requires
        rank_decreases(menus, rank),
        rank(x) >= 0,
    ensures
        links_below(menus, rank, x).finite(),
        links_below(menus, rank, x).len() <= menus.len(),
        paths_shorter(menus, x, links_below(menus, rank, x).len() + 1),
    decreases rank(x),
{
    let below = links_below(menus, rank, x);
    lemma_int_range(0, menus.len() as int);
    lemma_len_subset(below, set_int_range(0, menus.len() as int));
    let f = below.len() + 1;
    assert forall|i: int|
        0 <= i < menus.len() && (#[trigger] menus[i]).user_menu.pid@ == x implies paths_shorter(
            menus,
            menus[i].user_menu.id@,
            (f - 1) as nat,
        ) by {
        let y = menus[i].user_menu.id@;
        assert(0 <= rank(y) < rank(x));
        lemma_ranked_paths_shorter(menus, rank, y);
        let sub = links_below(menus, rank, y);
        assert(below.contains(i));
        assert(sub.subset_of(below.remove(i)));
        lemma_len_subset(sub, below.remove(i));
        lemma_paths_shorter_grow(menus, y, sub.len() + 1, (f - 1) as nat);
    }
}

/// The least bound among `1..=k` that the paths down from `y` stay under,
/// or -1 when there is none.
pub open spec fn least_bound(menus: Seq<SysMenuTree>, y: Seq<char>, k: nat) -> int
    decreases k,
{
    if k == 0 {
        -1
    } else if least_bound(menus, y, (k - 1) as nat) >= 0 {
        least_bound(menus, y, (k - 1) as nat)
    } else if paths_shorter(menus, y, k) {
        k as int
    } else {
        -1
    }
}

proof fn lemma_least_bound(menus: Seq<SysMenuTree>, y: Seq<char>, k: nat, g: nat)
    ensures
        least_bound(menus, y, k) >= 0 ==> 1 <= least_bound(menus, y, k) <= k && paths_shorter(
            menus,
            y,
            least_bound(menus, y, k) as nat,
        ),
        paths_shorter(menus, y, g) && g <= k ==> 0 <= least_bound(menus, y, k) <= g,
    decreases k,
{
    if k > 0 {
        lemma_least_bound(menus, y, (k - 1) as nat, g);
    }
}

/// Building the tree below `pid` terminates exactly when every path down
/// from `pid` has at most as many links as there are entries.
proof fn lemma_finite_iff_paths_shorter(menus: Seq<SysMenuTree>, pid: Seq<char>)
    ensures
        tree_is_finite_below(menus, pid) == paths_shorter(menus, pid, menus.len() + 1),
{
    let n = menus.len() + 1;
    if tree_is_finite_below(menus, pid) {
        let rank = choose|rank: spec_fn(Seq<char>) -> int| rank(pid) >= 0 && rank_decreases(menus, rank);
        lemma_ranked_paths_shorter(menus, rank, pid);
        lemma_paths_shorter_grow(menus, pid, links_below(menus, rank, pid).len() + 1, n);
    }
    if paths_shorter(menus, pid, n) {
        let rank = |y: Seq<char>| least_bound(menus, y, n);
        lemma_least_bound(menus, pid, n, n);
        assert forall|i: int|
            #![trigger menus[i]]
            0 <= i < menus.len() && rank(menus[i].user_menu.pid@) >= 0 implies 0 <= rank(
                menus[i].user_menu.id@,
            ) < rank(menus[i].user_menu.pid@) by {
            let p = menus[i].user_menu.pid@;
            let c = menus[i].user_menu.id@;
            lemma_least_bound(menus, p, n, n);
            let g = least_bound(menus, p, n) as nat;
            assert(paths_shorter(menus, p, g));
            assert(paths_shorter(menus, c, (g - 1) as nat));
            lemma_least_bound(menus, c, n, (g - 1) as nat);
        }
        assert(rank(pid) >= 0 && rank_decreases(menus, rank));
    }
}

/// Whether building the tree below `pid` from `menus` terminates. The
/// depths of the entries are first worked out pass by pass; when they rank
/// the entries the answer is yes, and otherwise every path down from `pid`
/// is followed to see whether any is longer than the number of entries.
pub fn tree_is_ranked_below(menus: &Vec<SysMenuTree>, pid: &String) -> (r: bool)
    ensures
        r == tree_is_finite_below(menus@, pid@),
{
    proof {
        lemma_finite_iff_paths_shorter(menus@, pid@);
    }
    let n = menus.len() as u64;
    if n < u64::MAX - 2 {
        let top: u64 = n + 1;
        let mut depths: Vec<(String, u64)> = Vec::new();
        depths.push((pid.clone(), 0));
        let mut round: u64 = 0;
        while round <= top
            invariant
                top < u64::MAX,
                round <= top + 1,
            decreases top + 1 - round,
        {
            if !deepen(menus, &mut depths, top) {
                break;
            }
            round = round + 1;
        }
        if depths_rank(menus, pid, &depths, top) {
            return true;
        }
    }
    paths_shorter_check(menus, pid, (menus.len() as u128) + 1)
}

/// The menu tree below `pid`, when building it terminates; nothing when the
/// links from `pid` run into a loop.
pub fn get_menu_tree_checked(user_menus: Vec<SysMenuTree>, pid: String) -> (r: Option<Vec<SysMenuTree>>)
    ensures
        r is Some <==> tree_is_finite_below(user_menus@, pid@),
        r matches Some(tree) ==> is_tree_below(tree@, user_menus@, pid@),
{
    if tree_is_ranked_below(&user_menus, &pid) {
        Some(get_menu_tree(user_menus, pid))
    } else {
        None
    }
}

} // verus!
