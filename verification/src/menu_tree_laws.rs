//! What the menu tree holds: when menu ids are distinct, every menu that can
//! be reached from the top by parent-to-child links stands in the tree
//! exactly once, and no other menu stands in it.
use vstd::prelude::*;
use crate::menu::{entries_under, is_tree_below, rank_decreases, tree_is_finite_below, SysMenuTree};

verus! {

/// The number of places the id `y` stands in `forest`, at any depth.
pub open spec fn occurrences(forest: Seq<SysMenuTree>, y: Seq<char>) -> nat
    decreases forest,
{
    if forest.len() == 0 {
        0
    } else {
        let t = forest[forest.len() - 1];
        occurrences(forest.drop_last(), y) + (if t.user_menu.id@ == y {
            1nat
        } else {
            0nat
        }) + match t.children {
            Some(c) => occurrences(c@, y),
            None => 0nat,
        }
    }
}

/// The entry `i` of `menus` is reached from the id `x` in fewer than `f`
/// parent-to-child links.
pub open spec fn reaches(menus: Seq<SysMenuTree>, x: Seq<char>, i: int, f: nat) -> bool
    decreases f,
{
    f > 0 && (menus[i].user_menu.pid@ == x || exists|k: int|
        0 <= k < menus.len() && (#[trigger] menus[k]).user_menu.pid@ == x && reaches(
            menus,
            menus[k].user_menu.id@,
            i,
            (f - 1) as nat,
        ))
}

/// The entry `i` of `menus` can be reached from the id `x`.
pub open spec fn reachable(menus: Seq<SysMenuTree>, x: Seq<char>, i: int) -> bool {
    exists|f: nat| #[trigger] reaches(menus, x, i, f)
}

/// No two entries of `menus` share an id.
pub open spec fn menu_ids_distinct(menus: Seq<SysMenuTree>) -> bool {
    forall|a: int, b: int|
        0 <= a < menus.len() && 0 <= b < menus.len() && a != b ==> (#[trigger] menus[a]).user_menu.id@
            != (#[trigger] menus[b]).user_menu.id@
}

/// Along links from a ranked id the rank falls.
proof fn lemma_reach_rank(menus: Seq<SysMenuTree>, rank: spec_fn(Seq<char>) -> int, y: Seq<char>, i: int, f: nat)
    requires
        rank_decreases(menus, rank),
        rank(y) >= 0,
        0 <= i < menus.len(),
        reaches(menus, y, i, f),
    ensures
        0 <= rank(menus[i].user_menu.id@) < rank(y),
    decreases f,
{
    if menus[i].user_menu.pid@ != y {
        let k = choose|k: int|
            0 <= k < menus.len() && (#[trigger] menus[k]).user_menu.pid@ == y && reaches(
                menus,
                menus[k].user_menu.id@,
                i,
                (f - 1) as nat,
            );
        assert(0 <= rank(menus[k].user_menu.id@) < rank(y));
        lemma_reach_rank(menus, rank, menus[k].user_menu.id@, i, (f - 1) as nat);
    }
}

/// A reached entry whose parent is not where the links started has a
/// reached parent entry.
proof fn lemma_reach_up(menus: Seq<SysMenuTree>, y: Seq<char>, i: int, f: nat)
    requires
        0 <= i < menus.len(),
        reaches(menus, y, i, f),
        menus[i].user_menu.pid@ != y,
    ensures
        exists|p: int|
            0 <= p < menus.len() && (#[trigger] menus[p]).user_menu.id@ == menus[i].user_menu.pid@
                && reaches(menus, y, p, (f - 1) as nat),
    decreases f,
{
    let k = choose|k: int|
        0 <= k < menus.len() && (#[trigger] menus[k]).user_menu.pid@ == y && reaches(
            menus,
            menus[k].user_menu.id@,
            i,
            (f - 1) as nat,
        );
    let z = menus[k].user_menu.id@;
    if menus[i].user_menu.pid@ == z {
        assert(reaches(menus, y, k, (f - 1) as nat));
    } else {
        lemma_reach_up(menus, z, i, (f - 1) as nat);
        let p = choose|p: int|
            0 <= p < menus.len() && (#[trigger] menus[p]).user_menu.id@ == menus[i].user_menu.pid@
                && reaches(menus, z, p, (f - 2) as nat);
        assert(reaches(menus, y, p, (f - 1) as nat));
    }
}

/// Two ids that both reach the same entry lie on one line: they are equal,
/// or one reaches the entry of the other.
proof fn lemma_reach_comparable(menus: Seq<SysMenuTree>, a: Seq<char>, b: Seq<char>, i: int, f: nat, g: nat)
    requires
        menu_ids_distinct(menus),
        0 <= i < menus.len(),
        reaches(menus, a, i, f),
        reaches(menus, b, i, g),
    ensures
        a == b || (exists|kb: int|
            0 <= kb < menus.len() && (#[trigger] menus[kb]).user_menu.id@ == b && reachable(
                menus,
                a,
                kb,
            )) || (exists|ka: int|
            0 <= ka < menus.len() && (#[trigger] menus[ka]).user_menu.id@ == a && reachable(
                menus,
                b,
                ka,
            )),
    decreases f + g,
{
    let pid = menus[i].user_menu.pid@;
    if pid == a && pid == b {
    } else if pid == a {
        lemma_reach_up(menus, b, i, g);
        let p = choose|p: int|
            0 <= p < menus.len() && (#[trigger] menus[p]).user_menu.id@ == pid && reaches(
                menus,
                b,
                p,
                (g - 1) as nat,
            );
        assert(reachable(menus, b, p));
    } else if pid == b {
        lemma_reach_up(menus, a, i, f);
        let p = choose|p: int|
            0 <= p < menus.len() && (#[trigger] menus[p]).user_menu.id@ == pid && reaches(
                menus,
                a,
                p,
                (f - 1) as nat,
            );
        assert(reachable(menus, a, p));
    } else {
        lemma_reach_up(menus, a, i, f);
        lemma_reach_up(menus, b, i, g);
        let p = choose|p: int|
            0 <= p < menus.len() && (#[trigger] menus[p]).user_menu.id@ == pid && reaches(
                menus,
                a,
                p,
                (f - 1) as nat,
            );
        let q = choose|q: int|
            0 <= q < menus.len() && (#[trigger] menus[q]).user_menu.id@ == pid && reaches(
                menus,
                b,
                q,
                (g - 1) as nat,
            );
        assert(p == q);
        lemma_reach_comparable(menus, a, b, p, (f - 1) as nat, (g - 1) as nat);
    }
}

/// Every place of `entries_under(menus, x)` holds an entry of `menus` whose
/// parent is `x`, and every such entry has a place.
proof fn lemma_entries_under(menus: Seq<SysMenuTree>, x: Seq<char>)
    ensures
        forall|j: int|
            0 <= j < entries_under(menus, x).len() ==> exists|k: int|
                0 <= k < menus.len() && menus[k].user_menu.pid@ == x && #[trigger] entries_under(
                    menus,
                    x,
                )[j] == menus[k].user_menu,
        forall|k: int|
            0 <= k < menus.len() && (#[trigger] menus[k]).user_menu.pid@ == x ==> exists|j: int|
                0 <= j < entries_under(menus, x).len() && entries_under(menus, x)[j]
                    == menus[k].user_menu,
        menu_ids_distinct(menus) ==> forall|j1: int, j2: int|
            0 <= j1 < entries_under(menus, x).len() && 0 <= j2 < entries_under(menus, x).len() && j1
                != j2 ==> (#[trigger] entries_under(menus, x)[j1]).id@ != (#[trigger] entries_under(
                menus,
                x,
            )[j2]).id@,
    decreases menus.len(),
{
    if menus.len() > 0 {
        let rest = menus.drop_last();
        let n = menus.len() - 1;
        lemma_entries_under(rest, x);
        let e = entries_under(menus, x);
        let er = entries_under(rest, x);
        assert forall|j: int| 0 <= j < e.len() implies exists|k: int|
            0 <= k < menus.len() && menus[k].user_menu.pid@ == x && #[trigger] e[j]
                == menus[k].user_menu by {
            if j < er.len() {
                let k = choose|k: int|
                    0 <= k < rest.len() && rest[k].user_menu.pid@ == x && #[trigger] er[j]
                        == rest[k].user_menu;
                assert(menus[k] == rest[k]);
            } else {
                assert(e[j] == menus[n].user_menu);
            }
        }
        assert forall|k: int| 0 <= k < menus.len() && (#[trigger] menus[k]).user_menu.pid@ == x implies exists|j: int|
            0 <= j < e.len() && e[j] == menus[k].user_menu by {
            if k < n {
                assert(rest[k] == menus[k]);
                let j = choose|j: int| 0 <= j < er.len() && er[j] == rest[k].user_menu;
                assert(e[j] == er[j]);
            } else {
                assert(e[er.len() as int] == menus[n].user_menu);
            }
        }
        if menu_ids_distinct(menus) {
            assert(menu_ids_distinct(rest)) by {
                assert forall|a: int, b: int|
                    0 <= a < rest.len() && 0 <= b < rest.len() && a != b implies (#[trigger] rest[a]).user_menu.id@
                        != (#[trigger] rest[b]).user_menu.id@ by {
                    assert(rest[a] == menus[a] && rest[b] == menus[b]);
                }
            }
            assert forall|j1: int, j2: int|
                0 <= j1 < e.len() && 0 <= j2 < e.len() && j1 != j2 implies (#[trigger] e[j1]).id@
                    != (#[trigger] e[j2]).id@ by {
                if j1 < er.len() && j2 < er.len() {
                    assert(e[j1] == er[j1] && e[j2] == er[j2]);
                } else if j1 < er.len() {
                    let k = choose|k: int|
                        0 <= k < rest.len() && rest[k].user_menu.pid@ == x && #[trigger] er[j1]
                            == rest[k].user_menu;
                    assert(e[j1] == er[j1]);
                    assert(menus[k] == rest[k]);
                    assert(e[j2] == menus[n].user_menu);
                } else {
                    let k = choose|k: int|
                        0 <= k < rest.len() && rest[k].user_menu.pid@ == x && #[trigger] er[j2]
                            == rest[k].user_menu;
                    assert(e[j2] == er[j2]);
                    assert(menus[k] == rest[k]);
                    assert(e[j1] == menus[n].user_menu);
                }
            }
        }
    }
}

/// How many top-level nodes of `forest` carry the id `y`.
spec fn top_count(forest: Seq<SysMenuTree>, y: Seq<char>) -> nat
    decreases forest.len(),
{
    if forest.len() == 0 {
        0
    } else {
        top_count(forest.drop_last(), y) + if forest[forest.len() - 1].user_menu.id@ == y {
            1nat
        } else {
            0nat
        }
    }
}

/// How many top-level nodes of `forest` carry an id from which the entry `i`
/// of `menus` can be reached.
spec fn reach_count(forest: Seq<SysMenuTree>, menus: Seq<SysMenuTree>, i: int) -> nat
    decreases forest.len(),
{
    if forest.len() == 0 {
        0
    } else {
        reach_count(forest.drop_last(), menus, i) + if reachable(
            menus,
            forest[forest.len() - 1].user_menu.id@,
            i,
        ) {
            1nat
        } else {
            0nat
        }
    }
}

/// The places of an id in a forest are its top-level places and its places
/// in the subtrees, when each subtree holds it once if it is reachable from
/// the subtree's root and not otherwise.
proof fn lemma_occurrences_split(forest: Seq<SysMenuTree>, menus: Seq<SysMenuTree>, i: int)
    requires
        0 <= i < menus.len(),
        forall|j: int|
            0 <= j < forest.len() ==> match (#[trigger] forest[j]).children {
                Some(c) => occurrences(c@, menus[i].user_menu.id@) == if reachable(
                    menus,
                    forest[j].user_menu.id@,
                    i,
                ) {
                    1nat
                } else {
                    0nat
                },
                None => false,
            },
    ensures
        occurrences(forest, menus[i].user_menu.id@) == top_count(forest, menus[i].user_menu.id@)
            + reach_count(forest, menus, i),
    decreases forest.len(),
{
    if forest.len() > 0 {
        let rest = forest.drop_last();
        assert forall|j: int| 0 <= j < rest.len() implies match (#[trigger] rest[j]).children {
            Some(c) => occurrences(c@, menus[i].user_menu.id@) == if reachable(
                menus,
                rest[j].user_menu.id@,
                i,
            ) {
                1nat
            } else {
                0nat
            },
            None => false,
        } by {
            assert(rest[j] == forest[j]);
        }
        lemma_occurrences_split(rest, menus, i);
        let last = forest[forest.len() - 1];
        assert(last == forest[forest.len() - 1]);
    }
}

/// With distinct top-level ids, an id stands at the top level once if some
/// node carries it and not otherwise.
proof fn lemma_top_count(forest: Seq<SysMenuTree>, y: Seq<char>)
    requires
        forall|j1: int, j2: int|
            0 <= j1 < forest.len() && 0 <= j2 < forest.len() && j1 != j2 ==> (#[trigger] forest[j1]).user_menu.id@
                != (#[trigger] forest[j2]).user_menu.id@,
    ensures
        top_count(forest, y) == if exists|j: int| 0 <= j < forest.len() && (#[trigger] forest[j]).user_menu.id@ == y {
            1nat
        } else {
            0nat
        },
    decreases forest.len(),
{
    if forest.len() > 0 {
        let rest = forest.drop_last();
        let n = forest.len() - 1;
        assert forall|j1: int, j2: int|
            0 <= j1 < rest.len() && 0 <= j2 < rest.len() && j1 != j2 implies (#[trigger] rest[j1]).user_menu.id@
                != (#[trigger] rest[j2]).user_menu.id@ by {
            assert(rest[j1] == forest[j1] && rest[j2] == forest[j2]);
        }
        lemma_top_count(rest, y);
        if forest[n].user_menu.id@ == y {
            if exists|j: int| 0 <= j < rest.len() && (#[trigger] rest[j]).user_menu.id@ == y {
                let j = choose|j: int| 0 <= j < rest.len() && (#[trigger] rest[j]).user_menu.id@ == y;
                assert(forest[j] == rest[j]);
            }
        } else {
            if exists|j: int| 0 <= j < forest.len() && (#[trigger] forest[j]).user_menu.id@ == y {
                let j = choose|j: int| 0 <= j < forest.len() && (#[trigger] forest[j]).user_menu.id@ == y;
                assert(rest[j] == forest[j]);
            }
            if exists|j: int| 0 <= j < rest.len() && (#[trigger] rest[j]).user_menu.id@ == y {
                let j = choose|j: int| 0 <= j < rest.len() && (#[trigger] rest[j]).user_menu.id@ == y;
                assert(forest[j] == rest[j]);
            }
        }
    }
}

/// When at most one top-level id reaches the entry `i`, it is counted once
/// if one does and not otherwise.
proof fn lemma_reach_count(forest: Seq<SysMenuTree>, menus: Seq<SysMenuTree>, i: int)
    requires
        forall|j1: int, j2: int|
            0 <= j1 < forest.len() && 0 <= j2 < forest.len() && j1 != j2 ==> !(reachable(
                menus,
                (#[trigger] forest[j1]).user_menu.id@,
                i,
            ) && reachable(menus, (#[trigger] forest[j2]).user_menu.id@, i)),
    ensures
        reach_count(forest, menus, i) == if exists|j: int|
            0 <= j < forest.len() && reachable(menus, (#[trigger] forest[j]).user_menu.id@, i) {
            1nat
        } else {
            0nat
        },
    decreases forest.len(),
{
    if forest.len() > 0 {
        let rest = forest.drop_last();
        let n = forest.len() - 1;
        assert forall|j1: int, j2: int|
            0 <= j1 < rest.len() && 0 <= j2 < rest.len() && j1 != j2 implies !(reachable(
                menus,
                (#[trigger] rest[j1]).user_menu.id@,
                i,
            ) && reachable(menus, (#[trigger] rest[j2]).user_menu.id@, i)) by {
            assert(rest[j1] == forest[j1] && rest[j2] == forest[j2]);
        }
        lemma_reach_count(rest, menus, i);
        if reachable(menus, forest[n].user_menu.id@, i) {
            if exists|j: int| 0 <= j < rest.len() && reachable(menus, (#[trigger] rest[j]).user_menu.id@, i) {
                let j = choose|j: int|
                    0 <= j < rest.len() && reachable(menus, (#[trigger] rest[j]).user_menu.id@, i);
                assert(forest[j] == rest[j]);
            }
        } else {
            if exists|j: int| 0 <= j < forest.len() && reachable(menus, (#[trigger] forest[j]).user_menu.id@, i) {
                let j = choose|j: int|
                    0 <= j < forest.len() && reachable(menus, (#[trigger] forest[j]).user_menu.id@, i);
                assert(rest[j] == forest[j]);
            }
            if exists|j: int| 0 <= j < rest.len() && reachable(menus, (#[trigger] rest[j]).user_menu.id@, i) {
                let j = choose|j: int|
                    0 <= j < rest.len() && reachable(menus, (#[trigger] rest[j]).user_menu.id@, i);
                assert(forest[j] == rest[j]);
            }
        }
    }
}

/// The tree below a ranked `x` holds each entry once if the entry can be
/// reached from `x` and not otherwise.
proof fn lemma_tree_occurrences(
    menus: Seq<SysMenuTree>,
    rank: spec_fn(Seq<char>) -> int,
    x: Seq<char>,
    forest: Seq<SysMenuTree>,
    i: int,
)
    requires
        menu_ids_distinct(menus),
        rank_decreases(menus, rank),
        rank(x) >= 0,
        is_tree_below(forest, menus, x),
        0 <= i < menus.len(),
    ensures
        occurrences(forest, menus[i].user_menu.id@) == if reachable(menus, x, i) {
            1nat
        } else {
            0nat
        },
    decreases rank(x),
{
    let y = menus[i].user_menu.id@;
    let e = entries_under(menus, x);
    lemma_entries_under(menus, x);
    // Each top-level node is an entry whose parent is `x`.
    assert forall|j: int| 0 <= j < forest.len() implies #[trigger] node_entry(menus, x, forest[j]) by {
        assert(forest[j].user_menu == e[j]);
        let k = choose|k: int|
            0 <= k < menus.len() && menus[k].user_menu.pid@ == x && #[trigger] e[j]
                == menus[k].user_menu;
        assert(menus[k].user_menu.pid@ == x);
    }
    // The subtrees, by induction.
    assert forall|j: int| 0 <= j < forest.len() implies match (#[trigger] forest[j]).children {
        Some(c) => occurrences(c@, y) == if reachable(menus, forest[j].user_menu.id@, i) {
            1nat
        } else {
            0nat
        },
        None => false,
    } by {
        let k = choose|k: int|
            0 <= k < menus.len() && (#[trigger] menus[k]).user_menu.pid@ == x && forest[j].user_menu
                == menus[k].user_menu;
        assert(0 <= rank(menus[k].user_menu.id@) < rank(x));
        lemma_tree_occurrences(menus, rank, forest[j].user_menu.id@, forest[j].children->0@, i);
    }
    lemma_occurrences_split(forest, menus, i);
    // Top-level ids are distinct.
    assert forall|j1: int, j2: int|
        0 <= j1 < forest.len() && 0 <= j2 < forest.len() && j1 != j2 implies (#[trigger] forest[j1]).user_menu.id@
            != (#[trigger] forest[j2]).user_menu.id@ by {
        assert(forest[j1].user_menu == e[j1] && forest[j2].user_menu == e[j2]);
    }
    lemma_top_count(forest, y);
    // At most one top-level id reaches `i`.
    assert forall|j1: int, j2: int|
        0 <= j1 < forest.len() && 0 <= j2 < forest.len() && j1 != j2 implies !(reachable(
            menus,
            (#[trigger] forest[j1]).user_menu.id@,
            i,
        ) && reachable(menus, (#[trigger] forest[j2]).user_menu.id@, i)) by {
        if reachable(menus, forest[j1].user_menu.id@, i) && reachable(menus, forest[j2].user_menu.id@, i) {
            let a = forest[j1].user_menu.id@;
            let b = forest[j2].user_menu.id@;
            assert(forest[j1].user_menu == e[j1] && forest[j2].user_menu == e[j2]);
            let ka = choose|k: int|
                0 <= k < menus.len() && (#[trigger] menus[k]).user_menu.pid@ == x && forest[j1].user_menu
                    == menus[k].user_menu;
            let kb = choose|k: int|
                0 <= k < menus.len() && (#[trigger] menus[k]).user_menu.pid@ == x && forest[j2].user_menu
                    == menus[k].user_menu;
            let f = choose|f: nat| #[trigger] reaches(menus, a, i, f);
            let g = choose|g: nat| #[trigger] reaches(menus, b, i, g);
            lemma_reach_comparable(menus, a, b, i, f, g);
            assert(0 <= rank(a) < rank(x));
            assert(0 <= rank(b) < rank(x));
            if exists|k: int| 0 <= k < menus.len() && (#[trigger] menus[k]).user_menu.id@ == b && reachable(menus, a, k) {
                let k = choose|k: int| 0 <= k < menus.len() && (#[trigger] menus[k]).user_menu.id@ == b && reachable(menus, a, k);
                assert(k == kb);
                lemma_sibling_unreachable(menus, rank, x, a, kb);
            } else if exists|k: int| 0 <= k < menus.len() && (#[trigger] menus[k]).user_menu.id@ == a && reachable(menus, b, k) {
                let k = choose|k: int| 0 <= k < menus.len() && (#[trigger] menus[k]).user_menu.id@ == a && reachable(menus, b, k);
                assert(k == ka);
                lemma_sibling_unreachable(menus, rank, x, b, ka);
            }
        }
    }
    lemma_reach_count(forest, menus, i);
    // Reaching `i` from `x`: directly, or through exactly one top-level node.
    if menus[i].user_menu.pid@ == x {
        assert(reaches(menus, x, i, 1));
        assert(exists|j: int| 0 <= j < forest.len() && (#[trigger] forest[j]).user_menu.id@ == y) by {
            let j = choose|j: int| 0 <= j < e.len() && e[j] == menus[i].user_menu;
            assert(forest[j].user_menu == e[j]);
        }
        if exists|j: int| 0 <= j < forest.len() && reachable(menus, (#[trigger] forest[j]).user_menu.id@, i) {
            let j = choose|j: int|
                0 <= j < forest.len() && reachable(menus, (#[trigger] forest[j]).user_menu.id@, i);
            let k = choose|k: int|
                0 <= k < menus.len() && (#[trigger] menus[k]).user_menu.pid@ == x && forest[j].user_menu
                    == menus[k].user_menu;
            assert(0 <= rank(menus[k].user_menu.id@) < rank(x));
            lemma_sibling_unreachable(menus, rank, x, menus[k].user_menu.id@, i);
        }
    } else {
        if exists|j: int| 0 <= j < forest.len() && (#[trigger] forest[j]).user_menu.id@ == y {
            let j = choose|j: int| 0 <= j < forest.len() && (#[trigger] forest[j]).user_menu.id@ == y;
            let k = choose|k: int|
                0 <= k < menus.len() && (#[trigger] menus[k]).user_menu.pid@ == x && forest[j].user_menu
                    == menus[k].user_menu;
            assert(k == i);
        }
        if reachable(menus, x, i) {
            let f = choose|f: nat| #[trigger] reaches(menus, x, i, f);
            let k = choose|k: int|
                0 <= k < menus.len() && (#[trigger] menus[k]).user_menu.pid@ == x && reaches(
                    menus,
                    menus[k].user_menu.id@,
                    i,
                    (f - 1) as nat,
                );
            assert(reachable(menus, menus[k].user_menu.id@, i));
            let j = choose|j: int| 0 <= j < e.len() && e[j] == menus[k].user_menu;
            assert(forest[j].user_menu == e[j]);
            assert(reachable(menus, forest[j].user_menu.id@, i));
        }
        if exists|j: int| 0 <= j < forest.len() && reachable(menus, (#[trigger] forest[j]).user_menu.id@, i) {
            let j = choose|j: int|
                0 <= j < forest.len() && reachable(menus, (#[trigger] forest[j]).user_menu.id@, i);
            let k = choose|k: int|
                0 <= k < menus.len() && (#[trigger] menus[k]).user_menu.pid@ == x && forest[j].user_menu
                    == menus[k].user_menu;
            let f = choose|f: nat| #[trigger] reaches(menus, menus[k].user_menu.id@, i, f);
            assert(reaches(menus, x, i, f + 1));
        }
    }
}

/// The node `t` carries an entry of `menus` whose parent is `x`.
spec fn node_entry(menus: Seq<SysMenuTree>, x: Seq<char>, t: SysMenuTree) -> bool {
    exists|k: int|
        0 <= k < menus.len() && (#[trigger] menus[k]).user_menu.pid@ == x && t.user_menu
            == menus[k].user_menu
}

/// An entry whose parent is `x` cannot be reached from an id `a` that is
/// itself ranked below `x`.
proof fn lemma_sibling_unreachable(
    menus: Seq<SysMenuTree>,
    rank: spec_fn(Seq<char>) -> int,
    x: Seq<char>,
    a: Seq<char>,
    k: int,
)
    requires
        rank_decreases(menus, rank),
        0 <= rank(a) < rank(x),
        0 <= k < menus.len(),
        menus[k].user_menu.pid@ == x,
    ensures
        !reachable(menus, a, k),
{
    if reachable(menus, a, k) {
        let f = choose|f: nat| #[trigger] reaches(menus, a, k, f);
        if x == a {
        } else {
            lemma_reach_up(menus, a, k, f);
            let p = choose|p: int|
                0 <= p < menus.len() && (#[trigger] menus[p]).user_menu.id@ == menus[k].user_menu.pid@
                    && reaches(menus, a, p, (f - 1) as nat);
            lemma_reach_rank(menus, rank, a, p, (f - 1) as nat);
        }
    }
}

/// The menu tree holds every reachable menu exactly once: when no two menus
/// share an id and the tree below `pid` is finite, each menu stands in the
/// tree `forest` built below `pid` once if it can be reached from `pid` by
/// parent-to-child links, and not at all otherwise.
pub proof fn lemma_tree_holds_each_reachable_once(menus: Seq<SysMenuTree>, pid: Seq<char>, forest: Seq<SysMenuTree>)
    requires
        menu_ids_distinct(menus),
        tree_is_finite_below(menus, pid),
        is_tree_below(forest, menus, pid),
    ensures
        forall|i: int|
            0 <= i < menus.len() ==> occurrences(forest, (#[trigger] menus[i]).user_menu.id@) == if reachable(
                menus,
                pid,
                i,
            ) {
                1nat
            } else {
                0nat
            },
{
    let rank = choose|rank: spec_fn(Seq<char>) -> int| rank(pid) >= 0 && rank_decreases(menus, rank);
    assert forall|i: int| 0 <= i < menus.len() implies occurrences(forest, (#[trigger] menus[i]).user_menu.id@)
        == if reachable(menus, pid, i) {
        1nat
    } else {
        0nat
    } by {
        lemma_tree_occurrences(menus, rank, pid, forest, i);
    }
}

} // verus!
