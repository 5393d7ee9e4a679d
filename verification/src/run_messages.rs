//! The messages that running scripts post: each run is opened under its id
//! with the entry `code: 200`, a script's `add_msg` adds an entry to its
//! run, and when the run ends its entries are taken out as its result.
use vstd::prelude::*;
use crate::runtime::MsgArgs;
use crate::text::str_eq;

verus! {

/// The entries posted to one run, in the order they were posted.
#[derive(Debug)]
pub struct RunEntry {
    pub id: String,
    pub messages: Vec<(String, String)>,
}

/// The runs that are open, each with what was posted to it.
pub struct RunMessages {
    runs: Vec<RunEntry>,
}

/// An entry as text: its key and its message.
pub open spec fn entry_view(p: (String, String)) -> (Seq<char>, Seq<char>) {
    (p.0@, p.1@)
}

/// The entries of a run as text.
pub open spec fn entries_view(v: Vec<(String, String)>) -> Seq<(Seq<char>, Seq<char>)> {
    v@.map_values(|p: (String, String)| entry_view(p))
}

/// The object a run's entries make when they are inserted in order: a later
/// entry under a key replaces an earlier one.
pub open spec fn inserted(entries: Seq<(Seq<char>, Seq<char>)>) -> Map<Seq<char>, Seq<char>>
    decreases entries.len(),
{
    if entries.len() == 0 {
        Map::empty()
    } else {
        inserted(entries.drop_last()).insert(entries.last().0, entries.last().1)
    }
}

/// The entries a run is opened with.
pub open spec fn opening_entries() -> Seq<(Seq<char>, Seq<char>)> {
    seq![("code"@, "200"@)]
}

/// The position of the run `id` among `runs`.
pub open spec fn run_index(runs: Seq<RunEntry>, id: Seq<char>) -> int {
    choose|i: int| 0 <= i < runs.len() && (#[trigger] runs[i]).id@ == id
}

/// Whether some run among `runs` has the id `id`.
pub open spec fn has_run(runs: Seq<RunEntry>, id: Seq<char>) -> bool {
    exists|i: int| 0 <= i < runs.len() && (#[trigger] runs[i]).id@ == id
}

/// No two runs share an id.
pub open spec fn ids_distinct(runs: Seq<RunEntry>) -> bool {
    forall|i: int, j: int|
        0 <= i < runs.len() && 0 <= j < runs.len() && i != j ==> (#[trigger] runs[i]).id@
            != (#[trigger] runs[j]).id@
}

/// The open runs, by id, each with its entries in the order they were posted.
pub open spec fn runs_view(runs: Seq<RunEntry>) -> Map<Seq<char>, Seq<(Seq<char>, Seq<char>)>> {
    Map::new(
        |id: Seq<char>| has_run(runs, id),
        |id: Seq<char>| entries_view(runs[run_index(runs, id)].messages),
    )
}

impl View for RunMessages {
    type V = Map<Seq<char>, Seq<(Seq<char>, Seq<char>)>>;

    closed spec fn view(&self) -> Self::V {
        runs_view(self.runs@)
    }
}

/// Where `id` stands among distinct runs: the run at `i` is the one `run_index` picks.
proof fn lemma_index_unique(runs: Seq<RunEntry>, i: int)
    requires
        ids_distinct(runs),
        0 <= i < runs.len(),
    ensures
        has_run(runs, runs[i].id@),
        run_index(runs, runs[i].id@) == i,
{
    let id = runs[i].id@;
    assert(has_run(runs, id));
    let j = run_index(runs, id);
    assert(runs[j].id@ == id);
}

impl RunMessages {
    /// The store's invariant: no two runs share an id.
    pub closed spec fn wf(&self) -> bool {
        ids_distinct(self.runs@)
    }

    /// A store with no run open.
    pub fn new() -> (r: Self)
        ensures
            r.wf(),
            r@ == Map::<Seq<char>, Seq<(Seq<char>, Seq<char>)>>::empty(),
    {
        let r = RunMessages { runs: Vec::new() };
        assert(r@ =~= Map::<Seq<char>, Seq<(Seq<char>, Seq<char>)>>::empty());
        r
    }

    /// The position of the run `id`, if it is open.
    fn find(&self, id: &str) -> (r: Option<usize>)
        requires
            self.wf(),
        ensures
            r is None <==> !has_run(self.runs@, id@),
            r matches Some(i) ==> i < self.runs@.len() && self.runs@[i as int].id@ == id@
                && run_index(self.runs@, id@) == i,
    {
        let mut i: usize = 0;
        while i < self.runs.len()
            invariant
                i <= self.runs@.len(),
                ids_distinct(self.runs@),
                forall|j: int| 0 <= j < i ==> (#[trigger] self.runs@[j]).id@ != id@,
            decreases self.runs@.len() - i,
        {
            if str_eq(self.runs[i].id.as_str(), id) {
                proof {
                    lemma_index_unique(self.runs@, i as int);
                }
                return Some(i);
            }
            i = i + 1;
        }
        None
    }

    /// Opens the run `id` with the entry `code: 200`, in place of anything
    /// posted under that id before.
    pub fn open_run(&mut self, id: String)
        requires
            old(self).wf(),
        ensures
            final(self).wf(),
            final(self)@ == old(self)@.insert(id@, opening_entries()),
    {
        let ghost old_runs = self.runs@;
        let mut messages: Vec<(String, String)> = Vec::new();
        messages.push(("code".to_owned(), "200".to_owned()));
        assert(entries_view(messages) =~= opening_entries());
        match self.find(id.as_str()) {
            Some(i) => {
                let entry = RunEntry { id, messages };
                let ghost e = entry;
                self.runs.set(i, entry);
                proof {
                    lemma_update_view(old_runs, i as int, e);
                }
            },
            None => {
                let entry = RunEntry { id, messages };
                let ghost e = entry;
                self.runs.push(entry);
                proof {
                    lemma_push_view(old_runs, e);
                }
            },
        }
    }

    /// Adds the message `arg.msg` under `arg.key` to the run `arg.id`, which
    /// is open.
    pub fn add_msg(&mut self, arg: MsgArgs)
        requires
            old(self).wf(),
            old(self)@.dom().contains(arg.id@),
        ensures
            final(self).wf(),
            final(self)@ == old(self)@.insert(
                arg.id@,
                old(self)@[arg.id@].push((arg.key@, arg.msg@)),
            ),
    {
        let ghost old_runs = self.runs@;
        let i = match self.find(arg.id.as_str()) {
            Some(i) => i,
            None => {
                assert(false);
                return;
            },
        };
        let mut entry = self.runs.remove(i);
        let ghost before = entry.messages;
        entry.messages.push((arg.key, arg.msg));
        assert(entries_view(entry.messages) =~= entries_view(before).push((arg.key@, arg.msg@)));
        let ghost e = entry;
        self.runs.insert(i, entry);
        proof {
            assert(self.runs@ =~= old_runs.update(i as int, e));
            lemma_update_view(old_runs, i as int, e);
        }
    }

    /// Closes the run `id`, which is open, and gives what was posted to it,
    /// in the order it was posted.
    pub fn take_result(&mut self, id: &str) -> (r: Vec<(String, String)>)
        requires
            old(self).wf(),
            old(self)@.dom().contains(id@),
        ensures
            final(self).wf(),
            final(self)@ == old(self)@.remove(id@),
            entries_view(r) == old(self)@[id@],
    {
        let ghost old_runs = self.runs@;
        let i = match self.find(id) {
            Some(i) => i,
            None => {
                assert(false);
                return Vec::new();
            },
        };
        let entry = self.runs.remove(i);
        proof {
            lemma_remove_view(old_runs, i as int);
        }
        entry.messages
    }
}

/// Putting a run in place of the run at `i`, under the same id, keeps the
/// ids distinct and changes the entries under that id alone.
proof fn lemma_update_view(runs: Seq<RunEntry>, i: int, e: RunEntry)
    requires
        ids_distinct(runs),
        0 <= i < runs.len(),
        e.id@ == runs[i].id@,
    ensures
        ids_distinct(runs.update(i, e)),
        runs_view(runs.update(i, e)) == runs_view(runs).insert(e.id@, entries_view(e.messages)),
{
    let new_runs = runs.update(i, e);
    assert forall|a: int, b: int|
        0 <= a < new_runs.len() && 0 <= b < new_runs.len() && a != b implies (
        #[trigger] new_runs[a]).id@ != (#[trigger] new_runs[b]).id@ by {
        if a != i && b != i {
            assert(new_runs[a] == runs[a] && new_runs[b] == runs[b]);
        } else if a == i {
            assert(new_runs[b] == runs[b]);
        } else {
            assert(new_runs[a] == runs[a]);
        }
    }
    assert forall|k: Seq<char>| #[trigger] has_run(new_runs, k) == has_run(runs, k) by {
        if has_run(runs, k) {
            let j = choose|j: int| 0 <= j < runs.len() && (#[trigger] runs[j]).id@ == k;
            if j == i {
                assert(new_runs[j].id@ == k);
            } else {
                assert(new_runs[j] == runs[j]);
            }
        }
        if has_run(new_runs, k) {
            let j = choose|j: int| 0 <= j < new_runs.len() && (#[trigger] new_runs[j]).id@ == k;
            if j == i {
                assert(runs[j].id@ == k);
            } else {
                assert(new_runs[j] == runs[j]);
            }
        }
    }
    lemma_index_unique(new_runs, i);
    assert forall|k: Seq<char>| has_run(new_runs, k) implies #[trigger] runs_view(new_runs)[k]
        == runs_view(runs).insert(e.id@, entries_view(e.messages))[k] by {
        let j = run_index(new_runs, k);
        lemma_index_unique(new_runs, j);
        if j != i {
            assert(new_runs[j] == runs[j]);
            lemma_index_unique(runs, j);
        }
    }
    assert(runs_view(new_runs) =~= runs_view(runs).insert(e.id@, entries_view(e.messages)));
}

/// Adding a run under an id that no run has keeps the ids distinct and adds
/// its entries under that id.
proof fn lemma_push_view(runs: Seq<RunEntry>, e: RunEntry)
    requires
        ids_distinct(runs),
        !has_run(runs, e.id@),
    ensures
        ids_distinct(runs.push(e)),
        runs_view(runs.push(e)) == runs_view(runs).insert(e.id@, entries_view(e.messages)),
{
    let new_runs = runs.push(e);
    let n = runs.len() as int;
    assert forall|a: int, b: int|
        0 <= a < new_runs.len() && 0 <= b < new_runs.len() && a != b implies (
        #[trigger] new_runs[a]).id@ != (#[trigger] new_runs[b]).id@ by {
        if a != n && b != n {
            assert(new_runs[a] == runs[a] && new_runs[b] == runs[b]);
        } else if a == n {
            assert(new_runs[b] == runs[b]);
        } else {
            assert(new_runs[a] == runs[a]);
        }
    }
    assert forall|k: Seq<char>| #[trigger] has_run(new_runs, k) == (has_run(runs, k) || k == e.id@) by {
        if has_run(runs, k) {
            let j = choose|j: int| 0 <= j < runs.len() && (#[trigger] runs[j]).id@ == k;
            assert(new_runs[j] == runs[j]);
        }
        if k == e.id@ {
            assert(new_runs[n].id@ == k);
        }
        if has_run(new_runs, k) && k != e.id@ {
            let j = choose|j: int| 0 <= j < new_runs.len() && (#[trigger] new_runs[j]).id@ == k;
            assert(new_runs[j] == runs[j]);
        }
    }
    lemma_index_unique(new_runs, n);
    assert forall|k: Seq<char>| has_run(new_runs, k) implies #[trigger] runs_view(new_runs)[k]
        == runs_view(runs).insert(e.id@, entries_view(e.messages))[k] by {
        let j = run_index(new_runs, k);
        lemma_index_unique(new_runs, j);
        if j != n {
            assert(new_runs[j] == runs[j]);
            lemma_index_unique(runs, j);
        }
    }
    assert(runs_view(new_runs) =~= runs_view(runs).insert(e.id@, entries_view(e.messages)));
}

/// Taking out the run at `i` keeps the ids distinct and removes its id alone.
proof fn lemma_remove_view(runs: Seq<RunEntry>, i: int)
    requires
        ids_distinct(runs),
        0 <= i < runs.len(),
    ensures
        ids_distinct(runs.remove(i)),
        runs_view(runs.remove(i)) == runs_view(runs).remove(runs[i].id@),
        runs_view(runs)[runs[i].id@] == entries_view(runs[i].messages),
{
    let new_runs = runs.remove(i);
    let gone = runs[i].id@;
    lemma_index_unique(runs, i);
    assert forall|a: int, b: int|
        0 <= a < new_runs.len() && 0 <= b < new_runs.len() && a != b implies (
        #[trigger] new_runs[a]).id@ != (#[trigger] new_runs[b]).id@ by {
        let oa = if a < i { a } else { a + 1 };
        let ob = if b < i { b } else { b + 1 };
        assert(new_runs[a] == runs[oa] && new_runs[b] == runs[ob]);
    }
    assert forall|k: Seq<char>| #[trigger] has_run(new_runs, k) == (has_run(runs, k) && k != gone) by {
        if has_run(runs, k) && k != gone {
            let j = choose|j: int| 0 <= j < runs.len() && (#[trigger] runs[j]).id@ == k;
            if j < i {
                assert(new_runs[j] == runs[j]);
            } else {
                assert(j != i);
                assert(new_runs[j - 1] == runs[j]);
            }
        }
        if has_run(new_runs, k) {
            let j = choose|j: int| 0 <= j < new_runs.len() && (#[trigger] new_runs[j]).id@ == k;
            let oj = if j < i { j } else { j + 1 };
            assert(new_runs[j] == runs[oj]);
            assert(has_run(runs, k));
        }
    }
    assert forall|k: Seq<char>| has_run(new_runs, k) implies #[trigger] runs_view(new_runs)[k]
        == runs_view(runs)[k] by {
        let j = run_index(new_runs, k);
        lemma_index_unique(new_runs, j);
        let oj = if j < i { j } else { j + 1 };
        assert(new_runs[j] == runs[oj]);
        lemma_index_unique(runs, oj);
    }
    assert(runs_view(new_runs) =~= runs_view(runs).remove(gone));
}

/// The store after `posts` are added, in order, to the open run `id`, as
/// `add_msg` adds each.
pub open spec fn post_all(
    store: Map<Seq<char>, Seq<(Seq<char>, Seq<char>)>>,
    id: Seq<char>,
    posts: Seq<(Seq<char>, Seq<char>)>,
) -> Map<Seq<char>, Seq<(Seq<char>, Seq<char>)>>
    decreases posts.len(),
{
    if posts.len() == 0 {
        store
    } else {
        let before = post_all(store, id, posts.drop_last());
        before.insert(id, before[id].push(posts.last()))
    }
}

/// A run gives back what its script posted: once the run `id` is opened
/// (`open_run`) and `posts` are added to it (`add_msg`), the run is open, its
/// entries (what `take_result` gives) are the opening entry followed by the
/// posts in order, and every other run is as it was.
pub proof fn lemma_posts_come_back(
    store: Map<Seq<char>, Seq<(Seq<char>, Seq<char>)>>,
    id: Seq<char>,
    posts: Seq<(Seq<char>, Seq<char>)>,
)
    ensures
        post_all(store.insert(id, opening_entries()), id, posts).dom().contains(id),
        post_all(store.insert(id, opening_entries()), id, posts)[id] == opening_entries() + posts,
        forall|other: Seq<char>|
            other != id ==> (#[trigger] post_all(store.insert(id, opening_entries()), id, posts).dom().contains(other)
                == store.dom().contains(other) && (store.dom().contains(other) ==> post_all(
                store.insert(id, opening_entries()),
                id,
                posts,
            )[other] == store[other])),
    decreases posts.len(),
{
    if posts.len() == 0 {
        assert(opening_entries() + posts =~= opening_entries());
    } else {
        lemma_posts_come_back(store, id, posts.drop_last());
        assert(opening_entries() + posts =~= (opening_entries() + posts.drop_last()).push(
            posts.last(),
        ));
    }
}

/// A run's result holds, under a key, the message posted last under it; the
/// opening `code: 200` stands only until a message is posted under `code`.
pub proof fn lemma_last_post_wins(entries: Seq<(Seq<char>, Seq<char>)>, key: Seq<char>, msg: Seq<char>)
    ensures
        inserted(entries.push((key, msg))).dom().contains(key),
        inserted(entries.push((key, msg)))[key] == msg,
        inserted(opening_entries()).dom().contains("code"@),
        inserted(opening_entries())["code"@] == "200"@,
{
    assert(entries.push((key, msg)).drop_last() =~= entries);
    assert(opening_entries().drop_last() =~= Seq::<(Seq<char>, Seq<char>)>::empty());
}

} // verus!
