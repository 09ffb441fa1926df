//! Looking tasks up by id, and listing a selection of them in key order.
use vstd::prelude::*;
use crate::task::Task;
use crate::text::text_eq;

verus! {

/// Position of the first task with the given id, or -1.
pub open spec fn first_index(rows: Seq<Task>, id: Seq<char>) -> int {
    if exists|i: int| is_first_with(rows, id, i) {
        choose|i: int| is_first_with(rows, id, i)
    } else {
        -1
    }
}

pub open spec fn is_first_with(rows: Seq<Task>, id: Seq<char>, i: int) -> bool {
    &&& 0 <= i < rows.len()
    &&& rows[i].id@ == id
    &&& forall|j: int| 0 <= j < i ==> rows[j].id@ != id
}

/// No two tasks share an id.
pub open spec fn distinct_ids(rows: Seq<Task>) -> bool {
    forall|i: int, j: int|
        0 <= i < rows.len() && 0 <= j < rows.len() && i != j ==> rows[i].id@ != rows[j].id@
}

pub proof fn lemma_first_index(rows: Seq<Task>, id: Seq<char>, i: int)
    requires
        is_first_with(rows, id, i),
    ensures
        first_index(rows, id) == i,
{
    let k = choose|k: int| is_first_with(rows, id, k);
    if k < i {
        assert(rows[k].id@ != id);
    } else if k > i {
        assert(rows[i].id@ != id);
    }
}

/// A task with the id exists exactly when `first_index` finds one.
pub proof fn lemma_first_index_found(rows: Seq<Task>, id: Seq<char>, i: int)
    requires
        0 <= i < rows.len(),
        rows[i].id@ == id,
    ensures
        0 <= first_index(rows, id) <= i,
        rows[first_index(rows, id)].id@ == id,
    decreases i,
{
    if exists|j: int| 0 <= j < i && rows[j].id@ == id {
        let j = choose|j: int| 0 <= j < i && rows[j].id@ == id;
        lemma_first_index_found(rows, id, j);
    } else {
        lemma_first_index(rows, id, i);
    }
}

/// Among tasks with distinct ids, each task is the first with its id.
pub proof fn lemma_first_index_distinct(rows: Seq<Task>, i: int)
    requires
        distinct_ids(rows),
        0 <= i < rows.len(),
    ensures
        first_index(rows, rows[i].id@) == i,
{
    lemma_first_index(rows, rows[i].id@, i);
}

/// Finds the first task with the given id.
pub fn find_task(tasks: &Vec<Task>, id: &str) -> (r: Option<usize>)
    ensures
        match r {
            Some(i) => i as int == first_index(tasks@, id@) && i < tasks@.len(),
            None => first_index(tasks@, id@) == -1,
        },
{
    let mut i: usize = 0;
    while i < tasks.len()
        invariant
            i <= tasks@.len(),
            forall|j: int| 0 <= j < i ==> tasks@[j].id@ != id@,
        decreases tasks@.len() - i,
    {
        if text_eq(tasks[i].id.as_str(), id) {
            proof { lemma_first_index(tasks@, id@, i as int); }
            return Some(i);
        }
        i = i + 1;
    }
    None
}

/// Which tasks a listing shows, and the key that orders it.
pub enum Selection {
    /// Tasks that are not deleted, by `order`.
    Live,
    /// Tasks, tombstones included, changed after the given time, by `updated_at`.
    ChangedAfter(i64),
}

pub open spec fn selects(sel: Selection, t: Task) -> bool {
    match sel {
        Selection::Live => !t.deleted,
        Selection::ChangedAfter(since) => t.updated_at > since,
    }
}

pub open spec fn sort_key(sel: Selection, t: Task) -> int {
    match sel {
        Selection::Live => t.order as int,
        Selection::ChangedAfter(_) => t.updated_at as int,
    }
}

/// Where `t` goes in a sequence sorted by key: after every element whose
/// key is not larger.
pub open spec fn insert_pos(s: Seq<Task>, t: Task, sel: Selection) -> int
    decreases s.len(),
{
    if s.len() == 0 {
        0
    } else if sort_key(sel, s.last()) <= sort_key(sel, t) {
        s.len() as int
    } else {
        insert_pos(s.drop_last(), t, sel)
    }
}

/// The selected tasks in ascending key order; tasks with equal keys keep the
/// order in which they are stored.
pub open spec fn selection(rows: Seq<Task>, sel: Selection) -> Seq<Task>
    decreases rows.len(),
{
    if rows.len() == 0 {
        Seq::empty()
    } else {
        let prev = selection(rows.drop_last(), sel);
        if selects(sel, rows.last()) {
            prev.insert(insert_pos(prev, rows.last(), sel), rows.last())
        } else {
            prev
        }
    }
}

pub proof fn lemma_insert_pos_bounds(s: Seq<Task>, t: Task, sel: Selection)
    ensures
        0 <= insert_pos(s, t, sel) <= s.len(),
    decreases s.len(),
{
    if s.len() > 0 {
        lemma_insert_pos_bounds(s.drop_last(), t, sel);
    }
}

/// A listing holds exactly the stored tasks that it selects.
pub proof fn lemma_selection_members(rows: Seq<Task>, sel: Selection, x: Task)
    ensures
        selection(rows, sel).contains(x) <==> (rows.contains(x) && selects(sel, x)),
    decreases rows.len(),
{
    if rows.len() > 0 {
        let prev = selection(rows.drop_last(), sel);
        let last = rows.last();
        lemma_selection_members(rows.drop_last(), sel, x);
        assert(rows.contains(x) <==> (rows.drop_last().contains(x) || x == last)) by {
            if rows.contains(x) {
                let k = choose|k: int| 0 <= k < rows.len() && rows[k] == x;
                if k < rows.len() - 1 {
                    assert(rows.drop_last()[k] == x);
                }
            }
            if rows.drop_last().contains(x) {
                let k = choose|k: int| 0 <= k < rows.len() - 1 && rows.drop_last()[k] == x;
                assert(rows[k] == x);
            }
            if x == last {
                assert(rows[rows.len() - 1] == x);
            }
        }
        if selects(sel, last) {
            let p = insert_pos(prev, last, sel);
            lemma_insert_pos_bounds(prev, last, sel);
            prev.insert_ensures(p, last);
            let s = prev.insert(p, last);
            if s.contains(x) {
                let k = choose|k: int| 0 <= k < s.len() && s[k] == x;
                if k < p {
                    assert(prev[k] == x);
                } else if k > p {
                    assert(prev[k - 1] == x);
                }
            }
            if prev.contains(x) {
                let k = choose|k: int| 0 <= k < prev.len() && prev[k] == x;
                if k < p {
                    assert(s[k] == x);
                } else {
                    assert(s[k + 1] == x);
                }
            }
            if x == last {
                assert(s[p] == x);
            }
        }
    }
}

/// The listing holds no task twice by id when the store does not.
pub proof fn lemma_selection_distinct(rows: Seq<Task>, sel: Selection)
    requires
        distinct_ids(rows),
    ensures
        distinct_ids(selection(rows, sel)),
    decreases rows.len(),
{
    if rows.len() > 0 {
        let init = rows.drop_last();
        let last = rows.last();
        assert(distinct_ids(init)) by {
            assert forall|i: int, j: int| 0 <= i < init.len() && 0 <= j < init.len() && i != j
                implies init[i].id@ != init[j].id@ by {
                assert(init[i] == rows[i]);
                assert(init[j] == rows[j]);
            }
        }
        lemma_selection_distinct(init, sel);
        let prev = selection(init, sel);
        if selects(sel, last) {
            let p = insert_pos(prev, last, sel);
            lemma_insert_pos_bounds(prev, last, sel);
            prev.insert_ensures(p, last);
            let s = prev.insert(p, last);
            assert forall|k: int| 0 <= k < prev.len() implies prev[k].id@ != last.id@ by {
                lemma_selection_members(init, sel, prev[k]);
                assert(prev.contains(prev[k]));
                let j = choose|j: int| 0 <= j < init.len() && init[j] == prev[k];
                assert(rows[j] == init[j]);
                assert(rows[rows.len() - 1] == last);
            }
            assert forall|i: int, j: int| 0 <= i < s.len() && 0 <= j < s.len() && i != j
                implies s[i].id@ != s[j].id@ by {
                let a = if i < p { i } else { i - 1 };
                let b = if j < p { j } else { j - 1 };
                if i == p {
                    assert(s[j] == prev[b]);
                } else if j == p {
                    assert(s[i] == prev[a]);
                } else {
                    assert(s[i] == prev[a]);
                    assert(s[j] == prev[b]);
                }
            }
        }
    }
}

/// A listing is in ascending key order.
pub proof fn lemma_selection_sorted(rows: Seq<Task>, sel: Selection)
    ensures
        forall|i: int, j: int|
            0 <= i <= j < selection(rows, sel).len() ==> sort_key(sel, selection(rows, sel)[i])
                <= sort_key(sel, selection(rows, sel)[j]),
    decreases rows.len(),
{
    if rows.len() > 0 {
        let prev = selection(rows.drop_last(), sel);
        let last = rows.last();
        lemma_selection_sorted(rows.drop_last(), sel);
        if selects(sel, last) {
            let p = insert_pos(prev, last, sel);
            lemma_insert_pos_bounds(prev, last, sel);
            lemma_insert_pos_order(prev, last, sel);
            prev.insert_ensures(p, last);
            let s = prev.insert(p, last);
            assert forall|i: int, j: int| 0 <= i <= j < s.len() implies sort_key(sel, s[i])
                <= sort_key(sel, s[j]) by {
                if i < p && j > p {
                    assert(s[j] == prev[j - 1]);
                } else if i > p {
                    assert(s[i] == prev[i - 1]);
                    assert(s[j] == prev[j - 1]);
                }
            }
        }
    }
}

proof fn lemma_insert_pos_order(s: Seq<Task>, t: Task, sel: Selection)
    requires
        forall|i: int, j: int|
            0 <= i <= j < s.len() ==> sort_key(sel, s[i]) <= sort_key(sel, s[j]),
    ensures
        forall|i: int| 0 <= i < insert_pos(s, t, sel) ==> sort_key(sel, #[trigger] s[i]) <= sort_key(sel, t),
        forall|i: int| insert_pos(s, t, sel) <= i < s.len() ==> sort_key(sel, t) < sort_key(sel, #[trigger] s[i]),
    decreases s.len(),
{
    if s.len() > 0 {
        lemma_insert_pos_order(s.drop_last(), t, sel);
        if sort_key(sel, s.last()) > sort_key(sel, t) {
            lemma_insert_pos_bounds(s.drop_last(), t, sel);
            assert(insert_pos(s, t, sel) == insert_pos(s.drop_last(), t, sel));
            assert forall|i: int| insert_pos(s, t, sel) <= i < s.len() implies sort_key(sel, t)
                < sort_key(sel, #[trigger] s[i]) by {
                if i < s.len() - 1 {
                    assert(s[i] == s.drop_last()[i]);
                }
            }
            assert forall|i: int| 0 <= i < insert_pos(s, t, sel) implies sort_key(sel, #[trigger] s[i])
                <= sort_key(sel, t) by {
                lemma_insert_pos_bounds(s.drop_last(), t, sel);
                assert(s[i] == s.drop_last()[i]);
            }
        } else {
            assert forall|i: int| 0 <= i < insert_pos(s, t, sel) implies sort_key(sel, #[trigger] s[i])
                <= sort_key(sel, t) by {
                assert(sort_key(sel, s[i]) <= sort_key(sel, s[s.len() - 1]));
            }
        }
    }
}

fn key_of(sel: &Selection, t: &Task) -> (r: i64)
    ensures
        r == sort_key(*sel, *t),
{
    match sel {
        Selection::Live => t.order as i64,
        Selection::ChangedAfter(_) => t.updated_at,
    }
}

fn is_selected(sel: &Selection, t: &Task) -> (r: bool)
    ensures
        r == selects(*sel, *t),
{
    match sel {
        Selection::Live => !t.deleted,
        Selection::ChangedAfter(since) => t.updated_at > *since,
    }
}

/// Copies the selected tasks, in ascending key order.
pub fn select_sorted(tasks: &Vec<Task>, sel: Selection) -> (r: Vec<Task>)
    ensures
        r@ == selection(tasks@, sel),
{
    let mut out: Vec<Task> = Vec::new();
    let mut i: usize = 0;
    while i < tasks.len()
        invariant
            i <= tasks@.len(),
            out@ == selection(tasks@.take(i as int), sel),
        decreases tasks@.len() - i,
    {
        let t = &tasks[i];
        proof {
            assert(tasks@.take(i + 1).drop_last() =~= tasks@.take(i as int));
            assert(tasks@.take(i + 1).last() == *t);
        }
        if is_selected(&sel, t) {
            let k = key_of(&sel, t);
            let mut j: usize = out.len();
            assert(out@.take(j as int) =~= out@);
            while j > 0 && key_of(&sel, &out[j - 1]) > k
                invariant
                    j <= out@.len(),
                    k == sort_key(sel, *t),
                    insert_pos(out@, *t, sel) == insert_pos(out@.take(j as int), *t, sel),
                decreases j,
            {
                proof {
                    assert(out@.take(j as int).drop_last() =~= out@.take(j - 1));
                }
                j = j - 1;
            }
            proof {
                if j > 0 {
                    assert(out@.take(j as int).last() == out@[j - 1]);
                }
            }
            out.insert(j, t.duplicate());
        }
        i = i + 1;
    }
    assert(tasks@.take(tasks@.len() as int) =~= tasks@);
    out
}

} // verus!
