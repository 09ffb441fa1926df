//! Properties of the store that relate several operations.
use vstd::prelude::*;
use crate::select::{
    distinct_ids, first_index, lemma_first_index, lemma_first_index_distinct,
    lemma_selection_distinct, lemma_selection_members, selection, Selection,
};
use crate::store::{
    is_revision_of, live_index, max_live_order, moved, next_order, reordered, soft_deleted,
    swapped, upserted, Direction,
};
use crate::task::{lemma_rev_counter_of_text, opt_view, rev_counter, Task, MAX_REV_COUNTER};

verus! {

/// A new task in an empty store gets order 1; otherwise its order is above
/// that of every task that is not deleted.
pub proof fn law_new_task_order(rows: Seq<Task>)
    ensures
        next_order(Seq::<Task>::empty()) == 1,
        forall|i: int| 0 <= i < rows.len() && !rows[i].deleted ==> rows[i].order < next_order(rows),
        max_live_order(rows) is None ==> forall|i: int| 0 <= i < rows.len() ==> rows[i].deleted,
    decreases rows.len(),
{
    if rows.len() > 0 {
        law_new_task_order(rows.drop_last());
        let init = rows.drop_last();
        assert forall|i: int| 0 <= i < rows.len() - 1 implies rows[i] == init[i] by {}
        assert forall|i: int| 0 <= i < rows.len() && !rows[i].deleted implies rows[i].order
            < next_order(rows) by {
            if i < rows.len() - 1 {
                assert(rows[i] == rows.drop_last()[i]);
            }
        }
    }
}

/// A local update raises the revision counter by exactly one, and does not
/// move `updated_at` back when the clock has not gone back.
pub proof fn law_update_revision(t: Task, r: Task, suffix: Seq<char>, now: i64)
    requires
        is_revision_of(r, t, suffix, now),
        rev_counter(opt_view(t.rev)) < MAX_REV_COUNTER,
    ensures
        rev_counter(opt_view(r.rev)) == rev_counter(opt_view(t.rev)) + 1,
        now >= t.updated_at ==> r.updated_at >= t.updated_at,
{
    lemma_rev_counter_of_text(rev_counter(opt_view(t.rev)) + 1, suffix);
}

proof fn lemma_first_index_same_ids(a: Seq<Task>, b: Seq<Task>, id: Seq<char>)
    requires
        a.len() == b.len(),
        forall|i: int| 0 <= i < a.len() ==> a[i].id@ == b[i].id@,
    ensures
        first_index(a, id) == first_index(b, id),
{
    if first_index(a, id) >= 0 {
        lemma_first_index(b, id, first_index(a, id));
    } else if first_index(b, id) >= 0 {
        lemma_first_index(a, id, first_index(b, id));
    }
}

/// A remote write is ignored unless strictly newer than the stored task,
/// overwrites it when it is, and applying it a second time changes nothing.
pub proof fn law_remote_write(rows: Seq<Task>, t: Task)
    requires
        distinct_ids(rows),
    ensures
        ({
            let p = first_index(rows, t.id@);
            &&& p >= 0 && rows[p].updated_at >= t.updated_at ==> upserted(rows, t) == rows
            &&& p >= 0 && t.updated_at > rows[p].updated_at ==> upserted(rows, t) == rows.update(p, t)
            &&& p < 0 ==> upserted(rows, t) == rows.push(t)
        }),
        upserted(upserted(rows, t), t) == upserted(rows, t),
{
    let p = first_index(rows, t.id@);
    let r1 = upserted(rows, t);
    if p < 0 {
        assert forall|j: int| 0 <= j < rows.len() implies r1[j].id@ != t.id@ by {
            if rows[j].id@ == t.id@ {
                crate::select::lemma_first_index_found(rows, t.id@, j);
            }
        }
        lemma_first_index(r1, t.id@, rows.len() as int);
    } else if t.updated_at > rows[p].updated_at {
        lemma_first_index_same_ids(rows, r1, t.id@);
    }
}

/// After a soft delete the task leaves the listing but shows, as a
/// tombstone, among the changes since any earlier time.
pub proof fn law_soft_delete_visibility(rows: Seq<Task>, id: Seq<char>, before: i64, now: i64)
    requires
        distinct_ids(rows),
        first_index(rows, id) >= 0,
        before < now,
    ensures
        forall|t: Task|
            selection(soft_deleted(rows, id, now), Selection::Live).contains(t) ==> t.id@ != id,
        exists|t: Task|
            selection(soft_deleted(rows, id, now), Selection::ChangedAfter(before)).contains(t)
                && t.id@ == id && t.deleted,
{
    let p = first_index(rows, id);
    let r1 = soft_deleted(rows, id, now);
    let d = r1[p];
    assert forall|t: Task|
        selection(r1, Selection::Live).contains(t) implies t.id@ != id by {
        lemma_selection_members(r1, Selection::Live, t);
        let j = choose|j: int| 0 <= j < r1.len() && r1[j] == t;
        if j != p {
            assert(r1[j] == rows[j]);
        }
    }
    lemma_selection_members(r1, Selection::ChangedAfter(before), d);
    assert(r1.contains(d));
}

/// Moving the first task of the listing up, or the last one down, changes
/// nothing.
pub proof fn law_reorder_at_ends(rows: Seq<Task>, now: i64)
    requires
        distinct_ids(rows),
        selection(rows, Selection::Live).len() > 0,
    ensures
        ({
            let listing = selection(rows, Selection::Live);
            &&& reordered(rows, listing[0].id@, Direction::Up, now) == Ok::<Seq<Task>, crate::store::StoreError>(rows)
            &&& reordered(rows, listing.last().id@, Direction::Down, now) == Ok::<Seq<Task>, crate::store::StoreError>(rows)
        }),
{
    let listing = selection(rows, Selection::Live);
    lemma_selection_distinct(rows, Selection::Live);
    lemma_first_index_distinct(listing, 0);
    lemma_first_index_distinct(listing, listing.len() - 1);
}

/// Moving task `a` to the place of `b` twice restores every order; only
/// `updated_at` differs.
pub proof fn law_move_twice_restores(rows: Seq<Task>, a: Seq<char>, b: Seq<char>, now1: i64, now2: i64)
    requires
        distinct_ids(rows),
        moved(rows, a, b, now1).is_ok(),
    ensures
        moved(rows, a, b, now1) matches Ok(r1) && moved(r1, a, b, now2) matches Ok(r2) && {
            &&& r2.len() == rows.len()
            &&& forall|i: int| 0 <= i < rows.len() ==> r2[i] == (Task { updated_at: r2[i].updated_at, ..rows[i] })
        },
{
    let pa = live_index(rows, a);
    let pb = live_index(rows, b);
    let r1 = moved(rows, a, b, now1)->Ok_0;
    if pa != pb {
        assert(r1 == swapped(rows, pa, pb, now1));
        lemma_first_index_same_ids(rows, r1, a);
        lemma_first_index_same_ids(rows, r1, b);
        assert(live_index(r1, a) == pa);
        assert(live_index(r1, b) == pb);
        let r2 = moved(r1, a, b, now2)->Ok_0;
        assert(r2 == swapped(r1, pa, pb, now2));
        assert forall|i: int| 0 <= i < rows.len() implies r2[i] == (Task {
            updated_at: r2[i].updated_at,
            ..rows[i]
        }) by {}
    }
}

/// Two toggles of a stored task in a row restore its completion flag and
/// raise its revision counter by two; all fields but the revision and
/// `updated_at` are as before.
pub proof fn law_toggle_twice(
    rows: Seq<Task>,
    id: Seq<char>,
    t1: Task,
    t2: Task,
    s1: Seq<char>,
    s2: Seq<char>,
    n1: i64,
    n2: i64,
)
    requires
        distinct_ids(rows),
        first_index(rows, id) >= 0,
        ({
            let p = first_index(rows, id);
            is_revision_of(t1, Task { completed: !rows[p].completed, ..rows[p] }, s1, n1)
        }),
        ({
            let r1 = rows.update(first_index(rows, id), t1);
            let q = first_index(r1, id);
            q >= 0 && is_revision_of(t2, Task { completed: !r1[q].completed, ..r1[q] }, s2, n2)
        }),
        rev_counter(opt_view(rows[first_index(rows, id)].rev)) + 1 < MAX_REV_COUNTER,
    ensures
        ({
            let p = first_index(rows, id);
            &&& first_index(rows.update(p, t1), id) == p
            &&& t2.completed == rows[p].completed
            &&& rev_counter(opt_view(t2.rev)) == rev_counter(opt_view(rows[p].rev)) + 2
            &&& t2 == (Task { rev: t2.rev, updated_at: t2.updated_at, ..rows[p] })
        }),
{
    let p = first_index(rows, id);
    let r1 = rows.update(p, t1);
    lemma_first_index_same_ids(rows, r1, id);
    let c = rev_counter(opt_view(rows[p].rev));
    lemma_rev_counter_of_text(c + 1, s1);
    lemma_rev_counter_of_text(c + 2, s2);
}

} // verus!
