//! The task store: ordering, revisions, soft deletes, and the two
//! replication primitives with the persisted change-feed cursor.
use vstd::prelude::*;
use crate::clock::{fresh_rev_suffix, new_task_id, now_millis};
use crate::select::{
    distinct_ids, find_task, first_index, lemma_first_index_found,
    lemma_first_index_distinct, lemma_selection_distinct, lemma_selection_members,
    lemma_selection_sorted, select_sorted, selection, Selection,
};
use crate::task::{is_fresh_suffix, make_rev, opt_view, parse_rev_counter, rev_counter, rev_text, Task, copy_text};
use crate::text::text_eq;

verus! {

/// Why a store operation was refused.
#[derive(PartialEq, Eq, Structural, Debug, Clone, Copy)]
pub enum StoreError {
    /// No (live) task has the given id.
    TaskNotFound,
    /// No live task has the target id.
    TargetNotFound,
    /// A task with the new id is already stored.
    DuplicateId,
    /// The largest order in use leaves no room for one more.
    OrderExhausted,
}

/// Direction of a relative move in the listing.
#[derive(PartialEq, Eq, Structural, Debug, Clone, Copy)]
pub enum Direction {
    Up,
    Down,
}

impl Direction {
    pub open spec fn from_text_spec(s: Seq<char>) -> Direction {
        if s == "up"@ {
            Direction::Up
        } else {
            Direction::Down
        }
    }

    /// `"up"` is `Up`; any other word is `Down`.
    pub fn from_text(s: &str) -> (r: Direction)
        ensures
            r == Direction::from_text_spec(s@),
    {
        if text_eq(s, "up") {
            Direction::Up
        } else {
            Direction::Down
        }
    }
}

/// How far the remote change feed has been consumed.
#[derive(Clone, Debug)]
pub struct SyncCursor {
    pub last_seq: String,
    pub last_synced_at: i64,
}

/// The largest order among tasks that are not deleted, if there is one.
pub open spec fn max_live_order(rows: Seq<Task>) -> Option<i32>
    decreases rows.len(),
{
    if rows.len() == 0 {
        None
    } else {
        let prev = max_live_order(rows.drop_last());
        let t = rows.last();
        if t.deleted {
            prev
        } else {
            match prev {
                None => Some(t.order),
                Some(m) => Some(if t.order > m { t.order } else { m }),
            }
        }
    }
}

/// The order that a new task gets: one past the largest live order, 1 in a
/// store without live tasks.
pub open spec fn next_order(rows: Seq<Task>) -> int {
    match max_live_order(rows) {
        None => 1,
        Some(m) => m + 1,
    }
}

/// `r` is `t` as stored by a local update at time `now`: every supplied field
/// kept, the revision counter one past `t`'s, a fresh suffix.
pub open spec fn is_revision_of(r: Task, t: Task, suffix: Seq<char>, now: i64) -> bool {
    &&& r.id == t.id
    &&& opt_view(r.rev) == Some(rev_text(rev_counter(opt_view(t.rev)) + 1, suffix))
    &&& r.title == t.title
    &&& r.description == t.description
    &&& r.completed == t.completed
    &&& r.due_date == t.due_date
    &&& r.updated_at == now
    &&& r.order == t.order
    &&& r.deleted == t.deleted
}

/// The stored tasks after writing `t` over the task with its id, if any.
pub open spec fn replaced(rows: Seq<Task>, t: Task) -> Seq<Task> {
    let p = first_index(rows, t.id@);
    if p >= 0 {
        rows.update(p, t)
    } else {
        rows
    }
}

/// The stored tasks after a remote write of `t`: inserted when its id is
/// new, written over the stored task only when `t` is strictly newer.
pub open spec fn upserted(rows: Seq<Task>, t: Task) -> Seq<Task> {
    let p = first_index(rows, t.id@);
    if p < 0 {
        rows.push(t)
    } else if t.updated_at > rows[p].updated_at {
        rows.update(p, t)
    } else {
        rows
    }
}

/// The stored tasks after tombstoning the task with id `id` at time `now`.
pub open spec fn soft_deleted(rows: Seq<Task>, id: Seq<char>, now: i64) -> Seq<Task> {
    let p = first_index(rows, id);
    if p >= 0 {
        rows.update(p, Task { deleted: true, updated_at: now, ..rows[p] })
    } else {
        rows
    }
}

/// The stored tasks after the tasks at `a` and `b` exchange their orders,
/// both stamped with `now`.
pub open spec fn swapped(rows: Seq<Task>, a: int, b: int, now: i64) -> Seq<Task> {
    rows.update(a, Task { order: rows[b].order, updated_at: now, ..rows[a] }).update(
        b,
        Task { order: rows[a].order, updated_at: now, ..rows[b] },
    )
}

/// Position of the live task with id `id`, or -1.
pub open spec fn live_index(rows: Seq<Task>, id: Seq<char>) -> int {
    let p = first_index(rows, id);
    if p >= 0 && !rows[p].deleted {
        p
    } else {
        -1
    }
}

/// Result of moving task `a` to the position of task `b`: their orders are
/// exchanged.
pub open spec fn moved(rows: Seq<Task>, a: Seq<char>, b: Seq<char>, now: i64) -> Result<
    Seq<Task>,
    StoreError,
> {
    let pa = live_index(rows, a);
    let pb = live_index(rows, b);
    if pa < 0 {
        Err(StoreError::TaskNotFound)
    } else if pb < 0 {
        Err(StoreError::TargetNotFound)
    } else if pa == pb {
        Ok(rows)
    } else {
        Ok(swapped(rows, pa, pb, now))
    }
}

/// Result of moving task `id` one step up or down the listing: it exchanges
/// orders with its neighbour there, and stays put at the matching end.
pub open spec fn reordered(rows: Seq<Task>, id: Seq<char>, dir: Direction, now: i64) -> Result<
    Seq<Task>,
    StoreError,
> {
    let listing = selection(rows, Selection::Live);
    let k = first_index(listing, id);
    if k < 0 {
        Err(StoreError::TaskNotFound)
    } else if dir == Direction::Up && k == 0 {
        Ok(rows)
    } else if dir == Direction::Down && k == listing.len() - 1 {
        Ok(rows)
    } else {
        let n = if dir == Direction::Up { k - 1 } else { k + 1 };
        Ok(swapped(rows, first_index(rows, id), first_index(rows, listing[n].id@), now))
    }
}

/// The local task table and the replication cursor.
#[derive(Clone)]
pub struct Database {
    tasks: Vec<Task>,
    cursor: Option<SyncCursor>,
}

impl Database {
    /// The stored tasks, tombstones included, in storage order.
    pub closed spec fn rows(&self) -> Seq<Task> {
        self.tasks@
    }

    /// The persisted cursor: the feed token and when it was written.
    pub closed spec fn cursor(&self) -> Option<(Seq<char>, i64)> {
        match self.cursor {
            Some(c) => Some((c.last_seq@, c.last_synced_at)),
            None => None,
        }
    }

    /// Ids are unique: one stored task per id.
    pub open spec fn wf(&self) -> bool {
        distinct_ids(self.rows())
    }

    /// An empty store without a cursor.
    pub fn new() -> (r: Database)
        ensures
            r.wf(),
            r.rows() == Seq::<Task>::empty(),
            r.cursor() == None::<(Seq<char>, i64)>,
    {
        Database { tasks: Vec::new(), cursor: None }
    }

    /// Every stored task, tombstones included, in storage order.
    pub fn all_tasks(&self) -> (r: Vec<Task>)
        ensures
            r@ == self.rows(),
    {
        let mut out: Vec<Task> = Vec::new();
        let mut i: usize = 0;
        while i < self.tasks.len()
            invariant
                i <= self.tasks@.len(),
                out@ == self.tasks@.take(i as int),
            decreases self.tasks@.len() - i,
        {
            out.push(self.tasks[i].duplicate());
            i = i + 1;
            assert(out@ =~= self.tasks@.take(i as int));
        }
        assert(self.tasks@.take(i as int) =~= self.tasks@);
        out
    }

    /// The tasks that are not deleted, ascending by order.
    pub fn get_all_tasks(&self) -> (r: Vec<Task>)
        ensures
            r@ == selection(self.rows(), Selection::Live),
            forall|x: Task| r@.contains(x) <==> (self.rows().contains(x) && !x.deleted),
            forall|i: int, j: int| 0 <= i <= j < r@.len() ==> r@[i].order <= r@[j].order,
            self.wf() ==> distinct_ids(r@),
    {
        let r = select_sorted(&self.tasks, Selection::Live);
        proof {
            assert forall|x: Task| r@.contains(x) <==> (self.rows().contains(x) && !x.deleted) by {
                lemma_selection_members(self.rows(), Selection::Live, x);
            }
            lemma_selection_sorted(self.rows(), Selection::Live);
            if self.wf() {
                lemma_selection_distinct(self.rows(), Selection::Live);
            }
        }
        r
    }

    /// All tasks, tombstones included, changed after `since`, ascending by
    /// `updated_at`.
    pub fn get_changes_since(&self, since: i64) -> (r: Vec<Task>)
        ensures
            r@ == selection(self.rows(), Selection::ChangedAfter(since)),
            forall|x: Task| r@.contains(x) <==> (self.rows().contains(x) && x.updated_at > since),
            forall|i: int, j: int|
                0 <= i <= j < r@.len() ==> r@[i].updated_at <= r@[j].updated_at,
            self.wf() ==> distinct_ids(r@),
    {
        let sel = Selection::ChangedAfter(since);
        let r = select_sorted(&self.tasks, sel);
        proof {
            assert forall|x: Task|
                r@.contains(x) <==> (self.rows().contains(x) && x.updated_at > since) by {
                lemma_selection_members(self.rows(), sel, x);
            }
            lemma_selection_sorted(self.rows(), sel);
            if self.wf() {
                lemma_selection_distinct(self.rows(), sel);
            }
        }
        r
    }

    fn max_order(&self) -> (r: Option<i32>)
        ensures
            r == max_live_order(self.rows()),
    {
        let mut m: Option<i32> = None;
        let mut i: usize = 0;
        while i < self.tasks.len()
            invariant
                i <= self.tasks@.len(),
                m == max_live_order(self.tasks@.take(i as int)),
            decreases self.tasks@.len() - i,
        {
            proof {
                assert(self.tasks@.take(i + 1).drop_last() =~= self.tasks@.take(i as int));
            }
            let t = &self.tasks[i];
            if !t.deleted {
                m = match m {
                    None => Some(t.order),
                    Some(v) => Some(if t.order > v { t.order } else { v }),
                };
            }
            i = i + 1;
        }
        assert(self.tasks@.take(i as int) =~= self.tasks@);
        m
    }

    /// Stores a new task with the given id, revision suffix and time: revision
    /// counter 1, not completed, order one past the largest live order.
    pub fn add_task_at(
        &mut self,
        title: String,
        description: Option<String>,
        due_date: Option<String>,
        id: String,
        rev_suffix: &str,
        now: i64,
    ) -> (r: Result<Task, StoreError>)
        requires
            old(self).wf(),
        ensures
            final(self).wf(),
            final(self).cursor() == old(self).cursor(),
            first_index(old(self).rows(), id@) >= 0 ==> r == Err::<Task, StoreError>(
                StoreError::DuplicateId,
            ),
            first_index(old(self).rows(), id@) < 0 && next_order(old(self).rows()) > i32::MAX
                ==> r == Err::<Task, StoreError>(StoreError::OrderExhausted),
            first_index(old(self).rows(), id@) < 0 && next_order(old(self).rows()) <= i32::MAX
                ==> r.is_ok(),
            r.is_err() ==> final(self).rows() == old(self).rows(),
            r matches Ok(t) ==> {
                &&& t.id == id
                &&& opt_view(t.rev) == Some(rev_text(1, rev_suffix@))
                &&& t.title == title
                &&& t.description == description
                &&& !t.completed
                &&& t.due_date == due_date
                &&& t.updated_at == now
                &&& t.order == next_order(old(self).rows())
                &&& !t.deleted
                &&& final(self).rows() == old(self).rows().push(t)
            },
    {
        if find_task(&self.tasks, id.as_str()).is_some() {
            return Err(StoreError::DuplicateId);
        }
        let order: i32 = match self.max_order() {
            None => 1,
            Some(m) => {
                if m == i32::MAX {
                    return Err(StoreError::OrderExhausted);
                }
                m + 1
            },
        };
        let t = Task {
            id,
            rev: Some(make_rev(1, rev_suffix)),
            title,
            description,
            completed: false,
            due_date,
            updated_at: now,
            order,
            deleted: false,
        };
        let ghost before = self.tasks@;
        proof {
            lemma_first_index_absent_from(before, t.id@);
        }
        self.tasks.push(t.duplicate());
        assert(self.tasks@ == before.push(t));
        proof {
            assert forall|i: int, j: int|
                0 <= i < self.tasks@.len() && 0 <= j < self.tasks@.len() && i != j
                implies self.tasks@[i].id@ != self.tasks@[j].id@ by {
                if i < before.len() && j < before.len() {
                } else if i < before.len() {
                    assert(before[i].id@ != t.id@);
                } else {
                    assert(before[j].id@ != t.id@);
                }
            }
        }
        Ok(t)
    }

    /// Creates a task stamped with a fresh id, a fresh revision suffix and the
    /// current time.
    pub fn add_task(&mut self, title: String, description: Option<String>, due_date: Option<
        String,
    >) -> (r: Result<Task, StoreError>)
        requires
            old(self).wf(),
        ensures
            final(self).wf(),
            final(self).cursor() == old(self).cursor(),
            (forall|i: int|
                0 <= i < old(self).rows().len() ==> old(self).rows()[i].id@.len() != 36)
                && next_order(old(self).rows()) <= i32::MAX ==> r.is_ok(),
            next_order(old(self).rows()) > i32::MAX ==> r.is_err(),
            r matches Err(e) ==> (e == StoreError::DuplicateId || (e == StoreError::OrderExhausted
                && next_order(old(self).rows()) > i32::MAX)),
            r.is_err() ==> final(self).rows() == old(self).rows(),
            r matches Ok(t) ==> {
                &&& t.id@.len() == 36
                &&& first_index(old(self).rows(), t.id@) < 0
                &&& exists|s: Seq<char>|
                    is_fresh_suffix(s) && opt_view(t.rev) == Some(#[trigger] rev_text(1, s))
                &&& rev_counter(opt_view(t.rev)) == 1
                &&& t.title == title
                &&& t.description == description
                &&& t.due_date == due_date
                &&& !t.completed
                &&& !t.deleted
                &&& t.order == next_order(old(self).rows())
                &&& final(self).rows() == old(self).rows().push(t)
            },
    {
        let id = new_task_id();
        let suffix = fresh_rev_suffix();
        let now = now_millis();
        proof {
            let p = first_index(self.rows(), id@);
            if p >= 0 {
                assert(crate::select::is_first_with(self.rows(), id@, p));
            }
        }
        let r = self.add_task_at(title, description, due_date, id, suffix.as_str(), now);
        proof {
            crate::task::lemma_rev_counter_of_text(1, suffix@);
        }
        r
    }

    /// Writes `task` over the stored task with its id (if there is one) as a
    /// local update: revision counter plus one with the given suffix,
    /// `updated_at = now`, every other field as supplied.
    pub fn update_task_at(&mut self, task: &Task, rev_suffix: &str, now: i64) -> (r: Task)
        requires
            old(self).wf(),
        ensures
            final(self).wf(),
            final(self).cursor() == old(self).cursor(),
            is_revision_of(r, *task, rev_suffix@, now),
            final(self).rows() == replaced(old(self).rows(), r),
    {
        let counter = parse_rev_counter(&task.rev);
        let t = Task {
            id: task.id.clone(),
            rev: Some(make_rev(counter + 1, rev_suffix)),
            title: task.title.clone(),
            description: copy_text(&task.description),
            completed: task.completed,
            due_date: copy_text(&task.due_date),
            updated_at: now,
            order: task.order,
            deleted: task.deleted,
        };
        match find_task(&self.tasks, t.id.as_str()) {
            Some(p) => {
                let ghost before = self.tasks@;
                self.tasks.set(p, t.duplicate());
                proof {
                    lemma_distinct_after_update(before, p as int, t);
                }
            },
            None => {},
        }
        t
    }

    /// `update_task_at` with a fresh revision suffix and the current time.
    pub fn update_task(&mut self, task: &Task) -> (r: Task)
        requires
            old(self).wf(),
        ensures
            final(self).wf(),
            final(self).cursor() == old(self).cursor(),
            r.id == task.id,
            r.title == task.title,
            r.description == task.description,
            r.completed == task.completed,
            r.due_date == task.due_date,
            r.order == task.order,
            r.deleted == task.deleted,
            exists|s: Seq<char>, now: i64|
                is_fresh_suffix(s) && #[trigger] is_revision_of(r, *task, s, now),
            rev_counter(opt_view(task.rev)) < crate::task::MAX_REV_COUNTER ==> rev_counter(
                opt_view(r.rev),
            ) == rev_counter(opt_view(task.rev)) + 1,
            final(self).rows() == replaced(old(self).rows(), r),
    {
        let suffix = fresh_rev_suffix();
        let now = now_millis();
        let r = self.update_task_at(task, suffix.as_str(), now);
        proof {
            if rev_counter(opt_view(task.rev)) < crate::task::MAX_REV_COUNTER {
                crate::task::lemma_rev_counter_of_text(rev_counter(opt_view(task.rev)) + 1, suffix@);
            }
        }
        r
    }

    /// Tombstones the task with id `id` at time `now`; the row is kept.
    pub fn delete_task_at(&mut self, id: &str, now: i64)
        requires
            old(self).wf(),
        ensures
            final(self).wf(),
            final(self).cursor() == old(self).cursor(),
            final(self).rows() == soft_deleted(old(self).rows(), id@, now),
    {
        match find_task(&self.tasks, id) {
            Some(p) => {
                let mut t = self.tasks[p].duplicate();
                t.deleted = true;
                t.updated_at = now;
                let ghost before = self.tasks@;
                self.tasks.set(p, t);
                proof {
                    lemma_distinct_after_update(before, p as int, t);
                    assert(t == Task { deleted: true, updated_at: now, ..before[p as int] });
                }
            },
            None => {},
        }
    }

    /// `delete_task_at` at the current time.
    pub fn delete_task(&mut self, id: &str)
        requires
            old(self).wf(),
        ensures
            final(self).wf(),
            final(self).cursor() == old(self).cursor(),
            exists|now: i64| final(self).rows() == soft_deleted(old(self).rows(), id@, now),
    {
        let now = now_millis();
        self.delete_task_at(id, now);
    }

    /// Flips `completed` of the task with id `id` and stores it as a local
    /// update, in one step.
    pub fn toggle_task_completion_at(&mut self, id: &str, rev_suffix: &str, now: i64) -> (r: Result<
        Task,
        StoreError,
    >)
        requires
            old(self).wf(),
        ensures
            final(self).wf(),
            final(self).cursor() == old(self).cursor(),
            first_index(old(self).rows(), id@) < 0 <==> r == Err::<Task, StoreError>(
                StoreError::TaskNotFound,
            ),
            first_index(old(self).rows(), id@) >= 0 <==> r.is_ok(),
            r.is_err() ==> final(self).rows() == old(self).rows(),
            r matches Ok(t) ==> {
                let p = first_index(old(self).rows(), id@);
                let stored = old(self).rows()[p];
                &&& is_revision_of(t, Task { completed: !stored.completed, ..stored }, rev_suffix@, now)
                &&& final(self).rows() == old(self).rows().update(p, t)
            },
    {
        match find_task(&self.tasks, id) {
            Some(p) => {
                let mut t = self.tasks[p].duplicate();
                t.completed = !t.completed;
                let ghost before = self.tasks@;
                proof {
                    lemma_first_index_distinct(before, p as int);
                }
                let r = self.update_task_at(&t, rev_suffix, now);
                Ok(r)
            },
            None => Err(StoreError::TaskNotFound),
        }
    }

    /// `toggle_task_completion_at` with a fresh revision suffix and the current
    /// time.
    pub fn toggle_task_completion(&mut self, id: &str) -> (r: Result<Task, StoreError>)
        requires
            old(self).wf(),
        ensures
            final(self).wf(),
            final(self).cursor() == old(self).cursor(),
            first_index(old(self).rows(), id@) < 0 <==> r == Err::<Task, StoreError>(
                StoreError::TaskNotFound,
            ),
            first_index(old(self).rows(), id@) >= 0 <==> r.is_ok(),
            r.is_err() ==> final(self).rows() == old(self).rows(),
            r matches Ok(t) ==> {
                let p = first_index(old(self).rows(), id@);
                let stored = old(self).rows()[p];
                &&& t.completed == !stored.completed
                &&& t.id == stored.id
                &&& t.title == stored.title
                &&& t.description == stored.description
                &&& t.due_date == stored.due_date
                &&& t.order == stored.order
                &&& t.deleted == stored.deleted
                &&& exists|s: Seq<char>|
                    is_fresh_suffix(s) && opt_view(t.rev) == Some(
                        #[trigger] rev_text(rev_counter(opt_view(stored.rev)) + 1, s),
                    )
                &&& rev_counter(opt_view(stored.rev)) < crate::task::MAX_REV_COUNTER
                    ==> rev_counter(opt_view(t.rev)) == rev_counter(opt_view(stored.rev)) + 1
                &&& final(self).rows() == old(self).rows().update(p, t)
            },
    {
        let suffix = fresh_rev_suffix();
        let now = now_millis();
        let ghost before = self.rows();
        let r = self.toggle_task_completion_at(id, suffix.as_str(), now);
        proof {
            if r.is_ok() {
                let stored = before[first_index(before, id@)];
                if rev_counter(opt_view(stored.rev)) < crate::task::MAX_REV_COUNTER {
                    crate::task::lemma_rev_counter_of_text(
                        rev_counter(opt_view(stored.rev)) + 1,
                        suffix@,
                    );
                }
            }
        }
        r
    }

    /// Applies a task received from the remote: inserted when its id is new,
    /// written over the stored task only when strictly newer, else ignored.
    pub fn upsert_from_remote(&mut self, task: &Task)
        requires
            old(self).wf(),
        ensures
            final(self).wf(),
            final(self).cursor() == old(self).cursor(),
            final(self).rows() == upserted(old(self).rows(), *task),
    {
        let ghost before = self.tasks@;
        match find_task(&self.tasks, task.id.as_str()) {
            Some(p) => {
                if task.updated_at > self.tasks[p].updated_at {
                    self.tasks.set(p, task.duplicate());
                    proof {
                        lemma_distinct_after_update(before, p as int, *task);
                    }
                }
            },
            None => {
                proof {
                    lemma_first_index_absent_from(before, task.id@);
                }
                self.tasks.push(task.duplicate());
                proof {
                    assert forall|i: int, j: int|
                        0 <= i < self.tasks@.len() && 0 <= j < self.tasks@.len() && i != j
                        implies self.tasks@[i].id@ != self.tasks@[j].id@ by {
                        if i < before.len() && j < before.len() {
                        } else if i < before.len() {
                            assert(before[i].id@ != task.id@);
                        } else {
                            assert(before[j].id@ != task.id@);
                        }
                    }
                }
            },
        }
    }

    /// The feed token of the persisted cursor, if one was written.
    pub fn get_last_sync_seq(&self) -> (r: Option<String>)
        ensures
            match self.cursor() {
                Some(c) => r matches Some(s) && s@ == c.0,
                None => r.is_none(),
            },
    {
        match &self.cursor {
            Some(c) => Some(c.last_seq.clone()),
            None => None,
        }
    }

    /// When the persisted cursor was written, if it was.
    pub fn get_last_synced_at(&self) -> (r: Option<i64>)
        ensures
            match self.cursor() {
                Some(c) => r == Some(c.1),
                None => r.is_none(),
            },
    {
        match &self.cursor {
            Some(c) => Some(c.last_synced_at),
            None => None,
        }
    }

    /// Writes the cursor: the feed token `seq`, synced at `now`.
    pub fn set_last_sync_seq_at(&mut self, seq: &str, now: i64)
        requires
            old(self).wf(),
        ensures
            final(self).wf(),
            final(self).rows() == old(self).rows(),
            final(self).cursor() == Some((seq@, now)),
    {
        self.cursor = Some(SyncCursor { last_seq: String::from_str(seq), last_synced_at: now });
    }

    /// `set_last_sync_seq_at` at the current time.
    pub fn set_last_sync_seq(&mut self, seq: &str)
        requires
            old(self).wf(),
        ensures
            final(self).wf(),
            final(self).rows() == old(self).rows(),
            final(self).cursor() matches Some(c) && c.0 == seq@,
    {
        let now = now_millis();
        self.set_last_sync_seq_at(seq, now);
    }

    fn swap_orders(&mut self, a: usize, b: usize, now: i64)
        requires
            old(self).wf(),
            a < old(self).rows().len(),
            b < old(self).rows().len(),
        ensures
            final(self).wf(),
            final(self).cursor() == old(self).cursor(),
            final(self).rows() == swapped(old(self).rows(), a as int, b as int, now),
    {
        let ghost before = self.tasks@;
        let mut ta = self.tasks[a].duplicate();
        let mut tb = self.tasks[b].duplicate();
        let oa = ta.order;
        ta.order = tb.order;
        ta.updated_at = now;
        tb.order = oa;
        tb.updated_at = now;
        self.tasks.set(a, ta);
        proof {
            lemma_distinct_after_update(before, a as int, ta);
        }
        let ghost mid = self.tasks@;
        self.tasks.set(b, tb);
        proof {
            lemma_distinct_after_update(mid, b as int, tb);
        }
    }

    fn find_live(&self, id: &str) -> (r: Option<usize>)
        ensures
            match r {
                Some(p) => p as int == live_index(self.rows(), id@) && p < self.rows().len(),
                None => live_index(self.rows(), id@) < 0,
            },
    {
        match find_task(&self.tasks, id) {
            Some(p) => {
                if self.tasks[p].deleted {
                    None
                } else {
                    Some(p)
                }
            },
            None => None,
        }
    }

    /// Moves task `task_id` to the place of task `target_task_id` by
    /// exchanging their orders, both stamped with `now`.
    pub fn move_task_to_position_at(&mut self, task_id: &str, target_task_id: &str, now: i64) -> (r:
        Result<(), StoreError>)
        requires
            old(self).wf(),
        ensures
            final(self).wf(),
            final(self).cursor() == old(self).cursor(),
            match moved(old(self).rows(), task_id@, target_task_id@, now) {
                Ok(rows) => r.is_ok() && final(self).rows() == rows,
                Err(e) => r == Err::<(), StoreError>(e) && final(self).rows() == old(self).rows(),
            },
    {
        let pa = match self.find_live(task_id) {
            Some(p) => p,
            None => return Err(StoreError::TaskNotFound),
        };
        let pb = match self.find_live(target_task_id) {
            Some(p) => p,
            None => return Err(StoreError::TargetNotFound),
        };
        if pa == pb {
            return Ok(());
        }
        self.swap_orders(pa, pb, now);
        Ok(())
    }

    /// `move_task_to_position_at` at the current time.
    pub fn move_task_to_position(&mut self, task_id: &str, target_task_id: &str) -> (r: Result<
        (),
        StoreError,
    >)
        requires
            old(self).wf(),
        ensures
            final(self).wf(),
            final(self).cursor() == old(self).cursor(),
            exists|now: i64|
                match #[trigger] moved(old(self).rows(), task_id@, target_task_id@, now) {
                    Ok(rows) => r.is_ok() && final(self).rows() == rows,
                    Err(e) => r == Err::<(), StoreError>(e) && final(self).rows() == old(
                        self,
                    ).rows(),
                },
    {
        let now = now_millis();
        self.move_task_to_position_at(task_id, target_task_id, now)
    }

    /// Moves task `task_id` one step up or down the listing by exchanging
    /// orders with its neighbour there; nothing changes at the matching end.
    pub fn reorder_task_at(&mut self, task_id: &str, direction: Direction, now: i64) -> (r: Result<
        (),
        StoreError,
    >)
        requires
            old(self).wf(),
        ensures
            final(self).wf(),
            final(self).cursor() == old(self).cursor(),
            match reordered(old(self).rows(), task_id@, direction, now) {
                Ok(rows) => r.is_ok() && final(self).rows() == rows,
                Err(e) => r == Err::<(), StoreError>(e) && final(self).rows() == old(self).rows(),
            },
    {
        let listing = select_sorted(&self.tasks, Selection::Live);
        let k = match find_task(&listing, task_id) {
            Some(k) => k,
            None => return Err(StoreError::TaskNotFound),
        };
        let n: usize = match direction {
            Direction::Up => {
                if k == 0 {
                    return Ok(());
                }
                k - 1
            },
            Direction::Down => {
                if k == listing.len() - 1 {
                    return Ok(());
                }
                k + 1
            },
        };
        let ghost rows = self.tasks@;
        proof {
            lemma_listed_is_stored(rows, listing@, k as int);
            lemma_listed_is_stored(rows, listing@, n as int);
        }
        let pa = match find_task(&self.tasks, task_id) {
            Some(p) => p,
            None => return Err(StoreError::TaskNotFound),
        };
        let pb = match find_task(&self.tasks, listing[n].id.as_str()) {
            Some(p) => p,
            None => return Err(StoreError::TaskNotFound),
        };
        self.swap_orders(pa, pb, now);
        Ok(())
    }

    /// `reorder_task_at` at the current time; `direction` is `"up"` or else
    /// down.
    pub fn reorder_task(&mut self, task_id: &str, direction: &str) -> (r: Result<(), StoreError>)
        requires
            old(self).wf(),
        ensures
            final(self).wf(),
            final(self).cursor() == old(self).cursor(),
            exists|now: i64|
                match #[trigger] reordered(
                    old(self).rows(),
                    task_id@,
                    Direction::from_text_spec(direction@),
                    now,
                ) {
                    Ok(rows) => r.is_ok() && final(self).rows() == rows,
                    Err(e) => r == Err::<(), StoreError>(e) && final(self).rows() == old(
                        self,
                    ).rows(),
                },
    {
        let dir = Direction::from_text(direction);
        let now = now_millis();
        self.reorder_task_at(task_id, dir, now)
    }
}

/// A task in the listing is stored, and the store finds a task by its id.
proof fn lemma_listed_is_stored(rows: Seq<Task>, listing: Seq<Task>, k: int)
    requires
        listing == selection(rows, Selection::Live),
        0 <= k < listing.len(),
    ensures
        0 <= first_index(rows, listing[k].id@) < rows.len(),
{
    crate::select::lemma_selection_members(rows, Selection::Live, listing[k]);
    assert(listing.contains(listing[k]));
    let i = choose|i: int| 0 <= i < rows.len() && rows[i] == listing[k];
    lemma_first_index_found(rows, listing[k].id@, i);
}

/// No index holds the id when `first_index` finds none.
proof fn lemma_first_index_absent_from(rows: Seq<Task>, id: Seq<char>)
    requires
        first_index(rows, id) < 0,
    ensures
        forall|i: int| 0 <= i < rows.len() ==> rows[i].id@ != id,
{
    assert forall|i: int| 0 <= i < rows.len() implies rows[i].id@ != id by {
        if rows[i].id@ == id {
            lemma_first_index_found(rows, id, i);
        }
    }
}

/// Writing a task over one with the same id keeps ids unique.
proof fn lemma_distinct_after_update(rows: Seq<Task>, p: int, t: Task)
    requires
        distinct_ids(rows),
        0 <= p < rows.len(),
        rows[p].id@ == t.id@,
    ensures
        distinct_ids(rows.update(p, t)),
{
    let r = rows.update(p, t);
    assert forall|i: int, j: int| 0 <= i < r.len() && 0 <= j < r.len() && i != j implies r[i].id@
        != r[j].id@ by {
        assert(r[i].id@ == rows[i].id@);
        assert(r[j].id@ == rows[j].id@);
    }
}

} // verus!
