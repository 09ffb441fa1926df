//! The remote side of replication: documents, the change feed, the
//! requests' URLs and how their responses are read; and the pull phase
//! applied to the store.
use vstd::prelude::*;
use crate::store::{upserted, Database};
use crate::task::{copy_text, Task};
use crate::text::has_prefix;

verus! {

/// A task as the remote stores it. `rev` is the remote's version token.
#[derive(Clone, Debug)]
pub struct RemoteDoc {
    pub id: String,
    pub rev: Option<String>,
    pub title: String,
    pub description: Option<String>,
    pub completed: bool,
    pub due_date: Option<String>,
    pub updated_at: i64,
    pub order: i32,
    pub deleted: Option<bool>,
}

/// One entry of the change feed.
#[derive(Clone, Debug)]
pub struct ChangeEntry {
    pub id: String,
    pub seq: String,
    pub doc: Option<RemoteDoc>,
    pub deleted: Option<bool>,
}

/// One batch of the change feed and the cursor that follows it.
#[derive(Clone, Debug)]
pub struct ChangeBatch {
    pub results: Vec<ChangeEntry>,
    pub last_seq: String,
}

/// How the remote answered a document write.
#[derive(PartialEq, Eq, Structural, Debug, Clone, Copy)]
pub enum PutOutcome {
    Written,
    /// A version conflict: left for the next pull to settle.
    Conflict,
    Rejected,
}

pub open spec fn is_success_status(status: u16) -> bool {
    200 <= status <= 299
}

/// A 2xx status.
pub fn is_success(status: u16) -> (r: bool)
    ensures
        r == is_success_status(status),
{
    200 <= status && status <= 299
}

/// Creating the remote collection succeeded, or it existed already (412).
pub fn remote_ready(status: u16) -> (r: bool)
    ensures
        r == (is_success_status(status) || status == 412),
{
    is_success(status) || status == 412
}

/// Reads the status of a document write.
pub fn classify_put(status: u16) -> (r: PutOutcome)
    ensures
        is_success_status(status) ==> r == PutOutcome::Written,
        status == 409 ==> r == PutOutcome::Conflict,
        !is_success_status(status) && status != 409 ==> r == PutOutcome::Rejected,
{
    if is_success(status) {
        PutOutcome::Written
    } else if status == 409 {
        PutOutcome::Conflict
    } else {
        PutOutcome::Rejected
    }
}

/// The version token to write against, from the fetch of the remote copy:
/// that copy's token (empty if it has none) when the fetch succeeded, none
/// when the document is absent.
pub fn known_revision(status: u16, fetched_rev: Option<String>) -> (r: Option<String>)
    ensures
        !is_success_status(status) ==> r.is_none(),
        is_success_status(status) ==> match fetched_rev {
            Some(v) => r == Some(v),
            None => r matches Some(v) && v@.len() == 0,
        },
{
    if is_success(status) {
        match fetched_rev {
            Some(v) => Some(v),
            None => Some(String::new()),
        }
    } else {
        None
    }
}

/// The push decision for one task, given the status of the fetch of its
/// remote copy and that copy: nothing is written when the remote copy is
/// strictly newer (the pull brings it in); otherwise the local fields are
/// written against the remote copy's version token, or as a create when the
/// remote has none.
pub fn push_plan(task: &Task, status: u16, fetched: Option<RemoteDoc>) -> (r: Option<RemoteDoc>)
    ensures
        remote_is_newer(status, fetched, *task) <==> r.is_none(),
        r matches Some(doc) ==> {
            &&& mirrors(doc, *task)
            &&& !is_success_status(status) ==> doc.rev.is_none()
            &&& is_success_status(status) ==> match fetched {
                Some(d) => match d.rev {
                    Some(v) => doc.rev == Some(v),
                    None => doc.rev matches Some(v) && v@.len() == 0,
                },
                None => doc.rev matches Some(v) && v@.len() == 0,
            }
        },
{
    let newer = is_success(status) && match &fetched {
        Some(d) => d.updated_at > task.updated_at,
        None => false,
    };
    if newer {
        return None;
    }
    let rev = match fetched {
        Some(d) => d.rev,
        None => None,
    };
    Some(remote_doc_for(task, known_revision(status, rev)))
}

/// `<db url>/<id>`.
pub fn doc_url(db_url: &str, id: &str) -> (r: String)
    ensures
        r@ == db_url@ + "/"@ + id@,
{
    let mut r = String::from_str(db_url);
    proof { reveal_strlit("/"); }
    r.append("/");
    r.append(id);
    r
}

/// The change feed request since cursor `since`, documents included.
pub fn changes_url(db_url: &str, since: &str) -> (r: String)
    ensures
        r@ == db_url@ + "/_changes?include_docs=true&since="@ + since@,
{
    let mut r = String::from_str(db_url);
    proof { reveal_strlit("/_changes?include_docs=true&since="); }
    r.append("/_changes?include_docs=true&since=");
    r.append(since);
    r
}

/// `d` carries the fields of `t`; a tombstone is marked deleted.
pub open spec fn mirrors(d: RemoteDoc, t: Task) -> bool {
    &&& d.id == t.id
    &&& d.title == t.title
    &&& d.description == t.description
    &&& d.completed == t.completed
    &&& d.due_date == t.due_date
    &&& d.updated_at == t.updated_at
    &&& d.order == t.order
    &&& d.deleted == (if t.deleted { Some(true) } else { None::<bool> })
}

/// The remote copy, as fetched, is strictly newer than the local task.
pub open spec fn remote_is_newer(status: u16, fetched: Option<RemoteDoc>, t: Task) -> bool {
    is_success_status(status) && (fetched matches Some(d) && d.updated_at > t.updated_at)
}

/// The document that the push phase writes for `task`, carrying the remote
/// version token `remote_rev`.
pub fn remote_doc_for(task: &Task, remote_rev: Option<String>) -> (r: RemoteDoc)
    ensures
        mirrors(r, *task),
        r.rev == remote_rev,
{
    RemoteDoc {
        id: task.id.clone(),
        rev: remote_rev,
        title: task.title.clone(),
        description: copy_text(&task.description),
        completed: task.completed,
        due_date: copy_text(&task.due_date),
        updated_at: task.updated_at,
        order: task.order,
        deleted: if task.deleted { Some(true) } else { None },
    }
}

pub open spec fn flag_set(f: Option<bool>) -> bool {
    f == Some(true)
}

/// The task that a feed entry carries: none without a document or for a
/// design document; deleted when either the entry or the document says so.
pub open spec fn change_task(e: ChangeEntry) -> Option<Task> {
    match e.doc {
        None => None,
        Some(d) => if 7 <= d.id@.len() && d.id@.take(7) == "_design"@ {
            None
        } else {
            Some(
                Task {
                    id: d.id,
                    rev: d.rev,
                    title: d.title,
                    description: d.description,
                    completed: d.completed,
                    due_date: d.due_date,
                    updated_at: d.updated_at,
                    order: d.order,
                    deleted: flag_set(e.deleted) || flag_set(d.deleted),
                },
            )
        },
    }
}

/// Reads the task out of a feed entry.
pub fn task_from_change(entry: &ChangeEntry) -> (r: Option<Task>)
    ensures
        r == change_task(*entry),
{
    match &entry.doc {
        None => None,
        Some(d) => {
            proof { reveal_strlit("_design"); }
            if has_prefix(d.id.as_str(), "_design") {
                None
            } else {
                let deleted = entry.deleted == Some(true) || d.deleted == Some(true);
                Some(
                    Task {
                        id: d.id.clone(),
                        rev: copy_text(&d.rev),
                        title: d.title.clone(),
                        description: copy_text(&d.description),
                        completed: d.completed,
                        due_date: copy_text(&d.due_date),
                        updated_at: d.updated_at,
                        order: d.order,
                        deleted,
                    },
                )
            }
        },
    }
}

/// The stored tasks after applying a batch of feed entries in turn.
pub open spec fn applied(rows: Seq<Task>, entries: Seq<ChangeEntry>) -> Seq<Task>
    decreases entries.len(),
{
    if entries.len() == 0 {
        rows
    } else {
        let prev = applied(rows, entries.drop_last());
        match change_task(entries.last()) {
            Some(t) => upserted(prev, t),
            None => prev,
        }
    }
}

impl Database {
    /// The cursor to read the feed from: the persisted one, or `"0"`.
    pub fn pull_since(&self) -> (r: String)
        ensures
            match self.cursor() {
                Some(c) => r@ == c.0,
                None => r@ == "0"@,
            },
    {
        match self.get_last_sync_seq() {
            Some(s) => s,
            None => String::from_str("0"),
        }
    }

    /// The pull phase on a fetched batch: every entry that carries a task is
    /// applied with last-write-wins, then the batch's cursor is written at
    /// time `now`, also when the batch is empty.
    pub fn apply_change_batch_at(&mut self, batch: &ChangeBatch, now: i64)
        requires
            old(self).wf(),
        ensures
            final(self).wf(),
            final(self).rows() == applied(old(self).rows(), batch.results@),
            final(self).cursor() == Some((batch.last_seq@, now)),
    {
        let ghost start = self.rows();
        let mut i: usize = 0;
        while i < batch.results.len()
            invariant
                self.wf(),
                i <= batch.results@.len(),
                self.rows() == applied(start, batch.results@.take(i as int)),
            decreases batch.results@.len() - i,
        {
            proof {
                assert(batch.results@.take(i + 1).drop_last() =~= batch.results@.take(i as int));
                assert(batch.results@.take(i + 1).last() == batch.results@[i as int]);
            }
            match task_from_change(&batch.results[i]) {
                Some(t) => self.upsert_from_remote(&t),
                None => {},
            }
            i = i + 1;
        }
        assert(batch.results@.take(i as int) =~= batch.results@);
        self.set_last_sync_seq_at(batch.last_seq.as_str(), now);
    }

    /// `apply_change_batch_at` at the current time.
    pub fn apply_change_batch(&mut self, batch: &ChangeBatch)
        requires
            old(self).wf(),
        ensures
            final(self).wf(),
            final(self).rows() == applied(old(self).rows(), batch.results@),
            final(self).cursor() matches Some(c) && c.0 == batch.last_seq@,
    {
        let now = crate::clock::now_millis();
        self.apply_change_batch_at(batch, now);
    }
}

} // verus!
