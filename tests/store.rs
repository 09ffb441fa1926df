use taskly::remote::{changes_url, doc_url, task_from_change};
use taskly::task::{make_rev, parse_rev_counter};
use taskly::{ChangeBatch, ChangeEntry, Database, Direction, RemoteDoc, StoreError, Task};

fn add(db: &mut Database, id: &str, title: &str, now: i64) -> Task {
    db.add_task_at(title.to_string(), None, None, id.to_string(), "s", now).unwrap()
}

fn ids(tasks: &[Task]) -> Vec<String> {
    tasks.iter().map(|t| t.id.clone()).collect()
}

fn orders(db: &Database) -> Vec<(String, i32)> {
    db.all_tasks().iter().map(|t| (t.id.clone(), t.order)).collect()
}

fn remote(id: &str, title: &str, updated_at: i64, order: i32, deleted: Option<bool>) -> RemoteDoc {
    RemoteDoc {
        id: id.to_string(),
        rev: Some("3-remote".to_string()),
        title: title.to_string(),
        description: None,
        completed: false,
        due_date: None,
        updated_at,
        order,
        deleted,
    }
}

fn entry(doc: Option<RemoteDoc>, deleted: Option<bool>) -> ChangeEntry {
    ChangeEntry { id: "x".to_string(), seq: "1".to_string(), doc, deleted }
}

#[test]
fn create_on_empty_store_gets_order_one() {
    let mut db = Database::new();
    let t = db
        .add_task_at("Buy milk".to_string(), Some("2 l".to_string()), Some("2024-05-01".to_string()),
            "a".to_string(), "abc", 1000)
        .unwrap();
    assert_eq!(t.order, 1);
    assert_eq!(t.rev.as_deref(), Some("1-abc"));
    assert_eq!(t.title, "Buy milk");
    assert_eq!(t.description.as_deref(), Some("2 l"));
    assert_eq!(t.due_date.as_deref(), Some("2024-05-01"));
    assert_eq!(t.updated_at, 1000);
    assert!(!t.completed);
    assert!(!t.deleted);
}

#[test]
fn create_uses_largest_live_order_plus_one() {
    let mut db = Database::new();
    add(&mut db, "a", "A", 1);
    add(&mut db, "b", "B", 2);
    let c = add(&mut db, "c", "C", 3);
    assert_eq!(c.order, 3);
    db.delete_task_at("c", 4);
    let d = add(&mut db, "d", "D", 5);
    assert_eq!(d.order, 3);
}

#[test]
fn create_with_taken_id_is_refused() {
    let mut db = Database::new();
    add(&mut db, "a", "A", 1);
    let r = db.add_task_at("B".to_string(), None, None, "a".to_string(), "s", 2);
    assert_eq!(r.err(), Some(StoreError::DuplicateId));
    assert_eq!(db.all_tasks().len(), 1);
}

#[test]
fn create_when_orders_are_exhausted_is_refused() {
    let mut db = Database::new();
    let mut t = add(&mut db, "a", "A", 1);
    t.order = i32::MAX;
    t.updated_at = 2;
    db.upsert_from_remote(&t);
    let r = db.add_task_at("B".to_string(), None, None, "b".to_string(), "s", 3);
    assert_eq!(r.err(), Some(StoreError::OrderExhausted));
}

#[test]
fn add_task_stamps_fresh_id_and_revision() {
    let mut db = Database::new();
    let t = db.add_task("Read".to_string(), None, None).unwrap();
    assert_eq!(t.id.len(), 36);
    let rev = t.rev.clone().unwrap();
    assert!(rev.starts_with("1-"));
    assert_eq!(rev.len(), 34);
    assert!(rev[2..].chars().all(|c| c.is_ascii_digit() || ('a'..='f').contains(&c)));
    assert_eq!(t.order, 1);
    let u = db.add_task("Write".to_string(), None, None).unwrap();
    assert_ne!(t.id, u.id);
    assert_eq!(u.order, 2);
}

#[test]
fn update_increments_revision_counter() {
    let mut db = Database::new();
    let mut t = add(&mut db, "a", "A", 10);
    t.rev = Some("5-old".to_string());
    t.title = "Changed".to_string();
    let r = db.update_task_at(&t, "new", 20);
    assert_eq!(r.rev.as_deref(), Some("6-new"));
    assert_eq!(r.updated_at, 20);
    assert_eq!(r.title, "Changed");
    let stored = &db.all_tasks()[0];
    assert_eq!(stored.title, "Changed");
    assert_eq!(stored.rev.as_deref(), Some("6-new"));
}

#[test]
fn update_with_unreadable_revision_starts_at_one() {
    let mut db = Database::new();
    let mut t = add(&mut db, "a", "A", 10);
    t.rev = Some("x7-old".to_string());
    assert_eq!(db.update_task_at(&t, "n", 11).rev.as_deref(), Some("1-n"));
    t.rev = None;
    assert_eq!(db.update_task_at(&t, "n", 12).rev.as_deref(), Some("1-n"));
}

#[test]
fn update_task_draws_a_fresh_suffix() {
    let mut db = Database::new();
    let t = add(&mut db, "a", "A", 10);
    let r = db.update_task(&t);
    let rev = r.rev.unwrap();
    assert!(rev.starts_with("2-"));
    assert_eq!(rev.len(), 34);
    assert_ne!(rev, "2-s");
}

#[test]
fn update_of_unknown_id_changes_nothing() {
    let mut db = Database::new();
    add(&mut db, "a", "A", 10);
    let mut t = add(&mut db, "b", "B", 11);
    t.id = "zzz".to_string();
    db.update_task_at(&t, "n", 12);
    assert_eq!(ids(&db.all_tasks()), vec!["a", "b"]);
}

#[test]
fn revision_counter_reading() {
    assert_eq!(parse_rev_counter(&Some("12-abc".to_string())), 12);
    assert_eq!(parse_rev_counter(&Some("7".to_string())), 7);
    assert_eq!(parse_rev_counter(&Some("-3".to_string())), 0);
    assert_eq!(parse_rev_counter(&Some("1a-3".to_string())), 0);
    assert_eq!(parse_rev_counter(&Some("2147483648-x".to_string())), 2147483648);
    assert_eq!(parse_rev_counter(&Some("18446744073709551614-x".to_string())), 18446744073709551614);
    assert_eq!(parse_rev_counter(&Some("18446744073709551615-x".to_string())), 0);
    assert_eq!(parse_rev_counter(&None), 0);
    assert_eq!(make_rev(42, "ff"), "42-ff");
    assert_eq!(make_rev(0, ""), "0-");
}

#[test]
fn toggle_flips_completion_and_revises() {
    let mut db = Database::new();
    add(&mut db, "a", "A", 10);
    let t = db.toggle_task_completion_at("a", "t", 20).unwrap();
    assert!(t.completed);
    assert_eq!(t.rev.as_deref(), Some("2-t"));
    assert_eq!(t.updated_at, 20);
    let t = db.toggle_task_completion_at("a", "u", 30).unwrap();
    assert!(!t.completed);
    assert_eq!(t.rev.as_deref(), Some("3-u"));
    assert_eq!(db.toggle_task_completion_at("q", "u", 30).err(), Some(StoreError::TaskNotFound));
    assert!(db.toggle_task_completion("a").unwrap().completed);
}

#[test]
fn list_is_sorted_by_order_without_tombstones() {
    let mut db = Database::new();
    add(&mut db, "a", "A", 1);
    add(&mut db, "b", "B", 2);
    add(&mut db, "c", "C", 3);
    let mut c = db.all_tasks()[2].clone();
    c.order = -4;
    c.updated_at = 10;
    db.upsert_from_remote(&c);
    db.delete_task_at("b", 11);
    assert_eq!(ids(&db.get_all_tasks()), vec!["c", "a"]);
}

#[test]
fn changes_since_orders_by_time_and_keeps_tombstones() {
    let mut db = Database::new();
    add(&mut db, "a", "A", 30);
    add(&mut db, "b", "B", 10);
    add(&mut db, "c", "C", 20);
    db.delete_task_at("a", 40);
    assert_eq!(ids(&db.get_changes_since(10)), vec!["c", "a"]);
    assert!(db.get_changes_since(10)[1].deleted);
    assert_eq!(ids(&db.get_changes_since(0)), vec!["b", "c", "a"]);
    assert!(db.get_changes_since(40).is_empty());
}

#[test]
fn soft_delete_hides_from_list_but_not_from_changes() {
    let mut db = Database::new();
    add(&mut db, "a", "A", 100);
    add(&mut db, "b", "B", 100);
    db.delete_task_at("a", 200);
    assert_eq!(ids(&db.get_all_tasks()), vec!["b"]);
    let changes = db.get_changes_since(150);
    assert_eq!(ids(&changes), vec!["a"]);
    assert!(changes[0].deleted);
    assert_eq!(db.all_tasks().len(), 2);
    db.delete_task("b");
    assert!(db.get_all_tasks().is_empty());
}

#[test]
fn remote_write_last_wins() {
    let mut db = Database::new();
    add(&mut db, "a", "Local", 100);
    let mut older = db.all_tasks()[0].clone();
    older.title = "Older".to_string();
    older.updated_at = 90;
    db.upsert_from_remote(&older);
    assert_eq!(db.all_tasks()[0].title, "Local");
    older.updated_at = 100;
    db.upsert_from_remote(&older);
    assert_eq!(db.all_tasks()[0].title, "Local");
    let mut newer = older.clone();
    newer.title = "Newer".to_string();
    newer.updated_at = 101;
    db.upsert_from_remote(&newer);
    assert_eq!(db.all_tasks()[0].title, "Newer");
    db.upsert_from_remote(&newer);
    assert_eq!(db.all_tasks().len(), 1);
    assert_eq!(db.all_tasks()[0].updated_at, 101);
    let mut fresh = newer.clone();
    fresh.id = "b".to_string();
    db.upsert_from_remote(&fresh);
    assert_eq!(ids(&db.all_tasks()), vec!["a", "b"]);
}

#[test]
fn reorder_at_the_ends_is_a_no_op() {
    let mut db = Database::new();
    add(&mut db, "a", "A", 1);
    add(&mut db, "b", "B", 2);
    add(&mut db, "c", "C", 3);
    let before = db.all_tasks();
    assert_eq!(db.reorder_task_at("a", Direction::Up, 9), Ok(()));
    assert_eq!(db.reorder_task_at("c", Direction::Down, 9), Ok(()));
    let after = db.all_tasks();
    assert_eq!(ids(&after), ids(&before));
    assert!(after.iter().zip(before.iter()).all(|(x, y)| x.order == y.order && x.updated_at == y.updated_at));
}

#[test]
fn reorder_swaps_with_neighbour() {
    let mut db = Database::new();
    add(&mut db, "a", "A", 1);
    add(&mut db, "b", "B", 2);
    add(&mut db, "c", "C", 3);
    assert_eq!(db.reorder_task_at("c", Direction::Up, 9), Ok(()));
    assert_eq!(ids(&db.get_all_tasks()), vec!["a", "c", "b"]);
    assert_eq!(db.all_tasks()[2].updated_at, 9);
    assert_eq!(db.reorder_task("a", "down"), Ok(()));
    assert_eq!(ids(&db.get_all_tasks()), vec!["c", "a", "b"]);
    assert_eq!(db.reorder_task("zz", "up"), Err(StoreError::TaskNotFound));
    db.delete_task_at("b", 10);
    assert_eq!(db.reorder_task("b", "up"), Err(StoreError::TaskNotFound));
}

#[test]
fn direction_from_text() {
    assert_eq!(Direction::from_text("up"), Direction::Up);
    assert_eq!(Direction::from_text("down"), Direction::Down);
    assert_eq!(Direction::from_text("UP"), Direction::Down);
}

#[test]
fn move_twice_restores_orders() {
    let mut db = Database::new();
    add(&mut db, "a", "A", 1);
    add(&mut db, "b", "B", 2);
    add(&mut db, "c", "C", 3);
    let before = orders(&db);
    assert_eq!(db.move_task_to_position_at("a", "c", 5), Ok(()));
    assert_eq!(ids(&db.get_all_tasks()), vec!["c", "b", "a"]);
    assert_eq!(db.move_task_to_position("a", "c"), Ok(()));
    assert_eq!(orders(&db), before);
}

#[test]
fn move_errors_and_self_move() {
    let mut db = Database::new();
    add(&mut db, "a", "A", 1);
    add(&mut db, "b", "B", 2);
    assert_eq!(db.move_task_to_position_at("x", "b", 5), Err(StoreError::TaskNotFound));
    assert_eq!(db.move_task_to_position_at("a", "x", 5), Err(StoreError::TargetNotFound));
    assert_eq!(db.move_task_to_position_at("a", "a", 5), Ok(()));
    assert_eq!(db.all_tasks()[0].updated_at, 1);
}

#[test]
fn cursor_is_absent_then_written() {
    let mut db = Database::new();
    assert_eq!(db.get_last_sync_seq(), None);
    assert_eq!(db.pull_since(), "0");
    assert_eq!(db.get_last_synced_at(), None);
    db.set_last_sync_seq_at("17-abc", 5);
    assert_eq!(db.get_last_sync_seq().as_deref(), Some("17-abc"));
    assert_eq!(db.get_last_synced_at(), Some(5));
    assert_eq!(db.pull_since(), "17-abc");
    db.set_last_sync_seq("18-x");
    assert_eq!(db.pull_since(), "18-x");
}

#[test]
fn feed_entry_to_task() {
    assert!(task_from_change(&entry(None, None)).is_none());
    assert!(task_from_change(&entry(Some(remote("_design/app", "D", 1, 1, None)), None)).is_none());
    let t = task_from_change(&entry(Some(remote("a", "A", 7, 2, None)), None)).unwrap();
    assert_eq!(t.id, "a");
    assert_eq!(t.rev.as_deref(), Some("3-remote"));
    assert_eq!(t.updated_at, 7);
    assert_eq!(t.order, 2);
    assert!(!t.deleted);
    assert!(task_from_change(&entry(Some(remote("a", "A", 7, 2, None)), Some(true))).unwrap().deleted);
    assert!(task_from_change(&entry(Some(remote("a", "A", 7, 2, Some(true))), Some(false))).unwrap().deleted);
}

#[test]
fn pull_with_remote_newer_takes_remote_title() {
    let mut db = Database::new();
    add(&mut db, "A", "X", 100);
    let batch = ChangeBatch {
        results: vec![entry(Some(remote("A", "Y", 200, 1, None)), None)],
        last_seq: "9".to_string(),
    };
    db.apply_change_batch_at(&batch, 300);
    let t = &db.all_tasks()[0];
    assert_eq!(t.title, "Y");
    assert_eq!(t.updated_at, 200);
}

#[test]
fn pull_applies_tombstone_and_create_and_moves_cursor() {
    let mut db = Database::new();
    add(&mut db, "gone", "G", 100);
    let batch = ChangeBatch {
        results: vec![
            entry(Some(remote("gone", "G", 150, 1, None)), Some(true)),
            entry(Some(remote("new", "N", 160, 2, None)), None),
        ],
        last_seq: "42-g1AAAA".to_string(),
    };
    db.apply_change_batch_at(&batch, 300);
    let all = db.all_tasks();
    assert_eq!(all.len(), 2);
    assert!(all[0].deleted);
    assert_eq!(all[0].id, "gone");
    assert!(!all[1].deleted);
    assert_eq!(all[1].id, "new");
    assert_eq!(ids(&db.get_all_tasks()), vec!["new"]);
    assert_eq!(db.get_last_sync_seq().as_deref(), Some("42-g1AAAA"));
}

#[test]
fn empty_pull_still_writes_cursor() {
    let mut db = Database::new();
    db.apply_change_batch(&ChangeBatch { results: vec![], last_seq: "5".to_string() });
    assert_eq!(db.get_last_sync_seq().as_deref(), Some("5"));
    assert!(db.all_tasks().is_empty());
}

#[test]
fn request_urls() {
    assert_eq!(doc_url("http://h:5984/db", "a1"), "http://h:5984/db/a1");
    assert_eq!(changes_url("http://h/db", "0"), "http://h/db/_changes?include_docs=true&since=0");
}

#[test]
fn toggle_keeps_other_fields() {
    let mut db = Database::new();
    db.add_task_at("A".to_string(), Some("d".to_string()), Some("2024-02-03".to_string()), "a".to_string(), "s", 10).unwrap();
    let t = db.toggle_task_completion("a").unwrap();
    assert_eq!(t.description.as_deref(), Some("d"));
    assert_eq!(t.due_date.as_deref(), Some("2024-02-03"));
    assert!(!t.deleted);
    assert_eq!(parse_rev_counter(&t.rev), 2);
    let u = db.toggle_task_completion("a").unwrap();
    assert!(!u.completed);
    assert_eq!(parse_rev_counter(&u.rev), 3);
    assert_eq!(u.rev.unwrap().len(), 34);
}
