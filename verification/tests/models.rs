use chrono::{DateTime, Utc};
use task_tracker::models::list::List;
use task_tracker::models::task::{Status, Task};
use task_tracker::models::timestamp::{Timestamp, MAX_SECS, MIN_SECS};

fn at(secs: i64, nanos: u32) -> Timestamp {
    Timestamp::from_parts(secs, nanos).unwrap()
}

#[test]
fn status_words() {
    assert_eq!(Status::Todo.to_string(), "To do");
    assert_eq!(Status::InProgress.to_string(), "In Progress");
    assert_eq!(Status::Done.to_string(), "Done");
    assert_eq!(Status::default(), Status::Todo);
}

#[test]
fn new_task_reads_the_clock_once() {
    let task = Task::new(7, "write".to_string());
    assert_eq!(task.id, 7);
    assert_eq!(task.description, "write");
    assert_eq!(task.status, Status::Todo);
    assert_eq!(task.created_at, task.updated_at);
    assert!(task.created_at.secs() > 1_600_000_000);
}

#[test]
fn empty_description_is_accepted() {
    let task = Task::new_at(0, String::new(), at(0, 0));
    assert_eq!(task.description, "");
    assert_eq!(task.id, 0);
}

#[test]
fn task_rendering_is_five_lines() {
    let mut task = Task::new_at(12, "Buy milk".to_string(), at(1_431_648_000, 0));
    task.mark(Status::InProgress, at(1_431_648_061, 500_000_000));
    assert_eq!(
        task.to_string(),
        "ID: 12\nDescription: Buy milk\nStatus: In Progress\n\
         Created: 2015-05-15 00:00:00 UTC\nUpdated: 2015-05-15 00:01:01.500 UTC\n"
    );
}

#[test]
fn timestamp_text_is_what_chrono_writes() {
    for (secs, nanos) in [
        (0i64, 0u32),
        (1_431_648_000, 0),
        (1_700_000_000, 123_456_789),
        (-1, 999_999_999),
        (59, 1_500_000_000),
        (MIN_SECS, 0),
        (MAX_SECS, 999_999_999),
    ] {
        let expected = DateTime::from_timestamp(secs, nanos).unwrap().to_string();
        assert_eq!(at(secs, nanos).to_string(), expected);
        assert_ne!(expected, "");
    }
    assert_eq!(at(1_431_648_000, 0).to_string(), "2015-05-15 00:00:00 UTC");
}

#[test]
fn representable_range_is_chronos() {
    assert_eq!(DateTime::<Utc>::MIN_UTC.timestamp(), MIN_SECS);
    assert_eq!(DateTime::<Utc>::MAX_UTC.timestamp(), MAX_SECS);
    let probes: [(i64, u32); 16] = [
        (MIN_SECS, 0),
        (MIN_SECS - 1, 0),
        (MAX_SECS, 0),
        (MAX_SECS, 1_999_999_999),
        (MAX_SECS + 1, 0),
        (0, 999_999_999),
        (0, 1_000_000_000),
        (59, 1_000_000_000),
        (59, 1_999_999_999),
        (59, 2_000_000_000),
        (-1, 1_000_000_000),
        (-2, 1_000_000_000),
        (-61, 1_999_999_999),
        (119, 1_000_000_000),
        (i64::MAX, 0),
        (i64::MIN, 0),
    ];
    for (secs, nanos) in probes {
        let made = Timestamp::from_parts(secs, nanos);
        assert_eq!(
            made.is_some(),
            DateTime::from_timestamp(secs, nanos).is_some(),
            "{secs} {nanos}"
        );
        if let Some(t) = made {
            assert_eq!((t.secs(), t.nanos()), (secs, nanos));
        }
    }
}

#[test]
fn now_is_a_current_reading() {
    let before = Utc::now();
    let now = Timestamp::now();
    let after = Utc::now();
    assert!(before.timestamp() <= now.secs() && now.secs() <= after.timestamp());
    assert!(now.nanos() < 1_000_000_000);
    assert!(Timestamp::from_parts(now.secs(), now.nanos()) == Some(now));
}

#[test]
fn describe_and_mark_record_the_time() {
    let mut task = Task::new_at(1, "a".to_string(), at(100, 5));
    task.describe("b".to_string(), at(200, 0));
    assert_eq!(task.description, "b");
    assert_eq!(task.status, Status::Todo);
    assert_eq!(task.created_at, at(100, 5));
    assert_eq!(task.updated_at, at(200, 0));
    task.mark(Status::Done, at(300, 1));
    assert_eq!(task.description, "b");
    assert_eq!(task.status, Status::Done);
    assert_eq!(task.created_at, at(100, 5));
    assert_eq!(task.updated_at, at(300, 1));
    assert_eq!(task.id, 1);
}

#[test]
fn new_store_is_empty_and_starts_at_one() {
    let store = List::new();
    assert_eq!(store.next_id, 1);
    assert!(store.list.is_empty());
}

fn store_of(ids: &[usize]) -> List {
    let mut store = List::new();
    for id in ids {
        store.list.push(Task::new_at(*id, format!("task {id}"), at(10, 0)));
        store.next_id = store.next_id.max(id + 1);
    }
    store
}

#[test]
fn find_gives_the_first_match() {
    let mut store = store_of(&[4, 2, 9, 2]);
    assert_eq!(store.find(2), Some(1));
    assert_eq!(store.find(9), Some(2));
    assert_eq!(store.find(5), None);
    store.list[3].description = "second two".to_string();
    let found = store.find_mut(2).unwrap();
    assert_eq!(found.description, "task 2");
    found.description = "changed".to_string();
    assert_eq!(store.list[1].description, "changed");
    assert_eq!(store.list[3].description, "second two");
    assert!(store.find_mut(5).is_none());
}

#[test]
fn remove_keeps_the_order_of_the_rest() {
    let mut store = store_of(&[1, 2, 3, 4]);
    assert!(store.remove(2));
    let ids: Vec<usize> = store.list.iter().map(|t| t.id).collect();
    assert_eq!(ids, vec![1, 3, 4]);
    assert_eq!(store.next_id, 5);
    assert!(!store.remove(2));
    assert!(!store.remove(0));
    assert!(store.remove(4));
    assert!(store.remove(1));
    let ids: Vec<usize> = store.list.iter().map(|t| t.id).collect();
    assert_eq!(ids, vec![3]);
    assert!(store.remove(3));
    assert!(store.list.is_empty());
    assert!(!store.remove(3));
    assert_eq!(store.next_id, 5);
}

#[test]
fn remove_takes_out_every_task_with_the_id() {
    let mut store = store_of(&[7, 1, 7, 7, 2]);
    assert!(store.remove(7));
    let ids: Vec<usize> = store.list.iter().map(|t| t.id).collect();
    assert_eq!(ids, vec![1, 2]);
}
