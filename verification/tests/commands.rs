use task_tracker::commands::{add, delete, list, mark, update};
use task_tracker::error::ErrorKind;
use task_tracker::models::list::List;
use task_tracker::models::task::Status;

fn words(items: &[&str]) -> Vec<String> {
    items.iter().map(|s| s.to_string()).collect()
}

#[test]
fn add_with_wrong_argument_count_is_usage_error() {
    let mut store = List::new();
    let none = add::run(&words(&[]), &mut store).unwrap_err();
    assert_eq!(none.kind, ErrorKind::InvalidUsage);
    assert_eq!(none.message, "Usage: add <description>");
    let two = add::run(&words(&["a", "b"]), &mut store).unwrap_err();
    assert_eq!(two.kind, ErrorKind::InvalidUsage);
    let three = add::run(&words(&["a", "b", "c"]), &mut store).unwrap_err();
    assert_eq!(three.kind, ErrorKind::InvalidUsage);
    assert_eq!(store.next_id, 1);
    assert!(store.list.is_empty());
}

#[test]
fn update_with_one_argument_is_usage_error() {
    let mut store = List::new();
    let error = update::run(&words(&["1"]), &mut store).unwrap_err();
    assert_eq!(error.kind, ErrorKind::InvalidUsage);
    assert_eq!(error.message, "Usage: update <id> <description>");
    let none = update::run(&words(&[]), &mut store).unwrap_err();
    assert_eq!(none.kind, ErrorKind::InvalidUsage);
}

#[test]
fn delete_with_wrong_argument_count_is_usage_error() {
    let mut store = List::new();
    let none = delete::run(&words(&[]), &mut store).unwrap_err();
    assert_eq!(none.kind, ErrorKind::InvalidUsage);
    assert_eq!(none.message, "Usage: delete <id>");
    let two = delete::run(&words(&["1", "2"]), &mut store).unwrap_err();
    assert_eq!(two.kind, ErrorKind::InvalidUsage);
}

#[test]
fn list_with_two_arguments_is_usage_error() {
    let store = List::new();
    let error = list::run(&words(&["todo", "done"]), &store).unwrap_err();
    assert_eq!(error.kind, ErrorKind::InvalidUsage);
    assert_eq!(error.message, "Usage: list [todo|in-progress|done]");
}

#[test]
fn list_with_unknown_word_is_unknown_filter() {
    let store = List::new();
    let error = list::run(&words(&["unknown-word"]), &store).unwrap_err();
    assert_eq!(error.kind, ErrorKind::UnknownFilter);
    assert_eq!(error.message, "Unknown filter: unknown-word");
}

#[test]
fn invalid_ids_are_refused() {
    let mut store = List::new();
    add::run(&words(&["x"]), &mut store).unwrap();
    let deleted = delete::run(&words(&["abc"]), &mut store).unwrap_err();
    assert_eq!(deleted.kind, ErrorKind::InvalidId);
    assert_eq!(deleted.message, "Invalid task id");
    let updated = update::run(&words(&["-1", "y"]), &mut store).unwrap_err();
    assert_eq!(updated.kind, ErrorKind::InvalidId);
    assert_eq!(updated.message, "Invalid task id");
    assert_eq!(store.list.len(), 1);
}

#[test]
fn mark_without_id_is_missing_id() {
    let mut store = List::new();
    let error = mark::done(&words(&[]), &mut store).unwrap_err();
    assert_eq!(error.kind, ErrorKind::MissingId);
    assert_eq!(error.message, "Missing id");
    let other = mark::in_progress(&words(&[]), &mut store).unwrap_err();
    assert_eq!(other.kind, ErrorKind::MissingId);
}

#[test]
fn mark_reports_what_is_wrong_with_the_id() {
    let mut store = List::new();
    let empty = mark::done(&words(&[""]), &mut store).unwrap_err();
    assert_eq!(empty.kind, ErrorKind::InvalidId);
    assert_eq!(empty.message, "".parse::<usize>().unwrap_err().to_string());
    let letters = mark::done(&words(&["x1"]), &mut store).unwrap_err();
    assert_eq!(letters.message, "x1".parse::<usize>().unwrap_err().to_string());
    let huge = "99999999999999999999999999999999999999999";
    let large = mark::in_progress(&words(&[huge]), &mut store).unwrap_err();
    assert_eq!(large.kind, ErrorKind::InvalidId);
    assert_eq!(large.message, huge.parse::<usize>().unwrap_err().to_string());
}

#[test]
fn mark_ignores_further_arguments() {
    let mut store = List::new();
    add::run(&words(&["x"]), &mut store).unwrap();
    let message = mark::done(&words(&["1", "extra", "words"]), &mut store).unwrap();
    assert_eq!(message, "Task updated successfully (ID: 1)");
    assert_eq!(store.list[0].status, Status::Done);
}

#[test]
fn end_to_end() {
    let mut store = List::new();
    let added = add::run(&words(&["Buy milk"]), &mut store).unwrap();
    assert_eq!(added, "Task added successfully (ID: 1)");

    let all = list::run(&words(&[]), &store).unwrap();
    assert_eq!(all.len(), 1);
    assert!(all[0].contains("Description: Buy milk\n"));
    assert!(all[0].contains("Status: To do\n"));

    let marked = mark::done(&words(&["1"]), &mut store).unwrap();
    assert_eq!(marked, "Task updated successfully (ID: 1)");

    let done = list::run(&words(&["done"]), &store).unwrap();
    assert_eq!(done.len(), 1);
    assert!(done[0].contains("ID: 1\n"));
    assert!(done[0].contains("Description: Buy milk\n"));
    assert!(done[0].contains("Status: Done\n"));

    let todo = list::run(&words(&["todo"]), &store).unwrap();
    assert_eq!(todo, vec!["The list is empty".to_string()]);
}

#[test]
fn not_found_on_empty_store() {
    let mut store = List::new();
    let updated = update::run(&words(&["1", "x"]), &mut store).unwrap_err();
    assert_eq!(updated.kind, ErrorKind::NotFound);
    assert_eq!(
        updated.message,
        "Task not found. It may have been deleted or the id is invalid"
    );
    let deleted = delete::run(&words(&["1"]), &mut store).unwrap_err();
    assert_eq!(deleted.kind, ErrorKind::NotFound);
    assert_eq!(
        deleted.message,
        "Task not found. It may have been deleted or the id is invalid"
    );
    let done = mark::done(&words(&["1"]), &mut store).unwrap_err();
    assert_eq!(done.kind, ErrorKind::NotFound);
    assert_eq!(done.message, "Task not found");
    let doing = mark::in_progress(&words(&["1"]), &mut store).unwrap_err();
    assert_eq!(doing.kind, ErrorKind::NotFound);
    assert_eq!(store.next_id, 1);
    assert!(store.list.is_empty());
}

#[test]
fn ids_count_up_across_deletes() {
    let mut store = List::new();
    assert_eq!(
        add::run(&words(&["a"]), &mut store).unwrap(),
        "Task added successfully (ID: 1)"
    );
    assert_eq!(
        add::run(&words(&["b"]), &mut store).unwrap(),
        "Task added successfully (ID: 2)"
    );
    assert_eq!(
        delete::run(&words(&["2"]), &mut store).unwrap(),
        "Task deleted successfully (ID: 2)"
    );
    assert_eq!(
        add::run(&words(&["c"]), &mut store).unwrap(),
        "Task added successfully (ID: 3)"
    );
    delete::run(&words(&["1"]), &mut store).unwrap();
    assert_eq!(
        add::run(&words(&["d"]), &mut store).unwrap(),
        "Task added successfully (ID: 4)"
    );
    assert_eq!(store.next_id, 5);
    let ids: Vec<usize> = store.list.iter().map(|t| t.id).collect();
    assert_eq!(ids, vec![3, 4]);
}

#[test]
fn ids_with_many_digits() {
    let mut store = List::new();
    store.next_id = 1234567890;
    assert_eq!(
        add::run(&words(&["far"]), &mut store).unwrap(),
        "Task added successfully (ID: 1234567890)"
    );
    assert_eq!(store.next_id, 1234567891);
    assert_eq!(
        update::run(&words(&["1234567890", "near"]), &mut store).unwrap(),
        "Task updated successfully (ID: 1234567890)"
    );
}

#[test]
fn delete_absent_id_leaves_store_unchanged() {
    let mut store = List::new();
    add::run(&words(&["a"]), &mut store).unwrap();
    add::run(&words(&["b"]), &mut store).unwrap();
    let error = delete::run(&words(&["7"]), &mut store).unwrap_err();
    assert_eq!(error.kind, ErrorKind::NotFound);
    assert_eq!(store.next_id, 3);
    assert_eq!(store.list.len(), 2);
    assert_eq!(store.list[0].description, "a");
    assert_eq!(store.list[1].description, "b");
}

#[test]
fn delete_twice_reports_not_found() {
    let mut store = List::new();
    add::run(&words(&["a"]), &mut store).unwrap();
    add::run(&words(&["b"]), &mut store).unwrap();
    add::run(&words(&["c"]), &mut store).unwrap();
    delete::run(&words(&["2"]), &mut store).unwrap();
    let ids: Vec<usize> = store.list.iter().map(|t| t.id).collect();
    assert_eq!(ids, vec![1, 3]);
    let again = delete::run(&words(&["2"]), &mut store).unwrap_err();
    assert_eq!(again.kind, ErrorKind::NotFound);
    let ids: Vec<usize> = store.list.iter().map(|t| t.id).collect();
    assert_eq!(ids, vec![1, 3]);
    assert_eq!(store.next_id, 4);
}

#[test]
fn update_changes_description_and_time_only() {
    let mut store = List::new();
    add::run(&words(&["first"]), &mut store).unwrap();
    add::run(&words(&["second"]), &mut store).unwrap();
    mark::in_progress(&words(&["2"]), &mut store).unwrap();
    let before = store.list[1].clone();
    let other = store.list[0].clone();
    let message = update::run(&words(&["2", "new", "words", "here"]), &mut store).unwrap();
    assert_eq!(message, "Task updated successfully (ID: 2)");
    let after = &store.list[1];
    assert_eq!(after.description, "new words here");
    assert_eq!(after.id, before.id);
    assert_eq!(after.status, Status::InProgress);
    assert_eq!(after.created_at, before.created_at);
    assert!(
        (after.updated_at.secs(), after.updated_at.nanos())
            >= (before.updated_at.secs(), before.updated_at.nanos())
    );
    assert_eq!(store.list[0].description, other.description);
    assert_eq!(store.list[0].updated_at, other.updated_at);
    assert_eq!(store.next_id, 3);
}

#[test]
fn update_with_one_word_takes_it_as_it_is() {
    let mut store = List::new();
    add::run(&words(&["first"]), &mut store).unwrap();
    update::run(&words(&["1", "  spaced  "]), &mut store).unwrap();
    assert_eq!(store.list[0].description, "  spaced  ");
    update::run(&words(&["+1", ""]), &mut store).unwrap();
    assert_eq!(store.list[0].description, "");
}

#[test]
fn mark_sets_status_from_any_state() {
    let mut store = List::new();
    add::run(&words(&["a"]), &mut store).unwrap();
    assert_eq!(store.list[0].status, Status::Todo);
    mark::done(&words(&["1"]), &mut store).unwrap();
    assert_eq!(store.list[0].status, Status::Done);
    mark::in_progress(&words(&["1"]), &mut store).unwrap();
    assert_eq!(store.list[0].status, Status::InProgress);
    mark::in_progress(&words(&["1"]), &mut store).unwrap();
    assert_eq!(store.list[0].status, Status::InProgress);
    assert_eq!(store.list[0].description, "a");
    assert_eq!(store.list[0].id, 1);
}

#[test]
fn filters_split_the_store() {
    let mut store = List::new();
    for name in ["a", "b", "c", "d", "e"] {
        add::run(&words(&[name]), &mut store).unwrap();
    }
    mark::done(&words(&["2"]), &mut store).unwrap();
    mark::in_progress(&words(&["3"]), &mut store).unwrap();
    mark::done(&words(&["5"]), &mut store).unwrap();
    let todo = list::show(&store, Some(Status::Todo));
    let doing = list::show(&store, Some(Status::InProgress));
    let done = list::show(&store, Some(Status::Done));
    let all = list::show(&store, None);
    assert_eq!(todo.len(), 2);
    assert_eq!(doing.len(), 1);
    assert_eq!(done.len(), 2);
    assert_eq!(all.len(), 5);
    assert!(todo[0].starts_with("ID: 1\n") && todo[1].starts_with("ID: 4\n"));
    assert!(doing[0].starts_with("ID: 3\n"));
    assert!(done[0].starts_with("ID: 2\n") && done[1].starts_with("ID: 5\n"));
    for piece in &all {
        let hits = todo.iter().chain(doing.iter()).chain(done.iter()).filter(|p| *p == piece);
        assert_eq!(hits.count(), 1);
    }
}

#[test]
fn empty_store_shows_the_notice() {
    let store = List::new();
    for args in [vec![], words(&["todo"]), words(&["in-progress"]), words(&["done"])] {
        let shown = list::run(&args, &store).unwrap();
        assert_eq!(shown, vec!["The list is empty".to_string()]);
    }
}

#[test]
fn filter_words_are_exact() {
    assert_eq!(list::parse_filter(&"todo".to_string()), Some(Status::Todo));
    assert_eq!(list::parse_filter(&"in-progress".to_string()), Some(Status::InProgress));
    assert_eq!(list::parse_filter(&"done".to_string()), Some(Status::Done));
    assert_eq!(list::parse_filter(&"Done".to_string()), None);
    assert_eq!(list::parse_filter(&"".to_string()), None);
    assert_eq!(list::parse_filter(&"todo ".to_string()), None);
}
