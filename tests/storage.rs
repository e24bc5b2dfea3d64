use tasktrack::display::Status;
use tasktrack::session::{execute, parse_line, Outcome, Request};
use tasktrack::store::{task_matches, StorageError, Task, TaskTable, UpdateOutcome};

fn add(t: &mut TaskTable, name: &str, at: &str) -> u32 {
    t.create_task(name.to_string(), at.to_string()).unwrap()
}

fn run(t: &mut TaskTable, line: &str) -> Outcome {
    let req = parse_line(line).unwrap();
    execute(t, req, "19-10-2026 10:00".to_string())
}

fn task(id: u32, name: &str) -> Task {
    Task {
        id,
        name: name.to_string(),
        description: "No Description".to_string(),
        created_at: "01-01-2026 00:00".to_string(),
        status: Status::NotStarted,
    }
}

#[test]
fn add_appends_one_default_row() {
    let mut t = TaskTable::new();
    add(&mut t, "first", "01-01-2026 09:00");
    let before = t.list_tasks().len();
    let id = add(&mut t, "Buy milk", "02-01-2026 09:30");
    let rows = t.list_tasks();
    assert_eq!(rows.len(), before + 1);
    let new: Vec<&Task> = rows.iter().filter(|r| r.id == id).collect();
    assert_eq!(new.len(), 1);
    assert_eq!(new[0].name, "Buy milk");
    assert_eq!(new[0].description, "No Description");
    assert_eq!(new[0].status, Status::NotStarted);
    assert_eq!(new[0].created_at, "02-01-2026 09:30");
}

#[test]
fn ids_increase_and_are_not_reused() {
    let mut t = TaskTable::new();
    assert_eq!(t.next_id(), 1);
    let a = add(&mut t, "a", "x");
    let b = add(&mut t, "b", "x");
    assert_eq!((a, b), (1, 2));
    assert_eq!(t.remove_task("2"), vec![2]);
    let c = add(&mut t, "c", "x");
    assert_eq!(c, 3);
}

#[test]
fn created_at_survives_edit_and_update() {
    let mut t = TaskTable::new();
    let id = add(&mut t, "report", "03-03-2026 08:15");
    assert_eq!(t.update_description("report", "write it"), vec![id]);
    assert!(matches!(t.update_status("report", Status::InProgress), UpdateOutcome::Updated { .. }));
    let rows = t.list_tasks();
    assert_eq!(rows[0].created_at, "03-03-2026 08:15");
    assert_eq!(rows[0].description, "write it");
    assert_eq!(rows[0].status, Status::InProgress);
}

#[test]
fn update_to_current_status_writes_nothing() {
    let mut t = TaskTable::new();
    add(&mut t, "a", "x");
    match t.update_status("a", Status::NotStarted) {
        UpdateOutcome::Unchanged(s) => assert_eq!(s, Status::NotStarted),
        other => panic!("unexpected {:?}", other),
    }
    assert_eq!(t.list_tasks()[0].status, Status::NotStarted);
    let out = run(&mut t, "todo update a not_started");
    assert_eq!(out.message(), "The task 'a' status has already been Not Started");
}

#[test]
fn update_of_unknown_task_is_not_found() {
    let mut t = TaskTable::new();
    add(&mut t, "a", "x");
    assert!(matches!(t.update_status("b", Status::Completed), UpdateOutcome::NotFound));
    assert_eq!(run(&mut t, "todo update 9 completed").message(), "No task id/name: 9");
}

#[test]
fn remove_without_match_keeps_table() {
    let mut t = TaskTable::new();
    add(&mut t, "a", "x");
    add(&mut t, "b", "x");
    assert_eq!(t.remove_task("zzz"), Vec::<u32>::new());
    assert_eq!(t.list_tasks().len(), 2);
    let out = run(&mut t, "todo remove 17");
    assert_eq!(out.message(), "No task id/name: 17");
    assert_eq!(t.list_tasks().len(), 2);
}

#[test]
fn add_update_remove_round_trip() {
    let mut t = TaskTable::new();
    let out = run(&mut t, "todo add Buy_milk");
    assert_eq!(out.message(), "Added task: Buy_milk");
    let id = match out {
        Outcome::Added { id, .. } => id,
        other => panic!("unexpected {:?}", other),
    };
    let rows = t.list_tasks();
    assert_eq!(rows.len(), 1);
    assert_eq!(rows[0].name, "Buy_milk");
    let out = run(&mut t, &format!("todo update {} completed", id));
    assert_eq!(out.message(), format!("Updated '{}' task status: Not Started->Completed", id));
    assert_eq!(t.list_tasks()[0].status.as_text(), "Completed");
    let out = run(&mut t, &format!("todo remove {}", id));
    assert_eq!(out.message(), format!("Removed the task: {}", id));
    assert_eq!(t.list_tasks().len(), 0);
}

#[test]
fn round_trip_with_spaced_name() {
    let mut t = TaskTable::new();
    let id = add(&mut t, "Buy milk", "x");
    let rows = t.list_tasks();
    assert_eq!(rows.len(), 1);
    assert_eq!(rows[0].name, "Buy milk");
    assert!(matches!(t.update_status(&id.to_string(), Status::Completed), UpdateOutcome::Updated { .. }));
    assert_eq!(t.list_tasks()[0].status, Status::Completed);
    assert_eq!(t.remove_task(&id.to_string()), vec![id]);
    assert_eq!(t.list_tasks().len(), 0);
}

#[test]
fn update_by_shared_name_updates_every_match() {
    let mut t = TaskTable::new();
    add(&mut t, "a", "x");
    add(&mut t, "b", "x");
    add(&mut t, "a", "x");
    match t.update_status("a", Status::Completed) {
        UpdateOutcome::Updated { old, ids } => {
            assert_eq!(old, Status::NotStarted);
            assert_eq!(ids, vec![1, 3]);
        }
        other => panic!("unexpected {:?}", other),
    }
    let done = t.list_tasks().iter().filter(|r| r.status == Status::Completed).count();
    assert_eq!(done, 2);
}

#[test]
fn specifier_matches_name_or_id() {
    let mut t = TaskTable::new();
    add(&mut t, "alpha", "x");
    add(&mut t, "1", "x");
    assert_eq!(t.remove_task("1"), vec![1, 2]);
    assert!(task_matches(&task(5, "x"), "005"));
    assert!(task_matches(&task(5, "x"), "x"));
    assert!(!task_matches(&task(5, "x"), "6"));
}

#[test]
fn removing_two_rows_reports_removed() {
    let mut t = TaskTable::new();
    add(&mut t, "a", "x");
    add(&mut t, "a", "x");
    assert_eq!(run(&mut t, "todo remove a").message(), "Removed the task: a");
    assert_eq!(t.list_tasks().len(), 0);
}

#[test]
fn edit_reports_by_match() {
    let mut t = TaskTable::new();
    add(&mut t, "a", "x");
    assert_eq!(run(&mut t, "todo edit a new words here").message(), "Edited description");
    assert_eq!(t.list_tasks()[0].description, "new words here");
    assert_eq!(run(&mut t, "todo edit q text").message(), "No task id/name: q");
}

#[test]
fn listing_and_exit() {
    let mut t = TaskTable::new();
    add(&mut t, "a", "x");
    match run(&mut t, "todo list") {
        Outcome::Listed { tasks } => assert_eq!(tasks.len(), 1),
        other => panic!("unexpected {:?}", other),
    }
    assert_eq!(run(&mut t, "todo Exit").message(), "Exit the program...");
}

#[test]
fn exhausted_ids_fail_without_change() {
    let mut t = TaskTable::restore(vec![task(4, "a")], u32::MAX).unwrap();
    assert_eq!(t.create_task("b".to_string(), "x".to_string()), Err(StorageError::IdsExhausted));
    assert_eq!(t.list_tasks().len(), 1);
    let out = execute(&mut t, Request::Add { name: "b".to_string() }, "x".to_string());
    assert_eq!(out.message(), "Storage error: no task id is left");
}

#[test]
fn restore_checks_rows() {
    assert!(TaskTable::restore(vec![task(1, "a"), task(3, "b")], 4).is_some());
    assert!(TaskTable::restore(vec![task(3, "a"), task(1, "b")], 4).is_none());
    assert!(TaskTable::restore(vec![task(1, "a"), task(1, "b")], 4).is_none());
    assert!(TaskTable::restore(vec![task(4, "a")], 4).is_none());
    assert!(TaskTable::restore(vec![task(1, "")], 4).is_none());
    let t = TaskTable::restore(vec![task(2, "a")], 9).unwrap();
    assert_eq!(t.next_id(), 9);
}
