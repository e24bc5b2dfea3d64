use tasktrack::command::{get_command, get_new_status, get_specifier, Command, Status};
use tasktrack::display::Status as Stored;
use tasktrack::session::{join_words, parse_line, parse_request, Request, UsageError};
use tasktrack::text::{decimal_text, parse_u32, str_eq};

#[test]
fn command_words_are_classified() {
    assert_eq!(get_command(vec!["todo", "add"]), Command::Add);
    assert_eq!(get_command(vec!["todo", "edit"]), Command::Edit);
    assert_eq!(get_command(vec!["todo", "list"]), Command::List);
    assert_eq!(get_command(vec!["todo", "remove"]), Command::Remove);
    assert_eq!(get_command(vec!["todo", "update"]), Command::Update);
    assert_eq!(get_command(vec!["todo", "Exit"]), Command::Exit);
}

#[test]
fn command_words_are_case_sensitive() {
    assert_eq!(get_command(vec!["todo", "exit"]), Command::Unknown);
    assert_eq!(get_command(vec!["todo", "ADD"]), Command::Unknown);
    assert_eq!(get_command(vec!["todo", "delete", "x"]), Command::Unknown);
}

#[test]
fn status_words_are_classified() {
    assert_eq!(get_new_status(vec!["todo", "update", "a", "not_started"]), Status::NotStarted);
    assert_eq!(get_new_status(vec!["todo", "update", "a", "in_progress"]), Status::InProgress);
    assert_eq!(get_new_status(vec!["todo", "update", "a", "completed"]), Status::Completed);
    assert_eq!(get_new_status(vec!["todo", "update", "a", "done"]), Status::Unknown);
    assert_eq!(Status::Unknown.stored(), None);
    assert_eq!(Status::Completed.stored(), Some(Stored::Completed));
}

#[test]
fn specifier_is_third_word() {
    assert_eq!(get_specifier(vec!["todo", "remove", "7"]), "7");
}

#[test]
fn status_texts() {
    assert_eq!(Stored::NotStarted.as_text(), "Not Started");
    assert_eq!(Stored::InProgress.as_text(), "In Progress");
    assert_eq!(Stored::Completed.as_text(), "Completed");
}

#[test]
fn digit_runs_are_read() {
    assert_eq!(parse_u32("42"), Some(42));
    assert_eq!(parse_u32("007"), Some(7));
    assert_eq!(parse_u32("4294967295"), Some(u32::MAX));
    assert_eq!(parse_u32("4294967296"), None);
    assert_eq!(parse_u32("4a"), None);
    assert_eq!(parse_u32("-1"), None);
    assert_eq!(parse_u32(""), None);
}

#[test]
fn decimal_texts() {
    assert_eq!(decimal_text(0), "0");
    assert_eq!(decimal_text(9), "9");
    assert_eq!(decimal_text(10), "10");
    assert_eq!(decimal_text(4294967295), "4294967295");
}

#[test]
fn string_comparison() {
    assert!(str_eq("abc", "abc"));
    assert!(!str_eq("abc", "abd"));
    assert!(!str_eq("abc", "ab"));
    assert!(str_eq("", ""));
}

#[test]
fn description_words_are_joined() {
    let args = vec!["todo", "edit", "1", "buy", "two", "eggs"];
    assert_eq!(join_words(&args, 3), "buy two eggs");
    assert_eq!(join_words(&args, 5), "eggs");
    assert_eq!(join_words(&args, 6), "");
}

#[test]
fn too_few_words_or_wrong_program_word_is_general_usage() {
    assert_eq!(parse_request(&vec![]).unwrap_err(), UsageError::General);
    assert_eq!(parse_request(&vec!["todo"]).unwrap_err(), UsageError::General);
    assert_eq!(parse_request(&vec!["tod", "list"]).unwrap_err(), UsageError::General);
    assert_eq!(parse_request(&vec!["todo", "frobnicate"]).unwrap_err(), UsageError::General);
}

#[test]
fn update_without_status_is_usage_error() {
    assert_eq!(parse_line("todo update foo").unwrap_err(), UsageError::Update);
}

#[test]
fn add_without_name_is_usage_error() {
    assert_eq!(parse_line("todo add").unwrap_err(), UsageError::Add);
    assert_eq!(parse_request(&vec!["todo", "add", ""]).unwrap_err(), UsageError::Add);
}

#[test]
fn missing_arguments_are_usage_errors() {
    assert_eq!(parse_line("todo edit 1").unwrap_err(), UsageError::Edit);
    assert_eq!(parse_line("todo remove").unwrap_err(), UsageError::Remove);
    assert_eq!(parse_line("todo update 1 finished").unwrap_err(), UsageError::UnknownStatus);
}

#[test]
fn usage_texts() {
    assert_eq!(UsageError::General.usage_text(), "Usage: todo <command> [args]");
    assert_eq!(UsageError::Add.usage_text(), "Usage: todo add <task_name>");
    assert_eq!(UsageError::Edit.usage_text(), "Usage: todo edit <task_name> <new_description>");
    assert_eq!(UsageError::Remove.usage_text(), "Usage: todo remove <task_name/task_id>");
    assert_eq!(UsageError::Update.usage_text(), "Usage: todo update <task_name> <new_status>");
    assert_eq!(
        UsageError::UnknownStatus.usage_text(),
        "Unknown status: use not_started, in_progress or completed"
    );
}

#[test]
fn lines_are_split_on_any_whitespace() {
    match parse_line("  todo   add\tmilk \r\n") {
        Ok(Request::Add { name }) => assert_eq!(name, "milk"),
        other => panic!("unexpected {:?}", other),
    }
}

#[test]
fn well_formed_lines_become_requests() {
    assert!(matches!(parse_line("todo list"), Ok(Request::List)));
    assert!(matches!(parse_line("todo Exit"), Ok(Request::Exit)));
    match parse_line("todo edit 3 call the bank") {
        Ok(Request::Edit { specifier, description }) => {
            assert_eq!(specifier, "3");
            assert_eq!(description, "call the bank");
        }
        other => panic!("unexpected {:?}", other),
    }
    match parse_line("todo update milk in_progress") {
        Ok(Request::Update { specifier, status }) => {
            assert_eq!(specifier, "milk");
            assert_eq!(status, Stored::InProgress);
        }
        other => panic!("unexpected {:?}", other),
    }
    match parse_line("todo remove 12") {
        Ok(Request::Remove { specifier }) => assert_eq!(specifier, "12"),
        other => panic!("unexpected {:?}", other),
    }
}

#[test]
fn requested_status_texts() {
    assert_eq!(Status::NotStarted.as_text(), "Not Started");
    assert_eq!(Status::InProgress.as_text(), "In Progress");
    assert_eq!(Status::Completed.as_text(), "Completed");
    assert_eq!(Status::Unknown.as_text(), "Unknown");
}

#[test]
fn unicode_white_space_separates_words() {
    match parse_line("todo\u{3000}add\u{a0}tea") {
        Ok(Request::Add { name }) => assert_eq!(name, "tea"),
        other => panic!("unexpected {:?}", other),
    }
}
