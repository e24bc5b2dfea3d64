//! Classification of the words of a command line.
use vstd::prelude::*;
use vstd::string::*;
use crate::text::str_eq;

verus! {

/// What a command line asks for; `Unknown` is a parse-time label only and is
/// never executed.
#[derive(Clone, Copy, Debug, PartialEq, Eq, Structural)]
pub enum Command {
    Add,
    Edit,
    List,
    Remove,
    Update,
    Exit,
    Unknown,
}

/// A status as a user names it; `Unknown` marks a word that names no status
/// and is never stored.
#[derive(Clone, Copy, Debug, PartialEq, Eq, Structural)]
pub enum Status {
    NotStarted,
    InProgress,
    Completed,
    Unknown,
}

/// The command that a command word names (matched case-sensitively).
pub open spec fn command_of(w: Seq<char>) -> Command {
    if w == "add"@ {
        Command::Add
    } else if w == "edit"@ {
        Command::Edit
    } else if w == "list"@ {
        Command::List
    } else if w == "remove"@ {
        Command::Remove
    } else if w == "update"@ {
        Command::Update
    } else if w == "Exit"@ {
        Command::Exit
    } else {
        Command::Unknown
    }
}

/// The status that a status word names.
pub open spec fn status_of(w: Seq<char>) -> Status {
    if w == "not_started"@ {
        Status::NotStarted
    } else if w == "in_progress"@ {
        Status::InProgress
    } else if w == "completed"@ {
        Status::Completed
    } else {
        Status::Unknown
    }
}

/// The command named by the second word of `args`.
pub fn get_command(args: Vec<&str>) -> (r: Command)
    requires
        args.len() >= 2,
    ensures
        r == command_of(args@[1]@),
{
    let w = args[1];
    if str_eq(w, "add") {
        Command::Add
    } else if str_eq(w, "edit") {
        Command::Edit
    } else if str_eq(w, "list") {
        Command::List
    } else if str_eq(w, "remove") {
        Command::Remove
    } else if str_eq(w, "update") {
        Command::Update
    } else if str_eq(w, "Exit") {
        Command::Exit
    } else {
        Command::Unknown
    }
}

/// The third word of `args`: the task name or the specifier of a task.
pub fn get_specifier(args: Vec<&str>) -> (r: String)
    requires
        args.len() >= 3,
    ensures
        r@ == args@[2]@,
{
    String::from_str(args[2])
}

/// The status named by the fourth word of `args`.
pub fn get_new_status(args: Vec<&str>) -> (r: Status)
    requires
        args.len() >= 4,
    ensures
        r == status_of(args@[3]@),
{
    let w = args[3];
    if str_eq(w, "not_started") {
        Status::NotStarted
    } else if str_eq(w, "in_progress") {
        Status::InProgress
    } else if str_eq(w, "completed") {
        Status::Completed
    } else {
        Status::Unknown
    }
}

} // verus!

verus! {

/// The stored status that a user-named status stands for; none for `Unknown`.
pub open spec fn stored_status(s: Status) -> Option<crate::display::Status> {
    match s {
        Status::NotStarted => Some(crate::display::Status::NotStarted),
        Status::InProgress => Some(crate::display::Status::InProgress),
        Status::Completed => Some(crate::display::Status::Completed),
        Status::Unknown => None,
    }
}

impl Status {
    /// The display text of this status; `Unknown` reads "Unknown".
    pub fn as_text(&self) -> (r: String)
        ensures
            r@ == match stored_status(*self) {
                Some(st) => crate::display::status_text(st),
                None => "Unknown"@,
            },
    {
        match self {
            Status::NotStarted => String::from_str("Not Started"),
            Status::InProgress => String::from_str("In Progress"),
            Status::Completed => String::from_str("Completed"),
            Status::Unknown => String::from_str("Unknown"),
        }
    }

    /// The stored status this value stands for, or `None` for `Unknown`.
    pub fn stored(&self) -> (r: Option<crate::display::Status>)
        ensures
            r == stored_status(*self),
    {
        match self {
            Status::NotStarted => Some(crate::display::Status::NotStarted),
            Status::InProgress => Some(crate::display::Status::InProgress),
            Status::Completed => Some(crate::display::Status::Completed),
            Status::Unknown => None,
        }
    }
}

} // verus!
