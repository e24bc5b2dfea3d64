//! One step of the interactive session: a line's words become a request, a
//! request runs against the task table, and its outcome becomes a message.
use vstd::prelude::*;
use vstd::string::*;
use crate::command::{command_of, get_command, get_new_status, get_specifier, status_of, stored_status, Command};
use crate::display::{status_text, Status};
use crate::store::{
    described, first_match_status, kept, matching_ids, new_row, no_match, restatused, views,
    StorageError, Task, TaskTable, UpdateOutcome,
};
use crate::text::str_eq;

verus! {

/// A request whose words have been checked.
#[derive(Debug)]
pub enum Request {
    Add { name: String },
    Edit { specifier: String, description: String },
    List,
    Remove { specifier: String },
    Update { specifier: String, status: Status },
    Exit,
}

/// A line that cannot be run, with the usage text it calls for.
#[derive(Clone, Copy, Debug, PartialEq, Eq, Structural)]
pub enum UsageError {
    /// Too few words, a first word other than the program word, or an unknown command.
    General,
    /// `add` without a task name.
    Add,
    /// `edit` without a specifier and at least one description word.
    Edit,
    /// `remove` without a specifier.
    Remove,
    /// `update` without a specifier and a status word.
    Update,
    /// `update` with a status word that names no status.
    UnknownStatus,
}

/// The characters of each word.
pub open spec fn words(args: Seq<&str>) -> Seq<Seq<char>> {
    args.map_values(|w: &str| w@)
}

/// Words joined with single spaces.
pub open spec fn joined(ws: Seq<Seq<char>>) -> Seq<char>
    decreases ws.len(),
{
    if ws.len() == 0 {
        seq![]
    } else if ws.len() == 1 {
        ws[0]
    } else {
        joined(ws.drop_last()) + seq![' '] + ws.last()
    }
}

/// The error a line of words `w` gets, if any.
pub open spec fn usage_error(w: Seq<Seq<char>>) -> Option<UsageError> {
    if w.len() < 2 || w[0] != "todo"@ {
        Some(UsageError::General)
    } else {
        match command_of(w[1]) {
            Command::Add => if w.len() < 3 || w[2].len() == 0 {
                Some(UsageError::Add)
            } else {
                None
            },
            Command::Edit => if w.len() < 4 {
                Some(UsageError::Edit)
            } else {
                None
            },
            Command::Remove => if w.len() < 3 {
                Some(UsageError::Remove)
            } else {
                None
            },
            Command::Update => if w.len() < 4 {
                Some(UsageError::Update)
            } else if status_of(w[3]) == crate::command::Status::Unknown {
                Some(UsageError::UnknownStatus)
            } else {
                None
            },
            Command::List => None,
            Command::Exit => None,
            Command::Unknown => Some(UsageError::General),
        }
    }
}

/// Whether `r` is the request that the words `w`, which have no usage error, make.
pub open spec fn is_request_of(w: Seq<Seq<char>>, r: Request) -> bool {
    match command_of(w[1]) {
        Command::Add => r matches Request::Add { name } && name@ == w[2],
        Command::Edit => r matches Request::Edit { specifier, description } && specifier@ == w[2]
            && description@ == joined(w.subrange(3, w.len() as int)),
        Command::List => r is List,
        Command::Remove => r matches Request::Remove { specifier } && specifier@ == w[2],
        Command::Update => r matches Request::Update { specifier, status } && specifier@ == w[2]
            && stored_status(status_of(w[3])) == Some(status),
        Command::Exit => r is Exit,
        Command::Unknown => false,
    }
}

/// The words of `args` from position `from` on, joined with single spaces.
pub fn join_words(args: &Vec<&str>, from: usize) -> (r: String)
    requires
        from <= args.len(),
    ensures
        r@ == joined(words(args@).subrange(from as int, args.len() as int)),
{
    let mut out = String::new();
    let mut i: usize = from;
    let ghost w = words(args@);
    while i < args.len()
        invariant
            from <= i <= args.len(),
            w == words(args@),
            out@ == joined(w.subrange(from as int, i as int)),
        decreases args.len() - i,
    {
        let ghost prev = out@;
        if i > from {
            out.append(" ");
        }
        out.append(args[i]);
        proof {
            reveal_strlit(" ");
            let part = w.subrange(from as int, i + 1);
            assert(part.drop_last() =~= w.subrange(from as int, i as int));
            if i > from {
                assert(out@ =~= prev + seq![' '] + part.last());
            } else {
                assert(part.len() == 1);
                assert(out@ =~= part[0]);
            }
        }
        i += 1;
    }
    out
}

/// Checks the words of a command line and turns them into a request.
pub fn parse_request(args: &Vec<&str>) -> (r: Result<Request, UsageError>)
    ensures
        r is Err <==> usage_error(words(args@)) is Some,
        r matches Err(e) ==> usage_error(words(args@)) == Some(e),
        r matches Ok(req) ==> is_request_of(words(args@), req),
{
    let ghost w = words(args@);
    if args.len() < 2 || !str_eq(args[0], "todo") {
        return Err(UsageError::General);
    }
    assert(w[0] == args@[0]@ && w[1] == args@[1]@);
    match get_command(args.clone()) {
        Command::Add => {
            if args.len() < 3 || args[2].unicode_len() == 0 {
                return Err(UsageError::Add);
            }
            Ok(Request::Add { name: get_specifier(args.clone()) })
        },
        Command::Edit => {
            if args.len() < 4 {
                return Err(UsageError::Edit);
            }
            Ok(Request::Edit { specifier: get_specifier(args.clone()), description: join_words(args, 3) })
        },
        Command::List => Ok(Request::List),
        Command::Remove => {
            if args.len() < 3 {
                return Err(UsageError::Remove);
            }
            Ok(Request::Remove { specifier: get_specifier(args.clone()) })
        },
        Command::Update => {
            if args.len() < 4 {
                return Err(UsageError::Update);
            }
            match get_new_status(args.clone()).stored() {
                Some(status) => Ok(Request::Update { specifier: get_specifier(args.clone()), status }),
                None => Err(UsageError::UnknownStatus),
            }
        },
        Command::Exit => Ok(Request::Exit),
        Command::Unknown => Err(UsageError::General),
    }
}

/// Whether `c` has the Unicode property White_Space.
pub open spec fn is_white_space(c: char) -> bool {
    ||| '\u{9}' <= c <= '\u{d}'
    ||| c == ' ' || c == '\u{85}' || c == '\u{a0}' || c == '\u{1680}'
    ||| '\u{2000}' <= c <= '\u{200a}'
    ||| c == '\u{2028}' || c == '\u{2029}' || c == '\u{202f}' || c == '\u{205f}' || c == '\u{3000}'
}

/// The words of a line: its maximal runs of characters that are not white
/// space, in order.
pub open spec fn whitespace_words(s: Seq<char>) -> Seq<Seq<char>>
    decreases s.len(),
{
    if s.len() == 0 {
        seq![]
    } else if is_white_space(s.last()) {
        whitespace_words(s.drop_last())
    } else if s.len() == 1 || is_white_space(s[s.len() - 2]) {
        whitespace_words(s.drop_last()).push(seq![s.last()])
    } else {
        let w = whitespace_words(s.drop_last());
        w.update(w.len() - 1, w.last().push(s.last()))
    }
}

/// Relies on `str::split_whitespace`: the substrings of the line separated by
/// any amount of White_Space characters, in order, without empty ones.
#[verifier::external_body]
fn split_words(line: &str) -> (r: Vec<&str>)
    ensures
        words(r@) == whitespace_words(line@),
{
    line.split_whitespace().collect()
}

/// Splits a typed line into words and turns them into a request.
pub fn parse_line(line: &str) -> (r: Result<Request, UsageError>)
    ensures
        r is Err <==> usage_error(whitespace_words(line@)) is Some,
        r matches Err(e) ==> usage_error(whitespace_words(line@)) == Some(e),
        r matches Ok(req) ==> is_request_of(whitespace_words(line@), req),
{
    let args = split_words(line);
    parse_request(&args)
}

/// The usage line printed for a usage error.
pub open spec fn usage_text_of(e: UsageError) -> Seq<char> {
    match e {
        UsageError::General => "Usage: todo <command> [args]"@,
        UsageError::Add => "Usage: todo add <task_name>"@,
        UsageError::Edit => "Usage: todo edit <task_name> <new_description>"@,
        UsageError::Remove => "Usage: todo remove <task_name/task_id>"@,
        UsageError::Update => "Usage: todo update <task_name> <new_status>"@,
        UsageError::UnknownStatus => "Unknown status: use not_started, in_progress or completed"@,
    }
}

impl UsageError {
    /// The usage line printed for this error.
    pub fn usage_text(&self) -> (r: String)
        ensures
            r@ == usage_text_of(*self),
    {
        proof {
            reveal_strlit("Usage: todo <command> [args]");
            reveal_strlit("Usage: todo add <task_name>");
            reveal_strlit("Usage: todo edit <task_name> <new_description>");
            reveal_strlit("Usage: todo remove <task_name/task_id>");
            reveal_strlit("Usage: todo update <task_name> <new_status>");
            reveal_strlit("Unknown status: use not_started, in_progress or completed");
        }
        match self {
            UsageError::General => String::from_str("Usage: todo <command> [args]"),
            UsageError::Add => String::from_str("Usage: todo add <task_name>"),
            UsageError::Edit => String::from_str("Usage: todo edit <task_name> <new_description>"),
            UsageError::Remove => String::from_str("Usage: todo remove <task_name/task_id>"),
            UsageError::Update => String::from_str("Usage: todo update <task_name> <new_status>"),
            UsageError::UnknownStatus => String::from_str(
                "Unknown status: use not_started, in_progress or completed",
            ),
        }
    }
}

/// What running a request did.
#[derive(Debug)]
pub enum Outcome {
    /// A task was created with this id.
    Added { id: u32, name: String, created_at: String },
    /// The rows with these ids got the new description.
    Edited { specifier: String, description: String, ids: Vec<u32> },
    /// All rows, in id order.
    Listed { tasks: Vec<Task> },
    /// The rows with these ids were deleted.
    Removed { specifier: String, ids: Vec<u32> },
    /// No row matched the specifier of an update.
    NotFound { specifier: String },
    /// The first matching row already had the requested status; nothing was written.
    Unchanged { specifier: String, status: Status },
    /// The rows with these ids moved from `old` to `new`.
    Updated { specifier: String, old: Status, new: Status, ids: Vec<u32> },
    /// The session ends.
    Exit,
    /// The table could not take the change.
    Failed(StorageError),
}

/// Whether `r`, with the table going from `rows`/`next` to `rows2`/`next2`, is
/// what running `req` with creation time `at` gives.
pub open spec fn is_run_of(
    req: Request,
    at: Seq<char>,
    rows: Seq<crate::store::TaskView>,
    next: u32,
    r: Outcome,
    rows2: Seq<crate::store::TaskView>,
    next2: u32,
) -> bool {
    match req {
        Request::Add { name } => if next == u32::MAX {
            r == Outcome::Failed(StorageError::IdsExhausted) && rows2 == rows && next2 == next
        } else {
            &&& r matches Outcome::Added { id, name: n, created_at: c } && id == next && n@ == name@
                && c@ == at
            &&& rows2 == rows.push(new_row(next, name@, at))
            &&& next2 == next + 1
        },
        Request::Edit { specifier, description } => {
            &&& r matches Outcome::Edited { specifier: s, description: d, ids } && s@ == specifier@
                && d@ == description@ && ids@ == matching_ids(rows, specifier@)
            &&& rows2 == described(rows, specifier@, description@)
            &&& next2 == next
        },
        Request::List => {
            &&& r matches Outcome::Listed { tasks } && views(tasks@) == rows
            &&& rows2 == rows && next2 == next
        },
        Request::Remove { specifier } => {
            &&& r matches Outcome::Removed { specifier: s, ids } && s@ == specifier@ && ids@
                == matching_ids(rows, specifier@)
            &&& rows2 == kept(rows, specifier@)
            &&& next2 == next
        },
        Request::Update { specifier, status } => {
            &&& next2 == next
            &&& if no_match(rows, specifier@) {
                r matches Outcome::NotFound { specifier: s } && s@ == specifier@ && rows2 == rows
            } else if first_match_status(rows, specifier@) == status {
                r matches Outcome::Unchanged { specifier: s, status: st } && s@ == specifier@
                    && st == status && rows2 == rows
            } else {
                &&& r matches Outcome::Updated { specifier: s, old, new, ids } && s@ == specifier@
                    && old == first_match_status(rows, specifier@) && new == status && ids@
                    == matching_ids(rows, specifier@)
                &&& rows2 == restatused(rows, specifier@, status)
            }
        },
        Request::Exit => r is Exit && rows2 == rows && next2 == next,
    }
}

/// Whether a request may be run: a task to add needs a name.
pub open spec fn runnable(req: Request) -> bool {
    req matches Request::Add { name } ==> name@.len() > 0
}

/// Runs a request against the table; a task it adds is created at `created_at`.
pub fn execute(table: &mut TaskTable, req: Request, created_at: String) -> (r: Outcome)
    requires
        old(table).wf(),
        runnable(req),
    ensures
        final(table).wf(),
        is_run_of(req, created_at@, old(table).rows(), old(table).next(), r, final(table).rows(), final(table).next()),
{
    match req {
        Request::Add { name } => {
            let n2 = name.clone();
            let c2 = created_at.clone();
            match table.create_task(name, created_at) {
                Ok(id) => Outcome::Added { id, name: n2, created_at: c2 },
                Err(e) => Outcome::Failed(e),
            }
        },
        Request::Edit { specifier, description } => {
            let ids = table.update_description(specifier.as_str(), description.as_str());
            Outcome::Edited { specifier, description, ids }
        },
        Request::List => Outcome::Listed { tasks: table.list_tasks() },
        Request::Remove { specifier } => {
            let ids = table.remove_task(specifier.as_str());
            Outcome::Removed { specifier, ids }
        },
        Request::Update { specifier, status } => {
            match table.update_status(specifier.as_str(), status) {
                UpdateOutcome::NotFound => Outcome::NotFound { specifier },
                UpdateOutcome::Unchanged(st) => Outcome::Unchanged { specifier, status: st },
                UpdateOutcome::Updated { old, ids } => Outcome::Updated { specifier, old, new: status, ids },
            }
        },
        Request::Exit => Outcome::Exit,
    }
}

/// Runs a request against the table; a task it adds is created now, at a
/// time read from the local clock.
pub fn execute_now(table: &mut TaskTable, req: Request) -> (r: Outcome)
    requires
        old(table).wf(),
        runnable(req),
    ensures
        final(table).wf(),
        exists|at: Seq<char>|
            is_run_of(req, at, old(table).rows(), old(table).next(), r, final(table).rows(), final(table).next()),
{
    let ghost req0 = req;
    let at = crate::clock::timestamp_now();
    let ghost at0 = at@;
    let r = execute(table, req, at);
    assert(is_run_of(req0, at0, old(table).rows(), old(table).next(), r, table.rows(), table.next()));
    r
}

/// The message that reports an outcome; a listing is shown as a table instead.
/// An edit, removal or update that reaches one row or more is reported as
/// done, and one that reaches none as not found.
pub open spec fn message_of(o: Outcome) -> Seq<char> {
    match o {
        Outcome::Added { name, .. } => "Added task: "@ + name@,
        Outcome::Edited { specifier, ids, .. } => if ids.len() == 0 {
            "No task id/name: "@ + specifier@
        } else {
            "Edited description"@
        },
        Outcome::Listed { .. } => seq![],
        Outcome::Removed { specifier, ids } => if ids.len() > 0 {
            "Removed the task: "@ + specifier@
        } else {
            "No task id/name: "@ + specifier@
        },
        Outcome::NotFound { specifier } => "No task id/name: "@ + specifier@,
        Outcome::Unchanged { specifier, status } => "The task '"@ + specifier@
            + "' status has already been "@ + status_text(status),
        Outcome::Updated { specifier, old, new, .. } => "Updated '"@ + specifier@
            + "' task status: "@ + status_text(old) + "->"@ + status_text(new),
        Outcome::Exit => "Exit the program..."@,
        Outcome::Failed(_) => "Storage error: no task id is left"@,
    }
}

impl Outcome {
    /// The message that reports this outcome.
    pub fn message(&self) -> (r: String)
        ensures
            r@ == message_of(*self),
    {
        match self {
            Outcome::Added { name, .. } => String::from_str("Added task: ").concat(name.as_str()),
            Outcome::Edited { specifier, ids, .. } => if ids.len() == 0 {
                String::from_str("No task id/name: ").concat(specifier.as_str())
            } else {
                String::from_str("Edited description")
            },
            Outcome::Listed { .. } => String::new(),
            Outcome::Removed { specifier, ids } => if ids.len() > 0 {
                String::from_str("Removed the task: ").concat(specifier.as_str())
            } else {
                String::from_str("No task id/name: ").concat(specifier.as_str())
            },
            Outcome::NotFound { specifier } => String::from_str("No task id/name: ").concat(
                specifier.as_str(),
            ),
            Outcome::Unchanged { specifier, status } => {
                let mut m = String::from_str("The task '");
                m.append(specifier.as_str());
                m.append("' status has already been ");
                m.append(status.as_text().as_str());
                m
            },
            Outcome::Updated { specifier, old, new, .. } => {
                let mut m = String::from_str("Updated '");
                m.append(specifier.as_str());
                m.append("' task status: ");
                m.append(old.as_text().as_str());
                m.append("->");
                m.append(new.as_text().as_str());
                m
            },
            Outcome::Exit => String::from_str("Exit the program..."),
            Outcome::Failed(_) => String::from_str("Storage error: no task id is left"),
        }
    }
}

} // verus!
