//! The stored task status, its display text, and the console table of tasks.
use vstd::prelude::*;
use vstd::string::*;
use prettytable::{Cell, Row, Table};
use crate::store::{Task, TaskView};
use crate::text::{decimal, decimal_text};

verus! {

/// The lifecycle state of a stored task.
#[derive(Clone, Copy, Debug, PartialEq, Eq, Structural)]
pub enum Status {
    NotStarted,
    InProgress,
    Completed,
}

/// The canonical text of a status, used for display and for the stored column.
pub open spec fn status_text(s: Status) -> Seq<char> {
    match s {
        Status::NotStarted => "Not Started"@,
        Status::InProgress => "In Progress"@,
        Status::Completed => "Completed"@,
    }
}

impl Status {
    /// The canonical text of this status.
    pub fn as_text(&self) -> (r: String)
        ensures
            r@ == status_text(*self),
    {
        match self {
            Status::NotStarted => String::from_str("Not Started"),
            Status::InProgress => String::from_str("In Progress"),
            Status::Completed => String::from_str("Completed"),
        }
    }

    /// The status whose canonical text is `t`, if any.
    pub fn from_text(t: &str) -> (r: Option<Status>)
        ensures
            r matches Some(s) ==> status_text(s) == t@,
            r is None ==> forall|s: Status| status_text(s) != t@,
    {
        proof {
            reveal_strlit("Not Started");
            reveal_strlit("In Progress");
            reveal_strlit("Completed");
        }
        if crate::text::str_eq(t, "Not Started") {
            Some(Status::NotStarted)
        } else if crate::text::str_eq(t, "In Progress") {
            Some(Status::InProgress)
        } else if crate::text::str_eq(t, "Completed") {
            Some(Status::Completed)
        } else {
            None
        }
    }
}

#[verifier::external_type_specification]
#[verifier::external_body]
pub struct ExTable(prettytable::Table);

/// The lines of a text, as `str::lines` splits it.
pub uninterp spec fn text_lines(s: Seq<char>) -> Seq<Seq<char>>;

/// Whether a text holds a line feed or a carriage return.
pub open spec fn has_line_break(s: Seq<char>) -> bool {
    exists|i: int| 0 <= i < s.len() && (s[i] == '\n' || s[i] == '\r')
}

/// The lines a cell made from the text `s` holds: none for an empty text,
/// the text itself for a text without line breaks, and what `str::lines`
/// gives otherwise.
pub open spec fn cell_lines(s: Seq<char>) -> Seq<Seq<char>> {
    if has_line_break(s) {
        text_lines(s)
    } else if s.len() == 0 {
        seq![]
    } else {
        seq![s]
    }
}

/// The rows of a table, in order; each row is its cells, and each cell is
/// the lines it holds.
pub uninterp spec fn table_rows(t: prettytable::Table) -> Seq<Seq<Seq<Seq<char>>>>;

/// Relies on `prettytable::Table::new`: a table with no rows.
#[verifier::external_body]
fn new_table() -> (r: Table)
    ensures
        table_rows(r) == Seq::<Seq<Seq<Seq<char>>>>::empty(),
{
    Table::new()
}

/// Relies on `prettytable::Table::add_row` (with `Row::new`, and `Cell::new`,
/// which keeps the lines of its text): the row is appended after the
/// existing rows.
#[verifier::external_body]
fn push_row(t: &mut Table, cells: Vec<String>)
    ensures
        table_rows(*final(t)) == table_rows(*old(t)).push(
            cells@.map_values(
                |c: String|
                    if has_line_break(c@) {
                        text_lines(c@)
                    } else if c@.len() == 0 {
                        seq![]
                    } else {
                        seq![c@]
                    },
            ),
        ),
{
    t.add_row(Row::new(cells.iter().map(|c| Cell::new(c)).collect()));
}

proof fn lemma_cells_lines(cells: Seq<String>)
    ensures
        cells.map_values(
            |c: String|
                if has_line_break(c@) {
                    text_lines(c@)
                } else if c@.len() == 0 {
                    seq![]
                } else {
                    seq![c@]
                },
        ) == cells.map_values(|c: String| cell_lines(c@)),
{
    assert(cells.map_values(
        |c: String|
            if has_line_break(c@) {
                text_lines(c@)
            } else if c@.len() == 0 {
                seq![]
            } else {
                seq![c@]
            },
    ) =~= cells.map_values(|c: String| cell_lines(c@)));
}

/// The column titles of the task table, one line each.
pub open spec fn header() -> Seq<Seq<Seq<char>>> {
    seq![seq!["ID"@], seq!["NAME"@], seq!["DESCRIPTION"@], seq!["CREATED_AT"@], seq!["STATUS"@]]
}

proof fn lemma_plain_title(s: &str)
    requires
        s@.len() > 0,
        forall|i: int| 0 <= i < s@.len() ==> 'A' <= #[trigger] s@[i] <= 'Z' || s@[i] == '_',
    ensures
        cell_lines(s@) == seq![s@],
{
}

/// A table holding only the column titles.
pub fn init_table() -> (r: Table)
    ensures
        table_rows(r) == seq![header()],
{
    let mut t = new_table();
    let cells = vec![
        String::from_str("ID"),
        String::from_str("NAME"),
        String::from_str("DESCRIPTION"),
        String::from_str("CREATED_AT"),
        String::from_str("STATUS"),
    ];
    proof {
        reveal_strlit("ID");
        reveal_strlit("NAME");
        reveal_strlit("DESCRIPTION");
        reveal_strlit("CREATED_AT");
        reveal_strlit("STATUS");
        lemma_plain_title("ID");
        lemma_plain_title("NAME");
        lemma_plain_title("DESCRIPTION");
        lemma_plain_title("CREATED_AT");
        lemma_plain_title("STATUS");
    }
    push_row(&mut t, cells);
    proof {
        lemma_cells_lines(cells@);
    }
    assert(cells@.map_values(|c: String| cell_lines(c@)) =~= header());
    assert(table_rows(t) =~= seq![header()]);
    t
}

/// The cells of one displayed task, each as the lines it holds.
pub open spec fn row_cells(r: (u32, String, String, String, String)) -> Seq<Seq<Seq<char>>> {
    seq![cell_lines(decimal(r.0 as nat)), cell_lines(r.1@), cell_lines(r.2@), cell_lines(r.3@), cell_lines(r.4@)]
}

/// The displayed fields of a task: id, name, description, creation time and
/// status text.
pub open spec fn is_display_row(r: (u32, String, String, String, String), t: TaskView) -> bool {
    r.0 == t.id && r.1@ == t.name && r.2@ == t.description && r.3@ == t.created_at && r.4@
        == status_text(t.status)
}

/// The displayed fields of each task, in order.
pub fn display_rows(tasks: &Vec<Task>) -> (r: Vec<(u32, String, String, String, String)>)
    ensures
        r.len() == tasks.len(),
        forall|i: int| 0 <= i < tasks.len() ==> is_display_row(#[trigger] r@[i], tasks@[i]@),
{
    let mut out: Vec<(u32, String, String, String, String)> = Vec::new();
    let mut i: usize = 0;
    while i < tasks.len()
        invariant
            i <= tasks.len(),
            out.len() == i,
            forall|j: int| 0 <= j < i ==> is_display_row(#[trigger] out@[j], tasks@[j]@),
        decreases tasks.len() - i,
    {
        let t = &tasks[i];
        out.push((t.id, t.name.clone(), t.description.clone(), t.created_at.clone(), t.status.as_text()));
        i += 1;
    }
    out
}

/// Something that can take rows of task fields.
pub trait DataHolder {
    /// The rows held; each row is its cells, each cell the lines it holds.
    spec fn held_rows(&self) -> Seq<Seq<Seq<Seq<char>>>>;

    /// Appends one row per task, in order.
    fn add_data(&mut self, task_iter: Vec<(u32, String, String, String, String)>)
        ensures
            final(self).held_rows() == old(self).held_rows() + task_iter@.map_values(
                |r: (u32, String, String, String, String)| row_cells(r),
            ),
    ;
}

impl DataHolder for Table {
    open spec fn held_rows(&self) -> Seq<Seq<Seq<Seq<char>>>> {
        table_rows(*self)
    }

    fn add_data(&mut self, task_iter: Vec<(u32, String, String, String, String)>) {
        let ghost start = table_rows(*self);
        let ghost rows = task_iter@.map_values(|r: (u32, String, String, String, String)| row_cells(r));
        let mut i: usize = 0;
        while i < task_iter.len()
            invariant
                i <= task_iter.len(),
                rows == task_iter@.map_values(|r: (u32, String, String, String, String)| row_cells(r)),
                table_rows(*self) == start + rows.take(i as int),
            decreases task_iter.len() - i,
        {
            let r = &task_iter[i];
            let cells = vec![
                decimal_text(r.0),
                r.1.clone(),
                r.2.clone(),
                r.3.clone(),
                r.4.clone(),
            ];
            push_row(self, cells);
            proof {
                lemma_cells_lines(cells@);
            }
            assert(cells@.map_values(|c: String| cell_lines(c@)) =~= row_cells(*r));
            assert(rows.take(i + 1) =~= rows.take(i as int).push(rows[i as int]));
            i += 1;
        }
        assert(rows.take(i as int) =~= rows);
    }
}

} // verus!
