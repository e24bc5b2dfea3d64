//! The task table: rows kept in id order, matched by name or by id.
use vstd::prelude::*;
use vstd::string::*;
use crate::display::Status;
use crate::text::{digits_value, is_digits, parse_u32, str_eq};

verus! {

/// A stored task.
#[derive(Debug)]
pub struct Task {
    pub id: u32,
    pub name: String,
    pub description: String,
    pub created_at: String,
    pub status: Status,
}

/// The value of a task, with its texts as character sequences.
pub struct TaskView {
    pub id: u32,
    pub name: Seq<char>,
    pub description: Seq<char>,
    pub created_at: Seq<char>,
    pub status: Status,
}

impl View for Task {
    type V = TaskView;

    open spec fn view(&self) -> TaskView {
        TaskView {
            id: self.id,
            name: self.name@,
            description: self.description@,
            created_at: self.created_at@,
            status: self.status,
        }
    }
}

impl Task {
    /// A task with the same fields as this one.
    pub fn duplicate(&self) -> (r: Task)
        ensures
            r@ == self@,
    {
        Task {
            id: self.id,
            name: self.name.clone(),
            description: self.description.clone(),
            created_at: self.created_at.clone(),
            status: self.status,
        }
    }
}

/// The values of a sequence of tasks.
pub open spec fn views(ts: Seq<Task>) -> Seq<TaskView> {
    ts.map_values(|t: Task| t@)
}

/// The description a task is given when it is created.
pub open spec fn no_description() -> Seq<char> {
    "No Description"@
}

/// Whether a specifier names a task: it equals the task's name, or it is a
/// run of decimal digits whose value is the task's id.
pub open spec fn matches(t: TaskView, s: Seq<char>) -> bool {
    t.name == s || (is_digits(s) && digits_value(s) == t.id)
}

/// No row matches the specifier.
pub open spec fn no_match(rows: Seq<TaskView>, s: Seq<char>) -> bool {
    forall|i: int| 0 <= i < rows.len() ==> !matches(#[trigger] rows[i], s)
}

/// Row `i` is the first row that matches the specifier.
pub open spec fn is_first_match(rows: Seq<TaskView>, s: Seq<char>, i: int) -> bool {
    &&& 0 <= i < rows.len()
    &&& matches(rows[i], s)
    &&& forall|j: int| 0 <= j < i ==> !matches(#[trigger] rows[j], s)
}

/// The status of the first row that matches the specifier.
pub open spec fn first_match_status(rows: Seq<TaskView>, s: Seq<char>) -> Status {
    rows[choose|i: int| is_first_match(rows, s, i)].status
}

proof fn lemma_first_match_status(rows: Seq<TaskView>, s: Seq<char>, k: int)
    requires
        is_first_match(rows, s, k),
    ensures
        first_match_status(rows, s) == rows[k].status,
{
    let c = choose|i: int| is_first_match(rows, s, i);
    assert(is_first_match(rows, s, c));
    if c < k {
        assert(!matches(rows[c], s));
    } else if c > k {
        assert(!matches(rows[k], s));
    }
}

/// The rows that do not match the specifier, in order.
pub open spec fn kept(rows: Seq<TaskView>, s: Seq<char>) -> Seq<TaskView>
    decreases rows.len(),
{
    if rows.len() == 0 {
        seq![]
    } else if matches(rows.last(), s) {
        kept(rows.drop_last(), s)
    } else {
        kept(rows.drop_last(), s).push(rows.last())
    }
}

/// The ids of the rows that match the specifier, in order.
pub open spec fn matching_ids(rows: Seq<TaskView>, s: Seq<char>) -> Seq<u32>
    decreases rows.len(),
{
    if rows.len() == 0 {
        seq![]
    } else if matches(rows.last(), s) {
        matching_ids(rows.drop_last(), s).push(rows.last().id)
    } else {
        matching_ids(rows.drop_last(), s)
    }
}

/// The rows after every matching row's description is set to `d`.
pub open spec fn described(rows: Seq<TaskView>, s: Seq<char>, d: Seq<char>) -> Seq<TaskView> {
    rows.map_values(|t: TaskView| if matches(t, s) { TaskView { description: d, ..t } } else { t })
}

/// The rows after every matching row's status is set to `st`.
pub open spec fn restatused(rows: Seq<TaskView>, s: Seq<char>, st: Status) -> Seq<TaskView> {
    rows.map_values(|t: TaskView| if matches(t, s) { TaskView { status: st, ..t } } else { t })
}

/// The row a new task gets.
pub open spec fn new_row(id: u32, name: Seq<char>, created_at: Seq<char>) -> TaskView {
    TaskView {
        id,
        name,
        description: no_description(),
        created_at,
        status: Status::NotStarted,
    }
}

/// Editing a description or updating a status never changes a row's id or
/// creation time, nor the number of rows.
pub proof fn lemma_created_at_kept(rows: Seq<TaskView>, s: Seq<char>, d: Seq<char>, st: Status)
    ensures
        described(rows, s, d).len() == rows.len(),
        restatused(rows, s, st).len() == rows.len(),
        forall|i: int|
            0 <= i < rows.len() ==> (#[trigger] described(rows, s, d)[i]).created_at
                == rows[i].created_at && described(rows, s, d)[i].id == rows[i].id,
        forall|i: int|
            0 <= i < rows.len() ==> (#[trigger] restatused(rows, s, st)[i]).created_at
                == rows[i].created_at && restatused(rows, s, st)[i].id == rows[i].id,
{
}

/// One change that an edit or an update command makes: a description, or a
/// status, set on the rows that a specifier matches.
pub enum Change {
    Describe { specifier: Seq<char>, description: Seq<char> },
    SetStatus { specifier: Seq<char>, status: Status },
}

/// The rows after one change.
pub open spec fn apply_change(rows: Seq<TaskView>, c: Change) -> Seq<TaskView> {
    match c {
        Change::Describe { specifier, description } => described(rows, specifier, description),
        Change::SetStatus { specifier, status } => restatused(rows, specifier, status),
    }
}

/// The rows after a sequence of changes, made in order.
pub open spec fn apply_changes(rows: Seq<TaskView>, cs: Seq<Change>) -> Seq<TaskView>
    decreases cs.len(),
{
    if cs.len() == 0 {
        rows
    } else {
        apply_change(apply_changes(rows, cs.drop_last()), cs.last())
    }
}

/// However many edits and updates are made, in whatever order, every row
/// keeps its id and its creation time, and no row comes or goes.
pub proof fn lemma_created_at_kept_over_changes(rows: Seq<TaskView>, cs: Seq<Change>)
    ensures
        apply_changes(rows, cs).len() == rows.len(),
        forall|i: int|
            0 <= i < rows.len() ==> (#[trigger] apply_changes(rows, cs)[i]).created_at
                == rows[i].created_at && apply_changes(rows, cs)[i].id == rows[i].id,
    decreases cs.len(),
{
    if cs.len() > 0 {
        let pre = apply_changes(rows, cs.drop_last());
        lemma_created_at_kept_over_changes(rows, cs.drop_last());
        match cs.last() {
            Change::Describe { specifier, description } => {
                lemma_created_at_kept(pre, specifier, description, Status::NotStarted);
            },
            Change::SetStatus { specifier, status } => {
                lemma_created_at_kept(pre, specifier, seq![], status);
            },
        }
        assert forall|i: int| 0 <= i < rows.len() implies (#[trigger] apply_changes(rows, cs)[i]).created_at
            == rows[i].created_at && apply_changes(rows, cs)[i].id == rows[i].id by {
            assert(pre[i].created_at == rows[i].created_at);
        }
    }
}

/// A status update reaches every row the specifier matches, however many
/// there are, and no other row.
pub proof fn lemma_update_reaches_every_match(rows: Seq<TaskView>, s: Seq<char>, st: Status)
    ensures
        forall|i: int|
            0 <= i < rows.len() && matches(rows[i], s) ==> (#[trigger] restatused(rows, s, st)[i]).status
                == st,
        forall|i: int|
            0 <= i < rows.len() && !matches(rows[i], s) ==> #[trigger] restatused(rows, s, st)[i]
                == rows[i],
        matching_ids(rows, s).len() == restatused(rows, s, st).len() - kept(rows, s).len(),
    decreases rows.len(),
{
    if rows.len() > 0 {
        lemma_update_reaches_every_match(rows.drop_last(), s, st);
    }
}

/// Removing by a specifier that matches no row leaves the rows as they were
/// and removes nothing.
pub proof fn lemma_remove_unmatched_keeps_rows(rows: Seq<TaskView>, s: Seq<char>)
    requires
        no_match(rows, s),
    ensures
        kept(rows, s) == rows,
        matching_ids(rows, s).len() == 0,
    decreases rows.len(),
{
    if rows.len() > 0 {
        let pre = rows.drop_last();
        assert forall|i: int| 0 <= i < pre.len() implies !matches(#[trigger] pre[i], s) by {
            assert(pre[i] == rows[i]);
        }
        lemma_remove_unmatched_keeps_rows(pre, s);
        assert(!matches(rows[rows.len() - 1], s));
        assert(pre.push(rows.last()) =~= rows);
    }
}

/// A created task is the one new row: its id is held by no earlier row, and
/// the table stays well formed with the next id one higher.
pub proof fn lemma_added_row_is_new(rows: Seq<TaskView>, id: u32, name: Seq<char>, created_at: Seq<char>)
    requires
        rows_wf(rows, id),
        name.len() > 0,
        id < u32::MAX,
    ensures
        forall|i: int| 0 <= i < rows.len() ==> (#[trigger] rows[i]).id != id,
        rows_wf(rows.push(new_row(id, name, created_at)), (id + 1) as u32),
{
    let r2 = rows.push(new_row(id, name, created_at));
    assert forall|i: int| 0 <= i < r2.len() implies (#[trigger] r2[i]).id < id + 1 by {
        if i < rows.len() {
            assert(r2[i] == rows[i]);
        }
    }
}

/// Why a storage operation failed.
#[derive(Clone, Copy, Debug, PartialEq, Eq, Structural)]
pub enum StorageError {
    /// Every id has been handed out.
    IdsExhausted,
}

/// What a status update did.
#[derive(Debug)]
pub enum UpdateOutcome {
    /// No row matched the specifier.
    NotFound,
    /// The first matching row already had the requested status; nothing was written.
    Unchanged(Status),
    /// The rows with these ids were set to the new status; `old` is what the
    /// first of them had.
    Updated { old: Status, ids: Vec<u32> },
}

/// The task table. Ids increase with the position of a row, and every id is
/// below the next id to hand out, so ids are never reused.
pub struct TaskTable {
    tasks: Vec<Task>,
    next_id: u32,
}

/// Rows whose ids increase strictly, all below `next`, with non-empty names.
pub open spec fn rows_wf(rows: Seq<TaskView>, next: u32) -> bool {
    &&& forall|i: int, j: int| 0 <= i < j < rows.len() ==> rows[i].id < rows[j].id
    &&& forall|i: int| 0 <= i < rows.len() ==> (#[trigger] rows[i]).id < next
    &&& forall|i: int| 0 <= i < rows.len() ==> (#[trigger] rows[i]).name.len() > 0
}

/// Whether task `t` matches the specifier `s`.
pub fn task_matches(t: &Task, s: &str) -> (r: bool)
    ensures
        r == matches(t@, s@),
{
    if str_eq(t.name.as_str(), s) {
        return true;
    }
    match parse_u32(s) {
        Some(v) => v == t.id,
        None => false,
    }
}

impl TaskTable {
    /// The rows, in id order.
    pub closed spec fn rows(&self) -> Seq<TaskView> {
        views(self.tasks@)
    }

    /// The id the next created task gets.
    pub closed spec fn next(&self) -> u32 {
        self.next_id
    }

    pub open spec fn wf(&self) -> bool {
        rows_wf(self.rows(), self.next())
    }

    /// An empty table whose first task gets id 1.
    pub fn new() -> (r: TaskTable)
        ensures
            r.wf(),
            r.rows() == Seq::<TaskView>::empty(),
            r.next() == 1,
    {
        let r = TaskTable { tasks: Vec::new(), next_id: 1 };
        assert(r.rows() =~= Seq::<TaskView>::empty());
        r
    }

    /// The id the next created task gets.
    pub fn next_id(&self) -> (r: u32)
        ensures
            r == self.next(),
    {
        self.next_id
    }

    /// All rows, in id order, as new values.
    pub fn list_tasks(&self) -> (r: Vec<Task>)
        requires
            self.wf(),
        ensures
            views(r@) == self.rows(),
            forall|i: int, j: int| 0 <= i < j < r@.len() ==> r@[i].id < r@[j].id,
    {
        let mut out: Vec<Task> = Vec::new();
        let mut i: usize = 0;
        while i < self.tasks.len()
            invariant
                i <= self.tasks.len(),
                views(out@) == self.rows().take(i as int),
            decreases self.tasks.len() - i,
        {
            let t = self.tasks[i].duplicate();
            assert(t@ == self.rows()[i as int]);
            let ghost prev = out@;
            out.push(t);
            assert(views(out@) =~= views(prev).push(t@));
            i += 1;
            assert(views(out@) =~= self.rows().take(i as int));
        }
        assert(self.rows().take(i as int) =~= self.rows());
        assert forall|a: int, b: int| 0 <= a < b < out@.len() implies out@[a].id < out@[b].id by {
            assert(views(out@)[a] == out@[a]@ && views(out@)[b] == out@[b]@);
        }
        out
    }

    /// Adds a task named `name`, created at `created_at`, with the default
    /// description and status `NotStarted`; it gets the next id.
    pub fn create_task(&mut self, name: String, created_at: String) -> (r: Result<u32, StorageError>)
        requires
            old(self).wf(),
            name@.len() > 0,
        ensures
            final(self).wf(),
            r is Err <==> old(self).next() == u32::MAX,
            r matches Ok(id) ==> {
                &&& id == old(self).next()
                &&& forall|i: int| 0 <= i < old(self).rows().len() ==> (#[trigger] old(self).rows()[i]).id < id
                &&& final(self).rows() == old(self).rows().push(new_row(id, name@, created_at@))
                &&& final(self).next() == id + 1
            },
            r matches Err(e) ==> e == StorageError::IdsExhausted && *final(self) == *old(self),
    {
        if self.next_id == u32::MAX {
            return Err(StorageError::IdsExhausted);
        }
        let id = self.next_id;
        let t = Task {
            id,
            name,
            description: String::from_str("No Description"),
            created_at,
            status: Status::NotStarted,
        };
        let ghost prev = self.tasks@;
        self.tasks.push(t);
        self.next_id = id + 1;
        assert(views(self.tasks@) =~= views(prev).push(t@));
        Ok(id)
    }

    /// Deletes every row that the specifier matches; returns their ids.
    pub fn remove_task(&mut self, s: &str) -> (r: Vec<u32>)
        requires
            old(self).wf(),
        ensures
            final(self).wf(),
            final(self).rows() == kept(old(self).rows(), s@),
            final(self).next() == old(self).next(),
            r@ == matching_ids(old(self).rows(), s@),
    {
        let ghost rows = self.rows();
        let mut out: Vec<Task> = Vec::new();
        let mut ids: Vec<u32> = Vec::new();
        let mut i: usize = 0;
        let n = self.tasks.len();
        while i < n
            invariant
                n == self.tasks.len(),
                rows == self.rows(),
                rows_wf(rows, self.next_id),
                i <= n,
                views(out@) == kept(rows.take(i as int), s@),
                ids@ == matching_ids(rows.take(i as int), s@),
                rows_wf(views(out@), self.next_id),
                forall|k: int, m: int|
                    0 <= k < out@.len() && i <= m < n ==> #[trigger] views(out@)[k].id < #[trigger] rows[m].id,
            decreases n - i,
        {
            assert(rows.take(i + 1).drop_last() =~= rows.take(i as int));
            let ghost prev = out@;
            if task_matches(&self.tasks[i], s) {
                ids.push(self.tasks[i].id);
            } else {
                let t = self.tasks[i].duplicate();
                out.push(t);
                assert(views(out@) =~= views(prev).push(t@));
            }
            i += 1;
        }
        assert(rows.take(n as int) =~= rows);
        self.tasks = out;
        ids
    }

    /// Sets the description of every row that the specifier matches to `d`;
    /// returns their ids.
    pub fn update_description(&mut self, s: &str, d: &str) -> (r: Vec<u32>)
        requires
            old(self).wf(),
        ensures
            final(self).wf(),
            final(self).rows() == described(old(self).rows(), s@, d@),
            final(self).next() == old(self).next(),
            r@ == matching_ids(old(self).rows(), s@),
    {
        let ghost rows = self.rows();
        let mut ids: Vec<u32> = Vec::new();
        let mut i: usize = 0;
        let n = self.tasks.len();
        while i < n
            invariant
                n == self.tasks.len(),
                self.rows().len() == n,
                rows.len() == n,
                i <= n,
                rows_wf(rows, self.next_id),
                self.next_id == old(self).next_id,
                rows == old(self).rows(),
                forall|j: int| 0 <= j < i ==> #[trigger] self.rows()[j] == described(rows, s@, d@)[j],
                forall|j: int| i <= j < n ==> #[trigger] self.rows()[j] == rows[j],
                ids@ == matching_ids(rows.take(i as int), s@),
            decreases n - i,
        {
            assert(rows.take(i + 1).drop_last() =~= rows.take(i as int));
            assert(self.rows()[i as int] == rows[i as int]);
            if task_matches(&self.tasks[i], s) {
                let mut t = self.tasks[i].duplicate();
                t.description = String::from_str(d);
                ids.push(t.id);
                let ghost before = self.tasks@;
                self.tasks.set(i, t);
                assert(views(self.tasks@) =~= views(before).update(i as int, t@));
            }
            assert(described(rows, s@, d@)[i as int] == self.rows()[i as int]);
            i += 1;
        }
        assert(rows.take(n as int) =~= rows);
        assert(self.rows() =~= described(rows, s@, d@));
        ids
    }

    /// Sets the status of every row that the specifier matches to `st`;
    /// returns their ids.
    fn set_status(&mut self, s: &str, st: Status) -> (r: Vec<u32>)
        requires
            old(self).wf(),
        ensures
            final(self).wf(),
            final(self).rows() == restatused(old(self).rows(), s@, st),
            final(self).next() == old(self).next(),
            r@ == matching_ids(old(self).rows(), s@),
    {
        let ghost rows = self.rows();
        let mut ids: Vec<u32> = Vec::new();
        let mut i: usize = 0;
        let n = self.tasks.len();
        while i < n
            invariant
                n == self.tasks.len(),
                self.rows().len() == n,
                rows.len() == n,
                i <= n,
                rows_wf(rows, self.next_id),
                self.next_id == old(self).next_id,
                rows == old(self).rows(),
                forall|j: int| 0 <= j < i ==> #[trigger] self.rows()[j] == restatused(rows, s@, st)[j],
                forall|j: int| i <= j < n ==> #[trigger] self.rows()[j] == rows[j],
                ids@ == matching_ids(rows.take(i as int), s@),
            decreases n - i,
        {
            assert(rows.take(i + 1).drop_last() =~= rows.take(i as int));
            assert(self.rows()[i as int] == rows[i as int]);
            if task_matches(&self.tasks[i], s) {
                let mut t = self.tasks[i].duplicate();
                t.status = st;
                ids.push(t.id);
                let ghost before = self.tasks@;
                self.tasks.set(i, t);
                assert(views(self.tasks@) =~= views(before).update(i as int, t@));
            }
            assert(restatused(rows, s@, st)[i as int] == self.rows()[i as int]);
            i += 1;
        }
        assert(rows.take(n as int) =~= rows);
        assert(self.rows() =~= restatused(rows, s@, st));
        ids
    }

    /// The position of the first row that the specifier matches.
    fn first_match(&self, s: &str) -> (r: Option<usize>)
        ensures
            r matches Some(k) ==> is_first_match(self.rows(), s@, k as int),
            r is None ==> no_match(self.rows(), s@),
    {
        let mut k: usize = 0;
        while k < self.tasks.len()
            invariant
                k <= self.tasks.len(),
                forall|j: int| 0 <= j < k ==> !matches(#[trigger] self.rows()[j], s@),
            decreases self.tasks.len() - k,
        {
            assert(self.rows()[k as int] == self.tasks@[k as int]@);
            if task_matches(&self.tasks[k], s) {
                return Some(k);
            }
            k += 1;
        }
        None
    }

    /// Moves the tasks that the specifier matches to status `st`. When no row
    /// matches, or the first matching row already has status `st`, nothing
    /// is written; otherwise every matching row gets status `st`.
    pub fn update_status(&mut self, s: &str, st: Status) -> (r: UpdateOutcome)
        requires
            old(self).wf(),
        ensures
            final(self).wf(),
            final(self).next() == old(self).next(),
            r is NotFound <==> no_match(old(self).rows(), s@),
            !no_match(old(self).rows(), s@) ==> (r is Unchanged <==> first_match_status(
                old(self).rows(),
                s@,
            ) == st),
            !(r is Updated) ==> final(self).rows() == old(self).rows(),
            r matches UpdateOutcome::Unchanged(cur) ==> cur == st,
            r matches UpdateOutcome::Updated { old: prev, ids } ==> {
                &&& prev == first_match_status(old(self).rows(), s@)
                &&& prev != st
                &&& final(self).rows() == restatused(old(self).rows(), s@, st)
                &&& ids@ == matching_ids(old(self).rows(), s@)
            },
    {
        match self.first_match(s) {
            None => UpdateOutcome::NotFound,
            Some(k) => {
                proof {
                    lemma_first_match_status(self.rows(), s@, k as int);
                }
                let cur = self.tasks[k].status;
                assert(cur == self.rows()[k as int].status);
                if cur == st {
                    UpdateOutcome::Unchanged(cur)
                } else {
                    let ids = self.set_status(s, st);
                    UpdateOutcome::Updated { old: cur, ids }
                }
            },
        }
    }

    /// A table holding `tasks`, whose next created task gets `next_id`; `None`
    /// unless the ids increase strictly, all lie below `next_id`, and every
    /// name is non-empty.
    pub fn restore(tasks: Vec<Task>, next_id: u32) -> (r: Option<TaskTable>)
        ensures
            r is Some <==> rows_wf(views(tasks@), next_id),
            r matches Some(t) ==> t.wf() && t.rows() == views(tasks@) && t.next() == next_id,
    {
        let ghost rows = views(tasks@);
        let n = tasks.len();
        let mut i: usize = 0;
        while i < n
            invariant
                n == tasks.len(),
                rows == views(tasks@),
                i <= n,
                rows_wf(rows.take(i as int), next_id),
            decreases n - i,
        {
            let t = &tasks[i];
            assert(rows[i as int] == t@);
            if t.id >= next_id || t.name.as_str().unicode_len() == 0 {
                assert(!rows_wf(rows, next_id));
                return None;
            }
            if i > 0 && tasks[i - 1].id >= t.id {
                assert(rows[i - 1] == tasks@[i - 1]@);
                assert(!rows_wf(rows, next_id));
                return None;
            }
            proof {
                let pre = rows.take(i as int);
                let cur = rows.take(i + 1);
                if i > 0 {
                    assert(rows[i - 1] == tasks@[i - 1]@);
                }
                assert forall|a: int, b: int| 0 <= a < b < cur.len() implies cur[a].id < cur[b].id by {
                    assert(cur[a] == rows[a]);
                    assert(cur[b] == rows[b]);
                    if b < i {
                        assert(pre[a] == rows[a] && pre[b] == rows[b]);
                    } else if a < i - 1 {
                        assert(pre[a] == rows[a] && pre[i - 1] == rows[i - 1]);
                    }
                }
                assert forall|a: int| 0 <= a < cur.len() implies (#[trigger] cur[a]).id < next_id
                    && cur[a].name.len() > 0 by {
                    if a < i {
                        assert(pre[a] == cur[a]);
                    }
                }
            }
            i += 1;
        }
        assert(rows.take(n as int) =~= rows);
        Some(TaskTable { tasks, next_id })
    }
}

} // verus!
