//! Tasks and the table that keeps them.

use crate::sql::{
    column_flag, column_text, execute, prepare, query_map, row_cells, Cell, Request, SqlValue,
    SqlValueView,
};
use crate::util::{is_task_id, random_id};
use rusqlite::{Connection, Row};
use vstd::prelude::*;
use vstd::string::StringExecFns;

verus! {

/// A unit of tracked work.
#[derive(Debug)]
pub struct Task {
    pub id: String,
    pub name: String,
    pub done: bool,
}

/// The mathematical content of a [`Task`].
pub struct TaskView {
    pub id: Seq<char>,
    pub name: Seq<char>,
    pub done: bool,
}

impl View for Task {
    type V = TaskView;

    open spec fn view(&self) -> TaskView {
        TaskView { id: self.id@, name: self.name@, done: self.done }
    }
}

impl DeepView for Task {
    type V = TaskView;

    open spec fn deep_view(&self) -> TaskView {
        self@
    }
}

impl Task {
    /// A task that is not done yet, under a freshly generated identifier.
    pub fn new(name: &str) -> (task: Task)
        ensures
            task@.name == name@,
            !task@.done,
            is_task_id(task@.id),
    {
        Task { id: random_id(), name: String::from_str(name), done: false }
    }
}

/// Creates the task table unless the database has one.
pub const CREATE_TABLE: &'static str =
    "CREATE TABLE IF NOT EXISTS task (id TEXT PRIMARY KEY, name TEXT NOT NULL UNIQUE, done INTEGER DEFAULT 0 CHECK (done IN (0, 1)));";

/// Inserts a task, or overwrites the name and the flag of the task that has
/// its identifier.
pub const UPSERT_TASK: &'static str =
    "INSERT INTO task (id, name, done) VALUES (?1, ?2, ?3) ON CONFLICT (id) DO UPDATE SET name = ?2, done = ?3 WHERE task.id = ?1;";

/// Selects the task with a given identifier.
pub const SELECT_BY_ID: &'static str = "SELECT id, name, done FROM task WHERE task.id = ?1;";

/// Selects every task.
pub const SELECT_ALL: &'static str = "SELECT id, name, done FROM task;";

/// Marks the task with a given identifier as done.
pub const MARK_DONE: &'static str = "UPDATE task SET done = 1 WHERE id = ?1;";

/// Marks the task with a given identifier as not done.
pub const MARK_NOT_DONE: &'static str = "UPDATE task SET done = 0 WHERE id = ?1;";

/// Deletes the task with a given identifier.
pub const DELETE_BY_ID: &'static str = "DELETE FROM task WHERE task.id = ?1;";

/// The values bound to [`UPSERT_TASK`]: identifier, name and flag, in the
/// order of its placeholders.
pub fn task_params(task: &Task) -> (params: Vec<SqlValue>)
    ensures
        params.deep_view() == seq![
            SqlValueView::Text(task@.id),
            SqlValueView::Text(task@.name),
            SqlValueView::Flag(task@.done),
        ],
{
    let mut params: Vec<SqlValue> = Vec::new();
    params.push(SqlValue::Text(task.id.clone()));
    params.push(SqlValue::Text(task.name.clone()));
    params.push(SqlValue::Flag(task.done));
    assert(params.deep_view() =~= seq![
        SqlValueView::Text(task@.id),
        SqlValueView::Text(task@.name),
        SqlValueView::Flag(task@.done),
    ]);
    params
}

/// The single value bound to a statement that addresses one task.
pub fn id_params(id: &str) -> (params: Vec<SqlValue>)
    ensures
        params.deep_view() == seq![SqlValueView::Text(id@)],
{
    let mut params: Vec<SqlValue> = Vec::new();
    params.push(SqlValue::Text(String::from_str(id)));
    assert(params.deep_view() =~= seq![SqlValueView::Text(id@)]);
    params
}

/// What [`create_table_if_not_exists`] sends: [`CREATE_TABLE`], with no
/// values.
pub fn create_table_request() -> (request: Request)
    ensures
        request.statement@ == CREATE_TABLE@,
        request.values.deep_view() == Seq::<SqlValueView>::empty(),
{
    let values: Vec<SqlValue> = Vec::new();
    assert(values.deep_view() =~= Seq::<SqlValueView>::empty());
    Request { statement: CREATE_TABLE, values }
}

/// What [`save`] sends: [`UPSERT_TASK`], with the identifier, the name and
/// the flag of the task.
pub fn save_request(task: &Task) -> (request: Request)
    ensures
        request.statement@ == UPSERT_TASK@,
        request.values.deep_view() == seq![
            SqlValueView::Text(task@.id),
            SqlValueView::Text(task@.name),
            SqlValueView::Flag(task@.done),
        ],
{
    Request { statement: UPSERT_TASK, values: task_params(task) }
}

/// What [`get_by_id`] sends: [`SELECT_BY_ID`], with the identifier.
pub fn get_by_id_request(id: &str) -> (request: Request)
    ensures
        request.statement@ == SELECT_BY_ID@,
        request.values.deep_view() == seq![SqlValueView::Text(id@)],
{
    Request { statement: SELECT_BY_ID, values: id_params(id) }
}

/// What [`get_all`] sends: [`SELECT_ALL`], with no values.
pub fn get_all_request() -> (request: Request)
    ensures
        request.statement@ == SELECT_ALL@,
        request.values.deep_view() == Seq::<SqlValueView>::empty(),
{
    let values: Vec<SqlValue> = Vec::new();
    assert(values.deep_view() =~= Seq::<SqlValueView>::empty());
    Request { statement: SELECT_ALL, values }
}

/// What [`complete`] sends: [`MARK_DONE`], with the identifier.
pub fn complete_request(id: &str) -> (request: Request)
    ensures
        request.statement@ == MARK_DONE@,
        request.values.deep_view() == seq![SqlValueView::Text(id@)],
{
    Request { statement: MARK_DONE, values: id_params(id) }
}

/// What [`undo`] sends: [`MARK_NOT_DONE`], with the identifier.
pub fn undo_request(id: &str) -> (request: Request)
    ensures
        request.statement@ == MARK_NOT_DONE@,
        request.values.deep_view() == seq![SqlValueView::Text(id@)],
{
    Request { statement: MARK_NOT_DONE, values: id_params(id) }
}

/// What [`delete`] sends: [`DELETE_BY_ID`], with the identifier.
pub fn delete_request(id: &str) -> (request: Request)
    ensures
        request.statement@ == DELETE_BY_ID@,
        request.values.deep_view() == seq![SqlValueView::Text(id@)],
{
    Request { statement: DELETE_BY_ID, values: id_params(id) }
}

/// The task that three columns of a row decode to: the first column that
/// failed to convert decides the error.
pub open spec fn decoded_task(
    id: Result<String, rusqlite::Error>,
    name: Result<String, rusqlite::Error>,
    done: Result<bool, rusqlite::Error>,
) -> Result<Task, rusqlite::Error> {
    match (id, name, done) {
        (Err(e), _, _) => Err(e),
        (Ok(_), Err(e), _) => Err(e),
        (Ok(_), Ok(_), Err(e)) => Err(e),
        (Ok(id), Ok(name), Ok(done)) => Ok(Task { id, name, done }),
    }
}

/// Builds a task from the outcomes of reading its three columns.
pub fn task_from_columns(
    id: Result<String, rusqlite::Error>,
    name: Result<String, rusqlite::Error>,
    done: Result<bool, rusqlite::Error>,
) -> (task: Result<Task, rusqlite::Error>)
    ensures
        task == decoded_task(id, name, done),
{
    match id {
        Err(e) => Err(e),
        Ok(id) => match name {
            Err(e) => Err(e),
            Ok(name) => match done {
                Err(e) => Err(e),
                Ok(done) => Ok(Task { id, name, done }),
            },
        },
    }
}

/// The task that a row holds: its first three columns are the identifier
/// and the name, both text, and the flag, an integer that stands for done
/// unless it is zero. A row of another shape holds no task.
pub open spec fn task_in(cells: Seq<Cell>) -> Option<TaskView> {
    if cells.len() >= 3 && cells[0] is Text && cells[1] is Text && cells[2] is Integer {
        Some(
            TaskView {
                id: cells[0]->Text_0,
                name: cells[1]->Text_0,
                done: cells[2]->Integer_0 != 0,
            },
        )
    } else {
        None
    }
}

/// Whether a task with this content was read from a row of an answer.
pub open spec fn is_read_from_row(task: TaskView) -> bool {
    exists|row: Row| task_in(#[trigger] row_cells(row)) == Some(task)
}

/// Reads a task from a row whose columns are identifier, name and flag:
/// the task that the row holds, or an error where it holds none.
pub fn row_to_task(row: &Row) -> (task: Result<Task, rusqlite::Error>)
    ensures
        match task {
            Ok(read) => task_in(row_cells(*row)) == Some(read@),
            Err(_) => task_in(row_cells(*row)) is None,
        },
{
    let id = column_text(row, 0);
    let name = column_text(row, 1);
    let done = column_flag(row, 2);
    task_from_columns(id, name, done)
}

/// Whether `k` is the position of the first row that failed to decode.
pub open spec fn is_first_failure(rows: Seq<Result<Task, rusqlite::Error>>, k: int) -> bool {
    &&& 0 <= k < rows.len()
    &&& rows[k] is Err
    &&& forall|j: int| 0 <= j < k ==> rows[j] is Ok
}

/// What the decoded rows of an answer amount to: all the tasks in their
/// order when every row decoded, else the error of the first row that did
/// not.
pub open spec fn collected(rows: Seq<Result<Task, rusqlite::Error>>) -> Result<
    Seq<Task>,
    rusqlite::Error,
> {
    if exists|k: int| is_first_failure(rows, k) {
        Err((rows[choose|k: int| is_first_failure(rows, k)])->Err_0)
    } else {
        Ok(rows.map_values(|row: Result<Task, rusqlite::Error>| row->Ok_0))
    }
}

/// Gathers the decoded rows of an answer.
pub fn collect_rows(rows: Vec<Result<Task, rusqlite::Error>>) -> (tasks: Result<
    Vec<Task>,
    rusqlite::Error,
>)
    ensures
        match tasks {
            Ok(tasks) => collected(rows@) == Ok::<Seq<Task>, rusqlite::Error>(tasks@),
            Err(e) => collected(rows@) == Err::<Seq<Task>, rusqlite::Error>(e),
        },
{
    let ghost all = rows@;
    let mut tasks: Vec<Task> = Vec::new();
    for row in it: rows
        invariant
            it.seq() == all,
            tasks@.len() == it.index(),
            forall|i: int|
                0 <= i < it.index() ==> #[trigger] all[i] == Ok::<Task, rusqlite::Error>(tasks@[i]),
    {
        match row {
            Ok(task) => {
                tasks.push(task);
            },
            Err(e) => {
                assert(is_first_failure(all, it.index() as int));
                return Err(e);
            },
        }
    }
    assert(tasks@ =~= all.map_values(|row: Result<Task, rusqlite::Error>| row->Ok_0));
    Ok(tasks)
}

/// Rows that amount to tasks all decoded, and the tasks are theirs, one
/// for one.
pub proof fn lemma_collected_tasks(rows: Seq<Result<Task, rusqlite::Error>>, upto: int)
    requires
        collected(rows) is Ok,
        0 <= upto <= rows.len(),
    ensures
        collected(rows)->Ok_0.len() == rows.len(),
        forall|i: int|
            0 <= i < upto ==> #[trigger] rows[i] == Ok::<Task, rusqlite::Error>(
                collected(rows)->Ok_0[i],
            ),
    decreases upto,
{
    if upto > 0 {
        lemma_collected_tasks(rows, upto - 1);
        if rows[upto - 1] is Err {
            assert(is_first_failure(rows, upto - 1));
        }
    }
}

/// What a query for tasks amounts to, given what the database answered.
pub open spec fn listed(
    queried: Result<Vec<Result<Task, rusqlite::Error>>, rusqlite::Error>,
) -> Result<Seq<Task>, rusqlite::Error> {
    match queried {
        Err(e) => Err(e),
        Ok(rows) => collected(rows@),
    }
}

/// The tasks of an answer, or the first failure in it.
pub fn list_answer(
    queried: Result<Vec<Result<Task, rusqlite::Error>>, rusqlite::Error>,
) -> (tasks: Result<Vec<Task>, rusqlite::Error>)
    ensures
        match tasks {
            Ok(tasks) => listed(queried) == Ok::<Seq<Task>, rusqlite::Error>(tasks@),
            Err(e) => listed(queried) == Err::<Seq<Task>, rusqlite::Error>(e),
        },
{
    match queried {
        Err(e) => Err(e),
        Ok(rows) => collect_rows(rows),
    }
}

/// The task an answer ends with, `None` for an answer without rows, or the
/// first failure in it.
pub fn find_answer(
    queried: Result<Vec<Result<Task, rusqlite::Error>>, rusqlite::Error>,
) -> (found: Result<Option<Task>, rusqlite::Error>)
    ensures
        found == match listed(queried) {
            Err(e) => Err::<Option<Task>, rusqlite::Error>(e),
            Ok(tasks) => Ok(if tasks.len() == 0 { None } else { Some(tasks.last()) }),
        },
{
    match list_answer(queried) {
        Err(e) => Err(e),
        Ok(mut tasks) => Ok(tasks.pop()),
    }
}

/// What a statement without an answer amounts to, given how the database
/// took it: `value` when it ran, else the failure.
pub open spec fn settled<T>(value: T, executed: Result<usize, rusqlite::Error>) -> Result<
    T,
    rusqlite::Error,
> {
    match executed {
        Ok(_) => Ok(value),
        Err(e) => Err(e),
    }
}

/// Turns the outcome of running a statement into `value` or the failure.
pub fn settle<T>(value: T, executed: Result<usize, rusqlite::Error>) -> (outcome: Result<
    T,
    rusqlite::Error,
>)
    ensures
        outcome == settled(value, executed),
{
    match executed {
        Ok(_) => Ok(value),
        Err(e) => Err(e),
    }
}

/// Creates the task table if the database has none. Data is never touched.
pub fn create_table_if_not_exists(conn: &Connection) -> Result<(), rusqlite::Error> {
    let request = create_table_request();
    settle((), execute(conn, request.statement, &request.values))
}

/// Stores `task` under its identifier, overwriting the name and the flag of
/// a task already stored under it, and returns the identifier.
pub fn save(task: Task, conn: &Connection) -> (saved: Result<String, rusqlite::Error>)
    ensures
        saved matches Ok(id) ==> id@ == task@.id,
{
    let request = save_request(&task);
    settle(task.id, execute(conn, request.statement, &request.values))
}

/// The task stored under `id`, or `None` when there is none. A task that
/// comes back was read from a row of the answer.
pub fn get_by_id(id: &str, conn: &Connection) -> (found: Result<Option<Task>, rusqlite::Error>)
    ensures
        found matches Ok(Some(task)) ==> is_read_from_row(task@),
{
    let request = get_by_id_request(id);
    match prepare(conn, request.statement) {
        Err(e) => Err(e),
        Ok(mut statement) => {
            let queried = query_map(&mut statement, &request.values);
            proof {
                if listed(queried) is Ok {
                    lemma_collected_tasks(queried->Ok_0@, queried->Ok_0@.len() as int);
                }
            }
            find_answer(queried)
        },
    }
}

/// Every stored task, in the order the database hands them out. Each was
/// read from a row of the answer.
pub fn get_all(conn: &Connection) -> (tasks: Result<Vec<Task>, rusqlite::Error>)
    ensures
        tasks matches Ok(all) ==> forall|i: int|
            0 <= i < all@.len() ==> is_read_from_row((#[trigger] all@[i])@),
{
    let request = get_all_request();
    match prepare(conn, request.statement) {
        Err(e) => Err(e),
        Ok(mut statement) => {
            let queried = query_map(&mut statement, &request.values);
            proof {
                if listed(queried) is Ok {
                    lemma_collected_tasks(queried->Ok_0@, queried->Ok_0@.len() as int);
                }
            }
            list_answer(queried)
        },
    }
}

/// Marks the task stored under `id` as done. An unknown `id` is no error.
pub fn complete(id: &str, conn: &Connection) -> Result<(), rusqlite::Error> {
    let request = complete_request(id);
    settle((), execute(conn, request.statement, &request.values))
}

/// Marks the task stored under `id` as not done. An unknown `id` is no
/// error.
pub fn undo(id: &str, conn: &Connection) -> Result<(), rusqlite::Error> {
    let request = undo_request(id);
    settle((), execute(conn, request.statement, &request.values))
}

/// Removes the task stored under `id`. An unknown `id` is no error.
pub fn delete(id: &str, conn: &Connection) -> Result<(), rusqlite::Error> {
    let request = delete_request(id);
    settle((), execute(conn, request.statement, &request.values))
}

} // verus!
