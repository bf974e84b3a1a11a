//! The embedded relational store. The verifier sees none of its contents:
//! what a query yields is for the store to say, and the code here is proved
//! for whatever it says.

use crate::change::optional_text;
use crate::error::SyncError;
use crate::statement::{
    row_models, statement_models, SqlModel, SqlStatement, SqlValue, StatementModel,
};
use vstd::prelude::*;

verus! {

/// `rusqlite::Connection`, opaque.
#[verifier::external_type_specification]
#[verifier::external_body]
pub struct ExConnection(rusqlite::Connection);

/// `rusqlite::Statement`, opaque.
#[verifier::external_type_specification]
#[verifier::external_body]
pub struct ExStatement<'conn>(rusqlite::Statement<'conn>);

/// `rusqlite::Rows`, opaque.
#[verifier::external_type_specification]
#[verifier::external_body]
pub struct ExRows<'stmt>(rusqlite::Rows<'stmt>);

/// `rusqlite::Row`, opaque.
#[verifier::external_type_specification]
#[verifier::external_body]
pub struct ExRow<'stmt>(rusqlite::Row<'stmt>);

/// `rusqlite::Error`, opaque.
#[verifier::external_type_specification]
#[verifier::external_body]
pub struct ExError(rusqlite::Error);

/// `rusqlite::types::Value`, opaque.
#[verifier::external_type_specification]
#[verifier::external_body]
pub struct ExValue(rusqlite::types::Value);

/// `Connection::prepare`: compiles a statement for this connection. The
/// contract claims nothing of the outcome.
#[verifier::external_body]
fn prepare<'a>(conn: &'a rusqlite::Connection, sql: &str) -> (r: Result<
    rusqlite::Statement<'a>,
    rusqlite::Error,
>) {
    conn.prepare(sql)
}

/// Builds the `rusqlite::types::Value` that is bound for a value of this
/// library: the variant `Null`, `Integer` or `Text` of the same name, with
/// the same number or a copy of the text. The contract claims nothing: the
/// outside value is opaque.
#[verifier::external_body]
fn bound_value(value: &SqlValue) -> (r: rusqlite::types::Value) {
    match value {
        SqlValue::Null => rusqlite::types::Value::Null,
        SqlValue::Integer(n) => rusqlite::types::Value::Integer(*n),
        SqlValue::Text(s) => rusqlite::types::Value::Text(s.clone()),
    }
}

/// `Statement::query` with positional parameters (`params_from_iter`): binds
/// the values to `?1`, `?2`, … and hands back the cursor over the rows. The
/// contract claims nothing of the outcome.
#[verifier::external_body]
fn query<'a, 'c>(stmt: &'a mut rusqlite::Statement<'c>, params: &Vec<rusqlite::types::Value>) -> (r:
    Result<rusqlite::Rows<'a>, rusqlite::Error>) {
    stmt.query(rusqlite::params_from_iter(params.iter()))
}

/// `Rows::next`: steps to the next row, `None` after the last. The contract
/// claims nothing of the outcome.
#[verifier::external_body]
fn next_row<'a, 's>(rows: &'a mut rusqlite::Rows<'s>) -> (r: Result<
    Option<&'a rusqlite::Row<'s>>,
    rusqlite::Error,
>) {
    rows.next()
}

/// `rusqlite::types::ValueRef`, opaque.
#[verifier::external_type_specification]
#[verifier::external_body]
pub struct ExValueRef<'a>(rusqlite::types::ValueRef<'a>);

/// `Row::get_ref`: the value of a column as SQLite holds it, or an error for
/// a column that does not exist. The contract claims nothing of the outcome.
/// The call panics only where SQLite breaks its own interface: a column of
/// no known kind, or a text or blob without data.
#[verifier::external_body]
fn get_ref<'a>(row: &'a rusqlite::Row<'_>, column: usize) -> (r: Result<
    rusqlite::types::ValueRef<'a>,
    rusqlite::Error,
>) {
    row.get_ref(column)
}

/// `ValueRef::as_str`: the value as text, where it is a text of valid UTF-8;
/// `None` for any other value. The contract claims nothing of the outcome.
#[verifier::external_body]
fn value_text(value: &rusqlite::types::ValueRef<'_>) -> (r: Option<String>) {
    match value.as_str() {
        Ok(text) => Some(text.to_owned()),
        Err(_) => None,
    }
}

/// `ValueRef::as_i64`: the value as a whole number, where it is one; `None`
/// for any other value. The contract claims nothing of the outcome.
#[verifier::external_body]
fn value_integer(value: &rusqlite::types::ValueRef<'_>) -> (r: Option<i64>) {
    match value.as_i64() {
        Ok(n) => Some(n),
        Err(_) => None,
    }
}

/// `Connection::execute` with positional parameters (`params_from_iter`):
/// runs one statement that yields no rows and returns how many rows it
/// changed. The contract claims nothing of the outcome.
#[verifier::external_body]
fn execute(conn: &rusqlite::Connection, sql: &str, params: &Vec<rusqlite::types::Value>) -> (r:
    Result<usize, rusqlite::Error>) {
    conn.execute(sql, rusqlite::params_from_iter(params.iter()))
}

/// The store's own words for an error: the `Display` text of
/// `rusqlite::Error`, by `to_string`. The contract claims nothing of the
/// text.
#[verifier::external_body]
fn error_text(error: &rusqlite::Error) -> (r: String) {
    error.to_string()
}

fn store_error(error: &rusqlite::Error) -> (r: SyncError)
    ensures
        r is Store,
{
    SyncError::Store(error_text(error))
}

fn bound_values(params: &Vec<SqlValue>) -> (r: Vec<rusqlite::types::Value>)
    ensures
        r@.len() == params@.len(),
{
    let mut out: Vec<rusqlite::types::Value> = Vec::new();
    let mut i: usize = 0;
    while i < params.len()
        invariant
            i <= params.len(),
            out@.len() == i,
        decreases params.len() - i,
    {
        out.push(bound_value(&params[i]));
        i += 1;
    }
    out
}

/// Reads one column of a row. The store is asked for the column's value and
/// that value for its text, and for its whole number where it has no text; a
/// column that does not exist counts as no answer. Which cell the answers
/// stand for is for `cell_from_answers` to say. Of the answers themselves
/// nothing is known beforehand.
fn read_cell(row: &rusqlite::Row<'_>, column: usize) -> (r: SqlValue) {
    match get_ref(row, column) {
        Ok(value) => {
            let text = value_text(&value);
            let integer = match text {
                Some(_) => None,
                None => value_integer(&value),
            };
            cell_from_answers(text, integer)
        },
        Err(_) => cell_from_answers(None, None),
    }
}

fn read_cells(row: &rusqlite::Row<'_>, columns: usize) -> (r: Vec<SqlValue>)
    ensures
        r@.len() == columns,
{
    let mut cells: Vec<SqlValue> = Vec::new();
    let mut i: usize = 0;
    while i < columns
        invariant
            i <= columns,
            cells@.len() == i,
        decreases columns - i,
    {
        cells.push(read_cell(row, i));
        i += 1;
    }
    cells
}

/// The cell that two answers of the store stand for: the text where there is
/// one, else the whole number where there is one, else nothing.
pub open spec fn answered_cell(text: Option<Seq<char>>, integer: Option<i64>) -> SqlModel {
    match text {
        Some(t) => SqlModel::Text(t),
        None => match integer {
            Some(n) => SqlModel::Integer(n),
            None => SqlModel::Null,
        },
    }
}

/// The cell that stands for what the store answered when it was asked for a
/// column as text and as a whole number.
pub fn cell_from_answers(text: Option<String>, integer: Option<i64>) -> (r: SqlValue)
    ensures
        r@ == answered_cell(optional_text(text), integer),
{
    match text {
        Some(t) => SqlValue::Text(t),
        None => match integer {
            Some(n) => SqlValue::Integer(n),
            None => SqlValue::Null,
        },
    }
}

/// One call to the store: a query, which reads, or an execution, which
/// writes.
pub enum Call {
    Query(StatementModel),
    Execute(StatementModel),
}

/// What the store answered to a call.
pub enum Answer {
    /// The rows that a query yielded, as far as they were read.
    Rows(Seq<Seq<SqlModel>>),
    /// The store accepted an execution.
    Accepted,
    /// The store refused the call.
    Refused,
}

/// One call to the store with the answer that came back.
pub struct Exchange {
    pub call: Call,
    pub answer: Answer,
}

/// The answer that the outcome of a query stands for.
pub open spec fn query_answer(outcome: Result<Vec<Vec<SqlValue>>, SyncError>) -> Answer {
    match outcome {
        Ok(rows) => Answer::Rows(row_models(rows@)),
        Err(_) => Answer::Refused,
    }
}

/// The answer that the outcome of an execution stands for.
pub open spec fn execute_answer(outcome: Result<usize, SyncError>) -> Answer {
    match outcome {
        Ok(_) => Answer::Accepted,
        Err(_) => Answer::Refused,
    }
}

/// Whether a record of exchanges only grew: what was recorded before still
/// stands at its head.
pub open spec fn grows(before: Seq<Exchange>, after: Seq<Exchange>) -> bool {
    before.len() <= after.len() && after.take(before.len() as int) == before
}

/// The exchanges that a record gained.
pub open spec fn added(before: Seq<Exchange>, after: Seq<Exchange>) -> Seq<Exchange> {
    after.skip(before.len() as int)
}

/// Whether a record gained exactly one exchange, with the given call.
pub open spec fn asked_once(before: Seq<Exchange>, after: Seq<Exchange>, call: Call) -> bool {
    after.len() == before.len() + 1 && after.drop_last() == before && after.last().call == call
}

/// Whether exchanges are those of running a list of statements in order
/// until the store refuses one, with the given outcome: every statement
/// before the last one run was accepted; the run succeeds where all were run
/// and accepted, and fails with the store's error where the last one run was
/// refused.
pub open spec fn run_fits(
    run: Seq<Exchange>,
    statements: Seq<StatementModel>,
    outcome: Result<(), SyncError>,
) -> bool {
    &&& run.len() <= statements.len()
    &&& forall|i: int| 0 <= i < run.len() ==> (#[trigger] run[i]).call == Call::Execute(statements[i])
    &&& forall|i: int| 0 <= i < run.len() - 1 ==> (#[trigger] run[i]).answer is Accepted
    &&& match outcome {
        Ok(_) => run.len() == statements.len() && (run.len() > 0 ==> run.last().answer is Accepted),
        Err(e) => e is Store && run.len() > 0 && run.last().answer is Refused,
    }
}

fn run_query(
    conn: &rusqlite::Connection,
    statement: &SqlStatement,
    columns: usize,
    max_rows: usize,
) -> (r: Result<Vec<Vec<SqlValue>>, SyncError>)
    ensures
        r is Ok ==> (r->Ok_0)@.len() <= max_rows,
        r is Ok ==> forall|i: int|
            0 <= i < (r->Ok_0)@.len() ==> (#[trigger] (r->Ok_0)@[i])@.len() == columns,
        r is Err ==> r->Err_0 is Store,
{
    let mut prepared = match prepare(conn, statement.sql.as_str()) {
        Ok(p) => p,
        Err(e) => {
            return Err(store_error(&e));
        },
    };
    let params = bound_values(&statement.params);
    let mut rows = match query(&mut prepared, &params) {
        Ok(r) => r,
        Err(e) => {
            return Err(store_error(&e));
        },
    };
    let mut out: Vec<Vec<SqlValue>> = Vec::new();
    while out.len() < max_rows
        invariant
            out@.len() <= max_rows,
            forall|i: int| 0 <= i < out@.len() ==> (#[trigger] out@[i])@.len() == columns,
        decreases max_rows - out.len(),
    {
        match next_row(&mut rows) {
            Err(e) => {
                return Err(store_error(&e));
            },
            Ok(None) => {
                break ;
            },
            Ok(Some(row)) => {
                out.push(read_cells(row, columns));
            },
        }
    }
    Ok(out)
}

/// A connection to the store, with a record of what this library has asked
/// of it and of what the store answered.
pub struct Store {
    conn: rusqlite::Connection,
    log: Ghost<Seq<Exchange>>,
}

impl Store {
    /// The calls made to the store, oldest first, each with the answer that
    /// came back.
    pub closed spec fn log(&self) -> Seq<Exchange> {
        self.log@
    }

    /// The connection that the store was made from, and through which it
    /// makes every call.
    pub closed spec fn link(&self) -> rusqlite::Connection {
        self.conn
    }

    /// Wraps an open connection. Nothing has been asked through it yet.
    pub fn new(conn: rusqlite::Connection) -> (r: Store)
        ensures
            r.log() == Seq::<Exchange>::empty(),
            r.link() == conn,
    {
        Store { conn, log: Ghost(Seq::empty()) }
    }

    /// The connection that the store was made from.
    pub fn connection(&self) -> (r: &rusqlite::Connection)
        ensures
            *r == self.link(),
    {
        &self.conn
    }

    /// Runs a query and reads up to `max_rows` rows of `columns` columns
    /// each. The call and what came back are recorded.
    pub fn query_rows(&mut self, statement: &SqlStatement, columns: usize, max_rows: usize) -> (r:
        Result<Vec<Vec<SqlValue>>, SyncError>)
        ensures
            final(self).log() == old(self).log().push(
                (Exchange { call: Call::Query(statement@), answer: query_answer(r) }),
            ),
            final(self).link() == old(self).link(),
            r is Ok ==> (r->Ok_0)@.len() <= max_rows,
            r is Ok ==> forall|i: int|
                0 <= i < (r->Ok_0)@.len() ==> (#[trigger] (r->Ok_0)@[i])@.len() == columns,
            r is Err ==> r->Err_0 is Store,
    {
        let outcome = run_query(&self.conn, statement, columns, max_rows);
        proof {
            self.log = Ghost(
                self.log@.push(
                    Exchange { call: Call::Query(statement@), answer: query_answer(outcome) },
                ),
            );
        }
        outcome
    }

    /// Hands a statement to the store for execution and returns how many rows
    /// it changed. The call is recorded, and whether the store accepted it.
    pub fn execute(&mut self, statement: &SqlStatement) -> (r: Result<usize, SyncError>)
        ensures
            final(self).log() == old(self).log().push(
                (Exchange { call: Call::Execute(statement@), answer: execute_answer(r) }),
            ),
            final(self).link() == old(self).link(),
            r is Err ==> r->Err_0 is Store,
    {
        let params = bound_values(&statement.params);
        let outcome = match execute(&self.conn, statement.sql.as_str(), &params) {
            Ok(n) => Ok(n),
            Err(e) => Err(store_error(&e)),
        };
        proof {
            self.log = Ghost(
                self.log@.push(
                    Exchange { call: Call::Execute(statement@), answer: execute_answer(outcome) },
                ),
            );
        }
        outcome
    }

    /// Hands statements to the store for execution, one after the other, and
    /// stops at the first that the store refuses.
    pub fn execute_all(&mut self, statements: &Vec<SqlStatement>) -> (r: Result<(), SyncError>)
        ensures
            grows(old(self).log(), final(self).log()),
            run_fits(added(old(self).log(), final(self).log()), statement_models(statements@), r),
            final(self).link() == old(self).link(),
    {
        let mut i: usize = 0;
        proof {
            assert(self.log().take(self.log().len() as int) =~= self.log());
        }
        while i < statements.len()
            invariant
                i <= statements.len(),
                self.link() == old(self).link(),
                grows(old(self).log(), self.log()),
                added(old(self).log(), self.log()).len() == i,
                forall|j: int|
                    0 <= j < i ==> (#[trigger] added(old(self).log(), self.log())[j]).call
                        == Call::Execute(statement_models(statements@)[j]),
                forall|j: int|
                    0 <= j < i ==> (#[trigger] added(old(self).log(), self.log())[j]).answer
                        is Accepted,
            decreases statements.len() - i,
        {
            let ghost before = self.log();
            let outcome = self.execute(&statements[i]);
            proof {
                let now = self.log();
                assert(now.take(old(self).log().len() as int) =~= before.take(
                    old(self).log().len() as int,
                ));
                assert forall|j: int| 0 <= j < i implies added(old(self).log(), now)[j] == added(
                    old(self).log(),
                    before,
                )[j] by {}
                assert(added(old(self).log(), now)[i as int] == now.last());
            }
            match outcome {
                Ok(_) => {},
                Err(e) => {
                    return Err(e);
                },
            }
            i += 1;
        }
        Ok(())
    }
}

} // verus!
