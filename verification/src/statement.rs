//! Statements for the store: SQL text with the values bound to it.

use vstd::prelude::*;

verus! {

/// A value bound to a statement, or held by a column of a row.
#[derive(Clone, Debug, PartialEq, Eq)]
pub enum SqlValue {
    /// SQL `NULL`.
    Null,
    /// A whole number.
    Integer(i64),
    /// A text.
    Text(String),
}

/// A store value as mathematics.
pub enum SqlModel {
    Null,
    Integer(i64),
    Text(Seq<char>),
}

impl View for SqlValue {
    type V = SqlModel;

    open spec fn view(&self) -> SqlModel {
        match self {
            SqlValue::Null => SqlModel::Null,
            SqlValue::Integer(n) => SqlModel::Integer(*n),
            SqlValue::Text(s) => SqlModel::Text(s@),
        }
    }
}

/// The values of a list as mathematics.
pub open spec fn sql_models(values: Seq<SqlValue>) -> Seq<SqlModel> {
    Seq::new(values.len(), |i: int| values[i]@)
}

/// The rows of a result as mathematics.
pub open spec fn row_models(rows: Seq<Vec<SqlValue>>) -> Seq<Seq<SqlModel>> {
    Seq::new(rows.len(), |i: int| sql_models(rows[i]@))
}

/// One statement: its SQL text and the values for `?1`, `?2`, … in order.
#[derive(Clone, Debug, PartialEq, Eq)]
pub struct SqlStatement {
    pub sql: String,
    pub params: Vec<SqlValue>,
}

/// A statement as mathematics.
pub struct StatementModel {
    pub sql: Seq<char>,
    pub params: Seq<SqlModel>,
}

impl View for SqlStatement {
    type V = StatementModel;

    open spec fn view(&self) -> StatementModel {
        StatementModel { sql: self.sql@, params: sql_models(self.params@) }
    }
}

/// The statements of a list as mathematics.
pub open spec fn statement_models(statements: Seq<SqlStatement>) -> Seq<StatementModel> {
    Seq::new(statements.len(), |i: int| statements[i]@)
}

} // verus!
