//! A table of the store as mathematics: what the statements of this library
//! mean for the records of a table, as far as the laws of replication speak
//! of them. The store itself is not read here; the model says what a write
//! and a page are taken to be.

use crate::applier::{apply_model, change_key, tombstone_value, upsert_value, write_columns};
use crate::change::{ChangeModel, SyncOp};
use crate::loader::first_index;
use crate::protocol::next_version_model;
use crate::registry::{deleted_at_column, updated_at_column, version_column, Schema};
use crate::statement::{SqlModel, StatementModel};
use vstd::prelude::*;

verus! {

/// One record: the value of each replicated column, by the column's name.
pub type Record = Map<Seq<char>, SqlModel>;

/// One table: its records, by the text of their key.
pub type Table = Map<Seq<char>, Record>;

/// What a record holds in a column; nothing where it has no such column.
pub open spec fn cell_of(record: Record, column: Seq<char>) -> SqlModel {
    if record.contains_key(column) {
        record[column]
    } else {
        SqlModel::Null
    }
}

/// The record that a write leaves under its key: the named columns, each
/// with the value bound for it.
pub open spec fn written_record(columns: Seq<Seq<char>>, params: Seq<SqlModel>) -> Record {
    Map::new(|c: Seq<char>| columns.contains(c), |c: Seq<char>| params[first_index(columns, c)])
}

/// What the lookup of a record's last write yields: one row with the
/// record's `updated_at` where the record exists, no row where it does not.
pub open spec fn lookup_rows(table: Table, key: Seq<char>) -> Seq<Seq<SqlModel>> {
    if table.contains_key(key) {
        seq![seq![cell_of(table[key], updated_at_column())]]
    } else {
        Seq::empty()
    }
}

/// A table after a change was applied to it under a new version, and whether
/// the change was written. A change that is written replaces the record under
/// its key; any other leaves the table as it is.
pub open spec fn applied(
    schema: Schema,
    table: Table,
    change: ChangeModel,
    version: i64,
    now: Seq<char>,
) -> (Table, bool) {
    match change_key(schema, change) {
        None => (table, false),
        Some(key) => match apply_model(schema, change, lookup_rows(table, key), version, now) {
            Ok(Some(statement)) => (
                table.insert(key, written_record(write_columns(schema), statement.params)),
                true,
            ),
            _ => (table, false),
        },
    }
}

/// What a write puts into a column.
pub open spec fn write_value(
    schema: Schema,
    change: ChangeModel,
    key: Seq<char>,
    version: i64,
    now: Seq<char>,
    column: Seq<char>,
) -> SqlModel {
    match change.op {
        SyncOp::Delete => tombstone_value(
            schema,
            column,
            key,
            version,
            change.updated_at,
            match change.deleted_at {
                Some(t) => t,
                None => now,
            },
        ),
        SyncOp::Upsert => upsert_value(schema, column, change, key, version)->0,
    }
}

/// Whether a record waits for its first version: it is live and its version
/// is zero or less.
pub open spec fn is_legacy(record: Record) -> bool {
    &&& cell_of(record, version_column()) is Integer
    &&& cell_of(record, version_column())->Integer_0 <= 0
    &&& cell_of(record, deleted_at_column()) is Null
}

/// A table after one statement of a backfill: the record under the key that
/// the statement binds last gets the version and the time that it binds
/// first. A key without a record changes nothing.
pub open spec fn stamped(table: Table, statement: StatementModel) -> Table {
    let key = statement.params[2]->Text_0;
    if table.contains_key(key) {
        table.insert(
            key,
            table[key].insert(version_column(), statement.params[0]).insert(
                updated_at_column(),
                statement.params[1],
            ),
        )
    } else {
        table
    }
}

/// A table after the statements of a backfill, one after the other.
pub open spec fn backfilled(table: Table, statements: Seq<StatementModel>) -> Table
    decreases statements.len(),
{
    if statements.len() == 0 {
        table
    } else {
        stamped(backfilled(table, statements.drop_last()), statements.last())
    }
}

/// The cells that a page's query yields for a record: one for each column of
/// the table, in the table's order.
pub open spec fn record_cells(schema: Schema, record: Record) -> Seq<SqlModel> {
    Seq::new(schema.columns.len(), |i: int| cell_of(record, schema.columns[i]))
}

/// Whether the versions of a list of changes ascend strictly.
pub open spec fn ascending(changes: Seq<ChangeModel>) -> bool {
    forall|i: int, j: int|
        0 <= i < j < changes.len() ==> (#[trigger] changes[i]).version < (
        #[trigger] changes[j]).version
}

/// Whether `page` is the page of `limit` changes after `since` of a table
/// whose changes are `log`: the page ascends, holds only changes of the table
/// above `since`, and leaves out none of them up to its last change, nor any
/// at all where it is not full.
pub open spec fn is_page(
    log: Seq<ChangeModel>,
    since: i64,
    limit: usize,
    page: Seq<ChangeModel>,
) -> bool {
    &&& page.len() <= limit
    &&& ascending(page)
    &&& forall|i: int|
        0 <= i < page.len() ==> log.contains(#[trigger] page[i]) && page[i].version > since
    &&& forall|j: int|
        0 <= j < log.len() && (#[trigger] log[j]).version > since && (page.len() < limit
            || log[j].version <= page.last().version) ==> page.contains(log[j])
}

/// Whether `pages` are the successive pages of one pull: the first starts
/// after `since`, and each further one at the continuation token of the page
/// before it.
pub open spec fn is_chain(
    log: Seq<ChangeModel>,
    since: i64,
    limit: usize,
    pages: Seq<Seq<ChangeModel>>,
) -> bool
    decreases pages.len(),
{
    if pages.len() == 0 {
        true
    } else {
        &&& is_page(log, since, limit, pages[0])
        &&& pages.len() > 1 ==> next_version_model(pages[0], limit) is Some && is_chain(
            log,
            next_version_model(pages[0], limit)->0,
            limit,
            pages.drop_first(),
        )
    }
}

/// The changes of successive pages, put together.
pub open spec fn concat(pages: Seq<Seq<ChangeModel>>) -> Seq<ChangeModel>
    decreases pages.len(),
{
    if pages.len() == 0 {
        Seq::empty()
    } else {
        pages[0] + concat(pages.drop_first())
    }
}

/// Whether a version is the continuation token of one of the pages before
/// the last.
pub open spec fn is_token(pages: Seq<Seq<ChangeModel>>, limit: usize, version: i64) -> bool
    decreases pages.len(),
{
    pages.len() > 1 && (next_version_model(pages[0], limit) == Some(version) || is_token(
        pages.drop_first(),
        limit,
        version,
    ))
}

/// Whether the last of the pages reaches a version: it is not full, or it
/// ends at that version or above.
pub open spec fn is_reached(pages: Seq<Seq<ChangeModel>>, limit: usize, version: i64) -> bool {
    pages.len() > 0 && (pages.last().len() < limit || version <= pages.last().last().version)
}

/// Whether the changes of a table are of different records: a table holds
/// one row for each key, so no two of its changes carry the same value under
/// the key column.
pub open spec fn has_one_row_per_key(log: Seq<ChangeModel>, key: Seq<char>) -> bool {
    forall|i: int, j: int|
        0 <= i < j < log.len() ==> (#[trigger] log[i]).data[key] != (#[trigger] log[j]).data[key]
}

} // verus!
