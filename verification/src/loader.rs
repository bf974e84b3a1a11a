//! The change loader: the store's highest version, the backfill of records
//! that were never given a version, and the pages of changes that a peer
//! pulls.

use crate::applier::column_names;
use crate::change::{
    change_models, optional_text, ChangeModel, FieldModel, FieldValue, Payload, SyncChange, SyncOp,
};
use crate::clock::now_iso;
use crate::error::SyncError;
use crate::registry::{
    created_at_column, deleted_at_column, get_table_config, is_sync_table, schema_of, sync_tables,
    table_names, updated_at_column, version_column, Schema, TableConfig,
};
use crate::statement::{
    row_models, sql_models, statement_models, SqlModel, SqlStatement, SqlValue, StatementModel,
};
use crate::store::{added, asked_once, grows, query_answer, run_fits, Answer, Call, Exchange, Store};
use crate::version::later;
use crate::text::{join, joined, owned_texts, same_text, texts};
use vstd::prelude::*;

verus! {

/// The most rows that one page holds, whatever the caller asks for.
pub const MAX_PAGE: usize = 1000;

/// The place of the first occurrence of a name in a list, or the list's
/// length where it does not occur.
pub open spec fn first_index(names: Seq<Seq<char>>, name: Seq<char>) -> int
    decreases names.len(),
{
    if names.len() == 0 {
        0
    } else if names[0] == name {
        0
    } else {
        1 + first_index(names.drop_first(), name)
    }
}

/// The first occurrence of a name is a place in the list exactly if the list
/// holds the name, and the name stands at that place.
pub proof fn lemma_first_index(names: Seq<Seq<char>>, name: Seq<char>)
    ensures
        0 <= first_index(names, name) <= names.len(),
        first_index(names, name) < names.len() <==> names.contains(name),
        first_index(names, name) < names.len() ==> names[first_index(names, name)] == name,
    decreases names.len(),
{
    if names.len() > 0 && names[0] != name {
        let rest = names.drop_first();
        lemma_first_index(rest, name);
        if rest.contains(name) {
            let j = choose|j: int| 0 <= j < rest.len() && rest[j] == name;
            assert(names[j + 1] == name);
        }
        if names.contains(name) {
            let j = choose|j: int| 0 <= j < names.len() && names[j] == name;
            assert(rest[j - 1] == name);
        }
    } else if names.len() > 0 {
        assert(names[0] == name);
    }
}

/// The cell at a place of a row; a row that ends before the place holds
/// nothing there.
pub open spec fn cell_at(cells: Seq<SqlModel>, i: int) -> SqlModel {
    if 0 <= i < cells.len() {
        cells[i]
    } else {
        SqlModel::Null
    }
}

/// The payload value that stands for a cell.
pub open spec fn field_of_cell(cell: SqlModel) -> FieldModel {
    match cell {
        SqlModel::Null => FieldModel::Null,
        SqlModel::Integer(n) => FieldModel::Integer(n),
        SqlModel::Text(s) => FieldModel::Text(s),
    }
}

/// What a change's payload holds for a column of its row.
pub open spec fn payload_value(
    column: Seq<char>,
    cell: SqlModel,
    version: i64,
    updated_at: Seq<char>,
    deleted_at: Option<Seq<char>>,
) -> FieldModel {
    if column == version_column() {
        FieldModel::Integer(version)
    } else if column == updated_at_column() {
        FieldModel::Text(updated_at)
    } else if column == deleted_at_column() {
        match deleted_at {
            Some(t) => FieldModel::Text(t),
            None => FieldModel::Null,
        }
    } else {
        field_of_cell(cell)
    }
}

/// The payload built from the first `n` columns of a row: every column but
/// `created_at`, each under its name.
pub open spec fn row_payload(
    schema: Schema,
    cells: Seq<SqlModel>,
    n: nat,
    version: i64,
    updated_at: Seq<char>,
    deleted_at: Option<Seq<char>>,
) -> Map<Seq<char>, FieldModel>
    decreases n,
{
    if n == 0 {
        Map::empty()
    } else {
        let before = row_payload(schema, cells, (n - 1) as nat, version, updated_at, deleted_at);
        let column = schema.columns[n - 1];
        if column == created_at_column() {
            before
        } else {
            before.insert(
                column,
                payload_value(column, cell_at(cells, n - 1), version, updated_at, deleted_at),
            )
        }
    }
}

/// Whether a payload names its record: it holds a value under the key column
/// that is neither null nor an empty text.
pub open spec fn names_a_record(data: Map<Seq<char>, FieldModel>, key: Seq<char>) -> bool {
    &&& data.contains_key(key)
    &&& !(data[key] is Null)
    &&& !(data[key] is Text && data[key]->Text_0.len() == 0)
}

/// The change that a row of a table stands for: a tombstone where the row has
/// a deletion time, an upsert otherwise. `Ok(None)` for a row that names no
/// record, which is never replicated; an error for a row without a version. A
/// row without a time of its last write is stamped with `now`.
pub open spec fn row_change(
    schema: Schema,
    table: Seq<char>,
    cells: Seq<SqlModel>,
    now: Seq<char>,
) -> Result<Option<ChangeModel>, SyncError> {
    let at = first_index(schema.columns, version_column());
    match cell_at(cells, at) {
        SqlModel::Integer(version) => {
            let updated_at = match cell_at(
                cells,
                first_index(schema.columns, updated_at_column()),
            ) {
                SqlModel::Text(t) => t,
                _ => now,
            };
            let deleted_at = match cell_at(
                cells,
                first_index(schema.columns, deleted_at_column()),
            ) {
                SqlModel::Text(t) => Some(t),
                _ => None,
            };
            let data = row_payload(
                schema,
                cells,
                schema.columns.len(),
                version,
                updated_at,
                deleted_at,
            );
            if names_a_record(data, schema.key) {
                Ok(
                    Some(
                        ChangeModel {
                            table,
                            op: if deleted_at is Some {
                                SyncOp::Delete
                            } else {
                                SyncOp::Upsert
                            },
                            data,
                            version,
                            updated_at,
                            deleted_at,
                        },
                    ),
                )
            } else {
                Ok(None)
            }
        },
        _ => Err(SyncError::InvalidColumnType(at as usize)),
    }
}

/// Whether every row of a result stands for a change or for none.
pub open spec fn rows_are_readable(
    schema: Schema,
    table: Seq<char>,
    rows: Seq<Seq<SqlModel>>,
    now: Seq<char>,
) -> bool {
    forall|i: int| 0 <= i < rows.len() ==> (#[trigger] row_change(schema, table, rows[i], now)) is Ok
}

/// The changes that the rows of a result stand for, in the rows' order.
pub open spec fn changes_of_rows(
    schema: Schema,
    table: Seq<char>,
    rows: Seq<Seq<SqlModel>>,
    now: Seq<char>,
) -> Seq<ChangeModel>
    decreases rows.len(),
{
    if rows.len() == 0 {
        Seq::empty()
    } else {
        let before = changes_of_rows(schema, table, rows.drop_last(), now);
        match row_change(schema, table, rows.last(), now) {
            Ok(Some(change)) => before.push(change),
            _ => before,
        }
    }
}

/// The text of the query for a table's highest version.
pub open spec fn max_version_sql(table: Seq<char>) -> Seq<char> {
    "SELECT MAX(version) FROM "@ + table + " WHERE version > 0"@
}

/// The query for a table's highest version.
pub open spec fn max_version_model(table: Seq<char>) -> StatementModel {
    StatementModel { sql: max_version_sql(table), params: Seq::empty() }
}

/// Whether exchanges are one round of asking every replicated table for its
/// highest version, in the registry's order.
pub open spec fn is_version_round(round: Seq<Exchange>) -> bool {
    &&& round.len() == table_names().len()
    &&& forall|i: int|
        0 <= i < round.len() ==> (#[trigger] round[i]).call == Call::Query(
            max_version_model(table_names()[i]),
        )
}

/// The version that the store's answer to the query for a table's highest
/// version stands for: what the first row holds, and zero where the store
/// refused the query.
pub open spec fn answered_version(answer: Answer) -> i64 {
    match answer {
        Answer::Rows(rows) => first_version(rows),
        _ => 0,
    }
}

/// The versions that the answers of a list of exchanges stand for.
pub open spec fn versions_answered(round: Seq<Exchange>) -> Seq<i64> {
    Seq::new(round.len(), |i: int| answered_version(round[i].answer))
}

/// The highest of a list of versions, and zero where none is above zero.
pub open spec fn highest(versions: Seq<i64>) -> i64
    decreases versions.len(),
{
    if versions.len() == 0 {
        0
    } else {
        later(highest(versions.drop_last()), versions.last())
    }
}

/// The highest of a list of versions is none of them or one of them, is at
/// least each of them, and is not negative.
pub proof fn lemma_highest(versions: Seq<i64>)
    ensures
        highest(versions) >= 0,
        forall|i: int| 0 <= i < versions.len() ==> highest(versions) >= #[trigger] versions[i],
        highest(versions) == 0 || versions.contains(highest(versions)),
    decreases versions.len(),
{
    if versions.len() > 0 {
        let head = versions.drop_last();
        lemma_highest(head);
        assert forall|i: int| 0 <= i < versions.len() implies highest(versions)
            >= #[trigger] versions[i] by {
            if i < head.len() {
                assert(head[i] == versions[i]);
            }
        }
        if highest(versions) != 0 {
            if highest(versions) == versions.last() {
                assert(versions[versions.len() - 1] == highest(versions));
            } else {
                let j = choose|j: int| 0 <= j < head.len() && head[j] == highest(head);
                assert(versions[j] == highest(versions));
            }
        }
    }
}

/// The version that the first row of a result holds in its first column, or
/// zero where there is none.
pub open spec fn first_version(rows: Seq<Seq<SqlModel>>) -> i64 {
    if rows.len() > 0 && rows[0].len() > 0 && rows[0][0] is Integer {
        rows[0][0]->Integer_0
    } else {
        0
    }
}

/// The condition that picks the records which were never given a version.
/// The workflows that the application itself ships are left out.
pub open spec fn legacy_condition(table: Seq<char>) -> Seq<char> {
    if table == "workflows"@ {
        "version <= 0 AND deleted_at IS NULL AND (type IS NULL OR type = 'user' OR type NOT LIKE 'system:%')"@
    } else {
        "version <= 0 AND deleted_at IS NULL"@
    }
}

/// The text of the query for the keys of the records that were never given a
/// version, oldest first.
pub open spec fn legacy_keys_sql(schema: Schema, table: Seq<char>) -> Seq<char> {
    "SELECT "@ + schema.key + " FROM "@ + table + " WHERE "@ + legacy_condition(table)
        + " ORDER BY created_at ASC"@
}

/// The query for the keys of the records that were never given a version.
pub open spec fn legacy_keys_model(schema: Schema, table: Seq<char>) -> StatementModel {
    StatementModel { sql: legacy_keys_sql(schema, table), params: Seq::empty() }
}

/// The statement that gives one record a version and the time of that write.
pub open spec fn backfill_model(
    schema: Schema,
    table: Seq<char>,
    version: i64,
    now: Seq<char>,
    key: Seq<char>,
) -> StatementModel {
    StatementModel {
        sql: "UPDATE "@ + table + " SET version = ?1, updated_at = ?2 WHERE "@ + schema.key
            + " = ?3"@,
        params: seq![SqlModel::Integer(version), SqlModel::Text(now), SqlModel::Text(key)],
    }
}

/// The statements of a backfill: the records, each with its key and the time
/// it is stamped with, get the versions that follow `base`, one after the
/// other.
pub open spec fn backfill_models(
    schema: Schema,
    table: Seq<char>,
    base: i64,
    records: Seq<(Seq<char>, Seq<char>)>,
) -> Seq<StatementModel> {
    Seq::new(
        records.len(),
        |i: int| backfill_model(schema, table, (base + 1 + i) as i64, records[i].1, records[i].0),
    )
}

/// The records of a backfill that stamps every key with one time.
pub open spec fn stamped_keys(keys: Seq<Seq<char>>, now: Seq<char>) -> Seq<(Seq<char>, Seq<char>)> {
    Seq::new(keys.len(), |i: int| (keys[i], now))
}

/// The statements that a backfill owes for the keys that the store yielded:
/// one for each key, in the keys' order, under the versions that follow
/// `base`. An overflow where the versions do not reach for all of them;
/// nothing is written then.
pub open spec fn backfill_plan_model(
    schema: Schema,
    table: Seq<char>,
    base: i64,
    keys: Seq<Seq<char>>,
    now: Seq<char>,
) -> Result<Seq<StatementModel>, SyncError> {
    if base + keys.len() > i64::MAX {
        Err(SyncError::VersionOverflow)
    } else {
        Ok(backfill_models(schema, table, base, stamped_keys(keys, now)))
    }
}

/// Whether exchanges and an outcome are those of carrying out a plan: a plan
/// that is an error is the outcome, with no call; the statements of any other
/// plan are run in order until the store refuses one.
pub open spec fn plan_fits(
    run: Seq<Exchange>,
    plan: Result<Seq<StatementModel>, SyncError>,
    outcome: Result<(), SyncError>,
) -> bool {
    match plan {
        Err(e) => run.len() == 0 && outcome == Err::<(), SyncError>(e),
        Ok(statements) => run_fits(run, statements, outcome),
    }
}

/// Whether exchanges and an outcome are those of carrying out the plan of a
/// backfill for the keys that the rows hold, above `base`, stamped with some
/// time of the clock.
pub open spec fn is_backfilled_over(
    run: Seq<Exchange>,
    schema: Schema,
    table: Seq<char>,
    base: i64,
    rows: Seq<Seq<SqlModel>>,
    outcome: Result<(), SyncError>,
) -> bool {
    exists|now: Seq<char>|
        plan_fits(
            run,
            #[trigger] backfill_plan_model(schema, table, base, keys_of_rows(rows), now),
            outcome,
        )
}

/// Whether the exchanges with the store during a backfill, and its outcome,
/// fit together. The store is asked for the highest version of every
/// replicated table, then for the keys of the records that wait for a
/// version. Where it refuses that query, its error is the outcome. Where it
/// answers, the plan is that of `backfill_plan_model` for the keys it yielded,
/// above the highest of the versions it answered, for some time of the
/// clock; and the plan is carried out as `plan_fits` says.
pub open spec fn backfill_fits(
    run: Seq<Exchange>,
    schema: Schema,
    table: Seq<char>,
    outcome: Result<(), SyncError>,
) -> bool {
    let n = table_names().len() as int;
    &&& run.len() >= n + 1
    &&& is_version_round(run.take(n))
    &&& run[n].call == Call::Query(legacy_keys_model(schema, table))
    &&& match run[n].answer {
        Answer::Rows(rows) => is_backfilled_over(
            run.skip(n + 1),
            schema,
            table,
            highest(versions_answered(run.take(n))),
            rows,
            outcome,
        ),
        _ => run.len() == n + 1 && outcome is Err && outcome->Err_0 is Store,
    }
}

/// The keys that a result of one column holds, in the rows' order. A row
/// without a key, which holds no text there or an empty one, is left out: it
/// is given no version, and it is never replicated.
pub open spec fn keys_of_rows(rows: Seq<Seq<SqlModel>>) -> Seq<Seq<char>>
    decreases rows.len(),
{
    if rows.len() == 0 {
        Seq::empty()
    } else {
        let before = keys_of_rows(rows.drop_last());
        match cell_at(rows.last(), 0) {
            SqlModel::Text(key) => if key.len() > 0 {
                before.push(key)
            } else {
                before
            },
            _ => before,
        }
    }
}

/// The text of the query for one page of a table's changes.
pub open spec fn page_sql(schema: Schema) -> Seq<char> {
    "SELECT "@ + joined(schema.columns, ", "@) + " FROM "@ + schema.table
        + " WHERE version > ?1 ORDER BY version ASC LIMIT ?2"@
}

/// The size of a page: what the caller asks for, and no more than the cap.
pub open spec fn page_size(limit: usize) -> usize {
    if limit <= MAX_PAGE {
        limit
    } else {
        MAX_PAGE
    }
}

/// The query for the page of changes after a version.
pub open spec fn page_model(schema: Schema, since_version: i64, limit: usize) -> StatementModel {
    StatementModel {
        sql: page_sql(schema),
        params: seq![
            SqlModel::Integer(since_version),
            SqlModel::Integer(page_size(limit) as i64),
        ],
    }
}

/// Whether the outcome of reading a page is what the rows stand for, read at
/// the given time: the changes of the rows where every row is readable, and
/// an error of the column kind where one is not.
pub open spec fn rows_fit(
    schema: Schema,
    table: Seq<char>,
    rows: Seq<Seq<SqlModel>>,
    now: Seq<char>,
    outcome: Result<Vec<SyncChange>, SyncError>,
) -> bool {
    if rows_are_readable(schema, table, rows, now) {
        outcome is Ok && change_models((outcome->Ok_0)@) == changes_of_rows(schema, table, rows, now)
    } else {
        outcome is Err && outcome->Err_0 is InvalidColumnType
    }
}

/// Whether the outcome of reading a page is what the rows stand for, for
/// some time of the clock.
pub open spec fn is_page_of(
    schema: Schema,
    table: Seq<char>,
    rows: Seq<Seq<SqlModel>>,
    outcome: Result<Vec<SyncChange>, SyncError>,
) -> bool {
    exists|now: Seq<char>| #[trigger] rows_fit(schema, table, rows, now, outcome)
}

/// Whether the outcome of loading a page fits the store's answer to the
/// page's query: the store's error where it refused; else what the rows it
/// yielded stand for, for some time of the clock. No more rows are read than
/// the page may hold.
pub open spec fn page_fits(
    answer: Answer,
    schema: Schema,
    table: Seq<char>,
    limit: usize,
    outcome: Result<Vec<SyncChange>, SyncError>,
) -> bool {
    match answer {
        Answer::Rows(rows) => rows.len() <= page_size(limit) && is_page_of(
            schema,
            table,
            rows,
            outcome,
        ),
        _ => outcome is Err && outcome->Err_0 is Store,
    }
}

/// Whether the exchanges with the store while a page was loaded, and the
/// outcome, fit together. A table that is not replicated has no changes, and
/// the store is not asked for any. For a replicated table a backfill comes
/// first; where it fails, its error is the outcome. Then the store is asked
/// for the page, and the outcome is what `page_fits` says of its answer.
pub open spec fn load_fits(
    run: Seq<Exchange>,
    table: Seq<char>,
    since_version: i64,
    limit: usize,
    outcome: Result<Vec<SyncChange>, SyncError>,
) -> bool {
    if !is_sync_table(table) {
        run.len() == 0 && outcome is Ok && (outcome->Ok_0)@.len() == 0
    } else {
        exists|k: int, back: Result<(), SyncError>|
            0 <= k <= run.len() && #[trigger] backfill_fits(
                run.take(k),
                schema_of(table),
                table,
                back,
            ) && match back {
                Err(e) => k == run.len() && outcome == Err::<Vec<SyncChange>, SyncError>(e),
                Ok(_) => {
                    &&& run.len() == k + 1
                    &&& run[k].call == Call::Query(
                        page_model(schema_of(table), since_version, limit),
                    )
                    &&& page_fits(run[k].answer, schema_of(table), table, limit, outcome)
                },
            }
    }
}

/// The place of the first occurrence of a name in a list, or the list's
/// length where it does not occur.
pub fn position(names: &[&str], name: &str) -> (r: usize)
    ensures
        r == first_index(texts(names@), name@),
{
    let mut i: usize = 0;
    proof {
        assert(texts(names@).skip(0) =~= texts(names@));
    }
    while i < names.len()
        invariant
            i <= names.len(),
            first_index(texts(names@), name@) == i + first_index(
                texts(names@).skip(i as int),
                name@,
            ),
        decreases names.len() - i,
    {
        proof {
            assert(texts(names@).skip(i as int).drop_first() =~= texts(names@).skip(i + 1));
            assert(texts(names@).skip(i as int)[0] == names@[i as int]@);
        }
        if same_text(names[i], name) {
            return i;
        }
        i += 1;
    }
    i
}

fn copy_value(value: &SqlValue) -> (r: SqlValue)
    ensures
        r@ == value@,
{
    match value {
        SqlValue::Null => SqlValue::Null,
        SqlValue::Integer(n) => SqlValue::Integer(*n),
        SqlValue::Text(s) => SqlValue::Text(s.clone()),
    }
}

fn cell(row: &Vec<SqlValue>, i: usize) -> (r: SqlValue)
    ensures
        r@ == cell_at(sql_models(row@), i as int),
{
    if i < row.len() {
        copy_value(&row[i])
    } else {
        SqlValue::Null
    }
}

fn field_of(cell: SqlValue) -> (r: FieldValue)
    ensures
        r@ == field_of_cell(cell@),
{
    match cell {
        SqlValue::Null => FieldValue::Null,
        SqlValue::Integer(n) => FieldValue::Integer(n),
        SqlValue::Text(s) => FieldValue::Text(s),
    }
}

/// Whether a payload names its record.
pub fn payload_names_record(data: &Payload, key: &str) -> (r: bool)
    ensures
        r == names_a_record(data@, key@),
{
    match data.get(key) {
        None => false,
        Some(FieldValue::Null) => false,
        Some(FieldValue::Text(t)) => !t.as_str().is_empty(),
        Some(_) => true,
    }
}

/// The change that a row of a table stands for, if it stands for one.
pub fn change_from_row(config: &TableConfig, table_name: &str, row: &Vec<SqlValue>, now: &str) -> (r:
    Result<Option<SyncChange>, SyncError>)
    ensures
        match row_change(config@, table_name@, sql_models(row@), now@) {
            Ok(Some(change)) => r is Ok && r->Ok_0 is Some && (r->Ok_0->0)@ == change,
            Ok(None) => r is Ok && r->Ok_0 is None,
            Err(e) => r == Err::<Option<SyncChange>, SyncError>(e),
        },
{
    let version_at = position(config.fields, "version");
    let version = match cell(row, version_at) {
        SqlValue::Integer(v) => v,
        _ => {
            return Err(SyncError::InvalidColumnType(version_at));
        },
    };
    let updated_at = match cell(row, position(config.fields, "updated_at")) {
        SqlValue::Text(t) => t,
        _ => now.to_owned(),
    };
    let deleted_at = match cell(row, position(config.fields, "deleted_at")) {
        SqlValue::Text(t) => Some(t),
        _ => None,
    };
    let mut data = Payload::new();
    let mut i: usize = 0;
    while i < config.fields.len()
        invariant
            i <= config.fields.len(),
            data@ == row_payload(
                config@,
                sql_models(row@),
                i as nat,
                version,
                updated_at@,
                optional_text(deleted_at),
            ),
        decreases config.fields.len() - i,
    {
        let column = config.fields[i];
        if !same_text(column, "created_at") {
            let value = if same_text(column, "version") {
                FieldValue::Integer(version)
            } else if same_text(column, "updated_at") {
                FieldValue::Text(updated_at.clone())
            } else if same_text(column, "deleted_at") {
                match &deleted_at {
                    Some(t) => FieldValue::Text(t.clone()),
                    None => FieldValue::Null,
                }
            } else {
                field_of(cell(row, i))
            };
            data.insert(column.to_owned(), value);
        }
        i += 1;
    }
    if !payload_names_record(&data, config.primary_key) {
        return Ok(None);
    }
    let op = if deleted_at.is_some() {
        SyncOp::Delete
    } else {
        SyncOp::Upsert
    };
    Ok(Some(SyncChange { table: table_name.to_owned(), op, data, version, updated_at, deleted_at }))
}

/// The changes that the rows of a result stand for, in the rows' order. A
/// row that names no record is left out; a row without a version ends the
/// reading with its error.
pub fn changes_from_rows(
    config: &TableConfig,
    table_name: &str,
    rows: &Vec<Vec<SqlValue>>,
    now: &str,
) -> (r: Result<Vec<SyncChange>, SyncError>)
    ensures
        r is Ok <==> rows_are_readable(config@, table_name@, row_models(rows@), now@),
        r is Ok ==> change_models((r->Ok_0)@) == changes_of_rows(
            config@,
            table_name@,
            row_models(rows@),
            now@,
        ),
        r is Ok ==> (r->Ok_0)@.len() <= rows@.len(),
        r is Err ==> r->Err_0 is InvalidColumnType,
{
    let mut changes: Vec<SyncChange> = Vec::new();
    let mut i: usize = 0;
    let ghost all = row_models(rows@);
    while i < rows.len()
        invariant
            i <= rows.len(),
            all == row_models(rows@),
            changes@.len() <= i,
            rows_are_readable(config@, table_name@, all.take(i as int), now@),
            change_models(changes@) == changes_of_rows(
                config@,
                table_name@,
                all.take(i as int),
                now@,
            ),
        decreases rows.len() - i,
    {
        proof {
            assert(all.take(i + 1).drop_last() =~= all.take(i as int));
            assert(all.take(i + 1).last() == sql_models(rows@[i as int]@));
        }
        match change_from_row(config, table_name, &rows[i], now) {
            Err(e) => {
                proof {
                    assert(row_change(config@, table_name@, all[i as int], now@) is Err);
                }
                return Err(e);
            },
            Ok(None) => {},
            Ok(Some(change)) => {
                let ghost before = changes@;
                changes.push(change);
                proof {
                    assert(change_models(changes@) =~= change_models(before).push(change@));
                }
            },
        }
        proof {
            assert forall|j: int| 0 <= j < i + 1 implies (#[trigger] row_change(
                config@,
                table_name@,
                all.take(i + 1)[j],
                now@,
            )) is Ok by {
                if j < i {
                    assert(all.take(i + 1)[j] == all.take(i as int)[j]);
                }
            }
        }
        i += 1;
    }
    proof {
        assert(all.take(rows.len() as int) =~= all);
    }
    Ok(changes)
}

/// The version that the first row of a result holds in its first column, or
/// zero where there is none.
pub fn version_of_rows(rows: &Vec<Vec<SqlValue>>) -> (r: i64)
    ensures
        r == first_version(row_models(rows@)),
{
    if rows.len() > 0 && rows[0].len() > 0 {
        match &rows[0][0] {
            SqlValue::Integer(v) => *v,
            _ => 0,
        }
    } else {
        0
    }
}

/// The query for a table's highest version.
pub fn max_version_statement(table_name: &str) -> (r: SqlStatement)
    ensures
        r@ == max_version_model(table_name@),
{
    let mut sql = "SELECT MAX(version) FROM ".to_owned();
    sql.append(table_name);
    sql.append(" WHERE version > 0");
    let r = SqlStatement { sql, params: Vec::new() };
    proof {
        assert(r@.params =~= Seq::<SqlModel>::empty());
    }
    r
}

/// The version that the outcome of the query for a table's highest version
/// stands for: what the first row holds, and zero where the query failed.
pub fn version_of_answer(answer: &Result<Vec<Vec<SqlValue>>, SyncError>) -> (r: i64)
    ensures
        r == answered_version(query_answer(*answer)),
{
    match answer {
        Ok(rows) => version_of_rows(rows),
        Err(_) => 0,
    }
}

/// The highest of a list of versions, and zero where none is above zero.
pub fn highest_version(versions: &Vec<i64>) -> (r: i64)
    ensures
        r == highest(versions@),
{
    let mut max: i64 = 0;
    let mut i: usize = 0;
    while i < versions.len()
        invariant
            i <= versions.len(),
            max == highest(versions@.take(i as int)),
        decreases versions.len() - i,
    {
        proof {
            assert(versions@.take(i + 1).drop_last() =~= versions@.take(i as int));
        }
        if versions[i] > max {
            max = versions[i];
        }
        i += 1;
    }
    proof {
        assert(versions@.take(versions.len() as int) =~= versions@);
    }
    max
}

/// The highest version that the store holds in a table, or zero where it
/// holds none or cannot say. The store is asked once, for the highest version
/// above zero, and the result is what its answer stands for.
pub fn max_version_for_table(store: &mut Store, table_name: &str) -> (r: i64)
    ensures
        asked_once(
            old(store).log(),
            final(store).log(),
            Call::Query(max_version_model(table_name@)),
        ),
        r == answered_version(final(store).log().last().answer),
        final(store).link() == old(store).link(),
{
    let answer = store.query_rows(&max_version_statement(table_name), 1, 1);
    proof {
        assert(store.log().drop_last() =~= old(store).log());
    }
    version_of_answer(&answer)
}

/// The highest version that the store holds in any replicated table, and
/// zero where it holds none. Each table is asked once, in the registry's
/// order, and the result is the highest of what the answers stand for.
pub fn max_version_all_tables(store: &mut Store) -> (r: i64)
    ensures
        grows(old(store).log(), final(store).log()),
        is_version_round(added(old(store).log(), final(store).log())),
        r == highest(versions_answered(added(old(store).log(), final(store).log()))),
        r >= 0,
        final(store).link() == old(store).link(),
{
    let tables = sync_tables();
    let mut answers: Vec<i64> = Vec::new();
    let mut i: usize = 0;
    proof {
        assert(store.log().take(store.log().len() as int) =~= store.log());
        assert(answers@ =~= versions_answered(added(old(store).log(), store.log())));
    }
    while i < tables.len()
        invariant
            i <= tables.len(),
            tables@.len() == table_names().len(),
            forall|j: int|
                0 <= j < tables@.len() ==> (#[trigger] tables@[j])@ == schema_of(table_names()[j]),
            store.link() == old(store).link(),
            grows(old(store).log(), store.log()),
            added(old(store).log(), store.log()).len() == i,
            forall|j: int|
                0 <= j < i ==> (#[trigger] added(old(store).log(), store.log())[j]).call
                    == Call::Query(max_version_model(table_names()[j])),
            answers@ == versions_answered(added(old(store).log(), store.log())),
        decreases tables.len() - i,
    {
        let ghost before = store.log();
        let v = max_version_for_table(store, tables[i].name);
        answers.push(v);
        proof {
            let now = store.log();
            let start = old(store).log().len() as int;
            assert(tables@[i as int]@.table == table_names()[i as int]);
            assert(now.take(start) =~= before.take(start));
            assert forall|j: int| 0 <= j < i implies added(old(store).log(), now)[j] == added(
                old(store).log(),
                before,
            )[j] by {
                assert(now.drop_last()[start + j] == before[start + j]);
            }
            assert(added(old(store).log(), now)[i as int] == now.last());
            assert(answers@ =~= versions_answered(added(old(store).log(), now)));
        }
        i += 1;
    }
    proof {
        lemma_highest(answers@);
    }
    highest_version(&answers)
}

/// The query for the keys of the records that were never given a version.
pub fn legacy_keys_statement(config: &TableConfig, table_name: &str) -> (r: SqlStatement)
    ensures
        r@ == legacy_keys_model(config@, table_name@),
{
    let condition = if same_text(table_name, "workflows") {
        "version <= 0 AND deleted_at IS NULL AND (type IS NULL OR type = 'user' OR type NOT LIKE 'system:%')"
    } else {
        "version <= 0 AND deleted_at IS NULL"
    };
    let mut sql = "SELECT ".to_owned();
    sql.append(config.primary_key);
    sql.append(" FROM ");
    sql.append(table_name);
    sql.append(" WHERE ");
    sql.append(condition);
    sql.append(" ORDER BY created_at ASC");
    let r = SqlStatement { sql, params: Vec::new() };
    proof {
        assert(r@.params =~= Seq::<SqlModel>::empty());
    }
    r
}

/// The keys that a result of one column holds, in the rows' order, without
/// the rows that hold no key.
pub fn keys_from_rows(rows: &Vec<Vec<SqlValue>>) -> (r: Vec<String>)
    ensures
        owned_texts(r@) == keys_of_rows(row_models(rows@)),
{
    let mut keys: Vec<String> = Vec::new();
    let mut i: usize = 0;
    let ghost all = row_models(rows@);
    proof {
        assert(owned_texts(keys@) =~= Seq::<Seq<char>>::empty());
    }
    while i < rows.len()
        invariant
            i <= rows.len(),
            all == row_models(rows@),
            keys_of_rows(all.take(i as int)) == owned_texts(keys@),
        decreases rows.len() - i,
    {
        proof {
            assert(all.take(i + 1).drop_last() =~= all.take(i as int));
            assert(all.take(i + 1).last() == sql_models(rows@[i as int]@));
        }
        match cell(&rows[i], 0) {
            SqlValue::Text(key) => {
                if !key.as_str().is_empty() {
                    let ghost before = keys@;
                    keys.push(key);
                    proof {
                        assert(owned_texts(keys@) =~= owned_texts(before).push(key@));
                    }
                }
            },
            _ => {},
        }
        i += 1;
    }
    proof {
        assert(all.take(rows.len() as int) =~= all);
    }
    keys
}

/// The statement that gives one record a version and the time of that write.
pub fn backfill_statement(config: &TableConfig, table_name: &str, version: i64, now: &str, key: &str) -> (r:
    SqlStatement)
    ensures
        r@ == backfill_model(config@, table_name@, version, now@, key@),
{
    let mut sql = "UPDATE ".to_owned();
    sql.append(table_name);
    sql.append(" SET version = ?1, updated_at = ?2 WHERE ");
    sql.append(config.primary_key);
    sql.append(" = ?3");
    let mut params: Vec<SqlValue> = Vec::new();
    params.push(SqlValue::Integer(version));
    params.push(SqlValue::Text(now.to_owned()));
    params.push(SqlValue::Text(key.to_owned()));
    let r = SqlStatement { sql, params };
    proof {
        assert(r@.params =~= backfill_model(config@, table_name@, version, now@, key@).params);
    }
    r
}

/// The statements that a backfill owes for the keys that the store yielded,
/// above the highest version that it holds: one for each key, in the keys'
/// order, under the versions `base + 1`, `base + 2`, …, each stamped with
/// `now`. Where the versions do not reach for all keys, nothing is owed but
/// the error.
pub fn backfill_plan(
    config: &TableConfig,
    table_name: &str,
    base: i64,
    keys: &Vec<String>,
    now: &str,
) -> (r: Result<Vec<SqlStatement>, SyncError>)
    ensures
        r is Err <==> base + keys@.len() > i64::MAX,
        r is Err ==> r->Err_0 == SyncError::VersionOverflow,
        r is Ok ==> (r->Ok_0)@.len() == keys@.len(),
        r is Ok ==> forall|i: int|
            0 <= i < keys@.len() ==> (#[trigger] (r->Ok_0)@[i])@ == backfill_model(
                config@,
                table_name@,
                (base + 1 + i) as i64,
                now@,
                keys@[i]@,
            ),
        match backfill_plan_model(config@, table_name@, base, owned_texts(keys@), now@) {
            Ok(statements) => r is Ok && statement_models((r->Ok_0)@) == statements,
            Err(e) => r == Err::<Vec<SqlStatement>, SyncError>(e),
        },
{
    let mut plan: Vec<SqlStatement> = Vec::new();
    let mut current: i64 = base;
    let mut i: usize = 0;
    while i < keys.len()
        invariant
            i <= keys.len(),
            current == base + i,
            plan@.len() == i,
            forall|j: int|
                0 <= j < i ==> (#[trigger] plan@[j])@ == backfill_model(
                    config@,
                    table_name@,
                    (base + 1 + j) as i64,
                    now@,
                    keys@[j]@,
                ),
        decreases keys.len() - i,
    {
        if current == i64::MAX {
            return Err(SyncError::VersionOverflow);
        }
        current += 1;
        plan.push(backfill_statement(config, table_name, current, now, keys[i].as_str()));
        i += 1;
    }
    proof {
        assert(statement_models(plan@) =~= backfill_models(
            config@,
            table_name@,
            base,
            stamped_keys(owned_texts(keys@), now@),
        ));
    }
    Ok(plan)
}

/// Gives every live record of a table that was never given a version the
/// next free one, oldest record first, and stamps it with the time of that
/// write. The versions follow the highest that the store holds in any table.
///
/// What is asked of the store, and what comes of its answers, is what
/// `backfill_fits` says: the records stamped are those whose keys the store
/// yielded, and the versions follow the highest that it answered. A waiting
/// row without a key is passed over and fails nothing.
pub fn upgrade_zero_versions(store: &mut Store, table_name: &str, config: &TableConfig) -> (r:
    Result<(), SyncError>)
    ensures
        grows(old(store).log(), final(store).log()),
        backfill_fits(added(old(store).log(), final(store).log()), config@, table_name@, r),
        final(store).link() == old(store).link(),
{
    let base = max_version_all_tables(store);
    let ghost round = store.log();
    let answer = store.query_rows(&legacy_keys_statement(config, table_name), 1, usize::MAX);
    let ghost asked = store.log();
    let ghost start = old(store).log().len() as int;
    let ghost n = table_names().len() as int;
    proof {
        let run = added(old(store).log(), asked);
        assert(asked.take(start) =~= round.take(start));
        assert(run.take(n) =~= added(old(store).log(), round));
        assert(run[n] == asked.last());
    }
    let rows = match answer {
        Ok(r) => r,
        Err(e) => {
            return Err(e);
        },
    };
    let keys = keys_from_rows(&rows);
    let now = if keys.len() > 0 {
        now_iso()
    } else {
        String::new()
    };
    let ghost plan = backfill_plan_model(
        config@,
        table_name@,
        base,
        keys_of_rows(row_models(rows@)),
        now@,
    );
    let statements = match backfill_plan(config, table_name, base, &keys, now.as_str()) {
        Ok(s) => s,
        Err(e) => {
            proof {
                let run = added(old(store).log(), asked);
                assert(run.skip(n + 1).len() == 0);
                assert(plan_fits(run.skip(n + 1), plan, Err::<(), SyncError>(e)));
            }
            return Err(e);
        },
    };
    let r = store.execute_all(&statements);
    proof {
        let done = store.log();
        let run = added(old(store).log(), done);
        assert(done.take(start) =~= asked.take(start));
        assert(run.take(n) =~= added(old(store).log(), asked).take(n));
        assert(run[n] == asked.last());
        assert(run.skip(n + 1) =~= added(asked, done));
        assert(plan_fits(run.skip(n + 1), plan, r));
    }
    r
}

/// The query for the page of changes after a version.
pub fn page_statement(config: &TableConfig, since_version: i64, limit: usize) -> (r: SqlStatement)
    ensures
        r@ == page_model(config@, since_version, limit),
{
    let size = if limit <= MAX_PAGE {
        limit
    } else {
        MAX_PAGE
    };
    let columns = join(&column_names(config), ", ");
    let mut sql = "SELECT ".to_owned();
    sql.append(columns.as_str());
    sql.append(" FROM ");
    sql.append(config.name);
    sql.append(" WHERE version > ?1 ORDER BY version ASC LIMIT ?2");
    let mut params: Vec<SqlValue> = Vec::new();
    params.push(SqlValue::Integer(since_version));
    params.push(SqlValue::Integer(size as i64));
    let r = SqlStatement { sql, params };
    proof {
        assert(r@.params =~= page_model(config@, since_version, limit).params);
    }
    r
}

/// Whether a row holds no time of its last write, so that the clock has to
/// stand in for it.
pub open spec fn lacks_time(cells: Seq<SqlModel>, at: int) -> bool {
    !(cell_at(cells, at) is Text)
}

/// Whether some row of a result holds no text in the column at `at`.
pub open spec fn rows_lack_time(rows: Seq<Seq<SqlModel>>, at: int) -> bool {
    exists|i: int| 0 <= i < rows.len() && lacks_time(#[trigger] rows[i], at)
}

/// Whether some row of a result holds no text in the column at `at`: only
/// then is the clock read.
pub fn needs_time(rows: &Vec<Vec<SqlValue>>, at: usize) -> (r: bool)
    ensures
        r == rows_lack_time(row_models(rows@), at as int),
{
    let mut i: usize = 0;
    while i < rows.len()
        invariant
            i <= rows.len(),
            forall|j: int| 0 <= j < i ==> !lacks_time(#[trigger] row_models(rows@)[j], at as int),
        decreases rows.len() - i,
    {
        let held = if at < rows[i].len() {
            match &rows[i][at] {
                SqlValue::Text(_) => true,
                _ => false,
            }
        } else {
            false
        };
        proof {
            assert(row_models(rows@)[i as int] == sql_models(rows@[i as int]@));
        }
        if !held {
            return true;
        }
        i += 1;
    }
    false
}

/// Loads one page of a table's changes: those with a version above
/// `since_version`, in ascending order of version, at most `limit` of them
/// and never more than a thousand. Records that were never given a version
/// get one first.
///
/// What is asked of the store, and what comes of its answers, is what
/// `load_fits` says: the page is what the rows stand for that the store
/// yielded for `page_model`; each row stands for a tombstone or an upsert, and
/// a row that names no record is left out.
pub fn load_table_changes(
    store: &mut Store,
    table_name: &str,
    since_version: i64,
    limit: usize,
) -> (r: Result<Vec<SyncChange>, SyncError>)
    ensures
        grows(old(store).log(), final(store).log()),
        load_fits(
            added(old(store).log(), final(store).log()),
            table_name@,
            since_version,
            limit,
            r,
        ),
        r is Ok ==> (r->Ok_0)@.len() <= page_size(limit),
        final(store).link() == old(store).link(),
{
    proof {
        assert(store.log().take(store.log().len() as int) =~= store.log());
    }
    let config = match get_table_config(table_name) {
        Some(c) => c,
        None => {
            return Ok(Vec::new());
        },
    };
    let back = upgrade_zero_versions(store, table_name, &config);
    let ghost filled = store.log();
    let ghost start = old(store).log().len() as int;
    let ghost k = filled.len() - start;
    proof {
        assert(added(old(store).log(), filled).take(k) =~= added(old(store).log(), filled));
    }
    match back {
        Ok(()) => {},
        Err(e) => {
            return Err(e);
        },
    }
    let size = if limit <= MAX_PAGE {
        limit
    } else {
        MAX_PAGE
    };
    let statement = page_statement(&config, since_version, limit);
    let answer = store.query_rows(&statement, config.fields.len(), size);
    proof {
        let asked = store.log();
        let run = added(old(store).log(), asked);
        assert(asked.take(start) =~= filled.take(start));
        assert(run.take(k) =~= added(old(store).log(), filled));
        assert(run[k] == asked.last());
    }
    let rows = match answer {
        Ok(r) => r,
        Err(e) => {
            return Err(e);
        },
    };
    let now = if needs_time(&rows, position(config.fields, "updated_at")) {
        now_iso()
    } else {
        String::new()
    };
    let r = changes_from_rows(&config, table_name, &rows, now.as_str());
    proof {
        assert(rows_fit(schema_of(table_name@), table_name@, row_models(rows@), now@, r));
    }
    r
}

/// What a peer needs to know of a record to merge it: its key, its version
/// and its times.
#[derive(Clone, Debug, PartialEq, Eq)]
pub struct RowMetadata {
    pub uuid: String,
    pub version: i64,
    pub updated_at: String,
    pub deleted_at: Option<String>,
}

/// A record's metadata as mathematics.
pub struct MetadataModel {
    pub uuid: Seq<char>,
    pub version: i64,
    pub updated_at: Seq<char>,
    pub deleted_at: Option<Seq<char>>,
}

impl View for RowMetadata {
    type V = MetadataModel;

    open spec fn view(&self) -> MetadataModel {
        MetadataModel {
            uuid: self.uuid@,
            version: self.version,
            updated_at: self.updated_at@,
            deleted_at: optional_text(self.deleted_at),
        }
    }
}

/// The metadata of a list as mathematics.
pub open spec fn metadata_models(list: Seq<RowMetadata>) -> Seq<MetadataModel> {
    Seq::new(list.len(), |i: int| list[i]@)
}

/// The text of the query for the metadata of a table's live records, the
/// latest write first.
pub open spec fn metadata_sql(table: Seq<char>) -> Seq<char> {
    "SELECT uuid, version, updated_at, deleted_at FROM "@ + table
        + " WHERE deleted_at IS NULL ORDER BY updated_at DESC"@
}

/// The query for the metadata of a table's live records.
pub open spec fn metadata_model(table: Seq<char>) -> StatementModel {
    StatementModel { sql: metadata_sql(table), params: Seq::empty() }
}

/// The metadata that a row of key, version and the two times stands for:
/// `Ok(None)` for a row without a key, an error for a row without a version.
pub open spec fn row_metadata(cells: Seq<SqlModel>, now: Seq<char>) -> Result<
    Option<MetadataModel>,
    SyncError,
> {
    match cell_at(cells, 1) {
        SqlModel::Integer(version) => match cell_at(cells, 0) {
            SqlModel::Text(uuid) => Ok(
                Some(
                    MetadataModel {
                        uuid,
                        version,
                        updated_at: match cell_at(cells, 2) {
                            SqlModel::Text(t) => t,
                            _ => now,
                        },
                        deleted_at: match cell_at(cells, 3) {
                            SqlModel::Text(t) => Some(t),
                            _ => None,
                        },
                    },
                ),
            ),
            _ => Ok(None),
        },
        _ => Err(SyncError::InvalidColumnType(1)),
    }
}

/// The metadata that the rows of a result stand for, in the rows' order.
pub open spec fn metadata_of_rows(rows: Seq<Seq<SqlModel>>, now: Seq<char>) -> Seq<MetadataModel>
    decreases rows.len(),
{
    if rows.len() == 0 {
        Seq::empty()
    } else {
        let before = metadata_of_rows(rows.drop_last(), now);
        match row_metadata(rows.last(), now) {
            Ok(Some(m)) => before.push(m),
            _ => before,
        }
    }
}

/// Whether every row of a result stands for a record's metadata or for none.
pub open spec fn metadata_is_readable(rows: Seq<Seq<SqlModel>>, now: Seq<char>) -> bool {
    forall|i: int| 0 <= i < rows.len() ==> (#[trigger] row_metadata(rows[i], now)) is Ok
}

/// The metadata that a row stands for, if it stands for any.
pub fn metadata_from_row(row: &Vec<SqlValue>, now: &str) -> (r: Result<
    Option<RowMetadata>,
    SyncError,
>)
    ensures
        match row_metadata(sql_models(row@), now@) {
            Ok(Some(m)) => r is Ok && r->Ok_0 is Some && (r->Ok_0->0)@ == m,
            Ok(None) => r is Ok && r->Ok_0 is None,
            Err(e) => r == Err::<Option<RowMetadata>, SyncError>(e),
        },
{
    let version = match cell(row, 1) {
        SqlValue::Integer(v) => v,
        _ => {
            return Err(SyncError::InvalidColumnType(1));
        },
    };
    let uuid = match cell(row, 0) {
        SqlValue::Text(t) => t,
        _ => {
            return Ok(None);
        },
    };
    let updated_at = match cell(row, 2) {
        SqlValue::Text(t) => t,
        _ => now.to_owned(),
    };
    let deleted_at = match cell(row, 3) {
        SqlValue::Text(t) => Some(t),
        _ => None,
    };
    Ok(Some(RowMetadata { uuid, version, updated_at, deleted_at }))
}

/// The metadata that the rows of a result stand for, in the rows' order.
pub fn metadata_from_rows(rows: &Vec<Vec<SqlValue>>, now: &str) -> (r: Result<
    Vec<RowMetadata>,
    SyncError,
>)
    ensures
        r is Ok <==> metadata_is_readable(row_models(rows@), now@),
        r is Err ==> r->Err_0 == SyncError::InvalidColumnType(1),
        r is Ok ==> metadata_models((r->Ok_0)@) == metadata_of_rows(row_models(rows@), now@),
{
    let mut list: Vec<RowMetadata> = Vec::new();
    let mut i: usize = 0;
    let ghost all = row_models(rows@);
    while i < rows.len()
        invariant
            i <= rows.len(),
            all == row_models(rows@),
            metadata_is_readable(all.take(i as int), now@),
            metadata_models(list@) == metadata_of_rows(all.take(i as int), now@),
        decreases rows.len() - i,
    {
        proof {
            assert(all.take(i + 1).drop_last() =~= all.take(i as int));
            assert(all.take(i + 1).last() == sql_models(rows@[i as int]@));
        }
        match metadata_from_row(&rows[i], now) {
            Err(e) => {
                proof {
                    assert(row_metadata(all[i as int], now@) is Err);
                }
                return Err(e);
            },
            Ok(None) => {},
            Ok(Some(m)) => {
                let ghost before = list@;
                list.push(m);
                proof {
                    assert(metadata_models(list@) =~= metadata_models(before).push(m@));
                }
            },
        }
        proof {
            assert forall|j: int| 0 <= j < i + 1 implies (#[trigger] row_metadata(
                all.take(i + 1)[j],
                now@,
            )) is Ok by {
                if j < i {
                    assert(all.take(i + 1)[j] == all.take(i as int)[j]);
                }
            }
        }
        i += 1;
    }
    proof {
        assert(all.take(rows.len() as int) =~= all);
    }
    Ok(list)
}

/// The query for the metadata of a table's live records.
pub fn metadata_statement(table_name: &str) -> (r: SqlStatement)
    ensures
        r@ == metadata_model(table_name@),
{
    let mut sql = "SELECT uuid, version, updated_at, deleted_at FROM ".to_owned();
    sql.append(table_name);
    sql.append(" WHERE deleted_at IS NULL ORDER BY updated_at DESC");
    let r = SqlStatement { sql, params: Vec::new() };
    proof {
        assert(r@.params =~= Seq::<SqlModel>::empty());
    }
    r
}

/// Whether the outcome of reading metadata is what the rows stand for, read
/// at the given time.
pub open spec fn metadata_rows_fit(
    rows: Seq<Seq<SqlModel>>,
    now: Seq<char>,
    outcome: Result<Vec<RowMetadata>, SyncError>,
) -> bool {
    if metadata_is_readable(rows, now) {
        outcome is Ok && metadata_models((outcome->Ok_0)@) == metadata_of_rows(rows, now)
    } else {
        outcome == Err::<Vec<RowMetadata>, SyncError>(SyncError::InvalidColumnType(1))
    }
}

/// Whether the outcome of reading metadata is what the rows stand for, for
/// some time of the clock.
pub open spec fn is_metadata_of(
    rows: Seq<Seq<SqlModel>>,
    outcome: Result<Vec<RowMetadata>, SyncError>,
) -> bool {
    exists|now: Seq<char>| #[trigger] metadata_rows_fit(rows, now, outcome)
}

/// Whether the outcome of loading metadata fits the store's answer: the
/// store's error where it refused, else what the rows stand for, for some
/// time of the clock.
pub open spec fn metadata_fits(answer: Answer, outcome: Result<Vec<RowMetadata>, SyncError>) -> bool {
    match answer {
        Answer::Rows(rows) => is_metadata_of(rows, outcome),
        _ => outcome is Err && outcome->Err_0 is Store,
    }
}

/// Loads the metadata of a table's live records, the latest write first. A
/// table that is not replicated has none, and the store is not asked for
/// any. A record without a key is left out.
pub fn load_table_metadata(store: &mut Store, table_name: &str) -> (r: Result<
    Vec<RowMetadata>,
    SyncError,
>)
    ensures
        !is_sync_table(table_name@) ==> r is Ok && (r->Ok_0)@.len() == 0 && final(store).log()
            == old(store).log(),
        is_sync_table(table_name@) ==> asked_once(
            old(store).log(),
            final(store).log(),
            Call::Query(metadata_model(table_name@)),
        ) && metadata_fits(final(store).log().last().answer, r),
        final(store).link() == old(store).link(),
{
    if get_table_config(table_name).is_none() {
        return Ok(Vec::new());
    }
    let answer = store.query_rows(&metadata_statement(table_name), 4, usize::MAX);
    proof {
        assert(store.log().drop_last() =~= old(store).log());
    }
    let rows = match answer {
        Ok(r) => r,
        Err(e) => {
            return Err(e);
        },
    };
    let now = if needs_time(&rows, 2) {
        now_iso()
    } else {
        String::new()
    };
    let r = metadata_from_rows(&rows, now.as_str());
    proof {
        assert(store.log().last().answer == Answer::Rows(row_models(rows@)));
        assert(metadata_rows_fit(row_models(rows@), now@, r));
    }
    r
}

} // verus!
