//! The change applier: whether an incoming change is written to the local
//! store, and as which statement. The later write wins; on equal times the
//! local record stays.

use crate::change::{ChangeModel, FieldModel, FieldValue, SyncChange, SyncOp};
use crate::clock::now_iso;
use crate::error::SyncError;
use crate::registry::{
    created_at_column, deleted_at_column, get_table_config, is_sync_table, schema_of,
    updated_at_column, version_column, Schema, TableConfig,
};
use crate::statement::{row_models, sql_models, SqlModel, SqlStatement, SqlValue, StatementModel};
use crate::store::{added, grows, Answer, Call, Exchange, Store};
use crate::text::{
    decimal, decimal_text, join, joined, owned_texts, same_text, text_at_least, text_ge, texts,
};
use vstd::prelude::*;

verus! {

/// The test that a name is another than the given one.
pub open spec fn is_other_than(name: Seq<char>) -> spec_fn(Seq<char>) -> bool {
    |c: Seq<char>| c != name
}

/// A list of names without one name, the order kept.
pub open spec fn without_name(names: Seq<Seq<char>>, name: Seq<char>) -> Seq<Seq<char>> {
    names.filter(is_other_than(name))
}

/// A list without a name holds the names of the list that are not that name.
pub proof fn lemma_without_name(names: Seq<Seq<char>>, name: Seq<char>, column: Seq<char>)
    ensures
        without_name(names, name).contains(column) <==> names.contains(column) && column != name,
{
    let keep = is_other_than(name);
    let kept = names.filter(keep);
    if names.contains(column) && column != name {
        let i = choose|i: int| 0 <= i < names.len() && names[i] == column;
        names.lemma_filter_contains(keep, i);
    }
    if kept.contains(column) {
        names.lemma_filter_contains_rev(keep, column);
        let j = choose|j: int| 0 <= j < kept.len() && kept[j] == column;
        names.lemma_filter_pred(keep, j);
    }
}

/// The columns that a write names: all of the table's but `created_at`, which
/// the store manages itself.
pub open spec fn write_columns(schema: Schema) -> Seq<Seq<char>> {
    without_name(schema.columns, created_at_column())
}

/// The placeholders `?1` to `?n`.
pub open spec fn placeholders(n: nat) -> Seq<Seq<char>> {
    Seq::new(n, |i: int| "?"@ + decimal((i + 1) as nat))
}

/// For each column the clause that overwrites it with the value that the
/// statement wanted to insert.
pub open spec fn assignments(columns: Seq<Seq<char>>) -> Seq<Seq<char>> {
    Seq::new(columns.len(), |i: int| columns[i] + " = excluded."@ + columns[i])
}

/// The columns that a write overwrites where the record exists already: a
/// tombstone all that it names, an upsert all but the key.
pub open spec fn overwritten_columns(schema: Schema, op: SyncOp) -> Seq<Seq<char>> {
    match op {
        SyncOp::Delete => write_columns(schema),
        SyncOp::Upsert => without_name(write_columns(schema), schema.key),
    }
}

/// The text of the statement that inserts a record or, where its key exists
/// already, overwrites it.
pub open spec fn upsert_sql(schema: Schema, op: SyncOp) -> Seq<char> {
    "INSERT INTO "@ + schema.table + " ("@ + joined(write_columns(schema), ", "@) + ") VALUES ("@
        + joined(placeholders(write_columns(schema).len()), ", "@) + ") ON CONFLICT("@ + schema.key
        + ") DO UPDATE SET "@ + joined(assignments(overwritten_columns(schema, op)), ", "@)
}

/// The text of the query for the time of a record's last write.
pub open spec fn lookup_sql(schema: Schema) -> Seq<char> {
    "SELECT updated_at FROM "@ + schema.table + " WHERE "@ + schema.key + " = ?1"@
}

/// The query for the time of the last write of the record with a given key.
pub open spec fn lookup_model(schema: Schema, key: Seq<char>) -> StatementModel {
    StatementModel { sql: lookup_sql(schema), params: seq![SqlModel::Text(key)] }
}

/// The key of the record that a change is about: the text under the key
/// column, if the payload has one there and it is not empty.
pub open spec fn change_key(schema: Schema, change: ChangeModel) -> Option<Seq<char>> {
    if change.data.contains_key(schema.key) {
        match change.data[schema.key] {
            FieldModel::Text(k) => if k.len() > 0 {
                Some(k)
            } else {
                None
            },
            _ => None,
        }
    } else {
        None
    }
}

/// What a tombstone writes into a column: the key, the new version and the
/// two times where they belong, and the empty default everywhere else.
pub open spec fn tombstone_value(
    schema: Schema,
    column: Seq<char>,
    key: Seq<char>,
    version: i64,
    updated_at: Seq<char>,
    deleted_at: Seq<char>,
) -> SqlModel {
    if column == schema.key {
        SqlModel::Text(key)
    } else if column == version_column() {
        SqlModel::Integer(version)
    } else if column == deleted_at_column() {
        SqlModel::Text(deleted_at)
    } else if column == updated_at_column() {
        SqlModel::Text(updated_at)
    } else {
        default_value(schema, column)
    }
}

/// What a column holds where nothing was given for it: an empty JSON list in
/// a JSON column, an empty text elsewhere.
pub open spec fn default_value(schema: Schema, column: Seq<char>) -> SqlModel {
    if schema.json_columns.contains(column) {
        SqlModel::Text("[]"@)
    } else {
        SqlModel::Text(""@)
    }
}

/// How a payload value is stored: strings and numbers as they are, any other
/// JSON value as its text.
pub open spec fn stored_value(value: FieldModel) -> SqlModel {
    match value {
        FieldModel::Null => SqlModel::Null,
        FieldModel::Integer(n) => SqlModel::Integer(n),
        FieldModel::Text(s) => SqlModel::Text(s),
        FieldModel::Json(raw) => SqlModel::Text(raw),
    }
}

/// What an upsert writes into a column: the key, the new version and the
/// change's time where they belong, no deletion time, and elsewhere the
/// payload's value or the default. `None` where the payload must name the
/// column and does not.
pub open spec fn upsert_value(
    schema: Schema,
    column: Seq<char>,
    change: ChangeModel,
    key: Seq<char>,
    version: i64,
) -> Option<SqlModel> {
    if column == schema.key {
        Some(SqlModel::Text(key))
    } else if column == version_column() {
        Some(SqlModel::Integer(version))
    } else if column == updated_at_column() {
        Some(SqlModel::Text(change.updated_at))
    } else if column == deleted_at_column() {
        Some(SqlModel::Null)
    } else if change.data.contains_key(column) {
        Some(stored_value(change.data[column]))
    } else if column == "uuid"@ {
        None
    } else {
        Some(default_value(schema, column))
    }
}

/// The values of a tombstone, one for each written column.
pub open spec fn tombstone_values(
    schema: Schema,
    key: Seq<char>,
    version: i64,
    updated_at: Seq<char>,
    deleted_at: Seq<char>,
) -> Seq<SqlModel> {
    let columns = write_columns(schema);
    Seq::new(
        columns.len(),
        |i: int| tombstone_value(schema, columns[i], key, version, updated_at, deleted_at),
    )
}

/// Whether an upsert has a value for each written column.
pub open spec fn upsert_is_complete(
    schema: Schema,
    change: ChangeModel,
    key: Seq<char>,
    version: i64,
) -> bool {
    let columns = write_columns(schema);
    forall|i: int|
        0 <= i < columns.len() ==> (#[trigger] upsert_value(
            schema,
            columns[i],
            change,
            key,
            version,
        )) is Some
}

/// The values of an upsert, one for each written column.
pub open spec fn upsert_values(
    schema: Schema,
    change: ChangeModel,
    key: Seq<char>,
    version: i64,
) -> Seq<SqlModel> {
    let columns = write_columns(schema);
    Seq::new(columns.len(), |i: int| upsert_value(schema, columns[i], change, key, version)->0)
}

/// The statement that writes a change under a new version, or `None` where
/// an upsert lacks a value that it must name. A tombstone without a deletion
/// time is stamped with `now`.
pub open spec fn write_model(
    schema: Schema,
    change: ChangeModel,
    key: Seq<char>,
    version: i64,
    now: Seq<char>,
) -> Option<StatementModel> {
    match change.op {
        SyncOp::Delete => Some(
            StatementModel {
                sql: upsert_sql(schema, SyncOp::Delete),
                params: tombstone_values(
                    schema,
                    key,
                    version,
                    change.updated_at,
                    match change.deleted_at {
                        Some(t) => t,
                        None => now,
                    },
                ),
            },
        ),
        SyncOp::Upsert => if upsert_is_complete(schema, change, key, version) {
            Some(
                StatementModel {
                    sql: upsert_sql(schema, SyncOp::Upsert),
                    params: upsert_values(schema, change, key, version),
                },
            )
        } else {
            None
        },
    }
}

/// What the lookup of a record's last write found: `Ok(None)` where the
/// record does not exist, the time where the first row's first column holds a
/// text, and an error where it holds anything else.
pub open spec fn stored_stamp_model(rows: Seq<Seq<SqlModel>>) -> Result<
    Option<Seq<char>>,
    SyncError,
> {
    if rows.len() == 0 {
        Ok(None)
    } else if rows[0].len() > 0 && rows[0][0] is Text {
        Ok(Some(rows[0][0]->Text_0))
    } else {
        Err(SyncError::InvalidColumnType(0))
    }
}

/// A change is stale where the local record was written at the same time or
/// later: the local record then stays as it is.
pub open spec fn is_stale_model(existing: Option<Seq<char>>, incoming: Seq<char>) -> bool {
    existing is Some && text_ge(existing->0, incoming)
}

/// What applying a change comes to, given the rows that the lookup of the
/// local record yielded: `Ok(None)` where nothing is written (no key, or a
/// stale change), `Ok(Some(..))` with the statement to execute, or the error
/// that ends it.
pub open spec fn apply_model(
    schema: Schema,
    change: ChangeModel,
    rows: Seq<Seq<SqlModel>>,
    version: i64,
    now: Seq<char>,
) -> Result<Option<StatementModel>, SyncError> {
    match change_key(schema, change) {
        None => Ok(None),
        Some(key) => match stored_stamp_model(rows) {
            Err(e) => Err(e),
            Ok(existing) => if is_stale_model(existing, change.updated_at) {
                Ok(None)
            } else {
                match write_model(schema, change, key, version, now) {
                    Some(statement) => Ok(Some(statement)),
                    None => Err(SyncError::InvalidQuery),
                }
            },
        },
    }
}

/// Whether the exchanges with the store while a change was applied, and the
/// outcome, are those of a plan: where nothing is planned, or the plan is an
/// error, the lookup was the only call and the outcome says so; where a
/// statement is planned, it was executed next, and the change counts as
/// written exactly if the store accepted it.
pub open spec fn fits_plan(
    step: Seq<Exchange>,
    planned: Result<Option<StatementModel>, SyncError>,
    outcome: Result<bool, SyncError>,
) -> bool {
    match planned {
        Ok(None) => step.len() == 1 && outcome == Ok::<bool, SyncError>(false),
        Err(e) => step.len() == 1 && outcome == Err::<bool, SyncError>(e),
        Ok(Some(statement)) => {
            &&& step.len() == 2
            &&& step[1].call == Call::Execute(statement)
            &&& match step[1].answer {
                Answer::Accepted => outcome == Ok::<bool, SyncError>(true),
                _ => outcome is Err && outcome->Err_0 is Store,
            }
        },
    }
}

/// Whether the exchanges with the store while a change was applied, and the
/// outcome, are those of the plan that `apply_model` makes over the rows that
/// the lookup yielded, for some time of the clock.
pub open spec fn is_planned_over(
    step: Seq<Exchange>,
    table: Seq<char>,
    change: ChangeModel,
    version: i64,
    rows: Seq<Seq<SqlModel>>,
    outcome: Result<bool, SyncError>,
) -> bool {
    exists|now: Seq<char>|
        fits_plan(
            step,
            #[trigger] apply_model(schema_of(table), change, rows, version, now),
            outcome,
        )
}

/// Whether the exchanges with the store while a change was applied, and the
/// outcome, fit together.
///
/// - For a table that is not replicated and for a change without a key the
///   store is not asked anything, and the change is not written.
/// - Otherwise the store is asked first for the time of the local record's
///   last write. Where it refuses, its error is the outcome.
/// - Where it answers, `apply_model` plans over the rows that it yielded,
///   for some time of the clock, and the rest is what `fits_plan` says of
///   that plan (`is_planned_over`).
pub open spec fn fits_outcome(
    step: Seq<Exchange>,
    table: Seq<char>,
    change: ChangeModel,
    version: i64,
    outcome: Result<bool, SyncError>,
) -> bool {
    if !is_sync_table(table) || change_key(schema_of(table), change) is None {
        step.len() == 0 && outcome == Ok::<bool, SyncError>(false)
    } else {
        &&& step.len() >= 1
        &&& step[0].call == Call::Query(
            lookup_model(schema_of(table), change_key(schema_of(table), change)->0),
        )
        &&& match step[0].answer {
            Answer::Rows(rows) => is_planned_over(step, table, change, version, rows, outcome),
            _ => step.len() == 1 && outcome is Err && outcome->Err_0 is Store,
        }
    }
}

/// Whether a list of names holds a name.
pub fn has_name(names: &[&str], name: &str) -> (r: bool)
    ensures
        r == texts(names@).contains(name@),
{
    let mut i: usize = 0;
    while i < names.len()
        invariant
            i <= names.len(),
            forall|j: int| 0 <= j < i ==> texts(names@)[j] != name@,
        decreases names.len() - i,
    {
        if same_text(names[i], name) {
            assert(texts(names@)[i as int] == name@);
            return true;
        }
        i += 1;
    }
    false
}

/// The names of a table's columns, owned.
pub fn column_names(config: &TableConfig) -> (r: Vec<String>)
    ensures
        owned_texts(r@) == config@.columns,
{
    let mut out: Vec<String> = Vec::new();
    let mut i: usize = 0;
    while i < config.fields.len()
        invariant
            i <= config.fields.len(),
            out@.len() == i,
            forall|j: int| 0 <= j < i ==> out@[j]@ == config.fields@[j]@,
        decreases config.fields.len() - i,
    {
        out.push(config.fields[i].to_owned());
        i += 1;
    }
    proof {
        assert(owned_texts(out@) =~= config@.columns);
    }
    out
}

/// A list of names without one name, the order kept.
pub fn without(names: &Vec<String>, name: &str) -> (r: Vec<String>)
    ensures
        owned_texts(r@) == without_name(owned_texts(names@), name@),
{
    let mut out: Vec<String> = Vec::new();
    let mut i: usize = 0;
    proof {
        reveal(Seq::filter);
        assert(owned_texts(out@) =~= without_name(owned_texts(names@).take(0), name@));
    }
    while i < names.len()
        invariant
            i <= names.len(),
            owned_texts(out@) == without_name(owned_texts(names@).take(i as int), name@),
        decreases names.len() - i,
    {
        proof {
            reveal(Seq::filter);
            let all = owned_texts(names@);
            assert(all.take(i + 1).drop_last() =~= all.take(i as int));
            assert(all.take(i + 1).last() == names@[i as int]@);
        }
        if !same_text(names[i].as_str(), name) {
            let ghost before = out@;
            out.push(names[i].clone());
            proof {
                assert(owned_texts(out@) =~= owned_texts(before).push(names@[i as int]@));
            }
        }
        i += 1;
    }
    proof {
        assert(owned_texts(names@).take(names.len() as int) =~= owned_texts(names@));
    }
    out
}

/// The names of the columns that a write names.
pub fn written_columns(config: &TableConfig) -> (r: Vec<String>)
    ensures
        owned_texts(r@) == write_columns(config@),
{
    let all = column_names(config);
    without(&all, "created_at")
}

fn placeholder_list(n: usize) -> (r: Vec<String>)
    ensures
        owned_texts(r@) == placeholders(n as nat),
{
    let mut out: Vec<String> = Vec::new();
    let mut i: usize = 0;
    while i < n
        invariant
            i <= n,
            out@.len() == i,
            forall|j: int| 0 <= j < i ==> out@[j]@ == "?"@ + decimal((j + 1) as nat),
        decreases n - i,
    {
        let mut item = "?".to_owned();
        let number = decimal_text(i + 1);
        item.append(number.as_str());
        out.push(item);
        i += 1;
    }
    proof {
        assert(owned_texts(out@) =~= placeholders(n as nat));
    }
    out
}

fn assignment_list(columns: &Vec<String>) -> (r: Vec<String>)
    ensures
        owned_texts(r@) == assignments(owned_texts(columns@)),
{
    let mut out: Vec<String> = Vec::new();
    let mut i: usize = 0;
    while i < columns.len()
        invariant
            i <= columns.len(),
            out@.len() == i,
            forall|j: int|
                0 <= j < i ==> out@[j]@ == columns@[j]@ + " = excluded."@ + columns@[j]@,
        decreases columns.len() - i,
    {
        let mut item = columns[i].clone();
        item.append(" = excluded.");
        item.append(columns[i].as_str());
        out.push(item);
        i += 1;
    }
    proof {
        assert(owned_texts(out@) =~= assignments(owned_texts(columns@)));
    }
    out
}

/// The text of the statement that writes a change of the given kind.
pub fn upsert_statement_text(config: &TableConfig, op: SyncOp) -> (r: String)
    ensures
        r@ == upsert_sql(config@, op),
{
    let columns = written_columns(config);
    let overwritten = match op {
        SyncOp::Delete => written_columns(config),
        SyncOp::Upsert => without(&columns, config.primary_key),
    };
    let names = join(&columns, ", ");
    let marks = join(&placeholder_list(columns.len()), ", ");
    let updates = join(&assignment_list(&overwritten), ", ");
    let mut sql = "INSERT INTO ".to_owned();
    sql.append(config.name);
    sql.append(" (");
    sql.append(names.as_str());
    sql.append(") VALUES (");
    sql.append(marks.as_str());
    sql.append(") ON CONFLICT(");
    sql.append(config.primary_key);
    sql.append(") DO UPDATE SET ");
    sql.append(updates.as_str());
    sql
}

/// The query for the time of the last write of the record with a given key.
pub fn lookup_statement(config: &TableConfig, key: &str) -> (r: SqlStatement)
    ensures
        r@ == lookup_model(config@, key@),
{
    let mut sql = "SELECT updated_at FROM ".to_owned();
    sql.append(config.name);
    sql.append(" WHERE ");
    sql.append(config.primary_key);
    sql.append(" = ?1");
    let mut params: Vec<SqlValue> = Vec::new();
    params.push(SqlValue::Text(key.to_owned()));
    let r = SqlStatement { sql, params };
    proof {
        assert(r@.params =~= lookup_model(config@, key@).params);
    }
    r
}

/// The key of the record that a change is about, if the change names one.
pub fn primary_key_of<'a>(config: &TableConfig, change: &'a SyncChange) -> (r: Option<&'a str>)
    ensures
        r is Some <==> change_key(config@, change@) is Some,
        r is Some ==> (r->0)@ == change_key(config@, change@)->0,
{
    match change.data.get_text(config.primary_key) {
        Some(key) => {
            if key.is_empty() {
                None
            } else {
                Some(key)
            }
        },
        None => None,
    }
}

fn default_for(config: &TableConfig, column: &str) -> (r: SqlValue)
    ensures
        r@ == default_value(config@, column@),
{
    if has_name(config.json_fields, column) {
        SqlValue::Text("[]".to_owned())
    } else {
        SqlValue::Text("".to_owned())
    }
}

fn stored(value: &FieldValue) -> (r: SqlValue)
    ensures
        r@ == stored_value(value@),
{
    match value {
        FieldValue::Null => SqlValue::Null,
        FieldValue::Integer(n) => SqlValue::Integer(*n),
        FieldValue::Text(s) => SqlValue::Text(s.clone()),
        FieldValue::Json(raw) => SqlValue::Text(raw.clone()),
    }
}

fn tombstone_params(
    config: &TableConfig,
    columns: &Vec<String>,
    key: &str,
    version: i64,
    updated_at: &str,
    deleted_at: &str,
) -> (r: Vec<SqlValue>)
    requires
        owned_texts(columns@) == write_columns(config@),
    ensures
        sql_models(r@) == tombstone_values(config@, key@, version, updated_at@, deleted_at@),
{
    let mut out: Vec<SqlValue> = Vec::new();
    let mut i: usize = 0;
    while i < columns.len()
        invariant
            i <= columns.len(),
            out@.len() == i,
            forall|j: int|
                0 <= j < i ==> out@[j]@ == tombstone_value(
                    config@,
                    columns@[j]@,
                    key@,
                    version,
                    updated_at@,
                    deleted_at@,
                ),
        decreases columns.len() - i,
    {
        let column = columns[i].as_str();
        let value = if same_text(column, config.primary_key) {
            SqlValue::Text(key.to_owned())
        } else if same_text(column, "version") {
            SqlValue::Integer(version)
        } else if same_text(column, "deleted_at") {
            SqlValue::Text(deleted_at.to_owned())
        } else if same_text(column, "updated_at") {
            SqlValue::Text(updated_at.to_owned())
        } else {
            default_for(config, column)
        };
        out.push(value);
        i += 1;
    }
    proof {
        let columns_model = write_columns(config@);
        assert(forall|j: int| 0 <= j < columns@.len() ==> columns_model[j] == columns@[j]@);
        assert(sql_models(out@) =~= tombstone_values(
            config@,
            key@,
            version,
            updated_at@,
            deleted_at@,
        ));
    }
    out
}

fn upsert_params(
    config: &TableConfig,
    columns: &Vec<String>,
    change: &SyncChange,
    key: &str,
    version: i64,
) -> (r: Option<Vec<SqlValue>>)
    requires
        owned_texts(columns@) == write_columns(config@),
    ensures
        r is Some <==> upsert_is_complete(config@, change@, key@, version),
        r is Some ==> sql_models((r->0)@) == upsert_values(config@, change@, key@, version),
{
    let mut out: Vec<SqlValue> = Vec::new();
    let mut i: usize = 0;
    let ghost columns_model = write_columns(config@);
    proof {
        assert(forall|j: int| 0 <= j < columns@.len() ==> columns_model[j] == columns@[j]@);
    }
    while i < columns.len()
        invariant
            i <= columns.len(),
            out@.len() == i,
            columns_model == write_columns(config@),
            columns_model.len() == columns@.len(),
            forall|j: int| 0 <= j < columns@.len() ==> columns_model[j] == columns@[j]@,
            forall|j: int|
                0 <= j < i ==> upsert_value(config@, columns@[j]@, change@, key@, version)
                    == Some(out@[j]@),
        decreases columns.len() - i,
    {
        let column = columns[i].as_str();
        let value = if same_text(column, config.primary_key) {
            SqlValue::Text(key.to_owned())
        } else if same_text(column, "version") {
            SqlValue::Integer(version)
        } else if same_text(column, "updated_at") {
            SqlValue::Text(change.updated_at.clone())
        } else if same_text(column, "deleted_at") {
            SqlValue::Null
        } else {
            match change.data.get(column) {
                Some(value) => stored(value),
                None => {
                    if same_text(column, "uuid") {
                        proof {
                            assert(upsert_value(
                                config@,
                                columns_model[i as int],
                                change@,
                                key@,
                                version,
                            ) is None);
                        }
                        return None;
                    }
                    default_for(config, column)
                },
            }
        };
        out.push(value);
        i += 1;
    }
    proof {
        assert forall|j: int| 0 <= j < columns_model.len() implies (#[trigger] upsert_value(
            config@,
            columns_model[j],
            change@,
            key@,
            version,
        )) is Some by {
            assert(columns_model[j] == columns@[j]@);
        }
        assert(sql_models(out@) =~= upsert_values(config@, change@, key@, version));
    }
    Some(out)
}

/// The statement that writes a change under a new version. A tombstone
/// without a deletion time is stamped with `now`. An upsert that lacks a value
/// that it must name is refused.
pub fn write_statement(
    config: &TableConfig,
    change: &SyncChange,
    key: &str,
    new_version: i64,
    now: &str,
) -> (r: Result<SqlStatement, SyncError>)
    ensures
        match write_model(config@, change@, key@, new_version, now@) {
            Some(statement) => r is Ok && (r->Ok_0)@ == statement,
            None => r == Err::<SqlStatement, SyncError>(SyncError::InvalidQuery),
        },
{
    let columns = written_columns(config);
    match change.op {
        SyncOp::Delete => {
            let deleted_at = match &change.deleted_at {
                Some(t) => t.as_str(),
                None => now,
            };
            let params = tombstone_params(
                config,
                &columns,
                key,
                new_version,
                change.updated_at.as_str(),
                deleted_at,
            );
            Ok(SqlStatement { sql: upsert_statement_text(config, SyncOp::Delete), params })
        },
        SyncOp::Upsert => {
            match upsert_params(config, &columns, change, key, new_version) {
                Some(params) => Ok(
                    SqlStatement { sql: upsert_statement_text(config, SyncOp::Upsert), params },
                ),
                None => Err(SyncError::InvalidQuery),
            }
        },
    }
}

/// What the lookup of a record's last write found.
pub fn stored_stamp(rows: &Vec<Vec<SqlValue>>) -> (r: Result<Option<String>, SyncError>)
    ensures
        match stored_stamp_model(row_models(rows@)) {
            Ok(Some(t)) => r is Ok && r->Ok_0 is Some && (r->Ok_0->0)@ == t,
            Ok(None) => r is Ok && r->Ok_0 is None,
            Err(e) => r == Err::<Option<String>, SyncError>(e),
        },
{
    if rows.len() == 0 {
        return Ok(None);
    }
    if rows[0].len() > 0 {
        match &rows[0][0] {
            SqlValue::Text(t) => {
                return Ok(Some(t.clone()));
            },
            _ => {},
        }
    }
    Err(SyncError::InvalidColumnType(0))
}

/// Whether the local record, last written at `existing`, keeps its place
/// against a change written at `incoming`.
pub fn is_stale(existing: &Option<String>, incoming: &str) -> (r: bool)
    ensures
        r == is_stale_model(
            match existing {
                Some(t) => Some(t@),
                None => None,
            },
            incoming@,
        ),
{
    match existing {
        Some(local) => text_at_least(local.as_str(), incoming),
        None => false,
    }
}

/// Decides what applying a change comes to, given the rows that the lookup
/// of the local record yielded.
pub fn plan_change(
    config: &TableConfig,
    change: &SyncChange,
    rows: &Vec<Vec<SqlValue>>,
    new_version: i64,
    now: &str,
) -> (r: Result<Option<SqlStatement>, SyncError>)
    ensures
        match apply_model(config@, change@, row_models(rows@), new_version, now@) {
            Ok(Some(statement)) => r is Ok && r->Ok_0 is Some && (r->Ok_0->0)@ == statement,
            Ok(None) => r is Ok && r->Ok_0 is None,
            Err(e) => r == Err::<Option<SqlStatement>, SyncError>(e),
        },
{
    let key = match primary_key_of(config, change) {
        Some(k) => k,
        None => {
            return Ok(None);
        },
    };
    let existing = match stored_stamp(rows) {
        Ok(e) => e,
        Err(e) => {
            return Err(e);
        },
    };
    if is_stale(&existing, change.updated_at.as_str()) {
        return Ok(None);
    }
    match write_statement(config, change, key, new_version, now) {
        Ok(statement) => Ok(Some(statement)),
        Err(e) => Err(e),
    }
}

/// Applies one incoming change to a table of the local store, under a newly
/// allocated version, and says whether it was written.
///
/// A change for a table that is not replicated and a change without a key
/// are not written, and the store is not asked about them. For any other
/// change the store is asked once, for the time of the local record's last
/// write; `apply_model` says what follows from the rows that it yields. A
/// stale change is not written. A change that is to be written is handed
/// over as one statement, and counts as written exactly if the store
/// accepts it.
pub fn apply_table_change(
    store: &mut Store,
    table_name: &str,
    change: &SyncChange,
    new_version: i64,
) -> (r: Result<bool, SyncError>)
    ensures
        grows(old(store).log(), final(store).log()),
        fits_outcome(
            added(old(store).log(), final(store).log()),
            table_name@,
            change@,
            new_version,
            r,
        ),
        final(store).link() == old(store).link(),
{
    proof {
        assert(store.log().take(store.log().len() as int) =~= store.log());
    }
    let config = match get_table_config(table_name) {
        Some(c) => c,
        None => {
            return Ok(false);
        },
    };
    let key = match primary_key_of(&config, change) {
        Some(k) => k,
        None => {
            return Ok(false);
        },
    };
    let asked = store.query_rows(&lookup_statement(&config, key), 1, 1);
    let ghost first = store.log();
    proof {
        assert(first.take(old(store).log().len() as int) =~= old(store).log());
        assert(added(old(store).log(), first)[0] == first.last());
    }
    let rows = match asked {
        Ok(r) => r,
        Err(e) => {
            return Err(e);
        },
    };
    let now = match (change.op, &change.deleted_at) {
        (SyncOp::Delete, None) => now_iso(),
        _ => String::new(),
    };
    let ghost planned = apply_model(
        schema_of(table_name@),
        change@,
        row_models(rows@),
        new_version,
        now@,
    );
    match plan_change(&config, change, &rows, new_version, now.as_str()) {
        Err(e) => {
            proof {
                assert(fits_plan(added(old(store).log(), first), planned, Err::<bool, SyncError>(e)));
            }
            Err(e)
        },
        Ok(None) => {
            proof {
                assert(fits_plan(added(old(store).log(), first), planned, Ok::<bool, SyncError>(false)));
            }
            Ok(false)
        },
        Ok(Some(statement)) => {
            let outcome = store.execute(&statement);
            let r = match outcome {
                Ok(_) => Ok(true),
                Err(e) => Err(e),
            };
            proof {
                let second = store.log();
                let step = added(old(store).log(), second);
                assert(second.take(old(store).log().len() as int) =~= old(store).log());
                assert(step[0] == first.last());
                assert(step[1] == second.last());
                assert(fits_plan(step, planned, r));
            }
            r
        },
    }
}

} // verus!
