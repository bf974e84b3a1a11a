//! The laws of replication, proved of the model of a table and of the
//! decisions that the engine takes.

use crate::applier::{
    apply_model, change_key, fits_outcome, fits_plan, is_planned_over, lemma_without_name,
    stored_stamp_model,
    upsert_is_complete, upsert_value, write_columns, write_model,
};
use crate::error::SyncError;
use crate::change::{ChangeModel, FieldModel, SyncOp};
use crate::loader::{
    answered_version, backfill_fits, backfill_model, backfill_models, backfill_plan_model, cell_at,
    first_index, highest, is_backfilled_over, keys_of_rows, lemma_first_index, lemma_highest,
    payload_value, plan_fits, row_change, row_payload, stamped_keys, versions_answered,
};
use crate::model::{
    applied, ascending, backfilled, cell_of, concat, has_one_row_per_key, is_chain, is_legacy,
    is_page, is_reached, is_token, lookup_rows, record_cells, write_value, written_record, Record,
    Table,
};
use crate::protocol::{
    after_allocations, applied_outcome, eligible_count, is_push, next_version_model, step_fits,
    written, StepOutcome,
};
use crate::registry::{
    created_at_column, deleted_at_column, is_sync_table, lemma_bookkeeping_columns_differ,
    schema_of, table_names, updated_at_column, version_column, Schema,
};
use crate::statement::SqlModel;
use crate::store::{Answer, Call, Exchange};
use crate::text::{lemma_bytes_ge_reflexive, lemma_bytes_ge_total, text_ge};
use vstd::prelude::*;
use vstd::utf8::encode_utf8;

verus! {

/// A write names a column exactly if the table has it and it is not
/// `created_at`.
pub proof fn lemma_write_columns(schema: Schema, column: Seq<char>)
    ensures
        write_columns(schema).contains(column) <==> schema.columns.contains(column) && column
            != created_at_column(),
{
    lemma_without_name(schema.columns, created_at_column(), column);
}

/// The record that a write leaves holds, in each column that the write
/// names, the value that the write has for it.
pub proof fn lemma_written_value(
    schema: Schema,
    change: ChangeModel,
    key: Seq<char>,
    version: i64,
    now: Seq<char>,
    column: Seq<char>,
)
    requires
        write_model(schema, change, key, version, now) is Some,
        write_columns(schema).contains(column),
    ensures
        written_record(
            write_columns(schema),
            write_model(schema, change, key, version, now)->0.params,
        ).contains_key(column),
        written_record(
            write_columns(schema),
            write_model(schema, change, key, version, now)->0.params,
        )[column] == write_value(schema, change, key, version, now, column),
{
    let columns = write_columns(schema);
    lemma_first_index(columns, column);
    let i = first_index(columns, column);
    assert(columns[i] == column);
    if change.op == SyncOp::Upsert {
        assert(upsert_value(schema, columns[i], change, key, version) is Some);
    }
}

/// Whether a change can be written does not depend on the version or the
/// time that it is written under.
pub proof fn lemma_write_needs_no_version(
    schema: Schema,
    change: ChangeModel,
    key: Seq<char>,
    v1: i64,
    now1: Seq<char>,
    v2: i64,
    now2: Seq<char>,
)
    ensures
        write_model(schema, change, key, v1, now1) is Some <==> write_model(
            schema,
            change,
            key,
            v2,
            now2,
        ) is Some,
{
    let columns = write_columns(schema);
    if upsert_is_complete(schema, change, key, v1) {
        assert forall|i: int| 0 <= i < columns.len() implies (#[trigger] upsert_value(
            schema,
            columns[i],
            change,
            key,
            v2,
        )) is Some by {
            assert(upsert_value(schema, columns[i], change, key, v1) is Some);
        }
    }
    if upsert_is_complete(schema, change, key, v2) {
        assert forall|i: int| 0 <= i < columns.len() implies (#[trigger] upsert_value(
            schema,
            columns[i],
            change,
            key,
            v1,
        )) is Some by {
            assert(upsert_value(schema, columns[i], change, key, v2) is Some);
        }
    }
}

/// A written record carries the time of the change that wrote it.
pub proof fn lemma_written_stamp(
    schema: Schema,
    change: ChangeModel,
    key: Seq<char>,
    version: i64,
    now: Seq<char>,
)
    requires
        schema.well_formed(),
        write_model(schema, change, key, version, now) is Some,
    ensures
        cell_of(
            written_record(
                write_columns(schema),
                write_model(schema, change, key, version, now)->0.params,
            ),
            updated_at_column(),
        ) == SqlModel::Text(change.updated_at),
{
    lemma_bookkeeping_columns_differ();
    lemma_write_columns(schema, updated_at_column());
    lemma_written_value(schema, change, key, version, now, updated_at_column());
}

/// Idempotence. Applying a change a second time writes nothing: the table
/// stays as the first application left it, with the record's version and
/// time. This holds whether or not the first application wrote.
pub proof fn law_apply_is_idempotent(
    schema: Schema,
    table: Table,
    change: ChangeModel,
    v1: i64,
    now1: Seq<char>,
    v2: i64,
    now2: Seq<char>,
)
    requires
        schema.well_formed(),
    ensures
        !applied(schema, applied(schema, table, change, v1, now1).0, change, v2, now2).1,
        applied(schema, applied(schema, table, change, v1, now1).0, change, v2, now2).0 == applied(
            schema,
            table,
            change,
            v1,
            now1,
        ).0,
{
    let first = applied(schema, table, change, v1, now1);
    if change_key(schema, change) is Some {
        let key = change_key(schema, change)->0;
        if first.1 {
            lemma_written_stamp(schema, change, key, v1, now1);
            lemma_bytes_ge_reflexive(encode_utf8(change.updated_at));
            assert(first.0.contains_key(key));
            assert(lookup_rows(first.0, key)[0][0] == SqlModel::Text(change.updated_at));
            assert(stored_stamp_model(lookup_rows(first.0, key)) == Ok::<
                Option<Seq<char>>,
                crate::error::SyncError,
            >(Some(change.updated_at)));
        } else {
            lemma_write_needs_no_version(schema, change, key, v1, now1, v2, now2);
        }
    }
}

/// Last writer wins. Of two changes to one record the later one stays,
/// whichever is applied first, provided the later one can be written to the
/// table as it stands. In both orders the record then holds what the later
/// change writes, under the version that the later change was given.
pub proof fn law_last_writer_wins(
    schema: Schema,
    table: Table,
    early: ChangeModel,
    late: ChangeModel,
    v1: i64,
    v2: i64,
    now_early: Seq<char>,
    now_late: Seq<char>,
)
    requires
        schema.well_formed(),
        change_key(schema, early) is Some,
        change_key(schema, early) == change_key(schema, late),
        !text_ge(early.updated_at, late.updated_at),
        applied(schema, table, late, v1, now_late).1,
    ensures
        ({
            let key = change_key(schema, late)->0;
            let first = applied(schema, table, early, v1, now_early);
            let then = applied(schema, first.0, late, v2, now_late);
            then.1 && then.0[key] == written_record(
                write_columns(schema),
                write_model(schema, late, key, v2, now_late)->0.params,
            )
        }),
        ({
            let key = change_key(schema, late)->0;
            let first = applied(schema, table, late, v1, now_late);
            let then = applied(schema, first.0, early, v2, now_early);
            !then.1 && then.0[key] == written_record(
                write_columns(schema),
                write_model(schema, late, key, v1, now_late)->0.params,
            )
        }),
{
    let key = change_key(schema, late)->0;
    lemma_write_needs_no_version(schema, late, key, v1, now_late, v2, now_late);
    let first = applied(schema, table, early, v1, now_early);
    if first.1 {
        lemma_written_stamp(schema, early, key, v1, now_early);
        assert(lookup_rows(first.0, key)[0][0] == SqlModel::Text(early.updated_at));
    }
    let other = applied(schema, table, late, v1, now_late);
    lemma_written_stamp(schema, late, key, v1, now_late);
    assert(lookup_rows(other.0, key)[0][0] == SqlModel::Text(late.updated_at));
    lemma_bytes_ge_total(encode_utf8(early.updated_at), encode_utf8(late.updated_at));
}

/// Nothing is ever removed: a table that has a record still has it after any
/// change was applied.
pub proof fn law_records_stay(
    schema: Schema,
    table: Table,
    change: ChangeModel,
    version: i64,
    now: Seq<char>,
    key: Seq<char>,
)
    requires
        table.contains_key(key),
    ensures
        applied(schema, table, change, version, now).0.contains_key(key),
{
}

/// The payload that a page builds from a record holds every replicated
/// column of the table with the record's value for it.
pub proof fn lemma_row_payload(
    schema: Schema,
    record: Record,
    n: nat,
    version: i64,
    updated_at: Seq<char>,
    deleted_at: Option<Seq<char>>,
    column: Seq<char>,
)
    requires
        n <= schema.columns.len(),
        schema.columns.take(n as int).contains(column),
        column != created_at_column(),
    ensures
        row_payload(
            schema,
            record_cells(schema, record),
            n,
            version,
            updated_at,
            deleted_at,
        ).contains_key(column),
        row_payload(schema, record_cells(schema, record), n, version, updated_at, deleted_at)[column]
            == payload_value(column, cell_of(record, column), version, updated_at, deleted_at),
    decreases n,
{
    let head = schema.columns.take(n as int);
    let i = choose|i: int| 0 <= i < head.len() && head[i] == column;
    if schema.columns[n - 1] != column {
        assert(i < n - 1);
        assert(schema.columns.take(n - 1)[i] == column);
        lemma_row_payload(
            schema,
            record,
            (n - 1) as nat,
            version,
            updated_at,
            deleted_at,
            column,
        );
    }
}

/// What was written comes back. The row that a written change leaves stands,
/// in a later page, for a change of the same kind to the same record, with
/// the version that it was written under and the time of the change.
pub proof fn law_written_change_comes_back(
    schema: Schema,
    table: Table,
    change: ChangeModel,
    version: i64,
    now: Seq<char>,
    later_now: Seq<char>,
)
    requires
        schema.well_formed(),
        applied(schema, table, change, version, now).1,
    ensures
        ({
            let key = change_key(schema, change)->0;
            let after = applied(schema, table, change, version, now).0;
            let read = row_change(
                schema,
                schema.table,
                record_cells(schema, after[key]),
                later_now,
            );
            &&& after.contains_key(key)
            &&& read is Ok && read->Ok_0 is Some
            &&& (read->Ok_0->0).op == change.op
            &&& (read->Ok_0->0).version == version
            &&& (read->Ok_0->0).updated_at == change.updated_at
            &&& (read->Ok_0->0).data[schema.key] == FieldModel::Text(key)
        }),
{
    let key = change_key(schema, change)->0;
    let after = applied(schema, table, change, version, now).0;
    let record = after[key];
    let cells = record_cells(schema, record);
    lemma_bookkeeping_columns_differ();
    lemma_write_columns(schema, version_column());
    lemma_write_columns(schema, updated_at_column());
    lemma_write_columns(schema, deleted_at_column());
    lemma_write_columns(schema, schema.key);
    lemma_written_value(schema, change, key, version, now, version_column());
    lemma_written_value(schema, change, key, version, now, updated_at_column());
    lemma_written_value(schema, change, key, version, now, deleted_at_column());
    lemma_written_value(schema, change, key, version, now, schema.key);
    lemma_first_index(schema.columns, version_column());
    lemma_first_index(schema.columns, updated_at_column());
    lemma_first_index(schema.columns, deleted_at_column());
    let deleted_at = match cell_at(cells, first_index(schema.columns, deleted_at_column())) {
        SqlModel::Text(t) => Some(t),
        _ => None,
    };
    assert(schema.columns.take(schema.columns.len() as int) =~= schema.columns);
    lemma_row_payload(
        schema,
        record,
        schema.columns.len(),
        version,
        change.updated_at,
        deleted_at,
        schema.key,
    );
}

/// Tombstone permanence. After a deletion was written, the record is still
/// in the table, and its row stands for a deletion under the new version: a
/// page that reaches this version hands the deletion on.
pub proof fn law_tombstone_stays(
    schema: Schema,
    table: Table,
    change: ChangeModel,
    version: i64,
    now: Seq<char>,
    later_now: Seq<char>,
)
    requires
        schema.well_formed(),
        change.op == SyncOp::Delete,
        applied(schema, table, change, version, now).1,
    ensures
        ({
            let key = change_key(schema, change)->0;
            let after = applied(schema, table, change, version, now).0;
            let read = row_change(
                schema,
                schema.table,
                record_cells(schema, after[key]),
                later_now,
            );
            &&& after.contains_key(key)
            &&& read is Ok && read->Ok_0 is Some
            &&& (read->Ok_0->0).op == SyncOp::Delete
            &&& (read->Ok_0->0).version == version
            &&& (read->Ok_0->0).deleted_at is Some
        }),
{
    law_written_change_comes_back(schema, table, change, version, now, later_now);
}

/// What a backfill does to the records of a table: it adds and removes none,
/// leaves alone those that it does not name, and gives each that it names a
/// version above zero.
pub proof fn lemma_backfilled(
    schema: Schema,
    name: Seq<char>,
    table: Table,
    base: i64,
    records: Seq<(Seq<char>, Seq<char>)>,
    key: Seq<char>,
)
    requires
        base >= 0,
        base + records.len() <= i64::MAX,
    ensures
        backfilled(table, backfill_models(schema, name, base, records)).contains_key(key)
            <==> table.contains_key(key),
        (forall|i: int| 0 <= i < records.len() ==> (#[trigger] records[i]).0 != key)
            ==> backfilled(table, backfill_models(schema, name, base, records))[key] == table[key],
        table.contains_key(key) && (exists|i: int|
            0 <= i < records.len() && (#[trigger] records[i]).0 == key) ==> !is_legacy(
            backfilled(table, backfill_models(schema, name, base, records))[key],
        ),
        table.contains_key(key) && !is_legacy(table[key]) ==> !is_legacy(
            backfilled(table, backfill_models(schema, name, base, records))[key],
        ),
    decreases records.len(),
{
    lemma_bookkeeping_columns_differ();
    if records.len() > 0 {
        let head = records.drop_last();
        lemma_backfilled(schema, name, table, base, head, key);
        assert(backfill_models(schema, name, base, records).drop_last() =~= backfill_models(
            schema,
            name,
            base,
            head,
        ));
        if forall|i: int| 0 <= i < records.len() ==> (#[trigger] records[i]).0 != key {
            assert(records.last().0 != key);
            assert forall|i: int| 0 <= i < head.len() implies (#[trigger] head[i]).0 != key by {
                assert(head[i] == records[i]);
            }
        }
        if table.contains_key(key) && records.last().0 != key && exists|i: int|
            0 <= i < records.len() && (#[trigger] records[i]).0 == key {
            let i = choose|i: int| 0 <= i < records.len() && (#[trigger] records[i]).0 == key;
            assert(head[i].0 == key);
        }
    }
}

/// Idempotence, at the store. Where the store answers the lookup with the
/// time that the change itself carries, as it does once the change was
/// written, applying the change is the lookup and nothing else: the change
/// is not written again, whatever version it is offered.
pub proof fn law_reapplied_change_is_not_written(
    step: Seq<Exchange>,
    table: Seq<char>,
    change: ChangeModel,
    version: i64,
    outcome: Result<bool, SyncError>,
)
    requires
        is_sync_table(table),
        change_key(schema_of(table), change) is Some,
        fits_outcome(step, table, change, version, outcome),
        step[0].answer == Answer::Rows(seq![seq![SqlModel::Text(change.updated_at)]]),
    ensures
        outcome == Ok::<bool, SyncError>(false),
        step.len() == 1,
{
    let rows = seq![seq![SqlModel::Text(change.updated_at)]];
    assert(is_planned_over(step, table, change, version, rows, outcome));
    let now = choose|now: Seq<char>|
        fits_plan(
            step,
            #[trigger] apply_model(schema_of(table), change, rows, version, now),
            outcome,
        );
    lemma_bytes_ge_reflexive(encode_utf8(change.updated_at));
    assert(rows[0][0] == SqlModel::Text(change.updated_at));
    assert(stored_stamp_model(rows) == Ok::<Option<Seq<char>>, SyncError>(
        Some(change.updated_at),
    ));
}

/// Whether exchanges are the accepted executions that stamp the given keys,
/// in their order, with the versions that follow `base` and with one time.
pub open spec fn is_stamped(
    run: Seq<Exchange>,
    schema: Schema,
    table: Seq<char>,
    base: i64,
    keys: Seq<Seq<char>>,
    now: Seq<char>,
) -> bool {
    &&& run.len() == keys.len()
    &&& forall|i: int|
        0 <= i < keys.len() ==> (#[trigger] run[i]).call == Call::Execute(
            backfill_model(schema, table, (base + 1 + i) as i64, now, keys[i]),
        ) && run[i].answer is Accepted
}

/// What a backfill that succeeded has done, by the store's own answers. The
/// store was asked for its highest versions and for the keys that wait; then
/// one statement was executed and accepted for each key that it yielded, in
/// the order in which it yielded them, under the versions that follow the
/// highest version it answered, all stamped with one time. That base is not
/// below any version that the store answered.
pub proof fn law_backfill_stamps_what_was_yielded(
    run: Seq<Exchange>,
    schema: Schema,
    table: Seq<char>,
    rows: Seq<Seq<SqlModel>>,
    keys: Seq<Seq<char>>,
)
    requires
        backfill_fits(run, schema, table, Ok::<(), SyncError>(())),
        run[table_names().len() as int].answer == Answer::Rows(rows),
        keys_of_rows(rows) == keys,
    ensures
        run.len() == table_names().len() + 1 + keys.len(),
        highest(versions_answered(run.take(table_names().len() as int))) + keys.len() <= i64::MAX,
        forall|i: int|
            0 <= i < table_names().len() ==> highest(
                versions_answered(run.take(table_names().len() as int)),
            ) >= answered_version(#[trigger] run[i].answer),
        exists|now: Seq<char>| #[trigger]
            is_stamped(
                run.skip(table_names().len() as int + 1),
                schema,
                table,
                highest(versions_answered(run.take(table_names().len() as int))),
                keys,
                now,
            ),
{
    let n = table_names().len() as int;
    let round = run.take(n);
    let base = highest(versions_answered(round));
    let tail = run.skip(n + 1);
    assert(is_backfilled_over(tail, schema, table, base, rows, Ok::<(), SyncError>(())));
    let now = choose|now: Seq<char>|
        plan_fits(
            tail,
            #[trigger] backfill_plan_model(schema, table, base, keys_of_rows(rows), now),
            Ok::<(), SyncError>(()),
        );
    lemma_highest(versions_answered(round));
    assert forall|i: int| 0 <= i < n implies base >= answered_version(
        #[trigger] run[i].answer,
    ) by {
        assert(versions_answered(round)[i] == answered_version(run[i].answer));
    }
    assert forall|i: int| 0 <= i < keys.len() implies (#[trigger] tail[i]).call == Call::Execute(
        backfill_model(schema, table, (base + 1 + i) as i64, now, keys[i]),
    ) && tail[i].answer is Accepted by {
        assert(stamped_keys(keys, now)[i] == (keys[i], now));
        if i == tail.len() - 1 {
            assert(tail.last() == tail[i]);
        }
    }
    assert(is_stamped(tail, schema, table, base, keys, now));
}

/// A backfill with nothing waiting writes nothing. Where the store yields no
/// key, as it does once every waiting record was given its version, the
/// backfill ends after its queries and succeeds: a second run is a no-op.
pub proof fn law_backfill_with_nothing_waiting_writes_nothing(
    run: Seq<Exchange>,
    schema: Schema,
    table: Seq<char>,
    outcome: Result<(), SyncError>,
)
    requires
        backfill_fits(run, schema, table, outcome),
        run[table_names().len() as int].answer == Answer::Rows(Seq::<Seq<SqlModel>>::empty()),
    ensures
        outcome is Ok,
        run.len() == table_names().len() + 1,
{
    let n = table_names().len() as int;
    let rows = Seq::<Seq<SqlModel>>::empty();
    let base = highest(versions_answered(run.take(n)));
    assert(is_backfilled_over(run.skip(n + 1), schema, table, base, rows, outcome));
    let now = choose|now: Seq<char>|
        plan_fits(
            run.skip(n + 1),
            #[trigger] backfill_plan_model(schema, table, base, keys_of_rows(rows), now),
            outcome,
        );
    assert(keys_of_rows(rows) =~= Seq::<Seq<char>>::empty());
}

/// How many of the exchanges are executions that the store accepted.
pub open spec fn accepted(run: Seq<Exchange>) -> nat
    decreases run.len(),
{
    if run.len() == 0 {
        0
    } else {
        accepted(run.drop_last()) + if run.last().call is Execute && run.last().answer
            is Accepted {
            1nat
        } else {
            0nat
        }
    }
}

/// The accepted executions of a record are those of its head and those of
/// its tail.
pub proof fn lemma_accepted_of_both(run: Seq<Exchange>, k: int)
    requires
        0 <= k <= run.len(),
    ensures
        accepted(run) == accepted(run.take(k)) + accepted(run.skip(k)),
    decreases run.len() - k,
{
    if k == run.len() {
        assert(run.take(k) =~= run);
        assert(run.skip(k).len() == 0);
    } else {
        assert(run.drop_last().take(k) =~= run.take(k));
        assert(run.drop_last().skip(k) =~= run.skip(k).drop_last());
        assert(run.skip(k).last() == run.last());
        lemma_accepted_of_both(run.drop_last(), k);
    }
}

/// A change counts as written exactly where the store accepted an execution
/// while it was applied; and it accepted at most one.
pub proof fn law_written_means_accepted(
    step: Seq<Exchange>,
    table: Seq<char>,
    change: ChangeModel,
    version: i64,
    outcome: Result<bool, SyncError>,
)
    requires
        fits_outcome(step, table, change, version, outcome),
    ensures
        outcome == Ok::<bool, SyncError>(true) <==> accepted(step) == 1,
        accepted(step) <= 1,
{
    if step.len() > 0 {
        let first = step.drop_last();
        assert(step[0].call is Query);
        if step[0].answer is Rows {
            let rows = step[0].answer->Rows_0;
            assert(is_planned_over(step, table, change, version, rows, outcome));
            let now = choose|now: Seq<char>|
                fits_plan(
                    step,
                    #[trigger] apply_model(schema_of(table), change, rows, version, now),
                    outcome,
                );
            assert(step.len() == 1 || step.len() == 2);
        } else {
            assert(step.len() == 1);
        }
        if step.len() == 1 {
            assert(first.len() == 0);
            assert(accepted(first) == 0);
            assert(step.last() == step[0]);
        } else {
            assert(first.len() == 1);
            assert(first.drop_last().len() == 0);
            assert(accepted(first.drop_last()) == 0);
            assert(first.last() == step[0]);
            assert(accepted(first) == 0);
            assert(step.last() == step[1]);
        }
    }
}

/// A push counts what the store accepted. While the changes of a push take
/// their steps, the number of changes that count as written is the number of
/// executions that the store accepted: the count is fixed by the store's
/// answers.
pub proof fn law_push_counts_what_is_accepted(
    run: Seq<Exchange>,
    table: Option<Seq<char>>,
    changes: Seq<ChangeModel>,
    counter: i64,
    outcomes: Seq<StepOutcome>,
)
    requires
        is_push(run, table, changes, counter, outcomes),
    ensures
        written(outcomes) == accepted(run),
    decreases changes.len(),
{
    if changes.len() > 0 {
        let earlier = changes.drop_last();
        let change = changes.last();
        let reached = after_allocations(counter, eligible_count(table, earlier));
        let k = choose|k: int|
            0 <= k <= run.len() && is_push(run.take(k), table, earlier, counter, outcomes.drop_last())
                && #[trigger] step_fits(run.skip(k), table, change, reached, outcomes.last());
        law_push_counts_what_is_accepted(run.take(k), table, earlier, counter, outcomes.drop_last());
        lemma_accepted_of_both(run, k);
        if applied_outcome(outcomes.last()) is Some {
            law_written_means_accepted(
                run.skip(k),
                change.table,
                change,
                (reached + 1) as i64,
                applied_outcome(outcomes.last())->0,
            );
        } else {
            assert(accepted(run.skip(k)) == 0);
        }
    }
}

/// The backfill is idempotent. After the statements that a backfill owes for
/// keys which name every record that waited for its first version, no record
/// waits any more: a second backfill finds nothing to do. No record is added
/// or removed.
pub proof fn law_backfill_leaves_nothing_to_do(
    schema: Schema,
    name: Seq<char>,
    table: Table,
    base: i64,
    keys: Seq<Seq<char>>,
    now: Seq<char>,
)
    requires
        base >= 0,
        base + keys.len() <= i64::MAX,
        forall|key: Seq<char>|
            table.contains_key(key) && is_legacy(#[trigger] table[key]) ==> keys.contains(key),
    ensures
        backfill_plan_model(schema, name, base, keys, now) is Ok,
        forall|key: Seq<char>|
            table.contains_key(key) ==> !is_legacy(
                #[trigger] backfilled(
                    table,
                    backfill_plan_model(schema, name, base, keys, now)->Ok_0,
                )[key],
            ),
        forall|key: Seq<char>| #[trigger]
            backfilled(
                table,
                backfill_plan_model(schema, name, base, keys, now)->Ok_0,
            ).contains_key(key) <==> table.contains_key(key),
{
    let records = stamped_keys(keys, now);
    let statements = backfill_models(schema, name, base, records);
    assert forall|key: Seq<char>| table.contains_key(key) implies !is_legacy(
        #[trigger] backfilled(table, statements)[key],
    ) by {
        lemma_backfilled(schema, name, table, base, records, key);
        if is_legacy(table[key]) {
            let i = choose|i: int| 0 <= i < keys.len() && keys[i] == key;
            assert(records[i].0 == key);
        }
    }
    assert forall|key: Seq<char>| #[trigger]
        backfilled(table, statements).contains_key(key) <==> table.contains_key(key) by {
        lemma_backfilled(schema, name, table, base, records, key);
    }
}

/// Monotonic pagination, first half. The pages of a pull that goes on from
/// each continuation token, put together, ascend strictly: no change occurs
/// twice, and all of them lie above the version that the pull started from.
pub proof fn law_pages_ascend(
    log: Seq<ChangeModel>,
    since: i64,
    limit: usize,
    pages: Seq<Seq<ChangeModel>>,
)
    requires
        is_chain(log, since, limit, pages),
    ensures
        ascending(concat(pages)),
        forall|i: int|
            0 <= i < concat(pages).len() ==> (#[trigger] concat(pages)[i]).version > since,
    decreases pages.len(),
{
    if pages.len() > 0 {
        let first = pages[0];
        let rest = concat(pages.drop_first());
        let both = first + rest;
        if pages.len() > 1 {
            let next = next_version_model(first, limit)->0;
            law_pages_ascend(log, next, limit, pages.drop_first());
            assert forall|i: int, j: int| 0 <= i < j < both.len() implies (
            #[trigger] both[i]).version < (#[trigger] both[j]).version by {
                if j < first.len() {
                    assert(both[i] == first[i] && both[j] == first[j]);
                } else if i >= first.len() {
                    assert(both[i] == rest[i - first.len()] && both[j] == rest[j - first.len()]);
                } else {
                    assert(both[i] == first[i] && both[j] == rest[j - first.len()]);
                    assert(first[i].version <= first.last().version) by {
                        if i < first.len() - 1 {
                            assert(first[i].version < first[first.len() - 1].version);
                        }
                    }
                    assert(rest[j - first.len()].version > next);
                }
            }
            assert forall|i: int| 0 <= i < both.len() implies (#[trigger] both[i]).version
                > since by {
                if i < first.len() {
                    assert(both[i] == first[i]);
                } else {
                    assert(both[i] == rest[i - first.len()]);
                }
            }
        } else {
            assert(pages.drop_first().len() == 0);
            assert(both =~= first);
        }
    }
}

/// Monotonic pagination, second half. The pages of a pull leave out no
/// change of the table between the version that the pull started from and
/// the end of its last page, but for a change whose version is itself one of
/// the pull's continuation tokens.
pub proof fn law_pages_leave_no_gap(
    log: Seq<ChangeModel>,
    since: i64,
    limit: usize,
    pages: Seq<Seq<ChangeModel>>,
    j: int,
)
    requires
        is_chain(log, since, limit, pages),
        0 <= j < log.len(),
        log[j].version > since,
        !is_token(pages, limit, log[j].version),
        is_reached(pages, limit, log[j].version),
    ensures
        concat(pages).contains(log[j]),
    decreases pages.len(),
{
    let first = pages[0];
    let rest = concat(pages.drop_first());
    let both = first + rest;
    if pages.len() > 1 {
        let next = next_version_model(first, limit)->0;
        if log[j].version < next {
            assert(first.contains(log[j]));
            let k = choose|k: int| 0 <= k < first.len() && first[k] == log[j];
            assert(both[k] == log[j]);
        } else {
            assert(pages.drop_first().last() == pages.last());
            law_pages_leave_no_gap(log, next, limit, pages.drop_first(), j);
            let k = choose|k: int| 0 <= k < rest.len() && rest[k] == log[j];
            assert(both[first.len() + k] == log[j]);
        }
    } else {
        assert(pages.last() == first);
        assert(first.contains(log[j]));
        let k = choose|k: int| 0 <= k < first.len() && first[k] == log[j];
        assert(both[k] == log[j]);
    }
}

/// A page without a continuation token is the last: it holds every change of
/// the table above its start.
pub proof fn law_last_page_drains(
    log: Seq<ChangeModel>,
    since: i64,
    limit: usize,
    page: Seq<ChangeModel>,
)
    requires
        limit > 0,
        is_page(log, since, limit, page),
        next_version_model(page, limit) is None,
    ensures
        forall|j: int|
            0 <= j < log.len() && (#[trigger] log[j]).version > since ==> page.contains(log[j]),
{
}

/// Every change of the pages of a pull is a change of the table.
pub proof fn lemma_pages_come_from_the_table(
    log: Seq<ChangeModel>,
    since: i64,
    limit: usize,
    pages: Seq<Seq<ChangeModel>>,
)
    requires
        is_chain(log, since, limit, pages),
    ensures
        forall|i: int| 0 <= i < concat(pages).len() ==> log.contains(#[trigger] concat(pages)[i]),
    decreases pages.len(),
{
    if pages.len() > 0 {
        let first = pages[0];
        let rest = concat(pages.drop_first());
        if pages.len() > 1 {
            lemma_pages_come_from_the_table(
                log,
                next_version_model(first, limit)->0,
                limit,
                pages.drop_first(),
            );
        } else {
            assert(pages.drop_first().len() == 0);
        }
        assert forall|i: int| 0 <= i < concat(pages).len() implies log.contains(
            #[trigger] concat(pages)[i],
        ) by {
            if i < first.len() {
                assert(concat(pages)[i] == first[i]);
            } else {
                assert(concat(pages)[i] == rest[i - first.len()]);
            }
        }
    }
}

/// Monotonic pagination, no record twice. Where the table holds one row for
/// each key, the pages of a pull hold no key twice.
pub proof fn law_pages_hold_no_key_twice(
    log: Seq<ChangeModel>,
    key: Seq<char>,
    since: i64,
    limit: usize,
    pages: Seq<Seq<ChangeModel>>,
)
    requires
        is_chain(log, since, limit, pages),
        has_one_row_per_key(log, key),
    ensures
        forall|a: int, b: int|
            0 <= a < b < concat(pages).len() ==> (#[trigger] concat(pages)[a]).data[key] != (
            #[trigger] concat(pages)[b]).data[key],
{
    law_pages_ascend(log, since, limit, pages);
    lemma_pages_come_from_the_table(log, since, limit, pages);
    let all = concat(pages);
    assert forall|a: int, b: int| 0 <= a < b < all.len() implies (#[trigger] all[a]).data[key] != (
    #[trigger] all[b]).data[key] by {
        assert(log.contains(all[a]));
        assert(log.contains(all[b]));
        let i = choose|i: int| 0 <= i < log.len() && log[i] == all[a];
        let j = choose|j: int| 0 <= j < log.len() && log[j] == all[b];
        assert(all[a].version < all[b].version);
        assert(i != j);
        if i < j {
            assert(log[i].data[key] != log[j].data[key]);
        } else {
            assert(log[j].data[key] != log[i].data[key]);
        }
    }
}

/// Tombstone permanence, in the page. Where the table holds one row for each
/// key, a page that starts below a change of the table and reaches it holds
/// that change, and holds no other change for the same key: a deletion is
/// pulled as the one change of its record.
pub proof fn law_page_holds_a_record_once(
    log: Seq<ChangeModel>,
    key: Seq<char>,
    since: i64,
    limit: usize,
    page: Seq<ChangeModel>,
    at: int,
)
    requires
        is_page(log, since, limit, page),
        has_one_row_per_key(log, key),
        0 <= at < log.len(),
        log[at].version > since,
        page.len() < limit || log[at].version <= page.last().version,
    ensures
        page.contains(log[at]),
        forall|i: int|
            0 <= i < page.len() && (#[trigger] page[i]).data[key] == log[at].data[key] ==> page[i]
                == log[at],
{
    assert forall|i: int|
        0 <= i < page.len() && (#[trigger] page[i]).data[key] == log[at].data[key] implies page[i]
        == log[at] by {
        assert(log.contains(page[i]));
        let j = choose|j: int| 0 <= j < log.len() && log[j] == page[i];
        if j < at {
            assert(log[j].data[key] != log[at].data[key]);
        } else if at < j {
            assert(log[at].data[key] != log[j].data[key]);
        }
    }
}

} // verus!
