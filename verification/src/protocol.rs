//! The three requests of the synchronisation protocol: the replication
//! position, a pull of one page of changes, and a push of a batch of changes.

use crate::applier::{apply_table_change, fits_outcome};
use crate::change::{change_models, optional_text, ChangeModel, SyncChange};
use crate::error::SyncError;
use crate::loader::{
    highest, is_version_round, load_fits, load_table_changes, max_version_all_tables, page_size,
    versions_answered, MAX_PAGE,
};
use crate::registry::{get_table_config, is_sync_table, table_names};
use crate::store::{added, grows, Exchange, Store};
use crate::text::same_text;
use crate::version::{later, VersionCounter};
use vstd::prelude::*;

verus! {

/// The page size of a pull that names none.
pub const DEFAULT_PAGE: usize = 500;

/// Whether a request may be served: its authorization header holds the
/// shared secret, bare or after the word `Bearer` and one space.
pub open spec fn authorized(header: Option<Seq<char>>, token: Seq<char>) -> bool {
    header is Some && (header->0 == token || header->0 == "Bearer "@ + token)
}

/// Checks a request's authorization header against the shared secret.
pub fn check_auth(header: Option<&str>, token: &str) -> (r: bool)
    ensures
        r == authorized(
            match header {
                Some(h) => Some(h@),
                None => None,
            },
            token@,
        ),
{
    match header {
        None => false,
        Some(value) => {
            if same_text(value, token) {
                true
            } else {
                let mut with_prefix = "Bearer ".to_owned();
                with_prefix.append(token);
                same_text(value, with_prefix.as_str())
            }
        },
    }
}

/// The answer to a request for the replication position.
#[derive(Clone, Debug, PartialEq, Eq)]
pub struct SyncStateData {
    /// The server's current version.
    pub version: i64,
    /// The build of the server's software.
    pub server_version: String,
    /// Whether the server is paired with a peer.
    pub paired: bool,
}

/// Answers a request for the replication position: the counter's value, once
/// it has been raised to the highest version that the store holds. The store
/// is asked for the highest version of every replicated table.
pub fn sync_state(store: &mut Store, counter: &mut VersionCounter, build: &str) -> (r: SyncStateData)
    ensures
        grows(old(store).log(), final(store).log()),
        is_version_round(added(old(store).log(), final(store).log())),
        final(counter).value() == later(
            old(counter).value(),
            highest(versions_answered(added(old(store).log(), final(store).log()))),
        ),
        final(store).link() == old(store).link(),
        r.version == final(counter).value(),
        r.server_version@ == build@,
        r.paired,
{
    let observed = max_version_all_tables(store);
    counter.advance_to(observed);
    SyncStateData {
        version: counter.current_version(),
        server_version: build.to_owned(),
        paired: true,
    }
}

/// What a pull asks for.
#[derive(Clone, Debug, PartialEq, Eq)]
pub struct PullQuery {
    /// The table; `notes` where none is named.
    pub table: Option<String>,
    /// The version after which changes are wanted; zero where none is named.
    pub since_version: Option<i64>,
    /// The most changes wanted; five hundred where none is named.
    pub limit: Option<usize>,
}

/// The answer to a pull.
#[derive(Clone, Debug, PartialEq, Eq)]
pub struct PullResponse {
    /// The changes of the page, in ascending order of version.
    pub changes: Vec<SyncChange>,
    /// Where the next page starts, if this one is full.
    pub next_version: Option<i64>,
    /// The server's current version.
    pub server_version: i64,
}

/// The table that a pull is about.
pub open spec fn pull_table(table: Option<String>) -> Seq<char> {
    match table {
        Some(t) => t@,
        None => "notes"@,
    }
}

/// The version after which a pull wants changes.
pub open spec fn pull_since(since_version: Option<i64>) -> i64 {
    match since_version {
        Some(v) => v,
        None => 0,
    }
}

/// The size of the page that a pull gets.
pub open spec fn pull_limit(limit: Option<usize>) -> usize {
    match limit {
        Some(n) => page_size(n),
        None => DEFAULT_PAGE,
    }
}

/// Whether the exchanges with the store during a pull, the counter and the
/// outcome fit together. The page is loaded first. Where that fails, its
/// error is the outcome and the counter stays. Else the store is asked for
/// the highest version of every replicated table, the counter is raised to
/// the highest of them, and the answer holds the page, the counter's value
/// and the start of the next page.
pub open spec fn pull_fits(
    run: Seq<Exchange>,
    table: Seq<char>,
    since_version: i64,
    limit: usize,
    before: i64,
    after: i64,
    outcome: Result<PullResponse, SyncError>,
) -> bool {
    match outcome {
        Err(e) => after == before && load_fits(
            run,
            table,
            since_version,
            limit,
            Err::<Vec<SyncChange>, SyncError>(e),
        ),
        Ok(response) => {
            let k = run.len() - table_names().len();
            &&& k >= 0
            &&& load_fits(
                run.take(k),
                table,
                since_version,
                limit,
                Ok::<Vec<SyncChange>, SyncError>(response.changes),
            )
            &&& is_version_round(run.skip(k))
            &&& after == later(before, highest(versions_answered(run.skip(k))))
            &&& response.server_version == after
            &&& response.next_version == next_version_model(
                change_models(response.changes@),
                limit,
            )
        },
    }
}

/// Where the page after this one starts: one above the last change's version
/// if the page is full, and nowhere if it is not, or if no version lies above.
pub open spec fn next_version_model(changes: Seq<ChangeModel>, limit: usize) -> Option<i64> {
    if changes.len() >= limit && changes.len() > 0 && changes.last().version < i64::MAX {
        Some((changes.last().version + 1) as i64)
    } else {
        None
    }
}

/// Where the page after this one starts.
pub fn next_version(changes: &Vec<SyncChange>, limit: usize) -> (r: Option<i64>)
    ensures
        r == next_version_model(change_models(changes@), limit),
{
    if changes.len() >= limit && changes.len() > 0 {
        let last = changes[changes.len() - 1].version;
        if last < i64::MAX {
            Some(last + 1)
        } else {
            None
        }
    } else {
        None
    }
}

/// Answers a pull: one page of a table's changes, the start of the next page
/// if this one is full, and the counter's value once it has been raised to
/// the highest version that the store holds.
///
/// Where the store fails, the counter stays as it was.
pub fn sync_pull(store: &mut Store, counter: &mut VersionCounter, query: &PullQuery) -> (r: Result<
    PullResponse,
    SyncError,
>)
    ensures
        grows(old(store).log(), final(store).log()),
        pull_fits(
            added(old(store).log(), final(store).log()),
            pull_table(query.table),
            pull_since(query.since_version),
            pull_limit(query.limit),
            old(counter).value(),
            final(counter).value(),
            r,
        ),
        r is Ok ==> (r->Ok_0).changes@.len() <= pull_limit(query.limit),
        final(store).link() == old(store).link(),
{
    let since_version = match query.since_version {
        Some(v) => v,
        None => 0,
    };
    let limit = match query.limit {
        Some(n) => if n <= MAX_PAGE {
            n
        } else {
            MAX_PAGE
        },
        None => DEFAULT_PAGE,
    };
    let table_name = match &query.table {
        Some(t) => t.as_str(),
        None => "notes",
    };
    proof {
        assert(table_name@ == pull_table(query.table));
        assert(since_version == pull_since(query.since_version));
        assert(limit == pull_limit(query.limit));
        assert(page_size(limit) == limit);
    }
    let loaded = load_table_changes(store, table_name, since_version, limit);
    let ghost filled = store.log();
    let ghost start = old(store).log().len() as int;
    let changes = match loaded {
        Ok(c) => c,
        Err(e) => {
            return Err(e);
        },
    };
    let observed = max_version_all_tables(store);
    counter.advance_to(observed);
    let next = next_version(&changes, limit);
    let response = PullResponse {
        changes,
        next_version: next,
        server_version: counter.current_version(),
    };
    proof {
        let run = added(old(store).log(), store.log());
        let k = run.len() - table_names().len();
        assert(store.log().take(start) =~= filled.take(start));
        assert(run.take(k) =~= added(old(store).log(), filled));
        assert(run.skip(k) =~= added(filled, store.log()));
    }
    Ok(response)
}

/// What a push brings.
#[derive(Clone, Debug, PartialEq, Eq)]
pub struct PushRequest {
    /// The only table to write to, if one is named.
    pub table: Option<String>,
    /// The changes, in the order in which they are to be applied.
    pub changes: Vec<SyncChange>,
    /// The server version that the sender has seen; zero where none is named.
    pub client_version: Option<i64>,
}

/// The answer to a push.
#[derive(Clone, Debug, PartialEq, Eq)]
pub struct PushResponse {
    /// How many changes were written.
    pub applied: usize,
    /// The server's version after the push.
    pub server_version: i64,
    /// Whether the whole batch was refused because the sender is behind.
    pub conflict: bool,
}

impl PushResponse {
    /// What the answer tells the sender in words: to pull first, where the
    /// batch was refused.
    pub fn message(&self) -> (r: Option<String>)
        ensures
            r is Some <==> self.conflict,
            r is Some ==> (r->0)@ == "conflict: please pull first"@,
    {
        if self.conflict {
            Some("conflict: please pull first".to_owned())
        } else {
            None
        }
    }

    /// How many changes the application is told to have arrived: none is
    /// announced where none was written.
    pub fn notification(&self) -> (r: Option<usize>)
        ensures
            r == if self.applied > 0 {
                Some(self.applied)
            } else {
                None::<usize>
            },
    {
        if self.applied > 0 {
            Some(self.applied)
        } else {
            None
        }
    }
}

/// The version of the server that the sender of a push has seen.
pub open spec fn client_version_of(client_version: Option<i64>) -> i64 {
    match client_version {
        Some(v) => v,
        None => 0,
    }
}

/// The table that a change of a push is written to, if it is written at all:
/// the change's own table, which must be the push's table where the push
/// names one, and must be replicated.
pub open spec fn target_table(table: Option<Seq<char>>, change: ChangeModel) -> Option<
    Seq<char>,
> {
    if table is Some && change.table != table->0 {
        None
    } else if is_sync_table(change.table) {
        Some(change.table)
    } else {
        None
    }
}

/// How many of a push's changes have a table to be written to.
pub open spec fn eligible_count(table: Option<Seq<char>>, changes: Seq<ChangeModel>) -> nat
    decreases changes.len(),
{
    if changes.len() == 0 {
        0
    } else {
        eligible_count(table, changes.drop_last()) + if target_table(table, changes.last())
            is Some {
            1nat
        } else {
            0nat
        }
    }
}

/// The counter's value after one version was taken for each of `n` changes,
/// as far as versions were left.
pub open spec fn after_allocations(before: i64, n: nat) -> i64 {
    if before + n <= i64::MAX {
        (before + n) as i64
    } else {
        i64::MAX
    }
}

/// What became of one change of a push.
#[derive(Clone, Debug, PartialEq, Eq)]
pub enum StepOutcome {
    /// The push names another table than the change's: passed over.
    OtherTable,
    /// The change's table is not replicated: passed over.
    NotReplicated,
    /// No version was left for the change: passed over.
    NoVersion,
    /// The change was applied and written.
    Written,
    /// The change was applied and not written: it names no record, or it is
    /// stale.
    NotWritten,
    /// Applying the change failed, with this error.
    Failed(SyncError),
}

/// What the applier said of a change, where the change was handed to it.
pub open spec fn applied_outcome(outcome: StepOutcome) -> Option<Result<bool, SyncError>> {
    match outcome {
        StepOutcome::Written => Some(Ok(true)),
        StepOutcome::NotWritten => Some(Ok(false)),
        StepOutcome::Failed(e) => Some(Err(e)),
        _ => None,
    }
}

/// What a push came to: the answer for the sender, and what became of each
/// change, in the order of the changes. A conflict has no outcomes.
#[derive(Clone, Debug, PartialEq, Eq)]
pub struct PushReport {
    pub response: PushResponse,
    pub outcomes: Vec<StepOutcome>,
}

/// Whether one change of a push took its step, with the given outcome. A
/// change of another table than the push's, a change of a table that is not
/// replicated, and a change for which no version is left above `reached` are
/// passed over without a call to the store. Any other change is applied
/// under the next version, and the exchanges with the store fit the outcome
/// of that.
pub open spec fn step_fits(
    step: Seq<Exchange>,
    table: Option<Seq<char>>,
    change: ChangeModel,
    reached: i64,
    outcome: StepOutcome,
) -> bool {
    if table is Some && change.table != table->0 {
        step.len() == 0 && outcome is OtherTable
    } else if !is_sync_table(change.table) {
        step.len() == 0 && outcome is NotReplicated
    } else if reached == i64::MAX {
        step.len() == 0 && outcome is NoVersion
    } else {
        applied_outcome(outcome) is Some && fits_outcome(
            step,
            change.table,
            change,
            (reached + 1) as i64,
            applied_outcome(outcome)->0,
        )
    }
}

/// Whether a change was written.
pub open spec fn is_written(outcome: StepOutcome) -> bool {
    outcome is Written
}

/// How many changes were written.
pub open spec fn written(outcomes: Seq<StepOutcome>) -> nat
    decreases outcomes.len(),
{
    if outcomes.len() == 0 {
        0
    } else {
        written(outcomes.drop_last()) + if is_written(outcomes.last()) {
            1nat
        } else {
            0nat
        }
    }
}

/// Whether the exchanges with the store while the changes of a push were
/// applied, and the outcomes, are those of the changes taking their steps
/// one after the other, each under the version that the counter has reached
/// by then.
pub open spec fn is_push(
    run: Seq<Exchange>,
    table: Option<Seq<char>>,
    changes: Seq<ChangeModel>,
    counter: i64,
    outcomes: Seq<StepOutcome>,
) -> bool
    decreases changes.len(),
{
    if changes.len() == 0 {
        run.len() == 0 && outcomes.len() == 0
    } else {
        outcomes.len() == changes.len() && exists|k: int|
            0 <= k <= run.len() && is_push(
                run.take(k),
                table,
                changes.drop_last(),
                counter,
                outcomes.drop_last(),
            ) && #[trigger] step_fits(
                run.skip(k),
                table,
                changes.last(),
                after_allocations(counter, eligible_count(table, changes.drop_last())),
                outcomes.last(),
            )
    }
}

/// Whether the exchanges with the store during a push that is no conflict,
/// the counter and the report fit together: the changes take their steps,
/// then the store is asked for the highest version of every replicated
/// table, and the counter ends at the higher of what the steps left and what
/// the store answered. The answer counts the changes that were written.
pub open spec fn push_fits(
    run: Seq<Exchange>,
    table: Option<Seq<char>>,
    changes: Seq<ChangeModel>,
    before: i64,
    after: i64,
    report: PushReport,
) -> bool {
    let k = run.len() - table_names().len();
    &&& k >= 0
    &&& is_push(run.take(k), table, changes, before, report.outcomes@)
    &&& is_version_round(run.skip(k))
    &&& after == later(
        after_allocations(before, eligible_count(table, changes)),
        highest(versions_answered(run.skip(k))),
    )
    &&& report.response.server_version == after
    &&& report.response.applied == written(report.outcomes@)
}

/// Answers a push. A sender that has seen less than the server's version is
/// told to pull first: the store is not asked anything and the counter
/// stays. Otherwise each change whose table is replicated, and is the push's
/// table where the push names one, takes a new version from the counter and
/// is applied under it; a change that fails is passed over. The answer counts
/// the changes that were written, and the report says what became of each
/// change. At the end the counter is raised to the highest version that the
/// store holds.
pub fn sync_push(store: &mut Store, counter: &mut VersionCounter, request: &PushRequest) -> (r:
    PushReport)
    ensures
        r.response.conflict == (client_version_of(request.client_version) < old(counter).value()),
        r.response.conflict ==> r.response.applied == 0 && r.response.server_version == old(
            counter,
        ).value() && r.outcomes@.len() == 0,
        r.response.conflict ==> final(counter).value() == old(counter).value(),
        r.response.conflict ==> final(store).log() == old(store).log(),
        grows(old(store).log(), final(store).log()),
        !r.response.conflict ==> push_fits(
            added(old(store).log(), final(store).log()),
            optional_text(request.table),
            change_models(request.changes@),
            old(counter).value(),
            final(counter).value(),
            r,
        ),
        r.response.applied <= eligible_count(
            optional_text(request.table),
            change_models(request.changes@),
        ),
        final(store).link() == old(store).link(),
{
    let before = counter.current_version();
    let client_version = match request.client_version {
        Some(v) => v,
        None => 0,
    };
    let ghost table = optional_text(request.table);
    let ghost all = change_models(request.changes@);
    let ghost start = old(store).log().len() as int;
    proof {
        assert(store.log().take(start) =~= store.log());
    }
    if client_version < before {
        return PushReport {
            response: PushResponse { applied: 0, server_version: before, conflict: true },
            outcomes: Vec::new(),
        };
    }
    let mut applied: usize = 0;
    let mut outcomes: Vec<StepOutcome> = Vec::new();
    let mut i: usize = 0;
    proof {
        assert(all.take(0).len() == 0);
    }
    while i < request.changes.len()
        invariant
            i <= request.changes.len(),
            table == optional_text(request.table),
            all == change_models(request.changes@),
            before == old(counter).value(),
            start == old(store).log().len(),
            counter.value() == after_allocations(before, eligible_count(table, all.take(i as int))),
            applied == written(outcomes@),
            applied <= eligible_count(table, all.take(i as int)) <= i,
            outcomes@.len() == i,
            store.link() == old(store).link(),
            grows(old(store).log(), store.log()),
            is_push(added(old(store).log(), store.log()), table, all.take(i as int), before, outcomes@),
        decreases request.changes.len() - i,
    {
        proof {
            assert(all.take(i + 1).drop_last() =~= all.take(i as int));
            assert(all.take(i + 1).last() == request.changes@[i as int]@);
        }
        let change = &request.changes[i];
        let ghost between = store.log();
        let ghost earlier = outcomes@;
        let ghost reached = counter.value();
        let wanted = match &request.table {
            Some(t) => same_text(change.table.as_str(), t.as_str()),
            None => true,
        };
        let outcome = if !wanted {
            StepOutcome::OtherTable
        } else if get_table_config(change.table.as_str()).is_none() {
            StepOutcome::NotReplicated
        } else if !counter.has_next() {
            StepOutcome::NoVersion
        } else {
            let new_version = counter.allocate();
            match apply_table_change(store, change.table.as_str(), change, new_version) {
                Ok(true) => StepOutcome::Written,
                Ok(false) => StepOutcome::NotWritten,
                Err(e) => StepOutcome::Failed(e),
            }
        };
        match &outcome {
            StepOutcome::Written => {
                applied += 1;
            },
            _ => {},
        }
        outcomes.push(outcome);
        proof {
            let run = added(old(store).log(), store.log());
            let k = between.len() - start;
            assert(store.log().take(between.len() as int) =~= between);
            assert(store.log().take(start) =~= between.take(start));
            assert(run.take(k) =~= added(old(store).log(), between));
            assert(run.skip(k) =~= added(between, store.log()));
            assert(outcomes@.drop_last() =~= earlier);
            assert(step_fits(
                run.skip(k),
                table,
                all.take(i + 1).last(),
                after_allocations(before, eligible_count(table, all.take(i + 1).drop_last())),
                outcomes@.last(),
            ));
            assert(is_push(run.take(k), table, all.take(i + 1).drop_last(), before, earlier));
        }
        i += 1;
    }
    proof {
        assert(all.take(request.changes.len() as int) =~= all);
    }
    let ghost pushed = store.log();
    let observed = max_version_all_tables(store);
    counter.advance_to(observed);
    let report = PushReport {
        response: PushResponse {
            applied,
            server_version: counter.current_version(),
            conflict: false,
        },
        outcomes,
    };
    proof {
        let run = added(old(store).log(), store.log());
        let k = run.len() - table_names().len();
        assert(store.log().take(start) =~= pushed.take(start));
        assert(run.take(k) =~= added(old(store).log(), pushed));
        assert(run.skip(k) =~= added(pushed, store.log()));
    }
    report
}

} // verus!
