//! What a read of the past sees: every commit keeps the versions that it ends
//! readable, and adds none to the snapshots before it.
use crate::api::{ColumnAlterationSpec, ColumnDefSpec, DataFileSpec, DeleteFileSpec};
use crate::catalog::{lives_at, minus_column, minus_table, CatalogModel};
use crate::diff::diff;
use crate::diff_laws::{
    ended_versions_move_to_history, file_stats_reach, finite_state, live_value,
    writes_turn_base_into_state,
};
use crate::keys::{after, after_elsewhere, history_key, CurrentKey, EntityKey, KeyModel, StoredModel};
use crate::records::{
    ColumnModel, DataFileModel, DeleteFileModel, IndexModel, MacroModel, PartitionModel,
    SchemaModel, SortModel, TableModel, ViewModel,
};
use crate::verbs::{
    altered, column_added, column_altered, delete_registered, file_expired, file_registered,
    laid_out, schema_created, table_altered, table_created, view_created, TransactionModel,
};
use crate::write_laws::{diff_key, diff_writes_catalog_keys};
use vstd::prelude::*;

verus! {

/// When a version of an entity began and ended; other records have no versions.
pub open spec fn life(v: StoredModel) -> Option<(u64, Option<u64>)> {
    match v {
        StoredModel::Schema(r) => Some((r.begin_snapshot, r.end_snapshot)),
        StoredModel::Table(r) => Some((r.begin_snapshot, r.end_snapshot)),
        StoredModel::View(r) => Some((r.begin_snapshot, r.end_snapshot)),
        StoredModel::Column(r) => Some((r.begin_snapshot, r.end_snapshot)),
        StoredModel::DataFile(r) => Some((r.begin_snapshot, r.end_snapshot)),
        StoredModel::DeleteFile(r) => Some((r.begin_snapshot, r.end_snapshot)),
        StoredModel::Partition(r) => Some((r.begin_snapshot, r.end_snapshot)),
        StoredModel::Sort(r) => Some((r.begin_snapshot, r.end_snapshot)),
        StoredModel::Index(r) => Some((r.begin_snapshot, r.end_snapshot)),
        StoredModel::Macro(r) => Some((r.begin_snapshot, r.end_snapshot)),
        _ => None,
    }
}

/// What a version says, whether or not it has ended. The counter of a table's
/// columns and the tags of a column are kept up in place and are not part of
/// it.
pub open spec fn content(v: StoredModel) -> StoredModel {
    match v {
        StoredModel::Schema(r) => StoredModel::Schema(
            SchemaModel { end_snapshot: None, ..r },
        ),
        StoredModel::Table(r) => StoredModel::Table(
            TableModel { end_snapshot: None, next_column_id: 0, ..r },
        ),
        StoredModel::View(r) => StoredModel::View(ViewModel { end_snapshot: None, ..r }),
        StoredModel::Column(r) => StoredModel::Column(
            ColumnModel { end_snapshot: None, tags: Seq::empty(), ..r },
        ),
        StoredModel::DataFile(r) => StoredModel::DataFile(
            DataFileModel { end_snapshot: None, ..r },
        ),
        StoredModel::DeleteFile(r) => StoredModel::DeleteFile(
            DeleteFileModel { end_snapshot: None, ..r },
        ),
        StoredModel::Partition(r) => StoredModel::Partition(
            PartitionModel { end_snapshot: None, ..r },
        ),
        StoredModel::Sort(r) => StoredModel::Sort(
            SortModel { end_snapshot: None, ..r },
        ),
        StoredModel::Index(r) => StoredModel::Index(
            IndexModel { end_snapshot: None, ..r },
        ),
        StoredModel::Macro(r) => StoredModel::Macro(
            MacroModel { end_snapshot: None, ..r },
        ),
        _ => v,
    }
}

/// Whether a read at a snapshot sees a stored version.
pub open spec fn sees(v: Option<StoredModel>, snapshot: u64) -> bool {
    v is Some && match life(v->0) {
        Some((begin, end)) => lives_at(begin, end, snapshot),
        None => false,
    }
}

/// Whether a version began before a snapshot and has not ended.
pub open spec fn lives_before(v: StoredModel, n: u64) -> bool {
    match life(v) {
        Some((begin, None)) => begin < n,
        _ => false,
    }
}

/// Whether entities of a kind have versions.
pub open spec fn versioned(e: EntityKey) -> bool {
    match e {
        EntityKey::Schema { .. } => true,
        EntityKey::Table { .. } => true,
        EntityKey::View { .. } => true,
        EntityKey::Column { .. } => true,
        EntityKey::File { .. } => true,
        EntityKey::DeleteFile { .. } => true,
        EntityKey::Partition { .. } => true,
        EntityKey::Sort { .. } => true,
        EntityKey::Index { .. } => true,
        EntityKey::Macro { .. } => true,
        _ => false,
    }
}

/// The live version of an entity.
pub open spec fn version(m: CatalogModel, e: EntityKey) -> Option<StoredModel> {
    live_value(m, CurrentKey::Entity(e))
}

/// Whether every live version began before a snapshot and has not ended: so it
/// is in the catalog that a commit of that snapshot starts from.
pub open spec fn settled(m: CatalogModel, n: u64) -> bool {
    forall|e: EntityKey|
        versioned(e) && (#[trigger] version(m, e)) is Some ==> lives_before(version(m, e)->0, n)
}

/// Whether a version of a working state is one that the commit of a snapshot
/// may leave: a new one begins at the snapshot, any other is as it was.
pub open spec fn dated_version(was: Option<StoredModel>, is: Option<StoredModel>, n: u64) -> bool {
    is is Some ==> life(is->0) == Some((n, None::<u64>)) || (was is Some && life(is->0) == life(
        was->0,
    ) && content(is->0) == content(was->0))
}

/// Whether every version of a working state is dated.
pub open spec fn dated(base: CatalogModel, state: CatalogModel, n: u64) -> bool {
    forall|e: EntityKey|
        versioned(e) ==> dated_version(version(base, e), #[trigger] version(state, e), n)
}

/// A transaction starts dated.
pub proof fn untouched_catalogs_are_dated(base: CatalogModel, n: u64)
    requires
        settled(base, n),
    ensures
        dated(base, base, n),
{
}

/// What a commit leaves is settled for the next one.
pub proof fn commits_settle(base: CatalogModel, state: CatalogModel, n: u64)
    requires
        settled(base, n),
        dated(base, state, n),
        n < u64::MAX,
    ensures
        settled(state, (n + 1) as u64),
{
    assert forall|e: EntityKey| versioned(e) && (#[trigger] version(state, e)) is Some implies
        lives_before(version(state, e)->0, (n + 1) as u64) by {
        assert(dated_version(version(base, e), version(state, e), n));
    }
}

/// The past stays: for every entity, a read at an earlier snapshot finds after a
/// commit what it found before, either still live or moved to history.
pub proof fn the_past_stays(
    base: CatalogModel,
    state: CatalogModel,
    n: u64,
    e: EntityKey,
    snapshot: u64,
)
    requires
        finite_state(base),
        finite_state(state),
        base.mappings.dom().subset_of(state.mappings.dom()),
        file_stats_reach(base, state),
        settled(base, n),
        dated(base, state, n),
        versioned(e),
        snapshot < n,
    ensures
        ({
            let writes = diff(base, state, n);
            let before = version(base, e);
            let live = after(writes, KeyModel::Current(CurrentKey::Entity(e)), before);
            let past = after(writes, history_key(e, n), None);
            &&& sees(live, snapshot) || sees(past, snapshot) <==> sees(before, snapshot)
            &&& !(sees(live, snapshot) && sees(past, snapshot))
            &&& sees(live, snapshot) ==> content(live->0) == content(before->0)
            &&& sees(past, snapshot) ==> content(past->0) == content(before->0)
        }),
{
    writes_turn_base_into_state(base, state, n, CurrentKey::Entity(e));
    ended_versions_move_to_history(base, state, n, e, None);
    assert(dated_version(version(base, e), version(state, e), n));
}

/// A snapshot reads as it was committed: a read at it finds the versions of the
/// committed state, and none that the commit ended.
pub proof fn commits_read_back(
    base: CatalogModel,
    state: CatalogModel,
    n: u64,
    e: EntityKey,
)
    requires
        finite_state(base),
        finite_state(state),
        base.mappings.dom().subset_of(state.mappings.dom()),
        file_stats_reach(base, state),
        settled(base, n),
        dated(base, state, n),
        versioned(e),
    ensures
        ({
            let writes = diff(base, state, n);
            let live = after(
                writes,
                KeyModel::Current(CurrentKey::Entity(e)),
                version(base, e),
            );
            &&& live == version(state, e)
            &&& sees(live, n) <==> version(state, e) is Some
            &&& !sees(after(writes, history_key(e, n), None), n)
        }),
{
    writes_turn_base_into_state(base, state, n, CurrentKey::Entity(e));
    ended_versions_move_to_history(base, state, n, e, None);
    assert(dated_version(version(base, e), version(state, e), n));
}

/// History is only added to: a commit leaves every version that ended at another
/// snapshot as it is.
pub proof fn history_is_only_added_to(
    base: CatalogModel,
    state: CatalogModel,
    n: u64,
    e: EntityKey,
    end: u64,
    v: Option<StoredModel>,
)
    requires
        end != n,
    ensures
        after(diff(base, state, n), history_key(e, end), v) == v,
{
    let writes = diff(base, state, n);
    diff_writes_catalog_keys(base, state, n);
    assert forall|i: int| 0 <= i < writes.len() implies (#[trigger] writes[i]).0 != history_key(
        e,
        end,
    ) by {
        assert(diff_key(base, state, n, writes[i].0));
    }
    after_elsewhere(writes, history_key(e, end), v);
}

// ---------------------------------------------------------------------------
// Verbs
// ---------------------------------------------------------------------------

/// Whether the versions of a working state changed as a verb may change them:
/// some went, and new ones begin at the snapshot of the commit.
pub open spec fn stepped(m: CatalogModel, next: CatalogModel, n: u64) -> bool {
    forall|e: EntityKey|
        versioned(e) && (#[trigger] version(next, e)) is Some ==> version(next, e) == version(m, e)
            || life(version(next, e)->0) == Some((n, None::<u64>))
}

proof fn steps_keep_dates(base: CatalogModel, m: CatalogModel, next: CatalogModel, n: u64)
    requires
        dated(base, m, n),
        stepped(m, next, n),
    ensures
        dated(base, next, n),
{
    assert forall|e: EntityKey| versioned(e) implies dated_version(
        version(base, e),
        #[trigger] version(next, e),
        n,
    ) by {
        assert(dated_version(version(base, e), version(m, e), n));
    }
}

/// A version of a dated state has not ended.
proof fn dated_versions_live(base: CatalogModel, m: CatalogModel, n: u64, e: EntityKey)
    requires
        settled(base, n),
        dated(base, m, n),
        versioned(e),
        version(m, e) is Some,
    ensures
        exists|begin: u64| life(version(m, e)->0) == Some((begin, None::<u64>)),
{
    assert(dated_version(version(base, e), version(m, e), n));
    if life(version(m, e)->0) != Some((n, None::<u64>)) {
        assert(lives_before(version(base, e)->0, n));
    }
}

/// The columns of a laid-out table begin at its snapshot, and every other column
/// is as it was.
proof fn laid_out_columns_begin(
    columns: Map<(u64, u64), ColumnModel>,
    table_id: u64,
    begin_snapshot: u64,
    defs: Seq<ColumnDefSpec>,
)
    ensures
        forall|k: (u64, u64)| #[trigger]
            laid_out(columns, table_id, begin_snapshot, defs).contains_key(k) ==> (
            columns.contains_key(k) && laid_out(columns, table_id, begin_snapshot, defs)[k]
                == columns[k]) || (laid_out(
                columns,
                table_id,
                begin_snapshot,
                defs,
            )[k].begin_snapshot == begin_snapshot && laid_out(
                columns,
                table_id,
                begin_snapshot,
                defs,
            )[k].end_snapshot is None),
    decreases defs.len(),
{
    if defs.len() > 0 {
        laid_out_columns_begin(columns, table_id, begin_snapshot, defs.drop_last());
    }
}

/// Statistics and options have no versions: changing them begins nothing.
pub proof fn other_records_keep_dates(
    base: CatalogModel,
    m: CatalogModel,
    next: CatalogModel,
    n: u64,
)
    requires
        dated(base, m, n),
        next == (CatalogModel {
            table_stats: next.table_stats,
            table_column_stats: next.table_column_stats,
            file_column_stats: next.file_column_stats,
            options: next.options,
            ..m
        }),
    ensures
        dated(base, next, n),
{
    assert(stepped(m, next, n));
    steps_keep_dates(base, m, next, n);
}

/// Creating a schema begins it at the snapshot of the commit.
pub proof fn create_schema_keeps_dates(
    base: CatalogModel,
    t: TransactionModel,
    name: Seq<char>,
    uuid: Seq<char>,
)
    requires
        dated(base, t.state, t.new_snapshot_id),
    ensures
        dated(base, schema_created(t, name, uuid).state, t.new_snapshot_id),
{
    let m = t.state;
    let n = t.new_snapshot_id;
    let next = schema_created(t, name, uuid).state;
    assert(stepped(m, next, n));
    steps_keep_dates(base, m, next, n);
}

/// Dropping a schema begins nothing.
pub proof fn drop_schema_keeps_dates(
    base: CatalogModel,
    t: TransactionModel,
    id: u64,
)
    requires
        dated(base, t.state, t.new_snapshot_id),
    ensures
        dated(base, (CatalogModel { schemas: t.state.schemas.remove(id), ..t.state }), t.new_snapshot_id),
{
    let m = t.state;
    let n = t.new_snapshot_id;
    let next = (CatalogModel { schemas: t.state.schemas.remove(id), ..t.state });
    assert(stepped(m, next, n));
    steps_keep_dates(base, m, next, n);
}

/// Creating a view begins it at the snapshot of the commit.
pub proof fn create_view_keeps_dates(
    base: CatalogModel,
    t: TransactionModel,
    schema_id: u64,
    name: Seq<char>,
    dialect: Seq<char>,
    sql: Seq<char>,
    uuid: Seq<char>,
)
    requires
        dated(base, t.state, t.new_snapshot_id),
    ensures
        dated(base, view_created(t, schema_id, name, dialect, sql, uuid).state, t.new_snapshot_id),
{
    let m = t.state;
    let n = t.new_snapshot_id;
    let next = view_created(t, schema_id, name, dialect, sql, uuid).state;
    assert(stepped(m, next, n));
    steps_keep_dates(base, m, next, n);
}

/// Replacing a view's definition begins a version.
pub proof fn alter_view_keeps_dates(
    base: CatalogModel,
    t: TransactionModel,
    id: u64,
    dialect: Seq<char>,
    sql: Seq<char>,
)
    requires
        settled(base, t.new_snapshot_id),
        dated(base, t.state, t.new_snapshot_id),
        t.state.views.contains_key(id),
    ensures
        dated(base, (CatalogModel {
            views: t.state.views.insert(
                t.state.views[id].view_id,
                ViewModel {
                    dialect,
                    sql,
                    begin_snapshot: t.new_snapshot_id,
                    ..t.state.views[id]
                },
            ),
            ..t.state
        }), t.new_snapshot_id),
{
    let m = t.state;
    let n = t.new_snapshot_id;
    let next = (CatalogModel {
            views: t.state.views.insert(
                t.state.views[id].view_id,
                ViewModel {
                    dialect,
                    sql,
                    begin_snapshot: t.new_snapshot_id,
                    ..t.state.views[id]
                },
            ),
            ..t.state
        });
    dated_versions_live(base, m, n, EntityKey::View { view_id: id });
    assert(stepped(m, next, n));
    steps_keep_dates(base, m, next, n);
}

/// Dropping a view begins nothing.
pub proof fn drop_view_keeps_dates(
    base: CatalogModel,
    t: TransactionModel,
    id: u64,
)
    requires
        dated(base, t.state, t.new_snapshot_id),
    ensures
        dated(base, (CatalogModel { views: t.state.views.remove(id), ..t.state }), t.new_snapshot_id),
{
    let m = t.state;
    let n = t.new_snapshot_id;
    let next = (CatalogModel { views: t.state.views.remove(id), ..t.state });
    assert(stepped(m, next, n));
    steps_keep_dates(base, m, next, n);
}

/// Creating a table begins it and its columns at the snapshot of the commit.
pub proof fn create_table_keeps_dates(
    base: CatalogModel,
    t: TransactionModel,
    schema_id: u64,
    name: Seq<char>,
    defs: Seq<ColumnDefSpec>,
    uuid: Seq<char>,
)
    requires
        dated(base, t.state, t.new_snapshot_id),
    ensures
        dated(base, table_created(t, schema_id, name, defs, uuid).state, t.new_snapshot_id),
{
    let m = t.state;
    let n = t.new_snapshot_id;
    let next = table_created(t, schema_id, name, defs, uuid).state;
    laid_out_columns_begin(m.columns, t.next_catalog_id, n, defs);
    assert(stepped(m, next, n));
    steps_keep_dates(base, m, next, n);
}

/// Renaming a table begins a version.
pub proof fn rename_table_keeps_dates(
    base: CatalogModel,
    t: TransactionModel,
    id: u64,
    name: Seq<char>,
)
    requires
        settled(base, t.new_snapshot_id),
        dated(base, t.state, t.new_snapshot_id),
        t.state.tables.contains_key(id),
    ensures
        dated(base, table_altered(
            t,
            TableModel {
                table_name: name,
                begin_snapshot: t.new_snapshot_id,
                ..t.state.tables[id]
            },
            id,
        ).state, t.new_snapshot_id),
{
    let m = t.state;
    let n = t.new_snapshot_id;
    let next = table_altered(
            t,
            TableModel {
                table_name: name,
                begin_snapshot: t.new_snapshot_id,
                ..t.state.tables[id]
            },
            id,
        ).state;
    dated_versions_live(base, m, n, EntityKey::Table { table_id: id });
    assert(stepped(m, next, n));
    steps_keep_dates(base, m, next, n);
}

/// Moving a table to another schema begins a version.
pub proof fn set_table_schema_keeps_dates(
    base: CatalogModel,
    t: TransactionModel,
    id: u64,
    schema_id: u64,
)
    requires
        settled(base, t.new_snapshot_id),
        dated(base, t.state, t.new_snapshot_id),
        t.state.tables.contains_key(id),
    ensures
        dated(base, table_altered(
            t,
            TableModel {
                schema_id,
                begin_snapshot: t.new_snapshot_id,
                ..t.state.tables[id]
            },
            id,
        ).state, t.new_snapshot_id),
{
    let m = t.state;
    let n = t.new_snapshot_id;
    let next = table_altered(
            t,
            TableModel {
                schema_id,
                begin_snapshot: t.new_snapshot_id,
                ..t.state.tables[id]
            },
            id,
        ).state;
    dated_versions_live(base, m, n, EntityKey::Table { table_id: id });
    assert(stepped(m, next, n));
    steps_keep_dates(base, m, next, n);
}

/// Dropping a table begins nothing.
pub proof fn drop_table_keeps_dates(
    base: CatalogModel,
    t: TransactionModel,
    id: u64,
)
    requires
        dated(base, t.state, t.new_snapshot_id),
    ensures
        dated(base, minus_table(t.state, id), t.new_snapshot_id),
{
    let m = t.state;
    let n = t.new_snapshot_id;
    let next = minus_table(t.state, id);
    assert(stepped(m, next, n));
    steps_keep_dates(base, m, next, n);
}

/// Adding a column begins it, and a version of its table.
pub proof fn add_column_keeps_dates(
    base: CatalogModel,
    t: TransactionModel,
    table_id: u64,
    def: ColumnDefSpec,
)
    requires
        settled(base, t.new_snapshot_id),
        dated(base, t.state, t.new_snapshot_id),
        t.state.tables.contains_key(table_id),
    ensures
        dated(base, column_added(t, table_id, def).state, t.new_snapshot_id),
{
    let m = t.state;
    let n = t.new_snapshot_id;
    let next = column_added(t, table_id, def).state;
    dated_versions_live(base, m, n, EntityKey::Table { table_id });
    assert(stepped(m, next, n));
    steps_keep_dates(base, m, next, n);
}

/// Renaming a column begins a version.
pub proof fn rename_column_keeps_dates(
    base: CatalogModel,
    t: TransactionModel,
    table_id: u64,
    column_id: u64,
    name: Seq<char>,
)
    requires
        settled(base, t.new_snapshot_id),
        dated(base, t.state, t.new_snapshot_id),
        t.state.columns.contains_key((table_id, column_id)),
    ensures
        dated(base, column_altered(
            t,
            table_id,
            ColumnModel {
                begin_snapshot: t.new_snapshot_id,
                column_name: name,
                ..t.state.columns[(table_id, column_id)]
            },
        ).state, t.new_snapshot_id),
{
    let m = t.state;
    let n = t.new_snapshot_id;
    let next = column_altered(
            t,
            table_id,
            ColumnModel {
                begin_snapshot: t.new_snapshot_id,
                column_name: name,
                ..t.state.columns[(table_id, column_id)]
            },
        ).state;
    dated_versions_live(base, m, n, EntityKey::Column { table_id, column_id });
    assert(stepped(m, next, n));
    steps_keep_dates(base, m, next, n);
}

/// Altering a column begins a version.
pub proof fn alter_column_keeps_dates(
    base: CatalogModel,
    t: TransactionModel,
    table_id: u64,
    column_id: u64,
    alteration: ColumnAlterationSpec,
)
    requires
        settled(base, t.new_snapshot_id),
        dated(base, t.state, t.new_snapshot_id),
        t.state.columns.contains_key((table_id, column_id)),
    ensures
        dated(base, column_altered(
            t,
            table_id,
            altered(t.state.columns[(table_id, column_id)], alteration, t.new_snapshot_id),
        ).state, t.new_snapshot_id),
{
    let m = t.state;
    let n = t.new_snapshot_id;
    let next = column_altered(
            t,
            table_id,
            altered(t.state.columns[(table_id, column_id)], alteration, t.new_snapshot_id),
        ).state;
    dated_versions_live(base, m, n, EntityKey::Column { table_id, column_id });
    assert(stepped(m, next, n));
    steps_keep_dates(base, m, next, n);
}

/// Dropping a column begins nothing.
pub proof fn drop_column_keeps_dates(
    base: CatalogModel,
    t: TransactionModel,
    table_id: u64,
    column_id: u64,
)
    requires
        dated(base, t.state, t.new_snapshot_id),
    ensures
        dated(base, minus_column(t.state, table_id, column_id), t.new_snapshot_id),
{
    let m = t.state;
    let n = t.new_snapshot_id;
    let next = minus_column(t.state, table_id, column_id);
    assert(stepped(m, next, n));
    steps_keep_dates(base, m, next, n);
}

/// Registering a data file begins it at the snapshot of the commit.
pub proof fn register_data_file_keeps_dates(
    base: CatalogModel,
    t: TransactionModel,
    table_id: u64,
    file: DataFileSpec,
)
    requires
        dated(base, t.state, t.new_snapshot_id),
    ensures
        dated(base, file_registered(t, table_id, file).state, t.new_snapshot_id),
{
    let m = t.state;
    let n = t.new_snapshot_id;
    let next = file_registered(t, table_id, file).state;
    assert(stepped(m, next, n));
    steps_keep_dates(base, m, next, n);
}

/// Expiring a data file begins nothing.
pub proof fn expire_data_file_keeps_dates(
    base: CatalogModel,
    t: TransactionModel,
    table_id: u64,
    id: u64,
)
    requires
        dated(base, t.state, t.new_snapshot_id),
    ensures
        dated(base, file_expired(t, table_id, id).state, t.new_snapshot_id),
{
    let m = t.state;
    let n = t.new_snapshot_id;
    let next = file_expired(t, table_id, id).state;
    assert(stepped(m, next, n));
    steps_keep_dates(base, m, next, n);
}

/// Registering a delete file begins it at the snapshot of the commit.
pub proof fn register_delete_file_keeps_dates(
    base: CatalogModel,
    t: TransactionModel,
    table_id: u64,
    file: DeleteFileSpec,
)
    requires
        dated(base, t.state, t.new_snapshot_id),
    ensures
        dated(base, delete_registered(t, table_id, file).state, t.new_snapshot_id),
{
    let m = t.state;
    let n = t.new_snapshot_id;
    let next = delete_registered(t, table_id, file).state;
    assert(stepped(m, next, n));
    steps_keep_dates(base, m, next, n);
}

/// Expiring a delete file begins nothing.
pub proof fn expire_delete_file_keeps_dates(
    base: CatalogModel,
    t: TransactionModel,
    table_id: u64,
    id: u64,
)
    requires
        dated(base, t.state, t.new_snapshot_id),
    ensures
        dated(base, (CatalogModel {
            delete_files: t.state.delete_files.remove((table_id, id)),
            ..t.state
        }), t.new_snapshot_id),
{
    let m = t.state;
    let n = t.new_snapshot_id;
    let next = (CatalogModel {
            delete_files: t.state.delete_files.remove((table_id, id)),
            ..t.state
        });
    assert(stepped(m, next, n));
    steps_keep_dates(base, m, next, n);
}

} // verus!
