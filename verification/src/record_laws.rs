//! Where records are kept: each under its own key while it lives, and where it
//! has versions, under its key and the snapshot that ended it once it does not.
use crate::catalog::CatalogModel;
use crate::diff::diff;
use crate::diff_laws::{
    ended_versions_move_to_history, file_stats_reach, finite_state, live_value,
    writes_turn_base_into_state,
};
use crate::error::Fault;
use crate::fold::with_live;
use crate::keys::{after, CurrentKey, EntityKey, HistoryKey, KeyModel, StoredModel};
use crate::records::{
    ColumnModel, DataFileModel, DeleteFileModel, FileColumnStatsModel, GcFileModel, IndexModel,
    MacroModel, MappingModel, OptionScopeModel, PartitionModel, SchemaModel, SortModel,
    TableColumnStatsModel, TableModel, TableStatsModel, TagModel, ViewModel,
};
use vstd::prelude::*;

verus! {

/// What the store has of a record.
pub open spec fn kept<K, V>(m: Map<K, V>, k: K, wrap: spec_fn(V) -> StoredModel) -> Option<
    StoredModel,
> {
    if m.contains_key(k) {
        Some(wrap(m[k]))
    } else {
        None
    }
}

/// Folding a schema record puts it under its key, or takes it away; a value of
/// another kind is refused there.
pub proof fn schema_records_fold(m: CatalogModel, k: u64, v: SchemaModel, other: StoredModel)
    requires
        !(other is Schema),
    ensures
        ({
            let key = CurrentKey::Entity(EntityKey::Schema { schema_id: k });
            &&& with_live(m, key, Some(StoredModel::Schema(v))) == Ok::<CatalogModel, Fault>(
                CatalogModel { schemas: m.schemas.insert(k, v), ..m },
            )
            &&& with_live(m, key, None) == Ok::<CatalogModel, Fault>(
                CatalogModel { schemas: m.schemas.remove(k), ..m },
            )
            &&& with_live(m, key, Some(other)) is Err
            &&& with_live(m, key, Some(other))->Err_0 is Corruption
        }),
{
}

/// A commit leaves under the key of a schema what the new state has of it.
pub proof fn schema_records_are_kept(base: CatalogModel, state: CatalogModel, n: u64, k: u64)
    requires
        finite_state(base),
        finite_state(state),
        base.mappings.dom().subset_of(state.mappings.dom()),
        file_stats_reach(base, state),
    ensures
        after(
            diff(base, state, n),
            KeyModel::Current(CurrentKey::Entity(EntityKey::Schema { schema_id: k })),
            kept(base.schemas, k, |v: SchemaModel| StoredModel::Schema(v)),
        ) == kept(state.schemas, k, |v: SchemaModel| StoredModel::Schema(v)),
{
    let key = CurrentKey::Entity(EntityKey::Schema { schema_id: k });
    writes_turn_base_into_state(base, state, n, key);
    assert(live_value(base, key) == kept(base.schemas, k, |v: SchemaModel| StoredModel::Schema(v)));
    assert(live_value(state, key) == kept(state.schemas, k, |v: SchemaModel| StoredModel::Schema(v)));
}

/// A schema that goes or is replaced is in history, as it was but for
/// its end, which is the commit's snapshot; no other is.
pub proof fn schema_versions_end_in_history(
    base: CatalogModel,
    state: CatalogModel,
    n: u64,
    k: u64,
    before: Option<StoredModel>,
)
    requires
        finite_state(base),
        finite_state(state),
    ensures
        ({
            let b = base.schemas[k];
            let s = state.schemas[k];
            let ends = base.schemas.contains_key(k) && (!state.schemas.contains_key(k) || b != s);
            after(
                diff(base, state, n),
                KeyModel::History(HistoryKey { entity: EntityKey::Schema { schema_id: k }, end_snapshot: n }),
                before,
            ) == (if ends {
                Some(StoredModel::Schema(SchemaModel { end_snapshot: Some(n), ..b }))
            } else {
                before
            })
        }),
{
    ended_versions_move_to_history(base, state, n, EntityKey::Schema { schema_id: k }, before);
}

/// Folding a table record puts it under its key, or takes it away; a value of
/// another kind is refused there.
pub proof fn table_records_fold(m: CatalogModel, k: u64, v: TableModel, other: StoredModel)
    requires
        !(other is Table),
    ensures
        ({
            let key = CurrentKey::Entity(EntityKey::Table { table_id: k });
            &&& with_live(m, key, Some(StoredModel::Table(v))) == Ok::<CatalogModel, Fault>(
                CatalogModel { tables: m.tables.insert(k, v), ..m },
            )
            &&& with_live(m, key, None) == Ok::<CatalogModel, Fault>(
                CatalogModel { tables: m.tables.remove(k), ..m },
            )
            &&& with_live(m, key, Some(other)) is Err
            &&& with_live(m, key, Some(other))->Err_0 is Corruption
        }),
{
}

/// A commit leaves under the key of a table what the new state has of it.
pub proof fn table_records_are_kept(base: CatalogModel, state: CatalogModel, n: u64, k: u64)
    requires
        finite_state(base),
        finite_state(state),
        base.mappings.dom().subset_of(state.mappings.dom()),
        file_stats_reach(base, state),
    ensures
        after(
            diff(base, state, n),
            KeyModel::Current(CurrentKey::Entity(EntityKey::Table { table_id: k })),
            kept(base.tables, k, |v: TableModel| StoredModel::Table(v)),
        ) == kept(state.tables, k, |v: TableModel| StoredModel::Table(v)),
{
    let key = CurrentKey::Entity(EntityKey::Table { table_id: k });
    writes_turn_base_into_state(base, state, n, key);
    assert(live_value(base, key) == kept(base.tables, k, |v: TableModel| StoredModel::Table(v)));
    assert(live_value(state, key) == kept(state.tables, k, |v: TableModel| StoredModel::Table(v)));
}

/// A table that goes or is replaced by more than another counter is in history, as it was but for
/// its end, which is the commit's snapshot; no other is.
pub proof fn table_versions_end_in_history(
    base: CatalogModel,
    state: CatalogModel,
    n: u64,
    k: u64,
    before: Option<StoredModel>,
)
    requires
        finite_state(base),
        finite_state(state),
    ensures
        ({
            let b = base.tables[k];
            let s = state.tables[k];
            let ends = base.tables.contains_key(k) && (!state.tables.contains_key(k) || b != (TableModel { next_column_id: b.next_column_id, ..s }));
            after(
                diff(base, state, n),
                KeyModel::History(HistoryKey { entity: EntityKey::Table { table_id: k }, end_snapshot: n }),
                before,
            ) == (if ends {
                Some(StoredModel::Table(TableModel { end_snapshot: Some(n), ..b }))
            } else {
                before
            })
        }),
{
    ended_versions_move_to_history(base, state, n, EntityKey::Table { table_id: k }, before);
}

/// Folding a view record puts it under its key, or takes it away; a value of
/// another kind is refused there.
pub proof fn view_records_fold(m: CatalogModel, k: u64, v: ViewModel, other: StoredModel)
    requires
        !(other is View),
    ensures
        ({
            let key = CurrentKey::Entity(EntityKey::View { view_id: k });
            &&& with_live(m, key, Some(StoredModel::View(v))) == Ok::<CatalogModel, Fault>(
                CatalogModel { views: m.views.insert(k, v), ..m },
            )
            &&& with_live(m, key, None) == Ok::<CatalogModel, Fault>(
                CatalogModel { views: m.views.remove(k), ..m },
            )
            &&& with_live(m, key, Some(other)) is Err
            &&& with_live(m, key, Some(other))->Err_0 is Corruption
        }),
{
}

/// A commit leaves under the key of a view what the new state has of it.
pub proof fn view_records_are_kept(base: CatalogModel, state: CatalogModel, n: u64, k: u64)
    requires
        finite_state(base),
        finite_state(state),
        base.mappings.dom().subset_of(state.mappings.dom()),
        file_stats_reach(base, state),
    ensures
        after(
            diff(base, state, n),
            KeyModel::Current(CurrentKey::Entity(EntityKey::View { view_id: k })),
            kept(base.views, k, |v: ViewModel| StoredModel::View(v)),
        ) == kept(state.views, k, |v: ViewModel| StoredModel::View(v)),
{
    let key = CurrentKey::Entity(EntityKey::View { view_id: k });
    writes_turn_base_into_state(base, state, n, key);
    assert(live_value(base, key) == kept(base.views, k, |v: ViewModel| StoredModel::View(v)));
    assert(live_value(state, key) == kept(state.views, k, |v: ViewModel| StoredModel::View(v)));
}

/// A view that goes or is replaced is in history, as it was but for
/// its end, which is the commit's snapshot; no other is.
pub proof fn view_versions_end_in_history(
    base: CatalogModel,
    state: CatalogModel,
    n: u64,
    k: u64,
    before: Option<StoredModel>,
)
    requires
        finite_state(base),
        finite_state(state),
    ensures
        ({
            let b = base.views[k];
            let s = state.views[k];
            let ends = base.views.contains_key(k) && (!state.views.contains_key(k) || b != s);
            after(
                diff(base, state, n),
                KeyModel::History(HistoryKey { entity: EntityKey::View { view_id: k }, end_snapshot: n }),
                before,
            ) == (if ends {
                Some(StoredModel::View(ViewModel { end_snapshot: Some(n), ..b }))
            } else {
                before
            })
        }),
{
    ended_versions_move_to_history(base, state, n, EntityKey::View { view_id: k }, before);
}

/// Folding a column record puts it under its key, or takes it away; a value of
/// another kind is refused there.
pub proof fn column_records_fold(m: CatalogModel, k: (u64, u64), v: ColumnModel, other: StoredModel)
    requires
        !(other is Column),
    ensures
        ({
            let key = CurrentKey::Entity(EntityKey::Column { table_id: k.0, column_id: k.1 });
            &&& with_live(m, key, Some(StoredModel::Column(v))) == Ok::<CatalogModel, Fault>(
                CatalogModel { columns: m.columns.insert(k, v), ..m },
            )
            &&& with_live(m, key, None) == Ok::<CatalogModel, Fault>(
                CatalogModel { columns: m.columns.remove(k), ..m },
            )
            &&& with_live(m, key, Some(other)) is Err
            &&& with_live(m, key, Some(other))->Err_0 is Corruption
        }),
{
}

/// A commit leaves under the key of a column what the new state has of it.
pub proof fn column_records_are_kept(base: CatalogModel, state: CatalogModel, n: u64, k: (u64, u64))
    requires
        finite_state(base),
        finite_state(state),
        base.mappings.dom().subset_of(state.mappings.dom()),
        file_stats_reach(base, state),
    ensures
        after(
            diff(base, state, n),
            KeyModel::Current(CurrentKey::Entity(EntityKey::Column { table_id: k.0, column_id: k.1 })),
            kept(base.columns, k, |v: ColumnModel| StoredModel::Column(v)),
        ) == kept(state.columns, k, |v: ColumnModel| StoredModel::Column(v)),
{
    let key = CurrentKey::Entity(EntityKey::Column { table_id: k.0, column_id: k.1 });
    writes_turn_base_into_state(base, state, n, key);
    assert(live_value(base, key) == kept(base.columns, k, |v: ColumnModel| StoredModel::Column(v)));
    assert(live_value(state, key) == kept(state.columns, k, |v: ColumnModel| StoredModel::Column(v)));
}

/// A column that goes or is replaced by more than other tags is in history, as it was but for
/// its end, which is the commit's snapshot; no other is.
pub proof fn column_versions_end_in_history(
    base: CatalogModel,
    state: CatalogModel,
    n: u64,
    k: (u64, u64),
    before: Option<StoredModel>,
)
    requires
        finite_state(base),
        finite_state(state),
    ensures
        ({
            let b = base.columns[k];
            let s = state.columns[k];
            let ends = base.columns.contains_key(k) && (!state.columns.contains_key(k) || b != (ColumnModel { tags: b.tags, ..s }));
            after(
                diff(base, state, n),
                KeyModel::History(HistoryKey { entity: EntityKey::Column { table_id: k.0, column_id: k.1 }, end_snapshot: n }),
                before,
            ) == (if ends {
                Some(StoredModel::Column(ColumnModel { end_snapshot: Some(n), ..b }))
            } else {
                before
            })
        }),
{
    ended_versions_move_to_history(base, state, n, EntityKey::Column { table_id: k.0, column_id: k.1 }, before);
}

/// Folding a data file record puts it under its key, or takes it away; a value of
/// another kind is refused there.
pub proof fn data_file_records_fold(m: CatalogModel, k: (u64, u64), v: DataFileModel, other: StoredModel)
    requires
        !(other is DataFile),
    ensures
        ({
            let key = CurrentKey::Entity(EntityKey::File { table_id: k.0, data_file_id: k.1 });
            &&& with_live(m, key, Some(StoredModel::DataFile(v))) == Ok::<CatalogModel, Fault>(
                CatalogModel { data_files: m.data_files.insert(k, v), ..m },
            )
            &&& with_live(m, key, None) == Ok::<CatalogModel, Fault>(
                CatalogModel { data_files: m.data_files.remove(k), ..m },
            )
            &&& with_live(m, key, Some(other)) is Err
            &&& with_live(m, key, Some(other))->Err_0 is Corruption
        }),
{
}

/// A commit leaves under the key of a data file what the new state has of it.
pub proof fn data_file_records_are_kept(base: CatalogModel, state: CatalogModel, n: u64, k: (u64, u64))
    requires
        finite_state(base),
        finite_state(state),
        base.mappings.dom().subset_of(state.mappings.dom()),
        file_stats_reach(base, state),
    ensures
        after(
            diff(base, state, n),
            KeyModel::Current(CurrentKey::Entity(EntityKey::File { table_id: k.0, data_file_id: k.1 })),
            kept(base.data_files, k, |v: DataFileModel| StoredModel::DataFile(v)),
        ) == kept(state.data_files, k, |v: DataFileModel| StoredModel::DataFile(v)),
{
    let key = CurrentKey::Entity(EntityKey::File { table_id: k.0, data_file_id: k.1 });
    writes_turn_base_into_state(base, state, n, key);
    assert(live_value(base, key) == kept(base.data_files, k, |v: DataFileModel| StoredModel::DataFile(v)));
    assert(live_value(state, key) == kept(state.data_files, k, |v: DataFileModel| StoredModel::DataFile(v)));
}

/// A data file that goes or is replaced is in history, as it was but for
/// its end, which is the commit's snapshot; no other is.
pub proof fn data_file_versions_end_in_history(
    base: CatalogModel,
    state: CatalogModel,
    n: u64,
    k: (u64, u64),
    before: Option<StoredModel>,
)
    requires
        finite_state(base),
        finite_state(state),
    ensures
        ({
            let b = base.data_files[k];
            let s = state.data_files[k];
            let ends = base.data_files.contains_key(k) && (!state.data_files.contains_key(k) || b != s);
            after(
                diff(base, state, n),
                KeyModel::History(HistoryKey { entity: EntityKey::File { table_id: k.0, data_file_id: k.1 }, end_snapshot: n }),
                before,
            ) == (if ends {
                Some(StoredModel::DataFile(DataFileModel { end_snapshot: Some(n), ..b }))
            } else {
                before
            })
        }),
{
    ended_versions_move_to_history(base, state, n, EntityKey::File { table_id: k.0, data_file_id: k.1 }, before);
}

/// Folding a delete file record puts it under its key, or takes it away; a value of
/// another kind is refused there.
pub proof fn delete_file_records_fold(m: CatalogModel, k: (u64, u64), v: DeleteFileModel, other: StoredModel)
    requires
        !(other is DeleteFile),
    ensures
        ({
            let key = CurrentKey::Entity(EntityKey::DeleteFile { table_id: k.0, delete_file_id: k.1 });
            &&& with_live(m, key, Some(StoredModel::DeleteFile(v))) == Ok::<CatalogModel, Fault>(
                CatalogModel { delete_files: m.delete_files.insert(k, v), ..m },
            )
            &&& with_live(m, key, None) == Ok::<CatalogModel, Fault>(
                CatalogModel { delete_files: m.delete_files.remove(k), ..m },
            )
            &&& with_live(m, key, Some(other)) is Err
            &&& with_live(m, key, Some(other))->Err_0 is Corruption
        }),
{
}

/// A commit leaves under the key of a delete file what the new state has of it.
pub proof fn delete_file_records_are_kept(base: CatalogModel, state: CatalogModel, n: u64, k: (u64, u64))
    requires
        finite_state(base),
        finite_state(state),
        base.mappings.dom().subset_of(state.mappings.dom()),
        file_stats_reach(base, state),
    ensures
        after(
            diff(base, state, n),
            KeyModel::Current(CurrentKey::Entity(EntityKey::DeleteFile { table_id: k.0, delete_file_id: k.1 })),
            kept(base.delete_files, k, |v: DeleteFileModel| StoredModel::DeleteFile(v)),
        ) == kept(state.delete_files, k, |v: DeleteFileModel| StoredModel::DeleteFile(v)),
{
    let key = CurrentKey::Entity(EntityKey::DeleteFile { table_id: k.0, delete_file_id: k.1 });
    writes_turn_base_into_state(base, state, n, key);
    assert(live_value(base, key) == kept(base.delete_files, k, |v: DeleteFileModel| StoredModel::DeleteFile(v)));
    assert(live_value(state, key) == kept(state.delete_files, k, |v: DeleteFileModel| StoredModel::DeleteFile(v)));
}

/// A delete file that goes or is replaced is in history, as it was but for
/// its end, which is the commit's snapshot; no other is.
pub proof fn delete_file_versions_end_in_history(
    base: CatalogModel,
    state: CatalogModel,
    n: u64,
    k: (u64, u64),
    before: Option<StoredModel>,
)
    requires
        finite_state(base),
        finite_state(state),
    ensures
        ({
            let b = base.delete_files[k];
            let s = state.delete_files[k];
            let ends = base.delete_files.contains_key(k) && (!state.delete_files.contains_key(k) || b != s);
            after(
                diff(base, state, n),
                KeyModel::History(HistoryKey { entity: EntityKey::DeleteFile { table_id: k.0, delete_file_id: k.1 }, end_snapshot: n }),
                before,
            ) == (if ends {
                Some(StoredModel::DeleteFile(DeleteFileModel { end_snapshot: Some(n), ..b }))
            } else {
                before
            })
        }),
{
    ended_versions_move_to_history(base, state, n, EntityKey::DeleteFile { table_id: k.0, delete_file_id: k.1 }, before);
}

/// Folding a partition record puts it under its key, or takes it away; a value of
/// another kind is refused there.
pub proof fn partition_records_fold(m: CatalogModel, k: (u64, u64), v: PartitionModel, other: StoredModel)
    requires
        !(other is Partition),
    ensures
        ({
            let key = CurrentKey::Entity(EntityKey::Partition { table_id: k.0, partition_id: k.1 });
            &&& with_live(m, key, Some(StoredModel::Partition(v))) == Ok::<CatalogModel, Fault>(
                CatalogModel { partitions: m.partitions.insert(k, v), ..m },
            )
            &&& with_live(m, key, None) == Ok::<CatalogModel, Fault>(
                CatalogModel { partitions: m.partitions.remove(k), ..m },
            )
            &&& with_live(m, key, Some(other)) is Err
            &&& with_live(m, key, Some(other))->Err_0 is Corruption
        }),
{
}

/// A commit leaves under the key of a partition what the new state has of it.
pub proof fn partition_records_are_kept(base: CatalogModel, state: CatalogModel, n: u64, k: (u64, u64))
    requires
        finite_state(base),
        finite_state(state),
        base.mappings.dom().subset_of(state.mappings.dom()),
        file_stats_reach(base, state),
    ensures
        after(
            diff(base, state, n),
            KeyModel::Current(CurrentKey::Entity(EntityKey::Partition { table_id: k.0, partition_id: k.1 })),
            kept(base.partitions, k, |v: PartitionModel| StoredModel::Partition(v)),
        ) == kept(state.partitions, k, |v: PartitionModel| StoredModel::Partition(v)),
{
    let key = CurrentKey::Entity(EntityKey::Partition { table_id: k.0, partition_id: k.1 });
    writes_turn_base_into_state(base, state, n, key);
    assert(live_value(base, key) == kept(base.partitions, k, |v: PartitionModel| StoredModel::Partition(v)));
    assert(live_value(state, key) == kept(state.partitions, k, |v: PartitionModel| StoredModel::Partition(v)));
}

/// A partition that goes or is replaced is in history, as it was but for
/// its end, which is the commit's snapshot; no other is.
pub proof fn partition_versions_end_in_history(
    base: CatalogModel,
    state: CatalogModel,
    n: u64,
    k: (u64, u64),
    before: Option<StoredModel>,
)
    requires
        finite_state(base),
        finite_state(state),
    ensures
        ({
            let b = base.partitions[k];
            let s = state.partitions[k];
            let ends = base.partitions.contains_key(k) && (!state.partitions.contains_key(k) || b != s);
            after(
                diff(base, state, n),
                KeyModel::History(HistoryKey { entity: EntityKey::Partition { table_id: k.0, partition_id: k.1 }, end_snapshot: n }),
                before,
            ) == (if ends {
                Some(StoredModel::Partition(PartitionModel { end_snapshot: Some(n), ..b }))
            } else {
                before
            })
        }),
{
    ended_versions_move_to_history(base, state, n, EntityKey::Partition { table_id: k.0, partition_id: k.1 }, before);
}

/// Folding a sort record puts it under its key, or takes it away; a value of
/// another kind is refused there.
pub proof fn sort_records_fold(m: CatalogModel, k: (u64, u64), v: SortModel, other: StoredModel)
    requires
        !(other is Sort),
    ensures
        ({
            let key = CurrentKey::Entity(EntityKey::Sort { table_id: k.0, sort_id: k.1 });
            &&& with_live(m, key, Some(StoredModel::Sort(v))) == Ok::<CatalogModel, Fault>(
                CatalogModel { sorts: m.sorts.insert(k, v), ..m },
            )
            &&& with_live(m, key, None) == Ok::<CatalogModel, Fault>(
                CatalogModel { sorts: m.sorts.remove(k), ..m },
            )
            &&& with_live(m, key, Some(other)) is Err
            &&& with_live(m, key, Some(other))->Err_0 is Corruption
        }),
{
}

/// A commit leaves under the key of a sort what the new state has of it.
pub proof fn sort_records_are_kept(base: CatalogModel, state: CatalogModel, n: u64, k: (u64, u64))
    requires
        finite_state(base),
        finite_state(state),
        base.mappings.dom().subset_of(state.mappings.dom()),
        file_stats_reach(base, state),
    ensures
        after(
            diff(base, state, n),
            KeyModel::Current(CurrentKey::Entity(EntityKey::Sort { table_id: k.0, sort_id: k.1 })),
            kept(base.sorts, k, |v: SortModel| StoredModel::Sort(v)),
        ) == kept(state.sorts, k, |v: SortModel| StoredModel::Sort(v)),
{
    let key = CurrentKey::Entity(EntityKey::Sort { table_id: k.0, sort_id: k.1 });
    writes_turn_base_into_state(base, state, n, key);
    assert(live_value(base, key) == kept(base.sorts, k, |v: SortModel| StoredModel::Sort(v)));
    assert(live_value(state, key) == kept(state.sorts, k, |v: SortModel| StoredModel::Sort(v)));
}

/// A sort that goes or is replaced is in history, as it was but for
/// its end, which is the commit's snapshot; no other is.
pub proof fn sort_versions_end_in_history(
    base: CatalogModel,
    state: CatalogModel,
    n: u64,
    k: (u64, u64),
    before: Option<StoredModel>,
)
    requires
        finite_state(base),
        finite_state(state),
    ensures
        ({
            let b = base.sorts[k];
            let s = state.sorts[k];
            let ends = base.sorts.contains_key(k) && (!state.sorts.contains_key(k) || b != s);
            after(
                diff(base, state, n),
                KeyModel::History(HistoryKey { entity: EntityKey::Sort { table_id: k.0, sort_id: k.1 }, end_snapshot: n }),
                before,
            ) == (if ends {
                Some(StoredModel::Sort(SortModel { end_snapshot: Some(n), ..b }))
            } else {
                before
            })
        }),
{
    ended_versions_move_to_history(base, state, n, EntityKey::Sort { table_id: k.0, sort_id: k.1 }, before);
}

/// Folding a index record puts it under its key, or takes it away; a value of
/// another kind is refused there.
pub proof fn index_records_fold(m: CatalogModel, k: (u64, u64), v: IndexModel, other: StoredModel)
    requires
        !(other is Index),
    ensures
        ({
            let key = CurrentKey::Entity(EntityKey::Index { table_id: k.0, index_id: k.1 });
            &&& with_live(m, key, Some(StoredModel::Index(v))) == Ok::<CatalogModel, Fault>(
                CatalogModel { indexes: m.indexes.insert(k, v), ..m },
            )
            &&& with_live(m, key, None) == Ok::<CatalogModel, Fault>(
                CatalogModel { indexes: m.indexes.remove(k), ..m },
            )
            &&& with_live(m, key, Some(other)) is Err
            &&& with_live(m, key, Some(other))->Err_0 is Corruption
        }),
{
}

/// A commit leaves under the key of a index what the new state has of it.
pub proof fn index_records_are_kept(base: CatalogModel, state: CatalogModel, n: u64, k: (u64, u64))
    requires
        finite_state(base),
        finite_state(state),
        base.mappings.dom().subset_of(state.mappings.dom()),
        file_stats_reach(base, state),
    ensures
        after(
            diff(base, state, n),
            KeyModel::Current(CurrentKey::Entity(EntityKey::Index { table_id: k.0, index_id: k.1 })),
            kept(base.indexes, k, |v: IndexModel| StoredModel::Index(v)),
        ) == kept(state.indexes, k, |v: IndexModel| StoredModel::Index(v)),
{
    let key = CurrentKey::Entity(EntityKey::Index { table_id: k.0, index_id: k.1 });
    writes_turn_base_into_state(base, state, n, key);
    assert(live_value(base, key) == kept(base.indexes, k, |v: IndexModel| StoredModel::Index(v)));
    assert(live_value(state, key) == kept(state.indexes, k, |v: IndexModel| StoredModel::Index(v)));
}

/// A index that goes or is replaced is in history, as it was but for
/// its end, which is the commit's snapshot; no other is.
pub proof fn index_versions_end_in_history(
    base: CatalogModel,
    state: CatalogModel,
    n: u64,
    k: (u64, u64),
    before: Option<StoredModel>,
)
    requires
        finite_state(base),
        finite_state(state),
    ensures
        ({
            let b = base.indexes[k];
            let s = state.indexes[k];
            let ends = base.indexes.contains_key(k) && (!state.indexes.contains_key(k) || b != s);
            after(
                diff(base, state, n),
                KeyModel::History(HistoryKey { entity: EntityKey::Index { table_id: k.0, index_id: k.1 }, end_snapshot: n }),
                before,
            ) == (if ends {
                Some(StoredModel::Index(IndexModel { end_snapshot: Some(n), ..b }))
            } else {
                before
            })
        }),
{
    ended_versions_move_to_history(base, state, n, EntityKey::Index { table_id: k.0, index_id: k.1 }, before);
}

/// Folding a macro record puts it under its key, or takes it away; a value of
/// another kind is refused there.
pub proof fn macro_records_fold(m: CatalogModel, k: u64, v: MacroModel, other: StoredModel)
    requires
        !(other is Macro),
    ensures
        ({
            let key = CurrentKey::Entity(EntityKey::Macro { macro_id: k });
            &&& with_live(m, key, Some(StoredModel::Macro(v))) == Ok::<CatalogModel, Fault>(
                CatalogModel { macros: m.macros.insert(k, v), ..m },
            )
            &&& with_live(m, key, None) == Ok::<CatalogModel, Fault>(
                CatalogModel { macros: m.macros.remove(k), ..m },
            )
            &&& with_live(m, key, Some(other)) is Err
            &&& with_live(m, key, Some(other))->Err_0 is Corruption
        }),
{
}

/// A commit leaves under the key of a macro what the new state has of it.
pub proof fn macro_records_are_kept(base: CatalogModel, state: CatalogModel, n: u64, k: u64)
    requires
        finite_state(base),
        finite_state(state),
        base.mappings.dom().subset_of(state.mappings.dom()),
        file_stats_reach(base, state),
    ensures
        after(
            diff(base, state, n),
            KeyModel::Current(CurrentKey::Entity(EntityKey::Macro { macro_id: k })),
            kept(base.macros, k, |v: MacroModel| StoredModel::Macro(v)),
        ) == kept(state.macros, k, |v: MacroModel| StoredModel::Macro(v)),
{
    let key = CurrentKey::Entity(EntityKey::Macro { macro_id: k });
    writes_turn_base_into_state(base, state, n, key);
    assert(live_value(base, key) == kept(base.macros, k, |v: MacroModel| StoredModel::Macro(v)));
    assert(live_value(state, key) == kept(state.macros, k, |v: MacroModel| StoredModel::Macro(v)));
}

/// A macro that goes or is replaced is in history, as it was but for
/// its end, which is the commit's snapshot; no other is.
pub proof fn macro_versions_end_in_history(
    base: CatalogModel,
    state: CatalogModel,
    n: u64,
    k: u64,
    before: Option<StoredModel>,
)
    requires
        finite_state(base),
        finite_state(state),
    ensures
        ({
            let b = base.macros[k];
            let s = state.macros[k];
            let ends = base.macros.contains_key(k) && (!state.macros.contains_key(k) || b != s);
            after(
                diff(base, state, n),
                KeyModel::History(HistoryKey { entity: EntityKey::Macro { macro_id: k }, end_snapshot: n }),
                before,
            ) == (if ends {
                Some(StoredModel::Macro(MacroModel { end_snapshot: Some(n), ..b }))
            } else {
                before
            })
        }),
{
    ended_versions_move_to_history(base, state, n, EntityKey::Macro { macro_id: k }, before);
}

/// Folding a mapping record puts it under its key, or takes it away; a value of
/// another kind is refused there.
pub proof fn mapping_records_fold(m: CatalogModel, k: (u64, u64), v: MappingModel, other: StoredModel)
    requires
        !(other is Mapping),
    ensures
        ({
            let key = CurrentKey::Entity(EntityKey::Mapping { table_id: k.0, mapping_id: k.1 });
            &&& with_live(m, key, Some(StoredModel::Mapping(v))) == Ok::<CatalogModel, Fault>(
                CatalogModel { mappings: m.mappings.insert(k, v), ..m },
            )
            &&& with_live(m, key, None) == Ok::<CatalogModel, Fault>(
                CatalogModel { mappings: m.mappings.remove(k), ..m },
            )
            &&& with_live(m, key, Some(other)) is Err
            &&& with_live(m, key, Some(other))->Err_0 is Corruption
        }),
{
}

/// A commit leaves under the key of a mapping what the new state has of it.
pub proof fn mapping_records_are_kept(base: CatalogModel, state: CatalogModel, n: u64, k: (u64, u64))
    requires
        finite_state(base),
        finite_state(state),
        base.mappings.dom().subset_of(state.mappings.dom()),
        file_stats_reach(base, state),
    ensures
        after(
            diff(base, state, n),
            KeyModel::Current(CurrentKey::Entity(EntityKey::Mapping { table_id: k.0, mapping_id: k.1 })),
            kept(base.mappings, k, |v: MappingModel| StoredModel::Mapping(v)),
        ) == kept(state.mappings, k, |v: MappingModel| StoredModel::Mapping(v)),
{
    let key = CurrentKey::Entity(EntityKey::Mapping { table_id: k.0, mapping_id: k.1 });
    writes_turn_base_into_state(base, state, n, key);
    assert(live_value(base, key) == kept(base.mappings, k, |v: MappingModel| StoredModel::Mapping(v)));
    assert(live_value(state, key) == kept(state.mappings, k, |v: MappingModel| StoredModel::Mapping(v)));
}

/// Folding a table stats record puts it under its key, or takes it away; a value of
/// another kind is refused there.
pub proof fn table_stats_records_fold(m: CatalogModel, k: u64, v: TableStatsModel, other: StoredModel)
    requires
        !(other is TableStats),
    ensures
        ({
            let key = CurrentKey::Entity(EntityKey::TableStats { table_id: k });
            &&& with_live(m, key, Some(StoredModel::TableStats(v))) == Ok::<CatalogModel, Fault>(
                CatalogModel { table_stats: m.table_stats.insert(k, v), ..m },
            )
            &&& with_live(m, key, None) == Ok::<CatalogModel, Fault>(
                CatalogModel { table_stats: m.table_stats.remove(k), ..m },
            )
            &&& with_live(m, key, Some(other)) is Err
            &&& with_live(m, key, Some(other))->Err_0 is Corruption
        }),
{
}

/// A commit leaves under the key of a table stats what the new state has of it.
pub proof fn table_stats_records_are_kept(base: CatalogModel, state: CatalogModel, n: u64, k: u64)
    requires
        finite_state(base),
        finite_state(state),
        base.mappings.dom().subset_of(state.mappings.dom()),
        file_stats_reach(base, state),
    ensures
        after(
            diff(base, state, n),
            KeyModel::Current(CurrentKey::Entity(EntityKey::TableStats { table_id: k })),
            kept(base.table_stats, k, |v: TableStatsModel| StoredModel::TableStats(v)),
        ) == kept(state.table_stats, k, |v: TableStatsModel| StoredModel::TableStats(v)),
{
    let key = CurrentKey::Entity(EntityKey::TableStats { table_id: k });
    writes_turn_base_into_state(base, state, n, key);
    assert(live_value(base, key) == kept(base.table_stats, k, |v: TableStatsModel| StoredModel::TableStats(v)));
    assert(live_value(state, key) == kept(state.table_stats, k, |v: TableStatsModel| StoredModel::TableStats(v)));
}

/// Folding a table column stats record puts it under its key, or takes it away; a value of
/// another kind is refused there.
pub proof fn table_column_stats_records_fold(m: CatalogModel, k: (u64, u64), v: TableColumnStatsModel, other: StoredModel)
    requires
        !(other is TableColumnStats),
    ensures
        ({
            let key = CurrentKey::Entity(EntityKey::TableColumnStats { table_id: k.0, column_id: k.1 });
            &&& with_live(m, key, Some(StoredModel::TableColumnStats(v))) == Ok::<CatalogModel, Fault>(
                CatalogModel { table_column_stats: m.table_column_stats.insert(k, v), ..m },
            )
            &&& with_live(m, key, None) == Ok::<CatalogModel, Fault>(
                CatalogModel { table_column_stats: m.table_column_stats.remove(k), ..m },
            )
            &&& with_live(m, key, Some(other)) is Err
            &&& with_live(m, key, Some(other))->Err_0 is Corruption
        }),
{
}

/// A commit leaves under the key of a table column stats what the new state has of it.
pub proof fn table_column_stats_records_are_kept(base: CatalogModel, state: CatalogModel, n: u64, k: (u64, u64))
    requires
        finite_state(base),
        finite_state(state),
        base.mappings.dom().subset_of(state.mappings.dom()),
        file_stats_reach(base, state),
    ensures
        after(
            diff(base, state, n),
            KeyModel::Current(CurrentKey::Entity(EntityKey::TableColumnStats { table_id: k.0, column_id: k.1 })),
            kept(base.table_column_stats, k, |v: TableColumnStatsModel| StoredModel::TableColumnStats(v)),
        ) == kept(state.table_column_stats, k, |v: TableColumnStatsModel| StoredModel::TableColumnStats(v)),
{
    let key = CurrentKey::Entity(EntityKey::TableColumnStats { table_id: k.0, column_id: k.1 });
    writes_turn_base_into_state(base, state, n, key);
    assert(live_value(base, key) == kept(base.table_column_stats, k, |v: TableColumnStatsModel| StoredModel::TableColumnStats(v)));
    assert(live_value(state, key) == kept(state.table_column_stats, k, |v: TableColumnStatsModel| StoredModel::TableColumnStats(v)));
}

/// Folding a file column stats record puts it under its key, or takes it away; a value of
/// another kind is refused there.
pub proof fn file_column_stats_records_fold(m: CatalogModel, k: (u64, (u64, u64)), v: FileColumnStatsModel, other: StoredModel)
    requires
        !(other is FileColumnStats),
    ensures
        ({
            let key = CurrentKey::Entity(EntityKey::FileColumnStats {
            table_id: k.0,
            data_file_id: k.1.0,
            column_id: k.1.1,
        });
            &&& with_live(m, key, Some(StoredModel::FileColumnStats(v))) == Ok::<CatalogModel, Fault>(
                CatalogModel { file_column_stats: m.file_column_stats.insert(k, v), ..m },
            )
            &&& with_live(m, key, None) == Ok::<CatalogModel, Fault>(
                CatalogModel { file_column_stats: m.file_column_stats.remove(k), ..m },
            )
            &&& with_live(m, key, Some(other)) is Err
            &&& with_live(m, key, Some(other))->Err_0 is Corruption
        }),
{
}

/// A commit leaves under the key of a file column stats what the new state has of it.
pub proof fn file_column_stats_records_are_kept(base: CatalogModel, state: CatalogModel, n: u64, k: (u64, (u64, u64)))
    requires
        finite_state(base),
        finite_state(state),
        base.mappings.dom().subset_of(state.mappings.dom()),
        file_stats_reach(base, state),
    ensures
        after(
            diff(base, state, n),
            KeyModel::Current(CurrentKey::Entity(EntityKey::FileColumnStats {
            table_id: k.0,
            data_file_id: k.1.0,
            column_id: k.1.1,
        })),
            kept(base.file_column_stats, k, |v: FileColumnStatsModel| StoredModel::FileColumnStats(v)),
        ) == kept(state.file_column_stats, k, |v: FileColumnStatsModel| StoredModel::FileColumnStats(v)),
{
    let key = CurrentKey::Entity(EntityKey::FileColumnStats {
            table_id: k.0,
            data_file_id: k.1.0,
            column_id: k.1.1,
        });
    writes_turn_base_into_state(base, state, n, key);
    assert(live_value(base, key) == kept(base.file_column_stats, k, |v: FileColumnStatsModel| StoredModel::FileColumnStats(v)));
    assert(live_value(state, key) == kept(state.file_column_stats, k, |v: FileColumnStatsModel| StoredModel::FileColumnStats(v)));
}

/// Folding a option record puts it under its key, or takes it away; a value of
/// another kind is refused there.
pub proof fn option_records_fold(m: CatalogModel, k: (u64, u64), v: OptionScopeModel, other: StoredModel)
    requires
        !(other is OptionScope),
    ensures
        ({
            let key = CurrentKey::Entity(EntityKey::OptionScope { scope_kind: k.0, scope_id: k.1 });
            &&& with_live(m, key, Some(StoredModel::OptionScope(v))) == Ok::<CatalogModel, Fault>(
                CatalogModel { options: m.options.insert(k, v), ..m },
            )
            &&& with_live(m, key, None) == Ok::<CatalogModel, Fault>(
                CatalogModel { options: m.options.remove(k), ..m },
            )
            &&& with_live(m, key, Some(other)) is Err
            &&& with_live(m, key, Some(other))->Err_0 is Corruption
        }),
{
}

/// A commit leaves under the key of a option what the new state has of it.
pub proof fn option_records_are_kept(base: CatalogModel, state: CatalogModel, n: u64, k: (u64, u64))
    requires
        finite_state(base),
        finite_state(state),
        base.mappings.dom().subset_of(state.mappings.dom()),
        file_stats_reach(base, state),
    ensures
        after(
            diff(base, state, n),
            KeyModel::Current(CurrentKey::Entity(EntityKey::OptionScope { scope_kind: k.0, scope_id: k.1 })),
            kept(base.options, k, |v: OptionScopeModel| StoredModel::OptionScope(v)),
        ) == kept(state.options, k, |v: OptionScopeModel| StoredModel::OptionScope(v)),
{
    let key = CurrentKey::Entity(EntityKey::OptionScope { scope_kind: k.0, scope_id: k.1 });
    writes_turn_base_into_state(base, state, n, key);
    assert(live_value(base, key) == kept(base.options, k, |v: OptionScopeModel| StoredModel::OptionScope(v)));
    assert(live_value(state, key) == kept(state.options, k, |v: OptionScopeModel| StoredModel::OptionScope(v)));
}

/// Folding a tag record puts it under its key, or takes it away; a value of
/// another kind is refused there.
pub proof fn tag_records_fold(m: CatalogModel, k: u64, v: TagModel, other: StoredModel)
    requires
        !(other is Tag),
    ensures
        ({
            let key = CurrentKey::Entity(EntityKey::Tag { object_id: k });
            &&& with_live(m, key, Some(StoredModel::Tag(v))) == Ok::<CatalogModel, Fault>(
                CatalogModel { tags: m.tags.insert(k, v), ..m },
            )
            &&& with_live(m, key, None) == Ok::<CatalogModel, Fault>(
                CatalogModel { tags: m.tags.remove(k), ..m },
            )
            &&& with_live(m, key, Some(other)) is Err
            &&& with_live(m, key, Some(other))->Err_0 is Corruption
        }),
{
}

/// A commit leaves under the key of a tag what the new state has of it.
pub proof fn tag_records_are_kept(base: CatalogModel, state: CatalogModel, n: u64, k: u64)
    requires
        finite_state(base),
        finite_state(state),
        base.mappings.dom().subset_of(state.mappings.dom()),
        file_stats_reach(base, state),
    ensures
        after(
            diff(base, state, n),
            KeyModel::Current(CurrentKey::Entity(EntityKey::Tag { object_id: k })),
            kept(base.tags, k, |v: TagModel| StoredModel::Tag(v)),
        ) == kept(state.tags, k, |v: TagModel| StoredModel::Tag(v)),
{
    let key = CurrentKey::Entity(EntityKey::Tag { object_id: k });
    writes_turn_base_into_state(base, state, n, key);
    assert(live_value(base, key) == kept(base.tags, k, |v: TagModel| StoredModel::Tag(v)));
    assert(live_value(state, key) == kept(state.tags, k, |v: TagModel| StoredModel::Tag(v)));
}

/// Folding a gc file record puts it under its key, or takes it away; a value of
/// another kind is refused there.
pub proof fn gc_file_records_fold(m: CatalogModel, k: u64, v: GcFileModel, other: StoredModel)
    requires
        !(other is GcFile),
    ensures
        ({
            let key = CurrentKey::GcFile { data_file_id: k };
            &&& with_live(m, key, Some(StoredModel::GcFile(v))) == Ok::<CatalogModel, Fault>(
                CatalogModel { gc_files: m.gc_files.insert(k, v), ..m },
            )
            &&& with_live(m, key, None) == Ok::<CatalogModel, Fault>(
                CatalogModel { gc_files: m.gc_files.remove(k), ..m },
            )
            &&& with_live(m, key, Some(other)) is Err
            &&& with_live(m, key, Some(other))->Err_0 is Corruption
        }),
{
}

/// A commit leaves under the key of a gc file what the new state has of it.
pub proof fn gc_file_records_are_kept(base: CatalogModel, state: CatalogModel, n: u64, k: u64)
    requires
        finite_state(base),
        finite_state(state),
        base.mappings.dom().subset_of(state.mappings.dom()),
        file_stats_reach(base, state),
    ensures
        after(
            diff(base, state, n),
            KeyModel::Current(CurrentKey::GcFile { data_file_id: k }),
            kept(base.gc_files, k, |v: GcFileModel| StoredModel::GcFile(v)),
        ) == kept(state.gc_files, k, |v: GcFileModel| StoredModel::GcFile(v)),
{
    let key = CurrentKey::GcFile { data_file_id: k };
    writes_turn_base_into_state(base, state, n, key);
    assert(live_value(base, key) == kept(base.gc_files, k, |v: GcFileModel| StoredModel::GcFile(v)));
    assert(live_value(state, key) == kept(state.gc_files, k, |v: GcFileModel| StoredModel::GcFile(v)));
}

} // verus!
