//! Which keys the writes of a diff touch.
use crate::catalog::CatalogModel;
use crate::diff::{
    at, diff, file_stats_diff, file_stats_writes, has_file, mapping_diff, overwrite, overwrite_diff,
    overwrites, transition, transitions, versioned_diff,
};
use crate::entities::{Live, Versioned};
use crate::keys::{CurrentKey, EntityKey, KeyModel, WriteModel};
use crate::ordered::ascending;
use crate::records::{
    ColumnValue, DataFileValue, DeleteFileValue, FileColumnStatsValue, GcFileValue, IndexValue,
    MacroValue, MappingValue, OptionScopeValue, PartitionValue, SchemaValue, SortValue,
    TableColumnStatsValue, TableStatsValue, TableValue, TagValue, ViewValue,
};
use vstd::prelude::*;

verus! {

/// Whether a key is one of a per-file statistics record.
pub open spec fn is_file_stats(key: KeyModel) -> bool {
    match key {
        KeyModel::Current(CurrentKey::Entity(EntityKey::FileColumnStats { .. })) => true,
        _ => false,
    }
}

/// Whether a key may be written by a diff: a live record or a version that ends
/// at the new snapshot, and, of per-file statistics, one whose data file is on
/// either side.
pub open spec fn diff_key(base: CatalogModel, state: CatalogModel, n: u64, key: KeyModel) -> bool {
    match key {
        KeyModel::Current(CurrentKey::Entity(
            EntityKey::FileColumnStats { table_id, data_file_id, column_id },
        )) => has_file(
            (table_id, (data_file_id, column_id)),
            base.data_files,
            state.data_files,
        ),
        KeyModel::Current(_) => true,
        KeyModel::History(h) => h.end_snapshot == n,
        _ => false,
    }
}

/// Whether every write touches a key that a diff may write.
pub open spec fn diff_keys(
    base: CatalogModel,
    state: CatalogModel,
    n: u64,
    writes: Seq<WriteModel>,
) -> bool {
    forall|i: int| 0 <= i < writes.len() ==> diff_key(base, state, n, (#[trigger] writes[i]).0)
}

proof fn keys_of_both(
    base: CatalogModel,
    state: CatalogModel,
    n: u64,
    a: Seq<WriteModel>,
    b: Seq<WriteModel>,
)
    requires
        diff_keys(base, state, n, a),
        diff_keys(base, state, n, b),
    ensures
        diff_keys(base, state, n, a + b),
{
    assert forall|i: int| 0 <= i < (a + b).len() implies diff_key(
        base,
        state,
        n,
        (#[trigger] (a + b)[i]).0,
    ) by {
        if i < a.len() {
            assert((a + b)[i] == a[i]);
        } else {
            assert((a + b)[i] == b[i - a.len()]);
        }
    }
}

proof fn keys_of_transitions<V: Versioned>(
    from: CatalogModel,
    to: CatalogModel,
    ids: Seq<<V::Id as DeepView>::V>,
    base: Map<<V::Id as DeepView>::V, V::V>,
    state: Map<<V::Id as DeepView>::V, V::V>,
    new_snapshot: u64,
)
    requires
        forall|id: <V::Id as DeepView>::V| !is_file_stats(KeyModel::Current(#[trigger] V::key_of(id))),
    ensures
        diff_keys(from, to, new_snapshot, transitions::<V>(ids, base, state, new_snapshot)),
    decreases ids.len(),
{
    if ids.len() > 0 {
        keys_of_transitions::<V>(from, to, ids.drop_last(), base, state, new_snapshot);
        let id = ids.last();
        assert(!is_file_stats(KeyModel::Current(V::key_of(id))));
        keys_of_both(
            from,
            to,
            new_snapshot,
            transitions::<V>(ids.drop_last(), base, state, new_snapshot),
            transition::<V>(id, at(base, id), at(state, id), new_snapshot),
        );
    }
}

proof fn keys_of_overwrites<V: Live>(
    from: CatalogModel,
    to: CatalogModel,
    ids: Seq<<V::Id as DeepView>::V>,
    base: Map<<V::Id as DeepView>::V, V::V>,
    state: Map<<V::Id as DeepView>::V, V::V>,
    new_snapshot: u64,
)
    requires
        forall|id: <V::Id as DeepView>::V| !is_file_stats(KeyModel::Current(#[trigger] V::key_of(id))),
    ensures
        diff_keys(from, to, new_snapshot, overwrites::<V>(ids, base, state)),
    decreases ids.len(),
{
    if ids.len() > 0 {
        keys_of_overwrites::<V>(from, to, ids.drop_last(), base, state, new_snapshot);
        let id = ids.last();
        assert(!is_file_stats(KeyModel::Current(V::key_of(id))));
        keys_of_both(
            from,
            to,
            new_snapshot,
            overwrites::<V>(ids.drop_last(), base, state),
            overwrite::<V>(id, at(base, id), at(state, id)),
        );
    }
}

proof fn keys_of_file_stats(
    ids: Seq<(u64, (u64, u64))>,
    base: CatalogModel,
    state: CatalogModel,
    n: u64,
)
    ensures
        diff_keys(base, state, n, file_stats_writes(ids, base, state)),
    decreases ids.len(),
{
    if ids.len() > 0 {
        keys_of_file_stats(ids.drop_last(), base, state, n);
        let id = ids.last();
        if has_file(id, base.data_files, state.data_files) {
            keys_of_both(
                base,
                state,
                n,
                file_stats_writes(ids.drop_last(), base, state),
                overwrite::<FileColumnStatsValue>(
                    id,
                    at(base.file_column_stats, id),
                    at(state.file_column_stats, id),
                ),
            );
        }
    }
}

/// A diff writes live records and the versions that it ends alone: it leaves
/// what ended before, the head, the snapshots, inlined rows and index entries
/// as they are. It writes no statistics of a data file that came and went
/// within the commit.
pub proof fn diff_writes_catalog_keys(base: CatalogModel, state: CatalogModel, new_snapshot: u64)
    ensures
        diff_keys(base, state, new_snapshot, diff(base, state, new_snapshot)),
{
    let n = new_snapshot;
    let a = versioned_diff::<SchemaValue>(base.schemas, state.schemas, n);
    keys_of_transitions::<SchemaValue>(
        base,
        state,
        ascending::<u64>(base.schemas.dom().union(state.schemas.dom())),
        base.schemas,
        state.schemas,
        n,
    );
    let b = versioned_diff::<TableValue>(base.tables, state.tables, n);
    keys_of_transitions::<TableValue>(
        base,
        state,
        ascending::<u64>(base.tables.dom().union(state.tables.dom())),
        base.tables,
        state.tables,
        n,
    );
    keys_of_both(base, state, n, a, b);
    let a = a + b;
    let b = versioned_diff::<ViewValue>(base.views, state.views, n);
    keys_of_transitions::<ViewValue>(
        base,
        state,
        ascending::<u64>(base.views.dom().union(state.views.dom())),
        base.views,
        state.views,
        n,
    );
    keys_of_both(base, state, n, a, b);
    let a = a + b;
    let b = versioned_diff::<ColumnValue>(base.columns, state.columns, n);
    keys_of_transitions::<ColumnValue>(
        base,
        state,
        ascending::<(u64, u64)>(base.columns.dom().union(state.columns.dom())),
        base.columns,
        state.columns,
        n,
    );
    keys_of_both(base, state, n, a, b);
    let a = a + b;
    let b = versioned_diff::<DataFileValue>(base.data_files, state.data_files, n);
    keys_of_transitions::<DataFileValue>(
        base,
        state,
        ascending::<(u64, u64)>(base.data_files.dom().union(state.data_files.dom())),
        base.data_files,
        state.data_files,
        n,
    );
    keys_of_both(base, state, n, a, b);
    let a = a + b;
    let b = versioned_diff::<DeleteFileValue>(base.delete_files, state.delete_files, n);
    keys_of_transitions::<DeleteFileValue>(
        base,
        state,
        ascending::<(u64, u64)>(base.delete_files.dom().union(state.delete_files.dom())),
        base.delete_files,
        state.delete_files,
        n,
    );
    keys_of_both(base, state, n, a, b);
    let a = a + b;
    let b = versioned_diff::<PartitionValue>(base.partitions, state.partitions, n);
    keys_of_transitions::<PartitionValue>(
        base,
        state,
        ascending::<(u64, u64)>(base.partitions.dom().union(state.partitions.dom())),
        base.partitions,
        state.partitions,
        n,
    );
    keys_of_both(base, state, n, a, b);
    let a = a + b;
    let b = versioned_diff::<SortValue>(base.sorts, state.sorts, n);
    keys_of_transitions::<SortValue>(
        base,
        state,
        ascending::<(u64, u64)>(base.sorts.dom().union(state.sorts.dom())),
        base.sorts,
        state.sorts,
        n,
    );
    keys_of_both(base, state, n, a, b);
    let a = a + b;
    let b = versioned_diff::<IndexValue>(base.indexes, state.indexes, n);
    keys_of_transitions::<IndexValue>(
        base,
        state,
        ascending::<(u64, u64)>(base.indexes.dom().union(state.indexes.dom())),
        base.indexes,
        state.indexes,
        n,
    );
    keys_of_both(base, state, n, a, b);
    let a = a + b;
    let b = versioned_diff::<MacroValue>(base.macros, state.macros, n);
    keys_of_transitions::<MacroValue>(
        base,
        state,
        ascending::<u64>(base.macros.dom().union(state.macros.dom())),
        base.macros,
        state.macros,
        n,
    );
    keys_of_both(base, state, n, a, b);
    let a = a + b;
    let b = mapping_diff(base.mappings, state.mappings);
    keys_of_overwrites::<MappingValue>(
        base,
        state,
        ascending::<(u64, u64)>(state.mappings.dom()),
        base.mappings,
        state.mappings,
        n,
    );
    keys_of_both(base, state, n, a, b);
    let a = a + b;
    let b = overwrite_diff::<TableStatsValue>(base.table_stats, state.table_stats);
    keys_of_overwrites::<TableStatsValue>(
        base,
        state,
        ascending::<u64>(base.table_stats.dom().union(state.table_stats.dom())),
        base.table_stats,
        state.table_stats,
        n,
    );
    keys_of_both(base, state, n, a, b);
    let a = a + b;
    let b = overwrite_diff::<TableColumnStatsValue>(base.table_column_stats, state.table_column_stats);
    keys_of_overwrites::<TableColumnStatsValue>(
        base,
        state,
        ascending::<(u64, u64)>(base.table_column_stats.dom().union(state.table_column_stats.dom())),
        base.table_column_stats,
        state.table_column_stats,
        n,
    );
    keys_of_both(base, state, n, a, b);
    let a = a + b;
    let b = file_stats_diff(base, state);
    keys_of_file_stats(
        ascending::<(u64, (u64, u64))>(
            base.file_column_stats.dom().union(state.file_column_stats.dom()),
        ),
        base,
        state,
        n,
    );
    keys_of_both(base, state, n, a, b);
    let a = a + b;
    let b = overwrite_diff::<OptionScopeValue>(base.options, state.options);
    keys_of_overwrites::<OptionScopeValue>(
        base,
        state,
        ascending::<(u64, u64)>(base.options.dom().union(state.options.dom())),
        base.options,
        state.options,
        n,
    );
    keys_of_both(base, state, n, a, b);
    let a = a + b;
    let b = overwrite_diff::<TagValue>(base.tags, state.tags);
    keys_of_overwrites::<TagValue>(
        base,
        state,
        ascending::<u64>(base.tags.dom().union(state.tags.dom())),
        base.tags,
        state.tags,
        n,
    );
    keys_of_both(base, state, n, a, b);
    let a = a + b;
    let b = overwrite_diff::<GcFileValue>(base.gc_files, state.gc_files);
    keys_of_overwrites::<GcFileValue>(
        base,
        state,
        ascending::<u64>(base.gc_files.dom().union(state.gc_files.dom())),
        base.gc_files,
        state.gc_files,
        n,
    );
    keys_of_both(base, state, n, a, b);
    let a = a + b;
    assert(diff_keys(base, state, n, diff(base, state, n)));
}

} // verus!
