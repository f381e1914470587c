//! What a commit's batch does to a catalog: folding it into the catalog that
//! the commit was based on gives the state that the commit was about.
use crate::catalog::CatalogModel;
use crate::coalesce::commit_of;
use crate::commit::{format_writes, minted, prepared, PreparedModel};
use crate::diff::{
    at, diff, file_stats_diff, file_stats_writes, has_file, mapping_diff, overwrite, overwrite_diff,
    overwrites, transition, transitions, versioned_diff,
};
use crate::diff_laws::{file_stats_reach, finite_state, live_value, writes_turn_base_into_state};
use crate::entities::{Live, Versioned};
use crate::error::Fault;
use crate::fold::{belongs, folding_follows_the_store, with_writes};
use crate::index_entries::{additions, entry_writes, freed, removals, IndexEntryModel};
use crate::keys::{CurrentKey, EntityKey, KeyModel, WriteModel};
use crate::operations::OperationModel;
use crate::ordered::ascending;
use crate::records::{
    ColumnValue, DataFileValue, DeleteFileValue, FileColumnStatsValue, FormatModel, GcFileValue,
    IndexValue, MacroValue, MappingValue, OptionScopeValue, PartitionValue, SchemaValue, SortValue,
    TableColumnStatsValue, TableStatsValue, TableValue, TagValue, ViewValue,
};
use crate::slots::{replayed_slot, ReplayModel};
use vstd::prelude::*;

verus! {

/// Whether a write of a live record has a value of the record's kind.
pub open spec fn fits(write: WriteModel) -> bool {
    match write {
        (KeyModel::Current(key), Some(value)) => belongs(key, value),
        _ => true,
    }
}

/// Whether every write fits.
pub open spec fn all_fit(writes: Seq<WriteModel>) -> bool {
    forall|i: int| 0 <= i < writes.len() ==> fits(#[trigger] writes[i])
}

proof fn both_fit(a: Seq<WriteModel>, b: Seq<WriteModel>)
    requires
        all_fit(a),
        all_fit(b),
    ensures
        all_fit(a + b),
{
    assert forall|i: int| 0 <= i < (a + b).len() implies fits(#[trigger] (a + b)[i]) by {
        if i < a.len() {
            assert((a + b)[i] == a[i]);
        } else {
            assert((a + b)[i] == b[i - a.len()]);
        }
    }
}

/// Writes that fit can be folded.
proof fn fitting_writes_fold(m: CatalogModel, writes: Seq<WriteModel>)
    requires
        all_fit(writes),
    ensures
        with_writes(m, writes) is Ok,
    decreases writes.len(),
{
    if writes.len() > 0 {
        let front = writes.drop_last();
        assert forall|i: int| 0 <= i < front.len() implies fits(#[trigger] front[i]) by {
            assert(front[i] == writes[i]);
        }
        fitting_writes_fold(m, front);
        assert(fits(writes[writes.len() - 1]));
    }
}

proof fn transitions_fit<V: Versioned>(
    ids: Seq<<V::Id as DeepView>::V>,
    base: Map<<V::Id as DeepView>::V, V::V>,
    state: Map<<V::Id as DeepView>::V, V::V>,
    n: u64,
)
    requires
        forall|id: <V::Id as DeepView>::V, v: V::V|
            belongs(#[trigger] V::key_of(id), #[trigger] V::value_of(v)),
    ensures
        all_fit(transitions::<V>(ids, base, state, n)),
    decreases ids.len(),
{
    if ids.len() > 0 {
        transitions_fit::<V>(ids.drop_last(), base, state, n);
        let id = ids.last();
        both_fit(
            transitions::<V>(ids.drop_last(), base, state, n),
            transition::<V>(id, at(base, id), at(state, id), n),
        );
    }
}

proof fn overwrites_fit<V: Live>(
    ids: Seq<<V::Id as DeepView>::V>,
    base: Map<<V::Id as DeepView>::V, V::V>,
    state: Map<<V::Id as DeepView>::V, V::V>,
)
    requires
        forall|id: <V::Id as DeepView>::V, v: V::V|
            belongs(#[trigger] V::key_of(id), #[trigger] V::value_of(v)),
    ensures
        all_fit(overwrites::<V>(ids, base, state)),
    decreases ids.len(),
{
    if ids.len() > 0 {
        overwrites_fit::<V>(ids.drop_last(), base, state);
        let id = ids.last();
        both_fit(
            overwrites::<V>(ids.drop_last(), base, state),
            overwrite::<V>(id, at(base, id), at(state, id)),
        );
    }
}

proof fn file_stats_fit(ids: Seq<(u64, (u64, u64))>, base: CatalogModel, state: CatalogModel)
    ensures
        all_fit(file_stats_writes(ids, base, state)),
    decreases ids.len(),
{
    if ids.len() > 0 {
        file_stats_fit(ids.drop_last(), base, state);
        let id = ids.last();
        if has_file(id, base.data_files, state.data_files) {
            both_fit(
                file_stats_writes(ids.drop_last(), base, state),
                overwrite::<FileColumnStatsValue>(
                    id,
                    at(base.file_column_stats, id),
                    at(state.file_column_stats, id),
                ),
            );
        }
    }
}

/// Every write of a diff fits.
proof fn diffs_fit(base: CatalogModel, state: CatalogModel, n: u64)
    ensures
        all_fit(diff(base, state, n)),
{
    let b = versioned_diff::<SchemaValue>(base.schemas, state.schemas, n);
    transitions_fit::<SchemaValue>(
        ascending::<u64>(base.schemas.dom().union(state.schemas.dom())),
        base.schemas,
        state.schemas,
        n,
    );
    let a = b;
    let b = versioned_diff::<TableValue>(base.tables, state.tables, n);
    transitions_fit::<TableValue>(
        ascending::<u64>(base.tables.dom().union(state.tables.dom())),
        base.tables,
        state.tables,
        n,
    );
    both_fit(a, b);
    let a = a + b;
    let b = versioned_diff::<ViewValue>(base.views, state.views, n);
    transitions_fit::<ViewValue>(
        ascending::<u64>(base.views.dom().union(state.views.dom())),
        base.views,
        state.views,
        n,
    );
    both_fit(a, b);
    let a = a + b;
    let b = versioned_diff::<ColumnValue>(base.columns, state.columns, n);
    transitions_fit::<ColumnValue>(
        ascending::<(u64, u64)>(base.columns.dom().union(state.columns.dom())),
        base.columns,
        state.columns,
        n,
    );
    both_fit(a, b);
    let a = a + b;
    let b = versioned_diff::<DataFileValue>(base.data_files, state.data_files, n);
    transitions_fit::<DataFileValue>(
        ascending::<(u64, u64)>(base.data_files.dom().union(state.data_files.dom())),
        base.data_files,
        state.data_files,
        n,
    );
    both_fit(a, b);
    let a = a + b;
    let b = versioned_diff::<DeleteFileValue>(base.delete_files, state.delete_files, n);
    transitions_fit::<DeleteFileValue>(
        ascending::<(u64, u64)>(base.delete_files.dom().union(state.delete_files.dom())),
        base.delete_files,
        state.delete_files,
        n,
    );
    both_fit(a, b);
    let a = a + b;
    let b = versioned_diff::<PartitionValue>(base.partitions, state.partitions, n);
    transitions_fit::<PartitionValue>(
        ascending::<(u64, u64)>(base.partitions.dom().union(state.partitions.dom())),
        base.partitions,
        state.partitions,
        n,
    );
    both_fit(a, b);
    let a = a + b;
    let b = versioned_diff::<SortValue>(base.sorts, state.sorts, n);
    transitions_fit::<SortValue>(
        ascending::<(u64, u64)>(base.sorts.dom().union(state.sorts.dom())),
        base.sorts,
        state.sorts,
        n,
    );
    both_fit(a, b);
    let a = a + b;
    let b = versioned_diff::<IndexValue>(base.indexes, state.indexes, n);
    transitions_fit::<IndexValue>(
        ascending::<(u64, u64)>(base.indexes.dom().union(state.indexes.dom())),
        base.indexes,
        state.indexes,
        n,
    );
    both_fit(a, b);
    let a = a + b;
    let b = versioned_diff::<MacroValue>(base.macros, state.macros, n);
    transitions_fit::<MacroValue>(
        ascending::<u64>(base.macros.dom().union(state.macros.dom())),
        base.macros,
        state.macros,
        n,
    );
    both_fit(a, b);
    let a = a + b;
    let b = mapping_diff(base.mappings, state.mappings);
    overwrites_fit::<MappingValue>(
        ascending::<(u64, u64)>(state.mappings.dom()),
        base.mappings,
        state.mappings,
    );
    both_fit(a, b);
    let a = a + b;
    let b = overwrite_diff::<TableStatsValue>(base.table_stats, state.table_stats);
    overwrites_fit::<TableStatsValue>(
        ascending::<u64>(base.table_stats.dom().union(state.table_stats.dom())),
        base.table_stats,
        state.table_stats,
    );
    both_fit(a, b);
    let a = a + b;
    let b = overwrite_diff::<TableColumnStatsValue>(base.table_column_stats, state.table_column_stats);
    overwrites_fit::<TableColumnStatsValue>(
        ascending::<(u64, u64)>(base.table_column_stats.dom().union(state.table_column_stats.dom())),
        base.table_column_stats,
        state.table_column_stats,
    );
    both_fit(a, b);
    let a = a + b;
    let b = file_stats_diff(base, state);
    file_stats_fit(
        ascending::<(u64, (u64, u64))>(
            base.file_column_stats.dom().union(state.file_column_stats.dom()),
        ),
        base,
        state,
    );
    both_fit(a, b);
    let a = a + b;
    let b = overwrite_diff::<OptionScopeValue>(base.options, state.options);
    overwrites_fit::<OptionScopeValue>(
        ascending::<(u64, u64)>(base.options.dom().union(state.options.dom())),
        base.options,
        state.options,
    );
    both_fit(a, b);
    let a = a + b;
    let b = overwrite_diff::<TagValue>(base.tags, state.tags);
    overwrites_fit::<TagValue>(
        ascending::<u64>(base.tags.dom().union(state.tags.dom())),
        base.tags,
        state.tags,
    );
    both_fit(a, b);
    let a = a + b;
    let b = overwrite_diff::<GcFileValue>(base.gc_files, state.gc_files);
    overwrites_fit::<GcFileValue>(
        ascending::<u64>(base.gc_files.dom().union(state.gc_files.dom())),
        base.gc_files,
        state.gc_files,
    );
    both_fit(a, b);
    let a = a + b;
    assert(all_fit(diff(base, state, n)));
}

/// Two catalogs that hold the same under every live key are the same, but for
/// their snapshots.
proof fn live_values_make_a_catalog(a: CatalogModel, b: CatalogModel)
    requires
        forall|key: CurrentKey| #[trigger] live_value(a, key) == live_value(b, key),
        a.snapshot == b.snapshot,
    ensures
        a == b,
{
    assert forall|id: u64| #[trigger] at(a.schemas, id) == at(b.schemas, id) by {
        let key = CurrentKey::Entity(EntityKey::Schema { schema_id: id });
        assert(live_value(a, key) == live_value(b, key));
    }
    same_maps(a.schemas, b.schemas);
    assert forall|id: u64| #[trigger] at(a.tables, id) == at(b.tables, id) by {
        let key = CurrentKey::Entity(EntityKey::Table { table_id: id });
        assert(live_value(a, key) == live_value(b, key));
    }
    same_maps(a.tables, b.tables);
    assert forall|id: u64| #[trigger] at(a.views, id) == at(b.views, id) by {
        let key = CurrentKey::Entity(EntityKey::View { view_id: id });
        assert(live_value(a, key) == live_value(b, key));
    }
    same_maps(a.views, b.views);
    assert forall|id: (u64, u64)| #[trigger] at(a.columns, id) == at(b.columns, id) by {
        let key = CurrentKey::Entity(EntityKey::Column { table_id: id.0, column_id: id.1 });
        assert(live_value(a, key) == live_value(b, key));
    }
    same_maps(a.columns, b.columns);
    assert forall|id: (u64, u64)| #[trigger] at(a.data_files, id) == at(b.data_files, id) by {
        let key = CurrentKey::Entity(EntityKey::File { table_id: id.0, data_file_id: id.1 });
        assert(live_value(a, key) == live_value(b, key));
    }
    same_maps(a.data_files, b.data_files);
    assert forall|id: (u64, u64)| #[trigger] at(a.delete_files, id) == at(b.delete_files, id) by {
        let key = CurrentKey::Entity(EntityKey::DeleteFile { table_id: id.0, delete_file_id: id.1 });
        assert(live_value(a, key) == live_value(b, key));
    }
    same_maps(a.delete_files, b.delete_files);
    assert forall|id: (u64, u64)| #[trigger] at(a.partitions, id) == at(b.partitions, id) by {
        let key = CurrentKey::Entity(EntityKey::Partition { table_id: id.0, partition_id: id.1 });
        assert(live_value(a, key) == live_value(b, key));
    }
    same_maps(a.partitions, b.partitions);
    assert forall|id: (u64, u64)| #[trigger] at(a.sorts, id) == at(b.sorts, id) by {
        let key = CurrentKey::Entity(EntityKey::Sort { table_id: id.0, sort_id: id.1 });
        assert(live_value(a, key) == live_value(b, key));
    }
    same_maps(a.sorts, b.sorts);
    assert forall|id: (u64, u64)| #[trigger] at(a.indexes, id) == at(b.indexes, id) by {
        let key = CurrentKey::Entity(EntityKey::Index { table_id: id.0, index_id: id.1 });
        assert(live_value(a, key) == live_value(b, key));
    }
    same_maps(a.indexes, b.indexes);
    assert forall|id: u64| #[trigger] at(a.macros, id) == at(b.macros, id) by {
        let key = CurrentKey::Entity(EntityKey::Macro { macro_id: id });
        assert(live_value(a, key) == live_value(b, key));
    }
    same_maps(a.macros, b.macros);
    assert forall|id: (u64, u64)| #[trigger] at(a.mappings, id) == at(b.mappings, id) by {
        let key = CurrentKey::Entity(EntityKey::Mapping { table_id: id.0, mapping_id: id.1 });
        assert(live_value(a, key) == live_value(b, key));
    }
    same_maps(a.mappings, b.mappings);
    assert forall|id: u64| #[trigger] at(a.table_stats, id) == at(b.table_stats, id) by {
        let key = CurrentKey::Entity(EntityKey::TableStats { table_id: id });
        assert(live_value(a, key) == live_value(b, key));
    }
    same_maps(a.table_stats, b.table_stats);
    assert forall|id: (u64, u64)| #[trigger] at(a.table_column_stats, id) == at(b.table_column_stats, id) by {
        let key = CurrentKey::Entity(EntityKey::TableColumnStats { table_id: id.0, column_id: id.1 });
        assert(live_value(a, key) == live_value(b, key));
    }
    same_maps(a.table_column_stats, b.table_column_stats);
    assert forall|id: (u64, (u64, u64))| #[trigger] at(a.file_column_stats, id) == at(b.file_column_stats, id) by {
        let key = CurrentKey::Entity(EntityKey::FileColumnStats {
                table_id: id.0,
                data_file_id: id.1.0,
                column_id: id.1.1,
            });
        assert(live_value(a, key) == live_value(b, key));
    }
    same_maps(a.file_column_stats, b.file_column_stats);
    assert forall|id: (u64, u64)| #[trigger] at(a.options, id) == at(b.options, id) by {
        let key = CurrentKey::Entity(EntityKey::OptionScope { scope_kind: id.0, scope_id: id.1 });
        assert(live_value(a, key) == live_value(b, key));
    }
    same_maps(a.options, b.options);
    assert forall|id: u64| #[trigger] at(a.tags, id) == at(b.tags, id) by {
        let key = CurrentKey::Entity(EntityKey::Tag { object_id: id });
        assert(live_value(a, key) == live_value(b, key));
    }
    same_maps(a.tags, b.tags);
    assert forall|id: u64| #[trigger] at(a.gc_files, id) == at(b.gc_files, id) by {
        let key = CurrentKey::GcFile { data_file_id: id };
        assert(live_value(a, key) == live_value(b, key));
    }
    same_maps(a.gc_files, b.gc_files);
}

proof fn same_maps<K, V>(a: Map<K, V>, b: Map<K, V>)
    requires
        forall|k: K| #[trigger] at(a, k) == at(b, k),
    ensures
        a == b,
{
    assert forall|k: K| #[trigger] a.contains_key(k) implies b.contains_key(k) && a[k] == b[k] by {
        assert(at(a, k) == at(b, k));
    }
    assert forall|k: K| #[trigger] b.contains_key(k) implies a.contains_key(k) by {
        assert(at(a, k) == at(b, k));
    }
    assert(a.dom() =~= b.dom());
    assert(a =~= b);
}

/// Folding a diff into the catalog that it starts from gives the state that it
/// leads to.
pub proof fn diffs_fold_to_their_state(base: CatalogModel, state: CatalogModel, n: u64)
    requires
        finite_state(base),
        finite_state(state),
        base.mappings.dom().subset_of(state.mappings.dom()),
        file_stats_reach(base, state),
    ensures
        with_writes(base, diff(base, state, n)) == Ok::<CatalogModel, Fault>(
            CatalogModel { snapshot: base.snapshot, ..state },
        ),
{
    let writes = diff(base, state, n);
    let goal = CatalogModel { snapshot: base.snapshot, ..state };
    diffs_fit(base, state, n);
    fitting_writes_fold(base, writes);
    let got = with_writes(base, writes)->Ok_0;
    assert forall|key: CurrentKey| #[trigger] live_value(got, key) == live_value(goal, key) by {
        folding_follows_the_store(base, writes, key);
        writes_turn_base_into_state(base, state, n, key);
        assert(live_value(goal, key) == live_value(state, key));
    }
    crate::write_laws::diff_writes_catalog_keys(base, state, n);
    snapshots_stay(base, writes);
    live_values_make_a_catalog(got, goal);
}

/// Writes that put no snapshot leave the snapshot of a catalog.
proof fn snapshots_stay(m: CatalogModel, writes: Seq<WriteModel>)
    requires
        with_writes(m, writes) is Ok,
        forall|i: int| 0 <= i < writes.len() ==> !((#[trigger] writes[i]).0 is Snapshot),
    ensures
        with_writes(m, writes)->Ok_0.snapshot == m.snapshot,
    decreases writes.len(),
{
    if writes.len() > 0 {
        let front = writes.drop_last();
        assert forall|i: int| 0 <= i < front.len() implies !((#[trigger] front[i]).0 is Snapshot) by {
            assert(front[i] == writes[i]);
        }
        snapshots_stay(m, front);
        assert(writes.last() == writes[writes.len() - 1]);
    }
}

/// Folding two runs of writes is folding the first, then the second.
pub proof fn folding_both(m: CatalogModel, a: Seq<WriteModel>, b: Seq<WriteModel>)
    requires
        with_writes(m, a) is Ok,
    ensures
        with_writes(m, a + b) == with_writes(with_writes(m, a)->Ok_0, b),
    decreases b.len(),
{
    if b.len() == 0 {
        assert(a + b =~= a);
    } else {
        folding_both(m, a, b.drop_last());
        assert((a + b).drop_last() =~= a + b.drop_last());
        assert((a + b).last() == b.last());
    }
}

/// Whether a write is no part of a catalog: neither a live record nor a
/// snapshot.
pub open spec fn is_aside(write: WriteModel) -> bool {
    !(write.0 is Current) && !(write.0 is Snapshot)
}

/// Writes that are no part of a catalog leave it as it is.
pub proof fn asides_change_nothing(m: CatalogModel, writes: Seq<WriteModel>)
    requires
        forall|i: int| 0 <= i < writes.len() ==> is_aside(#[trigger] writes[i]),
    ensures
        with_writes(m, writes) == Ok::<CatalogModel, Fault>(m),
    decreases writes.len(),
{
    if writes.len() > 0 {
        let front = writes.drop_last();
        assert forall|i: int| 0 <= i < front.len() implies is_aside(#[trigger] front[i]) by {
            assert(front[i] == writes[i]);
        }
        asides_change_nothing(m, front);
        assert(is_aside(writes[writes.len() - 1]));
    }
}

proof fn removals_are_aside(entries: Seq<IndexEntryModel>)
    ensures
        forall|i: int|
            0 <= i < removals(entries).len() ==> is_aside(#[trigger] removals(entries)[i]),
    decreases entries.len(),
{
    if entries.len() > 0 {
        let front = removals(entries.drop_last());
        removals_are_aside(entries.drop_last());
        assert forall|i: int| 0 <= i < removals(entries).len() implies is_aside(
            #[trigger] removals(entries)[i],
        ) by {
            if i < front.len() {
                assert(removals(entries)[i] == front[i]);
            }
        }
    }
}

proof fn additions_are_aside(
    entries: Seq<IndexEntryModel>,
    freed: Set<(u64, Seq<u8>)>,
    held: Map<(u64, Seq<u8>), Seq<u8>>,
)
    requires
        additions(entries, freed, held) is Ok,
    ensures
        forall|i: int|
            0 <= i < additions(entries, freed, held)->Ok_0.writes.len() ==> is_aside(
                #[trigger] additions(entries, freed, held)->Ok_0.writes[i],
            ),
    decreases entries.len(),
{
    if entries.len() > 0 {
        additions_are_aside(entries.drop_last(), freed, held);
    }
}

/// Index entries are no part of a catalog.
pub proof fn entries_are_aside(entries: Seq<IndexEntryModel>, held: Map<(u64, Seq<u8>), Seq<u8>>)
    requires
        entry_writes(entries, held) is Ok,
    ensures
        forall|i: int|
            0 <= i < entry_writes(entries, held)->Ok_0.len() ==> is_aside(
                #[trigger] entry_writes(entries, held)->Ok_0[i],
            ),
{
    removals_are_aside(entries);
    additions_are_aside(entries, freed(entries), held);
    let a = removals(entries);
    let b = additions(entries, freed(entries), held)->Ok_0.writes;
    assert forall|i: int| 0 <= i < (a + b).len() implies is_aside(#[trigger] (a + b)[i]) by {
        if i < a.len() {
            assert((a + b)[i] == a[i]);
        } else {
            assert((a + b)[i] == b[i - a.len()]);
        }
    }
}

/// Folding the batch of a commit into the catalog that the commit was based on
/// gives the state that the commit was about, at the snapshot that it mints.
pub proof fn commits_fold_to_their_state(
    base: CatalogModel,
    ops: Seq<OperationModel>,
    entries: Seq<IndexEntryModel>,
    state: CatalogModel,
    next_catalog_id: u64,
    next_file_id: u64,
    stored: Option<FormatModel>,
    held: Map<(u64, Seq<u8>), Seq<u8>>,
    time: i64,
    writer_version: Seq<char>,
)
    requires
        ops.len() > 0,
        entry_writes(entries, held) is Ok,
        finite_state(base),
        finite_state(state),
        base.mappings.dom().subset_of(state.mappings.dom()),
        file_stats_reach(base, state),
    ensures
        match prepared(
            base,
            ops,
            entries,
            state,
            next_catalog_id,
            next_file_id,
            stored,
            held,
            time,
            writer_version,
        ) {
            Ok(PreparedModel::Staged { ours, head_before, commits, writes }) => {
                &&& with_writes(base, writes) == Ok::<CatalogModel, Fault>(
                    CatalogModel {
                        snapshot: minted(base, ops, next_catalog_id, next_file_id, time),
                        ..state
                    },
                )
                &&& head_before == base.snapshot.snapshot_id
                &&& commits == minted(base, ops, next_catalog_id, next_file_id, time).snapshot_id
            },
            _ => false,
        },
{
    let p = prepared(
        base,
        ops,
        entries,
        state,
        next_catalog_id,
        next_file_id,
        stored,
        held,
        time,
        writer_version,
    );
    let new_id = (base.snapshot.snapshot_id + 1) as u64;
    let d = diff(base, state, new_id);
    let f = format_writes(state, stored, writer_version);
    let e = entry_writes(entries, held)->Ok_0;
    let writes = p->Ok_0->writes;
    let last = writes.skip((d + f + e).len() as int);
    assert(writes =~= d + f + e + last);
    let folded = CatalogModel { snapshot: base.snapshot, ..state };
    diffs_fold_to_their_state(base, state, new_id);
    asides_change_nothing(folded, f);
    folding_both(base, d, f);
    entries_are_aside(entries, held);
    asides_change_nothing(folded, e);
    folding_both(base, d + f, e);
    folding_both(base, d + f + e, last);
    assert(last.len() == 2);
    assert(last.drop_last() =~= seq![last[0]]);
    assert(last.drop_last().drop_last() =~= Seq::<WriteModel>::empty());
    reveal_with_fuel(with_writes, 3);
}

/// A reader who meets a commit in a slot, on top of the catalog that the commit
/// was based on, reaches the very state that the commit was about.
pub proof fn replay_gives_what_was_committed(
    base: CatalogModel,
    ops: Seq<OperationModel>,
    entries: Seq<IndexEntryModel>,
    state: CatalogModel,
    next_catalog_id: u64,
    next_file_id: u64,
    stored: Option<FormatModel>,
    held: Map<(u64, Seq<u8>), Seq<u8>>,
    time: i64,
    writer_version: Seq<char>,
    txid: [u8; 16],
    sequence: u64,
)
    requires
        ops.len() > 0,
        entry_writes(entries, held) is Ok,
        finite_state(base),
        finite_state(state),
        base.mappings.dom().subset_of(state.mappings.dom()),
        file_stats_reach(base, state),
    ensures
        match prepared(
            base,
            ops,
            entries,
            state,
            next_catalog_id,
            next_file_id,
            stored,
            held,
            time,
            writer_version,
        ) {
            Ok(PreparedModel::Staged { ours, head_before, commits, writes }) => replayed_slot(
                ReplayModel { view: base, applied: false, stopped: false },
                seq![commit_of(txid, ours, head_before, writes)],
                sequence,
                None,
            ) == Ok::<ReplayModel, Fault>(
                ReplayModel {
                    view: CatalogModel {
                        snapshot: minted(base, ops, next_catalog_id, next_file_id, time),
                        ..state
                    },
                    applied: true,
                    stopped: false,
                },
            ),
            _ => false,
        },
{
    commits_fold_to_their_state(
        base,
        ops,
        entries,
        state,
        next_catalog_id,
        next_file_id,
        stored,
        held,
        time,
        writer_version,
    );
    match prepared(
        base,
        ops,
        entries,
        state,
        next_catalog_id,
        next_file_id,
        stored,
        held,
        time,
        writer_version,
    ) {
        Ok(PreparedModel::Staged { ours, head_before, commits, writes }) => {
            let one = seq![commit_of(txid, ours, head_before, writes)];
            assert(one.drop_last() =~= Seq::empty());
            reveal_with_fuel(replayed_slot, 2);
        },
        _ => {},
    }
}

} // verus!
