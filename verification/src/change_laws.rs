//! What each write of a diff is about: one record that differs, written once.
use crate::catalog::CatalogModel;
use crate::diff::{
    at, diff, file_stats_diff, file_stats_writes, has_file, mapping_diff, overwrite, overwrite_diff,
    overwrites, transition, transitions, versioned_diff,
};
use crate::diff_laws::{
    ended_of, ended_version, finite_state, live_value, stored, version_ends,
};
use crate::entities::{Live, Versioned};
use crate::history_laws::versioned;
use crate::keys::{history_key, CurrentKey, EntityKey, KeyModel, WriteModel};
use crate::ordered::{ascending, finite_sets_ascend, Ordered};
use crate::records::{
    ColumnValue, DataFileValue, DeleteFileValue, FileColumnStatsValue, GcFileValue, IndexValue,
    MacroValue, MappingValue, OptionScopeValue, PartitionValue, SchemaValue, SortValue,
    TableColumnStatsValue, TableStatsValue, TableValue, TagValue, ViewValue,
};
use vstd::prelude::*;

verus! {

/// Whether no key is written twice.
pub open spec fn written_once(writes: Seq<WriteModel>) -> bool {
    forall|i: int, j: int|
        0 <= i < j < writes.len() ==> (#[trigger] writes[i]).0 != (#[trigger] writes[j]).0
}

/// Whether a write is one that the change from `base` to `state` calls for: a
/// live record that differs becomes what it is in the state, and a version that
/// ends goes to history.
pub open spec fn called_for(base: CatalogModel, state: CatalogModel, n: u64, w: WriteModel) -> bool {
    match w.0 {
        KeyModel::Current(key) => live_value(base, key) != live_value(state, key) && w.1
            == live_value(state, key),
        KeyModel::History(h) => h.end_snapshot == n && w.1 is Some && w.1 == ended_version(
            base,
            state,
            n,
            h.entity,
        ),
        _ => false,
    }
}

/// Whether every write is called for.
pub open spec fn all_called_for(
    base: CatalogModel,
    state: CatalogModel,
    n: u64,
    writes: Seq<WriteModel>,
) -> bool {
    forall|i: int| 0 <= i < writes.len() ==> called_for(base, state, n, #[trigger] writes[i])
}

/// The place of a record's kind in the batch.
spec fn place(key: KeyModel) -> int {
    match key {
        KeyModel::Current(CurrentKey::Entity(e)) => kind_place(e),
        KeyModel::Current(CurrentKey::GcFile { .. }) => 17,
        KeyModel::History(h) => kind_place(h.entity),
        _ => 0,
    }
}

spec fn kind_place(e: EntityKey) -> int {
    match e {
        EntityKey::Schema { .. } => 1,
        EntityKey::Table { .. } => 2,
        EntityKey::View { .. } => 3,
        EntityKey::Column { .. } => 4,
        EntityKey::File { .. } => 5,
        EntityKey::DeleteFile { .. } => 6,
        EntityKey::Partition { .. } => 7,
        EntityKey::Sort { .. } => 8,
        EntityKey::Index { .. } => 9,
        EntityKey::Macro { .. } => 10,
        EntityKey::Mapping { .. } => 11,
        EntityKey::TableStats { .. } => 12,
        EntityKey::TableColumnStats { .. } => 13,
        EntityKey::FileColumnStats { .. } => 14,
        EntityKey::OptionScope { .. } => 15,
        EntityKey::Tag { .. } => 16,
    }
}

/// Whether a part of a batch is what it should be: the kinds up to a place, each
/// record once, and only those that differ.
#[verifier::opaque]
spec fn fits(
    base: CatalogModel,
    state: CatalogModel,
    n: u64,
    writes: Seq<WriteModel>,
    low: int,
    high: int,
) -> bool {
    &&& written_once(writes)
    &&& all_called_for(base, state, n, writes)
    &&& forall|i: int| 0 <= i < writes.len() ==> low <= place((#[trigger] writes[i]).0) <= high
}

proof fn both_fit(
    base: CatalogModel,
    state: CatalogModel,
    n: u64,
    a: Seq<WriteModel>,
    b: Seq<WriteModel>,
    high: int,
)
    requires
        fits(base, state, n, a, 1, high),
        fits(base, state, n, b, high + 1, high + 1),
    ensures
        fits(base, state, n, a + b, 1, high + 1),
{
    reveal(fits);
    let w = a + b;
    assert forall|i: int| 0 <= i < w.len() implies #[trigger] w[i] == if i < a.len() {
        a[i]
    } else {
        b[i - a.len()]
    } by {}
    assert forall|i: int, j: int| 0 <= i < j < w.len() implies (#[trigger] w[i]).0 != (
    #[trigger] w[j]).0 by {
        if i < a.len() && j >= a.len() {
            assert(place(a[i].0) <= high);
            assert(place(b[j - a.len()].0) == high + 1);
        } else if i >= a.len() {
            assert(b[i - a.len()].0 != b[j - a.len()].0);
        }
    }
}

// ---------------------------------------------------------------------------
// One kind of record
// ---------------------------------------------------------------------------

/// Whether a write is one of a record with versions.
spec fn of_version<V: Versioned>(
    base: Map<<V::Id as DeepView>::V, V::V>,
    state: Map<<V::Id as DeepView>::V, V::V>,
    n: u64,
    id: <V::Id as DeepView>::V,
    w: WriteModel,
) -> bool {
    ||| w.0 == KeyModel::Current(V::key_of(id)) && at(base, id) != at(state, id) && w.1 == stored::<V>(
        at(state, id),
    )
    ||| w.0 == history_key(V::entity_of(id), n) && version_ends::<V>(at(base, id), at(state, id))
        && w.1 == ended_of::<V>(at(base, id), at(state, id), n)
}

/// Whether a write is one of a record without versions.
spec fn of_record<V: Live>(
    base: Map<<V::Id as DeepView>::V, V::V>,
    state: Map<<V::Id as DeepView>::V, V::V>,
    id: <V::Id as DeepView>::V,
    w: WriteModel,
) -> bool {
    w.0 == KeyModel::Current(V::key_of(id)) && at(base, id) != at(state, id) && w.1 == stored::<V>(
        at(state, id),
    )
}

proof fn ascending_ids_differ<T: Ordered>(s: Set<T::V>)
    requires
        s.finite(),
    ensures
        ascending::<T>(s).no_duplicates(),
{
    finite_sets_ascend::<T>(s);
    let q = ascending::<T>(s);
    assert forall|i: int, j: int| 0 <= i < q.len() && 0 <= j < q.len() && i != j implies q[i]
        != q[j] by {
        T::below_is_strict(q[i], q[j]);
        if i < j {
            assert(T::below(q[i], q[j]));
        } else {
            assert(T::below(q[j], q[i]));
        }
    }
}

proof fn versions_are_apart<V: Versioned>(
    base: Map<<V::Id as DeepView>::V, V::V>,
    state: Map<<V::Id as DeepView>::V, V::V>,
    n: u64,
    a: <V::Id as DeepView>::V,
    b: <V::Id as DeepView>::V,
    v: WriteModel,
    w: WriteModel,
)
    requires
        a != b,
        of_version::<V>(base, state, n, a, v),
        of_version::<V>(base, state, n, b, w),
    ensures
        v.0 != w.0,
{
    V::keys_are_own(a, b);
    V::lives_as_entity(a);
    V::lives_as_entity(b);
}

proof fn transitions_once<V: Versioned>(
    ids: Seq<<V::Id as DeepView>::V>,
    base: Map<<V::Id as DeepView>::V, V::V>,
    state: Map<<V::Id as DeepView>::V, V::V>,
    n: u64,
)
    requires
        ids.no_duplicates(),
    ensures
        written_once(transitions::<V>(ids, base, state, n)),
        forall|i: int|
            0 <= i < transitions::<V>(ids, base, state, n).len() ==> exists|k: int|
                0 <= k < ids.len() && of_version::<V>(
                    base,
                    state,
                    n,
                    #[trigger] ids[k],
                    #[trigger] transitions::<V>(ids, base, state, n)[i],
                ),
    decreases ids.len(),
{
    if ids.len() > 0 {
        let front = ids.drop_last();
        let id = ids.last();
        let a = transitions::<V>(front, base, state, n);
        let b = transition::<V>(id, at(base, id), at(state, id), n);
        let w = transitions::<V>(ids, base, state, n);
        transitions_once::<V>(front, base, state, n);
        assert(w == a + b);
        assert forall|j: int| 0 <= j < b.len() implies of_version::<V>(
            base,
            state,
            n,
            id,
            #[trigger] b[j],
        ) by {}
        assert forall|i: int| 0 <= i < w.len() implies exists|k: int|
            0 <= k < ids.len() && of_version::<V>(
                base,
                state,
                n,
                #[trigger] ids[k],
                #[trigger] w[i],
            ) by {
            if i < a.len() {
                let k = choose|k: int|
                    0 <= k < front.len() && of_version::<V>(
                        base,
                        state,
                        n,
                        #[trigger] front[k],
                        a[i],
                    );
                assert(ids[k] == front[k]);
                assert(w[i] == a[i]);
            } else {
                assert(w[i] == b[i - a.len()]);
                assert(ids[ids.len() - 1] == id);
            }
        }
        assert forall|i: int, j: int| 0 <= i < j < w.len() implies (#[trigger] w[i]).0 != (
        #[trigger] w[j]).0 by {
            if j < a.len() {
                assert(a[i].0 != a[j].0);
            } else if i < a.len() {
                let k = choose|k: int|
                    0 <= k < front.len() && of_version::<V>(
                        base,
                        state,
                        n,
                        #[trigger] front[k],
                        a[i],
                    );
                assert(ids[k] == front[k]);
                assert(ids[ids.len() - 1] == id);
                assert(w[j] == b[j - a.len()]);
                versions_are_apart::<V>(base, state, n, ids[k], id, a[i], b[j - a.len()]);
            } else {
                assert(w[i] == b[i - a.len()]);
                assert(w[j] == b[j - a.len()]);
            }
        }
    }
}

proof fn overwrites_once<V: Live>(
    ids: Seq<<V::Id as DeepView>::V>,
    base: Map<<V::Id as DeepView>::V, V::V>,
    state: Map<<V::Id as DeepView>::V, V::V>,
)
    requires
        ids.no_duplicates(),
    ensures
        written_once(overwrites::<V>(ids, base, state)),
        forall|i: int|
            0 <= i < overwrites::<V>(ids, base, state).len() ==> exists|k: int|
                0 <= k < ids.len() && of_record::<V>(
                    base,
                    state,
                    #[trigger] ids[k],
                    #[trigger] overwrites::<V>(ids, base, state)[i],
                ),
    decreases ids.len(),
{
    if ids.len() > 0 {
        let front = ids.drop_last();
        let id = ids.last();
        let a = overwrites::<V>(front, base, state);
        let b = overwrite::<V>(id, at(base, id), at(state, id));
        let w = overwrites::<V>(ids, base, state);
        overwrites_once::<V>(front, base, state);
        assert(w == a + b);
        assert(ids[ids.len() - 1] == id);
        assert forall|i: int| 0 <= i < w.len() implies exists|k: int|
            0 <= k < ids.len() && of_record::<V>(
                base,
                state,
                #[trigger] ids[k],
                #[trigger] w[i],
            ) by {
            if i < a.len() {
                let k = choose|k: int|
                    0 <= k < front.len() && of_record::<V>(base, state, #[trigger] front[k], a[i]);
                assert(ids[k] == front[k]);
                assert(w[i] == a[i]);
            } else {
                assert(w[i] == b[i - a.len()]);
                assert(of_record::<V>(base, state, ids[ids.len() - 1], w[i]));
            }
        }
        assert forall|i: int, j: int| 0 <= i < j < w.len() implies (#[trigger] w[i]).0 != (
        #[trigger] w[j]).0 by {
            if j < a.len() {
                assert(a[i].0 != a[j].0);
            } else {
                let k = choose|k: int|
                    0 <= k < front.len() && of_record::<V>(base, state, #[trigger] front[k], a[i]);
                assert(ids[k] == front[k]);
                V::keys_are_own(ids[k], id);
            }
        }
    }
}

proof fn file_stats_once(ids: Seq<(u64, (u64, u64))>, base: CatalogModel, state: CatalogModel)
    requires
        ids.no_duplicates(),
    ensures
        written_once(file_stats_writes(ids, base, state)),
        forall|i: int|
            0 <= i < file_stats_writes(ids, base, state).len() ==> exists|k: int|
                0 <= k < ids.len() && of_record::<FileColumnStatsValue>(
                    base.file_column_stats,
                    state.file_column_stats,
                    #[trigger] ids[k],
                    #[trigger] file_stats_writes(ids, base, state)[i],
                ),
    decreases ids.len(),
{
    if ids.len() > 0 {
        let front = ids.drop_last();
        let id = ids.last();
        let p = base.file_column_stats;
        let q = state.file_column_stats;
        let a = file_stats_writes(front, base, state);
        let w = file_stats_writes(ids, base, state);
        let b = if has_file(id, base.data_files, state.data_files) {
            overwrite::<FileColumnStatsValue>(id, at(p, id), at(q, id))
        } else {
            Seq::empty()
        };
        file_stats_once(front, base, state);
        assert(w =~= a + b);
        assert(ids[ids.len() - 1] == id);
        assert forall|i: int| 0 <= i < w.len() implies exists|k: int|
            0 <= k < ids.len() && of_record::<FileColumnStatsValue>(
                p,
                q,
                #[trigger] ids[k],
                #[trigger] w[i],
            ) by {
            if i < a.len() {
                let k = choose|k: int|
                    0 <= k < front.len() && of_record::<FileColumnStatsValue>(
                        p,
                        q,
                        #[trigger] front[k],
                        a[i],
                    );
                assert(ids[k] == front[k]);
                assert(w[i] == a[i]);
            } else {
                assert(w[i] == b[i - a.len()]);
                assert(of_record::<FileColumnStatsValue>(p, q, ids[ids.len() - 1], w[i]));
            }
        }
        assert forall|i: int, j: int| 0 <= i < j < w.len() implies (#[trigger] w[i]).0 != (
        #[trigger] w[j]).0 by {
            if j < a.len() {
                assert(a[i].0 != a[j].0);
            } else {
                let k = choose|k: int|
                    0 <= k < front.len() && of_record::<FileColumnStatsValue>(
                        p,
                        q,
                        #[trigger] front[k],
                        a[i],
                    );
                assert(ids[k] == front[k]);
            }
        }
    }
}

// ---------------------------------------------------------------------------
// Every kind
// ---------------------------------------------------------------------------

proof fn schemas_fit(base: CatalogModel, state: CatalogModel, n: u64)
    requires
        base.schemas.dom().finite(),
        state.schemas.dom().finite(),
    ensures
        fits(base, state, n, versioned_diff::<SchemaValue>(base.schemas, state.schemas, n), 1, 1),
{
    reveal(fits);
    let ids = ascending::<u64>(base.schemas.dom().union(state.schemas.dom()));
    let w = versioned_diff::<SchemaValue>(base.schemas, state.schemas, n);
    ascending_ids_differ::<u64>(base.schemas.dom().union(state.schemas.dom()));
    transitions_once::<SchemaValue>(ids, base.schemas, state.schemas, n);
    assert forall|i: int| 0 <= i < w.len() implies called_for(base, state, n, #[trigger] w[i])
        && place(w[i].0) == 1 by {
        let k = choose|k: int|
            0 <= k < ids.len() && of_version::<SchemaValue>(
                base.schemas,
                state.schemas,
                n,
                #[trigger] ids[k],
                w[i],
            );
        assert(of_version::<SchemaValue>(base.schemas, state.schemas, n, ids[k], w[i]));
    }
}

proof fn tables_fit(base: CatalogModel, state: CatalogModel, n: u64)
    requires
        base.tables.dom().finite(),
        state.tables.dom().finite(),
    ensures
        fits(base, state, n, versioned_diff::<TableValue>(base.tables, state.tables, n), 2, 2),
{
    reveal(fits);
    let ids = ascending::<u64>(base.tables.dom().union(state.tables.dom()));
    let w = versioned_diff::<TableValue>(base.tables, state.tables, n);
    ascending_ids_differ::<u64>(base.tables.dom().union(state.tables.dom()));
    transitions_once::<TableValue>(ids, base.tables, state.tables, n);
    assert forall|i: int| 0 <= i < w.len() implies called_for(base, state, n, #[trigger] w[i])
        && place(w[i].0) == 2 by {
        let k = choose|k: int|
            0 <= k < ids.len() && of_version::<TableValue>(
                base.tables,
                state.tables,
                n,
                #[trigger] ids[k],
                w[i],
            );
        assert(of_version::<TableValue>(base.tables, state.tables, n, ids[k], w[i]));
    }
}

proof fn views_fit(base: CatalogModel, state: CatalogModel, n: u64)
    requires
        base.views.dom().finite(),
        state.views.dom().finite(),
    ensures
        fits(base, state, n, versioned_diff::<ViewValue>(base.views, state.views, n), 3, 3),
{
    reveal(fits);
    let ids = ascending::<u64>(base.views.dom().union(state.views.dom()));
    let w = versioned_diff::<ViewValue>(base.views, state.views, n);
    ascending_ids_differ::<u64>(base.views.dom().union(state.views.dom()));
    transitions_once::<ViewValue>(ids, base.views, state.views, n);
    assert forall|i: int| 0 <= i < w.len() implies called_for(base, state, n, #[trigger] w[i])
        && place(w[i].0) == 3 by {
        let k = choose|k: int|
            0 <= k < ids.len() && of_version::<ViewValue>(
                base.views,
                state.views,
                n,
                #[trigger] ids[k],
                w[i],
            );
        assert(of_version::<ViewValue>(base.views, state.views, n, ids[k], w[i]));
    }
}

proof fn columns_fit(base: CatalogModel, state: CatalogModel, n: u64)
    requires
        base.columns.dom().finite(),
        state.columns.dom().finite(),
    ensures
        fits(base, state, n, versioned_diff::<ColumnValue>(base.columns, state.columns, n), 4, 4),
{
    reveal(fits);
    let ids = ascending::<(u64, u64)>(base.columns.dom().union(state.columns.dom()));
    let w = versioned_diff::<ColumnValue>(base.columns, state.columns, n);
    ascending_ids_differ::<(u64, u64)>(base.columns.dom().union(state.columns.dom()));
    transitions_once::<ColumnValue>(ids, base.columns, state.columns, n);
    assert forall|i: int| 0 <= i < w.len() implies called_for(base, state, n, #[trigger] w[i])
        && place(w[i].0) == 4 by {
        let k = choose|k: int|
            0 <= k < ids.len() && of_version::<ColumnValue>(
                base.columns,
                state.columns,
                n,
                #[trigger] ids[k],
                w[i],
            );
        assert(of_version::<ColumnValue>(base.columns, state.columns, n, ids[k], w[i]));
    }
}

proof fn data_files_fit(base: CatalogModel, state: CatalogModel, n: u64)
    requires
        base.data_files.dom().finite(),
        state.data_files.dom().finite(),
    ensures
        fits(base, state, n, versioned_diff::<DataFileValue>(base.data_files, state.data_files, n), 5, 5),
{
    reveal(fits);
    let ids = ascending::<(u64, u64)>(base.data_files.dom().union(state.data_files.dom()));
    let w = versioned_diff::<DataFileValue>(base.data_files, state.data_files, n);
    ascending_ids_differ::<(u64, u64)>(base.data_files.dom().union(state.data_files.dom()));
    transitions_once::<DataFileValue>(ids, base.data_files, state.data_files, n);
    assert forall|i: int| 0 <= i < w.len() implies called_for(base, state, n, #[trigger] w[i])
        && place(w[i].0) == 5 by {
        let k = choose|k: int|
            0 <= k < ids.len() && of_version::<DataFileValue>(
                base.data_files,
                state.data_files,
                n,
                #[trigger] ids[k],
                w[i],
            );
        assert(of_version::<DataFileValue>(base.data_files, state.data_files, n, ids[k], w[i]));
    }
}

proof fn delete_files_fit(base: CatalogModel, state: CatalogModel, n: u64)
    requires
        base.delete_files.dom().finite(),
        state.delete_files.dom().finite(),
    ensures
        fits(base, state, n, versioned_diff::<DeleteFileValue>(base.delete_files, state.delete_files, n), 6, 6),
{
    reveal(fits);
    let ids = ascending::<(u64, u64)>(base.delete_files.dom().union(state.delete_files.dom()));
    let w = versioned_diff::<DeleteFileValue>(base.delete_files, state.delete_files, n);
    ascending_ids_differ::<(u64, u64)>(base.delete_files.dom().union(state.delete_files.dom()));
    transitions_once::<DeleteFileValue>(ids, base.delete_files, state.delete_files, n);
    assert forall|i: int| 0 <= i < w.len() implies called_for(base, state, n, #[trigger] w[i])
        && place(w[i].0) == 6 by {
        let k = choose|k: int|
            0 <= k < ids.len() && of_version::<DeleteFileValue>(
                base.delete_files,
                state.delete_files,
                n,
                #[trigger] ids[k],
                w[i],
            );
        assert(of_version::<DeleteFileValue>(base.delete_files, state.delete_files, n, ids[k], w[i]));
    }
}

proof fn partitions_fit(base: CatalogModel, state: CatalogModel, n: u64)
    requires
        base.partitions.dom().finite(),
        state.partitions.dom().finite(),
    ensures
        fits(base, state, n, versioned_diff::<PartitionValue>(base.partitions, state.partitions, n), 7, 7),
{
    reveal(fits);
    let ids = ascending::<(u64, u64)>(base.partitions.dom().union(state.partitions.dom()));
    let w = versioned_diff::<PartitionValue>(base.partitions, state.partitions, n);
    ascending_ids_differ::<(u64, u64)>(base.partitions.dom().union(state.partitions.dom()));
    transitions_once::<PartitionValue>(ids, base.partitions, state.partitions, n);
    assert forall|i: int| 0 <= i < w.len() implies called_for(base, state, n, #[trigger] w[i])
        && place(w[i].0) == 7 by {
        let k = choose|k: int|
            0 <= k < ids.len() && of_version::<PartitionValue>(
                base.partitions,
                state.partitions,
                n,
                #[trigger] ids[k],
                w[i],
            );
        assert(of_version::<PartitionValue>(base.partitions, state.partitions, n, ids[k], w[i]));
    }
}

proof fn sorts_fit(base: CatalogModel, state: CatalogModel, n: u64)
    requires
        base.sorts.dom().finite(),
        state.sorts.dom().finite(),
    ensures
        fits(base, state, n, versioned_diff::<SortValue>(base.sorts, state.sorts, n), 8, 8),
{
    reveal(fits);
    let ids = ascending::<(u64, u64)>(base.sorts.dom().union(state.sorts.dom()));
    let w = versioned_diff::<SortValue>(base.sorts, state.sorts, n);
    ascending_ids_differ::<(u64, u64)>(base.sorts.dom().union(state.sorts.dom()));
    transitions_once::<SortValue>(ids, base.sorts, state.sorts, n);
    assert forall|i: int| 0 <= i < w.len() implies called_for(base, state, n, #[trigger] w[i])
        && place(w[i].0) == 8 by {
        let k = choose|k: int|
            0 <= k < ids.len() && of_version::<SortValue>(
                base.sorts,
                state.sorts,
                n,
                #[trigger] ids[k],
                w[i],
            );
        assert(of_version::<SortValue>(base.sorts, state.sorts, n, ids[k], w[i]));
    }
}

proof fn indexes_fit(base: CatalogModel, state: CatalogModel, n: u64)
    requires
        base.indexes.dom().finite(),
        state.indexes.dom().finite(),
    ensures
        fits(base, state, n, versioned_diff::<IndexValue>(base.indexes, state.indexes, n), 9, 9),
{
    reveal(fits);
    let ids = ascending::<(u64, u64)>(base.indexes.dom().union(state.indexes.dom()));
    let w = versioned_diff::<IndexValue>(base.indexes, state.indexes, n);
    ascending_ids_differ::<(u64, u64)>(base.indexes.dom().union(state.indexes.dom()));
    transitions_once::<IndexValue>(ids, base.indexes, state.indexes, n);
    assert forall|i: int| 0 <= i < w.len() implies called_for(base, state, n, #[trigger] w[i])
        && place(w[i].0) == 9 by {
        let k = choose|k: int|
            0 <= k < ids.len() && of_version::<IndexValue>(
                base.indexes,
                state.indexes,
                n,
                #[trigger] ids[k],
                w[i],
            );
        assert(of_version::<IndexValue>(base.indexes, state.indexes, n, ids[k], w[i]));
    }
}

proof fn macros_fit(base: CatalogModel, state: CatalogModel, n: u64)
    requires
        base.macros.dom().finite(),
        state.macros.dom().finite(),
    ensures
        fits(base, state, n, versioned_diff::<MacroValue>(base.macros, state.macros, n), 10, 10),
{
    reveal(fits);
    let ids = ascending::<u64>(base.macros.dom().union(state.macros.dom()));
    let w = versioned_diff::<MacroValue>(base.macros, state.macros, n);
    ascending_ids_differ::<u64>(base.macros.dom().union(state.macros.dom()));
    transitions_once::<MacroValue>(ids, base.macros, state.macros, n);
    assert forall|i: int| 0 <= i < w.len() implies called_for(base, state, n, #[trigger] w[i])
        && place(w[i].0) == 10 by {
        let k = choose|k: int|
            0 <= k < ids.len() && of_version::<MacroValue>(
                base.macros,
                state.macros,
                n,
                #[trigger] ids[k],
                w[i],
            );
        assert(of_version::<MacroValue>(base.macros, state.macros, n, ids[k], w[i]));
    }
}

proof fn mappings_fit(base: CatalogModel, state: CatalogModel, n: u64)
    requires
        state.mappings.dom().finite(),
    ensures
        fits(base, state, n, mapping_diff(base.mappings, state.mappings), 11, 11),
{
    reveal(fits);
    let ids = ascending::<(u64, u64)>(state.mappings.dom());
    let w = mapping_diff(base.mappings, state.mappings);
    ascending_ids_differ::<(u64, u64)>(state.mappings.dom());
    overwrites_once::<MappingValue>(ids, base.mappings, state.mappings);
    assert forall|i: int| 0 <= i < w.len() implies called_for(base, state, n, #[trigger] w[i])
        && place(w[i].0) == 11 by {
        let k = choose|k: int|
            0 <= k < ids.len() && of_record::<MappingValue>(base.mappings, state.mappings, #[trigger] ids[k], w[i]);
        assert(of_record::<MappingValue>(base.mappings, state.mappings, ids[k], w[i]));
    }
}

proof fn table_stats_fit(base: CatalogModel, state: CatalogModel, n: u64)
    requires
        base.table_stats.dom().finite(),
        state.table_stats.dom().finite(),
    ensures
        fits(base, state, n, overwrite_diff::<TableStatsValue>(base.table_stats, state.table_stats), 12, 12),
{
    reveal(fits);
    let ids = ascending::<u64>(base.table_stats.dom().union(state.table_stats.dom()));
    let w = overwrite_diff::<TableStatsValue>(base.table_stats, state.table_stats);
    ascending_ids_differ::<u64>(base.table_stats.dom().union(state.table_stats.dom()));
    overwrites_once::<TableStatsValue>(ids, base.table_stats, state.table_stats);
    assert forall|i: int| 0 <= i < w.len() implies called_for(base, state, n, #[trigger] w[i])
        && place(w[i].0) == 12 by {
        let k = choose|k: int|
            0 <= k < ids.len() && of_record::<TableStatsValue>(base.table_stats, state.table_stats, #[trigger] ids[k], w[i]);
        assert(of_record::<TableStatsValue>(base.table_stats, state.table_stats, ids[k], w[i]));
    }
}

proof fn table_column_stats_fit(base: CatalogModel, state: CatalogModel, n: u64)
    requires
        base.table_column_stats.dom().finite(),
        state.table_column_stats.dom().finite(),
    ensures
        fits(base, state, n, overwrite_diff::<TableColumnStatsValue>(base.table_column_stats, state.table_column_stats), 13, 13),
{
    reveal(fits);
    let ids = ascending::<(u64, u64)>(base.table_column_stats.dom().union(state.table_column_stats.dom()));
    let w = overwrite_diff::<TableColumnStatsValue>(base.table_column_stats, state.table_column_stats);
    ascending_ids_differ::<(u64, u64)>(base.table_column_stats.dom().union(state.table_column_stats.dom()));
    overwrites_once::<TableColumnStatsValue>(ids, base.table_column_stats, state.table_column_stats);
    assert forall|i: int| 0 <= i < w.len() implies called_for(base, state, n, #[trigger] w[i])
        && place(w[i].0) == 13 by {
        let k = choose|k: int|
            0 <= k < ids.len() && of_record::<TableColumnStatsValue>(base.table_column_stats, state.table_column_stats, #[trigger] ids[k], w[i]);
        assert(of_record::<TableColumnStatsValue>(base.table_column_stats, state.table_column_stats, ids[k], w[i]));
    }
}

proof fn file_column_stats_fit(base: CatalogModel, state: CatalogModel, n: u64)
    requires
        base.file_column_stats.dom().finite(),
        state.file_column_stats.dom().finite(),
    ensures
        fits(base, state, n, file_stats_diff(base, state), 14, 14),
{
    reveal(fits);
    let ids = ascending::<(u64, (u64, u64))>(base.file_column_stats.dom().union(state.file_column_stats.dom()));
    let w = file_stats_diff(base, state);
    ascending_ids_differ::<(u64, (u64, u64))>(base.file_column_stats.dom().union(state.file_column_stats.dom()));
    file_stats_once(ids, base, state);
    assert forall|i: int| 0 <= i < w.len() implies called_for(base, state, n, #[trigger] w[i])
        && place(w[i].0) == 14 by {
        let k = choose|k: int|
            0 <= k < ids.len() && of_record::<FileColumnStatsValue>(base.file_column_stats, state.file_column_stats, #[trigger] ids[k], w[i]);
        assert(of_record::<FileColumnStatsValue>(base.file_column_stats, state.file_column_stats, ids[k], w[i]));
    }
}

proof fn options_fit(base: CatalogModel, state: CatalogModel, n: u64)
    requires
        base.options.dom().finite(),
        state.options.dom().finite(),
    ensures
        fits(base, state, n, overwrite_diff::<OptionScopeValue>(base.options, state.options), 15, 15),
{
    reveal(fits);
    let ids = ascending::<(u64, u64)>(base.options.dom().union(state.options.dom()));
    let w = overwrite_diff::<OptionScopeValue>(base.options, state.options);
    ascending_ids_differ::<(u64, u64)>(base.options.dom().union(state.options.dom()));
    overwrites_once::<OptionScopeValue>(ids, base.options, state.options);
    assert forall|i: int| 0 <= i < w.len() implies called_for(base, state, n, #[trigger] w[i])
        && place(w[i].0) == 15 by {
        let k = choose|k: int|
            0 <= k < ids.len() && of_record::<OptionScopeValue>(base.options, state.options, #[trigger] ids[k], w[i]);
        assert(of_record::<OptionScopeValue>(base.options, state.options, ids[k], w[i]));
    }
}

proof fn tags_fit(base: CatalogModel, state: CatalogModel, n: u64)
    requires
        base.tags.dom().finite(),
        state.tags.dom().finite(),
    ensures
        fits(base, state, n, overwrite_diff::<TagValue>(base.tags, state.tags), 16, 16),
{
    reveal(fits);
    let ids = ascending::<u64>(base.tags.dom().union(state.tags.dom()));
    let w = overwrite_diff::<TagValue>(base.tags, state.tags);
    ascending_ids_differ::<u64>(base.tags.dom().union(state.tags.dom()));
    overwrites_once::<TagValue>(ids, base.tags, state.tags);
    assert forall|i: int| 0 <= i < w.len() implies called_for(base, state, n, #[trigger] w[i])
        && place(w[i].0) == 16 by {
        let k = choose|k: int|
            0 <= k < ids.len() && of_record::<TagValue>(base.tags, state.tags, #[trigger] ids[k], w[i]);
        assert(of_record::<TagValue>(base.tags, state.tags, ids[k], w[i]));
    }
}

proof fn gc_files_fit(base: CatalogModel, state: CatalogModel, n: u64)
    requires
        base.gc_files.dom().finite(),
        state.gc_files.dom().finite(),
    ensures
        fits(base, state, n, overwrite_diff::<GcFileValue>(base.gc_files, state.gc_files), 17, 17),
{
    reveal(fits);
    let ids = ascending::<u64>(base.gc_files.dom().union(state.gc_files.dom()));
    let w = overwrite_diff::<GcFileValue>(base.gc_files, state.gc_files);
    ascending_ids_differ::<u64>(base.gc_files.dom().union(state.gc_files.dom()));
    overwrites_once::<GcFileValue>(ids, base.gc_files, state.gc_files);
    assert forall|i: int| 0 <= i < w.len() implies called_for(base, state, n, #[trigger] w[i])
        && place(w[i].0) == 17 by {
        let k = choose|k: int|
            0 <= k < ids.len() && of_record::<GcFileValue>(base.gc_files, state.gc_files, #[trigger] ids[k], w[i]);
        assert(of_record::<GcFileValue>(base.gc_files, state.gc_files, ids[k], w[i]));
    }
}

proof fn diff_fits(base: CatalogModel, state: CatalogModel, n: u64)
    requires
        finite_state(base),
        finite_state(state),
    ensures
        fits(base, state, n, diff(base, state, n), 1, 17),
{
    schemas_fit(base, state, n);
    let a = versioned_diff::<SchemaValue>(base.schemas, state.schemas, n);
    tables_fit(base, state, n);
    let b = versioned_diff::<TableValue>(base.tables, state.tables, n);
    both_fit(base, state, n, a, b, 1);
    let a = a + b;
    views_fit(base, state, n);
    let b = versioned_diff::<ViewValue>(base.views, state.views, n);
    both_fit(base, state, n, a, b, 2);
    let a = a + b;
    columns_fit(base, state, n);
    let b = versioned_diff::<ColumnValue>(base.columns, state.columns, n);
    both_fit(base, state, n, a, b, 3);
    let a = a + b;
    data_files_fit(base, state, n);
    let b = versioned_diff::<DataFileValue>(base.data_files, state.data_files, n);
    both_fit(base, state, n, a, b, 4);
    let a = a + b;
    delete_files_fit(base, state, n);
    let b = versioned_diff::<DeleteFileValue>(base.delete_files, state.delete_files, n);
    both_fit(base, state, n, a, b, 5);
    let a = a + b;
    partitions_fit(base, state, n);
    let b = versioned_diff::<PartitionValue>(base.partitions, state.partitions, n);
    both_fit(base, state, n, a, b, 6);
    let a = a + b;
    sorts_fit(base, state, n);
    let b = versioned_diff::<SortValue>(base.sorts, state.sorts, n);
    both_fit(base, state, n, a, b, 7);
    let a = a + b;
    indexes_fit(base, state, n);
    let b = versioned_diff::<IndexValue>(base.indexes, state.indexes, n);
    both_fit(base, state, n, a, b, 8);
    let a = a + b;
    macros_fit(base, state, n);
    let b = versioned_diff::<MacroValue>(base.macros, state.macros, n);
    both_fit(base, state, n, a, b, 9);
    let a = a + b;
    mappings_fit(base, state, n);
    let b = mapping_diff(base.mappings, state.mappings);
    both_fit(base, state, n, a, b, 10);
    let a = a + b;
    table_stats_fit(base, state, n);
    let b = overwrite_diff::<TableStatsValue>(base.table_stats, state.table_stats);
    both_fit(base, state, n, a, b, 11);
    let a = a + b;
    table_column_stats_fit(base, state, n);
    let b = overwrite_diff::<TableColumnStatsValue>(base.table_column_stats, state.table_column_stats);
    both_fit(base, state, n, a, b, 12);
    let a = a + b;
    file_column_stats_fit(base, state, n);
    let b = file_stats_diff(base, state);
    both_fit(base, state, n, a, b, 13);
    let a = a + b;
    options_fit(base, state, n);
    let b = overwrite_diff::<OptionScopeValue>(base.options, state.options);
    both_fit(base, state, n, a, b, 14);
    let a = a + b;
    tags_fit(base, state, n);
    let b = overwrite_diff::<TagValue>(base.tags, state.tags);
    both_fit(base, state, n, a, b, 15);
    let a = a + b;
    gc_files_fit(base, state, n);
    let b = overwrite_diff::<GcFileValue>(base.gc_files, state.gc_files);
    both_fit(base, state, n, a, b, 16);
    let a = a + b;
    assert(diff(base, state, n) == a);
}

/// What is under a history key is a version that ends.
proof fn history_is_of_versions(
    base: CatalogModel,
    state: CatalogModel,
    n: u64,
    w: Seq<WriteModel>,
)
    requires
        fits(base, state, n, w, 1, 17),
    ensures
        written_once(w),
        all_called_for(base, state, n, w),
        forall|i: int|
            0 <= i < w.len() ==> match (#[trigger] w[i]).0 {
                KeyModel::History(h) => versioned(h.entity) && live_value(
                    base,
                    CurrentKey::Entity(h.entity),
                ) != live_value(state, CurrentKey::Entity(h.entity)),
                _ => true,
            },
{
    reveal(fits);
    assert forall|i: int| 0 <= i < w.len() implies match (#[trigger] w[i]).0 {
        KeyModel::History(h) => versioned(h.entity) && live_value(
            base,
            CurrentKey::Entity(h.entity),
        ) != live_value(state, CurrentKey::Entity(h.entity)),
        _ => true,
    } by {
        assert(called_for(base, state, n, w[i]));
    }
}

/// A diff writes no key twice, and only what differs: under a live key what the
/// state holds where the base holds something else, and under a history key a
/// version that ends. Records without versions, such as statistics, options and
/// tags, get no history.
pub proof fn diffs_write_what_differs(base: CatalogModel, state: CatalogModel, n: u64)
    requires
        finite_state(base),
        finite_state(state),
    ensures
        written_once(diff(base, state, n)),
        all_called_for(base, state, n, diff(base, state, n)),
        forall|i: int|
            0 <= i < diff(base, state, n).len() ==> match (#[trigger] diff(base, state, n)[i]).0 {
                KeyModel::History(h) => versioned(h.entity) && live_value(
                    base,
                    CurrentKey::Entity(h.entity),
                ) != live_value(state, CurrentKey::Entity(h.entity)),
                _ => true,
            },
{
    diff_fits(base, state, n);
    history_is_of_versions(base, state, n, diff(base, state, n));
}

} // verus!
