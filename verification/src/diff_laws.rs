//! What the writes of a commit do to the store.
use crate::catalog::CatalogModel;
use crate::diff::{
    at, diff, file_stats_diff, file_stats_writes, has_file, mapping_diff, overwrite, overwrite_diff,
    overwrites, transition, transitions, versioned_diff,
};
use crate::entities::{Live, Versioned};
use crate::keys::{
    after, after_both, after_elsewhere, history_key, CurrentKey, EntityKey, KeyModel, StoredModel,
    WriteModel,
};
use crate::ordered::{ascending, ascends, finite_sets_ascend, Ordered};
use crate::records::{
    ColumnValue, DataFileValue, DeleteFileValue, FileColumnStatsValue, GcFileValue, IndexValue, MacroValue, MappingValue, OptionScopeValue, PartitionValue, SchemaValue, SortValue, TableColumnStatsValue, TableStatsValue, TableValue, TagValue, ViewValue,
};
use vstd::prelude::*;

verus! {

/// The stored form of an optional record.
pub open spec fn stored<V: Live>(v: Option<V::V>) -> Option<StoredModel> {
    match v {
        Some(v) => Some(V::value_of(v)),
        None => None,
    }
}

/// What a catalog state holds under a live key.
pub open spec fn live_value(m: CatalogModel, key: CurrentKey) -> Option<StoredModel> {
    match key {
        CurrentKey::Entity(EntityKey::Schema { schema_id }) => stored::<SchemaValue>(
            at(m.schemas, schema_id),
        ),
        CurrentKey::Entity(EntityKey::Table { table_id }) => stored::<TableValue>(
            at(m.tables, table_id),
        ),
        CurrentKey::Entity(EntityKey::View { view_id }) => stored::<ViewValue>(
            at(m.views, view_id),
        ),
        CurrentKey::Entity(EntityKey::Column { table_id, column_id }) => stored::<ColumnValue>(
            at(m.columns, (table_id, column_id)),
        ),
        CurrentKey::Entity(EntityKey::File { table_id, data_file_id }) => stored::<DataFileValue>(
            at(m.data_files, (table_id, data_file_id)),
        ),
        CurrentKey::Entity(EntityKey::DeleteFile { table_id, delete_file_id }) => stored::<DeleteFileValue>(
            at(m.delete_files, (table_id, delete_file_id)),
        ),
        CurrentKey::Entity(EntityKey::Partition { table_id, partition_id }) => stored::<PartitionValue>(
            at(m.partitions, (table_id, partition_id)),
        ),
        CurrentKey::Entity(EntityKey::Sort { table_id, sort_id }) => stored::<SortValue>(
            at(m.sorts, (table_id, sort_id)),
        ),
        CurrentKey::Entity(EntityKey::Index { table_id, index_id }) => stored::<IndexValue>(
            at(m.indexes, (table_id, index_id)),
        ),
        CurrentKey::Entity(EntityKey::Macro { macro_id }) => stored::<MacroValue>(
            at(m.macros, macro_id),
        ),
        CurrentKey::Entity(EntityKey::Mapping { table_id, mapping_id }) => stored::<MappingValue>(
            at(m.mappings, (table_id, mapping_id)),
        ),
        CurrentKey::Entity(EntityKey::TableStats { table_id }) => stored::<TableStatsValue>(
            at(m.table_stats, table_id),
        ),
        CurrentKey::Entity(EntityKey::TableColumnStats { table_id, column_id }) => stored::<TableColumnStatsValue>(
            at(m.table_column_stats, (table_id, column_id)),
        ),
        CurrentKey::Entity(EntityKey::FileColumnStats { table_id, data_file_id, column_id }) => stored::<FileColumnStatsValue>(
            at(m.file_column_stats, (table_id, (data_file_id, column_id))),
        ),
        CurrentKey::Entity(EntityKey::OptionScope { scope_kind, scope_id }) => stored::<OptionScopeValue>(
            at(m.options, (scope_kind, scope_id)),
        ),
        CurrentKey::Entity(EntityKey::Tag { object_id }) => stored::<TagValue>(
            at(m.tags, object_id),
        ),
        CurrentKey::GcFile { data_file_id } => stored::<GcFileValue>(
            at(m.gc_files, data_file_id),
        ),
    }
}

/// Every map of a catalog state is finite.
pub open spec fn finite_state(m: CatalogModel) -> bool {
    &&& m.schemas.dom().finite()
    &&& m.tables.dom().finite()
    &&& m.views.dom().finite()
    &&& m.columns.dom().finite()
    &&& m.data_files.dom().finite()
    &&& m.delete_files.dom().finite()
    &&& m.partitions.dom().finite()
    &&& m.sorts.dom().finite()
    &&& m.indexes.dom().finite()
    &&& m.macros.dom().finite()
    &&& m.mappings.dom().finite()
    &&& m.table_stats.dom().finite()
    &&& m.table_column_stats.dom().finite()
    &&& m.file_column_stats.dom().finite()
    &&& m.options.dom().finite()
    &&& m.tags.dom().finite()
    &&& m.gc_files.dom().finite()
}

// ---------------------------------------------------------------------------
// One kind of record
// ---------------------------------------------------------------------------

/// A key that no record of a versioned kind lives or ended under.
spec fn outside<V: Versioned>(k: KeyModel, n: u64) -> bool {
    forall|id: <V::Id as DeepView>::V|
        #![trigger V::key_of(id)]
        k != KeyModel::Current(V::key_of(id)) && k != history_key(V::entity_of(id), n)
}

/// A key that no record of a kind lives under.
spec fn outside_live<V: Live>(k: KeyModel) -> bool {
    forall|id: <V::Id as DeepView>::V| k != KeyModel::Current(#[trigger] V::key_of(id))
}

proof fn transition_outside<V: Versioned>(
    id: <V::Id as DeepView>::V,
    b: Option<V::V>,
    s: Option<V::V>,
    n: u64,
    k: KeyModel,
    v: Option<StoredModel>,
)
    requires
        k != KeyModel::Current(V::key_of(id)),
        k != history_key(V::entity_of(id), n),
    ensures
        after(transition::<V>(id, b, s, n), k, v) == v,
{
    after_elsewhere(transition::<V>(id, b, s, n), k, v);
}

proof fn transitions_outside<V: Versioned>(
    ids: Seq<<V::Id as DeepView>::V>,
    base: Map<<V::Id as DeepView>::V, V::V>,
    state: Map<<V::Id as DeepView>::V, V::V>,
    n: u64,
    k: KeyModel,
    v: Option<StoredModel>,
)
    requires
        forall|i: int|
            0 <= i < ids.len() ==> k != KeyModel::Current(V::key_of(#[trigger] ids[i])) && k
                != history_key(V::entity_of(ids[i]), n),
    ensures
        after(transitions::<V>(ids, base, state, n), k, v) == v,
    decreases ids.len(),
{
    if ids.len() > 0 {
        let front = ids.drop_last();
        let id = ids.last();
        assert(ids[ids.len() - 1] == id);
        assert forall|i: int| 0 <= i < front.len() implies k != KeyModel::Current(
            V::key_of(#[trigger] front[i]),
        ) && k != history_key(V::entity_of(front[i]), n) by {
            assert(front[i] == ids[i]);
        }
        transitions_outside::<V>(front, base, state, n, k, v);
        transition_outside::<V>(id, at(base, id), at(state, id), n, k, v);
        after_both(
            transitions::<V>(front, base, state, n),
            transition::<V>(id, at(base, id), at(state, id), n),
            k,
            v,
        );
    }
}

proof fn entities_are_own<V: Versioned>(a: <V::Id as DeepView>::V, b: <V::Id as DeepView>::V)
    ensures
        V::entity_of(a) == V::entity_of(b) ==> a == b,
{
    V::lives_as_entity(a);
    V::lives_as_entity(b);
    V::keys_are_own(a, b);
}

/// The part of [`transitions`] that one record's keys see.
proof fn transitions_own<V: Versioned>(
    ids: Seq<<V::Id as DeepView>::V>,
    base: Map<<V::Id as DeepView>::V, V::V>,
    state: Map<<V::Id as DeepView>::V, V::V>,
    n: u64,
    id: <V::Id as DeepView>::V,
    k: KeyModel,
    v: Option<StoredModel>,
)
    requires
        ascends::<V::Id>(ids),
        ids.contains(id),
        k == KeyModel::Current(V::key_of(id)) || k == history_key(V::entity_of(id), n),
    ensures
        after(transitions::<V>(ids, base, state, n), k, v) == after(
            transition::<V>(id, at(base, id), at(state, id), n),
            k,
            v,
        ),
    decreases ids.len(),
{
    let front = ids.drop_last();
    let last = ids.last();
    let a = transitions::<V>(front, base, state, n);
    let b = transition::<V>(last, at(base, last), at(state, last), n);
    after_both(a, b, k, v);
    assert(ids[ids.len() - 1] == last);
    if last == id {
        assert forall|i: int| 0 <= i < front.len() implies k != KeyModel::Current(
            V::key_of(#[trigger] front[i]),
        ) && k != history_key(V::entity_of(front[i]), n) by {
            assert(front[i] == ids[i]);
            assert(V::Id::below(ids[i], ids[ids.len() - 1]));
            V::Id::below_is_strict(id, id);
            V::keys_are_own(front[i], id);
            entities_are_own::<V>(front[i], id);
        }
        transitions_outside::<V>(front, base, state, n, k, v);
    } else {
        let i = choose|i: int| 0 <= i < ids.len() && ids[i] == id;
        assert(front[i] == id);
        assert forall|i: int, j: int| 0 <= i < j < front.len() implies V::Id::below(
            #[trigger] front[i],
            #[trigger] front[j],
        ) by {
            assert(front[i] == ids[i] && front[j] == ids[j]);
        }
        transitions_own::<V>(front, base, state, n, id, k, v);
        V::keys_are_own(last, id);
        entities_are_own::<V>(last, id);
        transition_outside::<V>(
            last,
            at(base, last),
            at(state, last),
            n,
            k,
            after(a, k, v),
        );
    }
}

proof fn versioned_outside<V: Versioned>(
    base: Map<<V::Id as DeepView>::V, V::V>,
    state: Map<<V::Id as DeepView>::V, V::V>,
    n: u64,
    k: KeyModel,
    v: Option<StoredModel>,
)
    requires
        outside::<V>(k, n),
    ensures
        after(versioned_diff::<V>(base, state, n), k, v) == v,
{
    let ids = ascending::<V::Id>(base.dom().union(state.dom()));
    assert forall|i: int| 0 <= i < ids.len() implies k != KeyModel::Current(
        V::key_of(#[trigger] ids[i]),
    ) && k != history_key(V::entity_of(ids[i]), n) by {}
    transitions_outside::<V>(ids, base, state, n, k, v);
}

/// The record's new value ends up under its live key.
proof fn versioned_live<V: Versioned>(
    base: Map<<V::Id as DeepView>::V, V::V>,
    state: Map<<V::Id as DeepView>::V, V::V>,
    n: u64,
    id: <V::Id as DeepView>::V,
)
    requires
        base.dom().finite(),
        state.dom().finite(),
    ensures
        after(
            versioned_diff::<V>(base, state, n),
            KeyModel::Current(V::key_of(id)),
            stored::<V>(at(base, id)),
        ) == stored::<V>(at(state, id)),
{
    let set = base.dom().union(state.dom());
    let ids = ascending::<V::Id>(set);
    let k = KeyModel::Current(V::key_of(id));
    let v = stored::<V>(at(base, id));
    finite_sets_ascend::<V::Id>(set);
    if set.contains(id) {
        assert(ids.to_set().contains(id));
        transitions_own::<V>(ids, base, state, n, id, k, v);
        transition_live::<V>(id, at(base, id), at(state, id), n);
    } else {
        assert forall|i: int| 0 <= i < ids.len() implies k != KeyModel::Current(
            V::key_of(#[trigger] ids[i]),
        ) && k != history_key(V::entity_of(ids[i]), n) by {
            assert(ids.to_set().contains(ids[i]));
            V::keys_are_own(ids[i], id);
        }
        transitions_outside::<V>(ids, base, state, n, k, v);
    }
}

proof fn transition_live<V: Versioned>(
    id: <V::Id as DeepView>::V,
    b: Option<V::V>,
    s: Option<V::V>,
    n: u64,
)
    ensures
        after(transition::<V>(id, b, s, n), KeyModel::Current(V::key_of(id)), stored::<V>(b))
            == stored::<V>(s),
{
    let t = transition::<V>(id, b, s, n);
    let k = KeyModel::Current(V::key_of(id));
    reveal_with_fuel(after, 3);
    if t.len() == 2 {
        assert(t.drop_last().last() == t[0]);
    }
}

/// Whether a version of a record ends when `b` becomes `s`.
pub open spec fn version_ends<V: Versioned>(b: Option<V::V>, s: Option<V::V>) -> bool {
    match (b, s) {
        (Some(b), None) => true,
        (Some(b), Some(s)) => b != s && !V::one_version(b, s),
        _ => false,
    }
}

/// A version that ends is put under its history key, with its end stamped; no
/// other record is.
proof fn versioned_history<V: Versioned>(
    base: Map<<V::Id as DeepView>::V, V::V>,
    state: Map<<V::Id as DeepView>::V, V::V>,
    n: u64,
    id: <V::Id as DeepView>::V,
    v: Option<StoredModel>,
)
    requires
        base.dom().finite(),
        state.dom().finite(),
    ensures
        after(versioned_diff::<V>(base, state, n), history_key(V::entity_of(id), n), v)
            == if version_ends::<V>(at(base, id), at(state, id)) {
            Some(V::value_of(V::ended(base[id], n)))
        } else {
            v
        },
{
    let set = base.dom().union(state.dom());
    let ids = ascending::<V::Id>(set);
    let k = history_key(V::entity_of(id), n);
    finite_sets_ascend::<V::Id>(set);
    if set.contains(id) {
        assert(ids.to_set().contains(id));
        transitions_own::<V>(ids, base, state, n, id, k, v);
        let t = transition::<V>(id, at(base, id), at(state, id), n);
        reveal_with_fuel(after, 3);
        if t.len() == 2 {
            assert(t.drop_last().last() == t[0]);
        }
    } else {
        assert forall|i: int| 0 <= i < ids.len() implies k != KeyModel::Current(
            V::key_of(#[trigger] ids[i]),
        ) && k != history_key(V::entity_of(ids[i]), n) by {
            assert(ids.to_set().contains(ids[i]));
            entities_are_own::<V>(ids[i], id);
        }
        transitions_outside::<V>(ids, base, state, n, k, v);
    }
}

proof fn overwrites_outside<V: Live>(
    ids: Seq<<V::Id as DeepView>::V>,
    base: Map<<V::Id as DeepView>::V, V::V>,
    state: Map<<V::Id as DeepView>::V, V::V>,
    k: KeyModel,
    v: Option<StoredModel>,
)
    requires
        forall|i: int| 0 <= i < ids.len() ==> k != KeyModel::Current(V::key_of(#[trigger] ids[i])),
    ensures
        after(overwrites::<V>(ids, base, state), k, v) == v,
    decreases ids.len(),
{
    if ids.len() > 0 {
        let front = ids.drop_last();
        let id = ids.last();
        assert(ids[ids.len() - 1] == id);
        assert forall|i: int| 0 <= i < front.len() implies k != KeyModel::Current(
            V::key_of(#[trigger] front[i]),
        ) by {
            assert(front[i] == ids[i]);
        }
        overwrites_outside::<V>(front, base, state, k, v);
        after_elsewhere(overwrite::<V>(id, at(base, id), at(state, id)), k, v);
        after_both(
            overwrites::<V>(front, base, state),
            overwrite::<V>(id, at(base, id), at(state, id)),
            k,
            v,
        );
    }
}

proof fn overwrites_own<V: Live>(
    ids: Seq<<V::Id as DeepView>::V>,
    base: Map<<V::Id as DeepView>::V, V::V>,
    state: Map<<V::Id as DeepView>::V, V::V>,
    id: <V::Id as DeepView>::V,
)
    requires
        ascends::<V::Id>(ids),
        ids.contains(id),
    ensures
        after(
            overwrites::<V>(ids, base, state),
            KeyModel::Current(V::key_of(id)),
            stored::<V>(at(base, id)),
        ) == stored::<V>(at(state, id)),
    decreases ids.len(),
{
    let k = KeyModel::Current(V::key_of(id));
    let v = stored::<V>(at(base, id));
    let front = ids.drop_last();
    let last = ids.last();
    let a = overwrites::<V>(front, base, state);
    let b = overwrite::<V>(last, at(base, last), at(state, last));
    after_both(a, b, k, v);
    assert(ids[ids.len() - 1] == last);
    reveal_with_fuel(after, 2);
    if last == id {
        assert forall|i: int| 0 <= i < front.len() implies k != KeyModel::Current(
            V::key_of(#[trigger] front[i]),
        ) by {
            assert(front[i] == ids[i]);
            assert(V::Id::below(ids[i], ids[ids.len() - 1]));
            V::Id::below_is_strict(id, id);
            V::keys_are_own(front[i], id);
        }
        overwrites_outside::<V>(front, base, state, k, v);
    } else {
        let i = choose|i: int| 0 <= i < ids.len() && ids[i] == id;
        assert(front[i] == id);
        assert forall|i: int, j: int| 0 <= i < j < front.len() implies V::Id::below(
            #[trigger] front[i],
            #[trigger] front[j],
        ) by {
            assert(front[i] == ids[i] && front[j] == ids[j]);
        }
        overwrites_own::<V>(front, base, state, id);
        V::keys_are_own(last, id);
        after_elsewhere(b, k, after(a, k, v));
    }
}

proof fn overwrite_outside<V: Live>(
    base: Map<<V::Id as DeepView>::V, V::V>,
    state: Map<<V::Id as DeepView>::V, V::V>,
    k: KeyModel,
    v: Option<StoredModel>,
)
    requires
        outside_live::<V>(k),
    ensures
        after(overwrite_diff::<V>(base, state), k, v) == v,
{
    overwrites_outside::<V>(ascending::<V::Id>(base.dom().union(state.dom())), base, state, k, v);
}

proof fn overwrite_live<V: Live>(
    base: Map<<V::Id as DeepView>::V, V::V>,
    state: Map<<V::Id as DeepView>::V, V::V>,
    id: <V::Id as DeepView>::V,
)
    requires
        base.dom().finite(),
        state.dom().finite(),
    ensures
        after(
            overwrite_diff::<V>(base, state),
            KeyModel::Current(V::key_of(id)),
            stored::<V>(at(base, id)),
        ) == stored::<V>(at(state, id)),
{
    let set = base.dom().union(state.dom());
    let ids = ascending::<V::Id>(set);
    let k = KeyModel::Current(V::key_of(id));
    finite_sets_ascend::<V::Id>(set);
    if set.contains(id) {
        assert(ids.to_set().contains(id));
        overwrites_own::<V>(ids, base, state, id);
    } else {
        assert forall|i: int| 0 <= i < ids.len() implies k != KeyModel::Current(
            V::key_of(#[trigger] ids[i]),
        ) by {
            assert(ids.to_set().contains(ids[i]));
            V::keys_are_own(ids[i], id);
        }
        overwrites_outside::<V>(ids, base, state, k, stored::<V>(at(base, id)));
    }
}

proof fn mapping_live(
    base: CatalogModel,
    state: CatalogModel,
    id: (u64, u64),
)
    requires
        state.mappings.dom().finite(),
        base.mappings.dom().subset_of(state.mappings.dom()),
    ensures
        after(
            mapping_diff(base.mappings, state.mappings),
            KeyModel::Current(MappingValue::key_of(id)),
            stored::<MappingValue>(at(base.mappings, id)),
        ) == stored::<MappingValue>(at(state.mappings, id)),
{
    let ids = ascending::<(u64, u64)>(state.mappings.dom());
    let k = KeyModel::Current(MappingValue::key_of(id));
    finite_sets_ascend::<(u64, u64)>(state.mappings.dom());
    if state.mappings.contains_key(id) {
        assert(ids.to_set().contains(id));
        overwrites_own::<MappingValue>(ids, base.mappings, state.mappings, id);
    } else {
        assert(!base.mappings.dom().contains(id));
        assert forall|i: int| 0 <= i < ids.len() implies k != KeyModel::Current(
            MappingValue::key_of(#[trigger] ids[i]),
        ) by {
            assert(ids.to_set().contains(ids[i]));
        }
        overwrites_outside::<MappingValue>(
            ids,
            base.mappings,
            state.mappings,
            k,
            stored::<MappingValue>(at(base.mappings, id)),
        );
    }
}

proof fn file_stats_outside(
    ids: Seq<(u64, (u64, u64))>,
    base: CatalogModel,
    state: CatalogModel,
    k: KeyModel,
    v: Option<StoredModel>,
)
    requires
        forall|i: int|
            0 <= i < ids.len() ==> k != KeyModel::Current(
                FileColumnStatsValue::key_of(#[trigger] ids[i]),
            ) || !has_file(ids[i], base.data_files, state.data_files),
    ensures
        after(file_stats_writes(ids, base, state), k, v) == v,
    decreases ids.len(),
{
    if ids.len() > 0 {
        let front = ids.drop_last();
        let id = ids.last();
        assert(ids[ids.len() - 1] == id);
        assert forall|i: int| 0 <= i < front.len() implies k != KeyModel::Current(
            FileColumnStatsValue::key_of(#[trigger] front[i]),
        ) || !has_file(front[i], base.data_files, state.data_files) by {
            assert(front[i] == ids[i]);
        }
        file_stats_outside(front, base, state, k, v);
        if has_file(id, base.data_files, state.data_files) {
            let w = overwrite::<FileColumnStatsValue>(
                id,
                at(base.file_column_stats, id),
                at(state.file_column_stats, id),
            );
            after_elsewhere(w, k, v);
            after_both(file_stats_writes(front, base, state), w, k, v);
        }
    }
}

proof fn file_stats_own(
    ids: Seq<(u64, (u64, u64))>,
    base: CatalogModel,
    state: CatalogModel,
    id: (u64, (u64, u64)),
)
    requires
        ascends::<(u64, (u64, u64))>(ids),
        ids.contains(id),
        has_file(id, base.data_files, state.data_files),
    ensures
        after(
            file_stats_writes(ids, base, state),
            KeyModel::Current(FileColumnStatsValue::key_of(id)),
            stored::<FileColumnStatsValue>(at(base.file_column_stats, id)),
        ) == stored::<FileColumnStatsValue>(at(state.file_column_stats, id)),
    decreases ids.len(),
{
    let k = KeyModel::Current(FileColumnStatsValue::key_of(id));
    let v = stored::<FileColumnStatsValue>(at(base.file_column_stats, id));
    let front = ids.drop_last();
    let last = ids.last();
    let a = file_stats_writes(front, base, state);
    let b = overwrite::<FileColumnStatsValue>(
        last,
        at(base.file_column_stats, last),
        at(state.file_column_stats, last),
    );
    after_both(a, b, k, v);
    assert(ids[ids.len() - 1] == last);
    reveal_with_fuel(after, 2);
    if last == id {
        assert forall|i: int| 0 <= i < front.len() implies k != KeyModel::Current(
            FileColumnStatsValue::key_of(#[trigger] front[i]),
        ) || !has_file(front[i], base.data_files, state.data_files) by {
            assert(front[i] == ids[i]);
            assert(<(u64, (u64, u64)) as Ordered>::below(ids[i], ids[ids.len() - 1]));
        }
        file_stats_outside(front, base, state, k, v);
    } else {
        let i = choose|i: int| 0 <= i < ids.len() && ids[i] == id;
        assert(front[i] == id);
        assert forall|i: int, j: int| 0 <= i < j < front.len() implies <(
            u64,
            (u64, u64),
        ) as Ordered>::below(#[trigger] front[i], #[trigger] front[j]) by {
            assert(front[i] == ids[i] && front[j] == ids[j]);
        }
        file_stats_own(front, base, state, id);
        after_elsewhere(b, k, after(a, k, v));
    }
}

/// A per-file statistics record is staged exactly where its file is on either
/// side.
proof fn file_stats_live(base: CatalogModel, state: CatalogModel, id: (u64, (u64, u64)))
    requires
        finite_state(base),
        finite_state(state),
        has_file(id, base.data_files, state.data_files) || at(base.file_column_stats, id) == at(
            state.file_column_stats,
            id,
        ),
    ensures
        after(
            file_stats_diff(base, state),
            KeyModel::Current(FileColumnStatsValue::key_of(id)),
            stored::<FileColumnStatsValue>(at(base.file_column_stats, id)),
        ) == stored::<FileColumnStatsValue>(at(state.file_column_stats, id)),
{
    let set = base.file_column_stats.dom().union(state.file_column_stats.dom());
    let ids = ascending::<(u64, (u64, u64))>(set);
    let k = KeyModel::Current(FileColumnStatsValue::key_of(id));
    let v = stored::<FileColumnStatsValue>(at(base.file_column_stats, id));
    finite_sets_ascend::<(u64, (u64, u64))>(set);
    if set.contains(id) && has_file(id, base.data_files, state.data_files) {
        assert(ids.to_set().contains(id));
        file_stats_own(ids, base, state, id);
    } else {
        assert forall|i: int| 0 <= i < ids.len() implies k != KeyModel::Current(
            FileColumnStatsValue::key_of(#[trigger] ids[i]),
        ) || !has_file(ids[i], base.data_files, state.data_files) by {
            assert(ids.to_set().contains(ids[i]));
        }
        file_stats_outside(ids, base, state, k, v);
    }
}

// ---------------------------------------------------------------------------
// The whole batch
// ---------------------------------------------------------------------------

/// The place of a live key's kind in the batch.
spec fn place(key: CurrentKey) -> int {
    match key {
        CurrentKey::Entity(EntityKey::Schema { .. }) => 1,
        CurrentKey::Entity(EntityKey::Table { .. }) => 2,
        CurrentKey::Entity(EntityKey::View { .. }) => 3,
        CurrentKey::Entity(EntityKey::Column { .. }) => 4,
        CurrentKey::Entity(EntityKey::File { .. }) => 5,
        CurrentKey::Entity(EntityKey::DeleteFile { .. }) => 6,
        CurrentKey::Entity(EntityKey::Partition { .. }) => 7,
        CurrentKey::Entity(EntityKey::Sort { .. }) => 8,
        CurrentKey::Entity(EntityKey::Index { .. }) => 9,
        CurrentKey::Entity(EntityKey::Macro { .. }) => 10,
        CurrentKey::Entity(EntityKey::Mapping { .. }) => 11,
        CurrentKey::Entity(EntityKey::TableStats { .. }) => 12,
        CurrentKey::Entity(EntityKey::TableColumnStats { .. }) => 13,
        CurrentKey::Entity(EntityKey::FileColumnStats { .. }) => 14,
        CurrentKey::Entity(EntityKey::OptionScope { .. }) => 15,
        CurrentKey::Entity(EntityKey::Tag { .. }) => 16,
        CurrentKey::GcFile { .. } => 17,
    }
}

proof fn step_schemas(
    base: CatalogModel,
    state: CatalogModel,
    n: u64,
    done: Seq<WriteModel>,
    key: CurrentKey,
)
    requires
        finite_state(base),
        finite_state(state),
        base.mappings.dom().subset_of(state.mappings.dom()),
        file_stats_reach(base, state),
        after(done, KeyModel::Current(key), live_value(base, key)) == (if place(key) < 1 {
            live_value(state, key)
        } else {
            live_value(base, key)
        }),
    ensures
        after(
            done + versioned_diff::<SchemaValue>(base.schemas, state.schemas, n),
            KeyModel::Current(key),
            live_value(base, key),
        ) == (if place(key) < 2 {
            live_value(state, key)
        } else {
            live_value(base, key)
        }),
{
    let k = KeyModel::Current(key);
    let g = versioned_diff::<SchemaValue>(base.schemas, state.schemas, n);
    after_both(done, g, k, live_value(base, key));
    let v = after(done, k, live_value(base, key));
    match key {
        CurrentKey::Entity(EntityKey::Schema { schema_id }) => {
            versioned_live::<SchemaValue>(base.schemas, state.schemas, n, schema_id);
        },
        _ => {
            versioned_outside::<SchemaValue>(base.schemas, state.schemas, n, k, v);
        },
    }
}

proof fn step_tables(
    base: CatalogModel,
    state: CatalogModel,
    n: u64,
    done: Seq<WriteModel>,
    key: CurrentKey,
)
    requires
        finite_state(base),
        finite_state(state),
        base.mappings.dom().subset_of(state.mappings.dom()),
        file_stats_reach(base, state),
        after(done, KeyModel::Current(key), live_value(base, key)) == (if place(key) < 2 {
            live_value(state, key)
        } else {
            live_value(base, key)
        }),
    ensures
        after(
            done + versioned_diff::<TableValue>(base.tables, state.tables, n),
            KeyModel::Current(key),
            live_value(base, key),
        ) == (if place(key) < 3 {
            live_value(state, key)
        } else {
            live_value(base, key)
        }),
{
    let k = KeyModel::Current(key);
    let g = versioned_diff::<TableValue>(base.tables, state.tables, n);
    after_both(done, g, k, live_value(base, key));
    let v = after(done, k, live_value(base, key));
    match key {
        CurrentKey::Entity(EntityKey::Table { table_id }) => {
            versioned_live::<TableValue>(base.tables, state.tables, n, table_id);
        },
        _ => {
            versioned_outside::<TableValue>(base.tables, state.tables, n, k, v);
        },
    }
}

proof fn step_views(
    base: CatalogModel,
    state: CatalogModel,
    n: u64,
    done: Seq<WriteModel>,
    key: CurrentKey,
)
    requires
        finite_state(base),
        finite_state(state),
        base.mappings.dom().subset_of(state.mappings.dom()),
        file_stats_reach(base, state),
        after(done, KeyModel::Current(key), live_value(base, key)) == (if place(key) < 3 {
            live_value(state, key)
        } else {
            live_value(base, key)
        }),
    ensures
        after(
            done + versioned_diff::<ViewValue>(base.views, state.views, n),
            KeyModel::Current(key),
            live_value(base, key),
        ) == (if place(key) < 4 {
            live_value(state, key)
        } else {
            live_value(base, key)
        }),
{
    let k = KeyModel::Current(key);
    let g = versioned_diff::<ViewValue>(base.views, state.views, n);
    after_both(done, g, k, live_value(base, key));
    let v = after(done, k, live_value(base, key));
    match key {
        CurrentKey::Entity(EntityKey::View { view_id }) => {
            versioned_live::<ViewValue>(base.views, state.views, n, view_id);
        },
        _ => {
            versioned_outside::<ViewValue>(base.views, state.views, n, k, v);
        },
    }
}

proof fn step_columns(
    base: CatalogModel,
    state: CatalogModel,
    n: u64,
    done: Seq<WriteModel>,
    key: CurrentKey,
)
    requires
        finite_state(base),
        finite_state(state),
        base.mappings.dom().subset_of(state.mappings.dom()),
        file_stats_reach(base, state),
        after(done, KeyModel::Current(key), live_value(base, key)) == (if place(key) < 4 {
            live_value(state, key)
        } else {
            live_value(base, key)
        }),
    ensures
        after(
            done + versioned_diff::<ColumnValue>(base.columns, state.columns, n),
            KeyModel::Current(key),
            live_value(base, key),
        ) == (if place(key) < 5 {
            live_value(state, key)
        } else {
            live_value(base, key)
        }),
{
    let k = KeyModel::Current(key);
    let g = versioned_diff::<ColumnValue>(base.columns, state.columns, n);
    after_both(done, g, k, live_value(base, key));
    let v = after(done, k, live_value(base, key));
    match key {
        CurrentKey::Entity(EntityKey::Column { table_id, column_id }) => {
            versioned_live::<ColumnValue>(base.columns, state.columns, n, (table_id, column_id));
        },
        _ => {
            versioned_outside::<ColumnValue>(base.columns, state.columns, n, k, v);
        },
    }
}

proof fn step_data_files(
    base: CatalogModel,
    state: CatalogModel,
    n: u64,
    done: Seq<WriteModel>,
    key: CurrentKey,
)
    requires
        finite_state(base),
        finite_state(state),
        base.mappings.dom().subset_of(state.mappings.dom()),
        file_stats_reach(base, state),
        after(done, KeyModel::Current(key), live_value(base, key)) == (if place(key) < 5 {
            live_value(state, key)
        } else {
            live_value(base, key)
        }),
    ensures
        after(
            done + versioned_diff::<DataFileValue>(base.data_files, state.data_files, n),
            KeyModel::Current(key),
            live_value(base, key),
        ) == (if place(key) < 6 {
            live_value(state, key)
        } else {
            live_value(base, key)
        }),
{
    let k = KeyModel::Current(key);
    let g = versioned_diff::<DataFileValue>(base.data_files, state.data_files, n);
    after_both(done, g, k, live_value(base, key));
    let v = after(done, k, live_value(base, key));
    match key {
        CurrentKey::Entity(EntityKey::File { table_id, data_file_id }) => {
            versioned_live::<DataFileValue>(base.data_files, state.data_files, n, (table_id, data_file_id));
        },
        _ => {
            versioned_outside::<DataFileValue>(base.data_files, state.data_files, n, k, v);
        },
    }
}

proof fn step_delete_files(
    base: CatalogModel,
    state: CatalogModel,
    n: u64,
    done: Seq<WriteModel>,
    key: CurrentKey,
)
    requires
        finite_state(base),
        finite_state(state),
        base.mappings.dom().subset_of(state.mappings.dom()),
        file_stats_reach(base, state),
        after(done, KeyModel::Current(key), live_value(base, key)) == (if place(key) < 6 {
            live_value(state, key)
        } else {
            live_value(base, key)
        }),
    ensures
        after(
            done + versioned_diff::<DeleteFileValue>(base.delete_files, state.delete_files, n),
            KeyModel::Current(key),
            live_value(base, key),
        ) == (if place(key) < 7 {
            live_value(state, key)
        } else {
            live_value(base, key)
        }),
{
    let k = KeyModel::Current(key);
    let g = versioned_diff::<DeleteFileValue>(base.delete_files, state.delete_files, n);
    after_both(done, g, k, live_value(base, key));
    let v = after(done, k, live_value(base, key));
    match key {
        CurrentKey::Entity(EntityKey::DeleteFile { table_id, delete_file_id }) => {
            versioned_live::<DeleteFileValue>(base.delete_files, state.delete_files, n, (table_id, delete_file_id));
        },
        _ => {
            versioned_outside::<DeleteFileValue>(base.delete_files, state.delete_files, n, k, v);
        },
    }
}

proof fn step_partitions(
    base: CatalogModel,
    state: CatalogModel,
    n: u64,
    done: Seq<WriteModel>,
    key: CurrentKey,
)
    requires
        finite_state(base),
        finite_state(state),
        base.mappings.dom().subset_of(state.mappings.dom()),
        file_stats_reach(base, state),
        after(done, KeyModel::Current(key), live_value(base, key)) == (if place(key) < 7 {
            live_value(state, key)
        } else {
            live_value(base, key)
        }),
    ensures
        after(
            done + versioned_diff::<PartitionValue>(base.partitions, state.partitions, n),
            KeyModel::Current(key),
            live_value(base, key),
        ) == (if place(key) < 8 {
            live_value(state, key)
        } else {
            live_value(base, key)
        }),
{
    let k = KeyModel::Current(key);
    let g = versioned_diff::<PartitionValue>(base.partitions, state.partitions, n);
    after_both(done, g, k, live_value(base, key));
    let v = after(done, k, live_value(base, key));
    match key {
        CurrentKey::Entity(EntityKey::Partition { table_id, partition_id }) => {
            versioned_live::<PartitionValue>(base.partitions, state.partitions, n, (table_id, partition_id));
        },
        _ => {
            versioned_outside::<PartitionValue>(base.partitions, state.partitions, n, k, v);
        },
    }
}

proof fn step_sorts(
    base: CatalogModel,
    state: CatalogModel,
    n: u64,
    done: Seq<WriteModel>,
    key: CurrentKey,
)
    requires
        finite_state(base),
        finite_state(state),
        base.mappings.dom().subset_of(state.mappings.dom()),
        file_stats_reach(base, state),
        after(done, KeyModel::Current(key), live_value(base, key)) == (if place(key) < 8 {
            live_value(state, key)
        } else {
            live_value(base, key)
        }),
    ensures
        after(
            done + versioned_diff::<SortValue>(base.sorts, state.sorts, n),
            KeyModel::Current(key),
            live_value(base, key),
        ) == (if place(key) < 9 {
            live_value(state, key)
        } else {
            live_value(base, key)
        }),
{
    let k = KeyModel::Current(key);
    let g = versioned_diff::<SortValue>(base.sorts, state.sorts, n);
    after_both(done, g, k, live_value(base, key));
    let v = after(done, k, live_value(base, key));
    match key {
        CurrentKey::Entity(EntityKey::Sort { table_id, sort_id }) => {
            versioned_live::<SortValue>(base.sorts, state.sorts, n, (table_id, sort_id));
        },
        _ => {
            versioned_outside::<SortValue>(base.sorts, state.sorts, n, k, v);
        },
    }
}

proof fn step_indexes(
    base: CatalogModel,
    state: CatalogModel,
    n: u64,
    done: Seq<WriteModel>,
    key: CurrentKey,
)
    requires
        finite_state(base),
        finite_state(state),
        base.mappings.dom().subset_of(state.mappings.dom()),
        file_stats_reach(base, state),
        after(done, KeyModel::Current(key), live_value(base, key)) == (if place(key) < 9 {
            live_value(state, key)
        } else {
            live_value(base, key)
        }),
    ensures
        after(
            done + versioned_diff::<IndexValue>(base.indexes, state.indexes, n),
            KeyModel::Current(key),
            live_value(base, key),
        ) == (if place(key) < 10 {
            live_value(state, key)
        } else {
            live_value(base, key)
        }),
{
    let k = KeyModel::Current(key);
    let g = versioned_diff::<IndexValue>(base.indexes, state.indexes, n);
    after_both(done, g, k, live_value(base, key));
    let v = after(done, k, live_value(base, key));
    match key {
        CurrentKey::Entity(EntityKey::Index { table_id, index_id }) => {
            versioned_live::<IndexValue>(base.indexes, state.indexes, n, (table_id, index_id));
        },
        _ => {
            versioned_outside::<IndexValue>(base.indexes, state.indexes, n, k, v);
        },
    }
}

proof fn step_macros(
    base: CatalogModel,
    state: CatalogModel,
    n: u64,
    done: Seq<WriteModel>,
    key: CurrentKey,
)
    requires
        finite_state(base),
        finite_state(state),
        base.mappings.dom().subset_of(state.mappings.dom()),
        file_stats_reach(base, state),
        after(done, KeyModel::Current(key), live_value(base, key)) == (if place(key) < 10 {
            live_value(state, key)
        } else {
            live_value(base, key)
        }),
    ensures
        after(
            done + versioned_diff::<MacroValue>(base.macros, state.macros, n),
            KeyModel::Current(key),
            live_value(base, key),
        ) == (if place(key) < 11 {
            live_value(state, key)
        } else {
            live_value(base, key)
        }),
{
    let k = KeyModel::Current(key);
    let g = versioned_diff::<MacroValue>(base.macros, state.macros, n);
    after_both(done, g, k, live_value(base, key));
    let v = after(done, k, live_value(base, key));
    match key {
        CurrentKey::Entity(EntityKey::Macro { macro_id }) => {
            versioned_live::<MacroValue>(base.macros, state.macros, n, macro_id);
        },
        _ => {
            versioned_outside::<MacroValue>(base.macros, state.macros, n, k, v);
        },
    }
}

proof fn step_mappings(
    base: CatalogModel,
    state: CatalogModel,
    n: u64,
    done: Seq<WriteModel>,
    key: CurrentKey,
)
    requires
        finite_state(base),
        finite_state(state),
        base.mappings.dom().subset_of(state.mappings.dom()),
        file_stats_reach(base, state),
        after(done, KeyModel::Current(key), live_value(base, key)) == (if place(key) < 11 {
            live_value(state, key)
        } else {
            live_value(base, key)
        }),
    ensures
        after(
            done + mapping_diff(base.mappings, state.mappings),
            KeyModel::Current(key),
            live_value(base, key),
        ) == (if place(key) < 12 {
            live_value(state, key)
        } else {
            live_value(base, key)
        }),
{
    let k = KeyModel::Current(key);
    let g = mapping_diff(base.mappings, state.mappings);
    after_both(done, g, k, live_value(base, key));
    let v = after(done, k, live_value(base, key));
    match key {
        CurrentKey::Entity(EntityKey::Mapping { table_id, mapping_id }) => {
            mapping_live(base, state, (table_id, mapping_id));
        },
        _ => {
            overwrites_outside::<MappingValue>(
                ascending::<(u64, u64)>(state.mappings.dom()),
                base.mappings,
                state.mappings,
                k,
                v,
            );
        },
    }
}

proof fn step_table_stats(
    base: CatalogModel,
    state: CatalogModel,
    n: u64,
    done: Seq<WriteModel>,
    key: CurrentKey,
)
    requires
        finite_state(base),
        finite_state(state),
        base.mappings.dom().subset_of(state.mappings.dom()),
        file_stats_reach(base, state),
        after(done, KeyModel::Current(key), live_value(base, key)) == (if place(key) < 12 {
            live_value(state, key)
        } else {
            live_value(base, key)
        }),
    ensures
        after(
            done + overwrite_diff::<TableStatsValue>(base.table_stats, state.table_stats),
            KeyModel::Current(key),
            live_value(base, key),
        ) == (if place(key) < 13 {
            live_value(state, key)
        } else {
            live_value(base, key)
        }),
{
    let k = KeyModel::Current(key);
    let g = overwrite_diff::<TableStatsValue>(base.table_stats, state.table_stats);
    after_both(done, g, k, live_value(base, key));
    let v = after(done, k, live_value(base, key));
    match key {
        CurrentKey::Entity(EntityKey::TableStats { table_id }) => {
            overwrite_live::<TableStatsValue>(base.table_stats, state.table_stats, table_id);
        },
        _ => {
            overwrite_outside::<TableStatsValue>(base.table_stats, state.table_stats, k, v);
        },
    }
}

proof fn step_table_column_stats(
    base: CatalogModel,
    state: CatalogModel,
    n: u64,
    done: Seq<WriteModel>,
    key: CurrentKey,
)
    requires
        finite_state(base),
        finite_state(state),
        base.mappings.dom().subset_of(state.mappings.dom()),
        file_stats_reach(base, state),
        after(done, KeyModel::Current(key), live_value(base, key)) == (if place(key) < 13 {
            live_value(state, key)
        } else {
            live_value(base, key)
        }),
    ensures
        after(
            done + overwrite_diff::<TableColumnStatsValue>(base.table_column_stats, state.table_column_stats),
            KeyModel::Current(key),
            live_value(base, key),
        ) == (if place(key) < 14 {
            live_value(state, key)
        } else {
            live_value(base, key)
        }),
{
    let k = KeyModel::Current(key);
    let g = overwrite_diff::<TableColumnStatsValue>(base.table_column_stats, state.table_column_stats);
    after_both(done, g, k, live_value(base, key));
    let v = after(done, k, live_value(base, key));
    match key {
        CurrentKey::Entity(EntityKey::TableColumnStats { table_id, column_id }) => {
            overwrite_live::<TableColumnStatsValue>(base.table_column_stats, state.table_column_stats, (table_id, column_id));
        },
        _ => {
            overwrite_outside::<TableColumnStatsValue>(base.table_column_stats, state.table_column_stats, k, v);
        },
    }
}

proof fn step_file_column_stats(
    base: CatalogModel,
    state: CatalogModel,
    n: u64,
    done: Seq<WriteModel>,
    key: CurrentKey,
)
    requires
        finite_state(base),
        finite_state(state),
        base.mappings.dom().subset_of(state.mappings.dom()),
        file_stats_reach(base, state),
        after(done, KeyModel::Current(key), live_value(base, key)) == (if place(key) < 14 {
            live_value(state, key)
        } else {
            live_value(base, key)
        }),
    ensures
        after(
            done + file_stats_diff(base, state),
            KeyModel::Current(key),
            live_value(base, key),
        ) == (if place(key) < 15 {
            live_value(state, key)
        } else {
            live_value(base, key)
        }),
{
    let k = KeyModel::Current(key);
    let g = file_stats_diff(base, state);
    after_both(done, g, k, live_value(base, key));
    let v = after(done, k, live_value(base, key));
    match key {
        CurrentKey::Entity(EntityKey::FileColumnStats { table_id, data_file_id, column_id }) => {
            file_stats_live(base, state, (table_id, (data_file_id, column_id)));
        },
        _ => {
            file_stats_outside(
                ascending::<(u64, (u64, u64))>(
                    base.file_column_stats.dom().union(state.file_column_stats.dom()),
                ),
                base,
                state,
                k,
                v,
            );
        },
    }
}

proof fn step_options(
    base: CatalogModel,
    state: CatalogModel,
    n: u64,
    done: Seq<WriteModel>,
    key: CurrentKey,
)
    requires
        finite_state(base),
        finite_state(state),
        base.mappings.dom().subset_of(state.mappings.dom()),
        file_stats_reach(base, state),
        after(done, KeyModel::Current(key), live_value(base, key)) == (if place(key) < 15 {
            live_value(state, key)
        } else {
            live_value(base, key)
        }),
    ensures
        after(
            done + overwrite_diff::<OptionScopeValue>(base.options, state.options),
            KeyModel::Current(key),
            live_value(base, key),
        ) == (if place(key) < 16 {
            live_value(state, key)
        } else {
            live_value(base, key)
        }),
{
    let k = KeyModel::Current(key);
    let g = overwrite_diff::<OptionScopeValue>(base.options, state.options);
    after_both(done, g, k, live_value(base, key));
    let v = after(done, k, live_value(base, key));
    match key {
        CurrentKey::Entity(EntityKey::OptionScope { scope_kind, scope_id }) => {
            overwrite_live::<OptionScopeValue>(base.options, state.options, (scope_kind, scope_id));
        },
        _ => {
            overwrite_outside::<OptionScopeValue>(base.options, state.options, k, v);
        },
    }
}

proof fn step_tags(
    base: CatalogModel,
    state: CatalogModel,
    n: u64,
    done: Seq<WriteModel>,
    key: CurrentKey,
)
    requires
        finite_state(base),
        finite_state(state),
        base.mappings.dom().subset_of(state.mappings.dom()),
        file_stats_reach(base, state),
        after(done, KeyModel::Current(key), live_value(base, key)) == (if place(key) < 16 {
            live_value(state, key)
        } else {
            live_value(base, key)
        }),
    ensures
        after(
            done + overwrite_diff::<TagValue>(base.tags, state.tags),
            KeyModel::Current(key),
            live_value(base, key),
        ) == (if place(key) < 17 {
            live_value(state, key)
        } else {
            live_value(base, key)
        }),
{
    let k = KeyModel::Current(key);
    let g = overwrite_diff::<TagValue>(base.tags, state.tags);
    after_both(done, g, k, live_value(base, key));
    let v = after(done, k, live_value(base, key));
    match key {
        CurrentKey::Entity(EntityKey::Tag { object_id }) => {
            overwrite_live::<TagValue>(base.tags, state.tags, object_id);
        },
        _ => {
            overwrite_outside::<TagValue>(base.tags, state.tags, k, v);
        },
    }
}

proof fn step_gc_files(
    base: CatalogModel,
    state: CatalogModel,
    n: u64,
    done: Seq<WriteModel>,
    key: CurrentKey,
)
    requires
        finite_state(base),
        finite_state(state),
        base.mappings.dom().subset_of(state.mappings.dom()),
        file_stats_reach(base, state),
        after(done, KeyModel::Current(key), live_value(base, key)) == (if place(key) < 17 {
            live_value(state, key)
        } else {
            live_value(base, key)
        }),
    ensures
        after(
            done + overwrite_diff::<GcFileValue>(base.gc_files, state.gc_files),
            KeyModel::Current(key),
            live_value(base, key),
        ) == (if place(key) < 18 {
            live_value(state, key)
        } else {
            live_value(base, key)
        }),
{
    let k = KeyModel::Current(key);
    let g = overwrite_diff::<GcFileValue>(base.gc_files, state.gc_files);
    after_both(done, g, k, live_value(base, key));
    let v = after(done, k, live_value(base, key));
    match key {
        CurrentKey::GcFile { data_file_id } => {
            overwrite_live::<GcFileValue>(base.gc_files, state.gc_files, data_file_id);
        },
        _ => {
            overwrite_outside::<GcFileValue>(base.gc_files, state.gc_files, k, v);
        },
    }
}

/// Every per-file statistics record that changed belongs to a file on either
/// side.
pub open spec fn file_stats_reach(base: CatalogModel, state: CatalogModel) -> bool {
    forall|id: (u64, (u64, u64))|
        #![trigger at(state.file_column_stats, id)]
        has_file(id, base.data_files, state.data_files) || at(base.file_column_stats, id) == at(
            state.file_column_stats,
            id,
        )
}

/// Writing the batch of a commit over `base` leaves exactly `state`: under
/// every live key, the store then holds what the new state holds. Mappings may
/// only be added, and per-file statistics only change for files that are known
/// on either side.
pub proof fn writes_turn_base_into_state(
    base: CatalogModel,
    state: CatalogModel,
    n: u64,
    key: CurrentKey,
)
    requires
        finite_state(base),
        finite_state(state),
        base.mappings.dom().subset_of(state.mappings.dom()),
        file_stats_reach(base, state),
    ensures
        after(diff(base, state, n), KeyModel::Current(key), live_value(base, key)) == live_value(
            state,
            key,
        ),
{
    let p0 = Seq::<WriteModel>::empty();
    step_schemas(base, state, n, p0, key);
    let p1 = p0 + versioned_diff::<SchemaValue>(base.schemas, state.schemas, n);
    step_tables(base, state, n, p1, key);
    let p2 = p1 + versioned_diff::<TableValue>(base.tables, state.tables, n);
    step_views(base, state, n, p2, key);
    let p3 = p2 + versioned_diff::<ViewValue>(base.views, state.views, n);
    step_columns(base, state, n, p3, key);
    let p4 = p3 + versioned_diff::<ColumnValue>(base.columns, state.columns, n);
    step_data_files(base, state, n, p4, key);
    let p5 = p4 + versioned_diff::<DataFileValue>(base.data_files, state.data_files, n);
    step_delete_files(base, state, n, p5, key);
    let p6 = p5 + versioned_diff::<DeleteFileValue>(base.delete_files, state.delete_files, n);
    step_partitions(base, state, n, p6, key);
    let p7 = p6 + versioned_diff::<PartitionValue>(base.partitions, state.partitions, n);
    step_sorts(base, state, n, p7, key);
    let p8 = p7 + versioned_diff::<SortValue>(base.sorts, state.sorts, n);
    step_indexes(base, state, n, p8, key);
    let p9 = p8 + versioned_diff::<IndexValue>(base.indexes, state.indexes, n);
    step_macros(base, state, n, p9, key);
    let p10 = p9 + versioned_diff::<MacroValue>(base.macros, state.macros, n);
    step_mappings(base, state, n, p10, key);
    let p11 = p10 + mapping_diff(base.mappings, state.mappings);
    step_table_stats(base, state, n, p11, key);
    let p12 = p11 + overwrite_diff::<TableStatsValue>(base.table_stats, state.table_stats);
    step_table_column_stats(base, state, n, p12, key);
    let p13 = p12 + overwrite_diff::<TableColumnStatsValue>(base.table_column_stats, state.table_column_stats);
    step_file_column_stats(base, state, n, p13, key);
    let p14 = p13 + file_stats_diff(base, state);
    step_options(base, state, n, p14, key);
    let p15 = p14 + overwrite_diff::<OptionScopeValue>(base.options, state.options);
    step_tags(base, state, n, p15, key);
    let p16 = p15 + overwrite_diff::<TagValue>(base.tags, state.tags);
    step_gc_files(base, state, n, p16, key);
    let p17 = p16 + overwrite_diff::<GcFileValue>(base.gc_files, state.gc_files);
    assert(p1 =~= versioned_diff::<SchemaValue>(base.schemas, state.schemas, n));
    assert(diff(base, state, n) == p17);
}

/// The place of an entity's kind in the batch.
spec fn entity_place(e: EntityKey) -> int {
    match e {
        EntityKey::Schema { .. } => 1,
        EntityKey::Table { .. } => 2,
        EntityKey::View { .. } => 3,
        EntityKey::Column { .. } => 4,
        EntityKey::File { .. } => 5,
        EntityKey::DeleteFile { .. } => 6,
        EntityKey::Partition { .. } => 7,
        EntityKey::Sort { .. } => 8,
        EntityKey::Index { .. } => 9,
        EntityKey::Macro { .. } => 10,
        _ => 0,
    }
}

/// The version of an entity that ends when `base` becomes `state`, with its
/// end stamped.
pub open spec fn ended_version(
    base: CatalogModel,
    state: CatalogModel,
    n: u64,
    entity: EntityKey,
) -> Option<StoredModel> {
    match entity {
        EntityKey::Schema { schema_id } => ended_of::<SchemaValue>(
            at(base.schemas, schema_id),
            at(state.schemas, schema_id),
            n,
        ),
        EntityKey::Table { table_id } => ended_of::<TableValue>(
            at(base.tables, table_id),
            at(state.tables, table_id),
            n,
        ),
        EntityKey::View { view_id } => ended_of::<ViewValue>(
            at(base.views, view_id),
            at(state.views, view_id),
            n,
        ),
        EntityKey::Column { table_id, column_id } => ended_of::<ColumnValue>(
            at(base.columns, (table_id, column_id)),
            at(state.columns, (table_id, column_id)),
            n,
        ),
        EntityKey::File { table_id, data_file_id } => ended_of::<DataFileValue>(
            at(base.data_files, (table_id, data_file_id)),
            at(state.data_files, (table_id, data_file_id)),
            n,
        ),
        EntityKey::DeleteFile { table_id, delete_file_id } => ended_of::<DeleteFileValue>(
            at(base.delete_files, (table_id, delete_file_id)),
            at(state.delete_files, (table_id, delete_file_id)),
            n,
        ),
        EntityKey::Partition { table_id, partition_id } => ended_of::<PartitionValue>(
            at(base.partitions, (table_id, partition_id)),
            at(state.partitions, (table_id, partition_id)),
            n,
        ),
        EntityKey::Sort { table_id, sort_id } => ended_of::<SortValue>(
            at(base.sorts, (table_id, sort_id)),
            at(state.sorts, (table_id, sort_id)),
            n,
        ),
        EntityKey::Index { table_id, index_id } => ended_of::<IndexValue>(
            at(base.indexes, (table_id, index_id)),
            at(state.indexes, (table_id, index_id)),
            n,
        ),
        EntityKey::Macro { macro_id } => ended_of::<MacroValue>(
            at(base.macros, macro_id),
            at(state.macros, macro_id),
            n,
        ),
        _ => None,
    }
}

pub open spec fn ended_of<V: Versioned>(b: Option<V::V>, s: Option<V::V>, n: u64) -> Option<
    StoredModel,
> {
    if version_ends::<V>(b, s) {
        Some(V::value_of(V::ended(b->0, n)))
    } else {
        None
    }
}

spec fn kept(ended: Option<StoredModel>, v: Option<StoredModel>) -> Option<StoredModel> {
    if ended is Some {
        ended
    } else {
        v
    }
}

proof fn past_schemas(
    base: CatalogModel,
    state: CatalogModel,
    n: u64,
    done: Seq<WriteModel>,
    entity: EntityKey,
    v: Option<StoredModel>,
)
    requires
        finite_state(base),
        finite_state(state),
        after(done, history_key(entity, n), v) == (if 0 < entity_place(entity) < 1 {
            kept(ended_version(base, state, n, entity), v)
        } else {
            v
        }),
    ensures
        after(
            done + versioned_diff::<SchemaValue>(base.schemas, state.schemas, n),
            history_key(entity, n),
            v,
        ) == (if 0 < entity_place(entity) < 2 {
            kept(ended_version(base, state, n, entity), v)
        } else {
            v
        }),
{
    let k = history_key(entity, n);
    let g = versioned_diff::<SchemaValue>(base.schemas, state.schemas, n);
    after_both(done, g, k, v);
    match entity {
        EntityKey::Schema { schema_id } => {
            versioned_history::<SchemaValue>(base.schemas, state.schemas, n, schema_id, v);
        },
        _ => {
            versioned_outside::<SchemaValue>(base.schemas, state.schemas, n, k, after(done, k, v));
        },
    }
}

proof fn past_tables(
    base: CatalogModel,
    state: CatalogModel,
    n: u64,
    done: Seq<WriteModel>,
    entity: EntityKey,
    v: Option<StoredModel>,
)
    requires
        finite_state(base),
        finite_state(state),
        after(done, history_key(entity, n), v) == (if 0 < entity_place(entity) < 2 {
            kept(ended_version(base, state, n, entity), v)
        } else {
            v
        }),
    ensures
        after(
            done + versioned_diff::<TableValue>(base.tables, state.tables, n),
            history_key(entity, n),
            v,
        ) == (if 0 < entity_place(entity) < 3 {
            kept(ended_version(base, state, n, entity), v)
        } else {
            v
        }),
{
    let k = history_key(entity, n);
    let g = versioned_diff::<TableValue>(base.tables, state.tables, n);
    after_both(done, g, k, v);
    match entity {
        EntityKey::Table { table_id } => {
            versioned_history::<TableValue>(base.tables, state.tables, n, table_id, v);
        },
        _ => {
            versioned_outside::<TableValue>(base.tables, state.tables, n, k, after(done, k, v));
        },
    }
}

proof fn past_views(
    base: CatalogModel,
    state: CatalogModel,
    n: u64,
    done: Seq<WriteModel>,
    entity: EntityKey,
    v: Option<StoredModel>,
)
    requires
        finite_state(base),
        finite_state(state),
        after(done, history_key(entity, n), v) == (if 0 < entity_place(entity) < 3 {
            kept(ended_version(base, state, n, entity), v)
        } else {
            v
        }),
    ensures
        after(
            done + versioned_diff::<ViewValue>(base.views, state.views, n),
            history_key(entity, n),
            v,
        ) == (if 0 < entity_place(entity) < 4 {
            kept(ended_version(base, state, n, entity), v)
        } else {
            v
        }),
{
    let k = history_key(entity, n);
    let g = versioned_diff::<ViewValue>(base.views, state.views, n);
    after_both(done, g, k, v);
    match entity {
        EntityKey::View { view_id } => {
            versioned_history::<ViewValue>(base.views, state.views, n, view_id, v);
        },
        _ => {
            versioned_outside::<ViewValue>(base.views, state.views, n, k, after(done, k, v));
        },
    }
}

proof fn past_columns(
    base: CatalogModel,
    state: CatalogModel,
    n: u64,
    done: Seq<WriteModel>,
    entity: EntityKey,
    v: Option<StoredModel>,
)
    requires
        finite_state(base),
        finite_state(state),
        after(done, history_key(entity, n), v) == (if 0 < entity_place(entity) < 4 {
            kept(ended_version(base, state, n, entity), v)
        } else {
            v
        }),
    ensures
        after(
            done + versioned_diff::<ColumnValue>(base.columns, state.columns, n),
            history_key(entity, n),
            v,
        ) == (if 0 < entity_place(entity) < 5 {
            kept(ended_version(base, state, n, entity), v)
        } else {
            v
        }),
{
    let k = history_key(entity, n);
    let g = versioned_diff::<ColumnValue>(base.columns, state.columns, n);
    after_both(done, g, k, v);
    match entity {
        EntityKey::Column { table_id, column_id } => {
            versioned_history::<ColumnValue>(base.columns, state.columns, n, (table_id, column_id), v);
        },
        _ => {
            versioned_outside::<ColumnValue>(base.columns, state.columns, n, k, after(done, k, v));
        },
    }
}

proof fn past_data_files(
    base: CatalogModel,
    state: CatalogModel,
    n: u64,
    done: Seq<WriteModel>,
    entity: EntityKey,
    v: Option<StoredModel>,
)
    requires
        finite_state(base),
        finite_state(state),
        after(done, history_key(entity, n), v) == (if 0 < entity_place(entity) < 5 {
            kept(ended_version(base, state, n, entity), v)
        } else {
            v
        }),
    ensures
        after(
            done + versioned_diff::<DataFileValue>(base.data_files, state.data_files, n),
            history_key(entity, n),
            v,
        ) == (if 0 < entity_place(entity) < 6 {
            kept(ended_version(base, state, n, entity), v)
        } else {
            v
        }),
{
    let k = history_key(entity, n);
    let g = versioned_diff::<DataFileValue>(base.data_files, state.data_files, n);
    after_both(done, g, k, v);
    match entity {
        EntityKey::File { table_id, data_file_id } => {
            versioned_history::<DataFileValue>(base.data_files, state.data_files, n, (table_id, data_file_id), v);
        },
        _ => {
            versioned_outside::<DataFileValue>(base.data_files, state.data_files, n, k, after(done, k, v));
        },
    }
}

proof fn past_delete_files(
    base: CatalogModel,
    state: CatalogModel,
    n: u64,
    done: Seq<WriteModel>,
    entity: EntityKey,
    v: Option<StoredModel>,
)
    requires
        finite_state(base),
        finite_state(state),
        after(done, history_key(entity, n), v) == (if 0 < entity_place(entity) < 6 {
            kept(ended_version(base, state, n, entity), v)
        } else {
            v
        }),
    ensures
        after(
            done + versioned_diff::<DeleteFileValue>(base.delete_files, state.delete_files, n),
            history_key(entity, n),
            v,
        ) == (if 0 < entity_place(entity) < 7 {
            kept(ended_version(base, state, n, entity), v)
        } else {
            v
        }),
{
    let k = history_key(entity, n);
    let g = versioned_diff::<DeleteFileValue>(base.delete_files, state.delete_files, n);
    after_both(done, g, k, v);
    match entity {
        EntityKey::DeleteFile { table_id, delete_file_id } => {
            versioned_history::<DeleteFileValue>(base.delete_files, state.delete_files, n, (table_id, delete_file_id), v);
        },
        _ => {
            versioned_outside::<DeleteFileValue>(base.delete_files, state.delete_files, n, k, after(done, k, v));
        },
    }
}

proof fn past_partitions(
    base: CatalogModel,
    state: CatalogModel,
    n: u64,
    done: Seq<WriteModel>,
    entity: EntityKey,
    v: Option<StoredModel>,
)
    requires
        finite_state(base),
        finite_state(state),
        after(done, history_key(entity, n), v) == (if 0 < entity_place(entity) < 7 {
            kept(ended_version(base, state, n, entity), v)
        } else {
            v
        }),
    ensures
        after(
            done + versioned_diff::<PartitionValue>(base.partitions, state.partitions, n),
            history_key(entity, n),
            v,
        ) == (if 0 < entity_place(entity) < 8 {
            kept(ended_version(base, state, n, entity), v)
        } else {
            v
        }),
{
    let k = history_key(entity, n);
    let g = versioned_diff::<PartitionValue>(base.partitions, state.partitions, n);
    after_both(done, g, k, v);
    match entity {
        EntityKey::Partition { table_id, partition_id } => {
            versioned_history::<PartitionValue>(base.partitions, state.partitions, n, (table_id, partition_id), v);
        },
        _ => {
            versioned_outside::<PartitionValue>(base.partitions, state.partitions, n, k, after(done, k, v));
        },
    }
}

proof fn past_sorts(
    base: CatalogModel,
    state: CatalogModel,
    n: u64,
    done: Seq<WriteModel>,
    entity: EntityKey,
    v: Option<StoredModel>,
)
    requires
        finite_state(base),
        finite_state(state),
        after(done, history_key(entity, n), v) == (if 0 < entity_place(entity) < 8 {
            kept(ended_version(base, state, n, entity), v)
        } else {
            v
        }),
    ensures
        after(
            done + versioned_diff::<SortValue>(base.sorts, state.sorts, n),
            history_key(entity, n),
            v,
        ) == (if 0 < entity_place(entity) < 9 {
            kept(ended_version(base, state, n, entity), v)
        } else {
            v
        }),
{
    let k = history_key(entity, n);
    let g = versioned_diff::<SortValue>(base.sorts, state.sorts, n);
    after_both(done, g, k, v);
    match entity {
        EntityKey::Sort { table_id, sort_id } => {
            versioned_history::<SortValue>(base.sorts, state.sorts, n, (table_id, sort_id), v);
        },
        _ => {
            versioned_outside::<SortValue>(base.sorts, state.sorts, n, k, after(done, k, v));
        },
    }
}

proof fn past_indexes(
    base: CatalogModel,
    state: CatalogModel,
    n: u64,
    done: Seq<WriteModel>,
    entity: EntityKey,
    v: Option<StoredModel>,
)
    requires
        finite_state(base),
        finite_state(state),
        after(done, history_key(entity, n), v) == (if 0 < entity_place(entity) < 9 {
            kept(ended_version(base, state, n, entity), v)
        } else {
            v
        }),
    ensures
        after(
            done + versioned_diff::<IndexValue>(base.indexes, state.indexes, n),
            history_key(entity, n),
            v,
        ) == (if 0 < entity_place(entity) < 10 {
            kept(ended_version(base, state, n, entity), v)
        } else {
            v
        }),
{
    let k = history_key(entity, n);
    let g = versioned_diff::<IndexValue>(base.indexes, state.indexes, n);
    after_both(done, g, k, v);
    match entity {
        EntityKey::Index { table_id, index_id } => {
            versioned_history::<IndexValue>(base.indexes, state.indexes, n, (table_id, index_id), v);
        },
        _ => {
            versioned_outside::<IndexValue>(base.indexes, state.indexes, n, k, after(done, k, v));
        },
    }
}

proof fn past_macros(
    base: CatalogModel,
    state: CatalogModel,
    n: u64,
    done: Seq<WriteModel>,
    entity: EntityKey,
    v: Option<StoredModel>,
)
    requires
        finite_state(base),
        finite_state(state),
        after(done, history_key(entity, n), v) == (if 0 < entity_place(entity) < 10 {
            kept(ended_version(base, state, n, entity), v)
        } else {
            v
        }),
    ensures
        after(
            done + versioned_diff::<MacroValue>(base.macros, state.macros, n),
            history_key(entity, n),
            v,
        ) == (if 0 < entity_place(entity) < 11 {
            kept(ended_version(base, state, n, entity), v)
        } else {
            v
        }),
{
    let k = history_key(entity, n);
    let g = versioned_diff::<MacroValue>(base.macros, state.macros, n);
    after_both(done, g, k, v);
    match entity {
        EntityKey::Macro { macro_id } => {
            versioned_history::<MacroValue>(base.macros, state.macros, n, macro_id, v);
        },
        _ => {
            versioned_outside::<MacroValue>(base.macros, state.macros, n, k, after(done, k, v));
        },
    }
}

/// A version that ends is kept: the batch puts it under the history key of the
/// new snapshot with its end stamped, and writes no other history.
pub proof fn ended_versions_move_to_history(
    base: CatalogModel,
    state: CatalogModel,
    n: u64,
    entity: EntityKey,
    v: Option<StoredModel>,
)
    requires
        finite_state(base),
        finite_state(state),
    ensures
        after(diff(base, state, n), history_key(entity, n), v) == (match ended_version(
            base,
            state,
            n,
            entity,
        ) {
            Some(ended) => Some(ended),
            None => v,
        }),
{
    let k = history_key(entity, n);
    let p0 = Seq::<WriteModel>::empty();
    past_schemas(base, state, n, p0, entity, v);
    let p1 = p0 + versioned_diff::<SchemaValue>(base.schemas, state.schemas, n);
    past_tables(base, state, n, p1, entity, v);
    let p2 = p1 + versioned_diff::<TableValue>(base.tables, state.tables, n);
    past_views(base, state, n, p2, entity, v);
    let p3 = p2 + versioned_diff::<ViewValue>(base.views, state.views, n);
    past_columns(base, state, n, p3, entity, v);
    let p4 = p3 + versioned_diff::<ColumnValue>(base.columns, state.columns, n);
    past_data_files(base, state, n, p4, entity, v);
    let p5 = p4 + versioned_diff::<DataFileValue>(base.data_files, state.data_files, n);
    past_delete_files(base, state, n, p5, entity, v);
    let p6 = p5 + versioned_diff::<DeleteFileValue>(base.delete_files, state.delete_files, n);
    past_partitions(base, state, n, p6, entity, v);
    let p7 = p6 + versioned_diff::<PartitionValue>(base.partitions, state.partitions, n);
    past_sorts(base, state, n, p7, entity, v);
    let p8 = p7 + versioned_diff::<SortValue>(base.sorts, state.sorts, n);
    past_indexes(base, state, n, p8, entity, v);
    let p9 = p8 + versioned_diff::<IndexValue>(base.indexes, state.indexes, n);
    past_macros(base, state, n, p9, entity, v);
    let p10 = p9 + versioned_diff::<MacroValue>(base.macros, state.macros, n);
    let w = after(p10, k, v);
    let p11 = p10 + mapping_diff(base.mappings, state.mappings);
    after_both(p10, mapping_diff(base.mappings, state.mappings), k, v);
    overwrites_outside::<MappingValue>(
        ascending::<(u64, u64)>(state.mappings.dom()),
        base.mappings,
        state.mappings,
        k,
        w,
    );
    let p12 = p11 + overwrite_diff::<TableStatsValue>(base.table_stats, state.table_stats);
    after_both(p11, overwrite_diff::<TableStatsValue>(base.table_stats, state.table_stats), k, v);
    overwrite_outside::<TableStatsValue>(base.table_stats, state.table_stats, k, w);
    let p13 = p12 + overwrite_diff::<TableColumnStatsValue>(base.table_column_stats, state.table_column_stats);
    after_both(p12, overwrite_diff::<TableColumnStatsValue>(base.table_column_stats, state.table_column_stats), k, v);
    overwrite_outside::<TableColumnStatsValue>(base.table_column_stats, state.table_column_stats, k, w);
    let p14 = p13 + file_stats_diff(base, state);
    after_both(p13, file_stats_diff(base, state), k, v);
    file_stats_outside(
        ascending::<(u64, (u64, u64))>(
            base.file_column_stats.dom().union(state.file_column_stats.dom()),
        ),
        base,
        state,
        k,
        w,
    );
    let p15 = p14 + overwrite_diff::<OptionScopeValue>(base.options, state.options);
    after_both(p14, overwrite_diff::<OptionScopeValue>(base.options, state.options), k, v);
    overwrite_outside::<OptionScopeValue>(base.options, state.options, k, w);
    let p16 = p15 + overwrite_diff::<TagValue>(base.tags, state.tags);
    after_both(p15, overwrite_diff::<TagValue>(base.tags, state.tags), k, v);
    overwrite_outside::<TagValue>(base.tags, state.tags, k, w);
    let p17 = p16 + overwrite_diff::<GcFileValue>(base.gc_files, state.gc_files);
    after_both(p16, overwrite_diff::<GcFileValue>(base.gc_files, state.gc_files), k, v);
    overwrite_outside::<GcFileValue>(base.gc_files, state.gc_files, k, w);
    assert(p1 =~= versioned_diff::<SchemaValue>(base.schemas, state.schemas, n));
    assert(diff(base, state, n) == p17);
}

/// A versioned kind that did not change needs no writes.
pub proof fn same_transitions<V: Versioned>(
    ids: Seq<<V::Id as DeepView>::V>,
    m: Map<<V::Id as DeepView>::V, V::V>,
    n: u64,
)
    ensures
        transitions::<V>(ids, m, m, n) == Seq::<WriteModel>::empty(),
    decreases ids.len(),
{
    if ids.len() > 0 {
        same_transitions::<V>(ids.drop_last(), m, n);
        assert(transitions::<V>(ids, m, m, n) =~= Seq::<WriteModel>::empty());
    }
}

/// An overwritten kind that did not change needs no writes.
pub proof fn same_overwrites<V: Live>(
    ids: Seq<<V::Id as DeepView>::V>,
    m: Map<<V::Id as DeepView>::V, V::V>,
)
    ensures
        overwrites::<V>(ids, m, m) == Seq::<WriteModel>::empty(),
    decreases ids.len(),
{
    if ids.len() > 0 {
        same_overwrites::<V>(ids.drop_last(), m);
        assert(overwrites::<V>(ids, m, m) =~= Seq::<WriteModel>::empty());
    }
}

proof fn same_file_stats(ids: Seq<(u64, (u64, u64))>, m: CatalogModel)
    ensures
        file_stats_writes(ids, m, m) == Seq::<WriteModel>::empty(),
    decreases ids.len(),
{
    if ids.len() > 0 {
        same_file_stats(ids.drop_last(), m);
        assert(file_stats_writes(ids, m, m) =~= Seq::<WriteModel>::empty());
    }
}

/// A state that did not change needs no writes.
pub proof fn no_change_needs_no_writes(m: CatalogModel, n: u64)
    ensures
        diff(m, m, n) == Seq::<WriteModel>::empty(),
{
    same_transitions::<SchemaValue>(
        ascending::<u64>(m.schemas.dom().union(m.schemas.dom())),
        m.schemas,
        n,
    );
    same_transitions::<TableValue>(
        ascending::<u64>(m.tables.dom().union(m.tables.dom())),
        m.tables,
        n,
    );
    same_transitions::<ViewValue>(
        ascending::<u64>(m.views.dom().union(m.views.dom())),
        m.views,
        n,
    );
    same_transitions::<ColumnValue>(
        ascending::<(u64, u64)>(m.columns.dom().union(m.columns.dom())),
        m.columns,
        n,
    );
    same_transitions::<DataFileValue>(
        ascending::<(u64, u64)>(m.data_files.dom().union(m.data_files.dom())),
        m.data_files,
        n,
    );
    same_transitions::<DeleteFileValue>(
        ascending::<(u64, u64)>(m.delete_files.dom().union(m.delete_files.dom())),
        m.delete_files,
        n,
    );
    same_transitions::<PartitionValue>(
        ascending::<(u64, u64)>(m.partitions.dom().union(m.partitions.dom())),
        m.partitions,
        n,
    );
    same_transitions::<SortValue>(
        ascending::<(u64, u64)>(m.sorts.dom().union(m.sorts.dom())),
        m.sorts,
        n,
    );
    same_transitions::<IndexValue>(
        ascending::<(u64, u64)>(m.indexes.dom().union(m.indexes.dom())),
        m.indexes,
        n,
    );
    same_transitions::<MacroValue>(
        ascending::<u64>(m.macros.dom().union(m.macros.dom())),
        m.macros,
        n,
    );
    same_overwrites::<MappingValue>(ascending::<(u64, u64)>(m.mappings.dom()), m.mappings);
    same_overwrites::<TableStatsValue>(
        ascending::<u64>(m.table_stats.dom().union(m.table_stats.dom())),
        m.table_stats,
    );
    same_overwrites::<TableColumnStatsValue>(
        ascending::<(u64, u64)>(m.table_column_stats.dom().union(m.table_column_stats.dom())),
        m.table_column_stats,
    );
    same_file_stats(
        ascending::<(u64, (u64, u64))>(
            m.file_column_stats.dom().union(m.file_column_stats.dom()),
        ),
        m,
    );
    same_overwrites::<OptionScopeValue>(
        ascending::<(u64, u64)>(m.options.dom().union(m.options.dom())),
        m.options,
    );
    same_overwrites::<TagValue>(
        ascending::<u64>(m.tags.dom().union(m.tags.dom())),
        m.tags,
    );
    same_overwrites::<GcFileValue>(
        ascending::<u64>(m.gc_files.dom().union(m.gc_files.dom())),
        m.gc_files,
    );
    assert(diff(m, m, n) =~= Seq::<WriteModel>::empty());
}

} // verus!
