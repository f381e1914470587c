//! The writes that turn one catalog state into another.
//!
//! A version that ends moves to history with its end stamped; a new or changed
//! version lands live. Statistics, options, tags and the deletion schedule have
//! no versions and are overwritten in place.
use crate::catalog::{CatalogModel, CatalogSnapshot};
use crate::entities::{Live, Versioned};
use crate::keys::{history_key, Key, KeyModel, StagedWrite, Stored, WriteModel};
use crate::ordered::{ascending, OrdMap, OrdSet, Record};
use crate::records::{
    ColumnValue, DataFileModel, DataFileValue, DeleteFileValue, FileColumnStatsValue, GcFileValue,
    IndexValue, MacroValue, MappingModel, MappingValue, OptionScopeValue, PartitionValue,
    SchemaValue, SortValue, TableColumnStatsValue, TableStatsValue, TableValue, TagValue, ViewValue,
};
use vstd::prelude::*;

verus! {

/// The value under a key, if any.
pub open spec fn at<K, V>(m: Map<K, V>, k: K) -> Option<V> {
    if m.contains_key(k) {
        Some(m[k])
    } else {
        None
    }
}

/// The writes of one versioned record.
pub open spec fn transition<V: Versioned>(
    id: <V::Id as DeepView>::V,
    base: Option<V::V>,
    state: Option<V::V>,
    new_snapshot: u64,
) -> Seq<WriteModel> {
    let live = KeyModel::Current(V::key_of(id));
    let past = history_key(V::entity_of(id), new_snapshot);
    match (base, state) {
        (Some(b), None) => seq![
            (live, None),
            (past, Some(V::value_of(V::ended(b, new_snapshot)))),
        ],
        (Some(b), Some(s)) => if b == s {
            Seq::empty()
        } else if V::one_version(b, s) {
            seq![(live, Some(V::value_of(s)))]
        } else {
            seq![
                (past, Some(V::value_of(V::ended(b, new_snapshot)))),
                (live, Some(V::value_of(s))),
            ]
        },
        (None, Some(s)) => seq![(live, Some(V::value_of(s)))],
        (None, None) => Seq::empty(),
    }
}

/// The writes of one record without versions.
pub open spec fn overwrite<V: Live>(
    id: <V::Id as DeepView>::V,
    base: Option<V::V>,
    state: Option<V::V>,
) -> Seq<WriteModel> {
    let live = KeyModel::Current(V::key_of(id));
    match state {
        None => if base is Some {
            seq![(live, None)]
        } else {
            Seq::empty()
        },
        Some(s) => if base == Some(s) {
            Seq::empty()
        } else {
            seq![(live, Some(V::value_of(s)))]
        },
    }
}

/// The transitions of the records named by `ids`, in that order.
pub open spec fn transitions<V: Versioned>(
    ids: Seq<<V::Id as DeepView>::V>,
    base: Map<<V::Id as DeepView>::V, V::V>,
    state: Map<<V::Id as DeepView>::V, V::V>,
    new_snapshot: u64,
) -> Seq<WriteModel>
    decreases ids.len(),
{
    if ids.len() == 0 {
        Seq::empty()
    } else {
        transitions::<V>(ids.drop_last(), base, state, new_snapshot) + transition::<V>(
            ids.last(),
            at(base, ids.last()),
            at(state, ids.last()),
            new_snapshot,
        )
    }
}

/// The overwrites of the records named by `ids`, in that order.
pub open spec fn overwrites<V: Live>(
    ids: Seq<<V::Id as DeepView>::V>,
    base: Map<<V::Id as DeepView>::V, V::V>,
    state: Map<<V::Id as DeepView>::V, V::V>,
) -> Seq<WriteModel>
    decreases ids.len(),
{
    if ids.len() == 0 {
        Seq::empty()
    } else {
        overwrites::<V>(ids.drop_last(), base, state) + overwrite::<V>(
            ids.last(),
            at(base, ids.last()),
            at(state, ids.last()),
        )
    }
}

/// The transitions of every record on either side, in ascending order.
pub open spec fn versioned_diff<V: Versioned>(
    base: Map<<V::Id as DeepView>::V, V::V>,
    state: Map<<V::Id as DeepView>::V, V::V>,
    new_snapshot: u64,
) -> Seq<WriteModel> {
    transitions::<V>(ascending::<V::Id>(base.dom().union(state.dom())), base, state, new_snapshot)
}

/// The overwrites of every record on either side, in ascending order.
pub open spec fn overwrite_diff<V: Live>(
    base: Map<<V::Id as DeepView>::V, V::V>,
    state: Map<<V::Id as DeepView>::V, V::V>,
) -> Seq<WriteModel> {
    overwrites::<V>(ascending::<V::Id>(base.dom().union(state.dom())), base, state)
}

/// The overwrites of the column mappings: created once, never changed, and
/// never removed from a working state, so the state alone names them.
pub open spec fn mapping_diff(
    base: Map<(u64, u64), MappingModel>,
    state: Map<(u64, u64), MappingModel>,
) -> Seq<WriteModel> {
    overwrites::<MappingValue>(ascending::<(u64, u64)>(state.dom()), base, state)
}

/// Whether the data file of a per-file statistics record is on either side.
pub open spec fn has_file(
    id: (u64, (u64, u64)),
    base: Map<(u64, u64), DataFileModel>,
    state: Map<(u64, u64), DataFileModel>,
) -> bool {
    base.contains_key((id.0, id.1.0)) || state.contains_key((id.0, id.1.0))
}

/// The overwrites of the per-file statistics named by `ids`, leaving out those
/// of a file that came and went within the commit.
pub open spec fn file_stats_writes(
    ids: Seq<(u64, (u64, u64))>,
    base: CatalogModel,
    state: CatalogModel,
) -> Seq<WriteModel>
    decreases ids.len(),
{
    if ids.len() == 0 {
        Seq::empty()
    } else {
        let id = ids.last();
        let front = file_stats_writes(ids.drop_last(), base, state);
        if has_file(id, base.data_files, state.data_files) {
            front + overwrite::<FileColumnStatsValue>(
                id,
                at(base.file_column_stats, id),
                at(state.file_column_stats, id),
            )
        } else {
            front
        }
    }
}

pub open spec fn file_stats_diff(base: CatalogModel, state: CatalogModel) -> Seq<WriteModel> {
    file_stats_writes(
        ascending::<(u64, (u64, u64))>(
            base.file_column_stats.dom().union(state.file_column_stats.dom()),
        ),
        base,
        state,
    )
}

/// The writes that turn `base` into `state` at `new_snapshot`.
pub open spec fn diff(base: CatalogModel, state: CatalogModel, new_snapshot: u64) -> Seq<WriteModel> {
    versioned_diff::<SchemaValue>(base.schemas, state.schemas, new_snapshot)
        + versioned_diff::<TableValue>(base.tables, state.tables, new_snapshot)
        + versioned_diff::<ViewValue>(base.views, state.views, new_snapshot)
        + versioned_diff::<ColumnValue>(base.columns, state.columns, new_snapshot)
        + versioned_diff::<DataFileValue>(base.data_files, state.data_files, new_snapshot)
        + versioned_diff::<DeleteFileValue>(base.delete_files, state.delete_files, new_snapshot)
        + versioned_diff::<PartitionValue>(base.partitions, state.partitions, new_snapshot)
        + versioned_diff::<SortValue>(base.sorts, state.sorts, new_snapshot)
        + versioned_diff::<IndexValue>(base.indexes, state.indexes, new_snapshot)
        + versioned_diff::<MacroValue>(base.macros, state.macros, new_snapshot)
        + mapping_diff(base.mappings, state.mappings)
        + overwrite_diff::<TableStatsValue>(base.table_stats, state.table_stats)
        + overwrite_diff::<TableColumnStatsValue>(base.table_column_stats, state.table_column_stats)
        + file_stats_diff(base, state)
        + overwrite_diff::<OptionScopeValue>(base.options, state.options)
        + overwrite_diff::<TagValue>(base.tags, state.tags)
        + overwrite_diff::<GcFileValue>(base.gc_files, state.gc_files)
}

// ---------------------------------------------------------------------------
// Staging
// ---------------------------------------------------------------------------

/// Adds one write.
fn push_write(writes: &mut Vec<StagedWrite>, key: Key, value: Option<Stored>)
    ensures
        final(writes).deep_view() == old(writes).deep_view().push((key@, value.deep_view())),
{
    let ghost before = writes.deep_view();
    writes.push((key, value));
    assert(writes.deep_view() =~= before.push((key@, value.deep_view())));
}

/// Stages the transition of one versioned record.
pub fn stage_transition<V: Versioned>(
    writes: &mut Vec<StagedWrite>,
    id: &V::Id,
    base: Option<&V>,
    state: Option<&V>,
    new_snapshot: u64,
)
    ensures
        final(writes).deep_view() == old(writes).deep_view() + transition::<V>(
            id.deep_view(),
            base.deep_view(),
            state.deep_view(),
            new_snapshot,
        ),
{
    let ghost before = writes.deep_view();
    match (base, state) {
        (Some(b), None) => {
            push_write(writes, Key::Current(V::key(id)), None);
            push_write(
                writes,
                Key::history(V::entity(id), new_snapshot),
                Some(b.end(new_snapshot).value()),
            );
        },
        (Some(b), Some(s)) => {
            if !b.same(s) {
                if b.is_one_version(s) {
                    push_write(writes, Key::Current(V::key(id)), Some(s.value()));
                } else {
                    push_write(
                        writes,
                        Key::history(V::entity(id), new_snapshot),
                        Some(b.end(new_snapshot).value()),
                    );
                    push_write(writes, Key::Current(V::key(id)), Some(s.value()));
                }
            }
        },
        (None, Some(s)) => {
            push_write(writes, Key::Current(V::key(id)), Some(s.value()));
        },
        (None, None) => {},
    }
    assert(writes.deep_view() =~= before + transition::<V>(
        id.deep_view(),
        base.deep_view(),
        state.deep_view(),
        new_snapshot,
    ));
}

/// Stages the overwrite of one record without versions.
pub fn stage_overwrite<V: Live>(
    writes: &mut Vec<StagedWrite>,
    id: &V::Id,
    base: Option<&V>,
    state: Option<&V>,
)
    ensures
        final(writes).deep_view() == old(writes).deep_view() + overwrite::<V>(
            id.deep_view(),
            base.deep_view(),
            state.deep_view(),
        ),
{
    let ghost before = writes.deep_view();
    match (base, state) {
        (Some(_), None) => {
            push_write(writes, Key::Current(V::key(id)), None);
        },
        (Some(b), Some(s)) => {
            if !b.same(s) {
                push_write(writes, Key::Current(V::key(id)), Some(s.value()));
            }
        },
        (None, Some(s)) => {
            push_write(writes, Key::Current(V::key(id)), Some(s.value()));
        },
        (None, None) => {},
    }
    assert(writes.deep_view() =~= before + overwrite::<V>(
        id.deep_view(),
        base.deep_view(),
        state.deep_view(),
    ));
}

/// The ids on either side.
fn ids_of_either<V: Live>(base: &OrdMap<V::Id, V>, state: &OrdMap<V::Id, V>) -> (ids: OrdSet<V::Id>)
    ensures
        ids@ == base@.dom().union(state@.dom()),
{
    let mut ids: OrdSet<V::Id> = OrdSet::new();
    let a = base.keys();
    let b = state.keys();
    insert_each(&mut ids, &a);
    insert_each(&mut ids, &b);
    assert(ids@ =~= base@.dom().union(state@.dom()));
    ids
}

fn insert_each<T: crate::ordered::Ordered>(set: &mut OrdSet<T>, items: &Vec<T>)
    ensures
        final(set)@ == old(set)@.union(items.deep_view().to_set()),
{
    let ghost q = items.deep_view();
    let mut i: usize = 0;
    assert(set@ =~= old(set)@.union(q.take(0).to_set()));
    while i < items.len()
        invariant
            i <= items@.len(),
            q == items.deep_view(),
            set@ == old(set)@.union(q.take(i as int).to_set()),
        decreases items.len() - i,
    {
        set.insert(items[i].dup());
        proof {
            assert(q.take(i + 1) =~= q.take(i as int).push(q[i as int]));
            crate::ordered::pushed_elements(q.take(i as int), q[i as int]);
            assert(set@ =~= old(set)@.union(q.take(i + 1).to_set()));
        }
        i = i + 1;
    }
    assert(q.take(q.len() as int) =~= q);
}

/// Stages the transition of every record of a versioned kind.
pub fn diff_versioned_map<V: Versioned>(
    writes: &mut Vec<StagedWrite>,
    base: &OrdMap<V::Id, V>,
    state: &OrdMap<V::Id, V>,
    new_snapshot: u64,
)
    ensures
        final(writes).deep_view() == old(writes).deep_view() + versioned_diff::<V>(
            base@,
            state@,
            new_snapshot,
        ),
{
    let set = ids_of_either(base, state);
    let ids = set.items();
    let ghost q = ids.deep_view();
    let ghost before = writes.deep_view();
    let mut i: usize = 0;
    assert(writes.deep_view() =~= before + transitions::<V>(q.take(0), base@, state@, new_snapshot));
    while i < ids.len()
        invariant
            i <= ids@.len(),
            q == ids.deep_view(),
            writes.deep_view() == before + transitions::<V>(
                q.take(i as int),
                base@,
                state@,
                new_snapshot,
            ),
        decreases ids.len() - i,
    {
        let b = base.get(&ids[i]);
        let s = state.get(&ids[i]);
        stage_transition(writes, &ids[i], b, s, new_snapshot);
        proof {
            let next = q.take(i + 1);
            assert(next.drop_last() =~= q.take(i as int));
            assert(next.last() == q[i as int]);
            assert(b.deep_view() == at(base@, q[i as int]));
            assert(s.deep_view() == at(state@, q[i as int]));
            assert(writes.deep_view() =~= before + transitions::<V>(next, base@, state@, new_snapshot));
        }
        i = i + 1;
    }
    assert(q.take(q.len() as int) =~= q);
}

/// Stages the overwrite of every record of a kind without versions.
pub fn diff_overwrite_map<V: Live>(
    writes: &mut Vec<StagedWrite>,
    base: &OrdMap<V::Id, V>,
    state: &OrdMap<V::Id, V>,
)
    ensures
        final(writes).deep_view() == old(writes).deep_view() + overwrite_diff::<V>(base@, state@),
{
    let set = ids_of_either(base, state);
    overwrite_ids(writes, set.items(), base, state);
}

fn overwrite_ids<V: Live>(
    writes: &mut Vec<StagedWrite>,
    ids: &Vec<V::Id>,
    base: &OrdMap<V::Id, V>,
    state: &OrdMap<V::Id, V>,
)
    ensures
        final(writes).deep_view() == old(writes).deep_view() + overwrites::<V>(
            ids.deep_view(),
            base@,
            state@,
        ),
{
    let ghost q = ids.deep_view();
    let ghost before = writes.deep_view();
    let mut i: usize = 0;
    assert(writes.deep_view() =~= before + overwrites::<V>(q.take(0), base@, state@));
    while i < ids.len()
        invariant
            i <= ids@.len(),
            q == ids.deep_view(),
            writes.deep_view() == before + overwrites::<V>(q.take(i as int), base@, state@),
        decreases ids.len() - i,
    {
        let b = base.get(&ids[i]);
        let s = state.get(&ids[i]);
        stage_overwrite(writes, &ids[i], b, s);
        proof {
            let next = q.take(i + 1);
            assert(next.drop_last() =~= q.take(i as int));
            assert(next.last() == q[i as int]);
            assert(b.deep_view() == at(base@, q[i as int]));
            assert(s.deep_view() == at(state@, q[i as int]));
            assert(writes.deep_view() =~= before + overwrites::<V>(next, base@, state@));
        }
        i = i + 1;
    }
    assert(q.take(q.len() as int) =~= q);
}

/// Stages the transitions of the schemas.
pub fn diff_schemas(
    writes: &mut Vec<StagedWrite>,
    base: &CatalogSnapshot,
    state: &CatalogSnapshot,
    new_snapshot: u64,
)
    ensures
        final(writes).deep_view() == old(writes).deep_view() + versioned_diff::<SchemaValue>(
            base@.schemas,
            state@.schemas,
            new_snapshot,
        ),
{
    diff_versioned_map(writes, &base.schemas, &state.schemas, new_snapshot);
}

/// Stages the transitions of the tables; a change of the field-id counter alone overwrites the
/// record in place, because the table row itself did not change.
pub fn diff_tables(
    writes: &mut Vec<StagedWrite>,
    base: &CatalogSnapshot,
    state: &CatalogSnapshot,
    new_snapshot: u64,
)
    ensures
        final(writes).deep_view() == old(writes).deep_view() + versioned_diff::<TableValue>(
            base@.tables,
            state@.tables,
            new_snapshot,
        ),
{
    diff_versioned_map(writes, &base.tables, &state.tables, new_snapshot);
}

/// Stages the transitions of the views.
pub fn diff_views(
    writes: &mut Vec<StagedWrite>,
    base: &CatalogSnapshot,
    state: &CatalogSnapshot,
    new_snapshot: u64,
)
    ensures
        final(writes).deep_view() == old(writes).deep_view() + versioned_diff::<ViewValue>(
            base@.views,
            state@.views,
            new_snapshot,
        ),
{
    diff_versioned_map(writes, &base.views, &state.views, new_snapshot);
}

/// Stages the transitions of the columns; a change of the tags alone overwrites the record in
/// place, because tags have a lifetime of their own.
pub fn diff_columns(
    writes: &mut Vec<StagedWrite>,
    base: &CatalogSnapshot,
    state: &CatalogSnapshot,
    new_snapshot: u64,
)
    ensures
        final(writes).deep_view() == old(writes).deep_view() + versioned_diff::<ColumnValue>(
            base@.columns,
            state@.columns,
            new_snapshot,
        ),
{
    diff_versioned_map(writes, &base.columns, &state.columns, new_snapshot);
}

/// Stages the transitions of the data files.
pub fn diff_data_files(
    writes: &mut Vec<StagedWrite>,
    base: &CatalogSnapshot,
    state: &CatalogSnapshot,
    new_snapshot: u64,
)
    ensures
        final(writes).deep_view() == old(writes).deep_view() + versioned_diff::<DataFileValue>(
            base@.data_files,
            state@.data_files,
            new_snapshot,
        ),
{
    diff_versioned_map(writes, &base.data_files, &state.data_files, new_snapshot);
}

/// Stages the transitions of the delete files.
pub fn diff_delete_files(
    writes: &mut Vec<StagedWrite>,
    base: &CatalogSnapshot,
    state: &CatalogSnapshot,
    new_snapshot: u64,
)
    ensures
        final(writes).deep_view() == old(writes).deep_view() + versioned_diff::<DeleteFileValue>(
            base@.delete_files,
            state@.delete_files,
            new_snapshot,
        ),
{
    diff_versioned_map(writes, &base.delete_files, &state.delete_files, new_snapshot);
}

/// Stages the transitions of the partition specs.
pub fn diff_partitions(
    writes: &mut Vec<StagedWrite>,
    base: &CatalogSnapshot,
    state: &CatalogSnapshot,
    new_snapshot: u64,
)
    ensures
        final(writes).deep_view() == old(writes).deep_view() + versioned_diff::<PartitionValue>(
            base@.partitions,
            state@.partitions,
            new_snapshot,
        ),
{
    diff_versioned_map(writes, &base.partitions, &state.partitions, new_snapshot);
}

/// Stages the transitions of the sort specs.
pub fn diff_sorts(
    writes: &mut Vec<StagedWrite>,
    base: &CatalogSnapshot,
    state: &CatalogSnapshot,
    new_snapshot: u64,
)
    ensures
        final(writes).deep_view() == old(writes).deep_view() + versioned_diff::<SortValue>(
            base@.sorts,
            state@.sorts,
            new_snapshot,
        ),
{
    diff_versioned_map(writes, &base.sorts, &state.sorts, new_snapshot);
}

/// Stages the transitions of the equality indexes.
pub fn diff_indexes(
    writes: &mut Vec<StagedWrite>,
    base: &CatalogSnapshot,
    state: &CatalogSnapshot,
    new_snapshot: u64,
)
    ensures
        final(writes).deep_view() == old(writes).deep_view() + versioned_diff::<IndexValue>(
            base@.indexes,
            state@.indexes,
            new_snapshot,
        ),
{
    diff_versioned_map(writes, &base.indexes, &state.indexes, new_snapshot);
}

/// Stages the transitions of the macros.
pub fn diff_macros(
    writes: &mut Vec<StagedWrite>,
    base: &CatalogSnapshot,
    state: &CatalogSnapshot,
    new_snapshot: u64,
)
    ensures
        final(writes).deep_view() == old(writes).deep_view() + versioned_diff::<MacroValue>(
            base@.macros,
            state@.macros,
            new_snapshot,
        ),
{
    diff_versioned_map(writes, &base.macros, &state.macros, new_snapshot);
}

/// Stages the overwrites of the table statistics.
pub fn diff_table_stats(writes: &mut Vec<StagedWrite>, base: &CatalogSnapshot, state: &CatalogSnapshot)
    ensures
        final(writes).deep_view() == old(writes).deep_view() + overwrite_diff::<TableStatsValue>(
            base@.table_stats,
            state@.table_stats,
        ),
{
    diff_overwrite_map(writes, &base.table_stats, &state.table_stats);
}

/// Stages the overwrites of the column statistics.
pub fn diff_table_column_stats(writes: &mut Vec<StagedWrite>, base: &CatalogSnapshot, state: &CatalogSnapshot)
    ensures
        final(writes).deep_view() == old(writes).deep_view() + overwrite_diff::<TableColumnStatsValue>(
            base@.table_column_stats,
            state@.table_column_stats,
        ),
{
    diff_overwrite_map(writes, &base.table_column_stats, &state.table_column_stats);
}

/// Stages the overwrites of the options.
pub fn diff_options(writes: &mut Vec<StagedWrite>, base: &CatalogSnapshot, state: &CatalogSnapshot)
    ensures
        final(writes).deep_view() == old(writes).deep_view() + overwrite_diff::<OptionScopeValue>(
            base@.options,
            state@.options,
        ),
{
    diff_overwrite_map(writes, &base.options, &state.options);
}

/// Stages the overwrites of the tags.
pub fn diff_tags(writes: &mut Vec<StagedWrite>, base: &CatalogSnapshot, state: &CatalogSnapshot)
    ensures
        final(writes).deep_view() == old(writes).deep_view() + overwrite_diff::<TagValue>(
            base@.tags,
            state@.tags,
        ),
{
    diff_overwrite_map(writes, &base.tags, &state.tags);
}

/// Stages the overwrites of the deletion schedule.
pub fn diff_gc_files(writes: &mut Vec<StagedWrite>, base: &CatalogSnapshot, state: &CatalogSnapshot)
    ensures
        final(writes).deep_view() == old(writes).deep_view() + overwrite_diff::<GcFileValue>(
            base@.gc_files,
            state@.gc_files,
        ),
{
    diff_overwrite_map(writes, &base.gc_files, &state.gc_files);
}

/// Stages the overwrites of the column mappings of `state`.
pub fn diff_mappings(writes: &mut Vec<StagedWrite>, base: &CatalogSnapshot, state: &CatalogSnapshot)
    ensures
        final(writes).deep_view() == old(writes).deep_view() + mapping_diff(
            base@.mappings,
            state@.mappings,
        ),
{
    let ids = state.mappings.keys();
    overwrite_ids(writes, &ids, &base.mappings, &state.mappings);
}

/// Stages the overwrites of the per-file statistics. A file that came and went
/// within the commit is on neither side, and its statistics are not staged.
pub fn diff_file_column_stats(
    writes: &mut Vec<StagedWrite>,
    base: &CatalogSnapshot,
    state: &CatalogSnapshot,
)
    ensures
        final(writes).deep_view() == old(writes).deep_view() + file_stats_diff(base@, state@),
{
    let set = ids_of_either(&base.file_column_stats, &state.file_column_stats);
    let ids = set.items();
    let ghost q = ids.deep_view();
    let ghost before = writes.deep_view();
    let mut i: usize = 0;
    assert(writes.deep_view() =~= before + file_stats_writes(q.take(0), base@, state@));
    while i < ids.len()
        invariant
            i <= ids@.len(),
            q == ids.deep_view(),
            writes.deep_view() == before + file_stats_writes(q.take(i as int), base@, state@),
        decreases ids.len() - i,
    {
        let file = (ids[i].0, ids[i].1.0);
        proof {
            let next = q.take(i + 1);
            assert(next.drop_last() =~= q.take(i as int));
            assert(next.last() == q[i as int]);
            assert(q[i as int] == ids@[i as int]);
        }
        if base.data_files.contains_key(&file) || state.data_files.contains_key(&file) {
            let b = base.file_column_stats.get(&ids[i]);
            let s = state.file_column_stats.get(&ids[i]);
            stage_overwrite(writes, &ids[i], b, s);
            assert(b.deep_view() == at(base@.file_column_stats, q[i as int]));
            assert(s.deep_view() == at(state@.file_column_stats, q[i as int]));
        }
        assert(writes.deep_view() =~= before + file_stats_writes(q.take(i + 1), base@, state@));
        i = i + 1;
    }
    assert(q.take(q.len() as int) =~= q);
}

/// The writes that turn `base` into `state` at `new_snapshot`: chained changes
/// of one record collapse to a single transition.
pub fn diff_writes(base: &CatalogSnapshot, state: &CatalogSnapshot, new_snapshot: u64) -> (writes: Vec<
    StagedWrite,
>)
    ensures
        writes.deep_view() == diff(base@, state@, new_snapshot),
{
    let mut writes: Vec<StagedWrite> = Vec::new();
    assert(writes.deep_view() =~= Seq::<WriteModel>::empty());
    diff_schemas(&mut writes, base, state, new_snapshot);
    diff_tables(&mut writes, base, state, new_snapshot);
    diff_views(&mut writes, base, state, new_snapshot);
    diff_columns(&mut writes, base, state, new_snapshot);
    diff_data_files(&mut writes, base, state, new_snapshot);
    diff_delete_files(&mut writes, base, state, new_snapshot);
    diff_partitions(&mut writes, base, state, new_snapshot);
    diff_sorts(&mut writes, base, state, new_snapshot);
    diff_indexes(&mut writes, base, state, new_snapshot);
    diff_macros(&mut writes, base, state, new_snapshot);
    diff_mappings(&mut writes, base, state);
    diff_table_stats(&mut writes, base, state);
    diff_table_column_stats(&mut writes, base, state);
    diff_file_column_stats(&mut writes, base, state);
    diff_options(&mut writes, base, state);
    diff_tags(&mut writes, base, state);
    diff_gc_files(&mut writes, base, state);
    assert(writes.deep_view() =~= diff(base@, state@, new_snapshot));
    writes
}

} // verus!
