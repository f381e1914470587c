//! What a commit leaves for the next one: its snapshot counts on from where the
//! transaction stopped, names what the transaction did, and is where the head
//! points.
use crate::catalog::{empty_catalog, CatalogModel};
use crate::commit::{
    any_shape, changes_above, first_writes, minted, prepared, reshaped_by, PreparedModel,
};
use crate::commit_laws::{commits_fold_to_their_state, diffs_fold_to_their_state, folding_both};
use crate::diff::{diff, file_stats_writes, mapping_diff, overwrite_diff, versioned_diff};
use crate::diff_laws::{
    file_stats_reach, finite_state, same_overwrites, same_transitions,
};
use crate::error::Fault;
use crate::fold::with_writes;
use crate::index_entries::{entry_writes, IndexEntryModel};
use crate::keys::{after, KeyModel, StoredModel, SysKey, WriteModel};
use crate::operations::{changes_of, changes_text, no_changes, parsed, OperationModel};
use crate::ordered::{ascending, finite_sets_ascend};
use crate::records::{
    ColumnValue, DataFileValue, DeleteFileValue, FormatModel, GcFileValue, HeadModel, IndexValue, MacroValue,
    MappingValue, OptionScopeValue, PartitionValue, SchemaValue, SnapshotModel, SortValue, TableColumnStatsValue,
    TableStatsValue, TableValue, TagValue, ViewValue,
};
use crate::txn::TxnModel;
use crate::verb_laws::{counted, keyed, relations_distinct, sound, table_is, view_is};
use crate::verbs::{begun, TransactionModel};
use vstd::prelude::*;

verus! {

/// Whether some operation is more than a change of data: one that creates,
/// alters or drops something.
pub open spec fn changes_definitions(ops: Seq<OperationModel>) -> bool {
    exists|i: int|
        0 <= i < ops.len() && match #[trigger] ops[i] {
            OperationModel::RegisterDataFile { .. } => false,
            OperationModel::RegisterDeleteFile { .. } => false,
            OperationModel::ExpireDataFile { .. } => false,
            OperationModel::ExpireDeleteFile { .. } => false,
            OperationModel::UpdateStats { .. } => false,
            _ => true,
        }
}

/// Whether an operation defines a table or view, or defines it anew.
pub open spec fn defines(op: OperationModel, id: u64) -> bool {
    match op {
        OperationModel::CreateTable { table_id, .. } => table_id == id,
        OperationModel::AlterTable { table_id } => table_id == id,
        OperationModel::CreateView { view_id, .. } => view_id == id,
        OperationModel::AlterView { view_id } => view_id == id,
        _ => false,
    }
}

proof fn definitions_change_shape(ops: Seq<OperationModel>)
    ensures
        any_shape(ops) == changes_definitions(ops),
{
    if any_shape(ops) {
        let i = choose|i: int|
            0 <= i < ops.len() && crate::operations::changes_shape(#[trigger] ops[i]);
        assert(0 <= i < ops.len());
        let op = ops[i];
        assert(changes_definitions(ops));
    }
    if changes_definitions(ops) {
        let i = choose|i: int|
            0 <= i < ops.len() && match #[trigger] ops[i] {
                OperationModel::RegisterDataFile { .. } => false,
                OperationModel::RegisterDeleteFile { .. } => false,
                OperationModel::ExpireDataFile { .. } => false,
                OperationModel::ExpireDeleteFile { .. } => false,
                OperationModel::UpdateStats { .. } => false,
                _ => true,
            };
        assert(crate::operations::changes_shape(ops[i]));
    }
}

proof fn reshaped_are_finite(ops: Seq<OperationModel>)
    ensures
        reshaped_by(ops).finite(),
    decreases ops.len(),
{
    if ops.len() == 0 {
        assert(reshaped_by(ops) =~= Set::empty());
    } else {
        let front = ops.drop_last();
        reshaped_are_finite(front);
        let last = crate::operations::reshaped(ops.last());
        let all = match last {
            Some(id) => reshaped_by(front).insert(id),
            None => reshaped_by(front),
        };
        assert forall|id: u64| reshaped_by(ops).contains(id) implies all.contains(id) by {
            let i = choose|i: int|
                0 <= i < ops.len() && crate::operations::reshaped(#[trigger] ops[i]) == Some(id);
            if i < front.len() {
                assert(front[i] == ops[i]);
            }
        }
        assert(reshaped_by(ops).subset_of(all));
        vstd::set_lib::lemma_set_subset_finite(all, reshaped_by(ops));
    }
}

proof fn reshaped_are_defined(ops: Seq<OperationModel>, id: u64)
    ensures
        ascending::<u64>(reshaped_by(ops)).contains(id) <==> exists|i: int|
            0 <= i < ops.len() && defines(#[trigger] ops[i], id),
{
    reshaped_are_finite(ops);
    finite_sets_ascend::<u64>(reshaped_by(ops));
    assert(ascending::<u64>(reshaped_by(ops)).contains(id) <==> ascending::<u64>(
        reshaped_by(ops),
    ).to_set().contains(id));
    if reshaped_by(ops).contains(id) {
        let i = choose|i: int|
            0 <= i < ops.len() && crate::operations::reshaped(#[trigger] ops[i]) == Some(id);
        assert(defines(ops[i], id));
    }
    if exists|i: int| 0 <= i < ops.len() && defines(#[trigger] ops[i], id) {
        let i = choose|i: int| 0 <= i < ops.len() && defines(#[trigger] ops[i], id);
        assert(crate::operations::reshaped(ops[i]) == Some(id));
    }
}

/// A commit leaves the transaction's state under a snapshot of its own: one id
/// above the one it was based on, counting on from the transaction's counters,
/// one schema version up where it changed a definition, and naming what it did
/// and what it defined. The head is moved last.
pub proof fn commits_count_on(
    base: CatalogModel,
    t: TransactionModel,
    entries: Seq<IndexEntryModel>,
    stored: Option<FormatModel>,
    held: Map<(u64, Seq<u8>), Seq<u8>>,
    time: i64,
    writer_version: Seq<char>,
    id: u64,
)
    requires
        t.ops.len() > 0,
        entry_writes(entries, held) is Ok,
        finite_state(base),
        finite_state(t.state),
        base.mappings.dom().subset_of(t.state.mappings.dom()),
        file_stats_reach(base, t.state),
        base.snapshot.snapshot_id < u64::MAX,
        base.snapshot.schema_version < u64::MAX,
    ensures
        match prepared(
            base,
            t.ops,
            entries,
            t.state,
            t.next_catalog_id,
            t.next_file_id,
            stored,
            held,
            time,
            writer_version,
        ) {
            Ok(PreparedModel::Staged { ours, head_before, commits, writes }) => {
                let next = with_writes(base, writes)->Ok_0;
                let made = next.snapshot;
                &&& with_writes(base, writes) is Ok
                &&& next == (CatalogModel { snapshot: made, ..t.state })
                &&& made.snapshot_id == base.snapshot.snapshot_id + 1
                &&& made.snapshot_time_micros == time
                &&& made.schema_version == base.snapshot.schema_version + (if changes_definitions(
                    t.ops,
                ) {
                    1int
                } else {
                    0int
                })
                &&& made.next_catalog_id == t.next_catalog_id
                &&& made.next_file_id == t.next_file_id
                &&& made.next_deletion_id == 0
                &&& made.changes_made == changes_text(changes_of(t.ops))
                &&& made.author is None && made.commit_message is None
                    && made.commit_extra_info is None
                &&& made.schema_changed_table_ids.contains(id) <==> exists|i: int|
                    0 <= i < t.ops.len() && defines(#[trigger] t.ops[i], id)
                &&& ours == changes_of(t.ops)
                &&& head_before == base.snapshot.snapshot_id
                &&& commits == made.snapshot_id
                &&& writes.len() >= 2
                &&& writes[writes.len() - 2] == (
                    KeyModel::Snapshot { snapshot_id: made.snapshot_id },
                    Some(StoredModel::Snapshot(made)),
                )
                &&& writes.last() == (
                    KeyModel::Sys(SysKey::Head),
                    Some(StoredModel::Head(HeadModel { snapshot_id: made.snapshot_id })),
                )
            },
            _ => false,
        },
{
    commits_fold_to_their_state(
        base,
        t.ops,
        entries,
        t.state,
        t.next_catalog_id,
        t.next_file_id,
        stored,
        held,
        time,
        writer_version,
    );
    definitions_change_shape(t.ops);
    reshaped_are_defined(t.ops, id);
}

/// A transaction takes its counters from the snapshot it begins on, and nothing
/// is logged yet.
pub proof fn transactions_begin_where_the_snapshot_stopped(m: CatalogModel, n: u64)
    ensures
        begun(m, n).state == m,
        begun(m, n).ops.len() == 0,
        begun(m, n).next_catalog_id == m.snapshot.next_catalog_id,
        begun(m, n).next_file_id == m.snapshot.next_file_id,
        begun(m, n).new_snapshot_id == n,
        crate::txn::begun(m, n).state == m,
        crate::txn::begun(m, n).ops.len() == 0,
        crate::txn::begun(m, n).next_catalog_id == m.snapshot.next_catalog_id,
        crate::txn::begun(m, n).new_snapshot_id == n,
{
}

proof fn names_stay_distinct(m: CatalogModel, next: CatalogModel)
    requires
        relations_distinct(m),
        next == (CatalogModel { snapshot: next.snapshot, ..m }),
    ensures
        relations_distinct(next),
{
    assert forall|s: u64, n: Seq<char>, a: u64, b: u64| #[trigger]
        table_is(next, a, s, n) && #[trigger] table_is(next, b, s, n) implies a == b by {
        assert(table_is(m, a, s, n) && table_is(m, b, s, n));
    }
    assert forall|s: u64, n: Seq<char>, a: u64, b: u64| #[trigger]
        view_is(next, a, s, n) && #[trigger] view_is(next, b, s, n) implies a == b by {
        assert(view_is(m, a, s, n) && view_is(m, b, s, n));
    }
    assert forall|s: u64, n: Seq<char>, a: u64, b: u64|
        !(#[trigger] table_is(next, a, s, n) && #[trigger] view_is(next, b, s, n)) by {
        assert(!(table_is(m, a, s, n) && view_is(m, b, s, n)));
    }
}

/// Every id in what a sound transaction commits is below the counters of the
/// snapshot that it leaves, so that a transaction that begins there is sound.
pub proof fn commits_lead_to_sound_transactions(
    base: CatalogModel,
    t: TransactionModel,
    entries: Seq<IndexEntryModel>,
    stored: Option<FormatModel>,
    held: Map<(u64, Seq<u8>), Seq<u8>>,
    time: i64,
    writer_version: Seq<char>,
    n: u64,
)
    requires
        t.ops.len() > 0,
        entry_writes(entries, held) is Ok,
        finite_state(base),
        finite_state(t.state),
        base.mappings.dom().subset_of(t.state.mappings.dom()),
        file_stats_reach(base, t.state),
        counted(t),
    ensures
        match prepared(
            base,
            t.ops,
            entries,
            t.state,
            t.next_catalog_id,
            t.next_file_id,
            stored,
            held,
            time,
            writer_version,
        ) {
            Ok(PreparedModel::Staged { ours, head_before, commits, writes }) => {
                let next = with_writes(base, writes)->Ok_0;
                &&& with_writes(base, writes) is Ok
                &&& forall|k: (u64, u64)| #[trigger]
                    next.data_files.contains_key(k) ==> k.1 < next.snapshot.next_file_id
                &&& forall|k: (u64, u64)| #[trigger]
                    next.delete_files.contains_key(k) ==> k.1 < next.snapshot.next_file_id
                &&& forall|k: u64| #[trigger]
                    next.schemas.contains_key(k) ==> k < next.snapshot.next_catalog_id
                &&& forall|k: u64| #[trigger]
                    next.tables.contains_key(k) ==> k < next.snapshot.next_catalog_id
                &&& forall|k: u64| #[trigger]
                    next.views.contains_key(k) ==> k < next.snapshot.next_catalog_id
                &&& counted(begun(next, n))
                &&& sound(t) ==> sound(begun(next, n))
            },
            _ => false,
        },
{
    commits_fold_to_their_state(
        base,
        t.ops,
        entries,
        t.state,
        t.next_catalog_id,
        t.next_file_id,
        stored,
        held,
        time,
        writer_version,
    );
    if sound(t) {
        let next = CatalogModel {
            snapshot: minted(base, t.ops, t.next_catalog_id, t.next_file_id, time),
            ..t.state
        };
        names_stay_distinct(t.state, next);
    }
}

// ---------------------------------------------------------------------------
// Commits of options alone
// ---------------------------------------------------------------------------

/// Schemas, tables and columns that did not change need no writes.
proof fn definitions_need_no_writes(m: CatalogModel, n: u64)
    ensures
        versioned_diff::<SchemaValue>(m.schemas, m.schemas, n) == Seq::<WriteModel>::empty(),
        versioned_diff::<TableValue>(m.tables, m.tables, n) == Seq::<WriteModel>::empty(),
        versioned_diff::<ColumnValue>(m.columns, m.columns, n) == Seq::<WriteModel>::empty(),
{
    same_transitions::<SchemaValue>(
        ascending::<u64>(m.schemas.dom().union(m.schemas.dom())),
        m.schemas,
        n,
    );
    same_transitions::<TableValue>(
        ascending::<u64>(m.tables.dom().union(m.tables.dom())),
        m.tables,
        n,
    );
    same_transitions::<ColumnValue>(
        ascending::<(u64, u64)>(m.columns.dom().union(m.columns.dom())),
        m.columns,
        n,
    );
}

proof fn stats_need_no_writes(ids: Seq<(u64, (u64, u64))>, m: CatalogModel, next: CatalogModel)
    requires
        next.file_column_stats == m.file_column_stats,
    ensures
        file_stats_writes(ids, m, next) == Seq::<WriteModel>::empty(),
    decreases ids.len(),
{
    if ids.len() > 0 {
        stats_need_no_writes(ids.drop_last(), m, next);
        assert(file_stats_writes(ids, m, next) =~= Seq::<WriteModel>::empty());
    }
}

/// No other kind of record but options needs writes where it did not change.
proof fn other_kinds_need_no_writes(m: CatalogModel, n: u64)
    ensures
        versioned_diff::<DataFileValue>(m.data_files, m.data_files, n) == Seq::<WriteModel>::empty(),
        versioned_diff::<DeleteFileValue>(m.delete_files, m.delete_files, n) == Seq::<WriteModel>::empty(),
        versioned_diff::<PartitionValue>(m.partitions, m.partitions, n) == Seq::<WriteModel>::empty(),
        versioned_diff::<SortValue>(m.sorts, m.sorts, n) == Seq::<WriteModel>::empty(),
        versioned_diff::<IndexValue>(m.indexes, m.indexes, n) == Seq::<WriteModel>::empty(),
        versioned_diff::<MacroValue>(m.macros, m.macros, n) == Seq::<WriteModel>::empty(),
        versioned_diff::<ViewValue>(m.views, m.views, n) == Seq::<WriteModel>::empty(),
        mapping_diff(m.mappings, m.mappings) == Seq::<WriteModel>::empty(),
        overwrite_diff::<TableStatsValue>(m.table_stats, m.table_stats) == Seq::<WriteModel>::empty(),
        overwrite_diff::<TableColumnStatsValue>(m.table_column_stats, m.table_column_stats) == Seq::<WriteModel>::empty(),
        overwrite_diff::<TagValue>(m.tags, m.tags) == Seq::<WriteModel>::empty(),
        overwrite_diff::<GcFileValue>(m.gc_files, m.gc_files) == Seq::<WriteModel>::empty(),
{
    same_transitions::<DataFileValue>(
        ascending::<(u64, u64)>(m.data_files.dom().union(m.data_files.dom())),
        m.data_files,
        n,
    );
    same_transitions::<DeleteFileValue>(
        ascending::<(u64, u64)>(m.delete_files.dom().union(m.delete_files.dom())),
        m.delete_files,
        n,
    );
    same_transitions::<PartitionValue>(
        ascending::<(u64, u64)>(m.partitions.dom().union(m.partitions.dom())),
        m.partitions,
        n,
    );
    same_transitions::<SortValue>(
        ascending::<(u64, u64)>(m.sorts.dom().union(m.sorts.dom())),
        m.sorts,
        n,
    );
    same_transitions::<IndexValue>(
        ascending::<(u64, u64)>(m.indexes.dom().union(m.indexes.dom())),
        m.indexes,
        n,
    );
    same_transitions::<MacroValue>(
        ascending::<u64>(m.macros.dom().union(m.macros.dom())),
        m.macros,
        n,
    );
    same_transitions::<ViewValue>(
        ascending::<u64>(m.views.dom().union(m.views.dom())),
        m.views,
        n,
    );
    same_overwrites::<MappingValue>(ascending::<(u64, u64)>(m.mappings.dom()), m.mappings);
    same_overwrites::<TableStatsValue>(
        ascending::<u64>(m.table_stats.dom().union(m.table_stats.dom())),
        m.table_stats,
    );
    same_overwrites::<TableColumnStatsValue>(
        ascending::<(u64, u64)>(m.table_column_stats.dom().union(m.table_column_stats.dom())),
        m.table_column_stats,
    );
    same_overwrites::<TagValue>(
        ascending::<u64>(m.tags.dom().union(m.tags.dom())),
        m.tags,
    );
    same_overwrites::<GcFileValue>(
        ascending::<u64>(m.gc_files.dom().union(m.gc_files.dom())),
        m.gc_files,
    );
}

/// A commit without operations changes the options alone, leaves the snapshot
/// and everything else, and is at the head that it was based on. It writes
/// nothing where the options did not change.
pub proof fn option_commits_change_options_alone(
    base: CatalogModel,
    entries: Seq<IndexEntryModel>,
    state: CatalogModel,
    next_catalog_id: u64,
    next_file_id: u64,
    stored: Option<FormatModel>,
    held: Map<(u64, Seq<u8>), Seq<u8>>,
    time: i64,
    writer_version: Seq<char>,
)
    requires
        finite_state(base),
        finite_state(state),
    ensures
        match prepared(
            base,
            Seq::empty(),
            entries,
            state,
            next_catalog_id,
            next_file_id,
            stored,
            held,
            time,
            writer_version,
        ) {
            Ok(PreparedModel::Nothing { head }) => head == base.snapshot.snapshot_id
                && state.options == base.options,
            Ok(PreparedModel::Staged { ours, head_before, commits, writes }) => {
                &&& with_writes(base, writes) == Ok::<CatalogModel, Fault>(
                    CatalogModel { options: state.options, ..base },
                )
                &&& state.options != base.options
                &&& ours == no_changes()
                &&& head_before == base.snapshot.snapshot_id
                &&& commits == base.snapshot.snapshot_id
                &&& writes.last() == (
                    KeyModel::Sys(SysKey::Head),
                    Some(
                        StoredModel::Head(
                            HeadModel { snapshot_id: base.snapshot.snapshot_id },
                        ),
                    ),
                )
            },
            Err(_) => false,
        },
{
    let n = base.snapshot.snapshot_id;
    let next = CatalogModel { options: state.options, ..base };
    let writes = overwrite_diff::<OptionScopeValue>(base.options, state.options);
    definitions_need_no_writes(base, n);
    other_kinds_need_no_writes(base, n);
    stats_need_no_writes(
        ascending::<(u64, (u64, u64))>(
            base.file_column_stats.dom().union(next.file_column_stats.dom()),
        ),
        base,
        next,
    );
    assert(diff(base, next, n) =~= writes);
    diffs_fold_to_their_state(base, next, n);
    assert(CatalogModel { snapshot: base.snapshot, ..next } == next);
    assert(with_writes(base, writes) == Ok::<CatalogModel, Fault>(next));
    if writes.len() == 0 {
        assert(next == base);
    } else {
        if state.options == base.options {
            same_overwrites::<OptionScopeValue>(
                ascending::<(u64, u64)>(base.options.dom().union(state.options.dom())),
                base.options,
            );
        }
        let all = writes.push(
            (
                KeyModel::Sys(SysKey::Head),
                Some(StoredModel::Head(HeadModel { snapshot_id: n })),
            ),
        );
        assert(all.drop_last() =~= writes);
    }
}

// ---------------------------------------------------------------------------
// Commits of schemas, tables and columns alone
// ---------------------------------------------------------------------------

/// A commit of the handle that keeps schemas, tables and columns alone leaves its
/// state of those under a snapshot of its own, one id above the one it was based
/// on. It counts on from the handle's counter of ids, and keeps the other two.
pub proof fn small_commits_count_on(base: CatalogModel, t: TxnModel, time: i64)
    requires
        finite_state(base),
        finite_state(t.state),
        base.snapshot.snapshot_id < u64::MAX,
        base.snapshot.schema_version < u64::MAX,
    ensures
        match crate::txn_commit::prepared(base, t.ops, t.state, t.next_catalog_id, time) {
            PreparedModel::Nothing { head } => t.ops.len() == 0 && head
                == base.snapshot.snapshot_id,
            PreparedModel::Staged { ours, head_before, commits, writes } => {
                let next = with_writes(base, writes)->Ok_0;
                let made = next.snapshot;
                &&& t.ops.len() > 0
                &&& with_writes(base, writes) is Ok
                &&& next == (CatalogModel {
                    snapshot: made,
                    schemas: t.state.schemas,
                    tables: t.state.tables,
                    columns: t.state.columns,
                    ..base
                })
                &&& made.snapshot_id == base.snapshot.snapshot_id + 1
                &&& made.snapshot_time_micros == time
                &&& made.schema_version == base.snapshot.schema_version + (if changes_definitions(
                    t.ops,
                ) {
                    1int
                } else {
                    0int
                })
                &&& made.next_catalog_id == t.next_catalog_id
                &&& made.next_file_id == base.snapshot.next_file_id
                &&& made.next_deletion_id == base.snapshot.next_deletion_id
                &&& made.changes_made == changes_text(changes_of(t.ops))
                &&& made.author is None && made.commit_message is None
                    && made.commit_extra_info is None
                &&& made.schema_changed_table_ids.len() == 0
                &&& ours == changes_of(t.ops)
                &&& head_before == base.snapshot.snapshot_id
                &&& commits == made.snapshot_id
                &&& writes.last() == (
                    KeyModel::Sys(SysKey::Head),
                    Some(StoredModel::Head(HeadModel { snapshot_id: made.snapshot_id })),
                )
            },
        },
{
    if t.ops.len() > 0 {
        let n = (base.snapshot.snapshot_id + 1) as u64;
        let next = CatalogModel {
            schemas: t.state.schemas,
            tables: t.state.tables,
            columns: t.state.columns,
            ..base
        };
        let d = crate::txn_commit::diff(base, t.state, n);
        other_kinds_need_no_writes(base, n);
        same_overwrites::<OptionScopeValue>(
            ascending::<(u64, u64)>(base.options.dom().union(base.options.dom())),
            base.options,
        );
        stats_need_no_writes(
            ascending::<(u64, (u64, u64))>(
                base.file_column_stats.dom().union(next.file_column_stats.dom()),
            ),
            base,
            next,
        );
        assert(diff(base, next, n) =~= d);
        diffs_fold_to_their_state(base, next, n);
        definitions_change_shape(t.ops);
        let writes = crate::txn_commit::prepared(
            base,
            t.ops,
            t.state,
            t.next_catalog_id,
            time,
        )->writes;
        let last = writes.skip(d.len() as int);
        assert(writes =~= d + last);
        folding_both(base, d, last);
        assert(last.len() == 2);
        assert(last.drop_last() =~= seq![last[0]]);
        assert(last.drop_last().drop_last() =~= Seq::<WriteModel>::empty());
        reveal_with_fuel(with_writes, 3);
    }
}

// ---------------------------------------------------------------------------
// The first commit
// ---------------------------------------------------------------------------

/// The first commit of a store leaves a catalog of one schema, `main`, with the
/// options that were asked for, and counters beyond what is there.
pub proof fn first_commits_lay_the_ground(
    encrypted: bool,
    data_path: Option<Seq<char>>,
    time: i64,
    uuid: Seq<char>,
    writer_version: Seq<char>,
    blank: SnapshotModel,
)
    ensures
        ({
            let writes = first_writes(encrypted, data_path, time, uuid, writer_version);
            let next = with_writes(empty_catalog(blank), writes)->Ok_0;
            &&& with_writes(empty_catalog(blank), writes) is Ok
            &&& next.snapshot.snapshot_id == 0
            &&& next.snapshot.snapshot_time_micros == time
            &&& next.snapshot.schema_version == 0
            &&& next.snapshot.next_catalog_id == 1
            &&& next.snapshot.next_file_id == 0
            &&& next.snapshot.next_deletion_id == 0
            &&& next.schemas.dom() == set![0u64]
            &&& next.schemas[0].schema_id == 0
            &&& next.schemas[0].schema_uuid == uuid
            &&& next.schemas[0].schema_name == "main"@
            &&& next.schemas[0].path == "main/"@
            &&& next.schemas[0].path_is_relative
            &&& next.schemas[0].begin_snapshot == 0
            &&& next.schemas[0].end_snapshot is None
            &&& next.options.dom() == set![(0u64, 0u64)]
            &&& next.options[(0, 0)].options.contains_key("encrypted"@)
            &&& next.options[(0, 0)].options["encrypted"@] == (if encrypted {
                "true"@
            } else {
                "false"@
            })
            &&& data_path is Some ==> next.options[(0, 0)].options.contains_key("data_path"@)
                && next.options[(0, 0)].options["data_path"@] == data_path->0
            &&& data_path is None ==> !next.options[(0, 0)].options.contains_key("data_path"@)
            &&& forall|key: Seq<char>| #[trigger]
                next.options[(0, 0)].options.contains_key(key) ==> key == "encrypted"@ || key
                    == "data_path"@
            &&& next == (CatalogModel {
                snapshot: next.snapshot,
                schemas: next.schemas,
                options: next.options,
                ..empty_catalog(blank)
            })
            &&& forall|n: u64| sound(#[trigger] begun(next, n))
            &&& after(writes, KeyModel::Sys(SysKey::Format), None) == Some(
                StoredModel::Format(FormatModel { format_version: 1, writer_version }),
            )
            &&& after(writes, KeyModel::Sys(SysKey::Head), None) == Some(
                StoredModel::Head(HeadModel { snapshot_id: 0 }),
            )
            &&& after(writes, KeyModel::Snapshot { snapshot_id: 0 }, None) == Some(
                StoredModel::Snapshot(next.snapshot),
            )
        }),
{
    reveal_strlit("encrypted");
    reveal_strlit("data_path");
    assert("encrypted"@[0] != "data_path"@[0]);
    let writes = first_writes(encrypted, data_path, time, uuid, writer_version);
    let w4 = writes.drop_last();
    let w3 = w4.drop_last();
    let w2 = w3.drop_last();
    let w1 = w2.drop_last();
    assert(writes.len() == 5);
    assert(w1.drop_last() =~= Seq::<WriteModel>::empty());
    reveal_with_fuel(with_writes, 6);
    reveal_with_fuel(after, 6);
    let next = with_writes(empty_catalog(blank), writes)->Ok_0;
    assert(next.schemas.dom() =~= set![0u64]);
    assert(next.options.dom() =~= set![(0u64, 0u64)]);
    assert forall|n: u64| sound(#[trigger] begun(next, n)) by {
        assert(keyed(next));
    }
}

/// The first commit of a store of schemas, tables and columns alone leaves an empty
/// catalog whose counters start from zero.
pub proof fn small_first_commits_start_from_zero(
    time: i64,
    writer_version: Seq<char>,
    blank: SnapshotModel,
)
    ensures
        ({
            let writes = crate::txn_commit::first_writes(time, writer_version);
            let next = with_writes(empty_catalog(blank), writes)->Ok_0;
            &&& with_writes(empty_catalog(blank), writes) is Ok
            &&& next == empty_catalog(next.snapshot)
            &&& next.snapshot.snapshot_id == 0
            &&& next.snapshot.snapshot_time_micros == time
            &&& next.snapshot.schema_version == 0
            &&& next.snapshot.next_catalog_id == 0
            &&& next.snapshot.next_file_id == 0
            &&& next.snapshot.next_deletion_id == 0
            &&& next.snapshot.changes_made.len() == 0
            &&& after(writes, KeyModel::Sys(SysKey::Format), None) == Some(
                StoredModel::Format(FormatModel { format_version: 1, writer_version }),
            )
            &&& after(writes, KeyModel::Sys(SysKey::Head), None) == Some(
                StoredModel::Head(HeadModel { snapshot_id: 0 }),
            )
            &&& after(writes, KeyModel::Snapshot { snapshot_id: 0 }, None) == Some(
                StoredModel::Snapshot(next.snapshot),
            )
        }),
{
    let writes = crate::txn_commit::first_writes(time, writer_version);
    let w2 = writes.drop_last();
    let w1 = w2.drop_last();
    assert(writes.len() == 3);
    assert(w1.drop_last() =~= Seq::<WriteModel>::empty());
    reveal_with_fuel(with_writes, 4);
    reveal_with_fuel(after, 4);
}

// ---------------------------------------------------------------------------
// The records between two heads
// ---------------------------------------------------------------------------

/// The small handle misses the first record between two heads that is not there.
pub proof fn first_missing_records_are_told(
    from: u64,
    head: u64,
    records: Map<u64, SnapshotModel>,
)
    ensures
        match crate::txn_commit::first_missing(from, head, records) {
            Some(id) => from < id <= head && !records.contains_key(id) && forall|k: u64|
                from < k < id ==> #[trigger] records.contains_key(k),
            None => forall|k: u64| from < k <= head ==> #[trigger] records.contains_key(k),
        },
    decreases head - from,
{
    if from < head && records.contains_key((from + 1) as u64) {
        first_missing_records_are_told((from + 1) as u64, head, records);
        assert forall|k: u64|
            from < k && records.contains_key((from + 1) as u64) && k <= from + 1 implies
            #[trigger] records.contains_key(k) by {
            assert(k == from + 1);
        }
    }
}

/// What happened between two heads is told snapshot by snapshot, each by its own
/// record; where one is not there, anything may have happened.
pub proof fn records_between_heads_are_told(
    head_before: u64,
    head: u64,
    records: Map<u64, SnapshotModel>,
    i: int,
)
    requires
        head_before <= head,
        0 <= i < head - head_before,
    ensures
        changes_above(head_before, head, records).len() == head - head_before,
        crate::txn_commit::changes_recorded(head_before, head, records).len() == head
            - head_before,
        changes_above(head_before, head, records)[i].0 == head_before + 1 + i,
        crate::txn_commit::changes_recorded(head_before, head, records)[i].0 == head_before + 1 + i,
        ({
            let id = (head_before + 1 + i) as u64;
            &&& records.contains_key(id) ==> changes_above(head_before, head, records)[i].1
                == parsed(records[id].changes_made)
            &&& records.contains_key(id) ==> crate::txn_commit::changes_recorded(
                head_before,
                head,
                records,
            )[i].1 == parsed(records[id].changes_made)
            &&& !records.contains_key(id) ==> changes_above(
                head_before,
                head,
                records,
            )[i].1.has_unknown
        }),
{
}

} // verus!
