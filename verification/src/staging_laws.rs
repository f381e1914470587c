//! What a commit of staged rows leads to: its rows in their rounds, the state
//! that they add up to, and the snapshot that is then the head.
use crate::catalog::CatalogModel;
use crate::children::ChildModel;
use crate::commit_laws::{
    asides_change_nothing, diffs_fold_to_their_state, entries_are_aside, folding_both, is_aside,
};
use crate::diff::diff;
use crate::diff_laws::{file_stats_reach, finite_state};
use crate::error::Fault;
use crate::fold::with_writes;
use crate::index_changes::ReadsModel;
use crate::inline::{
    drop_writes, ends_of_rows, flushed_chunks, flushed_ends, inline_op_writes, inline_writes,
    InlineTableModel,
};
use crate::keys::{KeyModel, StoredModel, SysKey, WriteModel};
use crate::records::{HeadModel, SnapshotModel, TableModel};
use crate::rows::{CellModel, RowModel, TableKind, Want};
use crate::scoped::{largest, scope};
use crate::staged::{
    applied, column_ids_fit, committed, expired, floated, last_insert, leftover_refusal,
    maintained, mints, reclaimed, rounded, rows_worked, snapshot_of, surviving, worked, Round,
    WorkModel,
};
use crate::upkeep::{changed_entries, upkeep_writes};
use crate::verb_laws::has_largest;
use vstd::prelude::*;

verus! {

// ---------------------------------------------------------------------------
// Rounds
// ---------------------------------------------------------------------------

/// Rows that are applied one after the other.
pub open spec fn run(base: CatalogModel, w: WorkModel, ops: Seq<RowModel>, new_id: u64) -> Result<
    WorkModel,
    Fault,
>
    decreases ops.len(),
{
    if ops.len() == 0 {
        Ok(w)
    } else {
        match run(base, w, ops.drop_last(), new_id) {
            Err(f) => Err(f),
            Ok(next) => applied(base, next, ops.last(), new_id),
        }
    }
}

/// Whether rows end or delete something.
pub open spec fn all_end(ops: Seq<RowModel>) -> bool {
    forall|i: int|
        0 <= i < ops.len() ==> match #[trigger] ops[i] {
            RowModel::Delete { .. } => true,
            RowModel::UpdateSetEnd { .. } => true,
            _ => false,
        }
}

/// Whether rows insert something.
pub open spec fn all_insert(ops: Seq<RowModel>) -> bool {
    forall|i: int|
        0 <= i < ops.len() ==> match #[trigger] ops[i] {
            RowModel::Insert { .. } => true,
            _ => false,
        }
}

/// Whether rows move the begin of something.
pub open spec fn all_begin(ops: Seq<RowModel>) -> bool {
    forall|i: int|
        0 <= i < ops.len() ==> match #[trigger] ops[i] {
            RowModel::UpdateSetBegin { .. } => true,
            _ => false,
        }
}

proof fn rounds_run(
    base: CatalogModel,
    w: WorkModel,
    ops: Seq<RowModel>,
    new_id: u64,
    round: Round,
)
    ensures
        (round is Ends && all_end(ops)) || (round is Inserts && all_insert(ops)) || (
        round is Begins && all_begin(ops)) ==> rounded(base, w, ops, new_id, round) == run(
            base,
            w,
            ops,
            new_id,
        ),
        (!(round is Ends) && all_end(ops)) || (!(round is Inserts) && all_insert(ops)) || (!(
        round is Begins) && all_begin(ops)) ==> ops.len() == 0 || rounded(
            base,
            w,
            ops,
            new_id,
            round,
        ) == Ok::<WorkModel, Fault>(w),
    decreases ops.len(),
{
    if ops.len() > 0 {
        let front = ops.drop_last();
        rounds_run(base, w, front, new_id, round);
        assert(ops[ops.len() - 1] == ops.last());
        assert forall|i: int| 0 <= i < front.len() implies #[trigger] front[i] == ops[i] by {}
        assert(all_end(ops) ==> all_end(front));
        assert(all_insert(ops) ==> all_insert(front));
        assert(all_begin(ops) ==> all_begin(front));
    }
}

proof fn rounds_of_both(
    base: CatalogModel,
    w: WorkModel,
    a: Seq<RowModel>,
    b: Seq<RowModel>,
    new_id: u64,
    round: Round,
)
    ensures
        rounded(base, w, a + b, new_id, round) == (match rounded(base, w, a, new_id, round) {
            Err(f) => Err(f),
            Ok(next) => rounded(base, next, b, new_id, round),
        }),
    decreases b.len(),
{
    if b.len() == 0 {
        assert(a + b =~= a);
    } else {
        assert((a + b).drop_last() =~= a + b.drop_last());
        assert((a + b).last() == b.last());
        rounds_of_both(base, w, a, b.drop_last(), new_id, round);
    }
}

proof fn runs_of_both(
    base: CatalogModel,
    w: WorkModel,
    a: Seq<RowModel>,
    b: Seq<RowModel>,
    new_id: u64,
)
    ensures
        run(base, w, a + b, new_id) == (match run(base, w, a, new_id) {
            Err(f) => Err(f),
            Ok(next) => run(base, next, b, new_id),
        }),
    decreases b.len(),
{
    if b.len() == 0 {
        assert(a + b =~= a);
    } else {
        assert((a + b).drop_last() =~= a + b.drop_last());
        assert((a + b).last() == b.last());
        runs_of_both(base, w, a, b.drop_last(), new_id);
    }
}

proof fn other_rounds_skip(
    base: CatalogModel,
    w: WorkModel,
    ops: Seq<RowModel>,
    new_id: u64,
    round: Round,
)
    requires
        (!(round is Ends) && all_end(ops)) || (!(round is Inserts) && all_insert(ops)) || (!(
        round is Begins) && all_begin(ops)),
    ensures
        rounded(base, w, ops, new_id, round) == Ok::<WorkModel, Fault>(w),
{
    rounds_run(base, w, ops, new_id, round);
}

/// The rows of a commit take effect in rounds, each in the order in which its
/// rows were staged: those that end or delete, those that insert, and those that
/// move a begin.
pub proof fn rows_take_effect_in_rounds(
    base: CatalogModel,
    ends: Seq<RowModel>,
    inserts: Seq<RowModel>,
    begins: Seq<RowModel>,
    children: ChildModel,
    new_id: u64,
)
    requires
        all_end(ends),
        all_insert(inserts),
        all_begin(begins),
    ensures
        ({
            let start = WorkModel { state: base, children, direct: Seq::empty() };
            &&& worked(base, ends + inserts + begins, children, new_id) == run(
                base,
                start,
                ends + inserts + begins,
                new_id,
            )
            &&& worked(base, begins + inserts + ends, children, new_id) == run(
                base,
                start,
                ends + inserts + begins,
                new_id,
            )
        }),
{
    let start = WorkModel { state: base, children, direct: Seq::empty() };
    runs_of_both(base, start, ends, inserts, new_id);
    runs_of_both(base, start, ends + inserts, begins, new_id);
    in_order(base, start, ends, inserts, begins, new_id);
    in_order(base, start, begins, inserts, ends, new_id);
    rounds_run(base, start, ends, new_id, Round::Ends);
    let one = run(base, start, ends, new_id);
    if one is Ok {
        rounds_run(base, one->Ok_0, inserts, new_id, Round::Inserts);
        let two = run(base, one->Ok_0, inserts, new_id);
        if two is Ok {
            rounds_run(base, two->Ok_0, begins, new_id, Round::Begins);
        }
    }
}

/// Three runs of rows, one of each kind in any order, go through the rounds.
proof fn in_order(
    base: CatalogModel,
    start: WorkModel,
    a: Seq<RowModel>,
    b: Seq<RowModel>,
    c: Seq<RowModel>,
    new_id: u64,
)
    requires
        all_insert(b),
        (all_end(a) && all_begin(c)) || (all_begin(a) && all_end(c)),
    ensures
        ({
            let ends = if all_end(a) && all_begin(c) {
                a
            } else {
                c
            };
            let begins = if all_end(a) && all_begin(c) {
                c
            } else {
                a
            };
            &&& rounded(base, start, a + b + c, new_id, Round::Ends) == rounded(
                base,
                start,
                ends,
                new_id,
                Round::Ends,
            )
            &&& forall|w: WorkModel| #[trigger]
                rounded(base, w, a + b + c, new_id, Round::Inserts) == rounded(
                    base,
                    w,
                    b,
                    new_id,
                    Round::Inserts,
                )
            &&& forall|w: WorkModel| #[trigger]
                rounded(base, w, a + b + c, new_id, Round::Begins) == rounded(
                    base,
                    w,
                    begins,
                    new_id,
                    Round::Begins,
                )
        }),
{
    one_of_three(base, start, a, b, c, new_id, Round::Ends);
    assert forall|w: WorkModel| #[trigger] rounded(base, w, a + b + c, new_id, Round::Inserts)
        == rounded(base, w, b, new_id, Round::Inserts) by {
        one_of_three(base, w, a, b, c, new_id, Round::Inserts);
    }
    assert forall|w: WorkModel| #[trigger] rounded(base, w, a + b + c, new_id, Round::Begins)
        == rounded(
        base,
        w,
        if all_end(a) && all_begin(c) {
            c
        } else {
            a
        },
        new_id,
        Round::Begins,
    ) by {
        one_of_three(base, w, a, b, c, new_id, Round::Begins);
    }
}

proof fn one_of_three(
    base: CatalogModel,
    w: WorkModel,
    a: Seq<RowModel>,
    b: Seq<RowModel>,
    c: Seq<RowModel>,
    new_id: u64,
    round: Round,
)
    requires
        all_insert(b),
        (all_end(a) && all_begin(c)) || (all_begin(a) && all_end(c)),
    ensures
        rounded(base, w, a + b + c, new_id, round) == (match round {
            Round::Ends => rounded(
                base,
                w,
                if all_end(a) && all_begin(c) {
                    a
                } else {
                    c
                },
                new_id,
                round,
            ),
            Round::Inserts => rounded(base, w, b, new_id, round),
            Round::Begins => rounded(
                base,
                w,
                if all_end(a) && all_begin(c) {
                    c
                } else {
                    a
                },
                new_id,
                round,
            ),
        }),
{
    rounds_of_both(base, w, a, b, new_id, round);
    rounds_of_both(base, w, a + b, c, new_id, round);
    let first = rounded(base, w, a, new_id, round);
    if !(round is Inserts) {
        if first is Ok {
            other_rounds_skip(base, first->Ok_0, b, new_id, round);
        }
    }
    if round is Inserts {
        other_rounds_skip(base, w, a, new_id, round);
        let second = rounded(base, w, b, new_id, round);
        if second is Ok {
            other_rounds_skip(base, second->Ok_0, c, new_id, round);
        }
    } else if (round is Ends) == (all_end(a) && all_begin(c)) {
        if first is Ok {
            other_rounds_skip(base, first->Ok_0, c, new_id, round);
        }
    } else {
        other_rounds_skip(base, w, a, new_id, round);
    }
}

// ---------------------------------------------------------------------------
// Leftovers and counters
// ---------------------------------------------------------------------------

/// Child rows are left over if and only if some parent did not come.
pub proof fn leftovers_are_refused(c: ChildModel)
    ensures
        leftover_refusal(c) is None <==> {
            &&& forall|k: u64| !#[trigger] c.partition_columns.contains_key(k)
            &&& forall|k: u64| !#[trigger] c.sort_expressions.contains_key(k)
            &&& forall|k: (u64, u64)| !#[trigger] c.file_partition_values.contains_key(k)
            &&& forall|k: u64| !#[trigger] c.macro_implementations.contains_key(k)
            &&& forall|k: (u64, u64)| !#[trigger] c.macro_parameters.contains_key(k)
            &&& forall|k: u64| !#[trigger] c.name_mappings.contains_key(k)
        },
{
    no_keys(c.partition_columns);
    no_keys(c.sort_expressions);
    no_keys(c.file_partition_values);
    no_keys(c.macro_implementations);
    no_keys(c.macro_parameters);
    no_keys(c.name_mappings);
}

proof fn no_keys<K, V>(m: Map<K, V>)
    ensures
        m == Map::<K, V>::empty() <==> forall|k: K| !#[trigger] m.contains_key(k),
{
    if forall|k: K| !#[trigger] m.contains_key(k) {
        assert(m =~= Map::empty());
    }
}

/// The counters of tables are raised above their live columns, and only where
/// they are not; nothing else changes.
pub proof fn counters_float_above_columns(m: CatalogModel, table_id: u64)
    requires
        column_ids_fit(m),
    ensures
        floated(m) == (CatalogModel { tables: floated(m).tables, ..m }),
        floated(m).tables.contains_key(table_id) <==> m.tables.contains_key(table_id),
        m.tables.contains_key(table_id) ==> {
            let was = m.tables[table_id];
            let now = floated(m).tables[table_id];
            &&& now == (TableModel { next_column_id: now.next_column_id, ..was })
            &&& now.next_column_id >= was.next_column_id
            &&& forall|c: u64| #[trigger]
                m.columns.contains_key((table_id, c)) ==> c < now.next_column_id
            &&& now.next_column_id == was.next_column_id || exists|c: u64| #[trigger]
                m.columns.contains_key((table_id, c)) && c + 1 == now.next_column_id
        },
{
    if m.tables.contains_key(table_id) {
        let ids = scope(m.columns, table_id);
        if ids == Set::<u64>::empty() {
            assert forall|c: u64| #[trigger] m.columns.contains_key((table_id, c)) implies false by {
                assert(ids.contains(c));
            }
        } else {
            if forall|c: u64| !ids.contains(c) {
                assert(ids =~= Set::empty());
            }
            let c = choose|c: u64| ids.contains(c);
            has_largest(ids, c);
            let top = largest(ids) as u64;
            assert(ids.contains(top));
            assert(m.columns.contains_key((table_id, top)));
            assert forall|c: u64| #[trigger] m.columns.contains_key((table_id, c)) implies c
                <= top by {
                assert(ids.contains(c));
            }
        }
    }
}

// ---------------------------------------------------------------------------
// The whole commit
// ---------------------------------------------------------------------------

proof fn chunk_deletions_are_aside(
    chunks: Seq<(crate::keys::InlineOperation, crate::records::InlineChunkModel)>,
    schema_version: u64,
    flush_snapshot: u64,
)
    ensures
        forall|i: int|
            0 <= i < flushed_chunks(chunks, schema_version, flush_snapshot).len() ==> is_aside(
                #[trigger] flushed_chunks(chunks, schema_version, flush_snapshot)[i],
            ),
    decreases chunks.len(),
{
    if chunks.len() > 0 {
        chunk_deletions_are_aside(chunks.drop_last(), schema_version, flush_snapshot);
        let w = flushed_chunks(chunks.drop_last(), schema_version, flush_snapshot);
        let all = flushed_chunks(chunks, schema_version, flush_snapshot);
        assert forall|i: int| 0 <= i < all.len() implies is_aside(#[trigger] all[i]) by {
            if i < w.len() {
                assert(all[i] == w[i]);
            }
        }
    }
}

proof fn row_deletions_are_aside(table_id: u64, from: int, to: int, ended: Set<u64>)
    ensures
        forall|i: int|
            0 <= i < ends_of_rows(table_id, from, to, ended).len() ==> is_aside(
                #[trigger] ends_of_rows(table_id, from, to, ended)[i],
            ),
    decreases to - from,
{
    if from < to {
        row_deletions_are_aside(table_id, from, to - 1, ended);
        let w = ends_of_rows(table_id, from, to - 1, ended);
        let all = ends_of_rows(table_id, from, to, ended);
        assert forall|i: int| 0 <= i < all.len() implies is_aside(#[trigger] all[i]) by {
            if i < w.len() {
                assert(all[i] == w[i]);
            }
        }
    }
}

proof fn end_deletions_are_aside(
    table_id: u64,
    chunks: Seq<(crate::keys::InlineOperation, crate::records::InlineChunkModel)>,
    schema_version: u64,
    flush_snapshot: u64,
    ended: Set<u64>,
)
    ensures
        forall|i: int|
            0 <= i < flushed_ends(
                table_id,
                chunks,
                schema_version,
                flush_snapshot,
                ended,
            ).len() ==> is_aside(
                #[trigger] flushed_ends(table_id, chunks, schema_version, flush_snapshot, ended)[i],
            ),
    decreases chunks.len(),
{
    if chunks.len() > 0 {
        end_deletions_are_aside(
            table_id,
            chunks.drop_last(),
            schema_version,
            flush_snapshot,
            ended,
        );
        row_deletions_are_aside(
            table_id,
            chunks.last().1.row_id_start as int,
            crate::inline::chunk_end(chunks.last().1) as int,
            ended,
        );
        let front = chunks.drop_last();
        let w = flushed_ends(table_id, front, schema_version, flush_snapshot, ended);
        let more = ends_of_rows(
            table_id,
            chunks.last().1.row_id_start as int,
            crate::inline::chunk_end(chunks.last().1) as int,
            ended,
        );
        let all = flushed_ends(table_id, chunks, schema_version, flush_snapshot, ended);
        assert forall|i: int| 0 <= i < all.len() implies is_aside(#[trigger] all[i]) by {
            if i < w.len() {
                assert(all[i] == w[i]);
            } else {
                assert(all[i] == more[i - w.len()]);
            }
        }
    }
}

proof fn inline_writes_are_aside(ops: Seq<RowModel>, scans: Map<u64, InlineTableModel>)
    ensures
        forall|i: int|
            0 <= i < inline_writes(ops, scans).len() ==> is_aside(
                #[trigger] inline_writes(ops, scans)[i],
            ),
    decreases ops.len(),
{
    if ops.len() > 0 {
        let front = ops.drop_last();
        inline_writes_are_aside(front, scans);
        let a = inline_writes(front, scans);
        let b = inline_op_writes(front, ops.last(), scans);
        match ops.last() {
            RowModel::InlineFlushDelete { table_id, schema_version, flush_snapshot } => {
                let table = crate::inline::scanned(scans, table_id);
                chunk_deletions_are_aside(table.chunks, schema_version, flush_snapshot);
                end_deletions_are_aside(
                    table_id,
                    table.chunks,
                    schema_version,
                    flush_snapshot,
                    crate::inline::ended_rows(table.inline_deletes),
                );
            },
            RowModel::InlineDrop { table_id } => {
                let table = crate::inline::scanned(scans, table_id);
                let all = drop_writes(table, table_id);
                assert forall|i: int| 0 <= i < all.len() implies is_aside(#[trigger] all[i]) by {
                    let n1 = table.chunks.len();
                    let n2 = n1 + table.inline_deletes.len();
                    let n3 = n2 + table.file_deletes.len();
                    if i < n1 {
                    } else if i < n2 {
                    } else if i < n3 {
                    }
                }
            },
            _ => {},
        }
        assert forall|i: int| 0 <= i < inline_writes(ops, scans).len() implies is_aside(
            #[trigger] inline_writes(ops, scans)[i],
        ) by {
            if i < a.len() {
                assert(inline_writes(ops, scans)[i] == a[i]);
            } else {
                assert(inline_writes(ops, scans)[i] == b[i - a.len()]);
            }
        }
    }
}

proof fn upkeep_is_aside(
    m: CatalogModel,
    ops: Seq<RowModel>,
    reads: ReadsModel,
    data_prefix: Seq<char>,
)
    requires
        upkeep_writes(m, ops, reads, data_prefix) is Ok,
    ensures
        forall|i: int|
            0 <= i < upkeep_writes(m, ops, reads, data_prefix)->Ok_0.len() ==> is_aside(
                #[trigger] upkeep_writes(m, ops, reads, data_prefix)->Ok_0[i],
            ),
{
    let entries = changed_entries(m, ops, reads, data_prefix)->Ok_0;
    if entries.len() > 0 {
        entries_are_aside(entries, reads.held);
    }
}

/// A commit of staged rows with a snapshot leads to the state that its rows add
/// up to, with the counters of tables above their columns and less the versions
/// that the rows prune, under the snapshot that the rows spell out; and that is
/// then the head. No child row is left over.
pub proof fn staged_commits_reach_their_state(
    base: CatalogModel,
    ops: Seq<RowModel>,
    scans: Map<u64, InlineTableModel>,
    reads: ReadsModel,
    data_prefix: Seq<char>,
    pruned: CatalogModel,
)
    requires
        mints(ops),
        committed(base, ops, scans, reads, data_prefix) is Ok,
        ({
            let w = rows_worked(base, ops)->Ok_0.1;
            let state = floated(w.state);
            &&& finite_state(base) && finite_state(state)
            &&& base.mappings.dom().subset_of(state.mappings.dom())
            &&& file_stats_reach(base, state)
            &&& with_writes(CatalogModel { snapshot: base.snapshot, ..state }, w.direct) == Ok::<
                CatalogModel,
                Fault,
            >(pruned)
        }),
    ensures
        ({
            let (id, writes) = committed(base, ops, scans, reads, data_prefix)->Ok_0;
            let s = snapshot_of(ops)->Ok_0;
            let w = rows_worked(base, ops)->Ok_0.1;
            &&& snapshot_of(ops) is Ok
            &&& rows_worked(base, ops) is Ok
            &&& leftover_refusal(w.children) is None
            &&& id == s.snapshot_id
            &&& with_writes(base, writes) == Ok::<CatalogModel, Fault>(
                CatalogModel { snapshot: s, ..pruned },
            )
            &&& writes.contains(
                (
                    KeyModel::Snapshot { snapshot_id: s.snapshot_id },
                    Some(StoredModel::Snapshot(s)),
                ),
            )
            &&& writes.contains(
                (
                    KeyModel::Sys(SysKey::Head),
                    Some(StoredModel::Head(HeadModel { snapshot_id: s.snapshot_id })),
                ),
            )
        }),
{
    let (id, writes) = committed(base, ops, scans, reads, data_prefix)->Ok_0;
    let (s, w) = rows_worked(base, ops)->Ok_0;
    let state = floated(w.state);
    let d = diff(base, state, s.snapshot_id);
    let head = seq![
        (KeyModel::Snapshot { snapshot_id: s.snapshot_id }, Some(StoredModel::Snapshot(s))),
        (
            KeyModel::Sys(SysKey::Head),
            Some(StoredModel::Head(HeadModel { snapshot_id: s.snapshot_id })),
        ),
    ];
    let inline = inline_writes(ops, scans);
    let more = upkeep_writes(base, ops, reads, data_prefix)->Ok_0;
    assert(writes == d + w.direct + head + inline + more);
    diffs_fold_to_their_state(base, state, s.snapshot_id);
    folding_both(base, d, w.direct);
    folding_both(base, d + w.direct, head);
    assert(head.drop_last() =~= seq![head[0]]);
    assert(head.drop_last().drop_last() =~= Seq::<WriteModel>::empty());
    reveal_with_fuel(with_writes, 3);
    let reached = CatalogModel { snapshot: s, ..pruned };
    assert(with_writes(base, d + w.direct + head) == Ok::<CatalogModel, Fault>(reached));
    inline_writes_are_aside(ops, scans);
    asides_change_nothing(reached, inline);
    folding_both(base, d + w.direct + head, inline);
    upkeep_is_aside(base, ops, reads, data_prefix);
    asides_change_nothing(reached, more);
    folding_both(base, d + w.direct + head + inline, more);
    let n = (d + w.direct).len() as int;
    assert(writes[n] == head[0]);
    assert(writes[n + 1] == head[1]);
}

proof fn last_inserts_are_found(ops: Seq<RowModel>, table: TableKind)
    ensures
        last_insert(ops, table) is Some <==> exists|i: int|
            0 <= i < ops.len() && match #[trigger] ops[i] {
                RowModel::Insert { table: t, .. } => t == table,
                _ => false,
            },
    decreases ops.len(),
{
    if ops.len() > 0 {
        let front = ops.drop_last();
        last_inserts_are_found(front, table);
        assert(ops[ops.len() - 1] == ops.last());
        if exists|i: int|
            0 <= i < front.len() && match #[trigger] front[i] {
                RowModel::Insert { table: t, .. } => t == table,
                _ => false,
            } {
            let i = choose|i: int|
                0 <= i < front.len() && match #[trigger] front[i] {
                    RowModel::Insert { table: t, .. } => t == table,
                    _ => false,
                };
            assert(ops[i] == front[i]);
        }
        if exists|i: int|
            0 <= i < ops.len() && match #[trigger] ops[i] {
                RowModel::Insert { table: t, .. } => t == table,
                _ => false,
            } {
            let i = choose|i: int|
                0 <= i < ops.len() && match #[trigger] ops[i] {
                    RowModel::Insert { table: t, .. } => t == table,
                    _ => false,
                };
            if i < front.len() {
                assert(front[i] == ops[i]);
            }
        }
    }
}

/// A commit of staged rows moves the head if and only if one of its rows inserts
/// a snapshot; otherwise it is at the head that it was based on.
pub proof fn snapshots_move_the_head(
    base: CatalogModel,
    ops: Seq<RowModel>,
    scans: Map<u64, InlineTableModel>,
    reads: ReadsModel,
    data_prefix: Seq<char>,
)
    ensures
        mints(ops) <==> exists|i: int|
            0 <= i < ops.len() && match #[trigger] ops[i] {
                RowModel::Insert { table, .. } => table == TableKind::Snapshot,
                _ => false,
            },
        !mints(ops) && committed(base, ops, scans, reads, data_prefix) is Ok ==> committed(
            base,
            ops,
            scans,
            reads,
            data_prefix,
        )->Ok_0.0 == base.snapshot.snapshot_id,
{
    last_inserts_are_found(ops, TableKind::Snapshot);
}

// ---------------------------------------------------------------------------
// Maintenance
// ---------------------------------------------------------------------------

/// Whether a row may be staged without a snapshot: it deletes, schedules a file
/// for deletion, or is about inlined rows.
pub open spec fn only_reclaims(op: RowModel) -> bool {
    match op {
        RowModel::Insert { table, .. } => table == TableKind::FilesScheduledForDeletion,
        RowModel::UpdateSetEnd { .. } => false,
        RowModel::UpdateSetBegin { .. } => false,
        _ => true,
    }
}

/// Without a snapshot rows take effect one after the other, and one that does
/// more than reclaim is refused.
pub proof fn maintenance_only_reclaims(base: CatalogModel, ops: Seq<RowModel>)
    ensures
        match reclaimed(base, ops) {
            Ok(w) => {
                &&& forall|i: int| 0 <= i < ops.len() ==> only_reclaims(#[trigger] ops[i])
                &&& run(
                    base,
                    WorkModel {
                        state: base,
                        children: crate::children::no_children(),
                        direct: Seq::empty(),
                    },
                    ops,
                    base.snapshot.snapshot_id,
                ) == Ok::<WorkModel, Fault>(w)
            },
            Err(_) => {
                ||| exists|i: int| 0 <= i < ops.len() && !only_reclaims(#[trigger] ops[i])
                ||| run(
                    base,
                    WorkModel {
                        state: base,
                        children: crate::children::no_children(),
                        direct: Seq::empty(),
                    },
                    ops,
                    base.snapshot.snapshot_id,
                ) is Err
            },
        },
    decreases ops.len(),
{
    if ops.len() > 0 {
        let front = ops.drop_last();
        maintenance_only_reclaims(base, front);
        assert(ops[ops.len() - 1] == ops.last());
        if reclaimed(base, ops) is Ok {
            assert forall|i: int| 0 <= i < ops.len() implies only_reclaims(#[trigger] ops[i]) by {
                if i < front.len() {
                    assert(front[i] == ops[i]);
                }
            }
        } else if exists|i: int| 0 <= i < front.len() && !only_reclaims(#[trigger] front[i]) {
            let i = choose|i: int| 0 <= i < front.len() && !only_reclaims(#[trigger] front[i]);
            assert(ops[i] == front[i]);
        }
    }
}

/// Maintenance leads to the state that its rows add up to, less the versions that
/// they prune; the snapshot stays.
pub proof fn maintenance_reaches_its_state(
    base: CatalogModel,
    ops: Seq<RowModel>,
    pruned: CatalogModel,
)
    requires
        maintained(base, ops) is Ok,
        ({
            let w = reclaimed(base, ops)->Ok_0;
            &&& finite_state(base) && finite_state(w.state)
            &&& base.mappings.dom().subset_of(w.state.mappings.dom())
            &&& file_stats_reach(base, w.state)
            &&& with_writes(CatalogModel { snapshot: base.snapshot, ..w.state }, w.direct) == Ok::<
                CatalogModel,
                Fault,
            >(pruned)
        }),
    ensures
        reclaimed(base, ops) is Ok,
        with_writes(base, maintained(base, ops)->Ok_0) == Ok::<CatalogModel, Fault>(pruned),
{
    let w = reclaimed(base, ops)->Ok_0;
    let n = base.snapshot.snapshot_id;
    diffs_fold_to_their_state(base, w.state, n);
    folding_both(base, diff(base, w.state, n), w.direct);
}

// ---------------------------------------------------------------------------
// Expiry
// ---------------------------------------------------------------------------

/// Whether some row expires a snapshot.
pub open spec fn expires(ops: Seq<RowModel>, snapshot_id: u64) -> bool {
    exists|i: int|
        0 <= i < ops.len() && #[trigger] ops[i] == (RowModel::Delete {
            table: TableKind::Snapshot,
            cells: seq![CellModel::U64(snapshot_id)],
        })
}

proof fn expired_are_named(ops: Seq<RowModel>, snapshot_id: u64)
    requires
        expired(ops) is Ok,
    ensures
        expired(ops)->Ok_0.contains(snapshot_id) <==> expires(ops, snapshot_id),
    decreases ops.len(),
{
    let row = RowModel::Delete {
        table: TableKind::Snapshot,
        cells: seq![CellModel::U64(snapshot_id)],
    };
    if ops.len() > 0 {
        let front = ops.drop_last();
        expired_are_named(front, snapshot_id);
        assert(ops[ops.len() - 1] == ops.last());
        match ops.last() {
            RowModel::Delete { table, cells } => {
                if table == TableKind::Snapshot {
                    let shape = seq![Want::Number];
                    crate::rows::leading_cells_fit(table, shape, cells);
                    assert(crate::rows::meets(cells[0], shape[0]));
                    assert(cells =~= seq![cells[0]]);
                    if crate::rows::number(cells[0]) == snapshot_id {
                        assert(cells =~= seq![CellModel::U64(snapshot_id)]);
                    }
                }
            },
            _ => {},
        }
        if expires(front, snapshot_id) {
            let i = choose|i: int| 0 <= i < front.len() && #[trigger] front[i] == row;
            assert(ops[i] == row);
        }
        if expires(ops, snapshot_id) {
            let i = choose|i: int| 0 <= i < ops.len() && #[trigger] ops[i] == row;
            if i < front.len() {
                assert(front[i] == row);
            }
        }
    }
}

proof fn survivors_are_filtered(snapshots: Seq<SnapshotModel>, gone: Set<u64>)
    ensures
        surviving(snapshots, gone) == snapshots.filter(
            |s: SnapshotModel| !gone.contains(s.snapshot_id),
        ),
    decreases snapshots.len(),
{
    reveal(Seq::filter);
    if snapshots.len() > 0 {
        survivors_are_filtered(snapshots.drop_last(), gone);
    }
}

/// What a transaction sees of the committed snapshots is what its rows do not
/// expire, in order.
pub proof fn expired_snapshots_are_not_seen(ops: Seq<RowModel>, snapshots: Seq<SnapshotModel>)
    requires
        expired(ops) is Ok,
    ensures
        surviving(snapshots, expired(ops)->Ok_0) == snapshots.filter(
            |s: SnapshotModel| !expires(ops, s.snapshot_id),
        ),
{
    let gone = expired(ops)->Ok_0;
    survivors_are_filtered(snapshots, gone);
    assert forall|s: SnapshotModel| gone.contains(s.snapshot_id) == #[trigger] expires(
        ops,
        s.snapshot_id,
    ) by {
        expired_are_named(ops, s.snapshot_id);
    }
    same_filters(
        snapshots,
        |s: SnapshotModel| !gone.contains(s.snapshot_id),
        |s: SnapshotModel| !expires(ops, s.snapshot_id),
    );
}

proof fn same_filters<A>(s: Seq<A>, p: spec_fn(A) -> bool, q: spec_fn(A) -> bool)
    requires
        forall|x: A| #[trigger] p(x) == q(x),
    ensures
        s.filter(p) == s.filter(q),
    decreases s.len(),
{
    reveal(Seq::filter);
    if s.len() > 0 {
        same_filters(s.drop_last(), p, q);
        assert(p(s.last()) == q(s.last()));
    }
}

} // verus!
