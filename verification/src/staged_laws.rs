//! Laws of commits of staged rows.
use crate::catalog::CatalogModel;
use crate::children::children_of;
use crate::deletes::deletion;
use crate::diff::diff;
use crate::ends::ended;
use crate::index_changes::ReadsModel;
use crate::index_entries::{additions, freed, removals, IndexEntryModel};
use crate::inline::{
    drop_writes, ends_of_rows, flushed_chunks, flushed_ends, inline_op_writes, inline_writes,
    scanned, InlineTableModel,
};
use crate::keys::{InlineOperation, KeyModel, WriteModel};
use crate::ordered::{ascending, finite_sets_ascend};
use crate::records::InlineChunkModel;
use crate::rows::{number, RowModel, TableKind};
use crate::scoped::{is_largest, largest, scope};
use crate::staged::{
    applied, catalog_part, column_ids_fit, committed, floated, in_round, last_insert, mints,
    reclaimed, reshaped_tables, rounded, snapshot_of, translated, Round, WorkModel,
};
use crate::upkeep::{changed_entries, upkeep_writes};
use crate::write_laws::{diff_key, diff_writes_catalog_keys};
use vstd::prelude::*;

verus! {

// ---------------------------------------------------------------------------
// Column-id counters
// ---------------------------------------------------------------------------

/// A finite set of numbers has a largest one.
proof fn finite_sets_have_a_largest(s: Set<u64>)
    requires
        s.finite(),
        s != Set::<u64>::empty(),
    ensures
        is_largest(s, largest(s)),
{
    finite_sets_ascend::<u64>(s);
    let q = ascending::<u64>(s);
    if q.len() == 0 {
        assert(q.to_set() =~= Set::<u64>::empty());
    }
    let top = q.last();
    assert(q.to_set().contains(top));
    assert forall|x: u64| #[trigger] s.contains(x) implies x <= top by {
        assert(q.to_set().contains(x));
        let j = choose|j: int| 0 <= j < q.len() && q[j] == x;
        if j < q.len() - 1 {
            assert(q[j] < q[q.len() - 1]);
        }
    }
    assert(is_largest(s, top as int));
}

/// The columns of a table are no more than all columns.
proof fn scopes_are_finite<V>(m: Map<(u64, u64), V>, table_id: u64)
    requires
        m.dom().finite(),
    ensures
        scope(m, table_id).finite(),
{
    let all = m.dom().map(|k: (u64, u64)| k.1);
    m.dom().lemma_map_finite(|k: (u64, u64)| k.1);
    assert forall|c: u64| #[trigger] scope(m, table_id).contains(c) implies all.contains(c) by {
        assert(m.dom().contains((table_id, c)));
    }
    vstd::set_lib::lemma_set_subset_finite(all, scope(m, table_id));
}

/// After a commit of staged rows, the column-id counter of every live table is
/// above every live column id of that table, so that no id is given out twice.
pub proof fn counters_clear_live_columns(m: CatalogModel, table_id: u64, column_id: u64)
    requires
        m.columns.dom().finite(),
        column_ids_fit(m),
        m.tables.contains_key(table_id),
        m.columns.contains_key((table_id, column_id)),
    ensures
        floated(m).tables[table_id].next_column_id > column_id,
        floated(m).tables[table_id].next_column_id >= m.tables[table_id].next_column_id,
{
    let ids = scope(m.columns, table_id);
    assert(ids.contains(column_id));
    scopes_are_finite(m.columns, table_id);
    finite_sets_have_a_largest(ids);
    assert(m.columns.contains_key((table_id, largest(ids) as u64)));
}

// ---------------------------------------------------------------------------
// The head
// ---------------------------------------------------------------------------

/// Whether a write leaves the head and its snapshot alone: it touches neither
/// the head nor a snapshot, or deletes another snapshot.
pub open spec fn spares_head(write: WriteModel, head: u64) -> bool {
    match write.0 {
        KeyModel::Sys(_) => false,
        KeyModel::Snapshot { snapshot_id } => write.1 is None && snapshot_id != head,
        _ => true,
    }
}

pub open spec fn all_spare_head(writes: Seq<WriteModel>, head: u64) -> bool {
    forall|i: int| 0 <= i < writes.len() ==> spares_head(#[trigger] writes[i], head)
}

proof fn both_spare_head(a: Seq<WriteModel>, b: Seq<WriteModel>, head: u64)
    requires
        all_spare_head(a, head),
        all_spare_head(b, head),
    ensures
        all_spare_head(a + b, head),
{
    assert forall|i: int| 0 <= i < (a + b).len() implies spares_head(#[trigger] (a + b)[i], head) by {
        if i < a.len() {
            assert((a + b)[i] == a[i]);
        } else {
            assert((a + b)[i] == b[i - a.len()]);
        }
    }
}

proof fn diff_spares_head(base: CatalogModel, state: CatalogModel, n: u64, head: u64)
    ensures
        all_spare_head(diff(base, state, n), head),
{
    diff_writes_catalog_keys(base, state, n);
    let w = diff(base, state, n);
    assert forall|i: int| 0 <= i < w.len() implies spares_head(#[trigger] w[i], head) by {
        assert(diff_key(base, state, n, w[i].0));
    }
}

/// A row leaves the working state's snapshot alone, and its own deletes spare
/// the head.
proof fn applying_spares_head(base: CatalogModel, w: WorkModel, op: RowModel, new_id: u64, head: u64)
    requires
        w.state.snapshot.snapshot_id == head,
        all_spare_head(w.direct, head),
        applied(base, w, op, new_id) is Ok,
    ensures
        applied(base, w, op, new_id)->Ok_0.state.snapshot.snapshot_id == head,
        all_spare_head(applied(base, w, op, new_id)->Ok_0.direct, head),
{
    let next = applied(base, w, op, new_id)->Ok_0;
    assert forall|i: int| 0 <= i < next.direct.len() implies spares_head(
        #[trigger] next.direct[i],
        head,
    ) by {
        if i < w.direct.len() {
            assert(next.direct[i] == w.direct[i]);
        }
    }
}

proof fn rounds_spare_head(
    base: CatalogModel,
    w: WorkModel,
    ops: Seq<RowModel>,
    new_id: u64,
    round: Round,
    head: u64,
)
    requires
        w.state.snapshot.snapshot_id == head,
        all_spare_head(w.direct, head),
        rounded(base, w, ops, new_id, round) is Ok,
    ensures
        rounded(base, w, ops, new_id, round)->Ok_0.state.snapshot.snapshot_id == head,
        all_spare_head(rounded(base, w, ops, new_id, round)->Ok_0.direct, head),
    decreases ops.len(),
{
    if ops.len() > 0 {
        rounds_spare_head(base, w, ops.drop_last(), new_id, round, head);
        if in_round(ops.last(), round) {
            applying_spares_head(
                base,
                rounded(base, w, ops.drop_last(), new_id, round)->Ok_0,
                ops.last(),
                new_id,
                head,
            );
        }
    }
}

proof fn reclaims_spare_head(base: CatalogModel, ops: Seq<RowModel>)
    requires
        reclaimed(base, ops) is Ok,
    ensures
        reclaimed(base, ops)->Ok_0.state.snapshot.snapshot_id == base.snapshot.snapshot_id,
        all_spare_head(reclaimed(base, ops)->Ok_0.direct, base.snapshot.snapshot_id),
    decreases ops.len(),
{
    if ops.len() > 0 {
        reclaims_spare_head(base, ops.drop_last());
        applying_spares_head(
            base,
            reclaimed(base, ops.drop_last())->Ok_0,
            ops.last(),
            base.snapshot.snapshot_id,
            base.snapshot.snapshot_id,
        );
    }
}

proof fn flushed_chunks_spare_head(
    chunks: Seq<(InlineOperation, InlineChunkModel)>,
    version: u64,
    flush: u64,
    head: u64,
)
    ensures
        all_spare_head(flushed_chunks(chunks, version, flush), head),
    decreases chunks.len(),
{
    if chunks.len() > 0 {
        flushed_chunks_spare_head(chunks.drop_last(), version, flush, head);
    }
}

proof fn row_ends_spare_head(table_id: u64, from: int, to: int, ended: Set<u64>, head: u64)
    ensures
        all_spare_head(ends_of_rows(table_id, from, to, ended), head),
    decreases to - from,
{
    if from < to {
        row_ends_spare_head(table_id, from, to - 1, ended, head);
    }
}

proof fn flushed_ends_spare_head(
    table_id: u64,
    chunks: Seq<(InlineOperation, InlineChunkModel)>,
    version: u64,
    flush: u64,
    ended: Set<u64>,
    head: u64,
)
    ensures
        all_spare_head(flushed_ends(table_id, chunks, version, flush, ended), head),
    decreases chunks.len(),
{
    if chunks.len() > 0 {
        flushed_ends_spare_head(table_id, chunks.drop_last(), version, flush, ended, head);
        let from = chunks.last().1.row_id_start as int;
        let to = crate::inline::chunk_end(chunks.last().1) as int;
        row_ends_spare_head(table_id, from, to, ended, head);
        both_spare_head(
            flushed_ends(table_id, chunks.drop_last(), version, flush, ended),
            ends_of_rows(table_id, from, to, ended),
            head,
        );
    }
}

proof fn inline_spares_head(ops: Seq<RowModel>, scans: Map<u64, InlineTableModel>, head: u64)
    ensures
        all_spare_head(inline_writes(ops, scans), head),
    decreases ops.len(),
{
    if ops.len() > 0 {
        let front = ops.drop_last();
        inline_spares_head(front, scans, head);
        match ops.last() {
            RowModel::InlineFlushDelete { table_id, schema_version, flush_snapshot } => {
                let table = scanned(scans, table_id);
                let ended = crate::inline::ended_rows(table.inline_deletes);
                flushed_chunks_spare_head(table.chunks, schema_version, flush_snapshot, head);
                flushed_ends_spare_head(
                    table_id,
                    table.chunks,
                    schema_version,
                    flush_snapshot,
                    ended,
                    head,
                );
                both_spare_head(
                    flushed_chunks(table.chunks, schema_version, flush_snapshot),
                    flushed_ends(table_id, table.chunks, schema_version, flush_snapshot, ended),
                    head,
                );
            },
            RowModel::InlineDrop { table_id } => {
                let table = scanned(scans, table_id);
                assert(all_spare_head(drop_writes(table, table_id), head));
            },
            _ => {},
        }
        both_spare_head(inline_writes(front, scans), inline_op_writes(front, ops.last(), scans), head);
    }
}

proof fn removals_spare_head(entries: Seq<IndexEntryModel>, head: u64)
    ensures
        all_spare_head(removals(entries), head),
    decreases entries.len(),
{
    if entries.len() > 0 {
        removals_spare_head(entries.drop_last(), head);
    }
}

proof fn additions_spare_head(
    entries: Seq<IndexEntryModel>,
    freed: Set<(u64, Seq<u8>)>,
    held: Map<(u64, Seq<u8>), Seq<u8>>,
    head: u64,
)
    requires
        additions(entries, freed, held) is Ok,
    ensures
        all_spare_head(additions(entries, freed, held)->Ok_0.writes, head),
    decreases entries.len(),
{
    if entries.len() > 0 {
        additions_spare_head(entries.drop_last(), freed, held, head);
        let before = additions(entries.drop_last(), freed, held)->Ok_0.writes;
        let now = additions(entries, freed, held)->Ok_0.writes;
        assert forall|i: int| 0 <= i < now.len() implies spares_head(#[trigger] now[i], head) by {
            if i < before.len() {
                assert(now[i] == before[i]);
            }
        }
    }
}

proof fn upkeep_spares_head(
    m: CatalogModel,
    ops: Seq<RowModel>,
    reads: ReadsModel,
    data_prefix: Seq<char>,
    head: u64,
)
    requires
        upkeep_writes(m, ops, reads, data_prefix) is Ok,
    ensures
        all_spare_head(upkeep_writes(m, ops, reads, data_prefix)->Ok_0, head),
{
    let entries = changed_entries(m, ops, reads, data_prefix)->Ok_0;
    if entries.len() > 0 {
        removals_spare_head(entries, head);
        additions_spare_head(entries, freed(entries), reads.held, head);
        both_spare_head(
            removals(entries),
            additions(entries, freed(entries), reads.held)->Ok_0.writes,
            head,
        );
    }
}

/// A commit without the row of a snapshot leads to the head that was there
/// before: it writes neither the head nor a snapshot, and of snapshots it
/// deletes only others than the head's.
pub proof fn maintenance_keeps_head(
    base: CatalogModel,
    ops: Seq<RowModel>,
    scans: Map<u64, InlineTableModel>,
    reads: ReadsModel,
    data_prefix: Seq<char>,
)
    requires
        !mints(ops),
        committed(base, ops, scans, reads, data_prefix) is Ok,
    ensures
        committed(base, ops, scans, reads, data_prefix)->Ok_0.0 == base.snapshot.snapshot_id,
        all_spare_head(
            committed(base, ops, scans, reads, data_prefix)->Ok_0.1,
            base.snapshot.snapshot_id,
        ),
{
    let head = base.snapshot.snapshot_id;
    let w = reclaimed(base, ops)->Ok_0;
    let more = upkeep_writes(base, ops, reads, data_prefix)->Ok_0;
    reclaims_spare_head(base, ops);
    diff_spares_head(base, w.state, head, head);
    inline_spares_head(ops, scans, head);
    upkeep_spares_head(base, ops, reads, data_prefix, head);
    let a = diff(base, w.state, head) + w.direct;
    both_spare_head(diff(base, w.state, head), w.direct, head);
    both_spare_head(a, inline_writes(ops, scans), head);
    both_spare_head(a + inline_writes(ops, scans), more, head);
}

proof fn translation_spares_head(base: CatalogModel, ops: Seq<RowModel>)
    requires
        translated(base, ops) is Ok,
    ensures
        all_spare_head(translated(base, ops)->Ok_0.1, base.snapshot.snapshot_id),
{
    let head = base.snapshot.snapshot_id;
    let id = translated(base, ops)->Ok_0.0.snapshot_id;
    let children = crate::children::children_of(ops)->Ok_0;
    let start = WorkModel { state: base, children, direct: Seq::empty() };
    let first = rounded(base, start, ops, id, Round::Ends)->Ok_0;
    let second = rounded(base, first, ops, id, Round::Inserts)->Ok_0;
    let third = rounded(base, second, ops, id, Round::Begins)->Ok_0;
    rounds_spare_head(base, start, ops, id, Round::Ends, head);
    rounds_spare_head(base, first, ops, id, Round::Inserts, head);
    rounds_spare_head(base, second, ops, id, Round::Begins, head);
    diff_spares_head(base, floated(third.state), id, head);
    both_spare_head(diff(base, floated(third.state), id), third.direct, head);
}

/// Whether no write deletes the snapshot at the head.
pub open spec fn keep_head_snapshot(writes: Seq<WriteModel>, head: u64) -> bool {
    forall|i: int|
        0 <= i < writes.len() ==> #[trigger] writes[i] != deletion(
            KeyModel::Snapshot { snapshot_id: head },
        )
}

proof fn parts_keep_head_snapshot(
    a: Seq<WriteModel>,
    puts: Seq<WriteModel>,
    b: Seq<WriteModel>,
    c: Seq<WriteModel>,
    head: u64,
)
    requires
        all_spare_head(a, head),
        forall|i: int| 0 <= i < puts.len() ==> (#[trigger] puts[i]).1 is Some,
        all_spare_head(b, head),
        all_spare_head(c, head),
    ensures
        keep_head_snapshot(a + puts + b + c, head),
{
    let all = a + puts + b + c;
    assert forall|i: int| 0 <= i < all.len() implies #[trigger] all[i] != deletion(
        KeyModel::Snapshot { snapshot_id: head },
    ) by {
        if i < a.len() {
            assert(all[i] == a[i]);
            assert(spares_head(a[i], head));
        } else if i < a.len() + puts.len() {
            assert(all[i] == puts[i - a.len()]);
        } else if i < a.len() + puts.len() + b.len() {
            assert(all[i] == b[i - a.len() - puts.len()]);
            assert(spares_head(b[i - a.len() - puts.len()], head));
        } else {
            assert(all[i] == c[i - a.len() - puts.len() - b.len()]);
            assert(spares_head(c[i - a.len() - puts.len() - b.len()], head));
        }
    }
}

/// The catalog's part of a commit: writes that spare the head, then puts.
proof fn catalog_part_splits(base: CatalogModel, ops: Seq<RowModel>) -> (r: (
    Seq<WriteModel>,
    Seq<WriteModel>,
))
    requires
        catalog_part(base, ops) is Ok,
    ensures
        catalog_part(base, ops)->Ok_0.1 == r.0 + r.1,
        all_spare_head(r.0, base.snapshot.snapshot_id),
        forall|i: int| 0 <= i < r.1.len() ==> (#[trigger] r.1[i]).1 is Some,
{
    let head = base.snapshot.snapshot_id;
    let part = catalog_part(base, ops)->Ok_0.1;
    if mints(ops) {
        let a = translated(base, ops)->Ok_0.1;
        translation_spares_head(base, ops);
        let puts = part.skip(a.len() as int);
        assert(part.len() == a.len() + 2);
        assert(part =~= a + puts);
        assert(puts[0] == part[a.len() as int]);
        assert(puts[1] == part[(a.len() + 1) as int]);
        (a, puts)
    } else {
        let w = reclaimed(base, ops)->Ok_0;
        reclaims_spare_head(base, ops);
        diff_spares_head(base, w.state, head, head);
        both_spare_head(diff(base, w.state, head), w.direct, head);
        assert(part =~= part + Seq::<WriteModel>::empty());
        (part, Seq::empty())
    }
}

/// No commit of staged rows deletes the snapshot at the head.
pub proof fn head_snapshot_stays(
    base: CatalogModel,
    ops: Seq<RowModel>,
    scans: Map<u64, InlineTableModel>,
    reads: ReadsModel,
    data_prefix: Seq<char>,
)
    requires
        committed(base, ops, scans, reads, data_prefix) is Ok,
    ensures
        keep_head_snapshot(
            committed(base, ops, scans, reads, data_prefix)->Ok_0.1,
            base.snapshot.snapshot_id,
        ),
{
    let head = base.snapshot.snapshot_id;
    let (a, puts) = catalog_part_splits(base, ops);
    inline_spares_head(ops, scans, head);
    upkeep_spares_head(base, ops, reads, data_prefix, head);
    let more = upkeep_writes(base, ops, reads, data_prefix)->Ok_0;
    parts_keep_head_snapshot(a, puts, inline_writes(ops, scans), more, head);
}

// ---------------------------------------------------------------------------
// The order of rows
// ---------------------------------------------------------------------------

/// The rows that are applied in a round, in their order.
pub open spec fn of_round(ops: Seq<RowModel>, round: Round) -> Seq<RowModel>
    decreases ops.len(),
{
    if ops.len() == 0 {
        Seq::empty()
    } else if in_round(ops.last(), round) {
        of_round(ops.drop_last(), round).push(ops.last())
    } else {
        of_round(ops.drop_last(), round)
    }
}

/// A round goes by its own rows alone.
proof fn rounds_go_by_their_rows(
    base: CatalogModel,
    w: WorkModel,
    ops: Seq<RowModel>,
    new_id: u64,
    round: Round,
)
    ensures
        rounded(base, w, ops, new_id, round) == rounded(
            base,
            w,
            of_round(ops, round),
            new_id,
            round,
        ),
    decreases ops.len(),
{
    if ops.len() > 0 {
        let front = of_round(ops.drop_last(), round);
        rounds_go_by_their_rows(base, w, ops.drop_last(), new_id, round);
        if in_round(ops.last(), round) {
            assert(front.push(ops.last()).drop_last() =~= front);
        }
    }
}

/// The row of a snapshot is sought among the inserts.
proof fn last_inserts_are_inserts(ops: Seq<RowModel>, table: TableKind)
    ensures
        last_insert(ops, table) == last_insert(of_round(ops, Round::Inserts), table),
    decreases ops.len(),
{
    if ops.len() > 0 {
        let front = of_round(ops.drop_last(), Round::Inserts);
        last_inserts_are_inserts(ops.drop_last(), table);
        if in_round(ops.last(), Round::Inserts) {
            assert(front.push(ops.last()).drop_last() =~= front);
        }
    }
}

/// Schema versions come from inserts.
proof fn versions_are_inserts(ops: Seq<RowModel>, snapshot_id: u64, schema_version: u64)
    ensures
        reshaped_tables(ops, snapshot_id, schema_version) == reshaped_tables(
            of_round(ops, Round::Inserts),
            snapshot_id,
            schema_version,
        ),
    decreases ops.len(),
{
    if ops.len() > 0 {
        let front = of_round(ops.drop_last(), Round::Inserts);
        versions_are_inserts(ops.drop_last(), snapshot_id, schema_version);
        if in_round(ops.last(), Round::Inserts) {
            assert(front.push(ops.last()).drop_last() =~= front);
        }
    }
}

/// Child rows are inserts.
proof fn children_are_inserts(ops: Seq<RowModel>)
    ensures
        children_of(ops) == children_of(of_round(ops, Round::Inserts)),
    decreases ops.len(),
{
    if ops.len() > 0 {
        let front = of_round(ops.drop_last(), Round::Inserts);
        children_are_inserts(ops.drop_last());
        if in_round(ops.last(), Round::Inserts) {
            assert(front.push(ops.last()).drop_last() =~= front);
        }
    }
}

/// The snapshot of a commit comes from its inserts.
proof fn snapshots_are_inserts(ops: Seq<RowModel>)
    ensures
        snapshot_of(ops) == snapshot_of(of_round(ops, Round::Inserts)),
{
    last_inserts_are_inserts(ops, TableKind::Snapshot);
    last_inserts_are_inserts(ops, TableKind::SnapshotChanges);
    if last_insert(ops, TableKind::Snapshot) is Some {
        let s = last_insert(ops, TableKind::Snapshot)->0;
        versions_are_inserts(ops, number(s[0]), number(s[2]));
    }
}

/// Only the order of rows within a round matters: a commit is the same whether
/// the row that ends a version comes before or behind the row that begins the
/// next one.
pub proof fn rounds_hide_the_order_of_rows(base: CatalogModel, a: Seq<RowModel>, b: Seq<RowModel>)
    requires
        forall|round: Round| #[trigger] of_round(a, round) == of_round(b, round),
    ensures
        mints(a) == mints(b),
        translated(base, a) == translated(base, b),
{
    last_inserts_are_inserts(a, TableKind::Snapshot);
    last_inserts_are_inserts(b, TableKind::Snapshot);
    snapshots_are_inserts(a);
    snapshots_are_inserts(b);
    children_are_inserts(a);
    children_are_inserts(b);
    assert(of_round(a, Round::Inserts) == of_round(b, Round::Inserts));
    assert(of_round(a, Round::Ends) == of_round(b, Round::Ends));
    assert(of_round(a, Round::Begins) == of_round(b, Round::Begins));
    if snapshot_of(a) is Ok && children_of(a) is Ok {
        let id = snapshot_of(a)->Ok_0.snapshot_id;
        let w = WorkModel { state: base, children: children_of(a)->Ok_0, direct: Seq::empty() };
        rounds_go_by_their_rows(base, w, a, id, Round::Ends);
        rounds_go_by_their_rows(base, w, b, id, Round::Ends);
        let first = rounded(base, w, a, id, Round::Ends);
        if first is Ok {
            rounds_go_by_their_rows(base, first->Ok_0, a, id, Round::Inserts);
            rounds_go_by_their_rows(base, first->Ok_0, b, id, Round::Inserts);
            let second = rounded(base, first->Ok_0, a, id, Round::Inserts);
            if second is Ok {
                rounds_go_by_their_rows(base, second->Ok_0, a, id, Round::Begins);
                rounds_go_by_their_rows(base, second->Ok_0, b, id, Round::Begins);
            }
        }
    }
}

} // verus!
