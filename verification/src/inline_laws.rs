//! What operations on inlined rows leave in the store, record by record.
use crate::deletes::deletion;
use crate::inline::{
    chunk_holds, chunk_place, chunks_at, drained_rows, drop_writes, emptied_tables, ended_rows,
    ends_of_rows, flushed_chunks, flushed_ends, inline_op_writes, inline_writes, ChunkPlace,
    InlineTableModel,
};
use crate::keys::{
    after, after_both, InlineKey, InlineOperation, KeyModel, StoredModel, WriteModel,
};
use crate::records::{
    InlineChunkModel, InlineFileDeleteModel, InlineInlineDeleteModel, InlineSchemaModel,
};
use crate::rows::RowModel;
use vstd::prelude::*;

verus! {

/// What the store holds under a key after a commit's operations on inlined rows.
pub open spec fn stored_after(
    ops: Seq<RowModel>,
    scans: Map<u64, InlineTableModel>,
    key: KeyModel,
    before: Option<StoredModel>,
) -> Option<StoredModel> {
    after(inline_writes(ops, scans), key, before)
}

/// The key of an inlined record.
pub open spec fn record_key(op: InlineOperation) -> KeyModel {
    KeyModel::Inline(InlineKey::Live(op))
}

proof fn last_operations_come_last(
    ops: Seq<RowModel>,
    op: RowModel,
    scans: Map<u64, InlineTableModel>,
    key: KeyModel,
    before: Option<StoredModel>,
)
    ensures
        inline_writes(ops.push(op), scans) == inline_writes(ops, scans) + inline_op_writes(
            ops,
            op,
            scans,
        ),
        stored_after(ops.push(op), scans, key, before) == after(
            inline_op_writes(ops, op, scans),
            key,
            stored_after(ops, scans, key, before),
        ),
{
    assert(ops.push(op).drop_last() =~= ops);
    after_both(inline_writes(ops, scans), inline_op_writes(ops, op, scans), key, before);
}

/// A schema of inlined rows is stored under its table and version, and nothing
/// else changes.
pub proof fn schemas_are_stored(
    ops: Seq<RowModel>,
    scans: Map<u64, InlineTableModel>,
    table_id: u64,
    schema_version: u64,
    arrow_schema: Seq<u8>,
    key: KeyModel,
    before: Option<StoredModel>,
)
    ensures
        stored_after(
            ops.push(RowModel::InlineSchema { table_id, schema_version, arrow_schema }),
            scans,
            key,
            before,
        ) == (if key == (KeyModel::Inline(InlineKey::Schema { table_id, schema_version })) {
            Some(StoredModel::InlineSchema(InlineSchemaModel { arrow_schema }))
        } else {
            stored_after(ops, scans, key, before)
        }),
{
    last_operations_come_last(ops, RowModel::InlineSchema { table_id, schema_version, arrow_schema }, scans, key, before);
    reveal_with_fuel(after, 2);
}

/// Dropping a schema of inlined rows removes it, and nothing else changes.
pub proof fn schema_drops_remove_one(
    ops: Seq<RowModel>,
    scans: Map<u64, InlineTableModel>,
    table_id: u64,
    schema_version: u64,
    key: KeyModel,
    before: Option<StoredModel>,
)
    ensures
        stored_after(
            ops.push(RowModel::InlineSchemaDrop { table_id, schema_version }),
            scans,
            key,
            before,
        ) == (if key == (KeyModel::Inline(InlineKey::Schema { table_id, schema_version })) {
            None
        } else {
            stored_after(ops, scans, key, before)
        }),
{
    last_operations_come_last(ops, RowModel::InlineSchemaDrop { table_id, schema_version }, scans, key, before);
    reveal_with_fuel(after, 2);
}

/// The end of an inlined row is stored under its table and row, and nothing else
/// changes.
pub proof fn row_ends_are_stored(
    ops: Seq<RowModel>,
    scans: Map<u64, InlineTableModel>,
    table_id: u64,
    row_id: u64,
    end_snapshot: u64,
    key: KeyModel,
    before: Option<StoredModel>,
)
    ensures
        stored_after(
            ops.push(RowModel::InlineInlineDelete { table_id, row_id, end_snapshot }),
            scans,
            key,
            before,
        ) == (if key == record_key(InlineOperation::InlineDelete { table_id, row_id }) {
            Some(StoredModel::InlineInlineDelete(InlineInlineDeleteModel { end_snapshot }))
        } else {
            stored_after(ops, scans, key, before)
        }),
{
    last_operations_come_last(ops, RowModel::InlineInlineDelete { table_id, row_id, end_snapshot }, scans, key, before);
    reveal_with_fuel(after, 2);
}

/// The deletion of a row of a data file is stored under its table, file and row,
/// and nothing else changes.
pub proof fn file_row_deletes_are_stored(
    ops: Seq<RowModel>,
    scans: Map<u64, InlineTableModel>,
    table_id: u64,
    data_file_id: u64,
    row_id: u64,
    begin_snapshot: u64,
    key: KeyModel,
    before: Option<StoredModel>,
)
    ensures
        stored_after(
            ops.push(RowModel::InlineFileDelete { table_id, data_file_id, row_id, begin_snapshot }),
            scans,
            key,
            before,
        ) == (if key == record_key(InlineOperation::FileDelete { table_id, data_file_id, row_id }) {
            Some(StoredModel::InlineFileDelete(InlineFileDeleteModel { begin_snapshot }))
        } else {
            stored_after(ops, scans, key, before)
        }),
{
    last_operations_come_last(ops, RowModel::InlineFileDelete { table_id, data_file_id, row_id, begin_snapshot }, scans, key, before);
    reveal_with_fuel(after, 2);
}

/// Taking back the deletion of a row of a data file removes its record, and
/// nothing else changes.
pub proof fn file_row_deletes_are_taken_back(
    ops: Seq<RowModel>,
    scans: Map<u64, InlineTableModel>,
    table_id: u64,
    data_file_id: u64,
    row_id: u64,
    key: KeyModel,
    before: Option<StoredModel>,
)
    ensures
        stored_after(
            ops.push(RowModel::InlineFileDeleteRemove { table_id, data_file_id, row_id }),
            scans,
            key,
            before,
        ) == (if key == record_key(InlineOperation::FileDelete { table_id, data_file_id, row_id }) {
            None
        } else {
            stored_after(ops, scans, key, before)
        }),
{
    last_operations_come_last(ops, RowModel::InlineFileDeleteRemove { table_id, data_file_id, row_id }, scans, key, before);
    reveal_with_fuel(after, 2);
}

/// An operation on the rows of the catalog changes no inlined record.
pub proof fn catalog_rows_leave_inlined_rows(
    ops: Seq<RowModel>,
    scans: Map<u64, InlineTableModel>,
    op: RowModel,
    key: KeyModel,
    before: Option<StoredModel>,
)
    requires
        op is Insert || op is Delete || op is UpdateSetEnd || op is UpdateSetBegin,
    ensures
        stored_after(ops.push(op), scans, key, before) == stored_after(ops, scans, key, before),
{
    last_operations_come_last(ops, op, scans, key, before);
}

// ---------------------------------------------------------------------------
// Chunks
// ---------------------------------------------------------------------------

proof fn chunks_are_operations(ops: Seq<RowModel>, place: ChunkPlace)
    ensures
        chunks_at(ops, place) <= ops.len(),
    decreases ops.len(),
{
    if ops.len() > 0 {
        chunks_are_operations(ops.drop_last(), place);
    }
}

/// No operation so far stored a chunk under the next number of a place.
proof fn next_numbers_are_fresh(
    ops: Seq<RowModel>,
    scans: Map<u64, InlineTableModel>,
    place: ChunkPlace,
    n: u64,
)
    requires
        ops.len() <= u64::MAX,
        chunks_at(ops, place) <= n,
    ensures
        forall|i: int|
            0 <= i < inline_writes(ops, scans).len() && (#[trigger] inline_writes(
                ops,
                scans,
            )[i]).1 is Some ==> inline_writes(ops, scans)[i].0 != record_key(
                InlineOperation::Insert {
                    table_id: place.0.0,
                    schema_version: place.0.1,
                    begin_snapshot: place.1,
                    chunk_seq: n,
                },
            ),
    decreases ops.len(),
{
    if ops.len() > 0 {
        let front = ops.drop_last();
        let op = ops.last();
        next_numbers_are_fresh(front, scans, place, n);
        chunks_are_operations(front, place);
        let a = inline_writes(front, scans);
        let b = inline_op_writes(front, op, scans);
        let all = inline_writes(ops, scans);
        removals_only_remove(front, op, scans);
        assert forall|i: int| 0 <= i < all.len() && (#[trigger] all[i]).1 is Some implies all[i].0
            != record_key(
            InlineOperation::Insert {
                table_id: place.0.0,
                schema_version: place.0.1,
                begin_snapshot: place.1,
                chunk_seq: n,
            },
        ) by {
            if i < a.len() {
                assert(all[i] == a[i]);
            } else {
                assert(all[i] == b[i - a.len()]);
            }
        }
    }
}

/// Flushes and drops store nothing.
proof fn removals_only_remove(ops: Seq<RowModel>, op: RowModel, scans: Map<u64, InlineTableModel>)
    ensures
        op is InlineFlushDelete || op is InlineDrop ==> forall|i: int|
            0 <= i < inline_op_writes(ops, op, scans).len() ==> (#[trigger] inline_op_writes(
                ops,
                op,
                scans,
            )[i]).1 is None,
{
    match op {
        RowModel::InlineFlushDelete { table_id, schema_version, flush_snapshot } => {
            let table = crate::inline::scanned(scans, table_id);
            chunk_removals(table.chunks, schema_version, flush_snapshot, record_key(InlineOperation::InlineDelete { table_id, row_id: 0 }));
            end_removals(
                table_id,
                table.chunks,
                schema_version,
                flush_snapshot,
                ended_rows(table.inline_deletes),
                record_key(InlineOperation::InlineDelete { table_id, row_id: 0 }),
            );
        },
        _ => {},
    }
}

/// A chunk of inlined rows is stored as it came, with its own range of rows,
/// under its place and a number that no chunk of the commit has; and nothing
/// else changes.
pub proof fn chunks_are_stored(
    ops: Seq<RowModel>,
    scans: Map<u64, InlineTableModel>,
    table_id: u64,
    schema_version: u64,
    begin_snapshot: u64,
    row_id_start: u64,
    row_count: u64,
    arrow_body: Seq<u8>,
)
    requires
        ops.len() <= u64::MAX,
    ensures
        ({
            let op = RowModel::InlineInsert {
                table_id,
                schema_version,
                begin_snapshot,
                row_id_start,
                row_count,
                arrow_body,
            };
            exists|chunk_seq: u64|
                {
                    let at = #[trigger] record_key(
                        InlineOperation::Insert {
                            table_id,
                            schema_version,
                            begin_snapshot,
                            chunk_seq,
                        },
                    );
                    &&& forall|key: KeyModel, before: Option<StoredModel>| #[trigger]
                        stored_after(ops.push(op), scans, key, before) == (if key == at {
                            Some(
                                StoredModel::InlineChunk(
                                    InlineChunkModel {
                                        body: arrow_body,
                                        row_id_start,
                                        row_count,
                                        data_file_id: None,
                                    },
                                ),
                            )
                        } else {
                            stored_after(ops, scans, key, before)
                        })
                    &&& forall|i: int|
                        0 <= i < inline_writes(ops, scans).len() && (#[trigger] inline_writes(
                            ops,
                            scans,
                        )[i]).1 is Some ==> inline_writes(ops, scans)[i].0 != at
                }
        }),
{
    let op = RowModel::InlineInsert {
        table_id,
        schema_version,
        begin_snapshot,
        row_id_start,
        row_count,
        arrow_body,
    };
    let place = ((table_id, schema_version), begin_snapshot);
    chunks_are_operations(ops, place);
    let chunk_seq = chunks_at(ops, place) as u64;
    let at = record_key(
        InlineOperation::Insert { table_id, schema_version, begin_snapshot, chunk_seq },
    );
    next_numbers_are_fresh(ops, scans, place, chunk_seq);
    assert forall|key: KeyModel, before: Option<StoredModel>| #[trigger]
        stored_after(ops.push(op), scans, key, before) == (if key == at {
            Some(
                StoredModel::InlineChunk(
                    InlineChunkModel { body: arrow_body, row_id_start, row_count, data_file_id: None },
                ),
            )
        } else {
            stored_after(ops, scans, key, before)
        }) by {
        last_operations_come_last(ops, op, scans, key, before);
        reveal_with_fuel(after, 2);
    }
}

/// Whether a write stores a chunk that holds a row.
pub open spec fn stores_row(write: WriteModel, row_id: u64) -> bool {
    match write.1 {
        Some(StoredModel::InlineChunk(chunk)) => chunk_holds(chunk, row_id),
        _ => false,
    }
}

/// Whether an operation inserts an inlined row.
pub open spec fn inserts_row(op: RowModel, row_id: u64) -> bool {
    match op {
        RowModel::InlineInsert { row_id_start, row_count, .. } => row_id_start <= row_id
            < row_id_start + row_count,
        _ => false,
    }
}

/// Whether the rows of an insert have ids.
pub open spec fn rows_have_ids(op: RowModel) -> bool {
    match op {
        RowModel::InlineInsert { row_id_start, row_count, .. } => row_id_start + row_count
            <= u64::MAX,
        _ => true,
    }
}

/// Where the write of an operation stands among a commit's.
proof fn inserts_have_a_write(ops: Seq<RowModel>, scans: Map<u64, InlineTableModel>, i: int) -> (k:
    int)
    requires
        0 <= i < ops.len(),
        ops[i] is InlineInsert,
    ensures
        inline_writes(ops.take(i), scans).len() == k,
        0 <= k < inline_writes(ops.take(i + 1), scans).len(),
        inline_writes(ops.take(i + 1), scans).len() <= inline_writes(ops, scans).len(),
        inline_writes(ops, scans)[k] == inline_op_writes(ops.take(i), ops[i], scans)[0],
    decreases ops.len(),
{
    if i == ops.len() - 1 {
        assert(ops.take(i) =~= ops.drop_last());
        assert(ops.take(i + 1) =~= ops);
        inline_writes(ops.take(i), scans).len() as int
    } else {
        let front = ops.drop_last();
        let k = inserts_have_a_write(front, scans, i);
        assert(front.take(i) =~= ops.take(i));
        assert(front.take(i + 1) =~= ops.take(i + 1));
        k
    }
}

/// Every insert of a commit stores a chunk that holds exactly the rows it
/// inserts; and chunks of different inserts have different keys, so that inserts
/// of different rows share none.
pub proof fn inserts_share_no_rows(
    ops: Seq<RowModel>,
    scans: Map<u64, InlineTableModel>,
    i: int,
    j: int,
) -> (at: (int, int))
    requires
        ops.len() <= u64::MAX,
        0 <= i < j < ops.len(),
        ops[i] is InlineInsert,
        ops[j] is InlineInsert,
        rows_have_ids(ops[i]),
        rows_have_ids(ops[j]),
    ensures
        0 <= at.0 < at.1 < inline_writes(ops, scans).len(),
        inline_writes(ops, scans)[at.0].0 != inline_writes(ops, scans)[at.1].0,
        forall|r: u64| #[trigger]
            stores_row(inline_writes(ops, scans)[at.0], r) == inserts_row(ops[i], r),
        forall|r: u64| #[trigger]
            stores_row(inline_writes(ops, scans)[at.1], r) == inserts_row(ops[j], r),
        (forall|r: u64| !(#[trigger] inserts_row(ops[i], r) && inserts_row(ops[j], r)))
            ==> forall|r: u64|
            !(#[trigger] stores_row(inline_writes(ops, scans)[at.0], r) && stores_row(
                inline_writes(ops, scans)[at.1],
                r,
            )),
{
    let a = inserts_have_a_write(ops, scans, i);
    let b = inserts_have_a_write(ops, scans, j);
    let all = inline_writes(ops, scans);
    let early = ops.take(j);
    assert(early[i] == ops[i]);
    assert(early.take(i) =~= ops.take(i));
    assert(early.take(i + 1) =~= ops.take(i + 1));
    let c = inserts_have_a_write(early, scans, i);
    assert(c == a);
    assert(a < b);
    chunks_are_operations(ops.take(i), chunk_place(ops[i])->0);
    chunks_are_operations(ops.take(j), chunk_place(ops[j])->0);
    if chunk_place(ops[i]) == chunk_place(ops[j]) {
        crate::inline::chunk_numbers_differ(ops, i, j);
    }
    assert forall|r: u64| #[trigger] stores_row(all[a], r) == inserts_row(ops[i], r) by {}
    assert forall|r: u64| #[trigger] stores_row(all[b], r) == inserts_row(ops[j], r) by {}
    assert forall|r: u64|
        (forall|q: u64| !(#[trigger] inserts_row(ops[i], q) && inserts_row(ops[j], q))) implies !(
    #[trigger] stores_row(all[a], r) && stores_row(all[b], r)) by {
        assert(!(inserts_row(ops[i], r) && inserts_row(ops[j], r)));
    }
    (a, b)
}

// ---------------------------------------------------------------------------
// Flushes and drops
// ---------------------------------------------------------------------------

/// Whether some write is of a key.
pub open spec fn names_key(writes: Seq<WriteModel>, key: KeyModel) -> bool {
    exists|i: int| 0 <= i < writes.len() && (#[trigger] writes[i]).0 == key
}

proof fn removals_remove(writes: Seq<WriteModel>, key: KeyModel, before: Option<StoredModel>)
    requires
        forall|i: int| 0 <= i < writes.len() ==> (#[trigger] writes[i]).1 is None,
    ensures
        after(writes, key, before) == (if names_key(writes, key) {
            None
        } else {
            before
        }),
    decreases writes.len(),
{
    if writes.len() > 0 {
        let front = writes.drop_last();
        let last = writes.len() - 1;
        assert forall|i: int| 0 <= i < front.len() implies (#[trigger] front[i]).1 is None by {
            assert(front[i] == writes[i]);
        }
        removals_remove(front, key, before);
        assert(writes[last] == writes.last());
        if writes.last().0 == key {
            assert(names_key(writes, key));
        } else if names_key(writes, key) {
            let i = choose|i: int| 0 <= i < writes.len() && (#[trigger] writes[i]).0 == key;
            assert(front[i] == writes[i]);
            assert(names_key(front, key));
        } else if names_key(front, key) {
            let i = choose|i: int| 0 <= i < front.len() && (#[trigger] front[i]).0 == key;
            assert(writes[i] == front[i]);
            assert(names_key(writes, key));
        }
    }
}

proof fn names_in_both(a: Seq<WriteModel>, b: Seq<WriteModel>, key: KeyModel)
    ensures
        names_key(a + b, key) == (names_key(a, key) || names_key(b, key)),
{
    if names_key(a, key) {
        let i = choose|i: int| 0 <= i < a.len() && (#[trigger] a[i]).0 == key;
        assert((a + b)[i] == a[i]);
    }
    if names_key(b, key) {
        let i = choose|i: int| 0 <= i < b.len() && (#[trigger] b[i]).0 == key;
        assert((a + b)[a.len() + i] == b[i]);
    }
    if names_key(a + b, key) {
        let i = choose|i: int| 0 <= i < (a + b).len() && (#[trigger] (a + b)[i]).0 == key;
        if i < a.len() {
            assert(a[i] == (a + b)[i]);
        } else {
            assert(b[i - a.len()] == (a + b)[i]);
        }
    }
}

/// Whether a key is that of a chunk that a flush takes: one of the schema
/// version that began at or before the snapshot.
pub open spec fn taken(op: InlineOperation, schema_version: u64, flush_snapshot: u64) -> bool {
    match op {
        InlineOperation::Insert { schema_version: v, begin_snapshot, .. } => v == schema_version
            && begin_snapshot <= flush_snapshot,
        _ => false,
    }
}

/// Whether a flush takes a chunk under a key.
pub open spec fn takes_chunk(
    chunks: Seq<(InlineOperation, InlineChunkModel)>,
    schema_version: u64,
    flush_snapshot: u64,
    key: KeyModel,
) -> bool {
    exists|i: int|
        0 <= i < chunks.len() && taken((#[trigger] chunks[i]).0, schema_version, flush_snapshot)
            && record_key(chunks[i].0) == key
}

/// Whether a flush takes a chunk that holds a row.
pub open spec fn takes_row(
    chunks: Seq<(InlineOperation, InlineChunkModel)>,
    schema_version: u64,
    flush_snapshot: u64,
    row_id: u64,
) -> bool {
    exists|i: int|
        0 <= i < chunks.len() && taken((#[trigger] chunks[i]).0, schema_version, flush_snapshot)
            && chunks[i].1.row_id_start <= row_id && row_id < chunks[i].1.row_id_start
            + chunks[i].1.row_count
}

proof fn chunk_removals(
    chunks: Seq<(InlineOperation, InlineChunkModel)>,
    schema_version: u64,
    flush_snapshot: u64,
    key: KeyModel,
)
    ensures
        forall|i: int|
            0 <= i < flushed_chunks(chunks, schema_version, flush_snapshot).len() ==> (
            #[trigger] flushed_chunks(chunks, schema_version, flush_snapshot)[i]).1 is None,
        names_key(flushed_chunks(chunks, schema_version, flush_snapshot), key) == takes_chunk(
            chunks,
            schema_version,
            flush_snapshot,
            key,
        ),
    decreases chunks.len(),
{
    let all = flushed_chunks(chunks, schema_version, flush_snapshot);
    if chunks.len() > 0 {
        let front = chunks.drop_last();
        chunk_removals(front, schema_version, flush_snapshot, key);
        let w = flushed_chunks(front, schema_version, flush_snapshot);
        let last = chunks.len() - 1;
        assert(chunks[last] == chunks.last());
        if crate::inline::is_flushed(chunks.last(), schema_version, flush_snapshot) {
            let one = seq![deletion(record_key(chunks.last().0))];
            assert(all =~= w + one);
            names_in_both(w, one, key);
            assert(one[0].0 == record_key(chunks.last().0));
            assert(names_key(one, key) == (record_key(chunks.last().0) == key)) by {
                if record_key(chunks.last().0) == key {
                    assert(one[0].0 == key);
                }
            }
        } else {
            assert(all == w);
        }
        if takes_chunk(chunks, schema_version, flush_snapshot, key) {
            let i = choose|i: int|
                0 <= i < chunks.len() && taken(
                    (#[trigger] chunks[i]).0,
                    schema_version,
                    flush_snapshot,
                ) && record_key(chunks[i].0) == key;
            if i < last {
                assert(front[i] == chunks[i]);
                assert(takes_chunk(front, schema_version, flush_snapshot, key));
            }
        }
        if takes_chunk(front, schema_version, flush_snapshot, key) {
            let i = choose|i: int|
                0 <= i < front.len() && taken(
                    (#[trigger] front[i]).0,
                    schema_version,
                    flush_snapshot,
                ) && record_key(front[i].0) == key;
            assert(chunks[i] == front[i]);
            assert(takes_chunk(chunks, schema_version, flush_snapshot, key));
        }
    }
}

/// Whether a key is the end of a row of a table among some.
pub open spec fn ends_row(table_id: u64, from: int, to: int, ended: Set<u64>, key: KeyModel) -> bool {
    exists|row_id: u64|
        from <= row_id < to && #[trigger] ended.contains(row_id) && key == record_key(
            InlineOperation::InlineDelete { table_id, row_id },
        )
}

proof fn row_removals(table_id: u64, from: int, to: int, ended: Set<u64>, key: KeyModel)
    requires
        0 <= from,
        to <= u64::MAX,
    ensures
        forall|i: int|
            0 <= i < ends_of_rows(table_id, from, to, ended).len() ==> (#[trigger] ends_of_rows(
                table_id,
                from,
                to,
                ended,
            )[i]).1 is None,
        names_key(ends_of_rows(table_id, from, to, ended), key) == ends_row(
            table_id,
            from,
            to,
            ended,
            key,
        ),
    decreases to - from,
{
    let all = ends_of_rows(table_id, from, to, ended);
    if from < to {
        row_removals(table_id, from, to - 1, ended, key);
        let w = ends_of_rows(table_id, from, to - 1, ended);
        let r = (to - 1) as u64;
        let at = record_key(InlineOperation::InlineDelete { table_id, row_id: r });
        if ended.contains(r) {
            let one = seq![deletion(at)];
            assert(all =~= w + one);
            names_in_both(w, one, key);
            assert(names_key(one, key) == (at == key)) by {
                if at == key {
                    assert(one[0].0 == key);
                }
            }
        } else {
            assert(all == w);
        }
        if ends_row(table_id, from, to, ended, key) {
            let q = choose|q: u64|
                from <= q < to && #[trigger] ended.contains(q) && key == record_key(
                    InlineOperation::InlineDelete { table_id, row_id: q },
                );
            if q < to - 1 {
                assert(ends_row(table_id, from, to - 1, ended, key));
            }
        }
        if ends_row(table_id, from, to - 1, ended, key) {
            let q = choose|q: u64|
                from <= q < to - 1 && #[trigger] ended.contains(q) && key == record_key(
                    InlineOperation::InlineDelete { table_id, row_id: q },
                );
            assert(ended.contains(q));
            assert(ends_row(table_id, from, to, ended, key));
        }
        if ended.contains(r) && at == key {
            assert(ends_row(table_id, from, to, ended, key));
        }
    }
}

/// Whether a flush takes a row, by the ids that its chunk has.
spec fn flushes_row(
    chunks: Seq<(InlineOperation, InlineChunkModel)>,
    schema_version: u64,
    flush_snapshot: u64,
    row_id: u64,
) -> bool {
    exists|i: int|
        0 <= i < chunks.len() && taken((#[trigger] chunks[i]).0, schema_version, flush_snapshot)
            && chunk_holds(chunks[i].1, row_id)
}

proof fn end_removals(
    table_id: u64,
    chunks: Seq<(InlineOperation, InlineChunkModel)>,
    schema_version: u64,
    flush_snapshot: u64,
    ended: Set<u64>,
    key: KeyModel,
)
    ensures
        forall|i: int|
            0 <= i < flushed_ends(
                table_id,
                chunks,
                schema_version,
                flush_snapshot,
                ended,
            ).len() ==> (#[trigger] flushed_ends(
                table_id,
                chunks,
                schema_version,
                flush_snapshot,
                ended,
            )[i]).1 is None,
        names_key(
            flushed_ends(table_id, chunks, schema_version, flush_snapshot, ended),
            key,
        ) <==> exists|r: u64| #[trigger]
            ended.contains(r) && flushes_row(chunks, schema_version, flush_snapshot, r) && key
                == record_key(InlineOperation::InlineDelete { table_id, row_id: r }),
    decreases chunks.len(),
{
    let all = flushed_ends(table_id, chunks, schema_version, flush_snapshot, ended);
    if chunks.len() > 0 {
        let front = chunks.drop_last();
        end_removals(table_id, front, schema_version, flush_snapshot, ended, key);
        let w = flushed_ends(table_id, front, schema_version, flush_snapshot, ended);
        let last = chunks.len() - 1;
        assert(chunks[last] == chunks.last());
        let from = chunks.last().1.row_id_start as int;
        let to = crate::inline::chunk_end(chunks.last().1) as int;
        row_removals(table_id, from, to, ended, key);
        if crate::inline::is_flushed(chunks.last(), schema_version, flush_snapshot) {
            let b = ends_of_rows(table_id, from, to, ended);
            assert(all == w + b);
            names_in_both(w, b, key);
            assert forall|i: int| 0 <= i < all.len() implies (#[trigger] all[i]).1 is None by {
                if i < w.len() {
                    assert(all[i] == w[i]);
                } else {
                    assert(all[i] == b[i - w.len()]);
                }
            }
        } else {
            assert(all == w);
        }
        assert forall|r: u64| flushes_row(front, schema_version, flush_snapshot, r) implies (
        #[trigger] flushes_row(chunks, schema_version, flush_snapshot, r)) by {
            let i = choose|i: int|
                0 <= i < front.len() && taken(
                    (#[trigger] front[i]).0,
                    schema_version,
                    flush_snapshot,
                ) && chunk_holds(front[i].1, r);
            assert(chunks[i] == front[i]);
        }
        assert forall|r: u64|
            (#[trigger] flushes_row(chunks, schema_version, flush_snapshot, r)) implies flushes_row(
            front,
            schema_version,
            flush_snapshot,
            r,
        ) || (taken(chunks.last().0, schema_version, flush_snapshot) && chunk_holds(
            chunks.last().1,
            r,
        )) by {
            let i = choose|i: int|
                0 <= i < chunks.len() && taken(
                    (#[trigger] chunks[i]).0,
                    schema_version,
                    flush_snapshot,
                ) && chunk_holds(chunks[i].1, r);
            if i < last {
                assert(front[i] == chunks[i]);
            }
        }
        if names_key(all, key) {
            if names_key(w, key) {
                let r = choose|r: u64| #[trigger]
                    ended.contains(r) && flushes_row(front, schema_version, flush_snapshot, r)
                        && key == record_key(
                        InlineOperation::InlineDelete { table_id, row_id: r },
                    );
                assert(ended.contains(r));
                assert(flushes_row(chunks, schema_version, flush_snapshot, r));
            } else {
                let r = choose|r: u64|
                    from <= r < to && #[trigger] ended.contains(r) && key == record_key(
                        InlineOperation::InlineDelete { table_id, row_id: r },
                    );
                assert(ended.contains(r));
                assert(taken(chunks[last].0, schema_version, flush_snapshot));
                assert(flushes_row(chunks, schema_version, flush_snapshot, r));
            }
        }
        if exists|r: u64| #[trigger]
            ended.contains(r) && flushes_row(chunks, schema_version, flush_snapshot, r) && key
                == record_key(InlineOperation::InlineDelete { table_id, row_id: r }) {
            let r = choose|r: u64| #[trigger]
                ended.contains(r) && flushes_row(chunks, schema_version, flush_snapshot, r) && key
                    == record_key(InlineOperation::InlineDelete { table_id, row_id: r });
            if flushes_row(front, schema_version, flush_snapshot, r) {
                assert(ended.contains(r));
            } else {
                assert(ended.contains(r));
                assert(ends_row(table_id, from, to, ended, key));
            }
        }
    }
}

/// Whether every chunk's rows have ids.
pub open spec fn chunks_have_ids(chunks: Seq<(InlineOperation, InlineChunkModel)>) -> bool {
    forall|i: int|
        0 <= i < chunks.len() ==> (#[trigger] chunks[i]).1.row_id_start + chunks[i].1.row_count
            <= u64::MAX
}

proof fn rows_are_taken_by_range(
    chunks: Seq<(InlineOperation, InlineChunkModel)>,
    schema_version: u64,
    flush_snapshot: u64,
    row_id: u64,
)
    requires
        chunks_have_ids(chunks),
    ensures
        flushes_row(chunks, schema_version, flush_snapshot, row_id) == takes_row(
            chunks,
            schema_version,
            flush_snapshot,
            row_id,
        ),
{
    if flushes_row(chunks, schema_version, flush_snapshot, row_id) {
        let i = choose|i: int|
            0 <= i < chunks.len() && taken(
                (#[trigger] chunks[i]).0,
                schema_version,
                flush_snapshot,
            ) && chunk_holds(chunks[i].1, row_id);
        assert(taken(chunks[i].0, schema_version, flush_snapshot));
    }
    if takes_row(chunks, schema_version, flush_snapshot, row_id) {
        let i = choose|i: int|
            0 <= i < chunks.len() && taken(
                (#[trigger] chunks[i]).0,
                schema_version,
                flush_snapshot,
            ) && chunks[i].1.row_id_start <= row_id && row_id < chunks[i].1.row_id_start
                + chunks[i].1.row_count;
        assert(taken(chunks[i].0, schema_version, flush_snapshot));
    }
}

/// A flush removes the chunks of its schema version that began at or before its
/// snapshot, and the ends of their rows, and nothing else changes.
pub proof fn flushes_remove_chunks_and_ends(
    ops: Seq<RowModel>,
    scans: Map<u64, InlineTableModel>,
    table_id: u64,
    schema_version: u64,
    flush_snapshot: u64,
    key: KeyModel,
    before: Option<StoredModel>,
)
    requires
        scans.contains_key(table_id),
        chunks_have_ids(scans[table_id].chunks),
    ensures
        stored_after(
            ops.push(RowModel::InlineFlushDelete { table_id, schema_version, flush_snapshot }),
            scans,
            key,
            before,
        ) == (if takes_chunk(scans[table_id].chunks, schema_version, flush_snapshot, key) || exists|
            i: int,
        |
            0 <= i < scans[table_id].inline_deletes.len() && takes_row(
                scans[table_id].chunks,
                schema_version,
                flush_snapshot,
                (#[trigger] scans[table_id].inline_deletes[i]).0,
            ) && key == record_key(
                InlineOperation::InlineDelete {
                    table_id,
                    row_id: scans[table_id].inline_deletes[i].0,
                },
            ) {
            None
        } else {
            stored_after(ops, scans, key, before)
        }),
        forall|r: u64| #[trigger]
            drained_rows(scans[table_id].chunks, schema_version, flush_snapshot).contains(r)
                <==> takes_row(scans[table_id].chunks, schema_version, flush_snapshot, r),
{
    let op = RowModel::InlineFlushDelete { table_id, schema_version, flush_snapshot };
    let table = scans[table_id];
    let ended = ended_rows(table.inline_deletes);
    last_operations_come_last(ops, op, scans, key, before);
    let a = flushed_chunks(table.chunks, schema_version, flush_snapshot);
    let b = flushed_ends(table_id, table.chunks, schema_version, flush_snapshot, ended);
    let all = inline_op_writes(ops, op, scans);
    assert(all == a + b);
    chunk_removals(table.chunks, schema_version, flush_snapshot, key);
    end_removals(table_id, table.chunks, schema_version, flush_snapshot, ended, key);
    assert forall|i: int| 0 <= i < all.len() implies (#[trigger] all[i]).1 is None by {
        if i < a.len() {
            assert(all[i] == a[i]);
        } else {
            assert(all[i] == b[i - a.len()]);
        }
    }
    removals_remove(all, key, stored_after(ops, scans, key, before));
    names_in_both(a, b, key);
    if names_key(b, key) {
        let r = choose|r: u64| #[trigger]
            ended.contains(r) && flushes_row(table.chunks, schema_version, flush_snapshot, r) && key
                == record_key(InlineOperation::InlineDelete { table_id, row_id: r });
        rows_are_taken_by_range(table.chunks, schema_version, flush_snapshot, r);
        let i = choose|i: int|
            0 <= i < table.inline_deletes.len() && (#[trigger] table.inline_deletes[i]).0 == r;
        assert(takes_row(
            table.chunks,
            schema_version,
            flush_snapshot,
            table.inline_deletes[i].0,
        ));
    }
    if exists|i: int|
        0 <= i < table.inline_deletes.len() && takes_row(
            table.chunks,
            schema_version,
            flush_snapshot,
            (#[trigger] table.inline_deletes[i]).0,
        ) && key == record_key(
            InlineOperation::InlineDelete { table_id, row_id: table.inline_deletes[i].0 },
        ) {
        let i = choose|i: int|
            0 <= i < table.inline_deletes.len() && takes_row(
                table.chunks,
                schema_version,
                flush_snapshot,
                (#[trigger] table.inline_deletes[i]).0,
            ) && key == record_key(
                InlineOperation::InlineDelete { table_id, row_id: table.inline_deletes[i].0 },
            );
        let r = table.inline_deletes[i].0;
        rows_are_taken_by_range(table.chunks, schema_version, flush_snapshot, r);
        assert(ended.contains(r));
    }
    assert forall|r: u64| #[trigger]
        drained_rows(table.chunks, schema_version, flush_snapshot).contains(r) <==> takes_row(
            table.chunks,
            schema_version,
            flush_snapshot,
            r,
        ) by {
        rows_are_taken_by_range(table.chunks, schema_version, flush_snapshot, r);
        let chunks = table.chunks;
        if drained_rows(chunks, schema_version, flush_snapshot).contains(r) {
            let i = choose|i: int|
                0 <= i < chunks.len() && crate::inline::is_flushed(
                    #[trigger] chunks[i],
                    schema_version,
                    flush_snapshot,
                ) && chunk_holds(chunks[i].1, r);
            assert(taken(chunks[i].0, schema_version, flush_snapshot));
        }
        if flushes_row(chunks, schema_version, flush_snapshot, r) {
            let i = choose|i: int|
                0 <= i < chunks.len() && taken(
                    (#[trigger] chunks[i]).0,
                    schema_version,
                    flush_snapshot,
                ) && chunk_holds(chunks[i].1, r);
            assert(crate::inline::is_flushed(chunks[i], schema_version, flush_snapshot));
        }
    }
}

/// Whether a key is of an inlined record that a table was found to have.
pub open spec fn found(table: InlineTableModel, table_id: u64, key: KeyModel) -> bool {
    ||| exists|i: int|
        0 <= i < table.chunks.len() && key == record_key((#[trigger] table.chunks[i]).0)
    ||| exists|i: int|
        0 <= i < table.inline_deletes.len() && key == record_key(
            InlineOperation::InlineDelete {
                table_id,
                row_id: (#[trigger] table.inline_deletes[i]).0,
            },
        )
    ||| exists|i: int|
        0 <= i < table.file_deletes.len() && key == record_key(
            InlineOperation::FileDelete {
                table_id,
                data_file_id: (#[trigger] table.file_deletes[i]).0.0,
                row_id: table.file_deletes[i].0.1,
            },
        )
    ||| exists|i: int|
        0 <= i < table.schemas.len() && key == KeyModel::Inline(
            InlineKey::Schema { table_id, schema_version: (#[trigger] table.schemas[i]).0 },
        )
}

proof fn drops_name_what_was_found(table: InlineTableModel, table_id: u64, key: KeyModel)
    ensures
        names_key(drop_writes(table, table_id), key) == found(table, table_id, key),
        forall|i: int|
            0 <= i < drop_writes(table, table_id).len() ==> (#[trigger] drop_writes(
                table,
                table_id,
            )[i]).1 is None,
{
    let all = drop_writes(table, table_id);
    let a = table.chunks.len();
    let b = table.inline_deletes.len();
    let c = table.file_deletes.len();
    let d = table.schemas.len();
    assert(all.len() == a + b + c + d);
    if names_key(all, key) {
        let i = choose|i: int| 0 <= i < all.len() && (#[trigger] all[i]).0 == key;
        if i < a {
            assert(key == record_key(table.chunks[i].0));
        } else if i < a + b {
            let x = table.inline_deletes[i - a];
            assert(key == record_key(InlineOperation::InlineDelete { table_id, row_id: x.0 }));
        } else if i < a + b + c {
            let x = table.file_deletes[i - a - b];
            assert(key == record_key(
                InlineOperation::FileDelete { table_id, data_file_id: x.0.0, row_id: x.0.1 },
            ));
        } else {
            let x = table.schemas[i - a - b - c];
            assert(key == KeyModel::Inline(InlineKey::Schema { table_id, schema_version: x.0 }));
        }
    }
    if exists|i: int| 0 <= i < a && key == record_key((#[trigger] table.chunks[i]).0) {
        let i = choose|i: int| 0 <= i < a && key == record_key((#[trigger] table.chunks[i]).0);
        assert(all[i].0 == key);
    }
    if exists|i: int|
        0 <= i < b && key == record_key(
            InlineOperation::InlineDelete {
                table_id,
                row_id: (#[trigger] table.inline_deletes[i]).0,
            },
        ) {
        let i = choose|i: int|
            0 <= i < b && key == record_key(
                InlineOperation::InlineDelete {
                    table_id,
                    row_id: (#[trigger] table.inline_deletes[i]).0,
                },
            );
        assert(all[a + i].0 == key);
    }
    if exists|i: int|
        0 <= i < c && key == record_key(
            InlineOperation::FileDelete {
                table_id,
                data_file_id: (#[trigger] table.file_deletes[i]).0.0,
                row_id: table.file_deletes[i].0.1,
            },
        ) {
        let i = choose|i: int|
            0 <= i < c && key == record_key(
                InlineOperation::FileDelete {
                    table_id,
                    data_file_id: (#[trigger] table.file_deletes[i]).0.0,
                    row_id: table.file_deletes[i].0.1,
                },
            );
        assert(all[a + b + i].0 == key);
    }
    if exists|i: int|
        0 <= i < d && key == KeyModel::Inline(
            InlineKey::Schema { table_id, schema_version: (#[trigger] table.schemas[i]).0 },
        ) {
        let i = choose|i: int|
            0 <= i < d && key == KeyModel::Inline(
                InlineKey::Schema { table_id, schema_version: (#[trigger] table.schemas[i]).0 },
            );
        assert(all[a + b + c + i].0 == key);
    }
}

/// A drop removes every inlined record that its table was found to have, and
/// nothing else changes.
pub proof fn drops_remove_everything(
    ops: Seq<RowModel>,
    scans: Map<u64, InlineTableModel>,
    table_id: u64,
    key: KeyModel,
    before: Option<StoredModel>,
)
    requires
        scans.contains_key(table_id),
    ensures
        stored_after(ops.push(RowModel::InlineDrop { table_id }), scans, key, before) == (if found(
            scans[table_id],
            table_id,
            key,
        ) {
            None
        } else {
            stored_after(ops, scans, key, before)
        }),
{
    last_operations_come_last(ops, RowModel::InlineDrop { table_id }, scans, key, before);
    drops_name_what_was_found(scans[table_id], table_id, key);
    removals_remove(
        drop_writes(scans[table_id], table_id),
        key,
        stored_after(ops, scans, key, before),
    );
}

/// Flushes and drops of a table that has no inlined record change nothing.
pub proof fn tables_without_records_have_none_removed(
    ops: Seq<RowModel>,
    scans: Map<u64, InlineTableModel>,
    table_id: u64,
    schema_version: u64,
    flush_snapshot: u64,
    key: KeyModel,
    before: Option<StoredModel>,
)
    requires
        !scans.contains_key(table_id),
    ensures
        stored_after(
            ops.push(RowModel::InlineFlushDelete { table_id, schema_version, flush_snapshot }),
            scans,
            key,
            before,
        ) == stored_after(ops, scans, key, before),
        stored_after(ops.push(RowModel::InlineDrop { table_id }), scans, key, before)
            == stored_after(ops, scans, key, before),
{
    let flush = RowModel::InlineFlushDelete { table_id, schema_version, flush_snapshot };
    last_operations_come_last(ops, flush, scans, key, before);
    last_operations_come_last(ops, RowModel::InlineDrop { table_id }, scans, key, before);
    assert(inline_op_writes(ops, flush, scans) =~= Seq::<WriteModel>::empty());
    assert(inline_op_writes(ops, RowModel::InlineDrop { table_id }, scans) =~= Seq::<
        WriteModel,
    >::empty());
}

/// The tables whose inlined records a commit has to know are those that it
/// flushes or drops.
pub proof fn flushed_and_dropped_tables_are_scanned(ops: Seq<RowModel>, table_id: u64)
    ensures
        emptied_tables(ops).contains(table_id) <==> exists|i: int|
            0 <= i < ops.len() && match #[trigger] ops[i] {
                RowModel::InlineFlushDelete { table_id: t, .. } => t == table_id,
                RowModel::InlineDrop { table_id: t } => t == table_id,
                _ => false,
            },
{
    if emptied_tables(ops).contains(table_id) {
        let i = choose|i: int|
            0 <= i < ops.len() && crate::inline::emptied_table(#[trigger] ops[i]) == Some(
                table_id,
            );
        let op = ops[i];
        assert(match op {
            RowModel::InlineFlushDelete { table_id: t, .. } => t == table_id,
            RowModel::InlineDrop { table_id: t } => t == table_id,
            _ => false,
        });
    }
    if exists|i: int|
        0 <= i < ops.len() && match #[trigger] ops[i] {
            RowModel::InlineFlushDelete { table_id: t, .. } => t == table_id,
            RowModel::InlineDrop { table_id: t } => t == table_id,
            _ => false,
        } {
        let i = choose|i: int|
            0 <= i < ops.len() && match #[trigger] ops[i] {
                RowModel::InlineFlushDelete { table_id: t, .. } => t == table_id,
                RowModel::InlineDrop { table_id: t } => t == table_id,
                _ => false,
            };
        assert(crate::inline::emptied_table(ops[i]) == Some(table_id));
    }
}

} // verus!
