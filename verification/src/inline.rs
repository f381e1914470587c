//! Staged operations on inlined rows, as writes. Inlined rows are not part of
//! a snapshot, so nothing is diffed.
use crate::deletes::deletion;
use crate::keys::{
    InlineKey, InlineOperation, Key, KeyModel, StagedWrite, Stored, StoredModel, WriteModel,
};
use crate::ordered::{OrdMap, OrdSet, Record};
use crate::records::{
    InlineChunkModel, InlineChunkValue, InlineFileDeleteModel, InlineFileDeleteValue,
    InlineInlineDeleteModel, InlineInlineDeleteValue, InlineSchemaModel, InlineSchemaValue,
};
use crate::rows::{RowModel, RowOperation};
use vstd::prelude::*;

verus! {

// ---------------------------------------------------------------------------
// What the store holds
// ---------------------------------------------------------------------------

/// The inlined records of one table, as they were scanned.
#[derive(Debug, PartialEq, Eq)]
pub struct InlineTable {
    /// The chunks of rows, by their keys.
    pub chunks: Vec<(InlineOperation, InlineChunkValue)>,
    /// The rows that ended.
    pub inline_deletes: Vec<(u64, InlineInlineDeleteValue)>,
    /// The deleted rows of data files: the file and the row.
    pub file_deletes: Vec<((u64, u64), InlineFileDeleteValue)>,
    /// The schemas, by their versions.
    pub schemas: Vec<(u64, InlineSchemaValue)>,
}

/// The model of [`InlineTable`].
#[verifier::ext_equal]
pub struct InlineTableModel {
    pub chunks: Seq<(InlineOperation, InlineChunkModel)>,
    pub inline_deletes: Seq<(u64, InlineInlineDeleteModel)>,
    pub file_deletes: Seq<((u64, u64), InlineFileDeleteModel)>,
    pub schemas: Seq<(u64, InlineSchemaModel)>,
}

impl DeepView for InlineOperation {
    type V = InlineOperation;

    open spec fn deep_view(&self) -> InlineOperation {
        *self
    }
}

impl Record for InlineOperation {
    fn dup(&self) -> (r: Self) {
        *self
    }

    fn same(&self, other: &Self) -> (b: bool) {
        *self == *other
    }
}

impl DeepView for InlineTable {
    type V = InlineTableModel;

    open spec fn deep_view(&self) -> InlineTableModel {
        InlineTableModel {
            chunks: self.chunks.deep_view(),
            inline_deletes: self.inline_deletes.deep_view(),
            file_deletes: self.file_deletes.deep_view(),
            schemas: self.schemas.deep_view(),
        }
    }
}

impl Record for InlineTable {
    fn dup(&self) -> (r: Self) {
        InlineTable {
            chunks: self.chunks.dup(),
            inline_deletes: self.inline_deletes.dup(),
            file_deletes: self.file_deletes.dup(),
            schemas: self.schemas.dup(),
        }
    }

    fn same(&self, other: &Self) -> (b: bool) {
        self.chunks.same(&other.chunks) && self.inline_deletes.same(&other.inline_deletes)
            && self.file_deletes.same(&other.file_deletes) && self.schemas.same(&other.schemas)
    }
}

/// The inlined records of the tables that a commit flushes or drops, as the
/// store held them before the commit. A table that is not here has none.
pub type InlineScans = OrdMap<u64, InlineTable>;

// ---------------------------------------------------------------------------
// One write each
// ---------------------------------------------------------------------------

pub open spec fn schema_key(table_id: u64, schema_version: u64) -> KeyModel {
    KeyModel::Inline(InlineKey::Schema { table_id, schema_version })
}

pub open spec fn live_key(op: InlineOperation) -> KeyModel {
    KeyModel::Inline(InlineKey::Live(op))
}

/// Registers a schema of inlined rows.
pub fn inline_schema_write(table_id: u64, schema_version: u64, arrow_schema: &Vec<u8>) -> (w:
    StagedWrite)
    ensures
        w.deep_view() == (
            schema_key(table_id, schema_version),
            Some(
                StoredModel::InlineSchema(
                    InlineSchemaModel { arrow_schema: arrow_schema.deep_view() },
                ),
            ),
        ),
{
    (
        Key::Inline(InlineKey::Schema { table_id, schema_version }),
        Some(Stored::InlineSchema(InlineSchemaValue { arrow_schema: arrow_schema.dup() })),
    )
}

/// Adds a chunk of inlined rows.
pub fn inline_insert_write(
    table_id: u64,
    schema_version: u64,
    begin_snapshot: u64,
    chunk_seq: u64,
    row_id_start: u64,
    row_count: u64,
    arrow_body: &Vec<u8>,
) -> (w: StagedWrite)
    ensures
        w.deep_view() == (
            live_key(
                InlineOperation::Insert { table_id, schema_version, begin_snapshot, chunk_seq },
            ),
            Some(
                StoredModel::InlineChunk(
                    InlineChunkModel {
                        body: arrow_body.deep_view(),
                        row_id_start,
                        row_count,
                        data_file_id: None,
                    },
                ),
            ),
        ),
{
    (
        Key::Inline(
            InlineKey::Live(
                InlineOperation::Insert { table_id, schema_version, begin_snapshot, chunk_seq },
            ),
        ),
        Some(
            Stored::InlineChunk(
                InlineChunkValue {
                    body: arrow_body.dup(),
                    row_id_start,
                    row_count,
                    data_file_id: None,
                },
            ),
        ),
    )
}

/// Ends an inlined row.
pub fn inline_inline_delete_write(table_id: u64, row_id: u64, end_snapshot: u64) -> (w: StagedWrite)
    ensures
        w.deep_view() == (
            live_key(InlineOperation::InlineDelete { table_id, row_id }),
            Some(StoredModel::InlineInlineDelete(InlineInlineDeleteModel { end_snapshot })),
        ),
{
    (
        Key::Inline(InlineKey::Live(InlineOperation::InlineDelete { table_id, row_id })),
        Some(Stored::InlineInlineDelete(InlineInlineDeleteValue { end_snapshot })),
    )
}

/// Deletes a row of a data file.
pub fn inline_file_delete_write(
    table_id: u64,
    data_file_id: u64,
    row_id: u64,
    begin_snapshot: u64,
) -> (w: StagedWrite)
    ensures
        w.deep_view() == (
            live_key(InlineOperation::FileDelete { table_id, data_file_id, row_id }),
            Some(StoredModel::InlineFileDelete(InlineFileDeleteModel { begin_snapshot })),
        ),
{
    (
        Key::Inline(
            InlineKey::Live(InlineOperation::FileDelete { table_id, data_file_id, row_id }),
        ),
        Some(Stored::InlineFileDelete(InlineFileDeleteValue { begin_snapshot })),
    )
}

/// Takes back the deletion of a row of a data file.
pub fn inline_file_delete_remove_write(table_id: u64, data_file_id: u64, row_id: u64) -> (w:
    StagedWrite)
    ensures
        w.deep_view() == deletion(
            live_key(InlineOperation::FileDelete { table_id, data_file_id, row_id }),
        ),
{
    (
        Key::Inline(
            InlineKey::Live(InlineOperation::FileDelete { table_id, data_file_id, row_id }),
        ),
        None,
    )
}

/// Removes a schema of inlined rows.
pub fn inline_schema_drop_write(table_id: u64, schema_version: u64) -> (w: StagedWrite)
    ensures
        w.deep_view() == deletion(schema_key(table_id, schema_version)),
{
    (Key::Inline(InlineKey::Schema { table_id, schema_version }), None)
}

// ---------------------------------------------------------------------------
// Chunk numbers
// ---------------------------------------------------------------------------

/// What chunks of one commit are numbered by: table, schema version and begin.
pub type ChunkPlace = ((u64, u64), u64);

/// Numbers the chunks that one commit adds under the same place, from zero.
pub struct ChunkSeqAllocator {
    taken: OrdMap<ChunkPlace, u64>,
}

impl View for ChunkSeqAllocator {
    type V = Map<ChunkPlace, u64>;

    closed spec fn view(&self) -> Map<ChunkPlace, u64> {
        self.taken@
    }
}

/// How many numbers are taken at a place.
pub open spec fn numbers_taken(taken: Map<ChunkPlace, u64>, place: ChunkPlace) -> u64 {
    if taken.contains_key(place) {
        taken[place]
    } else {
        0
    }
}

impl ChunkSeqAllocator {
    pub fn new() -> (a: Self)
        ensures
            a@ == Map::<ChunkPlace, u64>::empty(),
    {
        ChunkSeqAllocator { taken: OrdMap::new() }
    }

    /// The next number at a place.
    pub fn next(&mut self, table_id: u64, schema_version: u64, begin_snapshot: u64) -> (n: u64)
        requires
            numbers_taken(old(self)@, ((table_id, schema_version), begin_snapshot)) < u64::MAX,
        ensures
            n == numbers_taken(old(self)@, ((table_id, schema_version), begin_snapshot)),
            final(self)@ == old(self)@.insert(
                ((table_id, schema_version), begin_snapshot),
                (n + 1) as u64,
            ),
    {
        let place = ((table_id, schema_version), begin_snapshot);
        let n: u64 = match self.taken.get(&place) {
            Some(n) => *n,
            None => 0,
        };
        self.taken.insert(place, n + 1);
        n
    }
}

/// The place of the chunk that an operation adds, if it does.
pub open spec fn chunk_place(op: RowModel) -> Option<ChunkPlace> {
    match op {
        RowModel::InlineInsert { table_id, schema_version, begin_snapshot, .. } => Some(
            ((table_id, schema_version), begin_snapshot),
        ),
        _ => None,
    }
}

/// How many chunks operations add at a place.
pub open spec fn chunks_at(ops: Seq<RowModel>, place: ChunkPlace) -> nat
    decreases ops.len(),
{
    if ops.len() == 0 {
        0
    } else {
        chunks_at(ops.drop_last(), place) + (if chunk_place(ops.last()) == Some(place) {
            1nat
        } else {
            0nat
        })
    }
}

proof fn chunks_are_operations(ops: Seq<RowModel>, place: ChunkPlace)
    ensures
        chunks_at(ops, place) <= ops.len(),
    decreases ops.len(),
{
    if ops.len() > 0 {
        chunks_are_operations(ops.drop_last(), place);
    }
}

/// The chunks that one commit adds at the same place get different numbers.
pub proof fn chunk_numbers_differ(ops: Seq<RowModel>, i: int, j: int)
    requires
        0 <= i < j < ops.len(),
        chunk_place(ops[i]) is Some,
        chunk_place(ops[i]) == chunk_place(ops[j]),
    ensures
        chunks_at(ops.take(i), chunk_place(ops[i])->0) < chunks_at(
            ops.take(j),
            chunk_place(ops[j])->0,
        ),
    decreases j,
{
    let place = chunk_place(ops[i])->0;
    let t = ops.take(j);
    assert(t.drop_last() =~= ops.take(j - 1));
    assert(t.last() == ops[j - 1]);
    if j - 1 == i {
    } else {
        chunks_grow(ops, i + 1, j - 1, place);
        assert(ops.take(i + 1).drop_last() =~= ops.take(i));
        assert(ops.take(i + 1).last() == ops[i]);
    }
}

proof fn chunks_grow(ops: Seq<RowModel>, i: int, j: int, place: ChunkPlace)
    requires
        0 <= i <= j <= ops.len(),
    ensures
        chunks_at(ops.take(i), place) <= chunks_at(ops.take(j), place),
    decreases j - i,
{
    if i < j {
        chunks_grow(ops, i, j - 1, place);
        assert(ops.take(j).drop_last() =~= ops.take(j - 1));
    }
}

// ---------------------------------------------------------------------------
// Flushing
// ---------------------------------------------------------------------------

/// Whether a chunk is one of a schema version that began at or before a
/// snapshot.
pub open spec fn is_flushed(
    chunk: (InlineOperation, InlineChunkModel),
    schema_version: u64,
    flush_snapshot: u64,
) -> bool {
    match chunk.0 {
        InlineOperation::Insert { schema_version: v, begin_snapshot, .. } => v == schema_version
            && begin_snapshot <= flush_snapshot,
        _ => false,
    }
}

fn chunk_is_flushed(chunk: &(InlineOperation, InlineChunkValue), schema_version: u64, flush_snapshot: u64) -> (b:
    bool)
    ensures
        b == is_flushed(chunk.deep_view(), schema_version, flush_snapshot),
{
    match chunk.0 {
        InlineOperation::Insert { schema_version: v, begin_snapshot, .. } => v == schema_version
            && begin_snapshot <= flush_snapshot,
        _ => false,
    }
}

/// The id after the last row of a chunk.
pub open spec fn chunk_end(chunk: InlineChunkModel) -> u64 {
    if chunk.row_id_start + chunk.row_count <= u64::MAX {
        (chunk.row_id_start + chunk.row_count) as u64
    } else {
        u64::MAX
    }
}

/// Whether a chunk holds a row.
pub open spec fn chunk_holds(chunk: InlineChunkModel, row_id: u64) -> bool {
    chunk.row_id_start <= row_id < chunk_end(chunk)
}

/// The deletions of the flushed chunks.
pub open spec fn flushed_chunks(
    chunks: Seq<(InlineOperation, InlineChunkModel)>,
    schema_version: u64,
    flush_snapshot: u64,
) -> Seq<WriteModel>
    decreases chunks.len(),
{
    if chunks.len() == 0 {
        Seq::empty()
    } else {
        let front = flushed_chunks(chunks.drop_last(), schema_version, flush_snapshot);
        if is_flushed(chunks.last(), schema_version, flush_snapshot) {
            front.push(deletion(live_key(chunks.last().0)))
        } else {
            front
        }
    }
}

/// The deletions of the ends of a run of rows.
pub open spec fn ends_of_rows(table_id: u64, from: int, to: int, ended: Set<u64>) -> Seq<WriteModel>
    decreases to - from,
{
    if from >= to {
        Seq::empty()
    } else {
        let front = ends_of_rows(table_id, from, to - 1, ended);
        if ended.contains((to - 1) as u64) {
            front.push(
                deletion(
                    live_key(InlineOperation::InlineDelete { table_id, row_id: (to - 1) as u64 }),
                ),
            )
        } else {
            front
        }
    }
}

/// The deletions of the ends of the flushed rows.
pub open spec fn flushed_ends(
    table_id: u64,
    chunks: Seq<(InlineOperation, InlineChunkModel)>,
    schema_version: u64,
    flush_snapshot: u64,
    ended: Set<u64>,
) -> Seq<WriteModel>
    decreases chunks.len(),
{
    if chunks.len() == 0 {
        Seq::empty()
    } else {
        let front = flushed_ends(
            table_id,
            chunks.drop_last(),
            schema_version,
            flush_snapshot,
            ended,
        );
        if is_flushed(chunks.last(), schema_version, flush_snapshot) {
            front + ends_of_rows(
                table_id,
                chunks.last().1.row_id_start as int,
                chunk_end(chunks.last().1) as int,
                ended,
            )
        } else {
            front
        }
    }
}

/// The rows that a flush drains.
pub open spec fn drained_rows(
    chunks: Seq<(InlineOperation, InlineChunkModel)>,
    schema_version: u64,
    flush_snapshot: u64,
) -> Set<u64> {
    Set::new(
        |row_id: u64|
            exists|i: int|
                0 <= i < chunks.len() && is_flushed(
                    #[trigger] chunks[i],
                    schema_version,
                    flush_snapshot,
                ) && chunk_holds(chunks[i].1, row_id),
    )
}

/// The rows that ended.
pub open spec fn ended_rows(deletes: Seq<(u64, InlineInlineDeleteModel)>) -> Set<u64> {
    Set::new(|row_id: u64| exists|i: int| 0 <= i < deletes.len() && (#[trigger] deletes[i]).0 == row_id)
}

/// The writes of a flush.
pub open spec fn flush_writes(
    table: InlineTableModel,
    table_id: u64,
    schema_version: u64,
    flush_snapshot: u64,
) -> Seq<WriteModel> {
    flushed_chunks(table.chunks, schema_version, flush_snapshot) + flushed_ends(
        table_id,
        table.chunks,
        schema_version,
        flush_snapshot,
        ended_rows(table.inline_deletes),
    )
}

fn collect_ended(deletes: &Vec<(u64, InlineInlineDeleteValue)>) -> (ended: OrdSet<u64>)
    ensures
        ended@ == ended_rows(deletes.deep_view()),
{
    let ghost q = deletes.deep_view();
    let mut ended: OrdSet<u64> = OrdSet::new();
    let mut i: usize = 0;
    while i < deletes.len()
        invariant
            i <= deletes@.len(),
            q == deletes.deep_view(),
            forall|r: u64| #[trigger]
                ended@.contains(r) <==> exists|j: int| 0 <= j < i && (#[trigger] q[j]).0 == r,
        decreases deletes.len() - i,
    {
        let ghost was = ended@;
        let id = deletes[i].0;
        ended.insert(id);
        proof {
            assert(q[i as int] == deletes@[i as int].deep_view());
            assert forall|r: u64| #[trigger] ended@.contains(r) <==> exists|j: int|
                0 <= j < i + 1 && (#[trigger] q[j]).0 == r by {
                if r == id {
                    assert(q[i as int].0 == r);
                }
                if was.contains(r) {
                    let j = choose|j: int| 0 <= j < i && (#[trigger] q[j]).0 == r;
                    assert(q[j].0 == r);
                }
            }
        }
        i = i + 1;
    }
    assert(ended@ =~= ended_rows(q));
    ended
}

fn push_write(writes: &mut Vec<StagedWrite>, write: StagedWrite)
    ensures
        final(writes).deep_view() == old(writes).deep_view().push(write.deep_view()),
{
    let ghost was = writes.deep_view();
    writes.push(write);
    assert(writes.deep_view() =~= was.push(write.deep_view()));
}

/// Removes the ends of a run of rows, and drains the rows.
fn flush_rows(
    table_id: u64,
    from: u64,
    to: u64,
    ended: &OrdSet<u64>,
    drained: &mut OrdSet<u64>,
    writes: &mut Vec<StagedWrite>,
)
    ensures
        final(writes).deep_view() == old(writes).deep_view() + ends_of_rows(
            table_id,
            from as int,
            to as int,
            ended@,
        ),
        forall|r: u64| #[trigger]
            final(drained)@.contains(r) <==> old(drained)@.contains(r) || from <= r < to,
{
    let mut row_id: u64 = from;
    assert(writes.deep_view() + ends_of_rows(table_id, from as int, from as int, ended@)
        =~= writes.deep_view());
    while row_id < to
        invariant
            from <= row_id,
            from <= to ==> row_id <= to,
            from > to ==> row_id == from,
            writes.deep_view() == old(writes).deep_view() + ends_of_rows(
                table_id,
                from as int,
                row_id as int,
                ended@,
            ),
            forall|r: u64| #[trigger]
                drained@.contains(r) <==> old(drained)@.contains(r) || from <= r < row_id,
        decreases to - row_id,
    {
        drained.insert(row_id);
        if ended.contains(&row_id) {
            push_write(
                writes,
                (
                    Key::Inline(InlineKey::Live(InlineOperation::InlineDelete { table_id, row_id })),
                    None,
                ),
            );
        }
        row_id = row_id + 1;
        assert(writes.deep_view() =~= old(writes).deep_view() + ends_of_rows(
            table_id,
            from as int,
            row_id as int,
            ended@,
        ));
    }
    if from > to {
        assert(ends_of_rows(table_id, from as int, to as int, ended@) =~= ends_of_rows(
            table_id,
            from as int,
            from as int,
            ended@,
        ));
    }
}

fn flush_chunks(
    chunks: &Vec<(InlineOperation, InlineChunkValue)>,
    schema_version: u64,
    flush_snapshot: u64,
    writes: &mut Vec<StagedWrite>,
)
    ensures
        final(writes).deep_view() == old(writes).deep_view() + flushed_chunks(
            chunks.deep_view(),
            schema_version,
            flush_snapshot,
        ),
{
    let ghost q = chunks.deep_view();
    let mut i: usize = 0;
    assert(q.take(0) =~= Seq::empty());
    assert(writes.deep_view() + flushed_chunks(q.take(0), schema_version, flush_snapshot)
        =~= writes.deep_view());
    while i < chunks.len()
        invariant
            i <= chunks@.len(),
            q == chunks.deep_view(),
            writes.deep_view() == old(writes).deep_view() + flushed_chunks(
                q.take(i as int),
                schema_version,
                flush_snapshot,
            ),
        decreases chunks.len() - i,
    {
        proof {
            let next = q.take(i + 1);
            assert(next.drop_last() =~= q.take(i as int));
            assert(next.last() == chunks@[i as int].deep_view());
        }
        if chunk_is_flushed(&chunks[i], schema_version, flush_snapshot) {
            push_write(writes, (Key::Inline(InlineKey::Live(chunks[i].0)), None));
        }
        i = i + 1;
        assert(writes.deep_view() =~= old(writes).deep_view() + flushed_chunks(
            q.take(i as int),
            schema_version,
            flush_snapshot,
        ));
    }
    assert(q.take(q.len() as int) =~= q);
}

/// Flushes a table: removes the chunks of a schema version that began at or
/// before a snapshot, and the ends of their rows. Returns the rows.
pub fn translate_inline_flush_delete(
    table: &InlineTable,
    table_id: u64,
    schema_version: u64,
    flush_snapshot: u64,
    writes: &mut Vec<StagedWrite>,
) -> (drained: OrdSet<u64>)
    ensures
        final(writes).deep_view() == old(writes).deep_view() + flush_writes(
            table.deep_view(),
            table_id,
            schema_version,
            flush_snapshot,
        ),
        drained@ == drained_rows(table.deep_view().chunks, schema_version, flush_snapshot),
{
    let ended = collect_ended(&table.inline_deletes);
    flush_chunks(&table.chunks, schema_version, flush_snapshot, writes);
    let chunks = &table.chunks;
    let ghost q = chunks.deep_view();
    let ghost before = writes.deep_view();
    let mut drained: OrdSet<u64> = OrdSet::new();
    let mut i: usize = 0;
    assert(q.take(0) =~= Seq::empty());
    assert(before + flushed_ends(table_id, q.take(0), schema_version, flush_snapshot, ended@)
        =~= before);
    while i < chunks.len()
        invariant
            i <= chunks@.len(),
            q == chunks.deep_view(),
            writes.deep_view() == before + flushed_ends(
                table_id,
                q.take(i as int),
                schema_version,
                flush_snapshot,
                ended@,
            ),
            forall|r: u64| #[trigger]
                drained@.contains(r) <==> exists|j: int|
                    0 <= j < i && is_flushed(#[trigger] q[j], schema_version, flush_snapshot)
                        && chunk_holds(q[j].1, r),
        decreases chunks.len() - i,
    {
        let ghost was = drained@;
        proof {
            let next = q.take(i + 1);
            assert(next.drop_last() =~= q.take(i as int));
            assert(next.last() == chunks@[i as int].deep_view());
            assert(q[i as int] == chunks@[i as int].deep_view());
        }
        if chunk_is_flushed(&chunks[i], schema_version, flush_snapshot) {
            let from = chunks[i].1.row_id_start;
            let to = chunks[i].1.row_id_start.saturating_add(chunks[i].1.row_count);
            flush_rows(table_id, from, to, &ended, &mut drained, writes);
        }
        proof {
            assert forall|r: u64| #[trigger] drained@.contains(r) <==> exists|j: int|
                0 <= j < i + 1 && is_flushed(#[trigger] q[j], schema_version, flush_snapshot)
                    && chunk_holds(q[j].1, r) by {
                if was.contains(r) {
                    let j = choose|j: int|
                        0 <= j < i && is_flushed(#[trigger] q[j], schema_version, flush_snapshot)
                            && chunk_holds(q[j].1, r);
                    assert(is_flushed(q[j], schema_version, flush_snapshot));
                }
                if drained@.contains(r) && !was.contains(r) {
                    assert(is_flushed(q[i as int], schema_version, flush_snapshot));
                }
            }
            assert(writes.deep_view() =~= before + flushed_ends(
                table_id,
                q.take(i + 1),
                schema_version,
                flush_snapshot,
                ended@,
            ));
        }
        i = i + 1;
    }
    proof {
        assert(q.take(q.len() as int) =~= q);
        assert(drained@ =~= drained_rows(q, schema_version, flush_snapshot));
        assert(writes.deep_view() =~= old(writes).deep_view() + flush_writes(
            table.deep_view(),
            table_id,
            schema_version,
            flush_snapshot,
        ));
    }
    drained
}

// ---------------------------------------------------------------------------
// Dropping
// ---------------------------------------------------------------------------

/// The writes of a drop: chunks, ends, deleted rows of files, schemas.
pub open spec fn drop_writes(table: InlineTableModel, table_id: u64) -> Seq<WriteModel> {
    Seq::new(table.chunks.len(), |i: int| deletion(live_key(table.chunks[i].0))) + Seq::new(
        table.inline_deletes.len(),
        |i: int|
            deletion(
                live_key(
                    InlineOperation::InlineDelete { table_id, row_id: table.inline_deletes[i].0 },
                ),
            ),
    ) + Seq::new(
        table.file_deletes.len(),
        |i: int|
            deletion(
                live_key(
                    InlineOperation::FileDelete {
                        table_id,
                        data_file_id: table.file_deletes[i].0.0,
                        row_id: table.file_deletes[i].0.1,
                    },
                ),
            ),
    ) + Seq::new(table.schemas.len(), |i: int| deletion(schema_key(table_id, table.schemas[i].0)))
}

/// Drops a table: removes every inlined record.
pub fn translate_inline_drop(table: &InlineTable, table_id: u64, writes: &mut Vec<StagedWrite>)
    ensures
        final(writes).deep_view() == old(writes).deep_view() + drop_writes(
            table.deep_view(),
            table_id,
        ),
{
    let ghost m = table.deep_view();
    let ghost w0 = writes.deep_view();
    let ghost a = Seq::new(m.chunks.len(), |i: int| deletion(live_key(m.chunks[i].0)));
    let mut i: usize = 0;
    assert(w0 + a.take(0) =~= w0);
    while i < table.chunks.len()
        invariant
            i <= table.chunks@.len(),
            m == table.deep_view(),
            a == Seq::new(m.chunks.len(), |i: int| deletion(live_key(m.chunks[i].0))),
            writes.deep_view() == w0 + a.take(i as int),
        decreases table.chunks.len() - i,
    {
        assert(m.chunks[i as int] == table.chunks@[i as int].deep_view());
        push_write(writes, (Key::Inline(InlineKey::Live(table.chunks[i].0)), None));
        i = i + 1;
        assert(writes.deep_view() =~= w0 + a.take(i as int));
    }
    let ghost b = Seq::new(
        m.inline_deletes.len(),
        |i: int|
            deletion(
                live_key(
                    InlineOperation::InlineDelete { table_id, row_id: m.inline_deletes[i].0 },
                ),
            ),
    );
    let mut i: usize = 0;
    assert(w0 + a.take(a.len() as int) =~= w0 + a + b.take(0));
    while i < table.inline_deletes.len()
        invariant
            i <= table.inline_deletes@.len(),
            m == table.deep_view(),
            b == Seq::new(
                m.inline_deletes.len(),
                |i: int|
                    deletion(
                        live_key(
                            InlineOperation::InlineDelete {
                                table_id,
                                row_id: m.inline_deletes[i].0,
                            },
                        ),
                    ),
            ),
            writes.deep_view() == w0 + a + b.take(i as int),
        decreases table.inline_deletes.len() - i,
    {
        assert(m.inline_deletes[i as int] == table.inline_deletes@[i as int].deep_view());
        let row_id = table.inline_deletes[i].0;
        push_write(
            writes,
            (
                Key::Inline(InlineKey::Live(InlineOperation::InlineDelete { table_id, row_id })),
                None,
            ),
        );
        i = i + 1;
        assert(writes.deep_view() =~= w0 + a + b.take(i as int));
    }
    let ghost c = Seq::new(
        m.file_deletes.len(),
        |i: int|
            deletion(
                live_key(
                    InlineOperation::FileDelete {
                        table_id,
                        data_file_id: m.file_deletes[i].0.0,
                        row_id: m.file_deletes[i].0.1,
                    },
                ),
            ),
    );
    let mut i: usize = 0;
    assert(w0 + a + b.take(b.len() as int) =~= w0 + a + b + c.take(0));
    while i < table.file_deletes.len()
        invariant
            i <= table.file_deletes@.len(),
            m == table.deep_view(),
            c == Seq::new(
                m.file_deletes.len(),
                |i: int|
                    deletion(
                        live_key(
                            InlineOperation::FileDelete {
                                table_id,
                                data_file_id: m.file_deletes[i].0.0,
                                row_id: m.file_deletes[i].0.1,
                            },
                        ),
                    ),
            ),
            writes.deep_view() == w0 + a + b + c.take(i as int),
        decreases table.file_deletes.len() - i,
    {
        assert(m.file_deletes[i as int] == table.file_deletes@[i as int].deep_view());
        let (data_file_id, row_id) = table.file_deletes[i].0;
        push_write(writes, inline_file_delete_remove_write(table_id, data_file_id, row_id));
        i = i + 1;
        assert(writes.deep_view() =~= w0 + a + b + c.take(i as int));
    }
    let ghost d = Seq::new(m.schemas.len(), |i: int| deletion(schema_key(table_id, m.schemas[i].0)));
    let mut i: usize = 0;
    assert(w0 + a + b + c.take(c.len() as int) =~= w0 + a + b + c + d.take(0));
    while i < table.schemas.len()
        invariant
            i <= table.schemas@.len(),
            m == table.deep_view(),
            d == Seq::new(m.schemas.len(), |i: int| deletion(schema_key(table_id, m.schemas[i].0))),
            writes.deep_view() == w0 + a + b + c + d.take(i as int),
        decreases table.schemas.len() - i,
    {
        assert(m.schemas[i as int] == table.schemas@[i as int].deep_view());
        push_write(writes, inline_schema_drop_write(table_id, table.schemas[i].0));
        i = i + 1;
        assert(writes.deep_view() =~= w0 + a + b + c + d.take(i as int));
    }
    assert(writes.deep_view() =~= w0 + drop_writes(m, table_id));
}

// ---------------------------------------------------------------------------
// All operations
// ---------------------------------------------------------------------------

/// What the store holds for a table.
pub open spec fn scanned(scans: Map<u64, InlineTableModel>, table_id: u64) -> InlineTableModel {
    if scans.contains_key(table_id) {
        scans[table_id]
    } else {
        InlineTableModel {
            chunks: Seq::empty(),
            inline_deletes: Seq::empty(),
            file_deletes: Seq::empty(),
            schemas: Seq::empty(),
        }
    }
}

/// The writes of one operation that comes after others.
pub open spec fn inline_op_writes(
    earlier: Seq<RowModel>,
    op: RowModel,
    scans: Map<u64, InlineTableModel>,
) -> Seq<WriteModel> {
    match op {
        RowModel::InlineSchema { table_id, schema_version, arrow_schema } => seq![
            (
                schema_key(table_id, schema_version),
                Some(StoredModel::InlineSchema(InlineSchemaModel { arrow_schema })),
            ),
        ],
        RowModel::InlineInsert {
            table_id,
            schema_version,
            begin_snapshot,
            row_id_start,
            row_count,
            arrow_body,
        } => seq![
            (
                live_key(
                    InlineOperation::Insert {
                        table_id,
                        schema_version,
                        begin_snapshot,
                        chunk_seq: chunks_at(
                            earlier,
                            ((table_id, schema_version), begin_snapshot),
                        ) as u64,
                    },
                ),
                Some(
                    StoredModel::InlineChunk(
                        InlineChunkModel {
                            body: arrow_body,
                            row_id_start,
                            row_count,
                            data_file_id: None,
                        },
                    ),
                ),
            ),
        ],
        RowModel::InlineInlineDelete { table_id, row_id, end_snapshot } => seq![
            (
                live_key(InlineOperation::InlineDelete { table_id, row_id }),
                Some(StoredModel::InlineInlineDelete(InlineInlineDeleteModel { end_snapshot })),
            ),
        ],
        RowModel::InlineFileDelete { table_id, data_file_id, row_id, begin_snapshot } => seq![
            (
                live_key(InlineOperation::FileDelete { table_id, data_file_id, row_id }),
                Some(StoredModel::InlineFileDelete(InlineFileDeleteModel { begin_snapshot })),
            ),
        ],
        RowModel::InlineFlushDelete { table_id, schema_version, flush_snapshot } => flush_writes(
            scanned(scans, table_id),
            table_id,
            schema_version,
            flush_snapshot,
        ),
        RowModel::InlineDrop { table_id } => drop_writes(scanned(scans, table_id), table_id),
        RowModel::InlineSchemaDrop { table_id, schema_version } => seq![
            deletion(schema_key(table_id, schema_version)),
        ],
        RowModel::InlineFileDeleteRemove { table_id, data_file_id, row_id } => seq![
            deletion(live_key(InlineOperation::FileDelete { table_id, data_file_id, row_id })),
        ],
        _ => Seq::empty(),
    }
}

/// The writes of a commit's operations on inlined rows.
pub open spec fn inline_writes(ops: Seq<RowModel>, scans: Map<u64, InlineTableModel>) -> Seq<WriteModel>
    decreases ops.len(),
{
    if ops.len() == 0 {
        Seq::empty()
    } else {
        inline_writes(ops.drop_last(), scans) + inline_op_writes(ops.drop_last(), ops.last(), scans)
    }
}

/// What the store holds for a table.
fn scan_of(scans: &InlineScans, table_id: u64) -> (table: InlineTable)
    ensures
        table.deep_view() == scanned(scans@, table_id),
{
    match scans.get(&table_id) {
        Some(table) => table.dup(),
        None => {
            let table = InlineTable {
                chunks: Vec::new(),
                inline_deletes: Vec::new(),
                file_deletes: Vec::new(),
                schemas: Vec::new(),
            };
            assert(table.deep_view() =~= scanned(scans@, table_id));
            table
        },
    }
}

/// Turns a commit's operations on inlined rows into writes.
pub fn translate_inline(ops: &Vec<RowOperation>, scans: &InlineScans) -> (writes: Vec<StagedWrite>)
    ensures
        writes.deep_view() == inline_writes(ops.deep_view(), scans@),
{
    let ghost q = ops.deep_view();
    let mut writes: Vec<StagedWrite> = Vec::new();
    let mut numbers = ChunkSeqAllocator::new();
    let mut i: usize = 0;
    proof {
        assert(q.take(0) =~= Seq::<RowModel>::empty());
        assert(writes.deep_view() =~= inline_writes(q.take(0), scans@));
    }
    while i < ops.len()
        invariant
            i <= ops@.len(),
            q == ops.deep_view(),
            writes.deep_view() == inline_writes(q.take(i as int), scans@),
            forall|place: ChunkPlace| #[trigger]
                numbers_taken(numbers@, place) == chunks_at(q.take(i as int), place),
        decreases ops.len() - i,
    {
        let ghost earlier = q.take(i as int);
        let ghost next = q.take(i + 1);
        let ghost before = writes.deep_view();
        let ghost taken = numbers@;
        proof {
            assert(next.drop_last() =~= earlier);
            assert(next.last() == ops@[i as int].deep_view());
        }
        match &ops[i] {
            RowOperation::InlineSchema { table_id, schema_version, arrow_schema } => {
                push_write(
                    &mut writes,
                    inline_schema_write(*table_id, *schema_version, arrow_schema),
                );
            },
            RowOperation::InlineInsert {
                table_id,
                schema_version,
                begin_snapshot,
                row_id_start,
                row_count,
                arrow_body,
            } => {
                proof {
                    chunks_are_operations(earlier, ((*table_id, *schema_version), *begin_snapshot));
                }
                let chunk_seq = numbers.next(*table_id, *schema_version, *begin_snapshot);
                push_write(
                    &mut writes,
                    inline_insert_write(
                        *table_id,
                        *schema_version,
                        *begin_snapshot,
                        chunk_seq,
                        *row_id_start,
                        *row_count,
                        arrow_body,
                    ),
                );
            },
            RowOperation::InlineInlineDelete { table_id, row_id, end_snapshot } => {
                push_write(
                    &mut writes,
                    inline_inline_delete_write(*table_id, *row_id, *end_snapshot),
                );
            },
            RowOperation::InlineFileDelete { table_id, data_file_id, row_id, begin_snapshot } => {
                push_write(
                    &mut writes,
                    inline_file_delete_write(*table_id, *data_file_id, *row_id, *begin_snapshot),
                );
            },
            RowOperation::InlineFlushDelete { table_id, schema_version, flush_snapshot } => {
                let table = scan_of(scans, *table_id);
                let _ = translate_inline_flush_delete(
                    &table,
                    *table_id,
                    *schema_version,
                    *flush_snapshot,
                    &mut writes,
                );
            },
            RowOperation::InlineDrop { table_id } => {
                let table = scan_of(scans, *table_id);
                translate_inline_drop(&table, *table_id, &mut writes);
            },
            RowOperation::InlineSchemaDrop { table_id, schema_version } => {
                push_write(&mut writes, inline_schema_drop_write(*table_id, *schema_version));
            },
            RowOperation::InlineFileDeleteRemove { table_id, data_file_id, row_id } => {
                push_write(
                    &mut writes,
                    inline_file_delete_remove_write(*table_id, *data_file_id, *row_id),
                );
            },
            RowOperation::Insert { .. }
            | RowOperation::Delete { .. }
            | RowOperation::UpdateSetEnd { .. }
            | RowOperation::UpdateSetBegin { .. } => {},
        }
        proof {
            assert(writes.deep_view() =~= before + inline_op_writes(earlier, next.last(), scans@));
            assert forall|place: ChunkPlace| #[trigger]
                numbers_taken(numbers@, place) == chunks_at(next, place) by {
                assert(numbers_taken(taken, place) == chunks_at(earlier, place));
            }
        }
        i = i + 1;
    }
    assert(q.take(q.len() as int) =~= q);
    writes
}

/// The table whose inlined records an operation removes.
pub open spec fn emptied_table(op: RowModel) -> Option<u64> {
    match op {
        RowModel::InlineFlushDelete { table_id, .. } => Some(table_id),
        RowModel::InlineDrop { table_id } => Some(table_id),
        _ => None,
    }
}

/// The tables whose inlined records a commit removes.
pub open spec fn emptied_tables(ops: Seq<RowModel>) -> Set<u64> {
    Set::new(
        |t: u64|
            exists|i: int| 0 <= i < ops.len() && emptied_table(#[trigger] ops[i]) == Some(t),
    )
}

/// The tables whose inlined records a commit removes, and whose records it thus
/// has to know.
pub fn tables_to_scan(ops: &Vec<RowOperation>) -> (tables: OrdSet<u64>)
    ensures
        tables@ == emptied_tables(ops.deep_view()),
{
    let ghost q = ops.deep_view();
    let mut tables: OrdSet<u64> = OrdSet::new();
    let mut i: usize = 0;
    while i < ops.len()
        invariant
            i <= ops@.len(),
            q == ops.deep_view(),
            forall|t: u64| #[trigger]
                tables@.contains(t) <==> exists|j: int|
                    0 <= j < i && emptied_table(#[trigger] q[j]) == Some(t),
        decreases ops.len() - i,
    {
        let ghost was = tables@;
        assert(q[i as int] == ops@[i as int].deep_view());
        match &ops[i] {
            RowOperation::InlineFlushDelete { table_id, .. } => tables.insert(*table_id),
            RowOperation::InlineDrop { table_id } => tables.insert(*table_id),
            _ => {},
        }
        proof {
            assert forall|t: u64| #[trigger] tables@.contains(t) <==> exists|j: int|
                0 <= j < i + 1 && emptied_table(#[trigger] q[j]) == Some(t) by {
                assert(tables@.contains(t) <==> was.contains(t) || emptied_table(q[i as int])
                    == Some(t));
            }
        }
        i = i + 1;
    }
    assert(tables@ =~= emptied_tables(q));
    tables
}

/// What other tables hold does not matter to a commit.
pub proof fn other_tables_do_not_matter(
    ops: Seq<RowModel>,
    scans: Map<u64, InlineTableModel>,
    more: Map<u64, InlineTableModel>,
)
    requires
        forall|t: u64| #[trigger]
            emptied_tables(ops).contains(t) ==> scanned(scans, t) == scanned(more, t),
    ensures
        inline_writes(ops, scans) == inline_writes(ops, more),
    decreases ops.len(),
{
    if ops.len() > 0 {
        let front = ops.drop_last();
        assert forall|t: u64| #[trigger] emptied_tables(front).contains(t) implies scanned(
            scans,
            t,
        ) == scanned(more, t) by {
            let i = choose|i: int|
                0 <= i < front.len() && emptied_table(#[trigger] front[i]) == Some(t);
            assert(emptied_table(ops[i]) == Some(t));
            assert(emptied_tables(ops).contains(t));
        }
        other_tables_do_not_matter(front, scans, more);
        match emptied_table(ops.last()) {
            Some(t) => {
                assert(emptied_table(ops[ops.len() - 1]) == Some(t));
                assert(emptied_tables(ops).contains(t));
            },
            None => {},
        }
    }
}

} // verus!
