//! The upkeep of equality indexes over a whole commit of staged rows.
use crate::api::TableId;
use crate::catalog::{CatalogModel, CatalogSnapshot};
use crate::decode::{data_file_row, delete_file_row, insert_refusal};
use crate::error::{around, refused, text_around, Error, Fault};
use crate::index_changes::{
    chunk_entries, collect_delete_file_rows, file_entries, killed_entries, killed_in,
    pending_inline_schemas, pending_schemas, removed_inline, stage_data_file_index_entries,
    stage_file_delete_entries, stage_inline_chunk_entries, stage_inline_delete_entries,
    with_delete_file, ChunkModel, IndexReads, InlineChunk, ReadsModel,
};
use crate::index_entries::{
    entry_writes, stage_index_entries, writes_left, IndexEntryModel, StagedIndexEntry,
};
use crate::index_upkeep::{indexes_listed, no_store, KilledRows};
use crate::keys::{StagedWrite, WriteModel};
use crate::ordered::{ascending, finite_sets_ascend, OrdMap, Record};
use crate::rows::{CellModel, RowModel, RowOperation, TableKind};
use vstd::prelude::*;

verus! {

/// What the operations of a commit change: entries to add, and rows to remove
/// entries of, by where their values are read.
#[verifier::ext_equal]
pub struct GatheredModel {
    pub entries: Seq<IndexEntryModel>,
    /// Inlined rows that end, by table.
    pub inline_deletes: Map<u64, Seq<u64>>,
    /// Positions that are killed, by table and data file.
    pub file_deletes: Map<(u64, u64), Set<u64>>,
}

/// What the operations of a commit change.
pub struct Gathered {
    pub entries: Vec<StagedIndexEntry>,
    pub inline_deletes: OrdMap<u64, Vec<u64>>,
    pub file_deletes: OrdMap<(u64, u64), KilledRows>,
}

impl View for Gathered {
    type V = GatheredModel;

    open spec fn view(&self) -> GatheredModel {
        GatheredModel {
            entries: self.entries.deep_view(),
            inline_deletes: self.inline_deletes@,
            file_deletes: self.file_deletes@,
        }
    }
}

/// The entries of a chunk that a commit adds. Its rows are needed only where
/// its table has an index.
pub open spec fn added_chunk_entries(
    m: CatalogModel,
    pending: Map<(u64, u64), Seq<u8>>,
    reads: ReadsModel,
    table_id: u64,
    schema_version: u64,
    row_id_start: u64,
    row_count: u64,
    number: u64,
) -> Result<Seq<IndexEntryModel>, Fault> {
    if indexes_listed(m, table_id).len() == 0 {
        Ok(Seq::empty())
    } else if !reads.staged_chunks.contains_key(number) {
        Err(Fault::Store(around("the inline chunk of operation "@, number, " was not read"@)))
    } else {
        chunk_entries(
            m,
            pending,
            reads.schemas,
            table_id,
            ChunkModel {
                schema_version,
                row_id_start,
                row_count,
                rows: reads.staged_chunks[number],
            },
            None,
        )
    }
}

/// What one more operation changes, or why it is refused.
pub open spec fn gathered_with(
    m: CatalogModel,
    pending: Map<(u64, u64), Seq<u8>>,
    reads: ReadsModel,
    data_prefix: Seq<char>,
    g: GatheredModel,
    op: RowModel,
    number: u64,
) -> Result<GatheredModel, Fault> {
    match op {
        RowModel::Insert { table, cells } => if table == TableKind::DataFile {
            match file_entries(m, cells, reads, data_prefix) {
                Err(f) => Err(f),
                Ok(more) => Ok(GatheredModel { entries: g.entries + more, ..g }),
            }
        } else if table == TableKind::DeleteFile {
            match with_delete_file(m, cells, reads, data_prefix, g.file_deletes) {
                Err(f) => Err(f),
                Ok(file_deletes) => Ok(GatheredModel { file_deletes, ..g }),
            }
        } else {
            Ok(g)
        },
        RowModel::InlineInsert { table_id, schema_version, row_id_start, row_count, .. } => {
            match added_chunk_entries(
                m,
                pending,
                reads,
                table_id,
                schema_version,
                row_id_start,
                row_count,
                number,
            ) {
                Err(f) => Err(f),
                Ok(more) => Ok(GatheredModel { entries: g.entries + more, ..g }),
            }
        },
        RowModel::InlineInlineDelete { table_id, row_id, .. } => Ok(
            GatheredModel {
                inline_deletes: g.inline_deletes.insert(
                    table_id,
                    rows_ending(g.inline_deletes, table_id).push(row_id),
                ),
                ..g
            },
        ),
        RowModel::InlineFileDelete { table_id, data_file_id, row_id, .. } => Ok(
            GatheredModel {
                file_deletes: g.file_deletes.insert(
                    (table_id, data_file_id),
                    killed_in(g.file_deletes, (table_id, data_file_id)).insert(row_id),
                ),
                ..g
            },
        ),
        _ => Ok(g),
    }
}

/// The inlined rows of a table that end.
pub open spec fn rows_ending(m: Map<u64, Seq<u64>>, table_id: u64) -> Seq<u64> {
    if m.contains_key(table_id) {
        m[table_id]
    } else {
        Seq::empty()
    }
}

/// What the operations of a commit change, or why the first bad one is
/// refused.
pub open spec fn gathered(
    m: CatalogModel,
    pending: Map<(u64, u64), Seq<u8>>,
    reads: ReadsModel,
    data_prefix: Seq<char>,
    ops: Seq<RowModel>,
) -> Result<GatheredModel, Fault>
    decreases ops.len(),
{
    if ops.len() == 0 {
        Ok(
            GatheredModel {
                entries: Seq::empty(),
                inline_deletes: Map::empty(),
                file_deletes: Map::empty(),
            },
        )
    } else {
        match gathered(m, pending, reads, data_prefix, ops.drop_last()) {
            Err(f) => Err(f),
            Ok(g) => gathered_with(
                m,
                pending,
                reads,
                data_prefix,
                g,
                ops.last(),
                (ops.len() - 1) as u64,
            ),
        }
    }
}

pub(crate) proof fn gather_refusal_stays(
    m: CatalogModel,
    pending: Map<(u64, u64), Seq<u8>>,
    reads: ReadsModel,
    data_prefix: Seq<char>,
    ops: Seq<RowModel>,
    n: int,
)
    requires
        0 <= n <= ops.len(),
        gathered(m, pending, reads, data_prefix, ops.take(n)) is Err,
    ensures
        gathered(m, pending, reads, data_prefix, ops) == gathered(
            m,
            pending,
            reads,
            data_prefix,
            ops.take(n),
        ),
    decreases ops.len(),
{
    if n == ops.len() {
        assert(ops.take(n) =~= ops);
    } else {
        assert(ops.drop_last().take(n) =~= ops.take(n));
        gather_refusal_stays(m, pending, reads, data_prefix, ops.drop_last(), n);
    }
}

/// The entries with the removals for the inlined rows of tables that end,
/// table by table.
pub open spec fn with_inline_removals(
    m: CatalogModel,
    ops: Seq<RowModel>,
    reads: ReadsModel,
    ending: Map<u64, Seq<u64>>,
    tables: Seq<u64>,
    entries: Seq<IndexEntryModel>,
) -> Result<Seq<IndexEntryModel>, Fault>
    decreases tables.len(),
{
    if tables.len() == 0 {
        Ok(entries)
    } else {
        match with_inline_removals(m, ops, reads, ending, tables.drop_last(), entries) {
            Err(f) => Err(f),
            Ok(before) => match removed_inline(m, ops, reads, tables.last(), ending[tables.last()]) {
                Err(f) => Err(f),
                Ok(more) => Ok(before + more),
            },
        }
    }
}

proof fn inline_removal_refusal_stays(
    m: CatalogModel,
    ops: Seq<RowModel>,
    reads: ReadsModel,
    ending: Map<u64, Seq<u64>>,
    tables: Seq<u64>,
    entries: Seq<IndexEntryModel>,
    n: int,
)
    requires
        0 <= n <= tables.len(),
        with_inline_removals(m, ops, reads, ending, tables.take(n), entries) is Err,
    ensures
        with_inline_removals(m, ops, reads, ending, tables, entries) == with_inline_removals(
            m,
            ops,
            reads,
            ending,
            tables.take(n),
            entries,
        ),
    decreases tables.len(),
{
    if n == tables.len() {
        assert(tables.take(n) =~= tables);
    } else {
        assert(tables.drop_last().take(n) =~= tables.take(n));
        inline_removal_refusal_stays(m, ops, reads, ending, tables.drop_last(), entries, n);
    }
}

/// The entries with the removals for the killed rows of data files, file by
/// file.
pub open spec fn with_file_removals(
    m: CatalogModel,
    reads: ReadsModel,
    data_prefix: Seq<char>,
    killed: Map<(u64, u64), Set<u64>>,
    files: Seq<(u64, u64)>,
    entries: Seq<IndexEntryModel>,
) -> Result<Seq<IndexEntryModel>, Fault>
    decreases files.len(),
{
    if files.len() == 0 {
        Ok(entries)
    } else {
        match with_file_removals(m, reads, data_prefix, killed, files.drop_last(), entries) {
            Err(f) => Err(f),
            Ok(before) => match killed_entries(
                m,
                files.last(),
                killed[files.last()],
                reads,
                data_prefix,
            ) {
                Err(f) => Err(f),
                Ok(more) => Ok(before + more),
            },
        }
    }
}

proof fn file_removal_refusal_stays(
    m: CatalogModel,
    reads: ReadsModel,
    data_prefix: Seq<char>,
    killed: Map<(u64, u64), Set<u64>>,
    files: Seq<(u64, u64)>,
    entries: Seq<IndexEntryModel>,
    n: int,
)
    requires
        0 <= n <= files.len(),
        with_file_removals(m, reads, data_prefix, killed, files.take(n), entries) is Err,
    ensures
        with_file_removals(m, reads, data_prefix, killed, files, entries) == with_file_removals(
            m,
            reads,
            data_prefix,
            killed,
            files.take(n),
            entries,
        ),
    decreases files.len(),
{
    if n == files.len() {
        assert(files.take(n) =~= files);
    } else {
        assert(files.drop_last().take(n) =~= files.take(n));
        file_removal_refusal_stays(m, reads, data_prefix, killed, files.drop_last(), entries, n);
    }
}

/// The entries that a commit changes: additions in the order of the
/// operations, then removals, tables and files in ascending order.
pub open spec fn changed_entries(
    m: CatalogModel,
    ops: Seq<RowModel>,
    reads: ReadsModel,
    data_prefix: Seq<char>,
) -> Result<Seq<IndexEntryModel>, Fault> {
    match gathered(m, pending_schemas(ops), reads, data_prefix, ops) {
        Err(f) => Err(f),
        Ok(g) => match with_inline_removals(
            m,
            ops,
            reads,
            g.inline_deletes,
            ascending::<u64>(g.inline_deletes.dom()),
            g.entries,
        ) {
            Err(f) => Err(f),
            Ok(entries) => with_file_removals(
                m,
                reads,
                data_prefix,
                g.file_deletes,
                ascending::<(u64, u64)>(g.file_deletes.dom()),
                entries,
            ),
        },
    }
}

/// The writes that keep the indexes up with a commit.
pub open spec fn upkeep_writes(
    m: CatalogModel,
    ops: Seq<RowModel>,
    reads: ReadsModel,
    data_prefix: Seq<char>,
) -> Result<Seq<WriteModel>, Fault> {
    match changed_entries(m, ops, reads, data_prefix) {
        Err(f) => Err(f),
        Ok(entries) => if entries.len() == 0 {
            Ok(Seq::empty())
        } else {
            entry_writes(entries, reads.held)
        },
    }
}

/// Takes in what one more operation changes.
pub(crate) fn gather_op(
    base: &CatalogSnapshot,
    pending: &OrdMap<(u64, u64), Vec<u8>>,
    reads: &IndexReads,
    data_prefix: &str,
    g: &mut Gathered,
    op: &RowOperation,
    number: u64,
) -> (r: Result<(), Error>)
    ensures
        match gathered_with(
            base@,
            pending@,
            reads@,
            data_prefix@,
            old(g)@,
            op.deep_view(),
            number,
        ) {
            Err(f) => refused(r, f),
            Ok(next) => r is Ok && final(g)@ == next,
        },
{
    match op {
        RowOperation::Insert { table, cells } => match *table {
            TableKind::DataFile => stage_data_file_index_entries(
                base,
                cells,
                reads,
                data_prefix,
                &mut g.entries,
            ),
            TableKind::DeleteFile => collect_delete_file_rows(
                base,
                cells,
                reads,
                data_prefix,
                &mut g.file_deletes,
            ),
            _ => Ok(()),
        },
        RowOperation::InlineInsert { table_id, schema_version, row_id_start, row_count, .. } => {
            let indexes = base.indexes_of(TableId::new(*table_id));
            assert(indexes.deep_view().len() == indexes@.len());
            if indexes.len() == 0 {
                assert(g.entries.deep_view() =~= g.entries.deep_view() + Seq::<
                    IndexEntryModel,
                >::empty());
                return Ok(());
            }
            match reads.staged_chunks.get(&number) {
                None => Err(
                    Error::Store(
                        text_around("the inline chunk of operation ", number, " was not read"),
                    ),
                ),
                Some(rows) => {
                    let chunk = InlineChunk {
                        schema_version: *schema_version,
                        row_id_start: *row_id_start,
                        row_count: *row_count,
                        rows: rows.dup(),
                    };
                    stage_inline_chunk_entries(
                        base,
                        pending,
                        &reads.schemas,
                        *table_id,
                        &chunk,
                        None,
                        &mut g.entries,
                    )
                },
            }
        },
        RowOperation::InlineInlineDelete { table_id, row_id, .. } => {
            let mut rows = match g.inline_deletes.remove(table_id) {
                Some(rows) => rows,
                None => {
                    let rows: Vec<u64> = Vec::new();
                    assert(rows.deep_view() =~= Seq::<u64>::empty());
                    rows
                },
            };
            let ghost was = rows.deep_view();
            rows.push(*row_id);
            assert(rows.deep_view() =~= was.push(*row_id));
            g.inline_deletes.insert(*table_id, rows);
            assert(g.inline_deletes@ =~= old(g)@.inline_deletes.insert(
                *table_id,
                rows_ending(old(g)@.inline_deletes, *table_id).push(*row_id),
            ));
            Ok(())
        },
        RowOperation::InlineFileDelete { table_id, data_file_id, row_id, .. } => {
            let file = (*table_id, *data_file_id);
            let mut killed = match g.file_deletes.remove(&file) {
                Some(killed) => killed,
                None => KilledRows::new(),
            };
            killed.insert_position(*row_id);
            g.file_deletes.insert(file, killed);
            assert(g.file_deletes@ =~= old(g)@.file_deletes.insert(
                file,
                killed_in(old(g)@.file_deletes, file).insert(*row_id),
            ));
            Ok(())
        },
        _ => Ok(()),
    }
}

fn gather(
    base: &CatalogSnapshot,
    pending: &OrdMap<(u64, u64), Vec<u8>>,
    reads: &IndexReads,
    data_prefix: &str,
    ops: &Vec<RowOperation>,
) -> (r: Result<Gathered, Error>)
    ensures
        match gathered(base@, pending@, reads@, data_prefix@, ops.deep_view()) {
            Err(f) => refused(r, f),
            Ok(g) => r is Ok && r->Ok_0@ == g,
        },
{
    let ghost q = ops.deep_view();
    let mut g = Gathered {
        entries: Vec::new(),
        inline_deletes: OrdMap::new(),
        file_deletes: OrdMap::new(),
    };
    let mut i: usize = 0;
    proof {
        assert(q.take(0) =~= Seq::<RowModel>::empty());
        assert(g.entries.deep_view() =~= Seq::<IndexEntryModel>::empty());
    }
    while i < ops.len()
        invariant
            i <= ops@.len(),
            q == ops.deep_view(),
            gathered(base@, pending@, reads@, data_prefix@, q.take(i as int)) == Ok::<
                GatheredModel,
                Fault,
            >(g@),
        decreases ops.len() - i,
    {
        proof {
            let next = q.take(i + 1);
            assert(next.drop_last() =~= q.take(i as int));
            assert(next.last() == ops@[i as int].deep_view());
        }
        match gather_op(base, pending, reads, data_prefix, &mut g, &ops[i], i as u64) {
            Err(e) => {
                proof {
                    gather_refusal_stays(base@, pending@, reads@, data_prefix@, q, i + 1);
                }
                return Err(e);
            },
            Ok(()) => {},
        }
        i = i + 1;
    }
    assert(q.take(q.len() as int) =~= q);
    Ok(g)
}

fn remove_inline(
    base: &CatalogSnapshot,
    ops: &Vec<RowOperation>,
    pending: &OrdMap<(u64, u64), Vec<u8>>,
    reads: &IndexReads,
    ending: &OrdMap<u64, Vec<u64>>,
    entries: &mut Vec<StagedIndexEntry>,
) -> (r: Result<(), Error>)
    requires
        pending@ == pending_schemas(ops.deep_view()),
    ensures
        match with_inline_removals(
            base@,
            ops.deep_view(),
            reads@,
            ending@,
            ascending::<u64>(ending@.dom()),
            old(entries).deep_view(),
        ) {
            Err(f) => refused(r, f),
            Ok(all) => r is Ok && final(entries).deep_view() == all,
        },
{
    let tables = ending.keys();
    let ghost q = tables.deep_view();
    let ghost start = entries.deep_view();
    let mut i: usize = 0;
    assert(q.take(0) =~= Seq::<u64>::empty());
    while i < tables.len()
        invariant
            i <= tables@.len(),
            q == tables.deep_view(),
            q.to_set() == ending@.dom(),
            q == ascending::<u64>(ending@.dom()),
            start == old(entries).deep_view(),
            pending@ == pending_schemas(ops.deep_view()),
            with_inline_removals(
                base@,
                ops.deep_view(),
                reads@,
                ending@,
                q.take(i as int),
                start,
            ) == Ok::<Seq<IndexEntryModel>, Fault>(entries.deep_view()),
        decreases tables.len() - i,
    {
        let table_id: u64 = tables[i];
        proof {
            let next = q.take(i + 1);
            assert(next.drop_last() =~= q.take(i as int));
            assert(next.last() == table_id);
            assert(q[i as int] == table_id);
            assert(q.to_set().contains(table_id));
        }
        match ending.get(&table_id) {
            Some(row_ids) => {
                assert(row_ids.deep_view() =~= row_ids@);
                match stage_inline_delete_entries(
                    base,
                    ops,
                    pending,
                    reads,
                    table_id,
                    row_ids,
                    entries,
                ) {
                    Err(e) => {
                        proof {
                            inline_removal_refusal_stays(
                                base@,
                                ops.deep_view(),
                                reads@,
                                ending@,
                                q,
                                start,
                                i + 1,
                            );
                        }
                        return Err(e);
                    },
                    Ok(()) => {},
                }
            },
            None => {},
        }
        i = i + 1;
    }
    assert(q.take(q.len() as int) =~= q);
    Ok(())
}

fn remove_killed(
    base: &CatalogSnapshot,
    reads: &IndexReads,
    data_prefix: &str,
    killed: &OrdMap<(u64, u64), KilledRows>,
    entries: &mut Vec<StagedIndexEntry>,
) -> (r: Result<(), Error>)
    ensures
        match with_file_removals(
            base@,
            reads@,
            data_prefix@,
            killed@,
            ascending::<(u64, u64)>(killed@.dom()),
            old(entries).deep_view(),
        ) {
            Err(f) => refused(r, f),
            Ok(all) => r is Ok && final(entries).deep_view() == all,
        },
{
    let files = killed.keys();
    let ghost q = files.deep_view();
    let ghost start = entries.deep_view();
    let mut i: usize = 0;
    assert(q.take(0) =~= Seq::<(u64, u64)>::empty());
    while i < files.len()
        invariant
            i <= files@.len(),
            q == files.deep_view(),
            q.to_set() == killed@.dom(),
            q == ascending::<(u64, u64)>(killed@.dom()),
            start == old(entries).deep_view(),
            with_file_removals(base@, reads@, data_prefix@, killed@, q.take(i as int), start)
                == Ok::<Seq<IndexEntryModel>, Fault>(entries.deep_view()),
        decreases files.len() - i,
    {
        let file = files[i];
        proof {
            let next = q.take(i + 1);
            assert(next.drop_last() =~= q.take(i as int));
            assert(next.last() == file);
            assert(q[i as int] == file);
            assert(q.to_set().contains(file));
        }
        match killed.get(&file) {
            Some(rows) => {
                match stage_file_delete_entries(
                    base,
                    file.0,
                    file.1,
                    rows,
                    reads,
                    data_prefix,
                    entries,
                ) {
                    Err(e) => {
                        proof {
                            file_removal_refusal_stays(
                                base@,
                                reads@,
                                data_prefix@,
                                killed@,
                                q,
                                start,
                                i + 1,
                            );
                        }
                        return Err(e);
                    },
                    Ok(()) => {},
                }
            },
            None => {},
        }
        i = i + 1;
    }
    assert(q.take(q.len() as int) =~= q);
    Ok(())
}

/// The entries that a commit changes.
pub fn derive_index_entries(
    base: &CatalogSnapshot,
    ops: &Vec<RowOperation>,
    reads: &IndexReads,
    data_prefix: &str,
) -> (r: Result<Vec<StagedIndexEntry>, Error>)
    ensures
        match changed_entries(base@, ops.deep_view(), reads@, data_prefix@) {
            Err(f) => refused(r, f),
            Ok(entries) => r is Ok && r->Ok_0.deep_view() == entries,
        },
{
    let pending = pending_inline_schemas(ops);
    let g = match gather(base, &pending, reads, data_prefix, ops) {
        Err(e) => return Err(e),
        Ok(g) => g,
    };
    let inline_deletes = g.inline_deletes;
    let file_deletes = g.file_deletes;
    let mut entries = g.entries;
    match remove_inline(base, ops, &pending, reads, &inline_deletes, &mut entries) {
        Err(e) => return Err(e),
        Ok(()) => {},
    }
    match remove_killed(base, reads, data_prefix, &file_deletes, &mut entries) {
        Err(e) => return Err(e),
        Ok(()) => {},
    }
    Ok(entries)
}

/// The writes that upkeep leaves behind where it is refused: none where the
/// entries themselves cannot be derived, else what was staged before the entry
/// whose value another row has.
pub open spec fn upkeep_left(
    m: CatalogModel,
    ops: Seq<RowModel>,
    reads: ReadsModel,
    data_prefix: Seq<char>,
) -> Seq<WriteModel> {
    match changed_entries(m, ops, reads, data_prefix) {
        Err(_) => Seq::empty(),
        Ok(entries) => writes_left(entries, reads.held),
    }
}

/// Stages the changes of index entries that a commit makes. A commit that
/// touches no indexed table stages none. The entries are all derived before
/// anything is staged: where they cannot be, the writes stay as they are.
pub fn stage_index_maintenance(
    base: &CatalogSnapshot,
    ops: &Vec<RowOperation>,
    reads: &IndexReads,
    data_prefix: &str,
    writes: &mut Vec<StagedWrite>,
) -> (r: Result<(), Error>)
    ensures
        changed_entries(base@, ops.deep_view(), reads@, data_prefix@) is Err ==> *final(writes)
            == *old(writes),
        changed_entries(base@, ops.deep_view(), reads@, data_prefix@) == Ok::<
            Seq<IndexEntryModel>,
            Fault,
        >(Seq::empty()) ==> *final(writes) == *old(writes),
        match upkeep_writes(base@, ops.deep_view(), reads@, data_prefix@) {
            Err(f) => refused(r, f) && final(writes).deep_view() == old(writes).deep_view()
                + upkeep_left(base@, ops.deep_view(), reads@, data_prefix@),
            Ok(more) => r is Ok && final(writes).deep_view() == old(writes).deep_view() + more,
        },
{
    assert(writes.deep_view() =~= writes.deep_view() + Seq::<WriteModel>::empty());
    let entries = match derive_index_entries(base, ops, reads, data_prefix) {
        Err(e) => return Err(e),
        Ok(entries) => entries,
    };
    assert(entries.deep_view().len() == entries@.len());
    if entries.len() == 0 {
        return Ok(());
    }
    stage_index_entries(&reads.held, &entries, writes)
}

/// Whether an operation can change an index: it inserts a file, or touches
/// inlined rows.
pub open spec fn touches_rows(op: RowModel) -> bool {
    match op {
        RowModel::Insert { table, .. } => table == TableKind::DataFile || table
            == TableKind::DeleteFile,
        RowModel::InlineInsert { .. } => true,
        RowModel::InlineInlineDelete { .. } => true,
        RowModel::InlineFileDelete { .. } => true,
        _ => false,
    }
}

/// A commit that touches no rows leaves every index alone.
pub proof fn untouched_rows_need_no_upkeep(
    m: CatalogModel,
    ops: Seq<RowModel>,
    reads: ReadsModel,
    data_prefix: Seq<char>,
)
    requires
        forall|i: int| 0 <= i < ops.len() ==> !touches_rows(#[trigger] ops[i]),
    ensures
        upkeep_writes(m, ops, reads, data_prefix) == Ok::<Seq<WriteModel>, Fault>(Seq::empty()),
{
    assert forall|i: int| 0 <= i < ops.len() implies is_unindexed(m, #[trigger] ops[i]) by {
        assert(!touches_rows(ops[i]));
    }
    unindexed_tables_need_no_upkeep(m, ops, reads, data_prefix);
}

/// Whether an operation is about rows of tables without an index. A row that
/// registers a file is one that can be read.
pub open spec fn is_unindexed(m: CatalogModel, op: RowModel) -> bool {
    match op {
        RowModel::Insert { table, cells } => if table == TableKind::DataFile {
            insert_refusal(table, cells) is None && indexes_listed(
                m,
                data_file_row(cells).table_id,
            ).len() == 0
        } else if table == TableKind::DeleteFile {
            insert_refusal(table, cells) is None && indexes_listed(
                m,
                delete_file_row(cells).table_id,
            ).len() == 0
        } else {
            true
        },
        RowModel::InlineInsert { table_id, .. } => indexes_listed(m, table_id).len() == 0,
        RowModel::InlineInlineDelete { table_id, .. } => indexes_listed(m, table_id).len() == 0,
        RowModel::InlineFileDelete { table_id, .. } => indexes_listed(m, table_id).len() == 0,
        _ => true,
    }
}

proof fn unindexed_gathered(
    m: CatalogModel,
    pending: Map<(u64, u64), Seq<u8>>,
    reads: ReadsModel,
    data_prefix: Seq<char>,
    ops: Seq<RowModel>,
)
    requires
        forall|i: int| 0 <= i < ops.len() ==> is_unindexed(m, #[trigger] ops[i]),
    ensures
        ({
            let g = gathered(m, pending, reads, data_prefix, ops)->Ok_0;
            &&& gathered(m, pending, reads, data_prefix, ops) is Ok
            &&& g.entries == Seq::<IndexEntryModel>::empty()
            &&& g.inline_deletes.dom().finite()
            &&& g.file_deletes.dom().finite()
            &&& forall|t: u64| #[trigger]
                g.inline_deletes.contains_key(t) ==> indexes_listed(m, t).len() == 0
            &&& forall|f: (u64, u64)| #[trigger]
                g.file_deletes.contains_key(f) ==> indexes_listed(m, f.0).len() == 0
        }),
    decreases ops.len(),
{
    if ops.len() > 0 {
        let front = ops.drop_last();
        assert forall|i: int| 0 <= i < front.len() implies is_unindexed(m, #[trigger] front[i]) by {
            assert(front[i] == ops[i]);
        }
        unindexed_gathered(m, pending, reads, data_prefix, front);
        assert(is_unindexed(m, ops[ops.len() - 1]));
        let none = Seq::<IndexEntryModel>::empty();
        assert(none + none =~= none);
    }
}

proof fn unindexed_rows_end_nothing(
    m: CatalogModel,
    ops: Seq<RowModel>,
    reads: ReadsModel,
    ending: Map<u64, Seq<u64>>,
    tables: Seq<u64>,
    entries: Seq<IndexEntryModel>,
)
    requires
        forall|i: int| 0 <= i < tables.len() ==> indexes_listed(m, #[trigger] tables[i]).len() == 0,
    ensures
        with_inline_removals(m, ops, reads, ending, tables, entries) == Ok::<
            Seq<IndexEntryModel>,
            Fault,
        >(entries),
    decreases tables.len(),
{
    if tables.len() > 0 {
        unindexed_rows_end_nothing(m, ops, reads, ending, tables.drop_last(), entries);
        assert(indexes_listed(m, tables[tables.len() - 1]).len() == 0);
        assert(entries + Seq::<IndexEntryModel>::empty() =~= entries);
    }
}

proof fn unindexed_files_kill_nothing(
    m: CatalogModel,
    reads: ReadsModel,
    data_prefix: Seq<char>,
    killed: Map<(u64, u64), Set<u64>>,
    files: Seq<(u64, u64)>,
    entries: Seq<IndexEntryModel>,
)
    requires
        forall|i: int| 0 <= i < files.len() ==> indexes_listed(m, (#[trigger] files[i]).0).len() == 0,
    ensures
        with_file_removals(m, reads, data_prefix, killed, files, entries) == Ok::<
            Seq<IndexEntryModel>,
            Fault,
        >(entries),
    decreases files.len(),
{
    if files.len() > 0 {
        unindexed_files_kill_nothing(m, reads, data_prefix, killed, files.drop_last(), entries);
        assert(indexes_listed(m, files[files.len() - 1].0).len() == 0);
        assert(entries + Seq::<IndexEntryModel>::empty() =~= entries);
    }
}

/// A commit about tables without an index needs no upkeep, and no read for it.
pub proof fn unindexed_tables_need_no_upkeep(
    m: CatalogModel,
    ops: Seq<RowModel>,
    reads: ReadsModel,
    data_prefix: Seq<char>,
)
    requires
        forall|i: int| 0 <= i < ops.len() ==> is_unindexed(m, #[trigger] ops[i]),
    ensures
        changed_entries(m, ops, reads, data_prefix) == Ok::<Seq<IndexEntryModel>, Fault>(
            Seq::empty(),
        ),
        upkeep_writes(m, ops, reads, data_prefix) == Ok::<Seq<WriteModel>, Fault>(Seq::empty()),
{
    let pending = pending_schemas(ops);
    unindexed_gathered(m, pending, reads, data_prefix, ops);
    let g = gathered(m, pending, reads, data_prefix, ops)->Ok_0;
    let tables = ascending::<u64>(g.inline_deletes.dom());
    let files = ascending::<(u64, u64)>(g.file_deletes.dom());
    finite_sets_ascend::<u64>(g.inline_deletes.dom());
    finite_sets_ascend::<(u64, u64)>(g.file_deletes.dom());
    assert forall|i: int| 0 <= i < tables.len() implies indexes_listed(
        m,
        #[trigger] tables[i],
    ).len() == 0 by {
        assert(tables.to_set().contains(tables[i]));
        assert(g.inline_deletes.contains_key(tables[i]));
    }
    assert forall|i: int| 0 <= i < files.len() implies indexes_listed(
        m,
        (#[trigger] files[i]).0,
    ).len() == 0 by {
        assert(files.to_set().contains(files[i]));
        assert(g.file_deletes.contains_key(files[i]));
    }
    unindexed_rows_end_nothing(m, ops, reads, g.inline_deletes, tables, g.entries);
    unindexed_files_kill_nothing(m, reads, data_prefix, g.file_deletes, files, g.entries);
}

/// An index is never skipped in silence: a data file that is registered on an
/// indexed table while there is no store to read it from is refused, unless an
/// operation before it is.
pub proof fn files_need_a_store(
    m: CatalogModel,
    ops: Seq<RowModel>,
    reads: ReadsModel,
    data_prefix: Seq<char>,
    i: int,
    cells: Seq<CellModel>,
)
    requires
        0 <= i < ops.len(),
        ops[i] == (RowModel::Insert { table: TableKind::DataFile, cells }),
        insert_refusal(TableKind::DataFile, cells) is None,
        indexes_listed(m, data_file_row(cells).table_id).len() != 0,
        !reads.store,
        gathered(m, pending_schemas(ops), reads, data_prefix, ops.take(i)) is Ok,
    ensures
        upkeep_writes(m, ops, reads, data_prefix) == Err::<Seq<WriteModel>, Fault>(
            no_store("data file "@, data_file_row(cells).data_file_id, data_file_row(cells).table_id),
        ),
        upkeep_left(m, ops, reads, data_prefix) == Seq::<WriteModel>::empty(),
{
    let next = ops.take(i + 1);
    assert(next.drop_last() =~= ops.take(i));
    assert(next.last() == ops[i]);
    gather_refusal_stays(m, pending_schemas(ops), reads, data_prefix, ops, i + 1);
}

} // verus!
