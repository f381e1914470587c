//! What the upkeep of indexes still has to read. Rows lie in files and in
//! inlined chunks, which only the store can give: the library says what it
//! wants next, and goes on once that was read.
use crate::api::TableId;
use crate::catalog::{CatalogModel, CatalogSnapshot};
use crate::error::Fault;
use crate::index_changes::{
    chunks_of, killed_entries, pending_inline_schemas, pending_schemas, removed_inline, IndexReads,
    ReadsModel,
};
use crate::index_entries::IndexEntryModel;
use crate::index_upkeep::{
    data_file_read, delete_file_read, file_delete_read, indexes_listed, inserted_delete_read,
    inserted_file_read, killed_file_read, DeleteFileRead, DeleteReadModel, FileRead, FileReadModel,
    KilledRows,
};
use crate::ordered::{ascending, OrdMap, Record};
use crate::rows::{RowModel, RowOperation, TableKind};
use crate::upkeep::{
    changed_entries, gather_op, gather_refusal_stays, gathered, gathered_with,
    with_file_removals, with_inline_removals, Gathered, GatheredModel,
};
use vstd::prelude::*;

verus! {

/// A read that upkeep waits for.
pub enum Wanted {
    /// The rows of a data file that the commit inserts.
    InsertedFile(FileRead),
    /// The positions in a delete file that the commit inserts.
    DeleteFile(DeleteFileRead),
    /// The rows of the chunk that an operation adds.
    StagedChunk { number: u64, table_id: u64, schema_version: u64 },
    /// The chunks of a table that were there before. Only the rows of those that
    /// hold one of the ended rows matter.
    Chunks { table_id: u64, row_ids: Vec<u64> },
    /// The rows of a live data file.
    LiveFile { table_id: u64, data_file_id: u64, read: FileRead },
}

/// The model of [`Wanted`].
pub enum WantedModel {
    InsertedFile(FileReadModel),
    DeleteFile(DeleteReadModel),
    StagedChunk { number: u64, table_id: u64, schema_version: u64 },
    Chunks { table_id: u64, row_ids: Seq<u64> },
    LiveFile { table_id: u64, data_file_id: u64, read: FileReadModel },
}

impl View for Wanted {
    type V = WantedModel;

    open spec fn view(&self) -> WantedModel {
        match *self {
            Wanted::InsertedFile(read) => WantedModel::InsertedFile(read@),
            Wanted::DeleteFile(read) => WantedModel::DeleteFile(read@),
            Wanted::StagedChunk { number, table_id, schema_version } => WantedModel::StagedChunk {
                number,
                table_id,
                schema_version,
            },
            Wanted::Chunks { table_id, row_ids } => WantedModel::Chunks {
                table_id,
                row_ids: row_ids@,
            },
            Wanted::LiveFile { table_id, data_file_id, read } => WantedModel::LiveFile {
                table_id,
                data_file_id,
                read: read@,
            },
        }
    }
}

/// The read that an operation waits for, if any.
pub open spec fn wanted_by(
    m: CatalogModel,
    reads: ReadsModel,
    data_prefix: Seq<char>,
    op: RowModel,
    number: u64,
) -> Option<WantedModel> {
    match op {
        RowModel::Insert { table, cells } => if table == TableKind::DataFile {
            match inserted_file_read(m, cells, reads.store, data_prefix) {
                Ok(Some(read)) => if reads.inserted_files.contains_key(
                    (read.table_id, read.data_file_id),
                ) {
                    None
                } else {
                    Some(WantedModel::InsertedFile(read))
                },
                _ => None,
            }
        } else if table == TableKind::DeleteFile {
            match inserted_delete_read(m, cells, reads.store, data_prefix) {
                Ok(Some(read)) => if reads.delete_files.contains_key(
                    (read.table_id, read.delete_file_id),
                ) {
                    None
                } else {
                    Some(WantedModel::DeleteFile(read))
                },
                _ => None,
            }
        } else {
            None
        },
        RowModel::InlineInsert { table_id, schema_version, .. } => if indexes_listed(
            m,
            table_id,
        ).len() == 0 || reads.staged_chunks.contains_key(number) {
            None
        } else {
            Some(WantedModel::StagedChunk { number, table_id, schema_version })
        },
        _ => None,
    }
}

/// The first read that the operations of a commit wait for. What comes behind
/// an operation that is refused waits for nothing.
pub open spec fn wanted_by_ops(
    m: CatalogModel,
    pending: Map<(u64, u64), Seq<u8>>,
    reads: ReadsModel,
    data_prefix: Seq<char>,
    ops: Seq<RowModel>,
) -> Option<WantedModel>
    decreases ops.len(),
{
    if ops.len() == 0 {
        None
    } else {
        let front = ops.drop_last();
        match wanted_by_ops(m, pending, reads, data_prefix, front) {
            Some(w) => Some(w),
            None => if gathered(m, pending, reads, data_prefix, front) is Err {
                None
            } else {
                wanted_by(m, reads, data_prefix, ops.last(), (ops.len() - 1) as u64)
            },
        }
    }
}

/// The first table, of those whose inlined rows end, whose chunks were not
/// read. A table without an index needs none.
pub open spec fn wanted_by_tables(
    m: CatalogModel,
    reads: ReadsModel,
    ending: Map<u64, Seq<u64>>,
    tables: Seq<u64>,
    from: int,
) -> Option<WantedModel>
    decreases tables.len() - from,
{
    if from >= tables.len() {
        None
    } else if indexes_listed(m, tables[from]).len() != 0 && !reads.committed_chunks.contains_key(
        tables[from],
    ) {
        Some(WantedModel::Chunks { table_id: tables[from], row_ids: ending[tables[from]] })
    } else {
        wanted_by_tables(m, reads, ending, tables, from + 1)
    }
}

/// The first data file, of those whose rows are killed, that was not read.
pub open spec fn wanted_by_files(
    m: CatalogModel,
    reads: ReadsModel,
    data_prefix: Seq<char>,
    killed: Map<(u64, u64), Set<u64>>,
    files: Seq<(u64, u64)>,
    from: int,
) -> Option<WantedModel>
    decreases files.len() - from,
{
    if from >= files.len() {
        None
    } else {
        let file = files[from];
        match killed_file_read(m, file.0, file.1, killed[file], reads.store, data_prefix) {
            Ok(Some(read)) => if reads.live_files.contains_key(file) {
                wanted_by_files(m, reads, data_prefix, killed, files, from + 1)
            } else {
                Some(WantedModel::LiveFile { table_id: file.0, data_file_id: file.1, read })
            },
            _ => wanted_by_files(m, reads, data_prefix, killed, files, from + 1),
        }
    }
}

/// The next read that the upkeep of a commit waits for: what its operations
/// need in their order, then the chunks of inlined rows that end, then the
/// files whose rows are killed.
pub open spec fn next_wanted(
    m: CatalogModel,
    ops: Seq<RowModel>,
    reads: ReadsModel,
    data_prefix: Seq<char>,
) -> Option<WantedModel> {
    let pending = pending_schemas(ops);
    match wanted_by_ops(m, pending, reads, data_prefix, ops) {
        Some(w) => Some(w),
        None => match gathered(m, pending, reads, data_prefix, ops) {
            Err(_) => None,
            Ok(g) => match wanted_by_tables(
                m,
                reads,
                g.inline_deletes,
                ascending::<u64>(g.inline_deletes.dom()),
                0,
            ) {
                Some(w) => Some(w),
                None => wanted_by_files(
                    m,
                    reads,
                    data_prefix,
                    g.file_deletes,
                    ascending::<(u64, u64)>(g.file_deletes.dom()),
                    0,
                ),
            },
        },
    }
}

fn wanted_by_op(
    base: &CatalogSnapshot,
    reads: &IndexReads,
    data_prefix: &str,
    op: &RowOperation,
    number: u64,
) -> (w: Option<Wanted>)
    ensures
        match wanted_by(base@, reads@, data_prefix@, op.deep_view(), number) {
            None => w is None,
            Some(m) => w is Some && w->0@ == m,
        },
{
    match op {
        RowOperation::Insert { table, cells } => match *table {
            TableKind::DataFile => match data_file_read(base, cells, reads.store, data_prefix) {
                Ok(Some(read)) => if reads.inserted_files.contains_key(
                    &(read.table_id, read.data_file_id),
                ) {
                    None
                } else {
                    Some(Wanted::InsertedFile(read))
                },
                _ => None,
            },
            TableKind::DeleteFile => match delete_file_read(base, cells, reads.store, data_prefix) {
                Ok(Some(read)) => if reads.delete_files.contains_key(
                    &(read.table_id, read.delete_file_id),
                ) {
                    None
                } else {
                    Some(Wanted::DeleteFile(read))
                },
                _ => None,
            },
            _ => None,
        },
        RowOperation::InlineInsert { table_id, schema_version, .. } => {
            let indexes = base.indexes_of(TableId::new(*table_id));
            assert(indexes.deep_view().len() == indexes@.len());
            if indexes.len() == 0 || reads.staged_chunks.contains_key(&number) {
                None
            } else {
                Some(
                    Wanted::StagedChunk {
                        number,
                        table_id: *table_id,
                        schema_version: *schema_version,
                    },
                )
            }
        },
        _ => None,
    }
}

proof fn want_stays(
    m: CatalogModel,
    pending: Map<(u64, u64), Seq<u8>>,
    reads: ReadsModel,
    data_prefix: Seq<char>,
    ops: Seq<RowModel>,
    n: int,
)
    requires
        0 <= n <= ops.len(),
        wanted_by_ops(m, pending, reads, data_prefix, ops.take(n)) is Some || gathered(
            m,
            pending,
            reads,
            data_prefix,
            ops.take(n),
        ) is Err,
    ensures
        wanted_by_ops(m, pending, reads, data_prefix, ops) == wanted_by_ops(
            m,
            pending,
            reads,
            data_prefix,
            ops.take(n),
        ),
    decreases ops.len(),
{
    if n == ops.len() {
        assert(ops.take(n) =~= ops);
    } else {
        let front = ops.drop_last();
        assert(front.take(n) =~= ops.take(n));
        want_stays(m, pending, reads, data_prefix, front, n);
        if gathered(m, pending, reads, data_prefix, ops.take(n)) is Err {
            gather_refusal_stays(m, pending, reads, data_prefix, front, n);
        }
    }
}

fn wanted_by_ending(base: &CatalogSnapshot, reads: &IndexReads, ending: &OrdMap<u64, Vec<u64>>) -> (w:
    Option<Wanted>)
    ensures
        match wanted_by_tables(base@, reads@, ending@, ascending::<u64>(ending@.dom()), 0) {
            None => w is None,
            Some(m) => w is Some && w->0@ == m,
        },
{
    let tables = ending.keys();
    let ghost q = tables.deep_view();
    let mut i: usize = 0;
    while i < tables.len()
        invariant
            i <= tables@.len(),
            q == tables.deep_view(),
            q == ascending::<u64>(ending@.dom()),
            q.to_set() == ending@.dom(),
            wanted_by_tables(base@, reads@, ending@, q, 0) == wanted_by_tables(
                base@,
                reads@,
                ending@,
                q,
                i as int,
            ),
        decreases tables.len() - i,
    {
        let table_id: u64 = tables[i];
        proof {
            assert(q[i as int] == table_id);
            assert(q.to_set().contains(table_id));
        }
        let indexes = base.indexes_of(TableId::new(table_id));
        assert(indexes.deep_view().len() == indexes@.len());
        if indexes.len() != 0 && !reads.committed_chunks.contains_key(&table_id) {
            match ending.get(&table_id) {
                Some(row_ids) => {
                    let row_ids = row_ids.dup();
                    assert(row_ids.deep_view() =~= row_ids@);
                    return Some(Wanted::Chunks { table_id, row_ids });
                },
                None => {},
            }
        }
        i = i + 1;
    }
    None
}

fn wanted_by_killed(
    base: &CatalogSnapshot,
    reads: &IndexReads,
    data_prefix: &str,
    killed: &OrdMap<(u64, u64), KilledRows>,
) -> (w: Option<Wanted>)
    ensures
        match wanted_by_files(
            base@,
            reads@,
            data_prefix@,
            killed@,
            ascending::<(u64, u64)>(killed@.dom()),
            0,
        ) {
            None => w is None,
            Some(m) => w is Some && w->0@ == m,
        },
{
    let files = killed.keys();
    let ghost q = files.deep_view();
    let mut i: usize = 0;
    while i < files.len()
        invariant
            i <= files@.len(),
            q == files.deep_view(),
            q == ascending::<(u64, u64)>(killed@.dom()),
            q.to_set() == killed@.dom(),
            wanted_by_files(base@, reads@, data_prefix@, killed@, q, 0) == wanted_by_files(
                base@,
                reads@,
                data_prefix@,
                killed@,
                q,
                i as int,
            ),
        decreases files.len() - i,
    {
        let file = files[i];
        proof {
            assert(q[i as int] == file);
            assert(q.to_set().contains(file));
        }
        match killed.get(&file) {
            Some(rows) => {
                match file_delete_read(base, file.0, file.1, rows, reads.store, data_prefix) {
                    Ok(Some(read)) => {
                        if !reads.live_files.contains_key(&file) {
                            return Some(
                                Wanted::LiveFile { table_id: file.0, data_file_id: file.1, read },
                            );
                        }
                    },
                    _ => {},
                }
            },
            None => {},
        }
        i = i + 1;
    }
    None
}

/// The next read that the upkeep of a commit waits for. None is left where the
/// upkeep can run, or where an operation is refused whatever is read.
pub fn next_read(
    base: &CatalogSnapshot,
    ops: &Vec<RowOperation>,
    reads: &IndexReads,
    data_prefix: &str,
) -> (w: Option<Wanted>)
    ensures
        match next_wanted(base@, ops.deep_view(), reads@, data_prefix@) {
            None => w is None,
            Some(m) => w is Some && w->0@ == m,
        },
{
    let ghost q = ops.deep_view();
    let pending = pending_inline_schemas(ops);
    let mut g = Gathered {
        entries: Vec::new(),
        inline_deletes: OrdMap::new(),
        file_deletes: OrdMap::new(),
    };
    let mut i: usize = 0;
    proof {
        assert(q.take(0) =~= Seq::<RowModel>::empty());
        assert(g.entries.deep_view() =~= Seq::<IndexEntryModel>::empty());
    }
    while i < ops.len()
        invariant
            i <= ops@.len(),
            q == ops.deep_view(),
            pending@ == pending_schemas(q),
            gathered(base@, pending@, reads@, data_prefix@, q.take(i as int)) == Ok::<
                GatheredModel,
                Fault,
            >(g@),
            wanted_by_ops(base@, pending@, reads@, data_prefix@, q.take(i as int)) is None,
        decreases ops.len() - i,
    {
        proof {
            let next = q.take(i + 1);
            assert(next.drop_last() =~= q.take(i as int));
            assert(next.last() == ops@[i as int].deep_view());
        }
        match wanted_by_op(base, reads, data_prefix, &ops[i], i as u64) {
            Some(w) => {
                proof {
                    want_stays(base@, pending@, reads@, data_prefix@, q, i + 1);
                }
                return Some(w);
            },
            None => {},
        }
        match gather_op(base, &pending, reads, data_prefix, &mut g, &ops[i], i as u64) {
            Err(_) => {
                proof {
                    want_stays(base@, pending@, reads@, data_prefix@, q, i + 1);
                    gather_refusal_stays(base@, pending@, reads@, data_prefix@, q, i + 1);
                }
                return None;
            },
            Ok(()) => {},
        }
        i = i + 1;
    }
    assert(q.take(q.len() as int) =~= q);
    match wanted_by_ending(base, reads, &g.inline_deletes) {
        Some(w) => Some(w),
        None => wanted_by_killed(base, reads, data_prefix, &g.file_deletes),
    }
}

// ---------------------------------------------------------------------------
// Laws
// ---------------------------------------------------------------------------

/// Whether a read was made.
pub open spec fn answered(reads: ReadsModel, w: WantedModel) -> bool {
    match w {
        WantedModel::InsertedFile(read) => reads.inserted_files.contains_key(
            (read.table_id, read.data_file_id),
        ),
        WantedModel::DeleteFile(read) => reads.delete_files.contains_key(
            (read.table_id, read.delete_file_id),
        ),
        WantedModel::StagedChunk { number, .. } => reads.staged_chunks.contains_key(number),
        WantedModel::Chunks { table_id, .. } => reads.committed_chunks.contains_key(table_id),
        WantedModel::LiveFile { table_id, data_file_id, .. } => reads.live_files.contains_key(
            (table_id, data_file_id),
        ),
    }
}

proof fn ops_want_the_unread(
    m: CatalogModel,
    pending: Map<(u64, u64), Seq<u8>>,
    reads: ReadsModel,
    data_prefix: Seq<char>,
    ops: Seq<RowModel>,
)
    ensures
        match wanted_by_ops(m, pending, reads, data_prefix, ops) {
            Some(w) => !answered(reads, w),
            None => true,
        },
    decreases ops.len(),
{
    if ops.len() > 0 {
        ops_want_the_unread(m, pending, reads, data_prefix, ops.drop_last());
    }
}

proof fn tables_want_the_unread(
    m: CatalogModel,
    reads: ReadsModel,
    ending: Map<u64, Seq<u64>>,
    tables: Seq<u64>,
    from: int,
)
    ensures
        match wanted_by_tables(m, reads, ending, tables, from) {
            Some(w) => !answered(reads, w),
            None => forall|i: int|
                from <= i < tables.len() && 0 <= i && indexes_listed(m, #[trigger] tables[i]).len()
                    != 0 ==> reads.committed_chunks.contains_key(tables[i]),
        },
    decreases tables.len() - from,
{
    if from < tables.len() {
        tables_want_the_unread(m, reads, ending, tables, from + 1);
    }
}

proof fn files_want_the_unread(
    m: CatalogModel,
    reads: ReadsModel,
    data_prefix: Seq<char>,
    killed: Map<(u64, u64), Set<u64>>,
    files: Seq<(u64, u64)>,
    from: int,
)
    ensures
        match wanted_by_files(m, reads, data_prefix, killed, files, from) {
            Some(w) => !answered(reads, w),
            None => forall|i: int|
                from <= i < files.len() && 0 <= i ==> is_read(
                    m,
                    reads,
                    data_prefix,
                    killed,
                    #[trigger] files[i],
                ),
        },
    decreases files.len() - from,
{
    if from < files.len() {
        files_want_the_unread(m, reads, data_prefix, killed, files, from + 1);
    }
}

/// Whether a file whose rows are killed was read, or need not be.
spec fn is_read(
    m: CatalogModel,
    reads: ReadsModel,
    data_prefix: Seq<char>,
    killed: Map<(u64, u64), Set<u64>>,
    file: (u64, u64),
) -> bool {
    match killed_file_read(m, file.0, file.1, killed[file], reads.store, data_prefix) {
        Ok(Some(_)) => reads.live_files.contains_key(file),
        _ => true,
    }
}

/// Nothing is wanted twice: whoever makes each read that is wanted comes to an
/// end.
pub proof fn reads_are_wanted_once(
    m: CatalogModel,
    ops: Seq<RowModel>,
    reads: ReadsModel,
    data_prefix: Seq<char>,
)
    ensures
        match next_wanted(m, ops, reads, data_prefix) {
            Some(w) => !answered(reads, w),
            None => true,
        },
{
    let pending = pending_schemas(ops);
    ops_want_the_unread(m, pending, reads, data_prefix, ops);
    match gathered(m, pending, reads, data_prefix, ops) {
        Ok(g) => {
            tables_want_the_unread(
                m,
                reads,
                g.inline_deletes,
                ascending::<u64>(g.inline_deletes.dom()),
                0,
            );
            files_want_the_unread(
                m,
                reads,
                data_prefix,
                g.file_deletes,
                ascending::<(u64, u64)>(g.file_deletes.dom()),
                0,
            );
        },
        Err(_) => {},
    }
}

/// Whether some reads hold everything that others hold.
pub open spec fn extends(reads: ReadsModel, more: ReadsModel) -> bool {
    &&& more.store == reads.store
    &&& more.schemas == reads.schemas
    &&& reads.inserted_files.submap_of(more.inserted_files)
    &&& reads.live_files.submap_of(more.live_files)
    &&& reads.delete_files.submap_of(more.delete_files)
    &&& reads.staged_chunks.submap_of(more.staged_chunks)
    &&& reads.committed_chunks.submap_of(more.committed_chunks)
}

proof fn more_reads_gather_the_same(
    m: CatalogModel,
    pending: Map<(u64, u64), Seq<u8>>,
    reads: ReadsModel,
    more: ReadsModel,
    data_prefix: Seq<char>,
    ops: Seq<RowModel>,
)
    requires
        extends(reads, more),
        wanted_by_ops(m, pending, reads, data_prefix, ops) is None,
    ensures
        gathered(m, pending, more, data_prefix, ops) == gathered(
            m,
            pending,
            reads,
            data_prefix,
            ops,
        ),
        gathered(m, pending, reads, data_prefix, ops) is Ok ==> forall|i: int|
            0 <= i < ops.len() ==> chunk_is_read(m, reads, #[trigger] ops[i], i as u64),
    decreases ops.len(),
{
    if ops.len() > 0 {
        let front = ops.drop_last();
        let number = (ops.len() - 1) as u64;
        more_reads_gather_the_same(m, pending, reads, more, data_prefix, front);
        match gathered(m, pending, reads, data_prefix, front) {
            Err(_) => {},
            Ok(g) => {
                assert(wanted_by(m, reads, data_prefix, ops.last(), number) is None);
                assert(gathered_with(m, pending, more, data_prefix, g, ops.last(), number)
                    == gathered_with(m, pending, reads, data_prefix, g, ops.last(), number));
                assert forall|i: int| 0 <= i < ops.len() implies chunk_is_read(
                    m,
                    reads,
                    #[trigger] ops[i],
                    i as u64,
                ) by {
                    if i < front.len() {
                        assert(front[i] == ops[i]);
                    }
                }
            },
        }
    }
}

/// Whether the rows of a chunk that an operation adds were read, or need not
/// be.
spec fn chunk_is_read(m: CatalogModel, reads: ReadsModel, op: RowModel, number: u64) -> bool {
    match op {
        RowModel::InlineInsert { table_id, .. } => indexes_listed(m, table_id).len() == 0
            || reads.staged_chunks.contains_key(number),
        _ => true,
    }
}

proof fn more_reads_hold_the_same_chunks(
    m: CatalogModel,
    ops: Seq<RowModel>,
    table_id: u64,
    reads: ReadsModel,
    more: ReadsModel,
)
    requires
        extends(reads, more),
        indexes_listed(m, table_id).len() != 0,
        reads.committed_chunks.contains_key(table_id),
        forall|i: int| 0 <= i < ops.len() ==> chunk_is_read(m, reads, #[trigger] ops[i], i as u64),
    ensures
        chunks_of(ops, table_id, more) == chunks_of(ops, table_id, reads),
    decreases ops.len(),
{
    if ops.len() > 0 {
        let front = ops.drop_last();
        assert forall|i: int| 0 <= i < front.len() implies chunk_is_read(
            m,
            reads,
            #[trigger] front[i],
            i as u64,
        ) by {
            assert(front[i] == ops[i]);
        }
        more_reads_hold_the_same_chunks(m, front, table_id, reads, more);
        assert(chunk_is_read(m, reads, ops[ops.len() - 1], (ops.len() - 1) as u64));
    }
}

proof fn more_reads_end_the_same(
    m: CatalogModel,
    ops: Seq<RowModel>,
    reads: ReadsModel,
    more: ReadsModel,
    ending: Map<u64, Seq<u64>>,
    tables: Seq<u64>,
    entries: Seq<IndexEntryModel>,
)
    requires
        extends(reads, more),
        forall|i: int| 0 <= i < ops.len() ==> chunk_is_read(m, reads, #[trigger] ops[i], i as u64),
        forall|i: int|
            0 <= i < tables.len() && indexes_listed(m, #[trigger] tables[i]).len() != 0
                ==> reads.committed_chunks.contains_key(tables[i]),
    ensures
        with_inline_removals(m, ops, more, ending, tables, entries) == with_inline_removals(
            m,
            ops,
            reads,
            ending,
            tables,
            entries,
        ),
    decreases tables.len(),
{
    if tables.len() > 0 {
        let front = tables.drop_last();
        let table_id = tables.last();
        assert forall|i: int|
            0 <= i < front.len() && indexes_listed(
                m,
                #[trigger] front[i],
            ).len() != 0 implies reads.committed_chunks.contains_key(front[i]) by {
            assert(front[i] == tables[i]);
        }
        more_reads_end_the_same(m, ops, reads, more, ending, front, entries);
        if indexes_listed(m, table_id).len() != 0 {
            assert(tables[tables.len() - 1] == table_id);
            more_reads_hold_the_same_chunks(m, ops, table_id, reads, more);
        }
        assert(removed_inline(m, ops, more, table_id, ending[table_id]) == removed_inline(
            m,
            ops,
            reads,
            table_id,
            ending[table_id],
        ));
    }
}

proof fn more_reads_kill_the_same(
    m: CatalogModel,
    reads: ReadsModel,
    more: ReadsModel,
    data_prefix: Seq<char>,
    killed: Map<(u64, u64), Set<u64>>,
    files: Seq<(u64, u64)>,
    entries: Seq<IndexEntryModel>,
)
    requires
        extends(reads, more),
        forall|i: int|
            0 <= i < files.len() ==> is_read(m, reads, data_prefix, killed, #[trigger] files[i]),
    ensures
        with_file_removals(m, more, data_prefix, killed, files, entries) == with_file_removals(
            m,
            reads,
            data_prefix,
            killed,
            files,
            entries,
        ),
    decreases files.len(),
{
    if files.len() > 0 {
        let front = files.drop_last();
        let file = files.last();
        assert forall|i: int| 0 <= i < front.len() implies is_read(
            m,
            reads,
            data_prefix,
            killed,
            #[trigger] front[i],
        ) by {
            assert(front[i] == files[i]);
        }
        more_reads_kill_the_same(m, reads, more, data_prefix, killed, front, entries);
        assert(is_read(m, reads, data_prefix, killed, files[files.len() - 1]));
        assert(killed_entries(m, file, killed[file], more, data_prefix) == killed_entries(
            m,
            file,
            killed[file],
            reads,
            data_prefix,
        ));
    }
}

/// Once nothing more is wanted, the reads suffice: whatever else is read, the
/// same entries change, or the commit is refused for the same reason.
pub proof fn wanted_reads_suffice(
    m: CatalogModel,
    ops: Seq<RowModel>,
    reads: ReadsModel,
    more: ReadsModel,
    data_prefix: Seq<char>,
)
    requires
        extends(reads, more),
        next_wanted(m, ops, reads, data_prefix) is None,
    ensures
        changed_entries(m, ops, more, data_prefix) == changed_entries(m, ops, reads, data_prefix),
{
    let pending = pending_schemas(ops);
    more_reads_gather_the_same(m, pending, reads, more, data_prefix, ops);
    match gathered(m, pending, reads, data_prefix, ops) {
        Err(_) => {},
        Ok(g) => {
            let tables = ascending::<u64>(g.inline_deletes.dom());
            let files = ascending::<(u64, u64)>(g.file_deletes.dom());
            tables_want_the_unread(m, reads, g.inline_deletes, tables, 0);
            files_want_the_unread(m, reads, data_prefix, g.file_deletes, files, 0);
            more_reads_end_the_same(m, ops, reads, more, g.inline_deletes, tables, g.entries);
            match with_inline_removals(m, ops, reads, g.inline_deletes, tables, g.entries) {
                Err(_) => {},
                Ok(entries) => {
                    more_reads_kill_the_same(
                        m,
                        reads,
                        more,
                        data_prefix,
                        g.file_deletes,
                        files,
                        entries,
                    );
                },
            }
        },
    }
}

/// Whether a read is one that an operation needs.
pub open spec fn needed_by(
    m: CatalogModel,
    reads: ReadsModel,
    data_prefix: Seq<char>,
    op: RowModel,
    number: u64,
    w: WantedModel,
) -> bool {
    match w {
        WantedModel::InsertedFile(read) => match op {
            RowModel::Insert { table: TableKind::DataFile, cells } => inserted_file_read(
                m,
                cells,
                reads.store,
                data_prefix,
            ) == Ok::<Option<FileReadModel>, Fault>(Some(read)),
            _ => false,
        },
        WantedModel::DeleteFile(read) => match op {
            RowModel::Insert { table: TableKind::DeleteFile, cells } => inserted_delete_read(
                m,
                cells,
                reads.store,
                data_prefix,
            ) == Ok::<Option<DeleteReadModel>, Fault>(Some(read)),
            _ => false,
        },
        WantedModel::StagedChunk { number: n, table_id: t, schema_version: v } => match op {
            RowModel::InlineInsert { table_id, schema_version, .. } => n == number && t == table_id
                && v == schema_version && indexes_listed(m, table_id).len() > 0,
            _ => false,
        },
        _ => false,
    }
}

proof fn ops_want_what_they_need(
    m: CatalogModel,
    pending: Map<(u64, u64), Seq<u8>>,
    reads: ReadsModel,
    data_prefix: Seq<char>,
    ops: Seq<RowModel>,
)
    ensures
        match wanted_by_ops(m, pending, reads, data_prefix, ops) {
            Some(w) => exists|i: int|
                0 <= i < ops.len() && needed_by(
                    m,
                    reads,
                    data_prefix,
                    #[trigger] ops[i],
                    i as u64,
                    w,
                ),
            None => true,
        },
    decreases ops.len(),
{
    if ops.len() > 0 {
        let front = ops.drop_last();
        ops_want_what_they_need(m, pending, reads, data_prefix, front);
        match wanted_by_ops(m, pending, reads, data_prefix, front) {
            Some(w) => {
                let i = choose|i: int|
                    0 <= i < front.len() && needed_by(
                        m,
                        reads,
                        data_prefix,
                        #[trigger] front[i],
                        i as u64,
                        w,
                    );
                assert(ops[i] == front[i]);
            },
            None => {
                match wanted_by_ops(m, pending, reads, data_prefix, ops) {
                    Some(w) => {
                        let n = ops.len() - 1;
                        assert(needed_by(m, reads, data_prefix, ops[n], n as u64, w));
                    },
                    None => {},
                }
            },
        }
    }
}

proof fn tables_want_what_they_need(
    m: CatalogModel,
    reads: ReadsModel,
    ending: Map<u64, Seq<u64>>,
    tables: Seq<u64>,
    from: int,
)
    requires
        0 <= from,
    ensures
        match wanted_by_tables(m, reads, ending, tables, from) {
            Some(WantedModel::Chunks { table_id, row_ids }) => tables.contains(table_id) && row_ids
                == ending[table_id] && indexes_listed(m, table_id).len() > 0,
            Some(_) => false,
            None => true,
        },
    decreases tables.len() - from,
{
    if from < tables.len() {
        tables_want_what_they_need(m, reads, ending, tables, from + 1);
    }
}

proof fn files_want_what_they_need(
    m: CatalogModel,
    reads: ReadsModel,
    data_prefix: Seq<char>,
    killed: Map<(u64, u64), Set<u64>>,
    files: Seq<(u64, u64)>,
    from: int,
)
    requires
        0 <= from,
    ensures
        match wanted_by_files(m, reads, data_prefix, killed, files, from) {
            Some(WantedModel::LiveFile { table_id, data_file_id, read }) => {
                &&& files.contains((table_id, data_file_id))
                &&& killed_file_read(
                    m,
                    table_id,
                    data_file_id,
                    killed[(table_id, data_file_id)],
                    reads.store,
                    data_prefix,
                ) == Ok::<Option<FileReadModel>, Fault>(Some(read))
            },
            Some(_) => false,
            None => true,
        },
    decreases files.len() - from,
{
    if from < files.len() {
        files_want_what_they_need(m, reads, data_prefix, killed, files, from + 1);
    }
}

/// What is wanted is needed: the file or the chunk of an operation of the commit,
/// the chunks of a table of which inlined rows end, with those rows, or a data
/// file of which rows are killed.
pub proof fn what_is_wanted_is_needed(
    m: CatalogModel,
    ops: Seq<RowModel>,
    reads: ReadsModel,
    data_prefix: Seq<char>,
)
    ensures
        match next_wanted(m, ops, reads, data_prefix) {
            None => true,
            Some(w) => {
                let g = gathered(m, pending_schemas(ops), reads, data_prefix, ops);
                match w {
                    WantedModel::Chunks { table_id, row_ids } => {
                        &&& g is Ok
                        &&& row_ids == g->Ok_0.inline_deletes[table_id]
                        &&& indexes_listed(m, table_id).len() > 0
                    },
                    WantedModel::LiveFile { table_id, data_file_id, read } => {
                        &&& g is Ok
                        &&& killed_file_read(
                            m,
                            table_id,
                            data_file_id,
                            g->Ok_0.file_deletes[(table_id, data_file_id)],
                            reads.store,
                            data_prefix,
                        ) == Ok::<Option<FileReadModel>, Fault>(Some(read))
                    },
                    _ => exists|i: int|
                        0 <= i < ops.len() && needed_by(
                            m,
                            reads,
                            data_prefix,
                            #[trigger] ops[i],
                            i as u64,
                            w,
                        ),
                }
            },
        },
{
    let pending = pending_schemas(ops);
    ops_want_what_they_need(m, pending, reads, data_prefix, ops);
    match gathered(m, pending, reads, data_prefix, ops) {
        Err(_) => {},
        Ok(g) => {
            let tables = ascending::<u64>(g.inline_deletes.dom());
            let files = ascending::<(u64, u64)>(g.file_deletes.dom());
            tables_want_what_they_need(m, reads, g.inline_deletes, tables, 0);
            files_want_what_they_need(m, reads, data_prefix, g.file_deletes, files, 0);
        },
    }
}

} // verus!
