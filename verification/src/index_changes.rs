//! The changes of index entries that a commit of staged rows makes, given what
//! was read of its files and chunks.
use crate::api::{IndexInfo, IndexInfoSpec, TableId};
use crate::catalog::{column_list, CatalogModel, CatalogSnapshot};
use crate::error::{around_two, refused, text_around_two, Error, Fault};
use crate::index_entries::{HeldEntries, IndexEntryModel, StagedIndexEntry};
use crate::index_upkeep::{
    data_file_read, delete_file_read, entries_for, file_delete_read, indexes_listed,
    inserted_delete_read, inserted_file_read, killed_file_read, plan_read, push_index_entries,
    read_plan, KeyedModel, KeyedRow, KilledRows,
};
use crate::ordered::{OrdMap, OrdSet, Record};
use crate::rows::{Cell, CellModel, RowModel, RowOperation};
use vstd::prelude::*;

verus! {

// ---------------------------------------------------------------------------
// What was read
// ---------------------------------------------------------------------------

/// A chunk of inlined rows, with its rows as each index of its table reads
/// them.
#[derive(Debug, PartialEq, Eq)]
pub struct InlineChunk {
    pub schema_version: u64,
    pub row_id_start: u64,
    pub row_count: u64,
    pub rows: Vec<Vec<KeyedRow>>,
}

/// The model of [`InlineChunk`].
#[verifier::ext_equal]
pub struct ChunkModel {
    pub schema_version: u64,
    pub row_id_start: u64,
    pub row_count: u64,
    pub rows: Seq<Seq<KeyedModel>>,
}

impl DeepView for InlineChunk {
    type V = ChunkModel;

    open spec fn deep_view(&self) -> ChunkModel {
        ChunkModel {
            schema_version: self.schema_version,
            row_id_start: self.row_id_start,
            row_count: self.row_count,
            rows: self.rows.deep_view(),
        }
    }
}

impl Record for InlineChunk {
    fn dup(&self) -> (r: Self) {
        InlineChunk {
            schema_version: self.schema_version,
            row_id_start: self.row_id_start,
            row_count: self.row_count,
            rows: self.rows.dup(),
        }
    }

    fn same(&self, other: &Self) -> (b: bool) {
        self.schema_version == other.schema_version && self.row_id_start == other.row_id_start
            && self.row_count == other.row_count && self.rows.same(&other.rows)
    }
}

/// Whether a chunk holds a row.
pub open spec fn holds_row(chunk: ChunkModel, row_id: u64) -> bool {
    chunk.row_id_start <= row_id < (if chunk.row_id_start + chunk.row_count <= u64::MAX {
        chunk.row_id_start + chunk.row_count
    } else {
        u64::MAX as int
    })
}

impl InlineChunk {
    /// Whether the chunk holds a row.
    pub fn holds(&self, row_id: u64) -> (b: bool)
        ensures
            b == holds_row(self.deep_view(), row_id),
    {
        row_id >= self.row_id_start && row_id < self.row_id_start.saturating_add(self.row_count)
    }
}

/// What was read for the upkeep of indexes.
pub struct IndexReads {
    /// Whether there is a store to read files from.
    pub store: bool,
    /// The rows of the data files that the commit inserts, by table and file,
    /// for each index.
    pub inserted_files: OrdMap<(u64, u64), Vec<Vec<KeyedRow>>>,
    /// The rows of the live data files whose rows the commit kills.
    pub live_files: OrdMap<(u64, u64), Vec<Vec<KeyedRow>>>,
    /// The positions in the delete files that the commit inserts.
    pub delete_files: OrdMap<(u64, u64), Vec<u64>>,
    /// The rows of the chunks that the commit adds, by the operation's number.
    pub staged_chunks: OrdMap<u64, Vec<Vec<KeyedRow>>>,
    /// The chunks that were there before, by table.
    pub committed_chunks: OrdMap<u64, Vec<InlineChunk>>,
    /// The schemas of inlined rows that were there before.
    pub schemas: OrdMap<(u64, u64), Vec<u8>>,
    /// What the store holds under values of unique indexes.
    pub held: HeldEntries,
}

/// The model of [`IndexReads`].
#[verifier::ext_equal]
pub struct ReadsModel {
    pub store: bool,
    pub inserted_files: Map<(u64, u64), Seq<Seq<KeyedModel>>>,
    pub live_files: Map<(u64, u64), Seq<Seq<KeyedModel>>>,
    pub delete_files: Map<(u64, u64), Seq<u64>>,
    pub staged_chunks: Map<u64, Seq<Seq<KeyedModel>>>,
    pub committed_chunks: Map<u64, Seq<ChunkModel>>,
    pub schemas: Map<(u64, u64), Seq<u8>>,
    pub held: Map<(u64, Seq<u8>), Seq<u8>>,
}

impl View for IndexReads {
    type V = ReadsModel;

    open spec fn view(&self) -> ReadsModel {
        ReadsModel {
            store: self.store,
            inserted_files: self.inserted_files@,
            live_files: self.live_files@,
            delete_files: self.delete_files@,
            staged_chunks: self.staged_chunks@,
            committed_chunks: self.committed_chunks@,
            schemas: self.schemas@,
            held: self.held@,
        }
    }
}

/// A file whose rows are needed but were not read.
pub open spec fn not_read(what: Seq<char>, id: u64, table_id: u64) -> Fault {
    Fault::Store(around_two(what, id, " of table "@, table_id, " was not read"@))
}

fn not_read_error(what: &str, id: u64, table_id: u64) -> (e: Error)
    ensures
        e@ == not_read(what@, id, table_id),
{
    Error::Store(text_around_two(what, id, " of table ", table_id, " was not read"))
}

// ---------------------------------------------------------------------------
// Rows that matter
// ---------------------------------------------------------------------------

/// Which of the rows that were read matter.
pub enum KeepModel {
    All,
    /// The rows with these ids.
    Ids(Set<u64>),
    /// The rows at these positions.
    Positions(Set<u64>),
}

/// Which of the rows that were read matter.
pub enum Keep<'a> {
    All,
    Ids(&'a OrdSet<u64>),
    Positions(&'a KilledRows),
}

impl<'a> View for Keep<'a> {
    type V = KeepModel;

    open spec fn view(&self) -> KeepModel {
        match *self {
            Keep::All => KeepModel::All,
            Keep::Ids(ids) => KeepModel::Ids(ids@),
            Keep::Positions(killed) => KeepModel::Positions(killed@),
        }
    }
}

/// Whether a row matters.
pub open spec fn keeps(keep: KeepModel, row: KeyedModel, position: int) -> bool {
    match keep {
        KeepModel::All => true,
        KeepModel::Ids(ids) => ids.contains(row.0.row_id),
        KeepModel::Positions(killed) => killed.contains(position as u64),
    }
}

/// The rows that matter.
pub open spec fn kept(rows: Seq<KeyedModel>, keep: KeepModel) -> Seq<KeyedModel>
    decreases rows.len(),
{
    if rows.len() == 0 {
        Seq::empty()
    } else {
        let front = kept(rows.drop_last(), keep);
        if keeps(keep, rows.last(), rows.len() - 1) {
            front.push(rows.last())
        } else {
            front
        }
    }
}

fn keep_rows(rows: &Vec<KeyedRow>, keep: &Keep) -> (out: Vec<KeyedRow>)
    ensures
        out.deep_view() == kept(rows.deep_view(), keep@),
{
    let ghost q = rows.deep_view();
    let mut out: Vec<KeyedRow> = Vec::new();
    let mut i: usize = 0;
    proof {
        assert(q.take(0) =~= Seq::<KeyedModel>::empty());
        assert(out.deep_view() =~= Seq::<KeyedModel>::empty());
    }
    while i < rows.len()
        invariant
            i <= rows@.len(),
            q == rows.deep_view(),
            out.deep_view() == kept(q.take(i as int), keep@),
        decreases rows.len() - i,
    {
        proof {
            let next = q.take(i + 1);
            assert(next.drop_last() =~= q.take(i as int));
            assert(next.last() == rows@[i as int].deep_view());
        }
        let matters = match keep {
            Keep::All => true,
            Keep::Ids(ids) => ids.contains(&rows[i].0.row_id),
            Keep::Positions(killed) => killed.contains(i as u64),
        };
        if matters {
            let ghost was = out.deep_view();
            let copy = rows[i].dup();
            out.push(copy);
            assert(out.deep_view() =~= was.push(copy.deep_view()));
        }
        i = i + 1;
    }
    assert(q.take(q.len() as int) =~= q);
    out
}

/// The changes of the first `n` indexes, each by its own rows.
pub open spec fn changes(
    indexes: Seq<IndexInfoSpec>,
    rows: Seq<Seq<KeyedModel>>,
    keep: KeepModel,
    delete: bool,
    n: nat,
) -> Seq<IndexEntryModel>
    decreases n,
{
    if n == 0 {
        Seq::empty()
    } else {
        changes(indexes, rows, keep, delete, (n - 1) as nat) + entries_for(
            indexes[n - 1],
            kept(rows[n - 1], keep),
            delete,
        )
    }
}

/// The changes of all indexes that have rows.
pub open spec fn all_changes(
    indexes: Seq<IndexInfoSpec>,
    rows: Seq<Seq<KeyedModel>>,
    keep: KeepModel,
    delete: bool,
) -> Seq<IndexEntryModel> {
    changes(
        indexes,
        rows,
        keep,
        delete,
        if indexes.len() <= rows.len() {
            indexes.len()
        } else {
            rows.len()
        },
    )
}

fn push_changes(
    entries: &mut Vec<StagedIndexEntry>,
    indexes: &Vec<IndexInfo>,
    rows: &Vec<Vec<KeyedRow>>,
    keep: &Keep,
    delete: bool,
)
    ensures
        final(entries).deep_view() == old(entries).deep_view() + all_changes(
            indexes.deep_view(),
            rows.deep_view(),
            keep@,
            delete,
        ),
{
    let ghost xs = indexes.deep_view();
    let ghost rs = rows.deep_view();
    let mut i: usize = 0;
    assert(entries.deep_view() + changes(xs, rs, keep@, delete, 0) =~= entries.deep_view());
    while i < indexes.len() && i < rows.len()
        invariant
            i <= indexes@.len(),
            i <= rows@.len(),
            xs == indexes.deep_view(),
            rs == rows.deep_view(),
            entries.deep_view() == old(entries).deep_view() + changes(
                xs,
                rs,
                keep@,
                delete,
                i as nat,
            ),
        decreases indexes.len() - i,
    {
        proof {
            assert(xs[i as int] == indexes@[i as int].deep_view());
            assert(rs[i as int] == rows@[i as int].deep_view());
        }
        let matter = keep_rows(&rows[i], keep);
        push_index_entries(entries, &indexes[i], &matter, delete);
        i = i + 1;
        assert(entries.deep_view() =~= old(entries).deep_view() + changes(
            xs,
            rs,
            keep@,
            delete,
            i as nat,
        ));
    }
}

// ---------------------------------------------------------------------------
// Data files
// ---------------------------------------------------------------------------

/// The entries of a data file that a commit inserts.
pub open spec fn file_entries(
    m: CatalogModel,
    cells: Seq<CellModel>,
    reads: ReadsModel,
    data_prefix: Seq<char>,
) -> Result<Seq<IndexEntryModel>, Fault> {
    match inserted_file_read(m, cells, reads.store, data_prefix) {
        Err(f) => Err(f),
        Ok(None) => Ok(Seq::empty()),
        Ok(Some(read)) => {
            let key = (read.table_id, read.data_file_id);
            if reads.inserted_files.contains_key(key) {
                Ok(
                    all_changes(
                        indexes_listed(m, read.table_id),
                        reads.inserted_files[key],
                        KeepModel::All,
                        false,
                    ),
                )
            } else {
                Err(not_read("data file "@, read.data_file_id, read.table_id))
            }
        },
    }
}

/// Adds the entries of a data file that a commit inserts.
pub fn stage_data_file_index_entries(
    base: &CatalogSnapshot,
    cells: &Vec<Cell>,
    reads: &IndexReads,
    data_prefix: &str,
    entries: &mut Vec<StagedIndexEntry>,
) -> (r: Result<(), Error>)
    ensures
        match file_entries(base@, cells.deep_view(), reads@, data_prefix@) {
            Err(f) => refused(r, f) && final(entries).deep_view() == old(entries).deep_view(),
            Ok(more) => r is Ok && final(entries).deep_view() == old(entries).deep_view() + more,
        },
{
    match data_file_read(base, cells, reads.store, data_prefix) {
        Err(e) => Err(e),
        Ok(None) => {
            assert(entries.deep_view() =~= entries.deep_view() + Seq::<IndexEntryModel>::empty());
            Ok(())
        },
        Ok(Some(read)) => {
            match reads.inserted_files.get(&(read.table_id, read.data_file_id)) {
                Some(rows) => {
                    let indexes = base.indexes_of(TableId::new(read.table_id));
                    push_changes(entries, &indexes, rows, &Keep::All, false);
                    Ok(())
                },
                None => Err(not_read_error("data file ", read.data_file_id, read.table_id)),
            }
        },
    }
}

/// The removals for rows that a commit kills in a live data file: an entry
/// goes where its row's position is killed.
pub open spec fn killed_entries(
    m: CatalogModel,
    file: (u64, u64),
    killed: Set<u64>,
    reads: ReadsModel,
    data_prefix: Seq<char>,
) -> Result<Seq<IndexEntryModel>, Fault> {
    match killed_file_read(m, file.0, file.1, killed, reads.store, data_prefix) {
        Err(f) => Err(f),
        Ok(None) => Ok(Seq::empty()),
        Ok(Some(_)) => if reads.live_files.contains_key(file) {
            Ok(
                all_changes(
                    indexes_listed(m, file.0),
                    reads.live_files[file],
                    KeepModel::Positions(killed),
                    true,
                ),
            )
        } else {
            Err(not_read("data file "@, file.1, file.0))
        },
    }
}

/// Removes the entries of rows that a commit kills in a live data file.
pub fn stage_file_delete_entries(
    base: &CatalogSnapshot,
    table_id: u64,
    data_file_id: u64,
    killed: &KilledRows,
    reads: &IndexReads,
    data_prefix: &str,
    entries: &mut Vec<StagedIndexEntry>,
) -> (r: Result<(), Error>)
    ensures
        match killed_entries(base@, (table_id, data_file_id), killed@, reads@, data_prefix@) {
            Err(f) => refused(r, f) && final(entries).deep_view() == old(entries).deep_view(),
            Ok(more) => r is Ok && final(entries).deep_view() == old(entries).deep_view() + more,
        },
{
    match file_delete_read(base, table_id, data_file_id, killed, reads.store, data_prefix) {
        Err(e) => Err(e),
        Ok(None) => {
            assert(entries.deep_view() =~= entries.deep_view() + Seq::<IndexEntryModel>::empty());
            Ok(())
        },
        Ok(Some(_)) => match reads.live_files.get(&(table_id, data_file_id)) {
            Some(rows) => {
                let indexes = base.indexes_of(TableId::new(table_id));
                push_changes(entries, &indexes, rows, &Keep::Positions(killed), true);
                Ok(())
            },
            None => Err(not_read_error("data file ", data_file_id, table_id)),
        },
    }
}

/// The positions that are killed in a file.
pub open spec fn killed_in(m: Map<(u64, u64), Set<u64>>, file: (u64, u64)) -> Set<u64> {
    if m.contains_key(file) {
        m[file]
    } else {
        Set::empty()
    }
}

/// The killed positions with those of a delete file that a commit inserts.
pub open spec fn with_delete_file(
    m: CatalogModel,
    cells: Seq<CellModel>,
    reads: ReadsModel,
    data_prefix: Seq<char>,
    killed: Map<(u64, u64), Set<u64>>,
) -> Result<Map<(u64, u64), Set<u64>>, Fault> {
    match inserted_delete_read(m, cells, reads.store, data_prefix) {
        Err(f) => Err(f),
        Ok(None) => Ok(killed),
        Ok(Some(read)) => {
            let key = (read.table_id, read.delete_file_id);
            let file = (read.table_id, read.data_file_id);
            if reads.delete_files.contains_key(key) {
                Ok(
                    killed.insert(
                        file,
                        killed_in(killed, file).union(reads.delete_files[key].to_set()),
                    ),
                )
            } else {
                Err(not_read("delete file "@, read.delete_file_id, read.table_id))
            }
        },
    }
}

fn killed_of(m: &OrdMap<(u64, u64), KilledRows>, file: (u64, u64)) -> (killed: KilledRows)
    ensures
        killed@ == killed_in(m@, file),
{
    match m.get(&file) {
        Some(killed) => killed.dup(),
        None => KilledRows::new(),
    }
}

/// Records the positions of a delete file that a commit inserts.
pub fn collect_delete_file_rows(
    base: &CatalogSnapshot,
    cells: &Vec<Cell>,
    reads: &IndexReads,
    data_prefix: &str,
    file_deletes: &mut OrdMap<(u64, u64), KilledRows>,
) -> (r: Result<(), Error>)
    ensures
        match with_delete_file(base@, cells.deep_view(), reads@, data_prefix@, old(file_deletes)@) {
            Err(f) => refused(r, f) && final(file_deletes)@ == old(file_deletes)@,
            Ok(next) => r is Ok && final(file_deletes)@ == next,
        },
{
    match delete_file_read(base, cells, reads.store, data_prefix) {
        Err(e) => Err(e),
        Ok(None) => Ok(()),
        Ok(Some(read)) => {
            let file = (read.table_id, read.data_file_id);
            match reads.delete_files.get(&(read.table_id, read.delete_file_id)) {
                Some(positions) => {
                    let mut killed = killed_of(file_deletes, file);
                    let ghost q = positions.deep_view();
                    let ghost before = killed@;
                    let mut i: usize = 0;
                    assert(before =~= before.union(q.take(0).to_set()));
                    while i < positions.len()
                        invariant
                            i <= positions@.len(),
                            q == positions.deep_view(),
                            killed@ == before.union(q.take(i as int).to_set()),
                        decreases positions.len() - i,
                    {
                        killed.insert_position(positions[i]);
                        proof {
                            assert(q.take(i + 1) =~= q.take(i as int).push(q[i as int]));
                            crate::ordered::pushed_elements(q.take(i as int), q[i as int]);
                            assert(killed@ =~= before.union(q.take(i + 1).to_set()));
                        }
                        i = i + 1;
                    }
                    assert(q.take(q.len() as int) =~= q);
                    file_deletes.insert(file, killed);
                    Ok(())
                },
                None => Err(not_read_error("delete file ", read.delete_file_id, read.table_id)),
            }
        },
    }
}

// ---------------------------------------------------------------------------
// Inlined rows
// ---------------------------------------------------------------------------

/// The schemas of inlined rows that a commit registers; the last one stays.
pub open spec fn pending_schemas(ops: Seq<RowModel>) -> Map<(u64, u64), Seq<u8>>
    decreases ops.len(),
{
    if ops.len() == 0 {
        Map::empty()
    } else {
        match ops.last() {
            RowModel::InlineSchema { table_id, schema_version, arrow_schema } => pending_schemas(
                ops.drop_last(),
            ).insert((table_id, schema_version), arrow_schema),
            _ => pending_schemas(ops.drop_last()),
        }
    }
}

/// The schemas of inlined rows that a commit registers.
pub fn pending_inline_schemas(ops: &Vec<RowOperation>) -> (pending: OrdMap<(u64, u64), Vec<u8>>)
    ensures
        pending@ == pending_schemas(ops.deep_view()),
{
    let ghost q = ops.deep_view();
    let mut pending: OrdMap<(u64, u64), Vec<u8>> = OrdMap::new();
    let mut i: usize = 0;
    assert(q.take(0) =~= Seq::<RowModel>::empty());
    while i < ops.len()
        invariant
            i <= ops@.len(),
            q == ops.deep_view(),
            pending@ == pending_schemas(q.take(i as int)),
        decreases ops.len() - i,
    {
        proof {
            let next = q.take(i + 1);
            assert(next.drop_last() =~= q.take(i as int));
            assert(next.last() == ops@[i as int].deep_view());
        }
        match &ops[i] {
            RowOperation::InlineSchema { table_id, schema_version, arrow_schema } => {
                pending.insert((*table_id, *schema_version), arrow_schema.dup());
            },
            _ => {},
        }
        i = i + 1;
    }
    assert(q.take(q.len() as int) =~= q);
    pending
}

/// The schema of a version of a table's inlined rows: what the commit
/// registers, else what was there before.
pub open spec fn schema_for(
    pending: Map<(u64, u64), Seq<u8>>,
    stored: Map<(u64, u64), Seq<u8>>,
    table_id: u64,
    schema_version: u64,
) -> Result<Seq<u8>, Fault> {
    let key = (table_id, schema_version);
    if pending.contains_key(key) {
        Ok(pending[key])
    } else if stored.contains_key(key) {
        Ok(stored[key])
    } else {
        Err(
            Fault::Corruption(
                around_two("no inline schema for table "@, table_id, " version "@, schema_version, ""@),
            ),
        )
    }
}

/// The schema of a version of a table's inlined rows.
pub fn inline_schema_for(
    pending: &OrdMap<(u64, u64), Vec<u8>>,
    stored: &OrdMap<(u64, u64), Vec<u8>>,
    table_id: u64,
    schema_version: u64,
) -> (r: Result<Vec<u8>, Error>)
    ensures
        match schema_for(pending@, stored@, table_id, schema_version) {
            Err(f) => refused(r, f),
            Ok(bytes) => r is Ok && r->Ok_0.deep_view() == bytes,
        },
{
    let key = (table_id, schema_version);
    match pending.get(&key) {
        Some(bytes) => return Ok(bytes.dup()),
        None => {},
    }
    match stored.get(&key) {
        Some(bytes) => Ok(bytes.dup()),
        None => Err(
            Error::Corruption(
                text_around_two(
                    "no inline schema for table ",
                    table_id,
                    " version ",
                    schema_version,
                    "",
                ),
            ),
        ),
    }
}

/// The entries of a chunk's rows: all of them where it is added, or the
/// removals of some.
pub open spec fn chunk_entries(
    m: CatalogModel,
    pending: Map<(u64, u64), Seq<u8>>,
    stored: Map<(u64, u64), Seq<u8>>,
    table_id: u64,
    chunk: ChunkModel,
    held: Option<Set<u64>>,
) -> Result<Seq<IndexEntryModel>, Fault> {
    let indexes = indexes_listed(m, table_id);
    if indexes.len() == 0 {
        Ok(Seq::empty())
    } else {
        match schema_for(pending, stored, table_id, chunk.schema_version) {
            Err(f) => Err(f),
            Ok(_) => match read_plan(column_list(m, table_id), indexes, table_id) {
                Err(f) => Err(f),
                Ok(_) => Ok(
                    match held {
                        None => all_changes(indexes, chunk.rows, KeepModel::All, false),
                        Some(ids) => all_changes(indexes, chunk.rows, KeepModel::Ids(ids), true),
                    },
                ),
            },
        }
    }
}

/// Adds the entries of a chunk's rows, or removes those of some of its rows.
pub fn stage_inline_chunk_entries(
    base: &CatalogSnapshot,
    pending: &OrdMap<(u64, u64), Vec<u8>>,
    stored: &OrdMap<(u64, u64), Vec<u8>>,
    table_id: u64,
    chunk: &InlineChunk,
    held: Option<&OrdSet<u64>>,
    entries: &mut Vec<StagedIndexEntry>,
) -> (r: Result<(), Error>)
    ensures
        match chunk_entries(
            base@,
            pending@,
            stored@,
            table_id,
            chunk.deep_view(),
            match held {
                None => None,
                Some(ids) => Some(ids@),
            },
        ) {
            Err(f) => refused(r, f) && final(entries).deep_view() == old(entries).deep_view(),
            Ok(more) => r is Ok && final(entries).deep_view() == old(entries).deep_view() + more,
        },
{
    let table = TableId::new(table_id);
    let indexes = base.indexes_of(table);
    assert(indexes.deep_view().len() == indexes@.len());
    if indexes.len() == 0 {
        assert(entries.deep_view() =~= entries.deep_view() + Seq::<IndexEntryModel>::empty());
        return Ok(());
    }
    match inline_schema_for(pending, stored, table_id, chunk.schema_version) {
        Err(e) => return Err(e),
        Ok(_) => {},
    }
    let columns = base.columns_of(table);
    match plan_read(&columns, &indexes, table) {
        Err(e) => return Err(e),
        Ok(_) => {},
    }
    match held {
        None => push_changes(entries, &indexes, &chunk.rows, &Keep::All, false),
        Some(ids) => push_changes(entries, &indexes, &chunk.rows, &Keep::Ids(ids), true),
    }
    Ok(())
}

/// The chunk that an operation adds to a table, as it was read.
pub open spec fn staged_chunk(op: RowModel, number: u64, table_id: u64, reads: ReadsModel) -> Option<
    ChunkModel,
> {
    match op {
        RowModel::InlineInsert { table_id: t, schema_version, row_id_start, row_count, .. } => if t
            == table_id {
            Some(
                ChunkModel {
                    schema_version,
                    row_id_start,
                    row_count,
                    rows: if reads.staged_chunks.contains_key(number) {
                        reads.staged_chunks[number]
                    } else {
                        Seq::empty()
                    },
                },
            )
        } else {
            None
        },
        _ => None,
    }
}

fn read_staged_chunk(op: &RowOperation, number: u64, table_id: u64, reads: &IndexReads) -> (chunk: Option<
    InlineChunk,
>)
    ensures
        match staged_chunk(op.deep_view(), number, table_id, reads@) {
            None => chunk is None,
            Some(c) => chunk is Some && chunk->0.deep_view() == c,
        },
{
    match op {
        RowOperation::InlineInsert { table_id: t, schema_version, row_id_start, row_count, .. } => {
            if *t != table_id {
                return None;
            }
            let rows = match reads.staged_chunks.get(&number) {
                Some(rows) => rows.dup(),
                None => {
                    let rows: Vec<Vec<KeyedRow>> = Vec::new();
                    assert(rows.deep_view() =~= Seq::empty());
                    rows
                },
            };
            Some(
                InlineChunk {
                    schema_version: *schema_version,
                    row_id_start: *row_id_start,
                    row_count: *row_count,
                    rows,
                },
            )
        },
        _ => None,
    }
}

/// The chunks of a table: those that were there before, then those that the
/// commit adds.
pub open spec fn chunks_of(ops: Seq<RowModel>, table_id: u64, reads: ReadsModel) -> Seq<ChunkModel>
    decreases ops.len(),
{
    if ops.len() == 0 {
        if reads.committed_chunks.contains_key(table_id) {
            reads.committed_chunks[table_id]
        } else {
            Seq::empty()
        }
    } else {
        let front = chunks_of(ops.drop_last(), table_id, reads);
        match staged_chunk(ops.last(), (ops.len() - 1) as u64, table_id, reads) {
            Some(chunk) => front.push(chunk),
            None => front,
        }
    }
}

fn collect_chunks(ops: &Vec<RowOperation>, table_id: u64, reads: &IndexReads) -> (chunks: Vec<
    InlineChunk,
>)
    ensures
        chunks.deep_view() == chunks_of(ops.deep_view(), table_id, reads@),
{
    let ghost q = ops.deep_view();
    let mut chunks: Vec<InlineChunk> = match reads.committed_chunks.get(&table_id) {
        Some(chunks) => chunks.dup(),
        None => {
            let chunks: Vec<InlineChunk> = Vec::new();
            assert(chunks.deep_view() =~= Seq::empty());
            chunks
        },
    };
    let mut i: usize = 0;
    assert(q.take(0) =~= Seq::<RowModel>::empty());
    while i < ops.len()
        invariant
            i <= ops@.len(),
            q == ops.deep_view(),
            chunks.deep_view() == chunks_of(q.take(i as int), table_id, reads@),
        decreases ops.len() - i,
    {
        proof {
            let next = q.take(i + 1);
            assert(next.drop_last() =~= q.take(i as int));
            assert(next.last() == ops@[i as int].deep_view());
        }
        match read_staged_chunk(&ops[i], i as u64, table_id, reads) {
            Some(chunk) => {
                let ghost was = chunks.deep_view();
                chunks.push(chunk);
                assert(chunks.deep_view() =~= was.push(chunk.deep_view()));
            },
            None => {},
        }
        i = i + 1;
    }
    assert(q.take(q.len() as int) =~= q);
    chunks
}

/// The rows, of those that end, that a chunk holds.
pub open spec fn held_in(chunk: ChunkModel, row_ids: Seq<u64>) -> Set<u64> {
    Set::new(|r: u64| row_ids.contains(r) && holds_row(chunk, r))
}

fn collect_held(chunk: &InlineChunk, row_ids: &Vec<u64>) -> (held: OrdSet<u64>)
    ensures
        held@ == held_in(chunk.deep_view(), row_ids@),
{
    let mut held: OrdSet<u64> = OrdSet::new();
    let mut i: usize = 0;
    while i < row_ids.len()
        invariant
            i <= row_ids@.len(),
            forall|r: u64| #[trigger]
                held@.contains(r) <==> row_ids@.take(i as int).contains(r) && holds_row(
                    chunk.deep_view(),
                    r,
                ),
        decreases row_ids.len() - i,
    {
        let row_id: u64 = row_ids[i];
        let ghost was = held@;
        if chunk.holds(row_id) {
            held.insert(row_id);
        }
        proof {
            let a = row_ids@.take(i as int);
            let b = row_ids@.take(i + 1);
            assert(b =~= a.push(row_id));
            assert forall|r: u64| #[trigger] held@.contains(r) <==> b.contains(r) && holds_row(
                chunk.deep_view(),
                r,
            ) by {
                assert(b.contains(r) <==> a.contains(r) || r == row_id) by {
                    if a.contains(r) {
                        let j = choose|j: int| 0 <= j < a.len() && a[j] == r;
                        assert(b[j] == r);
                    }
                    if r == row_id {
                        assert(b[i as int] == r);
                    }
                    if b.contains(r) && r != row_id {
                        let j = choose|j: int| 0 <= j < b.len() && b[j] == r;
                        assert(a[j] == r);
                    }
                }
                assert(was.contains(r) <==> a.contains(r) && holds_row(chunk.deep_view(), r));
            }
        }
        i = i + 1;
    }
    assert(row_ids@.take(row_ids@.len() as int) =~= row_ids@);
    assert(held@ =~= held_in(chunk.deep_view(), row_ids@));
    held
}

/// The removals for inlined rows that end, by the chunks that hold them.
pub open spec fn ended_entries(
    m: CatalogModel,
    pending: Map<(u64, u64), Seq<u8>>,
    stored: Map<(u64, u64), Seq<u8>>,
    table_id: u64,
    chunks: Seq<ChunkModel>,
    row_ids: Seq<u64>,
) -> Result<Seq<IndexEntryModel>, Fault>
    decreases chunks.len(),
{
    if chunks.len() == 0 {
        Ok(Seq::empty())
    } else {
        let held = held_in(chunks.last(), row_ids);
        match ended_entries(m, pending, stored, table_id, chunks.drop_last(), row_ids) {
            Err(f) => Err(f),
            Ok(entries) => if held == Set::<u64>::empty() {
                Ok(entries)
            } else {
                match chunk_entries(m, pending, stored, table_id, chunks.last(), Some(held)) {
                    Err(f) => Err(f),
                    Ok(more) => Ok(entries + more),
                }
            },
        }
    }
}

proof fn ended_refusal_stays(
    m: CatalogModel,
    pending: Map<(u64, u64), Seq<u8>>,
    stored: Map<(u64, u64), Seq<u8>>,
    table_id: u64,
    chunks: Seq<ChunkModel>,
    row_ids: Seq<u64>,
    n: int,
)
    requires
        0 <= n <= chunks.len(),
        ended_entries(m, pending, stored, table_id, chunks.take(n), row_ids) is Err,
    ensures
        ended_entries(m, pending, stored, table_id, chunks, row_ids) == ended_entries(
            m,
            pending,
            stored,
            table_id,
            chunks.take(n),
            row_ids,
        ),
        ended_until(m, pending, stored, table_id, chunks, row_ids) == ended_until(
            m,
            pending,
            stored,
            table_id,
            chunks.take(n),
            row_ids,
        ),
    decreases chunks.len(),
{
    if n == chunks.len() {
        assert(chunks.take(n) =~= chunks);
    } else {
        assert(chunks.drop_last().take(n) =~= chunks.take(n));
        ended_refusal_stays(m, pending, stored, table_id, chunks.drop_last(), row_ids, n);
    }
}

/// Whether some chunk holds a row.
pub open spec fn covered(chunks: Seq<ChunkModel>, row_id: u64) -> bool {
    exists|i: int| 0 <= i < chunks.len() && holds_row(#[trigger] chunks[i], row_id)
}

/// The first row, from a rank on, that no chunk holds.
pub open spec fn first_uncovered(chunks: Seq<ChunkModel>, row_ids: Seq<u64>, from: int) -> Option<u64>
    decreases row_ids.len() - from,
{
    if from >= row_ids.len() {
        None
    } else if !covered(chunks, row_ids[from]) {
        Some(row_ids[from])
    } else {
        first_uncovered(chunks, row_ids, from + 1)
    }
}

pub open spec fn no_chunk(row_id: u64, table_id: u64) -> Fault {
    Fault::Corruption(
        around_two(
            "inline delete of row "@,
            row_id,
            " on indexed table "@,
            table_id,
            " names no inline chunk, so its index entries cannot be derived"@,
        ),
    )
}

/// The removals for inlined rows of a table that end. A row that no chunk
/// holds is refused: its entries would be left behind.
pub open spec fn removed_inline(
    m: CatalogModel,
    ops: Seq<RowModel>,
    reads: ReadsModel,
    table_id: u64,
    row_ids: Seq<u64>,
) -> Result<Seq<IndexEntryModel>, Fault> {
    let chunks = chunks_of(ops, table_id, reads);
    if indexes_listed(m, table_id).len() == 0 {
        Ok(Seq::empty())
    } else {
        match ended_entries(m, pending_schemas(ops), reads.schemas, table_id, chunks, row_ids) {
            Err(f) => Err(f),
            Ok(entries) => match first_uncovered(chunks, row_ids, 0) {
                Some(row_id) => Err(no_chunk(row_id, table_id)),
                None => Ok(entries),
            },
        }
    }
}

/// The removals of the chunks before the first one that is refused; all of them
/// where none is.
pub open spec fn ended_until(
    m: CatalogModel,
    pending: Map<(u64, u64), Seq<u8>>,
    stored: Map<(u64, u64), Seq<u8>>,
    table_id: u64,
    chunks: Seq<ChunkModel>,
    row_ids: Seq<u64>,
) -> Seq<IndexEntryModel>
    decreases chunks.len(),
{
    if chunks.len() == 0 {
        Seq::empty()
    } else {
        let front = chunks.drop_last();
        match ended_entries(m, pending, stored, table_id, front, row_ids) {
            Err(_) => ended_until(m, pending, stored, table_id, front, row_ids),
            Ok(before) => match ended_entries(m, pending, stored, table_id, chunks, row_ids) {
                Err(_) => before,
                Ok(entries) => entries,
            },
        }
    }
}

/// The removals that inlined rows leave behind where they are refused.
pub open spec fn inline_left(
    m: CatalogModel,
    ops: Seq<RowModel>,
    reads: ReadsModel,
    table_id: u64,
    row_ids: Seq<u64>,
) -> Seq<IndexEntryModel> {
    ended_until(
        m,
        pending_schemas(ops),
        reads.schemas,
        table_id,
        chunks_of(ops, table_id, reads),
        row_ids,
    )
}

fn is_covered(chunks: &Vec<InlineChunk>, row_id: u64) -> (b: bool)
    ensures
        b == covered(chunks.deep_view(), row_id),
{
    let ghost q = chunks.deep_view();
    let mut i: usize = 0;
    while i < chunks.len()
        invariant
            i <= chunks@.len(),
            q == chunks.deep_view(),
            forall|j: int| 0 <= j < i ==> !holds_row(#[trigger] q[j], row_id),
        decreases chunks.len() - i,
    {
        assert(q[i as int] == chunks@[i as int].deep_view());
        if chunks[i].holds(row_id) {
            assert(holds_row(q[i as int], row_id));
            return true;
        }
        i = i + 1;
    }
    false
}

/// Removes the entries of inlined rows of a table that end. Where they are
/// refused, the removals of the chunks before stay.
pub fn stage_inline_delete_entries(
    base: &CatalogSnapshot,
    ops: &Vec<RowOperation>,
    pending: &OrdMap<(u64, u64), Vec<u8>>,
    reads: &IndexReads,
    table_id: u64,
    row_ids: &Vec<u64>,
    entries: &mut Vec<StagedIndexEntry>,
) -> (r: Result<(), Error>)
    requires
        pending@ == pending_schemas(ops.deep_view()),
    ensures
        match removed_inline(base@, ops.deep_view(), reads@, table_id, row_ids@) {
            Err(f) => refused(r, f) && final(entries).deep_view() == old(entries).deep_view()
                + inline_left(base@, ops.deep_view(), reads@, table_id, row_ids@),
            Ok(more) => r is Ok && final(entries).deep_view() == old(entries).deep_view() + more,
        },
{
    let indexes = base.indexes_of(TableId::new(table_id));
    assert(indexes.deep_view().len() == indexes@.len());
    if indexes.len() == 0 {
        assert(entries.deep_view() =~= entries.deep_view() + Seq::<IndexEntryModel>::empty());
        return Ok(());
    }
    let chunks = collect_chunks(ops, table_id, reads);
    let ghost q = chunks.deep_view();
    let ghost p = pending@;
    let ghost s = reads@.schemas;
    let mut i: usize = 0;
    let ghost mut more = Seq::<IndexEntryModel>::empty();
    proof {
        assert(q.take(0) =~= Seq::<ChunkModel>::empty());
        assert(entries.deep_view() =~= entries.deep_view() + more);
    }
    while i < chunks.len()
        invariant
            i <= chunks@.len(),
            q == chunks.deep_view(),
            p == pending@,
            s == reads@.schemas,
            p == pending_schemas(ops.deep_view()),
            q == chunks_of(ops.deep_view(), table_id, reads@),
            indexes_listed(base@, table_id).len() != 0,
            ended_entries(base@, p, s, table_id, q.take(i as int), row_ids@) == Ok::<
                Seq<IndexEntryModel>,
                Fault,
            >(more),
            entries.deep_view() == old(entries).deep_view() + more,
        decreases chunks.len() - i,
    {
        proof {
            let next = q.take(i + 1);
            assert(next.drop_last() =~= q.take(i as int));
            assert(next.last() == chunks@[i as int].deep_view());
        }
        let held = collect_held(&chunks[i], row_ids);
        if !held.is_empty() {
            match stage_inline_chunk_entries(
                base,
                pending,
                &reads.schemas,
                table_id,
                &chunks[i],
                Some(&held),
                entries,
            ) {
                Err(e) => {
                    proof {
                        ended_refusal_stays(base@, p, s, table_id, q, row_ids@, i + 1);
                    }
                    return Err(e);
                },
                Ok(()) => {},
            }
        }
        proof {
            let next = ended_entries(base@, p, s, table_id, q.take(i + 1), row_ids@)->Ok_0;
            assert(entries.deep_view() =~= old(entries).deep_view() + next);
            more = next;
        }
        i = i + 1;
    }
    assert(q.take(q.len() as int) =~= q);
    let mut k: usize = 0;
    while k < row_ids.len()
        invariant
            k <= row_ids@.len(),
            q == chunks.deep_view(),
            first_uncovered(q, row_ids@, 0) == first_uncovered(q, row_ids@, k as int),
            q == chunks_of(ops.deep_view(), table_id, reads@),
            indexes_listed(base@, table_id).len() != 0,
            p == pending_schemas(ops.deep_view()),
            s == reads@.schemas,
            ended_entries(base@, p, s, table_id, q, row_ids@) == Ok::<Seq<IndexEntryModel>, Fault>(
                more,
            ),
            ended_until(base@, p, s, table_id, q, row_ids@) == more,
            entries.deep_view() == old(entries).deep_view() + more,
        decreases row_ids.len() - k,
    {
        if !is_covered(&chunks, row_ids[k]) {
            return Err(
                Error::Corruption(
                    text_around_two(
                        "inline delete of row ",
                        row_ids[k],
                        " on indexed table ",
                        table_id,
                        " names no inline chunk, so its index entries cannot be derived",
                    ),
                ),
            );
        }
        k = k + 1;
    }
    Ok(())
}

/// Where the ends of rows are refused in a chunk, what is staged is what the
/// chunks before it lose.
pub proof fn refused_ends_leave_those_before(
    m: CatalogModel,
    pending: Map<(u64, u64), Seq<u8>>,
    stored: Map<(u64, u64), Seq<u8>>,
    table_id: u64,
    chunks: Seq<ChunkModel>,
    row_ids: Seq<u64>,
) -> (n: int)
    ensures
        0 <= n <= chunks.len(),
        ended_entries(m, pending, stored, table_id, chunks.take(n), row_ids) == Ok::<
            Seq<IndexEntryModel>,
            Fault,
        >(ended_until(m, pending, stored, table_id, chunks, row_ids)),
        n == chunks.len() || ended_entries(
            m,
            pending,
            stored,
            table_id,
            chunks.take(n + 1),
            row_ids,
        ) is Err,
    decreases chunks.len(),
{
    if chunks.len() == 0 {
        assert(chunks.take(0) =~= chunks);
        0
    } else {
        let front = chunks.drop_last();
        let n = refused_ends_leave_those_before(m, pending, stored, table_id, front, row_ids);
        assert(front.take(n) =~= chunks.take(n));
        if n < front.len() {
            assert(front.take(n + 1) =~= chunks.take(n + 1));
            ended_refusal_stays(m, pending, stored, table_id, front, row_ids, n + 1);
            n
        } else {
            assert(front.take(n) =~= front);
            assert(chunks.take(n + 1) =~= chunks);
            if ended_entries(m, pending, stored, table_id, chunks, row_ids) is Ok {
                n + 1
            } else {
                n
            }
        }
    }
}

} // verus!
