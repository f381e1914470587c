//! Upkeep of equality indexes by commits of staged rows: which files and
//! chunks must be read, and which entries come and go with their rows.
use crate::api::{ColumnInfo, ColumnInfoSpec, IndexInfo, IndexInfoSpec, TableId};
use crate::catalog::{column_list, index_info, table_directory, CatalogModel, CatalogSnapshot};
use crate::decode::{
    data_file_row, decode_data_file, decode_delete_file, delete_file_row, insert_refusal,
};
use crate::error::{around, around_two, refused, text_around, text_around_two, Error, Fault};
use crate::index_entries::{IndexEntryModel, StagedIndexEntry};
use crate::ordered::{ascending, OrdSet, Record};
use crate::records::{DataFileModel, DataFileValue, DeleteFileValue};
use crate::rows::{Cell, CellModel, TableKind};
use crate::scoped::scope;
use crate::text::push_text;
use crate::verbs::{unknown_data_file, unknown_data_file_error};
use vstd::prelude::*;

verus! {

// ---------------------------------------------------------------------------
// Rows that were read
// ---------------------------------------------------------------------------

/// A row that was read: the values of the columns that were asked for, as
/// bytes, `None` for NULL.
#[derive(Debug, PartialEq, Eq)]
pub struct ScopedReadEntry {
    pub row_id: u64,
    pub values: Vec<Option<Vec<u8>>>,
}

/// The model of [`ScopedReadEntry`].
#[verifier::ext_equal]
pub struct ScopedModel {
    pub row_id: u64,
    pub values: Seq<Option<Seq<u8>>>,
}

impl DeepView for ScopedReadEntry {
    type V = ScopedModel;

    open spec fn deep_view(&self) -> ScopedModel {
        ScopedModel { row_id: self.row_id, values: self.values.deep_view() }
    }
}

impl Record for ScopedReadEntry {
    fn dup(&self) -> (r: Self) {
        ScopedReadEntry { row_id: self.row_id, values: self.values.dup() }
    }

    fn same(&self, other: &Self) -> (b: bool) {
        self.row_id == other.row_id && self.values.same(&other.values)
    }
}

/// A row that was read for one index, with the canonical bytes of its indexed
/// values.
pub type KeyedRow = (ScopedReadEntry, Vec<u8>);

/// The model of [`KeyedRow`].
pub type KeyedModel = (ScopedModel, Seq<u8>);

/// Whether some indexed value is NULL.
pub open spec fn has_null(row: ScopedModel) -> bool {
    exists|i: int| 0 <= i < row.values.len() && (#[trigger] row.values[i]) is None
}

fn row_has_null(row: &ScopedReadEntry) -> (b: bool)
    ensures
        b == has_null(row.deep_view()),
{
    let ghost q = row.values.deep_view();
    let mut i: usize = 0;
    while i < row.values.len()
        invariant
            i <= row.values@.len(),
            q == row.values.deep_view(),
            forall|j: int| 0 <= j < i ==> (#[trigger] q[j]) is Some,
        decreases row.values.len() - i,
    {
        assert(q[i as int] == row.values@[i as int].deep_view());
        if row.values[i].is_none() {
            assert(row.deep_view().values[i as int] is None);
            return true;
        }
        i = i + 1;
    }
    false
}

/// The change of one index entry. A row with a NULL is no one's rival: a
/// unique index has any number of them.
pub open spec fn entry_for(index: IndexInfoSpec, row: KeyedModel, delete: bool) -> IndexEntryModel {
    IndexEntryModel {
        index_id: index.id.id,
        unique: index.unique && !has_null(row.0),
        key: row.1,
        row_id: row.0.row_id,
        delete,
    }
}

/// The changes of an index's entries for rows.
pub open spec fn entries_for(index: IndexInfoSpec, rows: Seq<KeyedModel>, delete: bool) -> Seq<
    IndexEntryModel,
> {
    Seq::new(rows.len(), |i: int| entry_for(index, rows[i], delete))
}

/// Adds, or removes, the entries of rows.
pub fn push_index_entries(
    entries: &mut Vec<StagedIndexEntry>,
    index: &IndexInfo,
    rows: &Vec<KeyedRow>,
    delete: bool,
)
    ensures
        final(entries).deep_view() == old(entries).deep_view() + entries_for(
            index@,
            rows.deep_view(),
            delete,
        ),
{
    let ghost q = rows.deep_view();
    let ghost all = entries_for(index@, q, delete);
    let mut i: usize = 0;
    assert(entries.deep_view() + all.take(0) =~= entries.deep_view());
    while i < rows.len()
        invariant
            i <= rows@.len(),
            q == rows.deep_view(),
            all == entries_for(index@, q, delete),
            entries.deep_view() == old(entries).deep_view() + all.take(i as int),
        decreases rows.len() - i,
    {
        let ghost was = entries.deep_view();
        assert(q[i as int] == rows@[i as int].deep_view());
        let null = row_has_null(&rows[i].0);
        let entry = StagedIndexEntry {
            index_id: index.id.id,
            unique: index.unique && !null,
            key: rows[i].1.dup(),
            row_id: rows[i].0.row_id,
            delete,
        };
        entries.push(entry);
        assert(entries.deep_view() =~= was.push(entry.deep_view()));
        i = i + 1;
        assert(entries.deep_view() =~= old(entries).deep_view() + all.take(i as int));
    }
    assert(all.take(all.len() as int) =~= all);
}

// ---------------------------------------------------------------------------
// Positions
// ---------------------------------------------------------------------------

/// The equality indexes of a table, in the order of their ids.
pub open spec fn indexes_listed(m: CatalogModel, table_id: u64) -> Seq<IndexInfoSpec> {
    ascending::<u64>(scope(m.indexes, table_id)).map_values(
        |id: u64| index_info(m.indexes[(table_id, id)]),
    )
}

/// The first position of a column, from a position on; the length where there
/// is none.
pub open spec fn first_position(columns: Seq<ColumnInfoSpec>, id: u64, from: int) -> int
    decreases columns.len() - from,
{
    if from >= columns.len() {
        columns.len() as int
    } else if columns[from].id.id == id {
        from
    } else {
        first_position(columns, id, from + 1)
    }
}

pub open spec fn unknown_indexed_column(column_id: u64, table_id: u64) -> Fault {
    Fault::NotFound(around_two("indexed column "@, column_id, " of table "@, table_id, ""@))
}

/// The positions of an index's columns among a table's columns.
pub open spec fn positions_in(columns: Seq<ColumnInfoSpec>, wanted: Seq<u64>, table_id: u64) -> Result<
    Seq<usize>,
    Fault,
>
    decreases wanted.len(),
{
    if wanted.len() == 0 {
        Ok(Seq::empty())
    } else {
        match positions_in(columns, wanted.drop_last(), table_id) {
            Err(f) => Err(f),
            Ok(found) => {
                let at = first_position(columns, wanted.last(), 0);
                if at < columns.len() {
                    Ok(found.push(at as usize))
                } else {
                    Err(unknown_indexed_column(wanted.last(), table_id))
                }
            },
        }
    }
}

proof fn position_refusal_stays(
    columns: Seq<ColumnInfoSpec>,
    wanted: Seq<u64>,
    table_id: u64,
    n: int,
)
    requires
        0 <= n <= wanted.len(),
        positions_in(columns, wanted.take(n), table_id) is Err,
    ensures
        positions_in(columns, wanted, table_id) == positions_in(columns, wanted.take(n), table_id),
    decreases wanted.len(),
{
    if n == wanted.len() {
        assert(wanted.take(n) =~= wanted);
    } else {
        assert(wanted.drop_last().take(n) =~= wanted.take(n));
        position_refusal_stays(columns, wanted.drop_last(), table_id, n);
    }
}

fn find_position(columns: &Vec<ColumnInfo>, id: u64) -> (at: usize)
    ensures
        at == first_position(columns.deep_view(), id, 0),
{
    let ghost q = columns.deep_view();
    let mut i: usize = 0;
    while i < columns.len()
        invariant
            i <= columns@.len(),
            q == columns.deep_view(),
            first_position(q, id, 0) == first_position(q, id, i as int),
        decreases columns.len() - i,
    {
        assert(q[i as int] == columns@[i as int].deep_view());
        if columns[i].id.id == id {
            return i;
        }
        i = i + 1;
    }
    i
}

/// The positions of an index's columns in a file or chunk of the current
/// schema: their ranks among the table's columns.
pub fn index_positions(columns: &Vec<ColumnInfo>, index: &IndexInfo, table: TableId) -> (r: Result<
    Vec<usize>,
    Error,
>)
    ensures
        match positions_in(columns.deep_view(), index@.columns, table.id) {
            Err(f) => refused(r, f),
            Ok(found) => r is Ok && r->Ok_0@ == found,
        },
{
    let ghost q = index.columns.deep_view();
    let mut found: Vec<usize> = Vec::new();
    let mut i: usize = 0;
    assert(q.take(0) =~= Seq::<u64>::empty());
    while i < index.columns.len()
        invariant
            i <= index.columns@.len(),
            q == index.columns.deep_view(),
            positions_in(columns.deep_view(), q.take(i as int), table.id) == Ok::<Seq<usize>, Fault>(
                found@,
            ),
        decreases index.columns.len() - i,
    {
        proof {
            let next = q.take(i + 1);
            assert(next.drop_last() =~= q.take(i as int));
            assert(next.last() == index.columns@[i as int]);
        }
        let at = find_position(columns, index.columns[i]);
        if at >= columns.len() {
            proof {
                position_refusal_stays(columns.deep_view(), q, table.id, i + 1);
            }
            return Err(
                Error::NotFound(
                    text_around_two(
                        "indexed column ",
                        index.columns[i],
                        " of table ",
                        table.id,
                        "",
                    ),
                ),
            );
        }
        found.push(at);
        i = i + 1;
    }
    assert(q.take(q.len() as int) =~= q);
    Ok(found)
}

/// Which columns one read must give so that it serves every index, and where
/// each index's columns stand among them: the start and the length.
pub open spec fn read_plan(
    columns: Seq<ColumnInfoSpec>,
    indexes: Seq<IndexInfoSpec>,
    table_id: u64,
) -> Result<(Seq<usize>, Seq<(usize, usize)>), Fault>
    decreases indexes.len(),
{
    if indexes.len() == 0 {
        Ok((Seq::empty(), Seq::empty()))
    } else {
        match read_plan(columns, indexes.drop_last(), table_id) {
            Err(f) => Err(f),
            Ok((positions, spans)) => match positions_in(columns, indexes.last().columns, table_id) {
                Err(f) => Err(f),
                Ok(more) => Ok(
                    (
                        positions + more,
                        spans.push((positions.len() as usize, more.len() as usize)),
                    ),
                ),
            },
        }
    }
}

proof fn plan_refusal_stays(
    columns: Seq<ColumnInfoSpec>,
    indexes: Seq<IndexInfoSpec>,
    table_id: u64,
    n: int,
)
    requires
        0 <= n <= indexes.len(),
        read_plan(columns, indexes.take(n), table_id) is Err,
    ensures
        read_plan(columns, indexes, table_id) == read_plan(columns, indexes.take(n), table_id),
    decreases indexes.len(),
{
    if n == indexes.len() {
        assert(indexes.take(n) =~= indexes);
    } else {
        assert(indexes.drop_last().take(n) =~= indexes.take(n));
        plan_refusal_stays(columns, indexes.drop_last(), table_id, n);
    }
}

/// One read of a file serves every index.
pub fn plan_read(columns: &Vec<ColumnInfo>, indexes: &Vec<IndexInfo>, table: TableId) -> (r: Result<
    (Vec<usize>, Vec<(usize, usize)>),
    Error,
>)
    ensures
        match read_plan(columns.deep_view(), indexes.deep_view(), table.id) {
            Err(f) => refused(r, f),
            Ok((positions, spans)) => r is Ok && r->Ok_0.0@ == positions && r->Ok_0.1@ == spans,
        },
{
    let ghost q = indexes.deep_view();
    let mut positions: Vec<usize> = Vec::new();
    let mut spans: Vec<(usize, usize)> = Vec::new();
    let mut i: usize = 0;
    assert(q.take(0) =~= Seq::<IndexInfoSpec>::empty());
    while i < indexes.len()
        invariant
            i <= indexes@.len(),
            q == indexes.deep_view(),
            read_plan(columns.deep_view(), q.take(i as int), table.id) == Ok::<
                (Seq<usize>, Seq<(usize, usize)>),
                Fault,
            >((positions@, spans@)),
        decreases indexes.len() - i,
    {
        proof {
            let next = q.take(i + 1);
            assert(next.drop_last() =~= q.take(i as int));
            assert(next.last() == indexes@[i as int].deep_view());
        }
        match index_positions(columns, &indexes[i], table) {
            Err(e) => {
                proof {
                    plan_refusal_stays(columns.deep_view(), q, table.id, i + 1);
                }
                return Err(e);
            },
            Ok(more) => {
                spans.push((positions.len(), more.len()));
                let ghost before = positions@;
                let mut j: usize = 0;
                assert(before + more@.take(0) =~= before);
                while j < more.len()
                    invariant
                        j <= more@.len(),
                        positions@ == before + more@.take(j as int),
                    decreases more.len() - j,
                {
                    positions.push(more[j]);
                    j = j + 1;
                    assert(positions@ =~= before + more@.take(j as int));
                }
                assert(more@.take(more@.len() as int) =~= more@);
            },
        }
        i = i + 1;
    }
    assert(q.take(q.len() as int) =~= q);
    Ok((positions, spans))
}

/// The part of a row's values that one index reads.
pub open spec fn row_part(row: ScopedModel, span: (usize, usize)) -> ScopedModel {
    ScopedModel {
        row_id: row.row_id,
        values: row.values.subrange(span.0 as int, span.0 + span.1),
    }
}

/// Splits the rows of one read into those of each index, in the order of the
/// indexes.
pub fn per_index_scoped_entries(rows: &Vec<ScopedReadEntry>, spans: &Vec<(usize, usize)>) -> (out: Vec<
    Vec<ScopedReadEntry>,
>)
    requires
        forall|k: int, i: int|
            #![trigger spans@[k], rows@[i]]
            0 <= k < spans@.len() && 0 <= i < rows@.len() ==> spans@[k].0 + spans@[k].1
                <= rows@[i].values@.len(),
    ensures
        out.deep_view() == Seq::new(
            spans@.len(),
            |k: int|
                Seq::new(rows@.len(), |i: int| row_part(rows.deep_view()[i], spans@[k])),
        ),
{
    let ghost q = rows.deep_view();
    let mut out: Vec<Vec<ScopedReadEntry>> = Vec::new();
    let mut k: usize = 0;
    while k < spans.len()
        invariant
            k <= spans@.len(),
            q == rows.deep_view(),
            out@.len() == k,
            forall|k: int, i: int|
                #![trigger spans@[k], rows@[i]]
                0 <= k < spans@.len() && 0 <= i < rows@.len() ==> spans@[k].0 + spans@[k].1
                    <= rows@[i].values@.len(),
            forall|j: int|
                0 <= j < k ==> (#[trigger] out@[j]).deep_view() == Seq::new(
                    rows@.len(),
                    |i: int| row_part(q[i], spans@[j]),
                ),
        decreases spans.len() - k,
    {
        let (start, len) = spans[k];
        let mut part: Vec<ScopedReadEntry> = Vec::new();
        let mut i: usize = 0;
        while i < rows.len()
            invariant
                i <= rows@.len(),
                k < spans@.len(),
                (start, len) == spans@[k as int],
                q == rows.deep_view(),
                part@.len() == i,
                forall|k: int, i: int|
                    #![trigger spans@[k], rows@[i]]
                    0 <= k < spans@.len() && 0 <= i < rows@.len() ==> spans@[k].0 + spans@[k].1
                        <= rows@[i].values@.len(),
                forall|j: int|
                    0 <= j < i ==> (#[trigger] part@[j]).deep_view() == row_part(
                        q[j],
                        spans@[k as int],
                    ),
            decreases rows.len() - i,
        {
            let row = &rows[i];
            assert(q[i as int] == rows@[i as int].deep_view());
            let width: usize = row.values.len();
            assert(spans@[k as int].0 + spans@[k as int].1 <= rows@[i as int].values@.len());
            assert(start + len <= width);
            let values = sliced(&row.values, start, start + len);
            part.push(ScopedReadEntry { row_id: row.row_id, values });
            i = i + 1;
        }
        assert(part.deep_view() =~= Seq::new(rows@.len(), |i: int| row_part(q[i], spans@[k as int])));
        out.push(part);
        k = k + 1;
    }
    assert(out.deep_view() =~= Seq::new(
        spans@.len(),
        |k: int| Seq::new(rows@.len(), |i: int| row_part(q[i], spans@[k])),
    ));
    out
}

fn sliced(values: &Vec<Option<Vec<u8>>>, from: usize, to: usize) -> (part: Vec<Option<Vec<u8>>>)
    requires
        from <= to <= values@.len(),
    ensures
        part.deep_view() == values.deep_view().subrange(from as int, to as int),
{
    let ghost q = values.deep_view();
    let mut part: Vec<Option<Vec<u8>>> = Vec::new();
    let mut i: usize = from;
    assert(part.deep_view() =~= q.subrange(from as int, from as int));
    while i < to
        invariant
            from <= i <= to <= values@.len(),
            q == values.deep_view(),
            part.deep_view() == q.subrange(from as int, i as int),
        decreases to - i,
    {
        let ghost was = part.deep_view();
        let copy = values[i].dup();
        part.push(copy);
        assert(part.deep_view() =~= was.push(copy.deep_view()));
        i = i + 1;
        assert(part.deep_view() =~= q.subrange(from as int, i as int));
    }
    part
}

// ---------------------------------------------------------------------------
// Paths
// ---------------------------------------------------------------------------

/// What `object_store` makes of a path: segments without delimiters, each
/// percent-encoded where it holds reserved characters, none empty.
pub uninterp spec fn normalized_path(path: Seq<char>) -> Seq<char>;

/// `object_store::path::Path::from` normalizes a path, a function of its text.
#[verifier::external_body]
fn object_path(path: &str) -> (normal: String)
    ensures
        normal@ == normalized_path(path@),
{
    String::from(object_store::path::Path::from(path))
}

/// Where a registered file lies: its path as it is, or below its table's
/// directory, below the prefix of the data path.
pub open spec fn file_location(
    directory: Seq<char>,
    path: Seq<char>,
    path_is_relative: bool,
    data_prefix: Seq<char>,
) -> Seq<char> {
    if !path_is_relative {
        path
    } else if data_prefix.len() == 0 {
        directory + path
    } else {
        data_prefix + "/"@ + directory + path
    }
}

/// Where a registered file lies.
pub fn file_location_text(directory: &str, path: &str, path_is_relative: bool, data_prefix: &str) -> (t:
    String)
    ensures
        t@ == file_location(directory@, path@, path_is_relative, data_prefix@),
{
    let mut t = String::new();
    if path_is_relative {
        let prefix = crate::text::chars_of(data_prefix);
        if prefix.len() > 0 {
            push_text(&mut t, data_prefix);
            push_text(&mut t, "/");
        }
        push_text(&mut t, directory);
    }
    push_text(&mut t, path);
    assert(t@ =~= file_location(directory@, path@, path_is_relative, data_prefix@));
    t
}

/// The object path of a registered file, or why there is none: its table is
/// unknown, which makes the registration corrupt.
pub open spec fn registered_path(
    m: CatalogModel,
    table_id: u64,
    path: Seq<char>,
    path_is_relative: bool,
    data_prefix: Seq<char>,
) -> Result<Seq<char>, Fault> {
    match table_directory(m, table_id) {
        Some(directory) => Ok(
            normalized_path(file_location(directory, path, path_is_relative, data_prefix)),
        ),
        None => Err(
            Fault::Corruption(around("registered file names unknown table "@, table_id, ""@)),
        ),
    }
}

/// The object path of a registered file.
pub fn table_object_path(
    base: &CatalogSnapshot,
    table_id: u64,
    path: &str,
    path_is_relative: bool,
    data_prefix: &str,
) -> (r: Result<String, Error>)
    ensures
        match registered_path(base@, table_id, path@, path_is_relative, data_prefix@) {
            Err(f) => refused(r, f),
            Ok(t) => r is Ok && r->Ok_0@ == t,
        },
{
    match base.table_data_prefix(TableId::new(table_id)) {
        Err(_) => Err(
            Error::Corruption(text_around("registered file names unknown table ", table_id, "")),
        ),
        Ok(directory) => {
            let location = file_location_text(&directory, path, path_is_relative, data_prefix);
            Ok(object_path(&location))
        },
    }
}

/// The object path of a data file.
pub fn data_file_object_path(base: &CatalogSnapshot, file: &DataFileValue, data_prefix: &str) -> (r:
    Result<String, Error>)
    ensures
        match registered_path(
            base@,
            file@.table_id,
            file@.path,
            file@.path_is_relative,
            data_prefix@,
        ) {
            Err(f) => refused(r, f),
            Ok(t) => r is Ok && r->Ok_0@ == t,
        },
{
    table_object_path(base, file.table_id, &file.path, file.path_is_relative, data_prefix)
}

/// The object path of a delete file, found as its target's is.
pub fn delete_file_object_path(base: &CatalogSnapshot, file: &DeleteFileValue, data_prefix: &str) -> (r:
    Result<String, Error>)
    ensures
        match registered_path(
            base@,
            file@.table_id,
            file@.path,
            file@.path_is_relative,
            data_prefix@,
        ) {
            Err(f) => refused(r, f),
            Ok(t) => r is Ok && r->Ok_0@ == t,
        },
{
    table_object_path(base, file.table_id, &file.path, file.path_is_relative, data_prefix)
}

// ---------------------------------------------------------------------------
// Reads of data files
// ---------------------------------------------------------------------------

/// A read that upkeep needs: which file, where it lies, and which columns.
#[derive(Debug, PartialEq, Eq)]
pub struct FileRead {
    pub table_id: u64,
    pub data_file_id: u64,
    pub path: String,
    pub positions: Vec<usize>,
    pub spans: Vec<(usize, usize)>,
    pub row_id_start: Option<u64>,
    pub file_size_bytes: u64,
}

/// The model of [`FileRead`].
#[verifier::ext_equal]
pub struct FileReadModel {
    pub table_id: u64,
    pub data_file_id: u64,
    pub path: Seq<char>,
    pub positions: Seq<usize>,
    pub spans: Seq<(usize, usize)>,
    pub row_id_start: Option<u64>,
    pub file_size_bytes: u64,
}

impl View for FileRead {
    type V = FileReadModel;

    open spec fn view(&self) -> FileReadModel {
        FileReadModel {
            table_id: self.table_id,
            data_file_id: self.data_file_id,
            path: self.path@,
            positions: self.positions@,
            spans: self.spans@,
            row_id_start: self.row_id_start,
            file_size_bytes: self.file_size_bytes,
        }
    }
}

/// The read of a data file for every index of its table.
pub open spec fn file_read(m: CatalogModel, file: DataFileModel, data_prefix: Seq<char>) -> Result<
    FileReadModel,
    Fault,
> {
    match registered_path(m, file.table_id, file.path, file.path_is_relative, data_prefix) {
        Err(f) => Err(f),
        Ok(path) => match read_plan(
            column_list(m, file.table_id),
            indexes_listed(m, file.table_id),
            file.table_id,
        ) {
            Err(f) => Err(f),
            Ok((positions, spans)) => Ok(
                FileReadModel {
                    table_id: file.table_id,
                    data_file_id: file.data_file_id,
                    path,
                    positions,
                    spans,
                    row_id_start: file.row_id_start,
                    file_size_bytes: file.file_size_bytes,
                },
            ),
        },
    }
}

fn plan_file_read(base: &CatalogSnapshot, file: &DataFileValue, data_prefix: &str) -> (r: Result<
    FileRead,
    Error,
>)
    ensures
        match file_read(base@, file@, data_prefix@) {
            Err(f) => refused(r, f),
            Ok(read) => r is Ok && r->Ok_0@ == read,
        },
{
    let path = match data_file_object_path(base, file, data_prefix) {
        Err(e) => return Err(e),
        Ok(path) => path,
    };
    let table = TableId::new(file.table_id);
    let columns = base.columns_of(table);
    let indexes = base.indexes_of(table);
    match plan_read(&columns, &indexes, table) {
        Err(e) => Err(e),
        Ok((positions, spans)) => Ok(
            FileRead {
                table_id: file.table_id,
                data_file_id: file.data_file_id,
                path,
                positions,
                spans,
                row_id_start: file.row_id_start,
                file_size_bytes: file.file_size_bytes,
            },
        ),
    }
}

/// Why a file cannot be read: there is no store to read it from.
pub open spec fn no_store(what: Seq<char>, id: u64, table_id: u64) -> Fault {
    Fault::Constraint(
        around_two(
            what,
            id,
            " on indexed table "@,
            table_id,
            " cannot be read to maintain its equality index: no data-path store is available"@,
        ),
    )
}

fn no_store_error(what: &str, id: u64, table_id: u64) -> (e: Error)
    ensures
        e@ == no_store(what@, id, table_id),
{
    Error::Constraint(
        text_around_two(
            what,
            id,
            " on indexed table ",
            table_id,
            " cannot be read to maintain its equality index: no data-path store is available",
        ),
    )
}

/// The read that the insert of a data file needs: none where its table has no
/// index.
pub open spec fn inserted_file_read(
    m: CatalogModel,
    cells: Seq<CellModel>,
    store: bool,
    data_prefix: Seq<char>,
) -> Result<Option<FileReadModel>, Fault> {
    let file = data_file_row(cells);
    if insert_refusal(TableKind::DataFile, cells) is Some {
        Err(insert_refusal(TableKind::DataFile, cells)->0)
    } else if indexes_listed(m, file.table_id).len() == 0 {
        Ok(None)
    } else if !store {
        Err(no_store("data file "@, file.data_file_id, file.table_id))
    } else {
        match file_read(m, file, data_prefix) {
            Err(f) => Err(f),
            Ok(read) => Ok(Some(read)),
        }
    }
}

/// The read that the insert of a data file needs. Where there is no store to
/// read from, the insert is refused: the index would miss the file's rows.
pub fn data_file_read(base: &CatalogSnapshot, cells: &Vec<Cell>, store: bool, data_prefix: &str) -> (r:
    Result<Option<FileRead>, Error>)
    ensures
        match inserted_file_read(base@, cells.deep_view(), store, data_prefix@) {
            Err(f) => refused(r, f),
            Ok(None) => r is Ok && r->Ok_0 is None,
            Ok(Some(read)) => r is Ok && r->Ok_0 is Some && r->Ok_0->0@ == read,
        },
{
    let file = match decode_data_file(cells) {
        Err(e) => return Err(e),
        Ok(file) => file,
    };
    let indexes = base.indexes_of(TableId::new(file.table_id));
    assert(indexes.deep_view().len() == indexes@.len());
    if indexes.len() == 0 {
        return Ok(None);
    }
    if !store {
        return Err(no_store_error("data file ", file.data_file_id, file.table_id));
    }
    match plan_file_read(base, &file, data_prefix) {
        Err(e) => Err(e),
        Ok(read) => Ok(Some(read)),
    }
}

/// Where a delete file lies, and what it targets.
#[derive(Debug, PartialEq, Eq)]
pub struct DeleteFileRead {
    pub table_id: u64,
    pub delete_file_id: u64,
    pub data_file_id: u64,
    pub path: String,
}

/// The model of [`DeleteFileRead`].
#[verifier::ext_equal]
pub struct DeleteReadModel {
    pub table_id: u64,
    pub delete_file_id: u64,
    pub data_file_id: u64,
    pub path: Seq<char>,
}

impl View for DeleteFileRead {
    type V = DeleteReadModel;

    open spec fn view(&self) -> DeleteReadModel {
        DeleteReadModel {
            table_id: self.table_id,
            delete_file_id: self.delete_file_id,
            data_file_id: self.data_file_id,
            path: self.path@,
        }
    }
}

/// The read that the insert of a delete file needs: none where its table has
/// no index.
pub open spec fn inserted_delete_read(
    m: CatalogModel,
    cells: Seq<CellModel>,
    store: bool,
    data_prefix: Seq<char>,
) -> Result<Option<DeleteReadModel>, Fault> {
    let file = delete_file_row(cells);
    if insert_refusal(TableKind::DeleteFile, cells) is Some {
        Err(insert_refusal(TableKind::DeleteFile, cells)->0)
    } else if indexes_listed(m, file.table_id).len() == 0 {
        Ok(None)
    } else if !store {
        Err(no_store("delete file "@, file.delete_file_id, file.table_id))
    } else {
        match registered_path(m, file.table_id, file.path, file.path_is_relative, data_prefix) {
            Err(f) => Err(f),
            Ok(path) => Ok(
                Some(
                    DeleteReadModel {
                        table_id: file.table_id,
                        delete_file_id: file.delete_file_id,
                        data_file_id: file.data_file_id,
                        path,
                    },
                ),
            ),
        }
    }
}

/// The read that the insert of a delete file needs.
pub fn delete_file_read(base: &CatalogSnapshot, cells: &Vec<Cell>, store: bool, data_prefix: &str) -> (r:
    Result<Option<DeleteFileRead>, Error>)
    ensures
        match inserted_delete_read(base@, cells.deep_view(), store, data_prefix@) {
            Err(f) => refused(r, f),
            Ok(None) => r is Ok && r->Ok_0 is None,
            Ok(Some(read)) => r is Ok && r->Ok_0 is Some && r->Ok_0->0@ == read,
        },
{
    let file = match decode_delete_file(cells) {
        Err(e) => return Err(e),
        Ok(file) => file,
    };
    let indexes = base.indexes_of(TableId::new(file.table_id));
    assert(indexes.deep_view().len() == indexes@.len());
    if indexes.len() == 0 {
        return Ok(None);
    }
    if !store {
        return Err(no_store_error("delete file ", file.delete_file_id, file.table_id));
    }
    match delete_file_object_path(base, &file, data_prefix) {
        Err(e) => Err(e),
        Ok(path) => Ok(
            Some(
                DeleteFileRead {
                    table_id: file.table_id,
                    delete_file_id: file.delete_file_id,
                    data_file_id: file.data_file_id,
                    path,
                },
            ),
        ),
    }
}

/// A live data file.
pub fn live_data_file(base: &CatalogSnapshot, table_id: u64, data_file_id: u64) -> (r: Result<
    DataFileValue,
    Error,
>)
    ensures
        if base@.data_files.contains_key((table_id, data_file_id)) {
            r is Ok && r->Ok_0@ == base@.data_files[(table_id, data_file_id)]
        } else {
            refused(r, unknown_data_file(table_id, data_file_id))
        },
{
    match base.data_files.get(&(table_id, data_file_id)) {
        Some(file) => Ok(file.dup()),
        None => Err(unknown_data_file_error(table_id, data_file_id)),
    }
}

/// The positions of a data file's rows that a commit kills. Both a delete file
/// and an inlined delete name positions, not row ids.
pub struct KilledRows {
    positions: OrdSet<u64>,
}

impl View for KilledRows {
    type V = Set<u64>;

    closed spec fn view(&self) -> Set<u64> {
        self.positions@
    }
}

impl DeepView for KilledRows {
    type V = Set<u64>;

    open spec fn deep_view(&self) -> Set<u64> {
        self.view()
    }
}

impl Record for KilledRows {
    fn dup(&self) -> (r: Self) {
        KilledRows { positions: self.positions.dup() }
    }

    fn same(&self, other: &Self) -> (b: bool) {
        self.positions.same(&other.positions)
    }
}

impl KilledRows {
    pub fn new() -> (k: Self)
        ensures
            k@ == Set::<u64>::empty(),
    {
        KilledRows { positions: OrdSet::new() }
    }

    /// Records a killed position.
    pub fn insert_position(&mut self, position: u64)
        ensures
            final(self)@ == old(self)@.insert(position),
    {
        self.positions.insert(position);
    }

    /// Whether a position is killed.
    pub fn contains(&self, position: u64) -> (b: bool)
        ensures
            b == self@.contains(position),
    {
        self.positions.contains(&position)
    }

    /// The killed positions, in ascending order.
    pub fn positions(&self) -> (items: &Vec<u64>)
        ensures
            items.deep_view().to_set() == self@,
            items.deep_view() == ascending::<u64>(self@),
    {
        self.positions.items()
    }
}

/// Why killed positions are refused: the lowest that the file does not have.
pub open spec fn outside(file: DataFileModel, table_id: u64, data_file_id: u64, position: u64) -> Fault {
    Fault::Constraint(
        around_two(
            "delete file for data file "@,
            data_file_id,
            " on table "@,
            table_id,
            " names position "@,
        ) + around_two(
            ""@,
            position,
            " outside the file's record count "@,
            file.record_count,
            ""@,
        ),
    )
}

/// The first position outside a file, from a rank on.
pub open spec fn first_outside(positions: Seq<u64>, record_count: u64, from: int) -> Option<u64>
    decreases positions.len() - from,
{
    if from >= positions.len() {
        None
    } else if positions[from] >= record_count {
        Some(positions[from])
    } else {
        first_outside(positions, record_count, from + 1)
    }
}

/// The read that killing rows of a data file needs: none where its table has
/// no index. A position that the file does not have is refused: it would match
/// no row, and leave its entry behind.
pub open spec fn killed_file_read(
    m: CatalogModel,
    table_id: u64,
    data_file_id: u64,
    killed: Set<u64>,
    store: bool,
    data_prefix: Seq<char>,
) -> Result<Option<FileReadModel>, Fault> {
    if indexes_listed(m, table_id).len() == 0 {
        Ok(None)
    } else if !m.data_files.contains_key((table_id, data_file_id)) {
        Err(unknown_data_file(table_id, data_file_id))
    } else if !store {
        Err(no_store("data file "@, data_file_id, table_id))
    } else {
        let file = m.data_files[(table_id, data_file_id)];
        match first_outside(ascending::<u64>(killed), file.record_count, 0) {
            Some(position) => Err(outside(file, table_id, data_file_id, position)),
            None => match file_read(m, file, data_prefix) {
                Err(f) => Err(f),
                Ok(read) => Ok(Some(read)),
            },
        }
    }
}

/// The read that killing rows of a data file needs.
pub fn file_delete_read(
    base: &CatalogSnapshot,
    table_id: u64,
    data_file_id: u64,
    killed: &KilledRows,
    store: bool,
    data_prefix: &str,
) -> (r: Result<Option<FileRead>, Error>)
    ensures
        match killed_file_read(base@, table_id, data_file_id, killed@, store, data_prefix@) {
            Err(f) => refused(r, f),
            Ok(None) => r is Ok && r->Ok_0 is None,
            Ok(Some(read)) => r is Ok && r->Ok_0 is Some && r->Ok_0->0@ == read,
        },
{
    let indexes = base.indexes_of(TableId::new(table_id));
    assert(indexes.deep_view().len() == indexes@.len());
    if indexes.len() == 0 {
        return Ok(None);
    }
    let file = match live_data_file(base, table_id, data_file_id) {
        Err(e) => return Err(e),
        Ok(file) => file,
    };
    if !store {
        return Err(no_store_error("data file ", data_file_id, table_id));
    }
    let positions = killed.positions();
    let ghost q = positions.deep_view();
    let mut i: usize = 0;
    while i < positions.len()
        invariant
            i <= positions@.len(),
            q == positions.deep_view(),
            q == ascending::<u64>(killed@),
            file@ == base@.data_files[(table_id, data_file_id)],
            base@.data_files.contains_key((table_id, data_file_id)),
            indexes_listed(base@, table_id).len() != 0,
            store,
            first_outside(q, file@.record_count, 0) == first_outside(
                q,
                file@.record_count,
                i as int,
            ),
        decreases positions.len() - i,
    {
        assert(q[i as int] == positions@[i as int]);
        if positions[i] >= file.record_count {
            let mut t = text_around_two(
                "delete file for data file ",
                data_file_id,
                " on table ",
                table_id,
                " names position ",
            );
            push_text(
                &mut t,
                &text_around_two(
                    "",
                    positions[i],
                    " outside the file's record count ",
                    file.record_count,
                    "",
                ),
            );
            return Err(Error::Constraint(t));
        }
        i = i + 1;
    }
    match plan_file_read(base, &file, data_prefix) {
        Err(e) => Err(e),
        Ok(read) => Ok(Some(read)),
    }
}

} // verus!
