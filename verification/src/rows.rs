//! Rows that DuckLake stages: their tables, cells and operations, and the
//! shapes that rows must have.
use crate::error::{
    around, text_around, text_around_two, around_two, text_wrapped, refused, Error, Fault,
};
use crate::ordered::Record;
use vstd::prelude::*;
use vstd::std_specs::convert::TryFromSpecImpl;

verus! {

/// Which `ducklake_*` table a staged row belongs to. The declaration order is
/// the wire protocol: a kind's number is its position.
#[derive(Debug, Clone, Copy, PartialEq, Eq, Structural)]
pub enum TableKind {
    /// `ducklake_snapshot`.
    Snapshot,
    /// `ducklake_snapshot_changes`.
    SnapshotChanges,
    /// `ducklake_schema`.
    Schema,
    /// `ducklake_table`.
    Table,
    /// `ducklake_view`.
    View,
    /// `ducklake_column`.
    Column,
    /// `ducklake_data_file`.
    DataFile,
    /// `ducklake_delete_file`.
    DeleteFile,
    /// `ducklake_table_stats`.
    TableStats,
    /// `ducklake_table_column_stats`.
    TableColumnStats,
    /// `ducklake_file_column_stats`.
    FileColumnStats,
    /// `ducklake_schema_versions`.
    SchemaVersions,
    /// `ducklake_partition_info`.
    PartitionInfo,
    /// `ducklake_partition_column`.
    PartitionColumn,
    /// `ducklake_file_partition_value`.
    FilePartitionValue,
    /// `ducklake_sort_info`.
    SortInfo,
    /// `ducklake_sort_expression`.
    SortExpression,
    /// `ducklake_tag`.
    Tag,
    /// `ducklake_column_tag`.
    ColumnTag,
    /// `ducklake_files_scheduled_for_deletion`.
    FilesScheduledForDeletion,
    /// `ducklake_macro`.
    Macro,
    /// `ducklake_macro_impl`.
    MacroImpl,
    /// `ducklake_macro_parameters`.
    MacroParameters,
    /// `ducklake_column_mapping`.
    ColumnMapping,
    /// `ducklake_name_mapping`.
    NameMapping,
}

impl TableKind {
    /// Every kind, in the order of the numbers.
    pub const ALL: [TableKind; 25] = [
        TableKind::Snapshot,
        TableKind::SnapshotChanges,
        TableKind::Schema,
        TableKind::Table,
        TableKind::View,
        TableKind::Column,
        TableKind::DataFile,
        TableKind::DeleteFile,
        TableKind::TableStats,
        TableKind::TableColumnStats,
        TableKind::FileColumnStats,
        TableKind::SchemaVersions,
        TableKind::PartitionInfo,
        TableKind::PartitionColumn,
        TableKind::FilePartitionValue,
        TableKind::SortInfo,
        TableKind::SortExpression,
        TableKind::Tag,
        TableKind::ColumnTag,
        TableKind::FilesScheduledForDeletion,
        TableKind::Macro,
        TableKind::MacroImpl,
        TableKind::MacroParameters,
        TableKind::ColumnMapping,
        TableKind::NameMapping,
    ];
}

/// The kind with a number.
pub open spec fn kind_numbered(n: i32) -> Option<TableKind> {
    if 0 <= n < 25 {
        Some(TableKind::ALL@[n as int])
    } else {
        None
    }
}

impl TryFrom<i32> for TableKind {
    type Error = i32;

    /// The kind with a number; an unknown number comes back as the error.
    fn try_from(value: i32) -> (r: Result<Self, i32>) {
        if 0 <= value && value < 25 {
            Ok(TableKind::ALL[value as usize])
        } else {
            Err(value)
        }
    }
}

impl TryFromSpecImpl<i32> for TableKind {
    open spec fn obeys_try_from_spec() -> bool {
        true
    }

    open spec fn try_from_spec(value: i32) -> Result<Self, i32> {
        match kind_numbered(value) {
            Some(k) => Ok(k),
            None => Err(value),
        }
    }
}

/// The name of a kind, as messages write it.
pub open spec fn kind_name(table: TableKind) -> Seq<char> {
    match table {
        TableKind::Snapshot => "Snapshot"@,
        TableKind::SnapshotChanges => "SnapshotChanges"@,
        TableKind::Schema => "Schema"@,
        TableKind::Table => "Table"@,
        TableKind::View => "View"@,
        TableKind::Column => "Column"@,
        TableKind::DataFile => "DataFile"@,
        TableKind::DeleteFile => "DeleteFile"@,
        TableKind::TableStats => "TableStats"@,
        TableKind::TableColumnStats => "TableColumnStats"@,
        TableKind::FileColumnStats => "FileColumnStats"@,
        TableKind::SchemaVersions => "SchemaVersions"@,
        TableKind::PartitionInfo => "PartitionInfo"@,
        TableKind::PartitionColumn => "PartitionColumn"@,
        TableKind::FilePartitionValue => "FilePartitionValue"@,
        TableKind::SortInfo => "SortInfo"@,
        TableKind::SortExpression => "SortExpression"@,
        TableKind::Tag => "Tag"@,
        TableKind::ColumnTag => "ColumnTag"@,
        TableKind::FilesScheduledForDeletion => "FilesScheduledForDeletion"@,
        TableKind::Macro => "Macro"@,
        TableKind::MacroImpl => "MacroImpl"@,
        TableKind::MacroParameters => "MacroParameters"@,
        TableKind::ColumnMapping => "ColumnMapping"@,
        TableKind::NameMapping => "NameMapping"@,
    }
}

pub fn kind_text(table: TableKind) -> (t: &'static str)
    ensures
        t@ == kind_name(table),
{
    match table {
        TableKind::Snapshot => "Snapshot",
        TableKind::SnapshotChanges => "SnapshotChanges",
        TableKind::Schema => "Schema",
        TableKind::Table => "Table",
        TableKind::View => "View",
        TableKind::Column => "Column",
        TableKind::DataFile => "DataFile",
        TableKind::DeleteFile => "DeleteFile",
        TableKind::TableStats => "TableStats",
        TableKind::TableColumnStats => "TableColumnStats",
        TableKind::FileColumnStats => "FileColumnStats",
        TableKind::SchemaVersions => "SchemaVersions",
        TableKind::PartitionInfo => "PartitionInfo",
        TableKind::PartitionColumn => "PartitionColumn",
        TableKind::FilePartitionValue => "FilePartitionValue",
        TableKind::SortInfo => "SortInfo",
        TableKind::SortExpression => "SortExpression",
        TableKind::Tag => "Tag",
        TableKind::ColumnTag => "ColumnTag",
        TableKind::FilesScheduledForDeletion => "FilesScheduledForDeletion",
        TableKind::Macro => "Macro",
        TableKind::MacroImpl => "MacroImpl",
        TableKind::MacroParameters => "MacroParameters",
        TableKind::ColumnMapping => "ColumnMapping",
        TableKind::NameMapping => "NameMapping",
    }
}

/// One column value of a staged row.
#[derive(Debug, PartialEq, Eq)]
pub enum Cell {
    /// SQL `NULL`.
    Null,
    /// An unsigned integer: every id, counter and count.
    U64(u64),
    /// A signed integer: a timestamp in microseconds since the epoch.
    I64(i64),
    /// A boolean.
    Bool(bool),
    /// A text; a UUID comes in its text form.
    Str(String),
}

/// The model of [`Cell`].
pub enum CellModel {
    Null,
    U64(u64),
    I64(i64),
    Bool(bool),
    Str(Seq<char>),
}

impl DeepView for Cell {
    type V = CellModel;

    open spec fn deep_view(&self) -> CellModel {
        match *self {
            Cell::Null => CellModel::Null,
            Cell::U64(n) => CellModel::U64(n),
            Cell::I64(n) => CellModel::I64(n),
            Cell::Bool(b) => CellModel::Bool(b),
            Cell::Str(s) => CellModel::Str(s@),
        }
    }
}

impl Clone for Cell {
    fn clone(&self) -> (r: Self)
        ensures
            r.deep_view() == self.deep_view(),
    {
        match self {
            Cell::Null => Cell::Null,
            Cell::U64(n) => Cell::U64(*n),
            Cell::I64(n) => Cell::I64(*n),
            Cell::Bool(b) => Cell::Bool(*b),
            Cell::Str(s) => Cell::Str(s.dup()),
        }
    }
}

/// One staged row operation.
#[derive(Debug, PartialEq, Eq)]
pub enum RowOperation {
    /// A new row. Its cells are positional, in the column order of its table.
    Insert { table: TableKind, cells: Vec<Cell> },
    /// A row that is removed without an ended version: its key columns.
    Delete { table: TableKind, cells: Vec<Cell> },
    /// Ends the live version of a row: its key columns and the snapshot.
    UpdateSetEnd { table: TableKind, cells: Vec<Cell> },
    /// Moves the begin of a data file that the same commit inserts: its key
    /// columns and the snapshot.
    UpdateSetBegin { table: TableKind, cells: Vec<Cell> },
    /// Registers the schema of a table's inlined rows.
    InlineSchema { table_id: u64, schema_version: u64, arrow_schema: Vec<u8> },
    /// Adds a chunk of inlined rows.
    InlineInsert { table_id: u64, schema_version: u64, begin_snapshot: u64, row_id_start: u64, row_count: u64, arrow_body: Vec<u8> },
    /// Ends one inlined row.
    InlineInlineDelete { table_id: u64, row_id: u64, end_snapshot: u64 },
    /// Deletes one row of a data file.
    InlineFileDelete { table_id: u64, data_file_id: u64, row_id: u64, begin_snapshot: u64 },
    /// Removes the chunks that began at or before a snapshot, with the ends
    /// of their rows.
    InlineFlushDelete { table_id: u64, schema_version: u64, flush_snapshot: u64 },
    /// Removes every inlined record of a table.
    InlineDrop { table_id: u64 },
    /// Removes the schema of one version of a table's inlined rows.
    InlineSchemaDrop { table_id: u64, schema_version: u64 },
    /// Takes back the deletion of one row of a data file.
    InlineFileDeleteRemove { table_id: u64, data_file_id: u64, row_id: u64 },
}

/// The model of [`RowOperation`].
pub enum RowModel {
    Insert { table: TableKind, cells: Seq<CellModel> },
    Delete { table: TableKind, cells: Seq<CellModel> },
    UpdateSetEnd { table: TableKind, cells: Seq<CellModel> },
    UpdateSetBegin { table: TableKind, cells: Seq<CellModel> },
    InlineSchema { table_id: u64, schema_version: u64, arrow_schema: Seq<u8> },
    InlineInsert { table_id: u64, schema_version: u64, begin_snapshot: u64, row_id_start: u64, row_count: u64, arrow_body: Seq<u8> },
    InlineInlineDelete { table_id: u64, row_id: u64, end_snapshot: u64 },
    InlineFileDelete { table_id: u64, data_file_id: u64, row_id: u64, begin_snapshot: u64 },
    InlineFlushDelete { table_id: u64, schema_version: u64, flush_snapshot: u64 },
    InlineDrop { table_id: u64 },
    InlineSchemaDrop { table_id: u64, schema_version: u64 },
    InlineFileDeleteRemove { table_id: u64, data_file_id: u64, row_id: u64 },
}

impl DeepView for RowOperation {
    type V = RowModel;

    open spec fn deep_view(&self) -> RowModel {
        match *self {
            RowOperation::Insert { table, cells } => RowModel::Insert { table, cells: cells.deep_view() },
            RowOperation::Delete { table, cells } => RowModel::Delete { table, cells: cells.deep_view() },
            RowOperation::UpdateSetEnd { table, cells } => RowModel::UpdateSetEnd { table, cells: cells.deep_view() },
            RowOperation::UpdateSetBegin { table, cells } => RowModel::UpdateSetBegin { table, cells: cells.deep_view() },
            RowOperation::InlineSchema { table_id, schema_version, arrow_schema } => RowModel::InlineSchema { table_id, schema_version, arrow_schema: arrow_schema.deep_view() },
            RowOperation::InlineInsert { table_id, schema_version, begin_snapshot, row_id_start, row_count, arrow_body } => RowModel::InlineInsert { table_id, schema_version, begin_snapshot, row_id_start, row_count, arrow_body: arrow_body.deep_view() },
            RowOperation::InlineInlineDelete { table_id, row_id, end_snapshot } => RowModel::InlineInlineDelete { table_id, row_id, end_snapshot },
            RowOperation::InlineFileDelete { table_id, data_file_id, row_id, begin_snapshot } => RowModel::InlineFileDelete { table_id, data_file_id, row_id, begin_snapshot },
            RowOperation::InlineFlushDelete { table_id, schema_version, flush_snapshot } => RowModel::InlineFlushDelete { table_id, schema_version, flush_snapshot },
            RowOperation::InlineDrop { table_id } => RowModel::InlineDrop { table_id },
            RowOperation::InlineSchemaDrop { table_id, schema_version } => RowModel::InlineSchemaDrop { table_id, schema_version },
            RowOperation::InlineFileDeleteRemove { table_id, data_file_id, row_id } => RowModel::InlineFileDeleteRemove { table_id, data_file_id, row_id },
        }
    }
}

/// Whether an operation is about inlined rows.
pub open spec fn inline_op(op: RowModel) -> bool {
    !(op is Insert || op is Delete || op is UpdateSetEnd || op is UpdateSetBegin)
}

/// Whether an operation is about inlined rows, which no snapshot holds.
pub fn is_inline_op(op: &RowOperation) -> (b: bool)
    ensures
        b == inline_op(op.deep_view()),
{
    match op {
        RowOperation::Insert { .. }
        | RowOperation::Delete { .. }
        | RowOperation::UpdateSetEnd { .. }
        | RowOperation::UpdateSetBegin { .. } => false,
        _ => true,
    }
}

/// A staged row that does not fit its table.
pub open spec fn corrupt(table: TableKind, detail: Seq<char>) -> Fault {
    Fault::Corruption("staged row for "@ + kind_name(table) + ": "@ + detail)
}

pub fn corrupt_row(table: TableKind, detail: &str) -> (e: Error)
    ensures
        e@ == corrupt(table, detail@),
{
    let mut t = text_wrapped("staged row for ", kind_text(table), ": ");
    crate::text::push_text(&mut t, detail);
    assert(t@ =~= "staged row for "@ + kind_name(table) + ": "@ + detail@);
    Error::Corruption(t)
}

/// What a cell must hold.
#[derive(Debug, Clone, Copy, PartialEq, Eq, Structural)]
pub enum Want {
    Number,
    Signed,
    Flag,
    Text,
    NumberOrNull,
    FlagOrNull,
    TextOrNull,
}

/// What a cell must hold, in words.
pub open spec fn want_name(want: Want) -> Seq<char> {
    match want {
        Want::Number => "an unsigned integer"@,
        Want::Signed => "a signed integer"@,
        Want::Flag => "a boolean"@,
        Want::Text => "a text"@,
        Want::NumberOrNull => "an unsigned integer or NULL"@,
        Want::FlagOrNull => "a boolean or NULL"@,
        Want::TextOrNull => "a text or NULL"@,
    }
}

fn want_text(want: Want) -> (t: &'static str)
    ensures
        t@ == want_name(want),
{
    match want {
        Want::Number => "an unsigned integer",
        Want::Signed => "a signed integer",
        Want::Flag => "a boolean",
        Want::Text => "a text",
        Want::NumberOrNull => "an unsigned integer or NULL",
        Want::FlagOrNull => "a boolean or NULL",
        Want::TextOrNull => "a text or NULL",
    }
}

/// Whether a cell holds what it must.
pub open spec fn meets(cell: CellModel, want: Want) -> bool {
    match want {
        Want::Number => cell is U64,
        Want::Signed => cell is I64,
        Want::Flag => cell is Bool,
        Want::Text => cell is Str,
        Want::NumberOrNull => cell is U64 || cell is Null,
        Want::FlagOrNull => cell is Bool || cell is Null,
        Want::TextOrNull => cell is Str || cell is Null,
    }
}

fn cell_meets(cell: &Cell, want: Want) -> (b: bool)
    ensures
        b == meets(cell.deep_view(), want),
{
    match (want, cell) {
        (Want::Number, Cell::U64(_))
        | (Want::Signed, Cell::I64(_))
        | (Want::Flag, Cell::Bool(_))
        | (Want::Text, Cell::Str(_))
        | (Want::NumberOrNull, Cell::U64(_))
        | (Want::NumberOrNull, Cell::Null)
        | (Want::FlagOrNull, Cell::Bool(_))
        | (Want::FlagOrNull, Cell::Null)
        | (Want::TextOrNull, Cell::Str(_))
        | (Want::TextOrNull, Cell::Null) => true,
        _ => false,
    }
}

/// Why the leading cells of a row are refused: the first cell that is missing
/// or of the wrong kind.
pub open spec fn leading_refusal(table: TableKind, shape: Seq<Want>, cells: Seq<CellModel>) -> Option<
    Fault,
>
    decreases shape.len(),
{
    if shape.len() == 0 {
        None
    } else {
        let n = shape.len() - 1;
        match leading_refusal(table, shape.drop_last(), cells) {
            Some(f) => Some(f),
            None => if n >= cells.len() {
                Some(corrupt(table, around("the row ends before cell "@, n as u64, ""@)))
            } else if !meets(cells[n], shape.last()) {
                Some(corrupt(table, around("cell "@, n as u64, " is not "@) + want_name(shape.last())))
            } else {
                None
            },
        }
    }
}

/// Why a row is refused: its leading cells, or the cells that come after.
pub open spec fn row_refusal(table: TableKind, shape: Seq<Want>, cells: Seq<CellModel>) -> Option<Fault> {
    match leading_refusal(table, shape, cells) {
        Some(f) => Some(f),
        None => if cells.len() > shape.len() {
            Some(
                corrupt(
                    table,
                    around_two(
                        "the row has "@,
                        cells.len() as u64,
                        " cells, expected "@,
                        shape.len() as u64,
                        ""@,
                    ),
                ),
            )
        } else {
            None
        },
    }
}

/// A refusal of the leading cells stays when more are asked for.
proof fn leading_refusal_stays(table: TableKind, shape: Seq<Want>, cells: Seq<CellModel>, n: int)
    requires
        0 <= n <= shape.len(),
        leading_refusal(table, shape.take(n), cells) is Some,
    ensures
        leading_refusal(table, shape, cells) == leading_refusal(table, shape.take(n), cells),
    decreases shape.len(),
{
    if n == shape.len() {
        assert(shape.take(n) =~= shape);
    } else {
        assert(shape.drop_last().take(n) =~= shape.take(n));
        leading_refusal_stays(table, shape.drop_last(), cells, n);
    }
}

/// Cells that are not refused hold what they must.
pub proof fn leading_cells_fit(table: TableKind, shape: Seq<Want>, cells: Seq<CellModel>)
    requires
        leading_refusal(table, shape, cells) is None,
    ensures
        shape.len() <= cells.len(),
        forall|i: int| 0 <= i < shape.len() ==> meets(#[trigger] cells[i], shape[i]),
    decreases shape.len(),
{
    if shape.len() > 0 {
        leading_cells_fit(table, shape.drop_last(), cells);
        assert forall|i: int| 0 <= i < shape.len() implies meets(#[trigger] cells[i], shape[i]) by {
            if i < shape.len() - 1 {
                assert(shape.drop_last()[i] == shape[i]);
            }
        }
    }
}

/// Checks the leading cells of a row.
pub fn check_leading(table: TableKind, shape: &Vec<Want>, cells: &Vec<Cell>) -> (r: Result<(), Error>)
    ensures
        match leading_refusal(table, shape@, cells.deep_view()) {
            Some(f) => refused(r, f),
            None => r is Ok && shape@.len() <= cells@.len(),
        },
{
    let ghost s = shape@;
    let ghost c = cells.deep_view();
    let mut i: usize = 0;
    assert(s.take(0) =~= Seq::<Want>::empty());
    while i < shape.len()
        invariant
            i <= s.len(),
            i <= cells@.len(),
            s == shape@,
            c == cells.deep_view(),
            leading_refusal(table, s.take(i as int), c) is None,
        decreases shape.len() - i,
    {
        let ghost next = s.take(i + 1);
        assert(next.drop_last() =~= s.take(i as int));
        assert(next.last() == s[i as int]);
        if i >= cells.len() {
            proof {
                leading_refusal_stays(table, s, c, i + 1);
            }
            return Err(corrupt_row(table, &text_around("the row ends before cell ", i as u64, "")));
        }
        assert(c[i as int] == cells@[i as int].deep_view());
        if !cell_meets(&cells[i], shape[i]) {
            proof {
                leading_refusal_stays(table, s, c, i + 1);
            }
            let mut detail = text_around("cell ", i as u64, " is not ");
            crate::text::push_text(&mut detail, want_text(shape[i]));
            return Err(corrupt_row(table, &detail));
        }
        i = i + 1;
    }
    assert(s.take(s.len() as int) =~= s);
    Ok(())
}

/// Checks a whole row.
pub fn check_row(table: TableKind, shape: &Vec<Want>, cells: &Vec<Cell>) -> (r: Result<(), Error>)
    ensures
        match row_refusal(table, shape@, cells.deep_view()) {
            Some(f) => refused(r, f),
            None => r is Ok && shape@.len() == cells@.len(),
        },
{
    match check_leading(table, shape, cells) {
        Err(e) => return Err(e),
        Ok(()) => {},
    }
    if cells.len() > shape.len() {
        return Err(
            corrupt_row(
                table,
                &text_around_two(
                    "the row has ",
                    cells.len() as u64,
                    " cells, expected ",
                    shape.len() as u64,
                    "",
                ),
            ),
        );
    }
    Ok(())
}

/// The number in a cell, zero where there is none.
pub open spec fn number(cell: CellModel) -> u64 {
    match cell {
        CellModel::U64(n) => n,
        _ => 0,
    }
}

pub fn number_of(cell: &Cell) -> (n: u64)
    ensures
        n == number(cell.deep_view()),
{
    match cell {
        Cell::U64(n) => *n,
        _ => 0,
    }
}

/// The signed number in a cell, zero where there is none.
pub open spec fn signed(cell: CellModel) -> i64 {
    match cell {
        CellModel::I64(n) => n,
        _ => 0,
    }
}

pub fn signed_of(cell: &Cell) -> (n: i64)
    ensures
        n == signed(cell.deep_view()),
{
    match cell {
        Cell::I64(n) => *n,
        _ => 0,
    }
}

/// The boolean in a cell, false where there is none.
pub open spec fn flag(cell: CellModel) -> bool {
    match cell {
        CellModel::Bool(b) => b,
        _ => false,
    }
}

pub fn flag_of(cell: &Cell) -> (b: bool)
    ensures
        b == flag(cell.deep_view()),
{
    match cell {
        Cell::Bool(b) => *b,
        _ => false,
    }
}

/// The text in a cell, empty where there is none.
pub open spec fn text(cell: CellModel) -> Seq<char> {
    match cell {
        CellModel::Str(s) => s,
        _ => Seq::empty(),
    }
}

pub fn text_of(cell: &Cell) -> (t: String)
    ensures
        t@ == text(cell.deep_view()),
{
    match cell {
        Cell::Str(s) => s.dup(),
        _ => {
            let t = String::new();
            assert(t@ =~= Seq::<char>::empty());
            t
        },
    }
}

/// The number in a cell, if any.
pub open spec fn number_if(cell: CellModel) -> Option<u64> {
    match cell {
        CellModel::U64(n) => Some(n),
        _ => None,
    }
}

pub fn number_if_any(cell: &Cell) -> (n: Option<u64>)
    ensures
        n == number_if(cell.deep_view()),
{
    match cell {
        Cell::U64(n) => Some(*n),
        _ => None,
    }
}

/// The boolean in a cell, if any.
pub open spec fn flag_if(cell: CellModel) -> Option<bool> {
    match cell {
        CellModel::Bool(b) => Some(b),
        _ => None,
    }
}

pub fn flag_if_any(cell: &Cell) -> (b: Option<bool>)
    ensures
        b == flag_if(cell.deep_view()),
{
    match cell {
        Cell::Bool(b) => Some(*b),
        _ => None,
    }
}

/// The text in a cell, if any.
pub open spec fn text_if(cell: CellModel) -> Option<Seq<char>> {
    match cell {
        CellModel::Str(s) => Some(s),
        _ => None,
    }
}

pub fn text_if_any(cell: &Cell) -> (t: Option<String>)
    ensures
        t.deep_view() == text_if(cell.deep_view()),
{
    match cell {
        Cell::Str(s) => Some(s.dup()),
        _ => None,
    }
}

/// Every kind has the number that rows are sent under, and no other number is a
/// kind's.
pub proof fn kinds_are_numbered(n: i32)
    ensures
        kind_numbered(n) == (match n {
            0i32 => Some(TableKind::Snapshot),
            1i32 => Some(TableKind::SnapshotChanges),
            2i32 => Some(TableKind::Schema),
            3i32 => Some(TableKind::Table),
            4i32 => Some(TableKind::View),
            5i32 => Some(TableKind::Column),
            6i32 => Some(TableKind::DataFile),
            7i32 => Some(TableKind::DeleteFile),
            8i32 => Some(TableKind::TableStats),
            9i32 => Some(TableKind::TableColumnStats),
            10i32 => Some(TableKind::FileColumnStats),
            11i32 => Some(TableKind::SchemaVersions),
            12i32 => Some(TableKind::PartitionInfo),
            13i32 => Some(TableKind::PartitionColumn),
            14i32 => Some(TableKind::FilePartitionValue),
            15i32 => Some(TableKind::SortInfo),
            16i32 => Some(TableKind::SortExpression),
            17i32 => Some(TableKind::Tag),
            18i32 => Some(TableKind::ColumnTag),
            19i32 => Some(TableKind::FilesScheduledForDeletion),
            20i32 => Some(TableKind::Macro),
            21i32 => Some(TableKind::MacroImpl),
            22i32 => Some(TableKind::MacroParameters),
            23i32 => Some(TableKind::ColumnMapping),
            24i32 => Some(TableKind::NameMapping),
            _ => None,
        }),
{
}

} // verus!
