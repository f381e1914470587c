//! What staged rows do to a catalog: a row that is inserted reads back as the
//! record that it spells out, a row that ends a version takes it away, and a row
//! that deletes takes away what it names.
use crate::apply::{implementations_refusal, names_refusal, parameters_numbered};
use crate::catalog::CatalogModel;
use crate::children::{
    children_come_in_order, children_of, group, placing_keeps_order, ChildModel,
};
use crate::decode::{columns_in, insert_refusal, key_shape};
use crate::deletes::is_tag;
use crate::ends::first_live;
use crate::error::Fault;
use crate::keys::{CurrentKey, EntityKey, HistoryKey, KeyModel, StoredModel};
use crate::records::{
    ColumnModel, DataFileModel, DeleteFileModel, FileColumnStatsModel, FilePartitionValue,
    FilePartitionValueModel, GcFileModel, MacroImplementation, MacroImplementationModel, MacroModel,
    MacroParameter, MacroParameterModel, MappingModel, NameMapping, NameMappingModel,
    PartitionColumn, PartitionColumnModel, PartitionModel, SchemaModel, SnapshotModel,
    SortExpression, SortExpressionModel, SortModel, TableColumnStatsModel, TableModel,
    TableStatsModel, TagEntryModel, TagModel, ViewModel,
};
use crate::rows::{
    leading_cells_fit, leading_refusal, meets, number, row_refusal, CellModel, RowModel, TableKind,
    Want,
};
use crate::staged::{
    applied, in_round, last_insert, reshaped_tables, snapshot_of, versions_refusal, Round, WorkModel,
};
use vstd::prelude::*;

verus! {

// ---------------------------------------------------------------------------
// Rows
// ---------------------------------------------------------------------------

/// The cell of a number, or NULL.
pub open spec fn number_cell(n: Option<u64>) -> CellModel {
    match n {
        Some(n) => CellModel::U64(n),
        None => CellModel::Null,
    }
}

/// The cell of a text, or NULL.
pub open spec fn text_cell(t: Option<Seq<char>>) -> CellModel {
    match t {
        Some(t) => CellModel::Str(t),
        None => CellModel::Null,
    }
}

/// The cell of a boolean, or NULL.
pub open spec fn flag_cell(b: Option<bool>) -> CellModel {
    match b {
        Some(b) => CellModel::Bool(b),
        None => CellModel::Null,
    }
}

/// Cells that hold what they must, and no more of them, are accepted.
proof fn fitting_cells_are_accepted(table: TableKind, shape: Seq<Want>, cells: Seq<CellModel>)
    requires
        cells.len() == shape.len(),
        forall|i: int| 0 <= i < shape.len() ==> meets(#[trigger] cells[i], shape[i]),
    ensures
        row_refusal(table, shape, cells) is None,
{
    leading_fit(table, shape, cells);
}

proof fn leading_fit(table: TableKind, shape: Seq<Want>, cells: Seq<CellModel>)
    requires
        shape.len() <= cells.len(),
        forall|i: int| 0 <= i < shape.len() ==> meets(#[trigger] cells[i], shape[i]),
    ensures
        leading_refusal(table, shape, cells) is None,
    decreases shape.len(),
{
    if shape.len() > 0 {
        let front = shape.drop_last();
        assert forall|i: int| 0 <= i < front.len() implies meets(#[trigger] cells[i], front[i]) by {
            assert(front[i] == shape[i]);
        }
        leading_fit(table, front, cells);
        assert(meets(cells[shape.len() - 1], shape[shape.len() - 1]));
    }
}

/// The row of a schema.
pub open spec fn schema_cells(v: SchemaModel) -> Seq<CellModel> {
    seq![
        CellModel::U64(v.schema_id),
        CellModel::Str(v.schema_uuid),
        CellModel::U64(v.begin_snapshot),
        number_cell(v.end_snapshot),
        CellModel::Str(v.schema_name),
        CellModel::Str(v.path),
        CellModel::Bool(v.path_is_relative),
    ]
}

proof fn schema_cells_fit(v: SchemaModel)
    ensures
        row_refusal(TableKind::Schema, columns_in(TableKind::Schema), schema_cells(v)) is None,
{
    fitting_cells_are_accepted(TableKind::Schema, columns_in(TableKind::Schema), schema_cells(v));
}

/// The row of a table.
pub open spec fn table_cells(v: TableModel) -> Seq<CellModel> {
    seq![
        CellModel::U64(v.table_id),
        CellModel::Str(v.table_uuid),
        CellModel::U64(v.begin_snapshot),
        number_cell(v.end_snapshot),
        CellModel::U64(v.schema_id),
        CellModel::Str(v.table_name),
        CellModel::Str(v.path),
        CellModel::Bool(v.path_is_relative),
    ]
}

proof fn table_cells_fit(v: TableModel)
    ensures
        row_refusal(TableKind::Table, columns_in(TableKind::Table), table_cells(v)) is None,
{
    fitting_cells_are_accepted(TableKind::Table, columns_in(TableKind::Table), table_cells(v));
}

/// The row of a view.
pub open spec fn view_cells(v: ViewModel) -> Seq<CellModel> {
    seq![
        CellModel::U64(v.view_id),
        CellModel::Str(v.view_uuid),
        CellModel::U64(v.begin_snapshot),
        number_cell(v.end_snapshot),
        CellModel::U64(v.schema_id),
        CellModel::Str(v.view_name),
        CellModel::Str(v.dialect),
        CellModel::Str(v.sql),
        text_cell(v.column_aliases),
    ]
}

proof fn view_cells_fit(v: ViewModel)
    ensures
        row_refusal(TableKind::View, columns_in(TableKind::View), view_cells(v)) is None,
{
    fitting_cells_are_accepted(TableKind::View, columns_in(TableKind::View), view_cells(v));
}

/// The row of a column.
pub open spec fn column_cells(v: ColumnModel) -> Seq<CellModel> {
    seq![
        CellModel::U64(v.column_id),
        CellModel::U64(v.begin_snapshot),
        number_cell(v.end_snapshot),
        CellModel::U64(v.table_id),
        CellModel::U64(v.column_order),
        CellModel::Str(v.column_name),
        CellModel::Str(v.column_type),
        text_cell(v.initial_default),
        text_cell(v.default_value),
        CellModel::Bool(v.nulls_allowed),
        number_cell(v.parent_column),
        text_cell(v.default_value_type),
        text_cell(v.default_value_dialect),
    ]
}

proof fn column_cells_fit(v: ColumnModel)
    ensures
        row_refusal(TableKind::Column, columns_in(TableKind::Column), column_cells(v)) is None,
{
    fitting_cells_are_accepted(TableKind::Column, columns_in(TableKind::Column), column_cells(v));
}

/// The row of a data file.
pub open spec fn data_file_cells(v: DataFileModel) -> Seq<CellModel> {
    seq![
        CellModel::U64(v.data_file_id),
        CellModel::U64(v.table_id),
        CellModel::U64(v.begin_snapshot),
        number_cell(v.end_snapshot),
        number_cell(v.file_order),
        CellModel::Str(v.path),
        CellModel::Bool(v.path_is_relative),
        CellModel::Str(v.file_format),
        CellModel::U64(v.record_count),
        CellModel::U64(v.file_size_bytes),
        CellModel::U64(v.footer_size),
        number_cell(v.row_id_start),
        number_cell(v.partition_id),
        text_cell(v.encryption_key),
        number_cell(v.mapping_id),
        number_cell(v.partial_max),
    ]
}

/// The row of a data file is accepted.
pub proof fn data_file_cells_fit(v: DataFileModel)
    ensures
        row_refusal(TableKind::DataFile, columns_in(TableKind::DataFile), data_file_cells(v)) is None,
{
    fitting_cells_are_accepted(TableKind::DataFile, columns_in(TableKind::DataFile), data_file_cells(v));
}

/// The row of a delete file.
pub open spec fn delete_file_cells(v: DeleteFileModel) -> Seq<CellModel> {
    seq![
        CellModel::U64(v.delete_file_id),
        CellModel::U64(v.table_id),
        CellModel::U64(v.begin_snapshot),
        number_cell(v.end_snapshot),
        CellModel::U64(v.data_file_id),
        CellModel::Str(v.path),
        CellModel::Bool(v.path_is_relative),
        CellModel::Str(v.format),
        CellModel::U64(v.delete_count),
        CellModel::U64(v.file_size_bytes),
        CellModel::U64(v.footer_size),
        text_cell(v.encryption_key),
        number_cell(v.partial_max),
    ]
}

/// The row of a delete file is accepted.
pub proof fn delete_file_cells_fit(v: DeleteFileModel)
    ensures
        row_refusal(TableKind::DeleteFile, columns_in(TableKind::DeleteFile), delete_file_cells(v)) is None,
{
    fitting_cells_are_accepted(TableKind::DeleteFile, columns_in(TableKind::DeleteFile), delete_file_cells(v));
}

/// The row of a table's statistics.
pub open spec fn table_stats_cells(v: TableStatsModel) -> Seq<CellModel> {
    seq![
        CellModel::U64(v.table_id),
        CellModel::U64(v.record_count),
        CellModel::U64(v.next_row_id),
        CellModel::U64(v.file_size_bytes),
    ]
}

proof fn table_stats_cells_fit(v: TableStatsModel)
    ensures
        row_refusal(TableKind::TableStats, columns_in(TableKind::TableStats), table_stats_cells(v)) is None,
{
    fitting_cells_are_accepted(TableKind::TableStats, columns_in(TableKind::TableStats), table_stats_cells(v));
}

/// The row of a column's statistics over its table.
pub open spec fn table_column_stats_cells(v: TableColumnStatsModel) -> Seq<CellModel> {
    seq![
        CellModel::U64(v.table_id),
        CellModel::U64(v.column_id),
        flag_cell(v.contains_null),
        flag_cell(v.contains_nan),
        text_cell(v.min_value),
        text_cell(v.max_value),
        text_cell(v.extra_stats),
    ]
}

proof fn table_column_stats_cells_fit(v: TableColumnStatsModel)
    ensures
        row_refusal(TableKind::TableColumnStats, columns_in(TableKind::TableColumnStats), table_column_stats_cells(v)) is None,
{
    fitting_cells_are_accepted(TableKind::TableColumnStats, columns_in(TableKind::TableColumnStats), table_column_stats_cells(v));
}

/// The row of a column's statistics over a data file.
pub open spec fn file_column_stats_cells(v: FileColumnStatsModel) -> Seq<CellModel> {
    seq![
        CellModel::U64(v.data_file_id),
        CellModel::U64(v.table_id),
        CellModel::U64(v.column_id),
        CellModel::U64(v.column_size_bytes),
        CellModel::U64(v.value_count),
        CellModel::U64(v.null_count),
        text_cell(v.min_value),
        text_cell(v.max_value),
        flag_cell(v.contains_nan),
        text_cell(v.extra_stats),
    ]
}

proof fn file_column_stats_cells_fit(v: FileColumnStatsModel)
    ensures
        row_refusal(TableKind::FileColumnStats, columns_in(TableKind::FileColumnStats), file_column_stats_cells(v)) is None,
{
    fitting_cells_are_accepted(TableKind::FileColumnStats, columns_in(TableKind::FileColumnStats), file_column_stats_cells(v));
}

/// The row of a partition spec.
pub open spec fn partition_cells(v: PartitionModel) -> Seq<CellModel> {
    seq![
        CellModel::U64(v.partition_id),
        CellModel::U64(v.table_id),
        CellModel::U64(v.begin_snapshot),
        number_cell(v.end_snapshot),
    ]
}

proof fn partition_cells_fit(v: PartitionModel)
    ensures
        row_refusal(TableKind::PartitionInfo, columns_in(TableKind::PartitionInfo), partition_cells(v)) is None,
{
    fitting_cells_are_accepted(TableKind::PartitionInfo, columns_in(TableKind::PartitionInfo), partition_cells(v));
}

/// The row of a sort spec.
pub open spec fn sort_cells(v: SortModel) -> Seq<CellModel> {
    seq![
        CellModel::U64(v.sort_id),
        CellModel::U64(v.table_id),
        CellModel::U64(v.begin_snapshot),
        number_cell(v.end_snapshot),
    ]
}

proof fn sort_cells_fit(v: SortModel)
    ensures
        row_refusal(TableKind::SortInfo, columns_in(TableKind::SortInfo), sort_cells(v)) is None,
{
    fitting_cells_are_accepted(TableKind::SortInfo, columns_in(TableKind::SortInfo), sort_cells(v));
}

/// The row of a macro.
pub open spec fn macro_cells(v: MacroModel) -> Seq<CellModel> {
    seq![
        CellModel::U64(v.schema_id),
        CellModel::U64(v.macro_id),
        CellModel::Str(v.macro_name),
        CellModel::U64(v.begin_snapshot),
        number_cell(v.end_snapshot),
    ]
}

proof fn macro_cells_fit(v: MacroModel)
    ensures
        row_refusal(TableKind::Macro, columns_in(TableKind::Macro), macro_cells(v)) is None,
{
    fitting_cells_are_accepted(TableKind::Macro, columns_in(TableKind::Macro), macro_cells(v));
}

/// The row of a column mapping.
pub open spec fn mapping_cells(v: MappingModel) -> Seq<CellModel> {
    seq![
        CellModel::U64(v.mapping_id),
        CellModel::U64(v.table_id),
        CellModel::Str(v.mapping_type),
    ]
}

proof fn mapping_cells_fit(v: MappingModel)
    ensures
        row_refusal(TableKind::ColumnMapping, columns_in(TableKind::ColumnMapping), mapping_cells(v)) is None,
{
    fitting_cells_are_accepted(TableKind::ColumnMapping, columns_in(TableKind::ColumnMapping), mapping_cells(v));
}

/// The row of a scheduled deletion.
pub open spec fn gc_file_cells(v: GcFileModel) -> Seq<CellModel> {
    seq![
        CellModel::U64(v.data_file_id),
        CellModel::Str(v.path),
        CellModel::Bool(v.path_is_relative),
        CellModel::I64(v.schedule_start_micros),
    ]
}

proof fn gc_file_cells_fit(v: GcFileModel)
    ensures
        row_refusal(TableKind::FilesScheduledForDeletion, columns_in(TableKind::FilesScheduledForDeletion), gc_file_cells(v)) is None,
{
    fitting_cells_are_accepted(TableKind::FilesScheduledForDeletion, columns_in(TableKind::FilesScheduledForDeletion), gc_file_cells(v));
}

// ---------------------------------------------------------------------------
// Inserts
// ---------------------------------------------------------------------------

/// The row of a schema puts that schema into the catalog.
pub proof fn schema_rows_read_back(base: CatalogModel, w: WorkModel, v: SchemaModel, new_id: u64)
    ensures
        applied(
            base,
            w,
            RowModel::Insert { table: TableKind::Schema, cells: schema_cells(v) },
            new_id,
        ) == Ok::<WorkModel, Fault>(
            WorkModel {
                state: CatalogModel { schemas: w.state.schemas.insert(v.schema_id, v), ..w.state },
                children: w.children,
                direct: w.direct,
            },
        ),
{
    schema_cells_fit(v);
    let got = applied(
        base,
        w,
        RowModel::Insert { table: TableKind::Schema, cells: schema_cells(v) },
        new_id,
    );
    assert(got is Ok);
    assert(got->Ok_0.state =~= (CatalogModel { schemas: w.state.schemas.insert(v.schema_id, v), ..w.state }));
}

/// The row of a view puts that view into the catalog.
pub proof fn view_rows_read_back(base: CatalogModel, w: WorkModel, v: ViewModel, new_id: u64)
    ensures
        applied(
            base,
            w,
            RowModel::Insert { table: TableKind::View, cells: view_cells(v) },
            new_id,
        ) == Ok::<WorkModel, Fault>(
            WorkModel {
                state: CatalogModel { views: w.state.views.insert(v.view_id, v), ..w.state },
                children: w.children,
                direct: w.direct,
            },
        ),
{
    view_cells_fit(v);
    let got = applied(
        base,
        w,
        RowModel::Insert { table: TableKind::View, cells: view_cells(v) },
        new_id,
    );
    assert(got is Ok);
    assert(got->Ok_0.state =~= (CatalogModel { views: w.state.views.insert(v.view_id, v), ..w.state }));
}

/// The row of a table puts that table into the catalog. Rows carry no counter of
/// column ids: it is that of the version before, or zero.
pub proof fn table_rows_read_back(base: CatalogModel, w: WorkModel, v: TableModel, new_id: u64)
    ensures
        applied(
            base,
            w,
            RowModel::Insert { table: TableKind::Table, cells: table_cells(v) },
            new_id,
        ) == Ok::<WorkModel, Fault>(
            WorkModel {
                state: CatalogModel { tables: w.state.tables.insert(
                    v.table_id,
                    TableModel {
                        next_column_id: if base.tables.contains_key(v.table_id) {
                            base.tables[v.table_id].next_column_id
                        } else {
                            0
                        },
                        ..v
                    },
                ), ..w.state },
                children: w.children,
                direct: w.direct,
            },
        ),
{
    table_cells_fit(v);
    let got = applied(
        base,
        w,
        RowModel::Insert { table: TableKind::Table, cells: table_cells(v) },
        new_id,
    );
    assert(got is Ok);
    assert(got->Ok_0.state =~= (CatalogModel { tables: w.state.tables.insert(
                    v.table_id,
                    TableModel {
                        next_column_id: if base.tables.contains_key(v.table_id) {
                            base.tables[v.table_id].next_column_id
                        } else {
                            0
                        },
                        ..v
                    },
                ), ..w.state }));
}

/// The row of a column puts that column into the catalog. Rows carry no tags: they
/// are those of the version before.
pub proof fn column_rows_read_back(base: CatalogModel, w: WorkModel, v: ColumnModel, new_id: u64)
    ensures
        applied(
            base,
            w,
            RowModel::Insert { table: TableKind::Column, cells: column_cells(v) },
            new_id,
        ) == Ok::<WorkModel, Fault>(
            WorkModel {
                state: CatalogModel { columns: w.state.columns.insert(
                    (v.table_id, v.column_id),
                    ColumnModel {
                        tags: if base.columns.contains_key((v.table_id, v.column_id)) {
                            base.columns[(v.table_id, v.column_id)].tags
                        } else {
                            Seq::empty()
                        },
                        ..v
                    },
                ), ..w.state },
                children: w.children,
                direct: w.direct,
            },
        ),
{
    column_cells_fit(v);
    let got = applied(
        base,
        w,
        RowModel::Insert { table: TableKind::Column, cells: column_cells(v) },
        new_id,
    );
    assert(got is Ok);
    assert(got->Ok_0.state =~= (CatalogModel { columns: w.state.columns.insert(
                    (v.table_id, v.column_id),
                    ColumnModel {
                        tags: if base.columns.contains_key((v.table_id, v.column_id)) {
                            base.columns[(v.table_id, v.column_id)].tags
                        } else {
                            Seq::empty()
                        },
                        ..v
                    },
                ), ..w.state }));
}

/// The row of a data file puts that file into the catalog, with the partition
/// values that the commit stages for it, which no other row takes.
pub proof fn data_file_rows_read_back(base: CatalogModel, w: WorkModel, v: DataFileModel, new_id: u64)
    ensures
        applied(
            base,
            w,
            RowModel::Insert { table: TableKind::DataFile, cells: data_file_cells(v) },
            new_id,
        ) == Ok::<WorkModel, Fault>(
            WorkModel {
                state: CatalogModel { data_files: w.state.data_files.insert(
                    (v.table_id, v.data_file_id),
                    DataFileModel {
                        partition_values: if w.children.file_partition_values.contains_key((v.table_id, v.data_file_id)) {
                            w.children.file_partition_values[(v.table_id, v.data_file_id)]
                        } else {
                            Seq::empty()
                        },
                        ..v
                    },
                ), ..w.state },
                children: ChildModel {
                    file_partition_values: w.children.file_partition_values.remove(
                        (v.table_id, v.data_file_id),
                    ),
                    ..w.children
                },
                direct: w.direct,
            },
        ),
{
    data_file_cells_fit(v);
    let got = applied(
        base,
        w,
        RowModel::Insert { table: TableKind::DataFile, cells: data_file_cells(v) },
        new_id,
    );
    assert(got is Ok);
    assert(got->Ok_0.state =~= (CatalogModel { data_files: w.state.data_files.insert(
                    (v.table_id, v.data_file_id),
                    DataFileModel {
                        partition_values: if w.children.file_partition_values.contains_key((v.table_id, v.data_file_id)) {
                            w.children.file_partition_values[(v.table_id, v.data_file_id)]
                        } else {
                            Seq::empty()
                        },
                        ..v
                    },
                ), ..w.state }));
}

/// The row of a delete file puts that file into the catalog.
pub proof fn delete_file_rows_read_back(base: CatalogModel, w: WorkModel, v: DeleteFileModel, new_id: u64)
    ensures
        applied(
            base,
            w,
            RowModel::Insert { table: TableKind::DeleteFile, cells: delete_file_cells(v) },
            new_id,
        ) == Ok::<WorkModel, Fault>(
            WorkModel {
                state: CatalogModel { delete_files: w.state.delete_files.insert((v.table_id, v.delete_file_id), v), ..w.state },
                children: w.children,
                direct: w.direct,
            },
        ),
{
    delete_file_cells_fit(v);
    let got = applied(
        base,
        w,
        RowModel::Insert { table: TableKind::DeleteFile, cells: delete_file_cells(v) },
        new_id,
    );
    assert(got is Ok);
    assert(got->Ok_0.state =~= (CatalogModel { delete_files: w.state.delete_files.insert((v.table_id, v.delete_file_id), v), ..w.state }));
}

/// The row of a table's statistics puts them into the catalog.
pub proof fn table_stats_rows_read_back(base: CatalogModel, w: WorkModel, v: TableStatsModel, new_id: u64)
    ensures
        applied(
            base,
            w,
            RowModel::Insert { table: TableKind::TableStats, cells: table_stats_cells(v) },
            new_id,
        ) == Ok::<WorkModel, Fault>(
            WorkModel {
                state: CatalogModel { table_stats: w.state.table_stats.insert(v.table_id, v), ..w.state },
                children: w.children,
                direct: w.direct,
            },
        ),
{
    table_stats_cells_fit(v);
    let got = applied(
        base,
        w,
        RowModel::Insert { table: TableKind::TableStats, cells: table_stats_cells(v) },
        new_id,
    );
    assert(got is Ok);
    assert(got->Ok_0.state =~= (CatalogModel { table_stats: w.state.table_stats.insert(v.table_id, v), ..w.state }));
}

/// The row of a column's statistics puts them into the catalog.
pub proof fn table_column_stats_rows_read_back(base: CatalogModel, w: WorkModel, v: TableColumnStatsModel, new_id: u64)
    ensures
        applied(
            base,
            w,
            RowModel::Insert { table: TableKind::TableColumnStats, cells: table_column_stats_cells(v) },
            new_id,
        ) == Ok::<WorkModel, Fault>(
            WorkModel {
                state: CatalogModel { table_column_stats: w.state.table_column_stats.insert((v.table_id, v.column_id), v), ..w.state },
                children: w.children,
                direct: w.direct,
            },
        ),
{
    table_column_stats_cells_fit(v);
    let got = applied(
        base,
        w,
        RowModel::Insert { table: TableKind::TableColumnStats, cells: table_column_stats_cells(v) },
        new_id,
    );
    assert(got is Ok);
    assert(got->Ok_0.state =~= (CatalogModel { table_column_stats: w.state.table_column_stats.insert((v.table_id, v.column_id), v), ..w.state }));
}

/// The row of a column's statistics over a file puts them into the catalog. Rows
/// carry no statistics of variants.
pub proof fn file_column_stats_rows_read_back(base: CatalogModel, w: WorkModel, v: FileColumnStatsModel, new_id: u64)
    ensures
        applied(
            base,
            w,
            RowModel::Insert { table: TableKind::FileColumnStats, cells: file_column_stats_cells(v) },
            new_id,
        ) == Ok::<WorkModel, Fault>(
            WorkModel {
                state: CatalogModel { file_column_stats: w.state.file_column_stats.insert(
                    (v.table_id, (v.data_file_id, v.column_id)),
                    FileColumnStatsModel { variant_stats: Seq::empty(), ..v },
                ), ..w.state },
                children: w.children,
                direct: w.direct,
            },
        ),
{
    file_column_stats_cells_fit(v);
    let got = applied(
        base,
        w,
        RowModel::Insert { table: TableKind::FileColumnStats, cells: file_column_stats_cells(v) },
        new_id,
    );
    assert(got is Ok);
    assert(got->Ok_0.state =~= (CatalogModel { file_column_stats: w.state.file_column_stats.insert(
                    (v.table_id, (v.data_file_id, v.column_id)),
                    FileColumnStatsModel { variant_stats: Seq::empty(), ..v },
                ), ..w.state }));
}

/// The row of a partition spec puts that spec into the catalog, with the columns
/// that the commit stages for it.
pub proof fn partition_rows_read_back(base: CatalogModel, w: WorkModel, v: PartitionModel, new_id: u64)
    ensures
        applied(
            base,
            w,
            RowModel::Insert { table: TableKind::PartitionInfo, cells: partition_cells(v) },
            new_id,
        ) == Ok::<WorkModel, Fault>(
            WorkModel {
                state: CatalogModel { partitions: w.state.partitions.insert(
                    (v.table_id, v.partition_id),
                    PartitionModel {
                        columns: if w.children.partition_columns.contains_key(v.partition_id) {
                            w.children.partition_columns[v.partition_id]
                        } else {
                            Seq::empty()
                        },
                        ..v
                    },
                ), ..w.state },
                children: ChildModel {
                    partition_columns: w.children.partition_columns.remove(v.partition_id),
                    ..w.children
                },
                direct: w.direct,
            },
        ),
{
    partition_cells_fit(v);
    let got = applied(
        base,
        w,
        RowModel::Insert { table: TableKind::PartitionInfo, cells: partition_cells(v) },
        new_id,
    );
    assert(got is Ok);
    assert(got->Ok_0.state =~= (CatalogModel { partitions: w.state.partitions.insert(
                    (v.table_id, v.partition_id),
                    PartitionModel {
                        columns: if w.children.partition_columns.contains_key(v.partition_id) {
                            w.children.partition_columns[v.partition_id]
                        } else {
                            Seq::empty()
                        },
                        ..v
                    },
                ), ..w.state }));
}

/// The row of a sort spec puts that spec into the catalog, with the expressions
/// that the commit stages for it.
pub proof fn sort_rows_read_back(base: CatalogModel, w: WorkModel, v: SortModel, new_id: u64)
    ensures
        applied(
            base,
            w,
            RowModel::Insert { table: TableKind::SortInfo, cells: sort_cells(v) },
            new_id,
        ) == Ok::<WorkModel, Fault>(
            WorkModel {
                state: CatalogModel { sorts: w.state.sorts.insert(
                    (v.table_id, v.sort_id),
                    SortModel {
                        expressions: if w.children.sort_expressions.contains_key(v.sort_id) {
                            w.children.sort_expressions[v.sort_id]
                        } else {
                            Seq::empty()
                        },
                        ..v
                    },
                ), ..w.state },
                children: ChildModel {
                    sort_expressions: w.children.sort_expressions.remove(v.sort_id),
                    ..w.children
                },
                direct: w.direct,
            },
        ),
{
    sort_cells_fit(v);
    let got = applied(
        base,
        w,
        RowModel::Insert { table: TableKind::SortInfo, cells: sort_cells(v) },
        new_id,
    );
    assert(got is Ok);
    assert(got->Ok_0.state =~= (CatalogModel { sorts: w.state.sorts.insert(
                    (v.table_id, v.sort_id),
                    SortModel {
                        expressions: if w.children.sort_expressions.contains_key(v.sort_id) {
                            w.children.sort_expressions[v.sort_id]
                        } else {
                            Seq::empty()
                        },
                        ..v
                    },
                ), ..w.state }));
}

/// The row of a scheduled deletion puts it into the catalog.
pub proof fn gc_file_rows_read_back(base: CatalogModel, w: WorkModel, v: GcFileModel, new_id: u64)
    ensures
        applied(
            base,
            w,
            RowModel::Insert { table: TableKind::FilesScheduledForDeletion, cells: gc_file_cells(v) },
            new_id,
        ) == Ok::<WorkModel, Fault>(
            WorkModel {
                state: CatalogModel { gc_files: w.state.gc_files.insert(v.data_file_id, v), ..w.state },
                children: w.children,
                direct: w.direct,
            },
        ),
{
    gc_file_cells_fit(v);
    let got = applied(
        base,
        w,
        RowModel::Insert { table: TableKind::FilesScheduledForDeletion, cells: gc_file_cells(v) },
        new_id,
    );
    assert(got is Ok);
    assert(got->Ok_0.state =~= (CatalogModel { gc_files: w.state.gc_files.insert(v.data_file_id, v), ..w.state }));
}

// ---------------------------------------------------------------------------
// Ends
// ---------------------------------------------------------------------------

/// Whether a staged row leaves a state, and nothing else, changed.
pub open spec fn leaves(
    base: CatalogModel,
    w: WorkModel,
    op: RowModel,
    new_id: u64,
    state: CatalogModel,
) -> bool {
    applied(base, w, op, new_id) == Ok::<WorkModel, Fault>(
        WorkModel { state, children: w.children, direct: w.direct },
    )
}

/// A row that ends a schema takes it, and nothing else, out of the catalog. It is
/// accepted if and only if that one is live and the end is the commit's own
/// snapshot.
pub proof fn schema_ends_take_it_away(base: CatalogModel, w: WorkModel, id: u64, end: u64, new_id: u64)
    ensures
        ({
            let op = RowModel::UpdateSetEnd {
                table: TableKind::Schema,
                cells: seq![CellModel::U64(id), CellModel::U64(end)],
            };
            if w.state.schemas.contains_key(id) && end == new_id {
                leaves(
                    base,
                    w,
                    op,
                    new_id,
                    CatalogModel { schemas: w.state.schemas.remove(id), ..w.state },
                )
            } else {
                applied(base, w, op, new_id) is Err
            }
        }),
{
    fitting_cells_are_accepted(
        TableKind::Schema,
        key_shape(TableKind::Schema, Want::Number),
        seq![CellModel::U64(id), CellModel::U64(end)],
    );
}

/// A row that ends a table takes it, and nothing else, out of the catalog. It is
/// accepted if and only if that one is live and the end is the commit's own
/// snapshot.
pub proof fn table_ends_take_it_away(base: CatalogModel, w: WorkModel, id: u64, end: u64, new_id: u64)
    ensures
        ({
            let op = RowModel::UpdateSetEnd {
                table: TableKind::Table,
                cells: seq![CellModel::U64(id), CellModel::U64(end)],
            };
            if w.state.tables.contains_key(id) && end == new_id {
                leaves(
                    base,
                    w,
                    op,
                    new_id,
                    CatalogModel { tables: w.state.tables.remove(id), ..w.state },
                )
            } else {
                applied(base, w, op, new_id) is Err
            }
        }),
{
    fitting_cells_are_accepted(
        TableKind::Table,
        key_shape(TableKind::Table, Want::Number),
        seq![CellModel::U64(id), CellModel::U64(end)],
    );
}

/// A row that ends a view takes it, and nothing else, out of the catalog. It is
/// accepted if and only if that one is live and the end is the commit's own
/// snapshot.
pub proof fn view_ends_take_it_away(base: CatalogModel, w: WorkModel, id: u64, end: u64, new_id: u64)
    ensures
        ({
            let op = RowModel::UpdateSetEnd {
                table: TableKind::View,
                cells: seq![CellModel::U64(id), CellModel::U64(end)],
            };
            if w.state.views.contains_key(id) && end == new_id {
                leaves(
                    base,
                    w,
                    op,
                    new_id,
                    CatalogModel { views: w.state.views.remove(id), ..w.state },
                )
            } else {
                applied(base, w, op, new_id) is Err
            }
        }),
{
    fitting_cells_are_accepted(
        TableKind::View,
        key_shape(TableKind::View, Want::Number),
        seq![CellModel::U64(id), CellModel::U64(end)],
    );
}

/// A row that ends a macro takes it, and nothing else, out of the catalog. It is
/// accepted if and only if that one is live and the end is the commit's own
/// snapshot.
pub proof fn macro_ends_take_it_away(base: CatalogModel, w: WorkModel, id: u64, end: u64, new_id: u64)
    ensures
        ({
            let op = RowModel::UpdateSetEnd {
                table: TableKind::Macro,
                cells: seq![CellModel::U64(id), CellModel::U64(end)],
            };
            if w.state.macros.contains_key(id) && end == new_id {
                leaves(
                    base,
                    w,
                    op,
                    new_id,
                    CatalogModel { macros: w.state.macros.remove(id), ..w.state },
                )
            } else {
                applied(base, w, op, new_id) is Err
            }
        }),
{
    fitting_cells_are_accepted(
        TableKind::Macro,
        key_shape(TableKind::Macro, Want::Number),
        seq![CellModel::U64(id), CellModel::U64(end)],
    );
}

/// A row that ends a column takes it, and nothing else, out of the catalog. It is
/// accepted if and only if that one is live and the end is the commit's own
/// snapshot.
pub proof fn column_ends_take_it_away(
    base: CatalogModel,
    w: WorkModel,
    table_id: u64,
    id: u64,
    end: u64,
    new_id: u64,
)
    ensures
        ({
            let op = RowModel::UpdateSetEnd {
                table: TableKind::Column,
                cells: seq![CellModel::U64(table_id), CellModel::U64(id), CellModel::U64(end)],
            };
            if w.state.columns.contains_key((table_id, id)) && end == new_id {
                leaves(
                    base,
                    w,
                    op,
                    new_id,
                    CatalogModel { columns: w.state.columns.remove((table_id, id)), ..w.state },
                )
            } else {
                applied(base, w, op, new_id) is Err
            }
        }),
{
    fitting_cells_are_accepted(
        TableKind::Column,
        key_shape(TableKind::Column, Want::Number),
        seq![CellModel::U64(table_id), CellModel::U64(id), CellModel::U64(end)],
    );
}

/// A row that ends a data file takes it, and nothing else, out of the catalog. It is
/// accepted if and only if that one is live and the end is the commit's own
/// snapshot.
pub proof fn data_file_ends_take_it_away(
    base: CatalogModel,
    w: WorkModel,
    table_id: u64,
    id: u64,
    end: u64,
    new_id: u64,
)
    ensures
        ({
            let op = RowModel::UpdateSetEnd {
                table: TableKind::DataFile,
                cells: seq![CellModel::U64(table_id), CellModel::U64(id), CellModel::U64(end)],
            };
            if w.state.data_files.contains_key((table_id, id)) && end == new_id {
                leaves(
                    base,
                    w,
                    op,
                    new_id,
                    CatalogModel { data_files: w.state.data_files.remove((table_id, id)), ..w.state },
                )
            } else {
                applied(base, w, op, new_id) is Err
            }
        }),
{
    fitting_cells_are_accepted(
        TableKind::DataFile,
        key_shape(TableKind::DataFile, Want::Number),
        seq![CellModel::U64(table_id), CellModel::U64(id), CellModel::U64(end)],
    );
}

/// A row that ends a delete file takes it, and nothing else, out of the catalog. It is
/// accepted if and only if that one is live and the end is the commit's own
/// snapshot.
pub proof fn delete_file_ends_take_it_away(
    base: CatalogModel,
    w: WorkModel,
    table_id: u64,
    id: u64,
    end: u64,
    new_id: u64,
)
    ensures
        ({
            let op = RowModel::UpdateSetEnd {
                table: TableKind::DeleteFile,
                cells: seq![CellModel::U64(table_id), CellModel::U64(id), CellModel::U64(end)],
            };
            if w.state.delete_files.contains_key((table_id, id)) && end == new_id {
                leaves(
                    base,
                    w,
                    op,
                    new_id,
                    CatalogModel { delete_files: w.state.delete_files.remove((table_id, id)), ..w.state },
                )
            } else {
                applied(base, w, op, new_id) is Err
            }
        }),
{
    fitting_cells_are_accepted(
        TableKind::DeleteFile,
        key_shape(TableKind::DeleteFile, Want::Number),
        seq![CellModel::U64(table_id), CellModel::U64(id), CellModel::U64(end)],
    );
}

/// A row that ends a partition spec takes it, and nothing else, out of the catalog. It is
/// accepted if and only if that one is live and the end is the commit's own
/// snapshot.
pub proof fn partition_ends_take_it_away(
    base: CatalogModel,
    w: WorkModel,
    table_id: u64,
    id: u64,
    end: u64,
    new_id: u64,
)
    ensures
        ({
            let op = RowModel::UpdateSetEnd {
                table: TableKind::PartitionInfo,
                cells: seq![CellModel::U64(table_id), CellModel::U64(id), CellModel::U64(end)],
            };
            if w.state.partitions.contains_key((table_id, id)) && end == new_id {
                leaves(
                    base,
                    w,
                    op,
                    new_id,
                    CatalogModel { partitions: w.state.partitions.remove((table_id, id)), ..w.state },
                )
            } else {
                applied(base, w, op, new_id) is Err
            }
        }),
{
    fitting_cells_are_accepted(
        TableKind::PartitionInfo,
        key_shape(TableKind::PartitionInfo, Want::Number),
        seq![CellModel::U64(table_id), CellModel::U64(id), CellModel::U64(end)],
    );
}

/// A row that ends a sort spec takes it, and nothing else, out of the catalog. It is
/// accepted if and only if that one is live and the end is the commit's own
/// snapshot.
pub proof fn sort_ends_take_it_away(
    base: CatalogModel,
    w: WorkModel,
    table_id: u64,
    id: u64,
    end: u64,
    new_id: u64,
)
    ensures
        ({
            let op = RowModel::UpdateSetEnd {
                table: TableKind::SortInfo,
                cells: seq![CellModel::U64(table_id), CellModel::U64(id), CellModel::U64(end)],
            };
            if w.state.sorts.contains_key((table_id, id)) && end == new_id {
                leaves(
                    base,
                    w,
                    op,
                    new_id,
                    CatalogModel { sorts: w.state.sorts.remove((table_id, id)), ..w.state },
                )
            } else {
                applied(base, w, op, new_id) is Err
            }
        }),
{
    fitting_cells_are_accepted(
        TableKind::SortInfo,
        key_shape(TableKind::SortInfo, Want::Number),
        seq![CellModel::U64(table_id), CellModel::U64(id), CellModel::U64(end)],
    );
}

/// A row that moves the begin of a data file changes that file's begin alone. It
/// is accepted if and only if this commit inserts the file and the begin is the
/// commit's own snapshot.
pub proof fn begins_move_new_files(
    base: CatalogModel,
    w: WorkModel,
    table_id: u64,
    id: u64,
    begin: u64,
    new_id: u64,
)
    ensures
        ({
            let op = RowModel::UpdateSetBegin {
                table: TableKind::DataFile,
                cells: seq![CellModel::U64(table_id), CellModel::U64(id), CellModel::U64(begin)],
            };
            if w.state.data_files.contains_key((table_id, id)) && !base.data_files.contains_key(
                (table_id, id),
            ) && begin == new_id {
                leaves(
                    base,
                    w,
                    op,
                    new_id,
                    CatalogModel {
                        data_files: w.state.data_files.insert(
                            (table_id, id),
                            DataFileModel {
                                begin_snapshot: begin,
                                ..w.state.data_files[(table_id, id)]
                            },
                        ),
                        ..w.state
                    },
                )
            } else {
                applied(base, w, op, new_id) is Err
            }
        }),
{
    fitting_cells_are_accepted(
        TableKind::DataFile,
        seq![Want::Number, Want::Number, Want::Number],
        seq![CellModel::U64(table_id), CellModel::U64(id), CellModel::U64(begin)],
    );
}

// ---------------------------------------------------------------------------
// Deletes
// ---------------------------------------------------------------------------

/// A row that prunes a schema deletes one version and changes no catalog: the live one
/// where it names no end, else the one that ended there.
pub proof fn schema_prunes_delete_one_version(
    base: CatalogModel,
    w: WorkModel,
    id: u64,
    end: Option<u64>,
    new_id: u64,
)
    ensures
        applied(
            base,
            w,
            RowModel::Delete { table: TableKind::Schema, cells: seq![CellModel::U64(id), number_cell(end)] },
            new_id,
        ) == Ok::<WorkModel, Fault>(
            WorkModel {
                direct: w.direct.push(
                    (
                        match end {
                            None => KeyModel::Current(CurrentKey::Entity(EntityKey::Schema { schema_id: id })),
                            Some(at) => KeyModel::History(
                                HistoryKey { entity: EntityKey::Schema { schema_id: id }, end_snapshot: at },
                            ),
                        },
                        None::<StoredModel>,
                    ),
                ),
                ..w
            },
        ),
{
    fitting_cells_are_accepted(
        TableKind::Schema,
        key_shape(TableKind::Schema, Want::NumberOrNull),
        seq![CellModel::U64(id), number_cell(end)],
    );
}

/// A row that prunes a table deletes one version and changes no catalog: the live one
/// where it names no end, else the one that ended there.
pub proof fn table_prunes_delete_one_version(
    base: CatalogModel,
    w: WorkModel,
    id: u64,
    end: Option<u64>,
    new_id: u64,
)
    ensures
        applied(
            base,
            w,
            RowModel::Delete { table: TableKind::Table, cells: seq![CellModel::U64(id), number_cell(end)] },
            new_id,
        ) == Ok::<WorkModel, Fault>(
            WorkModel {
                direct: w.direct.push(
                    (
                        match end {
                            None => KeyModel::Current(CurrentKey::Entity(EntityKey::Table { table_id: id })),
                            Some(at) => KeyModel::History(
                                HistoryKey { entity: EntityKey::Table { table_id: id }, end_snapshot: at },
                            ),
                        },
                        None::<StoredModel>,
                    ),
                ),
                ..w
            },
        ),
{
    fitting_cells_are_accepted(
        TableKind::Table,
        key_shape(TableKind::Table, Want::NumberOrNull),
        seq![CellModel::U64(id), number_cell(end)],
    );
}

/// A row that prunes a view deletes one version and changes no catalog: the live one
/// where it names no end, else the one that ended there.
pub proof fn view_prunes_delete_one_version(
    base: CatalogModel,
    w: WorkModel,
    id: u64,
    end: Option<u64>,
    new_id: u64,
)
    ensures
        applied(
            base,
            w,
            RowModel::Delete { table: TableKind::View, cells: seq![CellModel::U64(id), number_cell(end)] },
            new_id,
        ) == Ok::<WorkModel, Fault>(
            WorkModel {
                direct: w.direct.push(
                    (
                        match end {
                            None => KeyModel::Current(CurrentKey::Entity(EntityKey::View { view_id: id })),
                            Some(at) => KeyModel::History(
                                HistoryKey { entity: EntityKey::View { view_id: id }, end_snapshot: at },
                            ),
                        },
                        None::<StoredModel>,
                    ),
                ),
                ..w
            },
        ),
{
    fitting_cells_are_accepted(
        TableKind::View,
        key_shape(TableKind::View, Want::NumberOrNull),
        seq![CellModel::U64(id), number_cell(end)],
    );
}

/// A row that prunes a macro deletes one version and changes no catalog: the live one
/// where it names no end, else the one that ended there.
pub proof fn macro_prunes_delete_one_version(
    base: CatalogModel,
    w: WorkModel,
    id: u64,
    end: Option<u64>,
    new_id: u64,
)
    ensures
        applied(
            base,
            w,
            RowModel::Delete { table: TableKind::Macro, cells: seq![CellModel::U64(id), number_cell(end)] },
            new_id,
        ) == Ok::<WorkModel, Fault>(
            WorkModel {
                direct: w.direct.push(
                    (
                        match end {
                            None => KeyModel::Current(CurrentKey::Entity(EntityKey::Macro { macro_id: id })),
                            Some(at) => KeyModel::History(
                                HistoryKey { entity: EntityKey::Macro { macro_id: id }, end_snapshot: at },
                            ),
                        },
                        None::<StoredModel>,
                    ),
                ),
                ..w
            },
        ),
{
    fitting_cells_are_accepted(
        TableKind::Macro,
        key_shape(TableKind::Macro, Want::NumberOrNull),
        seq![CellModel::U64(id), number_cell(end)],
    );
}

/// A row that prunes a column deletes one version and changes no catalog: the live one
/// where it names no end, else the one that ended there.
pub proof fn column_prunes_delete_one_version(
    base: CatalogModel,
    w: WorkModel,
    table_id: u64,
    id: u64,
    end: Option<u64>,
    new_id: u64,
)
    ensures
        applied(
            base,
            w,
            RowModel::Delete { table: TableKind::Column, cells: seq![CellModel::U64(table_id), CellModel::U64(id), number_cell(end)] },
            new_id,
        ) == Ok::<WorkModel, Fault>(
            WorkModel {
                direct: w.direct.push(
                    (
                        match end {
                            None => KeyModel::Current(CurrentKey::Entity(EntityKey::Column { table_id, column_id: id })),
                            Some(at) => KeyModel::History(
                                HistoryKey { entity: EntityKey::Column { table_id, column_id: id }, end_snapshot: at },
                            ),
                        },
                        None::<StoredModel>,
                    ),
                ),
                ..w
            },
        ),
{
    fitting_cells_are_accepted(
        TableKind::Column,
        key_shape(TableKind::Column, Want::NumberOrNull),
        seq![CellModel::U64(table_id), CellModel::U64(id), number_cell(end)],
    );
}

/// A row that prunes a data file deletes one version and changes no catalog: the live one
/// where it names no end, else the one that ended there.
pub proof fn data_file_prunes_delete_one_version(
    base: CatalogModel,
    w: WorkModel,
    table_id: u64,
    id: u64,
    end: Option<u64>,
    new_id: u64,
)
    ensures
        applied(
            base,
            w,
            RowModel::Delete { table: TableKind::DataFile, cells: seq![CellModel::U64(table_id), CellModel::U64(id), number_cell(end)] },
            new_id,
        ) == Ok::<WorkModel, Fault>(
            WorkModel {
                direct: w.direct.push(
                    (
                        match end {
                            None => KeyModel::Current(CurrentKey::Entity(EntityKey::File { table_id, data_file_id: id })),
                            Some(at) => KeyModel::History(
                                HistoryKey { entity: EntityKey::File { table_id, data_file_id: id }, end_snapshot: at },
                            ),
                        },
                        None::<StoredModel>,
                    ),
                ),
                ..w
            },
        ),
{
    fitting_cells_are_accepted(
        TableKind::DataFile,
        key_shape(TableKind::DataFile, Want::NumberOrNull),
        seq![CellModel::U64(table_id), CellModel::U64(id), number_cell(end)],
    );
}

/// A row that prunes a delete file deletes one version and changes no catalog: the live one
/// where it names no end, else the one that ended there.
pub proof fn delete_file_prunes_delete_one_version(
    base: CatalogModel,
    w: WorkModel,
    table_id: u64,
    id: u64,
    end: Option<u64>,
    new_id: u64,
)
    ensures
        applied(
            base,
            w,
            RowModel::Delete { table: TableKind::DeleteFile, cells: seq![CellModel::U64(table_id), CellModel::U64(id), number_cell(end)] },
            new_id,
        ) == Ok::<WorkModel, Fault>(
            WorkModel {
                direct: w.direct.push(
                    (
                        match end {
                            None => KeyModel::Current(CurrentKey::Entity(EntityKey::DeleteFile { table_id, delete_file_id: id })),
                            Some(at) => KeyModel::History(
                                HistoryKey { entity: EntityKey::DeleteFile { table_id, delete_file_id: id }, end_snapshot: at },
                            ),
                        },
                        None::<StoredModel>,
                    ),
                ),
                ..w
            },
        ),
{
    fitting_cells_are_accepted(
        TableKind::DeleteFile,
        key_shape(TableKind::DeleteFile, Want::NumberOrNull),
        seq![CellModel::U64(table_id), CellModel::U64(id), number_cell(end)],
    );
}

/// A row that prunes a partition spec deletes one version and changes no catalog: the live one
/// where it names no end, else the one that ended there.
pub proof fn partition_prunes_delete_one_version(
    base: CatalogModel,
    w: WorkModel,
    table_id: u64,
    id: u64,
    end: Option<u64>,
    new_id: u64,
)
    ensures
        applied(
            base,
            w,
            RowModel::Delete { table: TableKind::PartitionInfo, cells: seq![CellModel::U64(table_id), CellModel::U64(id), number_cell(end)] },
            new_id,
        ) == Ok::<WorkModel, Fault>(
            WorkModel {
                direct: w.direct.push(
                    (
                        match end {
                            None => KeyModel::Current(CurrentKey::Entity(EntityKey::Partition { table_id, partition_id: id })),
                            Some(at) => KeyModel::History(
                                HistoryKey { entity: EntityKey::Partition { table_id, partition_id: id }, end_snapshot: at },
                            ),
                        },
                        None::<StoredModel>,
                    ),
                ),
                ..w
            },
        ),
{
    fitting_cells_are_accepted(
        TableKind::PartitionInfo,
        key_shape(TableKind::PartitionInfo, Want::NumberOrNull),
        seq![CellModel::U64(table_id), CellModel::U64(id), number_cell(end)],
    );
}

/// A row that prunes a sort spec deletes one version and changes no catalog: the live one
/// where it names no end, else the one that ended there.
pub proof fn sort_prunes_delete_one_version(
    base: CatalogModel,
    w: WorkModel,
    table_id: u64,
    id: u64,
    end: Option<u64>,
    new_id: u64,
)
    ensures
        applied(
            base,
            w,
            RowModel::Delete { table: TableKind::SortInfo, cells: seq![CellModel::U64(table_id), CellModel::U64(id), number_cell(end)] },
            new_id,
        ) == Ok::<WorkModel, Fault>(
            WorkModel {
                direct: w.direct.push(
                    (
                        match end {
                            None => KeyModel::Current(CurrentKey::Entity(EntityKey::Sort { table_id, sort_id: id })),
                            Some(at) => KeyModel::History(
                                HistoryKey { entity: EntityKey::Sort { table_id, sort_id: id }, end_snapshot: at },
                            ),
                        },
                        None::<StoredModel>,
                    ),
                ),
                ..w
            },
        ),
{
    fitting_cells_are_accepted(
        TableKind::SortInfo,
        key_shape(TableKind::SortInfo, Want::NumberOrNull),
        seq![CellModel::U64(table_id), CellModel::U64(id), number_cell(end)],
    );
}

/// A row that deletes statistics takes those, and nothing else, out of the
/// catalog; that there are none is no matter.
pub proof fn stats_deletes_take_them_away(
    base: CatalogModel,
    w: WorkModel,
    table_id: u64,
    file_id: u64,
    column_id: u64,
    new_id: u64,
)
    ensures
        leaves(
            base,
            w,
            RowModel::Delete { table: TableKind::TableStats, cells: seq![CellModel::U64(table_id)] },
            new_id,
            CatalogModel { table_stats: w.state.table_stats.remove(table_id), ..w.state },
        ),
        leaves(
            base,
            w,
            RowModel::Delete {
                table: TableKind::TableColumnStats,
                cells: seq![CellModel::U64(table_id), CellModel::U64(column_id)],
            },
            new_id,
            CatalogModel {
                table_column_stats: w.state.table_column_stats.remove((table_id, column_id)),
                ..w.state
            },
        ),
        leaves(
            base,
            w,
            RowModel::Delete {
                table: TableKind::FileColumnStats,
                cells: seq![
                    CellModel::U64(table_id),
                    CellModel::U64(file_id),
                    CellModel::U64(column_id),
                ],
            },
            new_id,
            CatalogModel {
                file_column_stats: w.state.file_column_stats.remove(
                    (table_id, (file_id, column_id)),
                ),
                ..w.state
            },
        ),
{
    fitting_cells_are_accepted(
        TableKind::TableStats,
        seq![Want::Number],
        seq![CellModel::U64(table_id)],
    );
    fitting_cells_are_accepted(
        TableKind::TableColumnStats,
        seq![Want::Number, Want::Number],
        seq![CellModel::U64(table_id), CellModel::U64(column_id)],
    );
    fitting_cells_are_accepted(
        TableKind::FileColumnStats,
        seq![Want::Number, Want::Number, Want::Number],
        seq![CellModel::U64(table_id), CellModel::U64(file_id), CellModel::U64(column_id)],
    );
}

/// A row that deletes a scheduled deletion takes that one, and nothing else, out
/// of the catalog, if there is one.
pub proof fn gc_file_deletes_take_it_away(base: CatalogModel, w: WorkModel, id: u64, new_id: u64)
    ensures
        ({
            let op = RowModel::Delete {
                table: TableKind::FilesScheduledForDeletion,
                cells: seq![CellModel::U64(id)],
            };
            if w.state.gc_files.contains_key(id) {
                leaves(
                    base,
                    w,
                    op,
                    new_id,
                    CatalogModel { gc_files: w.state.gc_files.remove(id), ..w.state },
                )
            } else {
                applied(base, w, op, new_id) is Err
            }
        }),
{
    fitting_cells_are_accepted(
        TableKind::FilesScheduledForDeletion,
        seq![Want::Number],
        seq![CellModel::U64(id)],
    );
}

/// A row that expires a snapshot deletes its record and changes no catalog; the
/// snapshot at the head is never expired.
pub proof fn expiries_delete_one_snapshot(base: CatalogModel, w: WorkModel, id: u64, new_id: u64)
    ensures
        ({
            let op = RowModel::Delete {
                table: TableKind::Snapshot,
                cells: seq![CellModel::U64(id)],
            };
            if w.state.snapshot.snapshot_id == id {
                applied(base, w, op, new_id) is Err
            } else {
                applied(base, w, op, new_id) == Ok::<WorkModel, Fault>(
                    WorkModel {
                        direct: w.direct.push(
                            (KeyModel::Snapshot { snapshot_id: id }, None::<StoredModel>),
                        ),
                        ..w
                    },
                )
            }
        }),
{
    fitting_cells_are_accepted(
        TableKind::Snapshot,
        seq![Want::Number],
        seq![CellModel::U64(id)],
    );
}

/// A row that deletes a column mapping deletes its record and changes nothing
/// else.
pub proof fn mapping_deletes_delete_it(
    base: CatalogModel,
    w: WorkModel,
    mapping_id: u64,
    table_id: u64,
    new_id: u64,
)
    ensures
        applied(
            base,
            w,
            RowModel::Delete {
                table: TableKind::ColumnMapping,
                cells: seq![CellModel::U64(mapping_id), CellModel::U64(table_id)],
            },
            new_id,
        ) == Ok::<WorkModel, Fault>(
            WorkModel {
                direct: w.direct.push(
                    (
                        KeyModel::Current(
                            CurrentKey::Entity(EntityKey::Mapping { table_id, mapping_id }),
                        ),
                        None::<StoredModel>,
                    ),
                ),
                ..w
            },
        ),
{
    fitting_cells_are_accepted(
        TableKind::ColumnMapping,
        seq![Want::Number, Want::Number],
        seq![CellModel::U64(mapping_id), CellModel::U64(table_id)],
    );
}

/// Every row but those of inlined data is applied in one round and no other.
pub proof fn every_row_has_a_round(op: RowModel)
    ensures
        (op is Insert || op is Delete || op is UpdateSetEnd || op is UpdateSetBegin) <==> exists|
            round: Round,
        | #[trigger] in_round(op, round),
        forall|a: Round, b: Round| #[trigger] in_round(op, a) && #[trigger] in_round(op, b) ==> a == b,
        op is UpdateSetEnd || op is Delete ==> in_round(op, Round::Ends),
        op is Insert ==> in_round(op, Round::Inserts),
        op is UpdateSetBegin ==> in_round(op, Round::Begins),
{
    if op is Insert {
        assert(in_round(op, Round::Inserts));
    } else if op is Delete || op is UpdateSetEnd {
        assert(in_round(op, Round::Ends));
    } else if op is UpdateSetBegin {
        assert(in_round(op, Round::Begins));
    }
}

// ---------------------------------------------------------------------------
// Tags
// ---------------------------------------------------------------------------

/// The tags of an object.
pub open spec fn tags_on(m: CatalogModel, object_id: u64) -> Seq<TagEntryModel> {
    if m.tags.contains_key(object_id) {
        m.tags[object_id].entries
    } else {
        Seq::empty()
    }
}

/// The row of a tag adds that tag to its object, behind those that are there,
/// and changes nothing else.
pub proof fn tag_rows_add_a_tag(
    base: CatalogModel,
    w: WorkModel,
    object_id: u64,
    tag: TagEntryModel,
    new_id: u64,
)
    requires
        w.state.tags.contains_key(object_id) ==> w.state.tags[object_id].object_id == object_id,
    ensures
        leaves(
            base,
            w,
            RowModel::Insert {
                table: TableKind::Tag,
                cells: seq![
                    CellModel::U64(object_id),
                    CellModel::U64(tag.begin_snapshot),
                    number_cell(tag.end_snapshot),
                    CellModel::Str(tag.key),
                    CellModel::Str(tag.value),
                ],
            },
            new_id,
            CatalogModel {
                tags: w.state.tags.insert(
                    object_id,
                    TagModel { object_id, entries: tags_on(w.state, object_id).push(tag) },
                ),
                ..w.state
            },
        ),
{
    let cells = seq![
        CellModel::U64(object_id),
        CellModel::U64(tag.begin_snapshot),
        number_cell(tag.end_snapshot),
        CellModel::Str(tag.key),
        CellModel::Str(tag.value),
    ];
    fitting_cells_are_accepted(TableKind::Tag, columns_in(TableKind::Tag), cells);
    let got = applied(base, w, RowModel::Insert { table: TableKind::Tag, cells }, new_id);
    assert(got is Ok);
    assert(got->Ok_0.state.tags =~= w.state.tags.insert(
        object_id,
        TagModel { object_id, entries: tags_on(w.state, object_id).push(tag) },
    ));
}

/// The row of a column tag adds that tag to its column, behind those that are
/// there, and changes nothing else. The column must be live.
pub proof fn column_tag_rows_add_a_tag(
    base: CatalogModel,
    w: WorkModel,
    column: (u64, u64),
    tag: TagEntryModel,
    new_id: u64,
)
    ensures
        ({
            let op = RowModel::Insert {
                table: TableKind::ColumnTag,
                cells: seq![
                    CellModel::U64(column.0),
                    CellModel::U64(column.1),
                    CellModel::U64(tag.begin_snapshot),
                    number_cell(tag.end_snapshot),
                    CellModel::Str(tag.key),
                    CellModel::Str(tag.value),
                ],
            };
            if w.state.columns.contains_key(column) {
                let value = w.state.columns[column];
                leaves(
                    base,
                    w,
                    op,
                    new_id,
                    CatalogModel {
                        columns: w.state.columns.insert(
                            column,
                            ColumnModel { tags: value.tags.push(tag), ..value },
                        ),
                        ..w.state
                    },
                )
            } else {
                applied(base, w, op, new_id) is Err
            }
        }),
{
    let cells = seq![
        CellModel::U64(column.0),
        CellModel::U64(column.1),
        CellModel::U64(tag.begin_snapshot),
        number_cell(tag.end_snapshot),
        CellModel::Str(tag.key),
        CellModel::Str(tag.value),
    ];
    fitting_cells_are_accepted(TableKind::ColumnTag, columns_in(TableKind::ColumnTag), cells);
    let got = applied(base, w, RowModel::Insert { table: TableKind::ColumnTag, cells }, new_id);
    if w.state.columns.contains_key(column) {
        assert(got is Ok);
        assert(got->Ok_0.state.columns =~= w.state.columns.insert(
            column,
            ColumnModel {
                tags: w.state.columns[column].tags.push(tag),
                ..w.state.columns[column]
            },
        ));
    }
}

/// Whether one tag, the first live one of a key, ended, and no other changed.
pub open spec fn one_tag_ended(
    before: Seq<TagEntryModel>,
    after: Seq<TagEntryModel>,
    key: Seq<char>,
    end: u64,
) -> bool {
    exists|i: int|
        {
            &&& 0 <= i < before.len()
            &&& (#[trigger] before[i]).key == key && before[i].end_snapshot is None
            &&& forall|j: int|
                0 <= j < i ==> !((#[trigger] before[j]).key == key
                    && before[j].end_snapshot is None)
            &&& after == before.update(
                i,
                TagEntryModel { end_snapshot: Some(end), ..before[i] },
            )
        }
}

/// Whether some tag of a key is live.
pub open spec fn tagged(tags: Seq<TagEntryModel>, key: Seq<char>) -> bool {
    exists|i: int|
        0 <= i < tags.len() && (#[trigger] tags[i]).key == key && tags[i].end_snapshot is None
}

proof fn first_live_is_first(tags: Seq<TagEntryModel>, key: Seq<char>, from: int)
    requires
        0 <= from <= tags.len(),
    ensures
        from <= first_live(tags, key, from) <= tags.len(),
        first_live(tags, key, from) < tags.len() ==> ({
            let i = first_live(tags, key, from);
            tags[i].key == key && tags[i].end_snapshot is None
        }),
        forall|j: int|
            from <= j < first_live(tags, key, from) ==> !((#[trigger] tags[j]).key == key
                && tags[j].end_snapshot is None),
    decreases tags.len() - from,
{
    if from < tags.len() && !(tags[from].key == key && tags[from].end_snapshot is None) {
        first_live_is_first(tags, key, from + 1);
    }
}

/// A row that ends a tag ends the live one of its object and key, and changes
/// nothing else. It is accepted if and only if there is one and the end is the
/// commit's own snapshot.
pub proof fn tag_ends_end_one_tag(
    base: CatalogModel,
    w: WorkModel,
    object_id: u64,
    key: Seq<char>,
    end: u64,
    new_id: u64,
)
    ensures
        ({
            let op = RowModel::UpdateSetEnd {
                table: TableKind::Tag,
                cells: seq![CellModel::U64(object_id), CellModel::Str(key), CellModel::U64(end)],
            };
            match applied(base, w, op, new_id) {
                Ok(n) => {
                    &&& tagged(tags_on(w.state, object_id), key) && end == new_id
                    &&& one_tag_ended(
                        tags_on(w.state, object_id),
                        tags_on(n.state, object_id),
                        key,
                        end,
                    )
                    &&& n.state.tags == w.state.tags.insert(
                        object_id,
                        TagModel {
                            object_id: w.state.tags[object_id].object_id,
                            entries: tags_on(n.state, object_id),
                        },
                    )
                    &&& n == (WorkModel {
                        state: CatalogModel { tags: n.state.tags, ..w.state },
                        ..w
                    })
                },
                Err(_) => !(tagged(tags_on(w.state, object_id), key) && end == new_id),
            }
        }),
{
    fitting_cells_are_accepted(
        TableKind::Tag,
        seq![Want::Number, Want::Text, Want::Number],
        seq![CellModel::U64(object_id), CellModel::Str(key), CellModel::U64(end)],
    );
    if w.state.tags.contains_key(object_id) {
        let tags = w.state.tags[object_id].entries;
        first_live_is_first(tags, key, 0);
        let i = first_live(tags, key, 0);
        if i < tags.len() {
            assert(tags[i].key == key);
            let ended_tags = tags.update(
                i,
                TagEntryModel { end_snapshot: Some(end), ..tags[i] },
            );
            assert(one_tag_ended(tags, ended_tags, key, end));
        }
    }
}

/// A row that ends a column tag ends the live one of its column and key, and
/// changes nothing else. It is accepted if and only if there is one and the end
/// is the commit's own snapshot.
pub proof fn column_tag_ends_end_one_tag(
    base: CatalogModel,
    w: WorkModel,
    column: (u64, u64),
    key: Seq<char>,
    end: u64,
    new_id: u64,
)
    ensures
        ({
            let op = RowModel::UpdateSetEnd {
                table: TableKind::ColumnTag,
                cells: seq![
                    CellModel::U64(column.0),
                    CellModel::U64(column.1),
                    CellModel::Str(key),
                    CellModel::U64(end),
                ],
            };
            let live = w.state.columns.contains_key(column) && tagged(
                w.state.columns[column].tags,
                key,
            ) && end == new_id;
            match applied(base, w, op, new_id) {
                Ok(n) => {
                    let value = w.state.columns[column];
                    &&& live
                    &&& n.state.columns.contains_key(column)
                    &&& one_tag_ended(value.tags, n.state.columns[column].tags, key, end)
                    &&& n.state.columns == w.state.columns.insert(
                        column,
                        ColumnModel { tags: n.state.columns[column].tags, ..value },
                    )
                    &&& n == (WorkModel {
                        state: CatalogModel { columns: n.state.columns, ..w.state },
                        ..w
                    })
                },
                Err(_) => !live,
            }
        }),
{
    fitting_cells_are_accepted(
        TableKind::ColumnTag,
        seq![Want::Number, Want::Number, Want::Text, Want::Number],
        seq![
            CellModel::U64(column.0),
            CellModel::U64(column.1),
            CellModel::Str(key),
            CellModel::U64(end),
        ],
    );
    if w.state.columns.contains_key(column) {
        let tags = w.state.columns[column].tags;
        first_live_is_first(tags, key, 0);
        let i = first_live(tags, key, 0);
        if i < tags.len() {
            assert(tags[i].key == key);
            let ended_tags = tags.update(
                i,
                TagEntryModel { end_snapshot: Some(end), ..tags[i] },
            );
            assert(one_tag_ended(tags, ended_tags, key, end));
        }
    }
}

/// A row that deletes a tag takes the tags of its object with that key and begin
/// away, and keeps the others in their order; an object without tags has no
/// record. It is accepted if and only if there is such a tag.
pub proof fn tag_deletes_take_it_away(
    base: CatalogModel,
    w: WorkModel,
    object_id: u64,
    key: Seq<char>,
    begin: u64,
    new_id: u64,
)
    ensures
        ({
            let op = RowModel::Delete {
                table: TableKind::Tag,
                cells: seq![CellModel::U64(object_id), CellModel::Str(key), CellModel::U64(begin)],
            };
            let rest = tags_on(w.state, object_id).filter(
                |e: TagEntryModel| e.key != key || e.begin_snapshot != begin,
            );
            if rest.len() == tags_on(w.state, object_id).len() {
                applied(base, w, op, new_id) is Err
            } else {
                leaves(
                    base,
                    w,
                    op,
                    new_id,
                    CatalogModel {
                        tags: if rest.len() == 0 {
                            w.state.tags.remove(object_id)
                        } else {
                            w.state.tags.insert(
                                object_id,
                                TagModel { entries: rest, ..w.state.tags[object_id] },
                            )
                        },
                        ..w.state
                    },
                )
            }
        }),
{
    fitting_cells_are_accepted(
        TableKind::Tag,
        seq![Want::Number, Want::Text, Want::Number],
        seq![CellModel::U64(object_id), CellModel::Str(key), CellModel::U64(begin)],
    );
    let p = |e: TagEntryModel| e.key != key || e.begin_snapshot != begin;
    let q = |e: TagEntryModel| !is_tag(e, key, begin);
    let tags = tags_on(w.state, object_id);
    same_filter(tags, p, q);
    filters_shrink(tags, p);
}

/// Predicates that agree filter alike.
proof fn same_filter<A>(s: Seq<A>, p: spec_fn(A) -> bool, q: spec_fn(A) -> bool)
    requires
        forall|x: A| #[trigger] p(x) == q(x),
    ensures
        s.filter(p) == s.filter(q),
    decreases s.len(),
{
    reveal(Seq::filter);
    if s.len() > 0 {
        same_filter(s.drop_last(), p, q);
        assert(p(s.last()) == q(s.last()));
    }
}

proof fn filters_shrink<A>(s: Seq<A>, p: spec_fn(A) -> bool)
    ensures
        s.filter(p).len() <= s.len(),
    decreases s.len(),
{
    reveal(Seq::filter);
    if s.len() > 0 {
        filters_shrink(s.drop_last(), p);
    }
}

/// A row that deletes a column tag takes the tags of its column with that key
/// and begin away, and keeps the others in their order.
pub proof fn column_tag_deletes_take_it_away(
    base: CatalogModel,
    w: WorkModel,
    column: (u64, u64),
    key: Seq<char>,
    begin: u64,
    new_id: u64,
)
    ensures
        leaves(
            base,
            w,
            RowModel::Delete {
                table: TableKind::ColumnTag,
                cells: seq![
                    CellModel::U64(column.0),
                    CellModel::U64(column.1),
                    CellModel::Str(key),
                    CellModel::U64(begin),
                ],
            },
            new_id,
            if w.state.columns.contains_key(column) {
                CatalogModel {
                    columns: w.state.columns.insert(
                        column,
                        ColumnModel {
                            tags: w.state.columns[column].tags.filter(
                                |e: TagEntryModel| e.key != key || e.begin_snapshot != begin,
                            ),
                            ..w.state.columns[column]
                        },
                    ),
                    ..w.state
                }
            } else {
                w.state
            },
        ),
{
    fitting_cells_are_accepted(
        TableKind::ColumnTag,
        seq![Want::Number, Want::Number, Want::Text, Want::Number],
        seq![
            CellModel::U64(column.0),
            CellModel::U64(column.1),
            CellModel::Str(key),
            CellModel::U64(begin),
        ],
    );
    if w.state.columns.contains_key(column) {
        same_filter(
            w.state.columns[column].tags,
            |e: TagEntryModel| e.key != key || e.begin_snapshot != begin,
            |e: TagEntryModel| !is_tag(e, key, begin),
        );
    }
}

// ---------------------------------------------------------------------------
// Macros and mappings
// ---------------------------------------------------------------------------

/// The implementations that a commit stages for a macro.
pub open spec fn staged_implementations(c: ChildModel, id: u64) -> Seq<MacroImplementationModel> {
    if c.macro_implementations.contains_key(id) {
        c.macro_implementations[id]
    } else {
        Seq::empty()
    }
}

/// The parameters that a commit stages for an implementation of a macro.
pub open spec fn staged_parameters(c: ChildModel, id: u64, n: u64) -> Seq<MacroParameterModel> {
    if c.macro_parameters.contains_key((id, n)) {
        c.macro_parameters[(id, n)]
    } else {
        Seq::empty()
    }
}

/// Whether the implementations of a macro can stand: there are some, their
/// ordinals and those of their parameters count from zero, and all have one
/// type.
pub open spec fn macro_stands(c: ChildModel, id: u64) -> bool {
    let rows = staged_implementations(c, id);
    &&& rows.len() > 0
    &&& forall|i: int|
        0 <= i < rows.len() ==> (#[trigger] rows[i]).impl_id == i && rows[i].macro_type
            == rows[0].macro_type
    &&& forall|i: int, k: int|
        0 <= i < rows.len() && 0 <= k < staged_parameters(c, id, i as u64).len() ==> (
        #[trigger] staged_parameters(c, id, i as u64)[k]).column_id == k
}

proof fn implementations_stand(rows: Seq<MacroImplementationModel>)
    ensures
        implementations_refusal(rows) is None <==> forall|i: int|
            0 <= i < rows.len() ==> (#[trigger] rows[i]).impl_id == i && rows[i].macro_type
                == rows[0].macro_type,
    decreases rows.len(),
{
    if rows.len() > 0 {
        let front = rows.drop_last();
        let n = rows.len() - 1;
        implementations_stand(front);
        if forall|i: int|
            0 <= i < rows.len() ==> (#[trigger] rows[i]).impl_id == i && rows[i].macro_type
                == rows[0].macro_type {
            assert forall|i: int| 0 <= i < front.len() implies (#[trigger] front[i]).impl_id == i
                && front[i].macro_type == front[0].macro_type by {
                assert(front[i] == rows[i] && front[0] == rows[0]);
            }
            assert(rows[n].impl_id == n);
        }
        if implementations_refusal(rows) is None {
            assert forall|i: int| 0 <= i < rows.len() implies (#[trigger] rows[i]).impl_id == i
                && rows[i].macro_type == rows[0].macro_type by {
                if i < n {
                    assert(front[i] == rows[i] && front[0] == rows[0]);
                }
            }
        }
    }
}

/// The row of a macro puts that macro into the catalog, with the implementations
/// that the commit stages for it, each with its parameters. It is accepted if
/// and only if those can stand.
pub proof fn macro_rows_read_back(base: CatalogModel, w: WorkModel, v: MacroModel, new_id: u64)
    ensures
        ({
            let rows = staged_implementations(w.children, v.macro_id);
            match applied(
                base,
                w,
                RowModel::Insert { table: TableKind::Macro, cells: macro_cells(v) },
                new_id,
            ) {
                Ok(n) => {
                    let made = n.state.macros[v.macro_id];
                    &&& macro_stands(w.children, v.macro_id)
                    &&& n.state.macros.contains_key(v.macro_id)
                    &&& made == (MacroModel { implementations: made.implementations, ..v })
                    &&& made.implementations.len() == rows.len()
                    &&& forall|i: int|
                        0 <= i < rows.len() ==> #[trigger] made.implementations[i] == (
                        MacroImplementationModel {
                            parameters: staged_parameters(w.children, v.macro_id, i as u64),
                            ..rows[i]
                        })
                    &&& n.state == (CatalogModel {
                        macros: w.state.macros.insert(v.macro_id, made),
                        ..w.state
                    })
                    &&& n.direct == w.direct
                },
                Err(_) => !macro_stands(w.children, v.macro_id),
            }
        }),
{
    macro_cells_fit(v);
    let rows = staged_implementations(w.children, v.macro_id);
    implementations_stand(rows);
    let c = w.children;
    let id = v.macro_id;
    if macro_stands(c, id) {
        assert forall|i: int| 0 <= i < rows.len() implies parameters_numbered(
            #[trigger] group(c.macro_parameters, (id, i as u64)),
        ) by {
            assert(group(c.macro_parameters, (id, i as u64)) == staged_parameters(c, id, i as u64));
        }
    } else if rows.len() > 0 && implementations_refusal(rows) is None {
        let (i, k) = choose|i: int, k: int|
            0 <= i < rows.len() && 0 <= k < staged_parameters(c, id, i as u64).len() && (
            #[trigger] staged_parameters(c, id, i as u64)[k]).column_id != k;
        assert(group(c.macro_parameters, (id, i as u64)) == staged_parameters(c, id, i as u64));
        assert(!parameters_numbered(group(c.macro_parameters, (id, i as u64))));
    }
}

/// The names that a commit stages for a mapping.
pub open spec fn staged_names(c: ChildModel, id: u64) -> Seq<NameMappingModel> {
    if c.name_mappings.contains_key(id) {
        c.name_mappings[id]
    } else {
        Seq::empty()
    }
}

/// Whether a name of a mapping takes its predecessor's column, or stands at or
/// before its parent.
pub open spec fn out_of_place(names: Seq<NameMappingModel>, i: int) -> bool {
    ||| i > 0 && names[i - 1].column_id == names[i].column_id
    ||| names[i].parent_column is Some && names[i].parent_column->0 >= names[i].column_id
}

/// The row of a column mapping puts that mapping into the catalog, with the names
/// that the commit stages for it, which no other row takes. A table never gets
/// the same mapping twice, and a mapping has a name.
pub proof fn mapping_rows_read_back(base: CatalogModel, w: WorkModel, v: MappingModel, new_id: u64)
    ensures
        match applied(
            base,
            w,
            RowModel::Insert { table: TableKind::ColumnMapping, cells: mapping_cells(v) },
            new_id,
        ) {
            Ok(n) => {
                &&& !w.state.mappings.contains_key((v.table_id, v.mapping_id))
                &&& staged_names(w.children, v.mapping_id).len() > 0
                &&& n.state == (CatalogModel {
                    mappings: w.state.mappings.insert(
                        (v.table_id, v.mapping_id),
                        MappingModel {
                            name_mappings: staged_names(w.children, v.mapping_id),
                            ..v
                        },
                    ),
                    ..w.state
                })
                &&& n.children == (ChildModel {
                    name_mappings: w.children.name_mappings.remove(v.mapping_id),
                    ..w.children
                })
                &&& n.direct == w.direct
            },
            Err(_) => w.state.mappings.contains_key((v.table_id, v.mapping_id)) || staged_names(
                w.children,
                v.mapping_id,
            ).len() == 0 || exists|i: int|
                0 <= i < staged_names(w.children, v.mapping_id).len() && #[trigger] out_of_place(
                    staged_names(w.children, v.mapping_id),
                    i,
                ),
        },
{
    mapping_cells_fit(v);
    names_stand(staged_names(w.children, v.mapping_id));
}

proof fn names_stand(names: Seq<NameMappingModel>)
    ensures
        names_refusal(names) is Some ==> exists|i: int|
            0 <= i < names.len() && #[trigger] out_of_place(names, i),
    decreases names.len(),
{
    if names.len() > 0 {
        let front = names.drop_last();
        names_stand(front);
        if names_refusal(front) is Some {
            let i = choose|i: int|
                0 <= i < front.len() && #[trigger] out_of_place(front, i);
            assert(out_of_place(names, i));
        } else if names_refusal(names) is Some {
            assert(out_of_place(names, names.len() - 1));
        }
    }
}

// ---------------------------------------------------------------------------
// Child rows
// ---------------------------------------------------------------------------

/// Whether one group has one row more, and every other group is as it was.
pub open spec fn one_more<K, R>(
    before: Map<K, Seq<R>>,
    after: Map<K, Seq<R>>,
    key: K,
    row: R,
) -> bool {
    &&& after.contains_key(key)
    &&& after[key].to_multiset() == (if before.contains_key(key) {
        before[key]
    } else {
        Seq::empty()
    }).to_multiset().insert(row)
    &&& after.remove(key) == before.remove(key)
}

/// The row of a column of a partition spec joins the rows of its parent, and no others.
pub proof fn partition_column_rows_join_their_parent(
    ops: Seq<RowModel>,
    parent: u64,
    table_id: u64,
    v: PartitionColumnModel,
)
    requires
        children_of(ops) is Ok,
    ensures
        match children_of(
            ops.push(
                RowModel::Insert {
                    table: TableKind::PartitionColumn,
                    cells: seq![
                        CellModel::U64(parent),
                        CellModel::U64(table_id),
                        CellModel::U64(v.partition_key_index),
                        CellModel::U64(v.column_id),
                        CellModel::Str(v.transform),
                    ],
                },
            ),
        ) {
            Ok(c) => one_more(children_of(ops)->Ok_0.partition_columns, c.partition_columns, parent, v) && c == (
            ChildModel { partition_columns: c.partition_columns, ..children_of(ops)->Ok_0 }),
            Err(_) => false,
        },
{
    let cells = seq![
        CellModel::U64(parent),
        CellModel::U64(table_id),
        CellModel::U64(v.partition_key_index),
        CellModel::U64(v.column_id),
        CellModel::Str(v.transform),
    ];
    let op = RowModel::Insert { table: TableKind::PartitionColumn, cells };
    let before = children_of(ops)->Ok_0.partition_columns;
    fitting_cells_are_accepted(TableKind::PartitionColumn, columns_in(TableKind::PartitionColumn), cells);
    assert(ops.push(op).drop_last() =~= ops);
    children_come_in_order(ops);
    placing_keeps_order::<PartitionColumn>(group(before, parent), v);
    let after = children_of(ops.push(op))->Ok_0.partition_columns;
    assert(after.remove(parent) =~= before.remove(parent));
}

/// The row of an expression of a sort spec joins the rows of its parent, and no others.
pub proof fn sort_expression_rows_join_their_parent(
    ops: Seq<RowModel>,
    parent: u64,
    table_id: u64,
    v: SortExpressionModel,
)
    requires
        children_of(ops) is Ok,
    ensures
        match children_of(
            ops.push(
                RowModel::Insert {
                    table: TableKind::SortExpression,
                    cells: seq![
                        CellModel::U64(parent),
                        CellModel::U64(table_id),
                        CellModel::U64(v.sort_key_index),
                        CellModel::Str(v.expression),
                        CellModel::Str(v.dialect),
                        CellModel::Str(v.sort_direction),
                        CellModel::Str(v.null_order),
                    ],
                },
            ),
        ) {
            Ok(c) => one_more(children_of(ops)->Ok_0.sort_expressions, c.sort_expressions, parent, v) && c == (
            ChildModel { sort_expressions: c.sort_expressions, ..children_of(ops)->Ok_0 }),
            Err(_) => false,
        },
{
    let cells = seq![
        CellModel::U64(parent),
        CellModel::U64(table_id),
        CellModel::U64(v.sort_key_index),
        CellModel::Str(v.expression),
        CellModel::Str(v.dialect),
        CellModel::Str(v.sort_direction),
        CellModel::Str(v.null_order),
    ];
    let op = RowModel::Insert { table: TableKind::SortExpression, cells };
    let before = children_of(ops)->Ok_0.sort_expressions;
    fitting_cells_are_accepted(TableKind::SortExpression, columns_in(TableKind::SortExpression), cells);
    assert(ops.push(op).drop_last() =~= ops);
    children_come_in_order(ops);
    placing_keeps_order::<SortExpression>(group(before, parent), v);
    let after = children_of(ops.push(op))->Ok_0.sort_expressions;
    assert(after.remove(parent) =~= before.remove(parent));
}

/// The row of a partition value of a data file joins the rows of its parent, and no others.
pub proof fn file_partition_value_rows_join_their_parent(
    ops: Seq<RowModel>,
    parent: u64,
    table_id: u64,
    v: FilePartitionValueModel,
)
    requires
        children_of(ops) is Ok,
    ensures
        match children_of(
            ops.push(
                RowModel::Insert {
                    table: TableKind::FilePartitionValue,
                    cells: seq![
                        CellModel::U64(parent),
                        CellModel::U64(table_id),
                        CellModel::U64(v.partition_key_index),
                        text_cell(v.partition_value),
                    ],
                },
            ),
        ) {
            Ok(c) => one_more(children_of(ops)->Ok_0.file_partition_values, c.file_partition_values, (table_id, parent), v) && c == (
            ChildModel { file_partition_values: c.file_partition_values, ..children_of(ops)->Ok_0 }),
            Err(_) => false,
        },
{
    let cells = seq![
        CellModel::U64(parent),
        CellModel::U64(table_id),
        CellModel::U64(v.partition_key_index),
        text_cell(v.partition_value),
    ];
    let op = RowModel::Insert { table: TableKind::FilePartitionValue, cells };
    let before = children_of(ops)->Ok_0.file_partition_values;
    fitting_cells_are_accepted(TableKind::FilePartitionValue, columns_in(TableKind::FilePartitionValue), cells);
    assert(ops.push(op).drop_last() =~= ops);
    children_come_in_order(ops);
    placing_keeps_order::<FilePartitionValue>(group(before, (table_id, parent)), v);
    let after = children_of(ops.push(op))->Ok_0.file_partition_values;
    assert(after.remove((table_id, parent)) =~= before.remove((table_id, parent)));
}

/// The row of an implementation of a macro joins the rows of its parent, and no others.
pub proof fn macro_implementation_rows_join_their_parent(
    ops: Seq<RowModel>,
    parent: u64,
    v: MacroImplementationModel,
)
    requires
        children_of(ops) is Ok,
    ensures
        match children_of(
            ops.push(
                RowModel::Insert {
                    table: TableKind::MacroImpl,
                    cells: seq![
                        CellModel::U64(parent),
                        CellModel::U64(v.impl_id),
                        CellModel::Str(v.dialect),
                        CellModel::Str(v.sql),
                        CellModel::Str(v.macro_type),
                    ],
                },
            ),
        ) {
            Ok(c) => one_more(children_of(ops)->Ok_0.macro_implementations, c.macro_implementations, parent, MacroImplementationModel { parameters: Seq::empty(), ..v }) && c == (
            ChildModel { macro_implementations: c.macro_implementations, ..children_of(ops)->Ok_0 }),
            Err(_) => false,
        },
{
    let cells = seq![
        CellModel::U64(parent),
        CellModel::U64(v.impl_id),
        CellModel::Str(v.dialect),
        CellModel::Str(v.sql),
        CellModel::Str(v.macro_type),
    ];
    let op = RowModel::Insert { table: TableKind::MacroImpl, cells };
    let before = children_of(ops)->Ok_0.macro_implementations;
    fitting_cells_are_accepted(TableKind::MacroImpl, columns_in(TableKind::MacroImpl), cells);
    assert(ops.push(op).drop_last() =~= ops);
    children_come_in_order(ops);
    placing_keeps_order::<MacroImplementation>(group(before, parent), MacroImplementationModel { parameters: Seq::empty(), ..v });
    let after = children_of(ops.push(op))->Ok_0.macro_implementations;
    assert(after.remove(parent) =~= before.remove(parent));
}

/// The row of a parameter of a macro joins the rows of its parent, and no others.
pub proof fn macro_parameter_rows_join_their_parent(
    ops: Seq<RowModel>,
    parent: u64,
    impl_id: u64,
    v: MacroParameterModel,
)
    requires
        children_of(ops) is Ok,
    ensures
        match children_of(
            ops.push(
                RowModel::Insert {
                    table: TableKind::MacroParameters,
                    cells: seq![
                        CellModel::U64(parent),
                        CellModel::U64(impl_id),
                        CellModel::U64(v.column_id),
                        CellModel::Str(v.parameter_name),
                        CellModel::Str(v.parameter_type),
                        text_cell(v.default_value),
                        text_cell(v.default_value_type),
                    ],
                },
            ),
        ) {
            Ok(c) => one_more(children_of(ops)->Ok_0.macro_parameters, c.macro_parameters, (parent, impl_id), v) && c == (
            ChildModel { macro_parameters: c.macro_parameters, ..children_of(ops)->Ok_0 }),
            Err(_) => false,
        },
{
    let cells = seq![
        CellModel::U64(parent),
        CellModel::U64(impl_id),
        CellModel::U64(v.column_id),
        CellModel::Str(v.parameter_name),
        CellModel::Str(v.parameter_type),
        text_cell(v.default_value),
        text_cell(v.default_value_type),
    ];
    let op = RowModel::Insert { table: TableKind::MacroParameters, cells };
    let before = children_of(ops)->Ok_0.macro_parameters;
    fitting_cells_are_accepted(TableKind::MacroParameters, columns_in(TableKind::MacroParameters), cells);
    assert(ops.push(op).drop_last() =~= ops);
    children_come_in_order(ops);
    placing_keeps_order::<MacroParameter>(group(before, (parent, impl_id)), v);
    let after = children_of(ops.push(op))->Ok_0.macro_parameters;
    assert(after.remove((parent, impl_id)) =~= before.remove((parent, impl_id)));
}

/// The row of a name of a column mapping joins the rows of its parent, and no others.
pub proof fn name_mapping_rows_join_their_parent(
    ops: Seq<RowModel>,
    parent: u64,
    v: NameMappingModel,
)
    requires
        children_of(ops) is Ok,
    ensures
        match children_of(
            ops.push(
                RowModel::Insert {
                    table: TableKind::NameMapping,
                    cells: seq![
                        CellModel::U64(parent),
                        CellModel::U64(v.column_id),
                        CellModel::Str(v.source_name),
                        CellModel::U64(v.target_field_id),
                        number_cell(v.parent_column),
                        CellModel::Bool(v.is_partition),
                    ],
                },
            ),
        ) {
            Ok(c) => one_more(children_of(ops)->Ok_0.name_mappings, c.name_mappings, parent, v) && c == (
            ChildModel { name_mappings: c.name_mappings, ..children_of(ops)->Ok_0 }),
            Err(_) => false,
        },
{
    let cells = seq![
        CellModel::U64(parent),
        CellModel::U64(v.column_id),
        CellModel::Str(v.source_name),
        CellModel::U64(v.target_field_id),
        number_cell(v.parent_column),
        CellModel::Bool(v.is_partition),
    ];
    let op = RowModel::Insert { table: TableKind::NameMapping, cells };
    let before = children_of(ops)->Ok_0.name_mappings;
    fitting_cells_are_accepted(TableKind::NameMapping, columns_in(TableKind::NameMapping), cells);
    assert(ops.push(op).drop_last() =~= ops);
    children_come_in_order(ops);
    placing_keeps_order::<NameMapping>(group(before, parent), v);
    let after = children_of(ops.push(op))->Ok_0.name_mappings;
    assert(after.remove(parent) =~= before.remove(parent));
}

// ---------------------------------------------------------------------------
// The snapshot
// ---------------------------------------------------------------------------

/// The row of a snapshot.
pub open spec fn snapshot_cells(s: SnapshotModel) -> Seq<CellModel> {
    seq![
        CellModel::U64(s.snapshot_id),
        CellModel::I64(s.snapshot_time_micros),
        CellModel::U64(s.schema_version),
        CellModel::U64(s.next_catalog_id),
        CellModel::U64(s.next_file_id),
    ]
}

/// The row of a snapshot's changes.
pub open spec fn snapshot_changes_cells(s: SnapshotModel) -> Seq<CellModel> {
    seq![
        CellModel::U64(s.snapshot_id),
        CellModel::Str(s.changes_made),
        text_cell(s.author),
        text_cell(s.commit_message),
        text_cell(s.commit_extra_info),
    ]
}

/// Whether an operation inserts a row into a table.
pub open spec fn inserts_into(op: RowModel, table: TableKind) -> bool {
    op is Insert && op->Insert_table == table
}

proof fn only_inserts_are_last(ops: Seq<RowModel>, table: TableKind, i: int)
    requires
        0 <= i < ops.len(),
        inserts_into(ops[i], table),
        forall|k: int| i < k < ops.len() ==> !inserts_into(#[trigger] ops[k], table),
    ensures
        last_insert(ops, table) == Some(ops[i]->Insert_cells),
    decreases ops.len(),
{
    if i < ops.len() - 1 {
        let front = ops.drop_last();
        assert(!inserts_into(ops[ops.len() - 1], table));
        assert forall|k: int| i < k < front.len() implies !inserts_into(#[trigger] front[k], table) by {
            assert(front[k] == ops[k]);
        }
        assert(front[i] == ops[i]);
        only_inserts_are_last(front, table, i);
    }
}

proof fn reshaped_tables_are_named(
    ops: Seq<RowModel>,
    snapshot_id: u64,
    schema_version: u64,
    table_id: u64,
)
    requires
        reshaped_tables(ops, snapshot_id, schema_version) is Ok,
    ensures
        reshaped_tables(ops, snapshot_id, schema_version)->Ok_0.contains(table_id) <==> exists|k: int|
            0 <= k < ops.len() && #[trigger] ops[k] == (RowModel::Insert {
                table: TableKind::SchemaVersions,
                cells: seq![
                    CellModel::U64(snapshot_id),
                    CellModel::U64(schema_version),
                    CellModel::U64(table_id),
                ],
            }),
    decreases ops.len(),
{
    let row = RowModel::Insert {
        table: TableKind::SchemaVersions,
        cells: seq![
            CellModel::U64(snapshot_id),
            CellModel::U64(schema_version),
            CellModel::U64(table_id),
        ],
    };
    if ops.len() > 0 {
        let front = ops.drop_last();
        reshaped_tables_are_named(front, snapshot_id, schema_version, table_id);
        let ids = reshaped_tables(front, snapshot_id, schema_version)->Ok_0;
        let all = reshaped_tables(ops, snapshot_id, schema_version)->Ok_0;
        if inserts_into(ops.last(), TableKind::SchemaVersions) {
            let cells = ops.last()->Insert_cells;
            leading_cells_fit(
                TableKind::SchemaVersions,
                columns_in(TableKind::SchemaVersions),
                cells,
            );
            assert(columns_in(TableKind::SchemaVersions).len() == 3);
            assert(meets(cells[0], Want::Number));
            assert(meets(cells[1], Want::Number));
            assert(meets(cells[2], Want::Number));
            assert(cells =~= seq![cells[0], cells[1], cells[2]]);
            assert(all == ids.push(number(cells[2])));
            assert(all[ids.len() as int] == number(cells[2]));
            if number(cells[2]) == table_id {
                assert(cells =~= row->Insert_cells);
                assert(ops[ops.len() - 1] == row);
            }
        } else {
            assert(all == ids);
        }
        if ids.contains(table_id) {
            let i = choose|i: int| 0 <= i < ids.len() && ids[i] == table_id;
            assert(all[i] == table_id);
            let k = choose|k: int| 0 <= k < front.len() && #[trigger] front[k] == row;
            assert(ops[k] == row);
        }
        if exists|k: int| 0 <= k < ops.len() && #[trigger] ops[k] == row {
            let k = choose|k: int| 0 <= k < ops.len() && #[trigger] ops[k] == row;
            if k < front.len() {
                assert(front[k] == row);
            } else {
                assert(all[ids.len() as int] == table_id);
            }
        }
        if all.contains(table_id) && !ids.contains(table_id) {
            let i = choose|i: int| 0 <= i < all.len() && all[i] == table_id;
            if i < ids.len() {
                assert(ids[i] == table_id);
            }
        }
    }
}

/// The snapshot that a commit of staged rows leads to is the one that its rows
/// spell out, and lists the tables of its rows of schema versions.
pub proof fn snapshot_rows_read_back(ops: Seq<RowModel>, s: SnapshotModel, i: int, j: int, table_id: u64)
    requires
        0 <= i < ops.len(),
        0 <= j < ops.len(),
        ops[i] == (RowModel::Insert { table: TableKind::Snapshot, cells: snapshot_cells(s) }),
        ops[j] == (RowModel::Insert {
            table: TableKind::SnapshotChanges,
            cells: snapshot_changes_cells(s),
        }),
        forall|k: int|
            0 <= k < ops.len() && k != i ==> !inserts_into(#[trigger] ops[k], TableKind::Snapshot),
        forall|k: int|
            0 <= k < ops.len() && k != j ==> !inserts_into(
                #[trigger] ops[k],
                TableKind::SnapshotChanges,
            ),
    ensures
        match snapshot_of(ops) {
            Ok(made) => {
                &&& made == (SnapshotModel {
                    next_deletion_id: 0,
                    schema_changed_table_ids: made.schema_changed_table_ids,
                    ..s
                })
                &&& made.schema_changed_table_ids.contains(table_id) <==> exists|k: int|
                    0 <= k < ops.len() && #[trigger] ops[k] == (RowModel::Insert {
                        table: TableKind::SchemaVersions,
                        cells: seq![
                            CellModel::U64(s.snapshot_id),
                            CellModel::U64(s.schema_version),
                            CellModel::U64(table_id),
                        ],
                    })
            },
            Err(_) => reshaped_tables(ops, s.snapshot_id, s.schema_version) is Err,
        },
{
    only_inserts_are_last(ops, TableKind::Snapshot, i);
    only_inserts_are_last(ops, TableKind::SnapshotChanges, j);
    fitting_cells_are_accepted(
        TableKind::Snapshot,
        columns_in(TableKind::Snapshot),
        snapshot_cells(s),
    );
    fitting_cells_are_accepted(
        TableKind::SnapshotChanges,
        columns_in(TableKind::SnapshotChanges),
        snapshot_changes_cells(s),
    );
    if reshaped_tables(ops, s.snapshot_id, s.schema_version) is Ok {
        reshaped_tables_are_named(ops, s.snapshot_id, s.schema_version, table_id);
    }
}

// ---------------------------------------------------------------------------
// Rows that go with others
// ---------------------------------------------------------------------------

/// A child row that is deleted changes nothing, for it goes with its parent: the
/// deletion is refused while the parent lives.
pub proof fn child_deletes_go_with_the_parent(
    base: CatalogModel,
    w: WorkModel,
    parent: u64,
    table_id: u64,
    more: Seq<CellModel>,
    new_id: u64,
)
    ensures
        goes_with_parent(
            base,
            w,
            RowModel::Delete { table: TableKind::PartitionColumn, cells: seq![CellModel::U64(parent), CellModel::U64(table_id)] + more },
            new_id,
            w.state.partitions.contains_key((table_id, parent)),
        ),
        goes_with_parent(
            base,
            w,
            RowModel::Delete { table: TableKind::SortExpression, cells: seq![CellModel::U64(parent), CellModel::U64(table_id)] + more },
            new_id,
            w.state.sorts.contains_key((table_id, parent)),
        ),
        goes_with_parent(
            base,
            w,
            RowModel::Delete { table: TableKind::FilePartitionValue, cells: seq![CellModel::U64(parent), CellModel::U64(table_id)] + more },
            new_id,
            w.state.data_files.contains_key((table_id, parent)),
        ),
        goes_with_parent(
            base,
            w,
            RowModel::Delete { table: TableKind::MacroImpl, cells: seq![CellModel::U64(parent)] + more },
            new_id,
            w.state.macros.contains_key(parent),
        ),
        goes_with_parent(
            base,
            w,
            RowModel::Delete { table: TableKind::MacroParameters, cells: seq![CellModel::U64(parent)] + more },
            new_id,
            w.state.macros.contains_key(parent),
        ),
        goes_with_parent(
            base,
            w,
            RowModel::Delete { table: TableKind::NameMapping, cells: seq![CellModel::U64(parent)] + more },
            new_id,
            (exists|t: u64| #[trigger] w.state.mappings.contains_key((t, parent))),
        ),
{
    let two = seq![CellModel::U64(parent), CellModel::U64(table_id)] + more;
    let one = seq![CellModel::U64(parent)] + more;
    leading_fit(
        TableKind::PartitionColumn,
        seq![Want::Number, Want::Number],
        two,
    );
    leading_fit(
        TableKind::SortExpression,
        seq![Want::Number, Want::Number],
        two,
    );
    leading_fit(
        TableKind::FilePartitionValue,
        seq![Want::Number, Want::Number],
        two,
    );
    leading_fit(
        TableKind::MacroImpl,
        seq![Want::Number],
        one,
    );
    leading_fit(
        TableKind::MacroParameters,
        seq![Want::Number],
        one,
    );
    leading_fit(
        TableKind::NameMapping,
        seq![Want::Number],
        one,
    );
    if exists|k: (u64, u64)| #[trigger] w.state.mappings.contains_key(k) && k.1 == parent {
        let k = choose|k: (u64, u64)| #[trigger] w.state.mappings.contains_key(k) && k.1 == parent;
        assert(w.state.mappings.contains_key((k.0, parent)));
    }
    if exists|t: u64| #[trigger] w.state.mappings.contains_key((t, parent)) {
        let t = choose|t: u64| #[trigger] w.state.mappings.contains_key((t, parent));
        assert(w.state.mappings.contains_key((t, parent)));
    }
}

/// Whether a row is refused while its parent lives, and changes nothing where it
/// does not.
pub open spec fn goes_with_parent(
    base: CatalogModel,
    w: WorkModel,
    op: RowModel,
    new_id: u64,
    parent_lives: bool,
) -> bool {
    if parent_lives {
        applied(base, w, op, new_id) is Err
    } else {
        applied(base, w, op, new_id) == Ok::<WorkModel, Fault>(w)
    }
}

/// Rows of a snapshot's changes and of schema versions that are deleted change
/// nothing: they go with their snapshot.
pub proof fn snapshot_details_go_with_the_snapshot(
    base: CatalogModel,
    w: WorkModel,
    a: u64,
    b: u64,
    c: u64,
    new_id: u64,
)
    ensures
        applied(
            base,
            w,
            RowModel::Delete { table: TableKind::SnapshotChanges, cells: seq![CellModel::U64(a)] },
            new_id,
        ) == Ok::<WorkModel, Fault>(w),
        applied(
            base,
            w,
            RowModel::Delete {
                table: TableKind::SchemaVersions,
                cells: seq![CellModel::U64(a), CellModel::U64(b), CellModel::U64(c)],
            },
            new_id,
        ) == Ok::<WorkModel, Fault>(w),
{
    fitting_cells_are_accepted(
        TableKind::SnapshotChanges,
        seq![Want::Number],
        seq![CellModel::U64(a)],
    );
    fitting_cells_are_accepted(
        TableKind::SchemaVersions,
        seq![Want::Number, Want::Number, Want::Number],
        seq![CellModel::U64(a), CellModel::U64(b), CellModel::U64(c)],
    );
}

/// Rows that other rows fold in, and those of snapshots, change no record by
/// themselves.
pub proof fn folded_rows_change_nothing(
    base: CatalogModel,
    w: WorkModel,
    cells: Seq<CellModel>,
    new_id: u64,
)
    ensures
        applied(base, w, RowModel::Insert { table: TableKind::Snapshot, cells }, new_id) == Ok::<
            WorkModel,
            Fault,
        >(w),
        applied(base, w, RowModel::Insert { table: TableKind::SnapshotChanges, cells }, new_id) == Ok::<
            WorkModel,
            Fault,
        >(w),
        applied(base, w, RowModel::Insert { table: TableKind::SchemaVersions, cells }, new_id) == Ok::<
            WorkModel,
            Fault,
        >(w),
        applied(base, w, RowModel::Insert { table: TableKind::PartitionColumn, cells }, new_id) == Ok::<
            WorkModel,
            Fault,
        >(w),
        applied(base, w, RowModel::Insert { table: TableKind::SortExpression, cells }, new_id) == Ok::<
            WorkModel,
            Fault,
        >(w),
        applied(base, w, RowModel::Insert { table: TableKind::FilePartitionValue, cells }, new_id) == Ok::<
            WorkModel,
            Fault,
        >(w),
        applied(base, w, RowModel::Insert { table: TableKind::MacroImpl, cells }, new_id) == Ok::<
            WorkModel,
            Fault,
        >(w),
        applied(base, w, RowModel::Insert { table: TableKind::MacroParameters, cells }, new_id) == Ok::<
            WorkModel,
            Fault,
        >(w),
        applied(base, w, RowModel::Insert { table: TableKind::NameMapping, cells }, new_id) == Ok::<
            WorkModel,
            Fault,
        >(w),
{
}

// ---------------------------------------------------------------------------
// Rows that are refused
// ---------------------------------------------------------------------------

/// How many cells a row of a table has.
pub open spec fn width_of(table: TableKind) -> nat {
    match table {
        TableKind::Snapshot => 5,
        TableKind::SnapshotChanges => 5,
        TableKind::Schema => 7,
        TableKind::Table => 8,
        TableKind::View => 9,
        TableKind::Column => 13,
        TableKind::DataFile => 16,
        TableKind::DeleteFile => 13,
        TableKind::TableStats => 4,
        TableKind::TableColumnStats => 7,
        TableKind::FileColumnStats => 10,
        TableKind::SchemaVersions => 3,
        TableKind::PartitionInfo => 4,
        TableKind::PartitionColumn => 5,
        TableKind::FilePartitionValue => 4,
        TableKind::SortInfo => 4,
        TableKind::SortExpression => 7,
        TableKind::Tag => 5,
        TableKind::ColumnTag => 6,
        TableKind::FilesScheduledForDeletion => 4,
        TableKind::Macro => 5,
        TableKind::MacroImpl => 5,
        TableKind::MacroParameters => 7,
        TableKind::ColumnMapping => 3,
        TableKind::NameMapping => 6,
    }
}

/// Whether a cell of a table's row may be NULL.
pub open spec fn nullable(table: TableKind, i: int) -> bool {
    match table {
        TableKind::SnapshotChanges => i == 2 || i == 3 || i == 4,
        TableKind::Schema => i == 3,
        TableKind::Table => i == 3,
        TableKind::View => i == 3 || i == 8,
        TableKind::Column => i == 2 || i == 7 || i == 8 || i == 10 || i == 11 || i == 12,
        TableKind::DataFile => i == 3 || i == 4 || i == 11 || i == 12 || i == 13 || i == 14 || i == 15,
        TableKind::DeleteFile => i == 3 || i == 11 || i == 12,
        TableKind::TableColumnStats => i == 2 || i == 3 || i == 4 || i == 5 || i == 6,
        TableKind::FileColumnStats => i == 6 || i == 7 || i == 8 || i == 9,
        TableKind::PartitionInfo => i == 3,
        TableKind::FilePartitionValue => i == 3,
        TableKind::SortInfo => i == 3,
        TableKind::Tag => i == 2,
        TableKind::ColumnTag => i == 3,
        TableKind::Macro => i == 4,
        TableKind::MacroParameters => i == 5 || i == 6,
        TableKind::NameMapping => i == 4,
        _ => false,
    }
}

/// A row with too few cells or too many is refused, and so is one with a NULL
/// where none may be.
pub proof fn ill_shaped_rows_are_refused(table: TableKind, cells: Seq<CellModel>, i: int)
    ensures
        cells.len() != width_of(table) ==> insert_refusal(table, cells) is Some,
        0 <= i < cells.len() && cells[i] is Null && !nullable(table, i) ==> insert_refusal(
            table,
            cells,
        ) is Some,
{
    let shape = columns_in(table);
    if insert_refusal(table, cells) is None {
        leading_cells_fit(table, shape, cells);
        if 0 <= i < shape.len() {
            assert(meets(cells[i], shape[i]));
        }
    }
}

/// A cell is taken for what it is: a number, a signed number, a flag or a text is
/// none of the others, and NULL is taken where it may be.
pub proof fn cells_are_taken_for_what_they_are(cell: CellModel)
    ensures
        meets(cell, Want::Number) || meets(cell, Want::NumberOrNull) && !(cell is Null)
            ==> cell is U64,
        meets(cell, Want::Signed) ==> cell is I64,
        meets(cell, Want::Flag) || meets(cell, Want::FlagOrNull) && !(cell is Null)
            ==> cell is Bool,
        meets(cell, Want::Text) || meets(cell, Want::TextOrNull) && !(cell is Null)
            ==> cell is Str,
{
}

/// A refused row changes nothing, whatever table it is for.
pub proof fn refused_rows_are_not_applied(
    base: CatalogModel,
    w: WorkModel,
    table: TableKind,
    cells: Seq<CellModel>,
    new_id: u64,
)
    requires
        insert_refusal(table, cells) is Some,
        !(table == TableKind::Snapshot || table == TableKind::SnapshotChanges || table
            == TableKind::SchemaVersions || table == TableKind::PartitionColumn || table
            == TableKind::SortExpression || table == TableKind::FilePartitionValue || table
            == TableKind::MacroImpl || table == TableKind::MacroParameters || table
            == TableKind::NameMapping),
    ensures
        applied(base, w, RowModel::Insert { table, cells }, new_id) == Err::<WorkModel, Fault>(
            insert_refusal(table, cells)->0,
        ),
{
}

/// Whether a row names a table under a version of a snapshot.
pub open spec fn names_version(op: RowModel, snapshot_id: u64, schema_version: u64) -> bool {
    let cells = op->Insert_cells;
    &&& inserts_into(op, TableKind::SchemaVersions)
    &&& cells.len() == 3
    &&& cells[0] == CellModel::U64(snapshot_id)
    &&& cells[1] == CellModel::U64(schema_version)
    &&& cells[2] is U64
}

/// A row of schema versions that is not of the commit's own snapshot and version
/// is refused, and nothing else is.
pub proof fn stray_versions_are_refused(ops: Seq<RowModel>, snapshot_id: u64, schema_version: u64)
    ensures
        reshaped_tables(ops, snapshot_id, schema_version) is Err <==> exists|k: int|
            0 <= k < ops.len() && inserts_into(#[trigger] ops[k], TableKind::SchemaVersions)
                && !names_version(ops[k], snapshot_id, schema_version),
    decreases ops.len(),
{
    if ops.len() > 0 {
        let front = ops.drop_last();
        let n = ops.len() - 1;
        stray_versions_are_refused(front, snapshot_id, schema_version);
        assert forall|k: int| 0 <= k < front.len() implies #[trigger] front[k] == ops[k] by {}
        if reshaped_tables(front, snapshot_id, schema_version) is Err {
            let k = choose|k: int|
                0 <= k < front.len() && inserts_into(
                    #[trigger] front[k],
                    TableKind::SchemaVersions,
                ) && !names_version(front[k], snapshot_id, schema_version);
            assert(ops[k] == front[k]);
        } else {
            assert forall|k: int|
                0 <= k < n && inserts_into(
                    #[trigger] ops[k],
                    TableKind::SchemaVersions,
                ) implies names_version(ops[k], snapshot_id, schema_version) by {
                assert(front[k] == ops[k]);
            }
            if inserts_into(ops[n], TableKind::SchemaVersions) {
                versions_are_compared(ops[n], snapshot_id, schema_version);
                if names_version(ops[n], snapshot_id, schema_version) {
                    assert(reshaped_tables(ops, snapshot_id, schema_version) is Ok);
                } else {
                    assert(reshaped_tables(ops, snapshot_id, schema_version) is Err);
                }
            } else {
                assert(reshaped_tables(ops, snapshot_id, schema_version) is Ok);
            }
        }
    }
}

proof fn versions_are_compared(op: RowModel, snapshot_id: u64, schema_version: u64)
    requires
        inserts_into(op, TableKind::SchemaVersions),
    ensures
        versions_refusal(op->Insert_cells, snapshot_id, schema_version) is None <==> names_version(
            op,
            snapshot_id,
            schema_version,
        ),
{
    let shape = columns_in(TableKind::SchemaVersions);
    let cells = op->Insert_cells;
    if names_version(op, snapshot_id, schema_version) {
        fitting_cells_are_accepted(TableKind::SchemaVersions, shape, cells);
    } else if insert_refusal(TableKind::SchemaVersions, cells) is None {
        leading_cells_fit(TableKind::SchemaVersions, shape, cells);
        assert(meets(cells[0], shape[0]));
        assert(meets(cells[1], shape[1]));
        assert(meets(cells[2], shape[2]));
    }
}

proof fn nothing_is_inserted(ops: Seq<RowModel>, table: TableKind)
    requires
        forall|k: int| 0 <= k < ops.len() ==> !inserts_into(#[trigger] ops[k], table),
    ensures
        last_insert(ops, table) is None,
    decreases ops.len(),
{
    if ops.len() > 0 {
        let front = ops.drop_last();
        assert(!inserts_into(ops[ops.len() - 1], table));
        assert forall|k: int| 0 <= k < front.len() implies !inserts_into(#[trigger] front[k], table) by {
            assert(front[k] == ops[k]);
        }
        nothing_is_inserted(front, table);
    }
}

/// A commit of rows needs the row of its snapshot and that of what changed, and
/// the two must be of one snapshot.
pub proof fn snapshots_need_both_rows(
    ops: Seq<RowModel>,
    s: SnapshotModel,
    c: SnapshotModel,
    i: int,
    j: int,
)
    ensures
        (forall|k: int| 0 <= k < ops.len() ==> !inserts_into(#[trigger] ops[k], TableKind::Snapshot))
            ==> snapshot_of(ops) is Err && snapshot_of(ops)->Err_0 is Constraint,
        (forall|k: int|
            0 <= k < ops.len() ==> !inserts_into(#[trigger] ops[k], TableKind::SnapshotChanges))
            ==> snapshot_of(ops) is Err && snapshot_of(ops)->Err_0 is Constraint,
        0 <= i < ops.len() && 0 <= j < ops.len() && ops[i] == (RowModel::Insert {
            table: TableKind::Snapshot,
            cells: snapshot_cells(s),
        }) && ops[j] == (RowModel::Insert {
            table: TableKind::SnapshotChanges,
            cells: snapshot_changes_cells(c),
        }) && s.snapshot_id != c.snapshot_id && (forall|k: int|
            i < k < ops.len() ==> !inserts_into(#[trigger] ops[k], TableKind::Snapshot)) && (forall|
            k: int,
        |
            j < k < ops.len() ==> !inserts_into(#[trigger] ops[k], TableKind::SnapshotChanges))
            ==> snapshot_of(ops) is Err && snapshot_of(ops)->Err_0 is Corruption,
{
    if forall|k: int| 0 <= k < ops.len() ==> !inserts_into(#[trigger] ops[k], TableKind::Snapshot) {
        nothing_is_inserted(ops, TableKind::Snapshot);
    }
    if forall|k: int|
        0 <= k < ops.len() ==> !inserts_into(#[trigger] ops[k], TableKind::SnapshotChanges) {
        nothing_is_inserted(ops, TableKind::SnapshotChanges);
    }
    if 0 <= i < ops.len() && 0 <= j < ops.len() && ops[i] == (RowModel::Insert {
        table: TableKind::Snapshot,
        cells: snapshot_cells(s),
    }) && ops[j] == (RowModel::Insert {
        table: TableKind::SnapshotChanges,
        cells: snapshot_changes_cells(c),
    }) && s.snapshot_id != c.snapshot_id && (forall|k: int|
        i < k < ops.len() ==> !inserts_into(#[trigger] ops[k], TableKind::Snapshot)) && (forall|
        k: int,
    |
        j < k < ops.len() ==> !inserts_into(#[trigger] ops[k], TableKind::SnapshotChanges)) {
        only_inserts_are_last(ops, TableKind::Snapshot, i);
        only_inserts_are_last(ops, TableKind::SnapshotChanges, j);
        fitting_cells_are_accepted(
            TableKind::Snapshot,
            columns_in(TableKind::Snapshot),
            snapshot_cells(s),
        );
        fitting_cells_are_accepted(
            TableKind::SnapshotChanges,
            columns_in(TableKind::SnapshotChanges),
            snapshot_changes_cells(c),
        );
    }
}

} // verus!
