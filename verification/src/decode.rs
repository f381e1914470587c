//! What the cells of a staged row say, table by table.
use crate::catalog::{CatalogModel, CatalogSnapshot};
use crate::error::{refused, wrapped, text_wrapped, Error, Fault};
use crate::keys::EntityKey;
use crate::records::{
    ColumnModel, ColumnValue, DataFileModel, DataFileValue, DeleteFileModel, DeleteFileValue,
    FileColumnStatsModel, FileColumnStatsValue, FilePartitionValue, FilePartitionValueModel,
    GcFileModel, GcFileValue, MacroImplementation, MacroImplementationModel, MacroModel,
    MacroParameter, MacroParameterModel, MacroValue, MappingModel, MappingValue, NameMapping,
    NameMappingModel, PartitionColumn, PartitionColumnModel, PartitionModel, PartitionValue,
    SchemaModel, SchemaValue, SortExpression, SortExpressionModel, SortModel, SortValue,
    TableColumnStatsModel, TableColumnStatsValue, TableModel, TableStatsModel, TableStatsValue,
    TableValue, TagEntry, TagEntryModel, ViewModel, ViewValue,
};
use crate::rows::{
    Cell, CellModel, TableKind, Want, check_row, corrupt, flag, flag_if, flag_if_any, flag_of,
    kind_name, kind_text, number, number_if, number_if_any, number_of, row_refusal, signed,
    signed_of, text, text_if, text_if_any, text_of,
};
use vstd::prelude::*;

verus! {

/// The columns of a table, in order.
pub open spec fn columns_in(table: TableKind) -> Seq<Want> {
    match table {
        TableKind::Snapshot => seq![
            Want::Number,
            Want::Signed,
            Want::Number,
            Want::Number,
            Want::Number,
        ],
        TableKind::SnapshotChanges => seq![
            Want::Number,
            Want::Text,
            Want::TextOrNull,
            Want::TextOrNull,
            Want::TextOrNull,
        ],
        TableKind::Schema => seq![
            Want::Number,
            Want::Text,
            Want::Number,
            Want::NumberOrNull,
            Want::Text,
            Want::Text,
            Want::Flag,
        ],
        TableKind::Table => seq![
            Want::Number,
            Want::Text,
            Want::Number,
            Want::NumberOrNull,
            Want::Number,
            Want::Text,
            Want::Text,
            Want::Flag,
        ],
        TableKind::View => seq![
            Want::Number,
            Want::Text,
            Want::Number,
            Want::NumberOrNull,
            Want::Number,
            Want::Text,
            Want::Text,
            Want::Text,
            Want::TextOrNull,
        ],
        TableKind::Column => seq![
            Want::Number,
            Want::Number,
            Want::NumberOrNull,
            Want::Number,
            Want::Number,
            Want::Text,
            Want::Text,
            Want::TextOrNull,
            Want::TextOrNull,
            Want::Flag,
            Want::NumberOrNull,
            Want::TextOrNull,
            Want::TextOrNull,
        ],
        TableKind::DataFile => seq![
            Want::Number,
            Want::Number,
            Want::Number,
            Want::NumberOrNull,
            Want::NumberOrNull,
            Want::Text,
            Want::Flag,
            Want::Text,
            Want::Number,
            Want::Number,
            Want::Number,
            Want::NumberOrNull,
            Want::NumberOrNull,
            Want::TextOrNull,
            Want::NumberOrNull,
            Want::NumberOrNull,
        ],
        TableKind::DeleteFile => seq![
            Want::Number,
            Want::Number,
            Want::Number,
            Want::NumberOrNull,
            Want::Number,
            Want::Text,
            Want::Flag,
            Want::Text,
            Want::Number,
            Want::Number,
            Want::Number,
            Want::TextOrNull,
            Want::NumberOrNull,
        ],
        TableKind::TableStats => seq![
            Want::Number,
            Want::Number,
            Want::Number,
            Want::Number,
        ],
        TableKind::TableColumnStats => seq![
            Want::Number,
            Want::Number,
            Want::FlagOrNull,
            Want::FlagOrNull,
            Want::TextOrNull,
            Want::TextOrNull,
            Want::TextOrNull,
        ],
        TableKind::FileColumnStats => seq![
            Want::Number,
            Want::Number,
            Want::Number,
            Want::Number,
            Want::Number,
            Want::Number,
            Want::TextOrNull,
            Want::TextOrNull,
            Want::FlagOrNull,
            Want::TextOrNull,
        ],
        TableKind::SchemaVersions => seq![
            Want::Number,
            Want::Number,
            Want::Number,
        ],
        TableKind::PartitionInfo => seq![
            Want::Number,
            Want::Number,
            Want::Number,
            Want::NumberOrNull,
        ],
        TableKind::PartitionColumn => seq![
            Want::Number,
            Want::Number,
            Want::Number,
            Want::Number,
            Want::Text,
        ],
        TableKind::FilePartitionValue => seq![
            Want::Number,
            Want::Number,
            Want::Number,
            Want::TextOrNull,
        ],
        TableKind::SortInfo => seq![
            Want::Number,
            Want::Number,
            Want::Number,
            Want::NumberOrNull,
        ],
        TableKind::SortExpression => seq![
            Want::Number,
            Want::Number,
            Want::Number,
            Want::Text,
            Want::Text,
            Want::Text,
            Want::Text,
        ],
        TableKind::Tag => seq![
            Want::Number,
            Want::Number,
            Want::NumberOrNull,
            Want::Text,
            Want::Text,
        ],
        TableKind::ColumnTag => seq![
            Want::Number,
            Want::Number,
            Want::Number,
            Want::NumberOrNull,
            Want::Text,
            Want::Text,
        ],
        TableKind::FilesScheduledForDeletion => seq![
            Want::Number,
            Want::Text,
            Want::Flag,
            Want::Signed,
        ],
        TableKind::Macro => seq![
            Want::Number,
            Want::Number,
            Want::Text,
            Want::Number,
            Want::NumberOrNull,
        ],
        TableKind::MacroImpl => seq![
            Want::Number,
            Want::Number,
            Want::Text,
            Want::Text,
            Want::Text,
        ],
        TableKind::MacroParameters => seq![
            Want::Number,
            Want::Number,
            Want::Number,
            Want::Text,
            Want::Text,
            Want::TextOrNull,
            Want::TextOrNull,
        ],
        TableKind::ColumnMapping => seq![
            Want::Number,
            Want::Number,
            Want::Text,
        ],
        TableKind::NameMapping => seq![
            Want::Number,
            Want::Number,
            Want::Text,
            Want::Number,
            Want::NumberOrNull,
            Want::Flag,
        ],
    }
}

pub fn columns_of_row(table: TableKind) -> (shape: Vec<Want>)
    ensures
        shape@ == columns_in(table),
{
    let shape: Vec<Want> = match table {
        TableKind::Snapshot => vec![
            Want::Number,
            Want::Signed,
            Want::Number,
            Want::Number,
            Want::Number,
        ],
        TableKind::SnapshotChanges => vec![
            Want::Number,
            Want::Text,
            Want::TextOrNull,
            Want::TextOrNull,
            Want::TextOrNull,
        ],
        TableKind::Schema => vec![
            Want::Number,
            Want::Text,
            Want::Number,
            Want::NumberOrNull,
            Want::Text,
            Want::Text,
            Want::Flag,
        ],
        TableKind::Table => vec![
            Want::Number,
            Want::Text,
            Want::Number,
            Want::NumberOrNull,
            Want::Number,
            Want::Text,
            Want::Text,
            Want::Flag,
        ],
        TableKind::View => vec![
            Want::Number,
            Want::Text,
            Want::Number,
            Want::NumberOrNull,
            Want::Number,
            Want::Text,
            Want::Text,
            Want::Text,
            Want::TextOrNull,
        ],
        TableKind::Column => vec![
            Want::Number,
            Want::Number,
            Want::NumberOrNull,
            Want::Number,
            Want::Number,
            Want::Text,
            Want::Text,
            Want::TextOrNull,
            Want::TextOrNull,
            Want::Flag,
            Want::NumberOrNull,
            Want::TextOrNull,
            Want::TextOrNull,
        ],
        TableKind::DataFile => vec![
            Want::Number,
            Want::Number,
            Want::Number,
            Want::NumberOrNull,
            Want::NumberOrNull,
            Want::Text,
            Want::Flag,
            Want::Text,
            Want::Number,
            Want::Number,
            Want::Number,
            Want::NumberOrNull,
            Want::NumberOrNull,
            Want::TextOrNull,
            Want::NumberOrNull,
            Want::NumberOrNull,
        ],
        TableKind::DeleteFile => vec![
            Want::Number,
            Want::Number,
            Want::Number,
            Want::NumberOrNull,
            Want::Number,
            Want::Text,
            Want::Flag,
            Want::Text,
            Want::Number,
            Want::Number,
            Want::Number,
            Want::TextOrNull,
            Want::NumberOrNull,
        ],
        TableKind::TableStats => vec![
            Want::Number,
            Want::Number,
            Want::Number,
            Want::Number,
        ],
        TableKind::TableColumnStats => vec![
            Want::Number,
            Want::Number,
            Want::FlagOrNull,
            Want::FlagOrNull,
            Want::TextOrNull,
            Want::TextOrNull,
            Want::TextOrNull,
        ],
        TableKind::FileColumnStats => vec![
            Want::Number,
            Want::Number,
            Want::Number,
            Want::Number,
            Want::Number,
            Want::Number,
            Want::TextOrNull,
            Want::TextOrNull,
            Want::FlagOrNull,
            Want::TextOrNull,
        ],
        TableKind::SchemaVersions => vec![
            Want::Number,
            Want::Number,
            Want::Number,
        ],
        TableKind::PartitionInfo => vec![
            Want::Number,
            Want::Number,
            Want::Number,
            Want::NumberOrNull,
        ],
        TableKind::PartitionColumn => vec![
            Want::Number,
            Want::Number,
            Want::Number,
            Want::Number,
            Want::Text,
        ],
        TableKind::FilePartitionValue => vec![
            Want::Number,
            Want::Number,
            Want::Number,
            Want::TextOrNull,
        ],
        TableKind::SortInfo => vec![
            Want::Number,
            Want::Number,
            Want::Number,
            Want::NumberOrNull,
        ],
        TableKind::SortExpression => vec![
            Want::Number,
            Want::Number,
            Want::Number,
            Want::Text,
            Want::Text,
            Want::Text,
            Want::Text,
        ],
        TableKind::Tag => vec![
            Want::Number,
            Want::Number,
            Want::NumberOrNull,
            Want::Text,
            Want::Text,
        ],
        TableKind::ColumnTag => vec![
            Want::Number,
            Want::Number,
            Want::Number,
            Want::NumberOrNull,
            Want::Text,
            Want::Text,
        ],
        TableKind::FilesScheduledForDeletion => vec![
            Want::Number,
            Want::Text,
            Want::Flag,
            Want::Signed,
        ],
        TableKind::Macro => vec![
            Want::Number,
            Want::Number,
            Want::Text,
            Want::Number,
            Want::NumberOrNull,
        ],
        TableKind::MacroImpl => vec![
            Want::Number,
            Want::Number,
            Want::Text,
            Want::Text,
            Want::Text,
        ],
        TableKind::MacroParameters => vec![
            Want::Number,
            Want::Number,
            Want::Number,
            Want::Text,
            Want::Text,
            Want::TextOrNull,
            Want::TextOrNull,
        ],
        TableKind::ColumnMapping => vec![
            Want::Number,
            Want::Number,
            Want::Text,
        ],
        TableKind::NameMapping => vec![
            Want::Number,
            Want::Number,
            Want::Text,
            Want::Number,
            Want::NumberOrNull,
            Want::Flag,
        ],
    };
    assert(shape@ =~= columns_in(table));
    shape
}

/// Why a row to insert is refused.
pub open spec fn insert_refusal(table: TableKind, cells: Seq<CellModel>) -> Option<Fault> {
    row_refusal(table, columns_in(table), cells)
}

/// Checks a row to insert.
pub fn check_insert(table: TableKind, cells: &Vec<Cell>) -> (r: Result<(), Error>)
    ensures
        match insert_refusal(table, cells.deep_view()) {
            Some(f) => refused(r, f),
            None => r is Ok && cells@.len() == columns_in(table).len(),
        },
{
    let shape = columns_of_row(table);
    check_row(table, &shape, cells)
}

/// A schema.
pub open spec fn schema_row(cells: Seq<CellModel>) -> SchemaModel {
    SchemaModel {
        schema_id: number(cells[0]),
        schema_uuid: text(cells[1]),
        begin_snapshot: number(cells[2]),
        end_snapshot: number_if(cells[3]),
        schema_name: text(cells[4]),
        path: text(cells[5]),
        path_is_relative: flag(cells[6]),
    }
}

pub fn decode_schema(cells: &Vec<Cell>) -> (r: Result<SchemaValue, Error>)
    ensures
        match insert_refusal(TableKind::Schema, cells.deep_view()) {
            Some(f) => refused(r, f),
            None => r is Ok && r->Ok_0@ == schema_row(cells.deep_view()),
        },
{
    match check_insert(TableKind::Schema, cells) {
        Err(e) => return Err(e),
        Ok(()) => {},
    }
    assert(columns_in(TableKind::Schema).len() == 7);
    assert(forall|i: int| 0 <= i < 7 ==> cells.deep_view()[i] == (#[trigger] cells@[i]).deep_view());
    let value = SchemaValue {
        schema_id: number_of(&cells[0]),
        schema_uuid: text_of(&cells[1]),
        begin_snapshot: number_of(&cells[2]),
        end_snapshot: number_if_any(&cells[3]),
        schema_name: text_of(&cells[4]),
        path: text_of(&cells[5]),
        path_is_relative: flag_of(&cells[6]),
    };
    Ok(value)
}

/// A table, with the counter of its column ids at zero.
pub open spec fn table_row(cells: Seq<CellModel>) -> TableModel {
    TableModel {
        table_id: number(cells[0]),
        table_uuid: text(cells[1]),
        begin_snapshot: number(cells[2]),
        end_snapshot: number_if(cells[3]),
        schema_id: number(cells[4]),
        table_name: text(cells[5]),
        path: text(cells[6]),
        path_is_relative: flag(cells[7]),
        next_column_id: 0,
    }
}

pub fn decode_table(cells: &Vec<Cell>) -> (r: Result<TableValue, Error>)
    ensures
        match insert_refusal(TableKind::Table, cells.deep_view()) {
            Some(f) => refused(r, f),
            None => r is Ok && r->Ok_0@ == table_row(cells.deep_view()),
        },
{
    match check_insert(TableKind::Table, cells) {
        Err(e) => return Err(e),
        Ok(()) => {},
    }
    assert(columns_in(TableKind::Table).len() == 8);
    assert(forall|i: int| 0 <= i < 8 ==> cells.deep_view()[i] == (#[trigger] cells@[i]).deep_view());
    let value = TableValue {
        table_id: number_of(&cells[0]),
        table_uuid: text_of(&cells[1]),
        begin_snapshot: number_of(&cells[2]),
        end_snapshot: number_if_any(&cells[3]),
        schema_id: number_of(&cells[4]),
        table_name: text_of(&cells[5]),
        path: text_of(&cells[6]),
        path_is_relative: flag_of(&cells[7]),
        next_column_id: 0,
    };
    Ok(value)
}

/// A view.
pub open spec fn view_row(cells: Seq<CellModel>) -> ViewModel {
    ViewModel {
        view_id: number(cells[0]),
        view_uuid: text(cells[1]),
        begin_snapshot: number(cells[2]),
        end_snapshot: number_if(cells[3]),
        schema_id: number(cells[4]),
        view_name: text(cells[5]),
        dialect: text(cells[6]),
        sql: text(cells[7]),
        column_aliases: text_if(cells[8]),
    }
}

pub fn decode_view(cells: &Vec<Cell>) -> (r: Result<ViewValue, Error>)
    ensures
        match insert_refusal(TableKind::View, cells.deep_view()) {
            Some(f) => refused(r, f),
            None => r is Ok && r->Ok_0@ == view_row(cells.deep_view()),
        },
{
    match check_insert(TableKind::View, cells) {
        Err(e) => return Err(e),
        Ok(()) => {},
    }
    assert(columns_in(TableKind::View).len() == 9);
    assert(forall|i: int| 0 <= i < 9 ==> cells.deep_view()[i] == (#[trigger] cells@[i]).deep_view());
    let value = ViewValue {
        view_id: number_of(&cells[0]),
        view_uuid: text_of(&cells[1]),
        begin_snapshot: number_of(&cells[2]),
        end_snapshot: number_if_any(&cells[3]),
        schema_id: number_of(&cells[4]),
        view_name: text_of(&cells[5]),
        dialect: text_of(&cells[6]),
        sql: text_of(&cells[7]),
        column_aliases: text_if_any(&cells[8]),
    };
    Ok(value)
}

/// A column, without tags.
pub open spec fn column_row(cells: Seq<CellModel>) -> ColumnModel {
    ColumnModel {
        column_id: number(cells[0]),
        begin_snapshot: number(cells[1]),
        end_snapshot: number_if(cells[2]),
        table_id: number(cells[3]),
        column_order: number(cells[4]),
        column_name: text(cells[5]),
        column_type: text(cells[6]),
        initial_default: text_if(cells[7]),
        default_value: text_if(cells[8]),
        nulls_allowed: flag(cells[9]),
        parent_column: number_if(cells[10]),
        default_value_type: text_if(cells[11]),
        default_value_dialect: text_if(cells[12]),
        tags: Seq::empty(),
    }
}

pub fn decode_column(cells: &Vec<Cell>) -> (r: Result<ColumnValue, Error>)
    ensures
        match insert_refusal(TableKind::Column, cells.deep_view()) {
            Some(f) => refused(r, f),
            None => r is Ok && r->Ok_0@ == column_row(cells.deep_view()),
        },
{
    match check_insert(TableKind::Column, cells) {
        Err(e) => return Err(e),
        Ok(()) => {},
    }
    assert(columns_in(TableKind::Column).len() == 13);
    assert(forall|i: int| 0 <= i < 13 ==> cells.deep_view()[i] == (#[trigger] cells@[i]).deep_view());
    let value = ColumnValue {
        column_id: number_of(&cells[0]),
        begin_snapshot: number_of(&cells[1]),
        end_snapshot: number_if_any(&cells[2]),
        table_id: number_of(&cells[3]),
        column_order: number_of(&cells[4]),
        column_name: text_of(&cells[5]),
        column_type: text_of(&cells[6]),
        initial_default: text_if_any(&cells[7]),
        default_value: text_if_any(&cells[8]),
        nulls_allowed: flag_of(&cells[9]),
        parent_column: number_if_any(&cells[10]),
        default_value_type: text_if_any(&cells[11]),
        default_value_dialect: text_if_any(&cells[12]),
        tags: Vec::new(),
    };
    assert(value@.tags =~= Seq::empty());
    Ok(value)
}

/// A data file, without partition values.
pub open spec fn data_file_row(cells: Seq<CellModel>) -> DataFileModel {
    DataFileModel {
        data_file_id: number(cells[0]),
        table_id: number(cells[1]),
        begin_snapshot: number(cells[2]),
        end_snapshot: number_if(cells[3]),
        file_order: number_if(cells[4]),
        path: text(cells[5]),
        path_is_relative: flag(cells[6]),
        file_format: text(cells[7]),
        record_count: number(cells[8]),
        file_size_bytes: number(cells[9]),
        footer_size: number(cells[10]),
        row_id_start: number_if(cells[11]),
        partition_id: number_if(cells[12]),
        encryption_key: text_if(cells[13]),
        mapping_id: number_if(cells[14]),
        partial_max: number_if(cells[15]),
        partition_values: Seq::empty(),
    }
}

pub fn decode_data_file(cells: &Vec<Cell>) -> (r: Result<DataFileValue, Error>)
    ensures
        match insert_refusal(TableKind::DataFile, cells.deep_view()) {
            Some(f) => refused(r, f),
            None => r is Ok && r->Ok_0@ == data_file_row(cells.deep_view()),
        },
{
    match check_insert(TableKind::DataFile, cells) {
        Err(e) => return Err(e),
        Ok(()) => {},
    }
    assert(columns_in(TableKind::DataFile).len() == 16);
    assert(forall|i: int| 0 <= i < 16 ==> cells.deep_view()[i] == (#[trigger] cells@[i]).deep_view());
    let value = DataFileValue {
        data_file_id: number_of(&cells[0]),
        table_id: number_of(&cells[1]),
        begin_snapshot: number_of(&cells[2]),
        end_snapshot: number_if_any(&cells[3]),
        file_order: number_if_any(&cells[4]),
        path: text_of(&cells[5]),
        path_is_relative: flag_of(&cells[6]),
        file_format: text_of(&cells[7]),
        record_count: number_of(&cells[8]),
        file_size_bytes: number_of(&cells[9]),
        footer_size: number_of(&cells[10]),
        row_id_start: number_if_any(&cells[11]),
        partition_id: number_if_any(&cells[12]),
        encryption_key: text_if_any(&cells[13]),
        mapping_id: number_if_any(&cells[14]),
        partial_max: number_if_any(&cells[15]),
        partition_values: Vec::new(),
    };
    assert(value@.partition_values =~= Seq::empty());
    Ok(value)
}

/// A delete file.
pub open spec fn delete_file_row(cells: Seq<CellModel>) -> DeleteFileModel {
    DeleteFileModel {
        delete_file_id: number(cells[0]),
        table_id: number(cells[1]),
        begin_snapshot: number(cells[2]),
        end_snapshot: number_if(cells[3]),
        data_file_id: number(cells[4]),
        path: text(cells[5]),
        path_is_relative: flag(cells[6]),
        format: text(cells[7]),
        delete_count: number(cells[8]),
        file_size_bytes: number(cells[9]),
        footer_size: number(cells[10]),
        encryption_key: text_if(cells[11]),
        partial_max: number_if(cells[12]),
    }
}

pub fn decode_delete_file(cells: &Vec<Cell>) -> (r: Result<DeleteFileValue, Error>)
    ensures
        match insert_refusal(TableKind::DeleteFile, cells.deep_view()) {
            Some(f) => refused(r, f),
            None => r is Ok && r->Ok_0@ == delete_file_row(cells.deep_view()),
        },
{
    match check_insert(TableKind::DeleteFile, cells) {
        Err(e) => return Err(e),
        Ok(()) => {},
    }
    assert(columns_in(TableKind::DeleteFile).len() == 13);
    assert(forall|i: int| 0 <= i < 13 ==> cells.deep_view()[i] == (#[trigger] cells@[i]).deep_view());
    let value = DeleteFileValue {
        delete_file_id: number_of(&cells[0]),
        table_id: number_of(&cells[1]),
        begin_snapshot: number_of(&cells[2]),
        end_snapshot: number_if_any(&cells[3]),
        data_file_id: number_of(&cells[4]),
        path: text_of(&cells[5]),
        path_is_relative: flag_of(&cells[6]),
        format: text_of(&cells[7]),
        delete_count: number_of(&cells[8]),
        file_size_bytes: number_of(&cells[9]),
        footer_size: number_of(&cells[10]),
        encryption_key: text_if_any(&cells[11]),
        partial_max: number_if_any(&cells[12]),
    };
    Ok(value)
}

/// The statistics of a table.
pub open spec fn table_stats_row(cells: Seq<CellModel>) -> TableStatsModel {
    TableStatsModel {
        table_id: number(cells[0]),
        record_count: number(cells[1]),
        next_row_id: number(cells[2]),
        file_size_bytes: number(cells[3]),
    }
}

pub fn decode_table_stats(cells: &Vec<Cell>) -> (r: Result<TableStatsValue, Error>)
    ensures
        match insert_refusal(TableKind::TableStats, cells.deep_view()) {
            Some(f) => refused(r, f),
            None => r is Ok && r->Ok_0@ == table_stats_row(cells.deep_view()),
        },
{
    match check_insert(TableKind::TableStats, cells) {
        Err(e) => return Err(e),
        Ok(()) => {},
    }
    assert(columns_in(TableKind::TableStats).len() == 4);
    assert(forall|i: int| 0 <= i < 4 ==> cells.deep_view()[i] == (#[trigger] cells@[i]).deep_view());
    let value = TableStatsValue {
        table_id: number_of(&cells[0]),
        record_count: number_of(&cells[1]),
        next_row_id: number_of(&cells[2]),
        file_size_bytes: number_of(&cells[3]),
    };
    Ok(value)
}

/// The statistics of a column over its table.
pub open spec fn table_column_stats_row(cells: Seq<CellModel>) -> TableColumnStatsModel {
    TableColumnStatsModel {
        table_id: number(cells[0]),
        column_id: number(cells[1]),
        contains_null: flag_if(cells[2]),
        contains_nan: flag_if(cells[3]),
        min_value: text_if(cells[4]),
        max_value: text_if(cells[5]),
        extra_stats: text_if(cells[6]),
    }
}

pub fn decode_table_column_stats(cells: &Vec<Cell>) -> (r: Result<TableColumnStatsValue, Error>)
    ensures
        match insert_refusal(TableKind::TableColumnStats, cells.deep_view()) {
            Some(f) => refused(r, f),
            None => r is Ok && r->Ok_0@ == table_column_stats_row(cells.deep_view()),
        },
{
    match check_insert(TableKind::TableColumnStats, cells) {
        Err(e) => return Err(e),
        Ok(()) => {},
    }
    assert(columns_in(TableKind::TableColumnStats).len() == 7);
    assert(forall|i: int| 0 <= i < 7 ==> cells.deep_view()[i] == (#[trigger] cells@[i]).deep_view());
    let value = TableColumnStatsValue {
        table_id: number_of(&cells[0]),
        column_id: number_of(&cells[1]),
        contains_null: flag_if_any(&cells[2]),
        contains_nan: flag_if_any(&cells[3]),
        min_value: text_if_any(&cells[4]),
        max_value: text_if_any(&cells[5]),
        extra_stats: text_if_any(&cells[6]),
    };
    Ok(value)
}

/// The statistics of a column over a data file.
pub open spec fn file_column_stats_row(cells: Seq<CellModel>) -> FileColumnStatsModel {
    FileColumnStatsModel {
        data_file_id: number(cells[0]),
        table_id: number(cells[1]),
        column_id: number(cells[2]),
        column_size_bytes: number(cells[3]),
        value_count: number(cells[4]),
        null_count: number(cells[5]),
        min_value: text_if(cells[6]),
        max_value: text_if(cells[7]),
        contains_nan: flag_if(cells[8]),
        extra_stats: text_if(cells[9]),
        variant_stats: Seq::empty(),
    }
}

pub fn decode_file_column_stats(cells: &Vec<Cell>) -> (r: Result<FileColumnStatsValue, Error>)
    ensures
        match insert_refusal(TableKind::FileColumnStats, cells.deep_view()) {
            Some(f) => refused(r, f),
            None => r is Ok && r->Ok_0@ == file_column_stats_row(cells.deep_view()),
        },
{
    match check_insert(TableKind::FileColumnStats, cells) {
        Err(e) => return Err(e),
        Ok(()) => {},
    }
    assert(columns_in(TableKind::FileColumnStats).len() == 10);
    assert(forall|i: int| 0 <= i < 10 ==> cells.deep_view()[i] == (#[trigger] cells@[i]).deep_view());
    let value = FileColumnStatsValue {
        data_file_id: number_of(&cells[0]),
        table_id: number_of(&cells[1]),
        column_id: number_of(&cells[2]),
        column_size_bytes: number_of(&cells[3]),
        value_count: number_of(&cells[4]),
        null_count: number_of(&cells[5]),
        min_value: text_if_any(&cells[6]),
        max_value: text_if_any(&cells[7]),
        contains_nan: flag_if_any(&cells[8]),
        extra_stats: text_if_any(&cells[9]),
        variant_stats: Vec::new(),
    };
    assert(value@.variant_stats =~= Seq::empty());
    Ok(value)
}

/// A partition spec, without columns.
pub open spec fn partition_info_row(cells: Seq<CellModel>) -> PartitionModel {
    PartitionModel {
        partition_id: number(cells[0]),
        table_id: number(cells[1]),
        begin_snapshot: number(cells[2]),
        end_snapshot: number_if(cells[3]),
        columns: Seq::empty(),
    }
}

pub fn decode_partition_info(cells: &Vec<Cell>) -> (r: Result<PartitionValue, Error>)
    ensures
        match insert_refusal(TableKind::PartitionInfo, cells.deep_view()) {
            Some(f) => refused(r, f),
            None => r is Ok && r->Ok_0@ == partition_info_row(cells.deep_view()),
        },
{
    match check_insert(TableKind::PartitionInfo, cells) {
        Err(e) => return Err(e),
        Ok(()) => {},
    }
    assert(columns_in(TableKind::PartitionInfo).len() == 4);
    assert(forall|i: int| 0 <= i < 4 ==> cells.deep_view()[i] == (#[trigger] cells@[i]).deep_view());
    let value = PartitionValue {
        partition_id: number_of(&cells[0]),
        table_id: number_of(&cells[1]),
        begin_snapshot: number_of(&cells[2]),
        end_snapshot: number_if_any(&cells[3]),
        columns: Vec::new(),
    };
    assert(value@.columns =~= Seq::empty());
    Ok(value)
}

/// A sort spec, without expressions.
pub open spec fn sort_info_row(cells: Seq<CellModel>) -> SortModel {
    SortModel {
        sort_id: number(cells[0]),
        table_id: number(cells[1]),
        begin_snapshot: number(cells[2]),
        end_snapshot: number_if(cells[3]),
        expressions: Seq::empty(),
    }
}

pub fn decode_sort_info(cells: &Vec<Cell>) -> (r: Result<SortValue, Error>)
    ensures
        match insert_refusal(TableKind::SortInfo, cells.deep_view()) {
            Some(f) => refused(r, f),
            None => r is Ok && r->Ok_0@ == sort_info_row(cells.deep_view()),
        },
{
    match check_insert(TableKind::SortInfo, cells) {
        Err(e) => return Err(e),
        Ok(()) => {},
    }
    assert(columns_in(TableKind::SortInfo).len() == 4);
    assert(forall|i: int| 0 <= i < 4 ==> cells.deep_view()[i] == (#[trigger] cells@[i]).deep_view());
    let value = SortValue {
        sort_id: number_of(&cells[0]),
        table_id: number_of(&cells[1]),
        begin_snapshot: number_of(&cells[2]),
        end_snapshot: number_if_any(&cells[3]),
        expressions: Vec::new(),
    };
    assert(value@.expressions =~= Seq::empty());
    Ok(value)
}

/// A macro, without implementations.
pub open spec fn macro_row(cells: Seq<CellModel>) -> MacroModel {
    MacroModel {
        schema_id: number(cells[0]),
        macro_id: number(cells[1]),
        macro_name: text(cells[2]),
        begin_snapshot: number(cells[3]),
        end_snapshot: number_if(cells[4]),
        implementations: Seq::empty(),
    }
}

pub fn decode_macro(cells: &Vec<Cell>) -> (r: Result<MacroValue, Error>)
    ensures
        match insert_refusal(TableKind::Macro, cells.deep_view()) {
            Some(f) => refused(r, f),
            None => r is Ok && r->Ok_0@ == macro_row(cells.deep_view()),
        },
{
    match check_insert(TableKind::Macro, cells) {
        Err(e) => return Err(e),
        Ok(()) => {},
    }
    assert(columns_in(TableKind::Macro).len() == 5);
    assert(forall|i: int| 0 <= i < 5 ==> cells.deep_view()[i] == (#[trigger] cells@[i]).deep_view());
    let value = MacroValue {
        schema_id: number_of(&cells[0]),
        macro_id: number_of(&cells[1]),
        macro_name: text_of(&cells[2]),
        begin_snapshot: number_of(&cells[3]),
        end_snapshot: number_if_any(&cells[4]),
        implementations: Vec::new(),
    };
    assert(value@.implementations =~= Seq::empty());
    Ok(value)
}

/// A column mapping, without names.
pub open spec fn column_mapping_row(cells: Seq<CellModel>) -> MappingModel {
    MappingModel {
        mapping_id: number(cells[0]),
        table_id: number(cells[1]),
        mapping_type: text(cells[2]),
        name_mappings: Seq::empty(),
    }
}

pub fn decode_column_mapping(cells: &Vec<Cell>) -> (r: Result<MappingValue, Error>)
    ensures
        match insert_refusal(TableKind::ColumnMapping, cells.deep_view()) {
            Some(f) => refused(r, f),
            None => r is Ok && r->Ok_0@ == column_mapping_row(cells.deep_view()),
        },
{
    match check_insert(TableKind::ColumnMapping, cells) {
        Err(e) => return Err(e),
        Ok(()) => {},
    }
    assert(columns_in(TableKind::ColumnMapping).len() == 3);
    assert(forall|i: int| 0 <= i < 3 ==> cells.deep_view()[i] == (#[trigger] cells@[i]).deep_view());
    let value = MappingValue {
        mapping_id: number_of(&cells[0]),
        table_id: number_of(&cells[1]),
        mapping_type: text_of(&cells[2]),
        name_mappings: Vec::new(),
    };
    assert(value@.name_mappings =~= Seq::empty());
    Ok(value)
}

/// A scheduled deletion.
pub open spec fn gc_file_row(cells: Seq<CellModel>) -> GcFileModel {
    GcFileModel {
        data_file_id: number(cells[0]),
        path: text(cells[1]),
        path_is_relative: flag(cells[2]),
        schedule_start_micros: signed(cells[3]),
    }
}

pub fn decode_gc_file_row(cells: &Vec<Cell>) -> (r: Result<GcFileValue, Error>)
    ensures
        match insert_refusal(TableKind::FilesScheduledForDeletion, cells.deep_view()) {
            Some(f) => refused(r, f),
            None => r is Ok && r->Ok_0@ == gc_file_row(cells.deep_view()),
        },
{
    match check_insert(TableKind::FilesScheduledForDeletion, cells) {
        Err(e) => return Err(e),
        Ok(()) => {},
    }
    assert(columns_in(TableKind::FilesScheduledForDeletion).len() == 4);
    assert(forall|i: int| 0 <= i < 4 ==> cells.deep_view()[i] == (#[trigger] cells@[i]).deep_view());
    let value = GcFileValue {
        data_file_id: number_of(&cells[0]),
        path: text_of(&cells[1]),
        path_is_relative: flag_of(&cells[2]),
        schedule_start_micros: signed_of(&cells[3]),
    };
    Ok(value)
}

/// A column of a partition spec, under the id of the spec.
pub open spec fn partition_column_row(cells: Seq<CellModel>) -> PartitionColumnModel {
    PartitionColumnModel {
        partition_key_index: number(cells[2]),
        column_id: number(cells[3]),
        transform: text(cells[4]),
    }
}

pub fn decode_partition_column(cells: &Vec<Cell>) -> (r: Result<(u64, PartitionColumn), Error>)
    ensures
        match insert_refusal(TableKind::PartitionColumn, cells.deep_view()) {
            Some(f) => refused(r, f),
            None => r is Ok && r->Ok_0.0 == number(cells.deep_view()[0])
                && r->Ok_0.1@ == partition_column_row(cells.deep_view()),
        },
{
    match check_insert(TableKind::PartitionColumn, cells) {
        Err(e) => return Err(e),
        Ok(()) => {},
    }
    assert(columns_in(TableKind::PartitionColumn).len() == 5);
    assert(forall|i: int| 0 <= i < 5 ==> cells.deep_view()[i] == (#[trigger] cells@[i]).deep_view());
    let value = PartitionColumn {
        partition_key_index: number_of(&cells[2]),
        column_id: number_of(&cells[3]),
        transform: text_of(&cells[4]),
    };
    Ok((number_of(&cells[0]), value))
}

/// A partition value of a data file, under the ids of table and file.
pub open spec fn file_partition_value_row(cells: Seq<CellModel>) -> FilePartitionValueModel {
    FilePartitionValueModel {
        partition_key_index: number(cells[2]),
        partition_value: text_if(cells[3]),
    }
}

pub fn decode_file_partition_value(cells: &Vec<Cell>) -> (r: Result<((u64, u64), FilePartitionValue), Error>)
    ensures
        match insert_refusal(TableKind::FilePartitionValue, cells.deep_view()) {
            Some(f) => refused(r, f),
            None => r is Ok && r->Ok_0.0 == (number(cells.deep_view()[1]), number(cells.deep_view()[0]))
                && r->Ok_0.1@ == file_partition_value_row(cells.deep_view()),
        },
{
    match check_insert(TableKind::FilePartitionValue, cells) {
        Err(e) => return Err(e),
        Ok(()) => {},
    }
    assert(columns_in(TableKind::FilePartitionValue).len() == 4);
    assert(forall|i: int| 0 <= i < 4 ==> cells.deep_view()[i] == (#[trigger] cells@[i]).deep_view());
    let value = FilePartitionValue {
        partition_key_index: number_of(&cells[2]),
        partition_value: text_if_any(&cells[3]),
    };
    Ok(((number_of(&cells[1]), number_of(&cells[0])), value))
}

/// An expression of a sort spec, under the id of the spec.
pub open spec fn sort_expression_row(cells: Seq<CellModel>) -> SortExpressionModel {
    SortExpressionModel {
        sort_key_index: number(cells[2]),
        expression: text(cells[3]),
        dialect: text(cells[4]),
        sort_direction: text(cells[5]),
        null_order: text(cells[6]),
    }
}

pub fn decode_sort_expression(cells: &Vec<Cell>) -> (r: Result<(u64, SortExpression), Error>)
    ensures
        match insert_refusal(TableKind::SortExpression, cells.deep_view()) {
            Some(f) => refused(r, f),
            None => r is Ok && r->Ok_0.0 == number(cells.deep_view()[0])
                && r->Ok_0.1@ == sort_expression_row(cells.deep_view()),
        },
{
    match check_insert(TableKind::SortExpression, cells) {
        Err(e) => return Err(e),
        Ok(()) => {},
    }
    assert(columns_in(TableKind::SortExpression).len() == 7);
    assert(forall|i: int| 0 <= i < 7 ==> cells.deep_view()[i] == (#[trigger] cells@[i]).deep_view());
    let value = SortExpression {
        sort_key_index: number_of(&cells[2]),
        expression: text_of(&cells[3]),
        dialect: text_of(&cells[4]),
        sort_direction: text_of(&cells[5]),
        null_order: text_of(&cells[6]),
    };
    Ok((number_of(&cells[0]), value))
}

/// An implementation of a macro, without parameters, under the id of the macro.
pub open spec fn macro_impl_row(cells: Seq<CellModel>) -> MacroImplementationModel {
    MacroImplementationModel {
        impl_id: number(cells[1]),
        dialect: text(cells[2]),
        sql: text(cells[3]),
        macro_type: text(cells[4]),
        parameters: Seq::empty(),
    }
}

pub fn decode_macro_impl(cells: &Vec<Cell>) -> (r: Result<(u64, MacroImplementation), Error>)
    ensures
        match insert_refusal(TableKind::MacroImpl, cells.deep_view()) {
            Some(f) => refused(r, f),
            None => r is Ok && r->Ok_0.0 == number(cells.deep_view()[0])
                && r->Ok_0.1@ == macro_impl_row(cells.deep_view()),
        },
{
    match check_insert(TableKind::MacroImpl, cells) {
        Err(e) => return Err(e),
        Ok(()) => {},
    }
    assert(columns_in(TableKind::MacroImpl).len() == 5);
    assert(forall|i: int| 0 <= i < 5 ==> cells.deep_view()[i] == (#[trigger] cells@[i]).deep_view());
    let value = MacroImplementation {
        impl_id: number_of(&cells[1]),
        dialect: text_of(&cells[2]),
        sql: text_of(&cells[3]),
        macro_type: text_of(&cells[4]),
        parameters: Vec::new(),
    };
    assert(value@.parameters =~= Seq::empty());
    Ok((number_of(&cells[0]), value))
}

/// A parameter of a macro, under the ids of macro and implementation.
pub open spec fn macro_parameter_row(cells: Seq<CellModel>) -> MacroParameterModel {
    MacroParameterModel {
        column_id: number(cells[2]),
        parameter_name: text(cells[3]),
        parameter_type: text(cells[4]),
        default_value: text_if(cells[5]),
        default_value_type: text_if(cells[6]),
    }
}

pub fn decode_macro_parameter(cells: &Vec<Cell>) -> (r: Result<((u64, u64), MacroParameter), Error>)
    ensures
        match insert_refusal(TableKind::MacroParameters, cells.deep_view()) {
            Some(f) => refused(r, f),
            None => r is Ok && r->Ok_0.0 == (number(cells.deep_view()[0]), number(cells.deep_view()[1]))
                && r->Ok_0.1@ == macro_parameter_row(cells.deep_view()),
        },
{
    match check_insert(TableKind::MacroParameters, cells) {
        Err(e) => return Err(e),
        Ok(()) => {},
    }
    assert(columns_in(TableKind::MacroParameters).len() == 7);
    assert(forall|i: int| 0 <= i < 7 ==> cells.deep_view()[i] == (#[trigger] cells@[i]).deep_view());
    let value = MacroParameter {
        column_id: number_of(&cells[2]),
        parameter_name: text_of(&cells[3]),
        parameter_type: text_of(&cells[4]),
        default_value: text_if_any(&cells[5]),
        default_value_type: text_if_any(&cells[6]),
    };
    Ok(((number_of(&cells[0]), number_of(&cells[1])), value))
}

/// A name of a column mapping, under the id of the mapping.
pub open spec fn name_mapping_row(cells: Seq<CellModel>) -> NameMappingModel {
    NameMappingModel {
        column_id: number(cells[1]),
        source_name: text(cells[2]),
        target_field_id: number(cells[3]),
        parent_column: number_if(cells[4]),
        is_partition: flag(cells[5]),
    }
}

pub fn decode_name_mapping(cells: &Vec<Cell>) -> (r: Result<(u64, NameMapping), Error>)
    ensures
        match insert_refusal(TableKind::NameMapping, cells.deep_view()) {
            Some(f) => refused(r, f),
            None => r is Ok && r->Ok_0.0 == number(cells.deep_view()[0])
                && r->Ok_0.1@ == name_mapping_row(cells.deep_view()),
        },
{
    match check_insert(TableKind::NameMapping, cells) {
        Err(e) => return Err(e),
        Ok(()) => {},
    }
    assert(columns_in(TableKind::NameMapping).len() == 6);
    assert(forall|i: int| 0 <= i < 6 ==> cells.deep_view()[i] == (#[trigger] cells@[i]).deep_view());
    let value = NameMapping {
        column_id: number_of(&cells[1]),
        source_name: text_of(&cells[2]),
        target_field_id: number_of(&cells[3]),
        parent_column: number_if_any(&cells[4]),
        is_partition: flag_of(&cells[5]),
    };
    Ok((number_of(&cells[0]), value))
}

/// A tag, under the id of its object.
pub open spec fn tag_row(cells: Seq<CellModel>) -> TagEntryModel {
    TagEntryModel {
        begin_snapshot: number(cells[1]),
        end_snapshot: number_if(cells[2]),
        key: text(cells[3]),
        value: text(cells[4]),
    }
}

pub fn decode_tag_row(cells: &Vec<Cell>) -> (r: Result<(u64, TagEntry), Error>)
    ensures
        match insert_refusal(TableKind::Tag, cells.deep_view()) {
            Some(f) => refused(r, f),
            None => r is Ok && r->Ok_0.0 == number(cells.deep_view()[0])
                && r->Ok_0.1@ == tag_row(cells.deep_view()),
        },
{
    match check_insert(TableKind::Tag, cells) {
        Err(e) => return Err(e),
        Ok(()) => {},
    }
    assert(columns_in(TableKind::Tag).len() == 5);
    assert(forall|i: int| 0 <= i < 5 ==> cells.deep_view()[i] == (#[trigger] cells@[i]).deep_view());
    let value = TagEntry {
        begin_snapshot: number_of(&cells[1]),
        end_snapshot: number_if_any(&cells[2]),
        key: text_of(&cells[3]),
        value: text_of(&cells[4]),
    };
    Ok((number_of(&cells[0]), value))
}

/// A column tag, under the ids of table and column.
pub open spec fn column_tag_row(cells: Seq<CellModel>) -> TagEntryModel {
    TagEntryModel {
        begin_snapshot: number(cells[2]),
        end_snapshot: number_if(cells[3]),
        key: text(cells[4]),
        value: text(cells[5]),
    }
}

pub fn decode_column_tag_row(cells: &Vec<Cell>) -> (r: Result<((u64, u64), TagEntry), Error>)
    ensures
        match insert_refusal(TableKind::ColumnTag, cells.deep_view()) {
            Some(f) => refused(r, f),
            None => r is Ok && r->Ok_0.0 == (number(cells.deep_view()[0]), number(cells.deep_view()[1]))
                && r->Ok_0.1@ == column_tag_row(cells.deep_view()),
        },
{
    match check_insert(TableKind::ColumnTag, cells) {
        Err(e) => return Err(e),
        Ok(()) => {},
    }
    assert(columns_in(TableKind::ColumnTag).len() == 6);
    assert(forall|i: int| 0 <= i < 6 ==> cells.deep_view()[i] == (#[trigger] cells@[i]).deep_view());
    let value = TagEntry {
        begin_snapshot: number_of(&cells[2]),
        end_snapshot: number_if_any(&cells[3]),
        key: text_of(&cells[4]),
        value: text_of(&cells[5]),
    };
    Ok(((number_of(&cells[0]), number_of(&cells[1])), value))
}

/// A table row, with the column-id counter of the version before it.
pub open spec fn table_from(base: CatalogModel, decoded: TableModel) -> TableModel {
    TableModel {
        next_column_id: if base.tables.contains_key(decoded.table_id) {
            base.tables[decoded.table_id].next_column_id
        } else {
            decoded.next_column_id
        },
        ..decoded
    }
}

pub fn table_value(base: &CatalogSnapshot, decoded: TableValue) -> (v: TableValue)
    ensures
        v@ == table_from(base@, decoded@),
{
    let mut value = decoded;
    match base.tables.get(&value.table_id) {
        Some(prior) => {
            value.next_column_id = prior.next_column_id;
        },
        None => {},
    }
    value
}

/// The key columns of a versioned row, none where a table has no versions.
pub open spec fn key_width(table: TableKind) -> nat {
    match table {
        TableKind::Schema => 1,
        TableKind::Table => 1,
        TableKind::View => 1,
        TableKind::Column => 2,
        TableKind::DataFile => 2,
        TableKind::DeleteFile => 2,
        TableKind::PartitionInfo => 2,
        TableKind::SortInfo => 2,
        TableKind::Macro => 1,
        _ => 0,
    }
}

/// The entity that key columns name.
pub open spec fn entity_named(table: TableKind, cells: Seq<CellModel>) -> EntityKey {
    match table {
        TableKind::Schema => EntityKey::Schema { schema_id: number(cells[0]) },
        TableKind::Table => EntityKey::Table { table_id: number(cells[0]) },
        TableKind::View => EntityKey::View { view_id: number(cells[0]) },
        TableKind::Column => EntityKey::Column { table_id: number(cells[0]), column_id: number(cells[1]) },
        TableKind::DataFile => EntityKey::File { table_id: number(cells[0]), data_file_id: number(cells[1]) },
        TableKind::DeleteFile => EntityKey::DeleteFile { table_id: number(cells[0]), delete_file_id: number(cells[1]) },
        TableKind::PartitionInfo => EntityKey::Partition { table_id: number(cells[0]), partition_id: number(cells[1]) },
        TableKind::SortInfo => EntityKey::Sort { table_id: number(cells[0]), sort_id: number(cells[1]) },
        _ => EntityKey::Macro { macro_id: number(cells[0]) },
    }
}

/// The cells of a row that names a version: its key columns, then a snapshot.
pub open spec fn key_shape(table: TableKind, last: Want) -> Seq<Want> {
    if key_width(table) == 2 {
        seq![Want::Number, Want::Number, last]
    } else {
        seq![Want::Number, last]
    }
}

fn shape_of_key(table: TableKind, last: Want) -> (shape: Vec<Want>)
    requires
        key_width(table) > 0,
    ensures
        shape@ == key_shape(table, last),
{
    let shape: Vec<Want> = match table {
        TableKind::Schema | TableKind::Table | TableKind::View | TableKind::Macro => vec![
            Want::Number,
            last,
        ],
        _ => vec![Want::Number, Want::Number, last],
    };
    assert(shape@ =~= key_shape(table, last));
    shape
}

fn versioned_kind(table: TableKind) -> (b: bool)
    ensures
        b == (key_width(table) > 0),
{
    match table {
        TableKind::Schema
        | TableKind::Table
        | TableKind::View
        | TableKind::Column
        | TableKind::DataFile
        | TableKind::DeleteFile
        | TableKind::PartitionInfo
        | TableKind::SortInfo
        | TableKind::Macro => true,
        _ => false,
    }
}

fn entity_of_cells(table: TableKind, cells: &Vec<Cell>) -> (key: EntityKey)
    requires
        key_width(table) > 0,
        cells@.len() == key_width(table) + 1,
    ensures
        key == entity_named(table, cells.deep_view()),
{
    assert(forall|i: int| 0 <= i < cells@.len() ==> cells.deep_view()[i] == (#[trigger] cells@[i]).deep_view());
    match table {
        TableKind::Schema => EntityKey::Schema { schema_id: number_of(&cells[0]) },
        TableKind::Table => EntityKey::Table { table_id: number_of(&cells[0]) },
        TableKind::View => EntityKey::View { view_id: number_of(&cells[0]) },
        TableKind::Column => EntityKey::Column { table_id: number_of(&cells[0]), column_id: number_of(&cells[1]) },
        TableKind::DataFile => EntityKey::File { table_id: number_of(&cells[0]), data_file_id: number_of(&cells[1]) },
        TableKind::DeleteFile => EntityKey::DeleteFile { table_id: number_of(&cells[0]), delete_file_id: number_of(&cells[1]) },
        TableKind::PartitionInfo => EntityKey::Partition { table_id: number_of(&cells[0]), partition_id: number_of(&cells[1]) },
        TableKind::SortInfo => EntityKey::Sort { table_id: number_of(&cells[0]), sort_id: number_of(&cells[1]) },
        _ => EntityKey::Macro { macro_id: number_of(&cells[0]) },
    }
}

/// Why a row that ends a version is refused.
pub open spec fn end_refusal(table: TableKind, cells: Seq<CellModel>) -> Option<Fault> {
    if key_width(table) == 0 {
        Some(Fault::Constraint(wrapped("update_set_end is not defined for "@, kind_name(table), ""@)))
    } else {
        row_refusal(table, key_shape(table, Want::Number), cells)
    }
}

/// The entity whose version ends, and the snapshot that ends it.
pub fn decode_end(table: TableKind, cells: &Vec<Cell>) -> (r: Result<(EntityKey, u64), Error>)
    ensures
        match end_refusal(table, cells.deep_view()) {
            Some(f) => refused(r, f),
            None => r == Ok::<(EntityKey, u64), Error>(
                (
                    entity_named(table, cells.deep_view()),
                    number(cells.deep_view()[key_width(table) as int]),
                ),
            ),
        },
{
    if !versioned_kind(table) {
        return Err(
            Error::Constraint(
                text_wrapped("update_set_end is not defined for ", kind_text(table), ""),
            ),
        );
    }
    let shape = shape_of_key(table, Want::Number);
    match check_row(table, &shape, cells) {
        Err(e) => return Err(e),
        Ok(()) => {},
    }
    let last: usize = cells.len() - 1;
    assert(cells.deep_view()[last as int] == cells@[last as int].deep_view());
    Ok((entity_of_cells(table, cells), number_of(&cells[last])))
}

/// Why a row that prunes a version is refused.
pub open spec fn prune_refusal(table: TableKind, cells: Seq<CellModel>) -> Option<Fault> {
    if key_width(table) == 0 {
        Some(corrupt(table, "not a versioned kind"@))
    } else {
        row_refusal(table, key_shape(table, Want::NumberOrNull), cells)
    }
}

/// The entity whose version is pruned, and the snapshot that ended it, if any.
pub fn decode_hard_delete(table: TableKind, cells: &Vec<Cell>) -> (r: Result<
    (EntityKey, Option<u64>),
    Error,
>)
    ensures
        match prune_refusal(table, cells.deep_view()) {
            Some(f) => refused(r, f),
            None => r == Ok::<(EntityKey, Option<u64>), Error>(
                (
                    entity_named(table, cells.deep_view()),
                    number_if(cells.deep_view()[key_width(table) as int]),
                ),
            ),
        },
{
    if !versioned_kind(table) {
        return Err(crate::rows::corrupt_row(table, "not a versioned kind"));
    }
    let shape = shape_of_key(table, Want::NumberOrNull);
    match check_row(table, &shape, cells) {
        Err(e) => return Err(e),
        Ok(()) => {},
    }
    let last: usize = cells.len() - 1;
    assert(cells.deep_view()[last as int] == cells@[last as int].deep_view());
    Ok((entity_of_cells(table, cells), number_if_any(&cells[last])))
}

/// A statistics record.
#[derive(Debug, Clone, Copy, PartialEq, Eq, Structural)]
pub enum StatsKey {
    /// Of a table.
    Table(u64),
    /// Of a column over its table: the table and the column.
    Column(u64, u64),
    /// Of a column over a data file: the table, the file and the column.
    FileColumn(u64, u64, u64),
}

/// The cells of a row that deletes statistics.
pub open spec fn stats_shape(table: TableKind) -> Seq<Want> {
    match table {
        TableKind::TableStats => seq![Want::Number],
        TableKind::TableColumnStats => seq![Want::Number, Want::Number],
        _ => seq![Want::Number, Want::Number, Want::Number],
    }
}

/// The statistics that a row deletes.
pub open spec fn stats_named(table: TableKind, cells: Seq<CellModel>) -> StatsKey {
    match table {
        TableKind::TableStats => StatsKey::Table(number(cells[0])),
        TableKind::TableColumnStats => StatsKey::Column(number(cells[0]), number(cells[1])),
        _ => StatsKey::FileColumn(number(cells[0]), number(cells[1]), number(cells[2])),
    }
}

/// Which statistics a row deletes.
pub fn decode_delete_key(table: TableKind, cells: &Vec<Cell>) -> (r: Result<StatsKey, Error>)
    ensures
        match row_refusal(table, stats_shape(table), cells.deep_view()) {
            Some(f) => refused(r, f),
            None => r == Ok::<StatsKey, Error>(stats_named(table, cells.deep_view())),
        },
{
    let shape: Vec<Want> = match table {
        TableKind::TableStats => vec![Want::Number],
        TableKind::TableColumnStats => vec![Want::Number, Want::Number],
        _ => vec![Want::Number, Want::Number, Want::Number],
    };
    assert(shape@ =~= stats_shape(table));
    match check_row(table, &shape, cells) {
        Err(e) => return Err(e),
        Ok(()) => {},
    }
    assert(forall|i: int| 0 <= i < cells@.len() ==> cells.deep_view()[i] == (#[trigger] cells@[i]).deep_view());
    match table {
        TableKind::TableStats => Ok(StatsKey::Table(number_of(&cells[0]))),
        TableKind::TableColumnStats => Ok(
            StatsKey::Column(number_of(&cells[0]), number_of(&cells[1])),
        ),
        _ => Ok(
            StatsKey::FileColumn(
                number_of(&cells[0]),
                number_of(&cells[1]),
                number_of(&cells[2]),
            ),
        ),
    }
}

} // verus!
