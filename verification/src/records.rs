//! The records of the catalog, and their mathematical models.
use crate::api::{Direction, NullOrder};
use crate::ordered::{OrdMap, Record};
use vstd::prelude::*;

verus! {

/// One committed snapshot. Only the small mutation handle carries the counter
/// of deletion ids from one snapshot to the next; other commits leave it at
/// zero.
#[derive(Debug, PartialEq, Eq)]
pub struct SnapshotValue {
    pub snapshot_id: u64,
    pub snapshot_time_micros: i64,
    pub schema_version: u64,
    pub next_catalog_id: u64,
    pub next_file_id: u64,
    pub next_deletion_id: u64,
    pub changes_made: String,
    pub author: Option<String>,
    pub commit_message: Option<String>,
    pub commit_extra_info: Option<String>,
    pub schema_changed_table_ids: Vec<u64>,
}

/// The model of [`SnapshotValue`].
#[verifier::ext_equal]
pub struct SnapshotModel {
    pub snapshot_id: u64,
    pub snapshot_time_micros: i64,
    pub schema_version: u64,
    pub next_catalog_id: u64,
    pub next_file_id: u64,
    pub next_deletion_id: u64,
    pub changes_made: Seq<char>,
    pub author: Option<Seq<char>>,
    pub commit_message: Option<Seq<char>>,
    pub commit_extra_info: Option<Seq<char>>,
    pub schema_changed_table_ids: Seq<u64>,
}

impl View for SnapshotValue {
    type V = SnapshotModel;

    open spec fn view(&self) -> SnapshotModel {
        SnapshotModel {
            snapshot_id: self.snapshot_id.deep_view(),
            snapshot_time_micros: self.snapshot_time_micros.deep_view(),
            schema_version: self.schema_version.deep_view(),
            next_catalog_id: self.next_catalog_id.deep_view(),
            next_file_id: self.next_file_id.deep_view(),
            next_deletion_id: self.next_deletion_id.deep_view(),
            changes_made: self.changes_made.deep_view(),
            author: self.author.deep_view(),
            commit_message: self.commit_message.deep_view(),
            commit_extra_info: self.commit_extra_info.deep_view(),
            schema_changed_table_ids: self.schema_changed_table_ids.deep_view(),
        }
    }
}

impl DeepView for SnapshotValue {
    type V = SnapshotModel;

    open spec fn deep_view(&self) -> SnapshotModel {
        self.view()
    }
}

impl Record for SnapshotValue {
    fn dup(&self) -> (r: Self) {
        SnapshotValue {
            snapshot_id: self.snapshot_id.dup(),
            snapshot_time_micros: self.snapshot_time_micros.dup(),
            schema_version: self.schema_version.dup(),
            next_catalog_id: self.next_catalog_id.dup(),
            next_file_id: self.next_file_id.dup(),
            next_deletion_id: self.next_deletion_id.dup(),
            changes_made: self.changes_made.dup(),
            author: self.author.dup(),
            commit_message: self.commit_message.dup(),
            commit_extra_info: self.commit_extra_info.dup(),
            schema_changed_table_ids: self.schema_changed_table_ids.dup(),
        }
    }

    fn same(&self, other: &Self) -> (b: bool) {
        self.snapshot_id.same(&other.snapshot_id)
            && self.snapshot_time_micros.same(&other.snapshot_time_micros)
            && self.schema_version.same(&other.schema_version)
            && self.next_catalog_id.same(&other.next_catalog_id)
            && self.next_file_id.same(&other.next_file_id)
            && self.next_deletion_id.same(&other.next_deletion_id)
            && self.changes_made.same(&other.changes_made)
            && self.author.same(&other.author)
            && self.commit_message.same(&other.commit_message)
            && self.commit_extra_info.same(&other.commit_extra_info)
            && self.schema_changed_table_ids.same(&other.schema_changed_table_ids)
    }
}

impl Clone for SnapshotValue {
    fn clone(&self) -> (r: Self)
        ensures
            r@ == self@,
    {
        self.dup()
    }
}

/// One version of a schema.
#[derive(Debug, PartialEq, Eq)]
pub struct SchemaValue {
    pub schema_id: u64,
    pub schema_uuid: String,
    pub begin_snapshot: u64,
    pub end_snapshot: Option<u64>,
    pub schema_name: String,
    pub path: String,
    pub path_is_relative: bool,
}

/// The model of [`SchemaValue`].
#[verifier::ext_equal]
pub struct SchemaModel {
    pub schema_id: u64,
    pub schema_uuid: Seq<char>,
    pub begin_snapshot: u64,
    pub end_snapshot: Option<u64>,
    pub schema_name: Seq<char>,
    pub path: Seq<char>,
    pub path_is_relative: bool,
}

impl View for SchemaValue {
    type V = SchemaModel;

    open spec fn view(&self) -> SchemaModel {
        SchemaModel {
            schema_id: self.schema_id.deep_view(),
            schema_uuid: self.schema_uuid.deep_view(),
            begin_snapshot: self.begin_snapshot.deep_view(),
            end_snapshot: self.end_snapshot.deep_view(),
            schema_name: self.schema_name.deep_view(),
            path: self.path.deep_view(),
            path_is_relative: self.path_is_relative.deep_view(),
        }
    }
}

impl DeepView for SchemaValue {
    type V = SchemaModel;

    open spec fn deep_view(&self) -> SchemaModel {
        self.view()
    }
}

impl Record for SchemaValue {
    fn dup(&self) -> (r: Self) {
        SchemaValue {
            schema_id: self.schema_id.dup(),
            schema_uuid: self.schema_uuid.dup(),
            begin_snapshot: self.begin_snapshot.dup(),
            end_snapshot: self.end_snapshot.dup(),
            schema_name: self.schema_name.dup(),
            path: self.path.dup(),
            path_is_relative: self.path_is_relative.dup(),
        }
    }

    fn same(&self, other: &Self) -> (b: bool) {
        self.schema_id.same(&other.schema_id)
            && self.schema_uuid.same(&other.schema_uuid)
            && self.begin_snapshot.same(&other.begin_snapshot)
            && self.end_snapshot.same(&other.end_snapshot)
            && self.schema_name.same(&other.schema_name)
            && self.path.same(&other.path)
            && self.path_is_relative.same(&other.path_is_relative)
    }
}

impl Clone for SchemaValue {
    fn clone(&self) -> (r: Self)
        ensures
            r@ == self@,
    {
        self.dup()
    }
}

/// One version of a table; `next_column_id` is the counter of its field ids.
#[derive(Debug, PartialEq, Eq)]
pub struct TableValue {
    pub table_id: u64,
    pub table_uuid: String,
    pub begin_snapshot: u64,
    pub end_snapshot: Option<u64>,
    pub schema_id: u64,
    pub table_name: String,
    pub path: String,
    pub path_is_relative: bool,
    pub next_column_id: u64,
}

/// The model of [`TableValue`].
#[verifier::ext_equal]
pub struct TableModel {
    pub table_id: u64,
    pub table_uuid: Seq<char>,
    pub begin_snapshot: u64,
    pub end_snapshot: Option<u64>,
    pub schema_id: u64,
    pub table_name: Seq<char>,
    pub path: Seq<char>,
    pub path_is_relative: bool,
    pub next_column_id: u64,
}

impl View for TableValue {
    type V = TableModel;

    open spec fn view(&self) -> TableModel {
        TableModel {
            table_id: self.table_id.deep_view(),
            table_uuid: self.table_uuid.deep_view(),
            begin_snapshot: self.begin_snapshot.deep_view(),
            end_snapshot: self.end_snapshot.deep_view(),
            schema_id: self.schema_id.deep_view(),
            table_name: self.table_name.deep_view(),
            path: self.path.deep_view(),
            path_is_relative: self.path_is_relative.deep_view(),
            next_column_id: self.next_column_id.deep_view(),
        }
    }
}

impl DeepView for TableValue {
    type V = TableModel;

    open spec fn deep_view(&self) -> TableModel {
        self.view()
    }
}

impl Record for TableValue {
    fn dup(&self) -> (r: Self) {
        TableValue {
            table_id: self.table_id.dup(),
            table_uuid: self.table_uuid.dup(),
            begin_snapshot: self.begin_snapshot.dup(),
            end_snapshot: self.end_snapshot.dup(),
            schema_id: self.schema_id.dup(),
            table_name: self.table_name.dup(),
            path: self.path.dup(),
            path_is_relative: self.path_is_relative.dup(),
            next_column_id: self.next_column_id.dup(),
        }
    }

    fn same(&self, other: &Self) -> (b: bool) {
        self.table_id.same(&other.table_id)
            && self.table_uuid.same(&other.table_uuid)
            && self.begin_snapshot.same(&other.begin_snapshot)
            && self.end_snapshot.same(&other.end_snapshot)
            && self.schema_id.same(&other.schema_id)
            && self.table_name.same(&other.table_name)
            && self.path.same(&other.path)
            && self.path_is_relative.same(&other.path_is_relative)
            && self.next_column_id.same(&other.next_column_id)
    }
}

impl Clone for TableValue {
    fn clone(&self) -> (r: Self)
        ensures
            r@ == self@,
    {
        self.dup()
    }
}

/// One version of a view.
#[derive(Debug, PartialEq, Eq)]
pub struct ViewValue {
    pub view_id: u64,
    pub view_uuid: String,
    pub begin_snapshot: u64,
    pub end_snapshot: Option<u64>,
    pub schema_id: u64,
    pub view_name: String,
    pub dialect: String,
    pub sql: String,
    pub column_aliases: Option<String>,
}

/// The model of [`ViewValue`].
#[verifier::ext_equal]
pub struct ViewModel {
    pub view_id: u64,
    pub view_uuid: Seq<char>,
    pub begin_snapshot: u64,
    pub end_snapshot: Option<u64>,
    pub schema_id: u64,
    pub view_name: Seq<char>,
    pub dialect: Seq<char>,
    pub sql: Seq<char>,
    pub column_aliases: Option<Seq<char>>,
}

impl View for ViewValue {
    type V = ViewModel;

    open spec fn view(&self) -> ViewModel {
        ViewModel {
            view_id: self.view_id.deep_view(),
            view_uuid: self.view_uuid.deep_view(),
            begin_snapshot: self.begin_snapshot.deep_view(),
            end_snapshot: self.end_snapshot.deep_view(),
            schema_id: self.schema_id.deep_view(),
            view_name: self.view_name.deep_view(),
            dialect: self.dialect.deep_view(),
            sql: self.sql.deep_view(),
            column_aliases: self.column_aliases.deep_view(),
        }
    }
}

impl DeepView for ViewValue {
    type V = ViewModel;

    open spec fn deep_view(&self) -> ViewModel {
        self.view()
    }
}

impl Record for ViewValue {
    fn dup(&self) -> (r: Self) {
        ViewValue {
            view_id: self.view_id.dup(),
            view_uuid: self.view_uuid.dup(),
            begin_snapshot: self.begin_snapshot.dup(),
            end_snapshot: self.end_snapshot.dup(),
            schema_id: self.schema_id.dup(),
            view_name: self.view_name.dup(),
            dialect: self.dialect.dup(),
            sql: self.sql.dup(),
            column_aliases: self.column_aliases.dup(),
        }
    }

    fn same(&self, other: &Self) -> (b: bool) {
        self.view_id.same(&other.view_id)
            && self.view_uuid.same(&other.view_uuid)
            && self.begin_snapshot.same(&other.begin_snapshot)
            && self.end_snapshot.same(&other.end_snapshot)
            && self.schema_id.same(&other.schema_id)
            && self.view_name.same(&other.view_name)
            && self.dialect.same(&other.dialect)
            && self.sql.same(&other.sql)
            && self.column_aliases.same(&other.column_aliases)
    }
}

impl Clone for ViewValue {
    fn clone(&self) -> (r: Self)
        ensures
            r@ == self@,
    {
        self.dup()
    }
}

/// A tag with its own lifetime.
#[derive(Debug, PartialEq, Eq)]
pub struct TagEntry {
    pub key: String,
    pub value: String,
    pub begin_snapshot: u64,
    pub end_snapshot: Option<u64>,
}

/// The model of [`TagEntry`].
#[verifier::ext_equal]
pub struct TagEntryModel {
    pub key: Seq<char>,
    pub value: Seq<char>,
    pub begin_snapshot: u64,
    pub end_snapshot: Option<u64>,
}

impl View for TagEntry {
    type V = TagEntryModel;

    open spec fn view(&self) -> TagEntryModel {
        TagEntryModel {
            key: self.key.deep_view(),
            value: self.value.deep_view(),
            begin_snapshot: self.begin_snapshot.deep_view(),
            end_snapshot: self.end_snapshot.deep_view(),
        }
    }
}

impl DeepView for TagEntry {
    type V = TagEntryModel;

    open spec fn deep_view(&self) -> TagEntryModel {
        self.view()
    }
}

impl Record for TagEntry {
    fn dup(&self) -> (r: Self) {
        TagEntry {
            key: self.key.dup(),
            value: self.value.dup(),
            begin_snapshot: self.begin_snapshot.dup(),
            end_snapshot: self.end_snapshot.dup(),
        }
    }

    fn same(&self, other: &Self) -> (b: bool) {
        self.key.same(&other.key)
            && self.value.same(&other.value)
            && self.begin_snapshot.same(&other.begin_snapshot)
            && self.end_snapshot.same(&other.end_snapshot)
    }
}

impl Clone for TagEntry {
    fn clone(&self) -> (r: Self)
        ensures
            r@ == self@,
    {
        self.dup()
    }
}

/// One version of a column, with its tags.
#[derive(Debug, PartialEq, Eq)]
pub struct ColumnValue {
    pub column_id: u64,
    pub begin_snapshot: u64,
    pub end_snapshot: Option<u64>,
    pub table_id: u64,
    pub column_order: u64,
    pub column_name: String,
    pub column_type: String,
    pub initial_default: Option<String>,
    pub default_value: Option<String>,
    pub nulls_allowed: bool,
    pub parent_column: Option<u64>,
    pub default_value_type: Option<String>,
    pub default_value_dialect: Option<String>,
    pub tags: Vec<TagEntry>,
}

/// The model of [`ColumnValue`].
#[verifier::ext_equal]
pub struct ColumnModel {
    pub column_id: u64,
    pub begin_snapshot: u64,
    pub end_snapshot: Option<u64>,
    pub table_id: u64,
    pub column_order: u64,
    pub column_name: Seq<char>,
    pub column_type: Seq<char>,
    pub initial_default: Option<Seq<char>>,
    pub default_value: Option<Seq<char>>,
    pub nulls_allowed: bool,
    pub parent_column: Option<u64>,
    pub default_value_type: Option<Seq<char>>,
    pub default_value_dialect: Option<Seq<char>>,
    pub tags: Seq<TagEntryModel>,
}

impl View for ColumnValue {
    type V = ColumnModel;

    open spec fn view(&self) -> ColumnModel {
        ColumnModel {
            column_id: self.column_id.deep_view(),
            begin_snapshot: self.begin_snapshot.deep_view(),
            end_snapshot: self.end_snapshot.deep_view(),
            table_id: self.table_id.deep_view(),
            column_order: self.column_order.deep_view(),
            column_name: self.column_name.deep_view(),
            column_type: self.column_type.deep_view(),
            initial_default: self.initial_default.deep_view(),
            default_value: self.default_value.deep_view(),
            nulls_allowed: self.nulls_allowed.deep_view(),
            parent_column: self.parent_column.deep_view(),
            default_value_type: self.default_value_type.deep_view(),
            default_value_dialect: self.default_value_dialect.deep_view(),
            tags: self.tags.deep_view(),
        }
    }
}

impl DeepView for ColumnValue {
    type V = ColumnModel;

    open spec fn deep_view(&self) -> ColumnModel {
        self.view()
    }
}

impl Record for ColumnValue {
    fn dup(&self) -> (r: Self) {
        ColumnValue {
            column_id: self.column_id.dup(),
            begin_snapshot: self.begin_snapshot.dup(),
            end_snapshot: self.end_snapshot.dup(),
            table_id: self.table_id.dup(),
            column_order: self.column_order.dup(),
            column_name: self.column_name.dup(),
            column_type: self.column_type.dup(),
            initial_default: self.initial_default.dup(),
            default_value: self.default_value.dup(),
            nulls_allowed: self.nulls_allowed.dup(),
            parent_column: self.parent_column.dup(),
            default_value_type: self.default_value_type.dup(),
            default_value_dialect: self.default_value_dialect.dup(),
            tags: self.tags.dup(),
        }
    }

    fn same(&self, other: &Self) -> (b: bool) {
        self.column_id.same(&other.column_id)
            && self.begin_snapshot.same(&other.begin_snapshot)
            && self.end_snapshot.same(&other.end_snapshot)
            && self.table_id.same(&other.table_id)
            && self.column_order.same(&other.column_order)
            && self.column_name.same(&other.column_name)
            && self.column_type.same(&other.column_type)
            && self.initial_default.same(&other.initial_default)
            && self.default_value.same(&other.default_value)
            && self.nulls_allowed.same(&other.nulls_allowed)
            && self.parent_column.same(&other.parent_column)
            && self.default_value_type.same(&other.default_value_type)
            && self.default_value_dialect.same(&other.default_value_dialect)
            && self.tags.same(&other.tags)
    }
}

impl Clone for ColumnValue {
    fn clone(&self) -> (r: Self)
        ensures
            r@ == self@,
    {
        self.dup()
    }
}

/// The value of one partition key for a data file.
#[derive(Debug, PartialEq, Eq)]
pub struct FilePartitionValue {
    pub partition_key_index: u64,
    pub partition_value: Option<String>,
}

/// The model of [`FilePartitionValue`].
#[verifier::ext_equal]
pub struct FilePartitionValueModel {
    pub partition_key_index: u64,
    pub partition_value: Option<Seq<char>>,
}

impl View for FilePartitionValue {
    type V = FilePartitionValueModel;

    open spec fn view(&self) -> FilePartitionValueModel {
        FilePartitionValueModel {
            partition_key_index: self.partition_key_index.deep_view(),
            partition_value: self.partition_value.deep_view(),
        }
    }
}

impl DeepView for FilePartitionValue {
    type V = FilePartitionValueModel;

    open spec fn deep_view(&self) -> FilePartitionValueModel {
        self.view()
    }
}

impl Record for FilePartitionValue {
    fn dup(&self) -> (r: Self) {
        FilePartitionValue {
            partition_key_index: self.partition_key_index.dup(),
            partition_value: self.partition_value.dup(),
        }
    }

    fn same(&self, other: &Self) -> (b: bool) {
        self.partition_key_index.same(&other.partition_key_index)
            && self.partition_value.same(&other.partition_value)
    }
}

impl Clone for FilePartitionValue {
    fn clone(&self) -> (r: Self)
        ensures
            r@ == self@,
    {
        self.dup()
    }
}

/// One version of a data file.
#[derive(Debug, PartialEq, Eq)]
pub struct DataFileValue {
    pub data_file_id: u64,
    pub table_id: u64,
    pub begin_snapshot: u64,
    pub end_snapshot: Option<u64>,
    pub file_order: Option<u64>,
    pub path: String,
    pub path_is_relative: bool,
    pub file_format: String,
    pub record_count: u64,
    pub file_size_bytes: u64,
    pub footer_size: u64,
    pub row_id_start: Option<u64>,
    pub partition_id: Option<u64>,
    pub encryption_key: Option<String>,
    pub mapping_id: Option<u64>,
    pub partial_max: Option<u64>,
    pub partition_values: Vec<FilePartitionValue>,
}

/// The model of [`DataFileValue`].
#[verifier::ext_equal]
pub struct DataFileModel {
    pub data_file_id: u64,
    pub table_id: u64,
    pub begin_snapshot: u64,
    pub end_snapshot: Option<u64>,
    pub file_order: Option<u64>,
    pub path: Seq<char>,
    pub path_is_relative: bool,
    pub file_format: Seq<char>,
    pub record_count: u64,
    pub file_size_bytes: u64,
    pub footer_size: u64,
    pub row_id_start: Option<u64>,
    pub partition_id: Option<u64>,
    pub encryption_key: Option<Seq<char>>,
    pub mapping_id: Option<u64>,
    pub partial_max: Option<u64>,
    pub partition_values: Seq<FilePartitionValueModel>,
}

impl View for DataFileValue {
    type V = DataFileModel;

    open spec fn view(&self) -> DataFileModel {
        DataFileModel {
            data_file_id: self.data_file_id.deep_view(),
            table_id: self.table_id.deep_view(),
            begin_snapshot: self.begin_snapshot.deep_view(),
            end_snapshot: self.end_snapshot.deep_view(),
            file_order: self.file_order.deep_view(),
            path: self.path.deep_view(),
            path_is_relative: self.path_is_relative.deep_view(),
            file_format: self.file_format.deep_view(),
            record_count: self.record_count.deep_view(),
            file_size_bytes: self.file_size_bytes.deep_view(),
            footer_size: self.footer_size.deep_view(),
            row_id_start: self.row_id_start.deep_view(),
            partition_id: self.partition_id.deep_view(),
            encryption_key: self.encryption_key.deep_view(),
            mapping_id: self.mapping_id.deep_view(),
            partial_max: self.partial_max.deep_view(),
            partition_values: self.partition_values.deep_view(),
        }
    }
}

impl DeepView for DataFileValue {
    type V = DataFileModel;

    open spec fn deep_view(&self) -> DataFileModel {
        self.view()
    }
}

impl Record for DataFileValue {
    fn dup(&self) -> (r: Self) {
        DataFileValue {
            data_file_id: self.data_file_id.dup(),
            table_id: self.table_id.dup(),
            begin_snapshot: self.begin_snapshot.dup(),
            end_snapshot: self.end_snapshot.dup(),
            file_order: self.file_order.dup(),
            path: self.path.dup(),
            path_is_relative: self.path_is_relative.dup(),
            file_format: self.file_format.dup(),
            record_count: self.record_count.dup(),
            file_size_bytes: self.file_size_bytes.dup(),
            footer_size: self.footer_size.dup(),
            row_id_start: self.row_id_start.dup(),
            partition_id: self.partition_id.dup(),
            encryption_key: self.encryption_key.dup(),
            mapping_id: self.mapping_id.dup(),
            partial_max: self.partial_max.dup(),
            partition_values: self.partition_values.dup(),
        }
    }

    fn same(&self, other: &Self) -> (b: bool) {
        self.data_file_id.same(&other.data_file_id)
            && self.table_id.same(&other.table_id)
            && self.begin_snapshot.same(&other.begin_snapshot)
            && self.end_snapshot.same(&other.end_snapshot)
            && self.file_order.same(&other.file_order)
            && self.path.same(&other.path)
            && self.path_is_relative.same(&other.path_is_relative)
            && self.file_format.same(&other.file_format)
            && self.record_count.same(&other.record_count)
            && self.file_size_bytes.same(&other.file_size_bytes)
            && self.footer_size.same(&other.footer_size)
            && self.row_id_start.same(&other.row_id_start)
            && self.partition_id.same(&other.partition_id)
            && self.encryption_key.same(&other.encryption_key)
            && self.mapping_id.same(&other.mapping_id)
            && self.partial_max.same(&other.partial_max)
            && self.partition_values.same(&other.partition_values)
    }
}

impl Clone for DataFileValue {
    fn clone(&self) -> (r: Self)
        ensures
            r@ == self@,
    {
        self.dup()
    }
}

/// One version of a delete file.
#[derive(Debug, PartialEq, Eq)]
pub struct DeleteFileValue {
    pub delete_file_id: u64,
    pub table_id: u64,
    pub begin_snapshot: u64,
    pub end_snapshot: Option<u64>,
    pub data_file_id: u64,
    pub path: String,
    pub path_is_relative: bool,
    pub format: String,
    pub delete_count: u64,
    pub file_size_bytes: u64,
    pub footer_size: u64,
    pub encryption_key: Option<String>,
    pub partial_max: Option<u64>,
}

/// The model of [`DeleteFileValue`].
#[verifier::ext_equal]
pub struct DeleteFileModel {
    pub delete_file_id: u64,
    pub table_id: u64,
    pub begin_snapshot: u64,
    pub end_snapshot: Option<u64>,
    pub data_file_id: u64,
    pub path: Seq<char>,
    pub path_is_relative: bool,
    pub format: Seq<char>,
    pub delete_count: u64,
    pub file_size_bytes: u64,
    pub footer_size: u64,
    pub encryption_key: Option<Seq<char>>,
    pub partial_max: Option<u64>,
}

impl View for DeleteFileValue {
    type V = DeleteFileModel;

    open spec fn view(&self) -> DeleteFileModel {
        DeleteFileModel {
            delete_file_id: self.delete_file_id.deep_view(),
            table_id: self.table_id.deep_view(),
            begin_snapshot: self.begin_snapshot.deep_view(),
            end_snapshot: self.end_snapshot.deep_view(),
            data_file_id: self.data_file_id.deep_view(),
            path: self.path.deep_view(),
            path_is_relative: self.path_is_relative.deep_view(),
            format: self.format.deep_view(),
            delete_count: self.delete_count.deep_view(),
            file_size_bytes: self.file_size_bytes.deep_view(),
            footer_size: self.footer_size.deep_view(),
            encryption_key: self.encryption_key.deep_view(),
            partial_max: self.partial_max.deep_view(),
        }
    }
}

impl DeepView for DeleteFileValue {
    type V = DeleteFileModel;

    open spec fn deep_view(&self) -> DeleteFileModel {
        self.view()
    }
}

impl Record for DeleteFileValue {
    fn dup(&self) -> (r: Self) {
        DeleteFileValue {
            delete_file_id: self.delete_file_id.dup(),
            table_id: self.table_id.dup(),
            begin_snapshot: self.begin_snapshot.dup(),
            end_snapshot: self.end_snapshot.dup(),
            data_file_id: self.data_file_id.dup(),
            path: self.path.dup(),
            path_is_relative: self.path_is_relative.dup(),
            format: self.format.dup(),
            delete_count: self.delete_count.dup(),
            file_size_bytes: self.file_size_bytes.dup(),
            footer_size: self.footer_size.dup(),
            encryption_key: self.encryption_key.dup(),
            partial_max: self.partial_max.dup(),
        }
    }

    fn same(&self, other: &Self) -> (b: bool) {
        self.delete_file_id.same(&other.delete_file_id)
            && self.table_id.same(&other.table_id)
            && self.begin_snapshot.same(&other.begin_snapshot)
            && self.end_snapshot.same(&other.end_snapshot)
            && self.data_file_id.same(&other.data_file_id)
            && self.path.same(&other.path)
            && self.path_is_relative.same(&other.path_is_relative)
            && self.format.same(&other.format)
            && self.delete_count.same(&other.delete_count)
            && self.file_size_bytes.same(&other.file_size_bytes)
            && self.footer_size.same(&other.footer_size)
            && self.encryption_key.same(&other.encryption_key)
            && self.partial_max.same(&other.partial_max)
    }
}

impl Clone for DeleteFileValue {
    fn clone(&self) -> (r: Self)
        ensures
            r@ == self@,
    {
        self.dup()
    }
}

/// Row count, row-id counter and size of a table.
#[derive(Debug, PartialEq, Eq)]
pub struct TableStatsValue {
    pub table_id: u64,
    pub record_count: u64,
    pub next_row_id: u64,
    pub file_size_bytes: u64,
}

/// The model of [`TableStatsValue`].
#[verifier::ext_equal]
pub struct TableStatsModel {
    pub table_id: u64,
    pub record_count: u64,
    pub next_row_id: u64,
    pub file_size_bytes: u64,
}

impl View for TableStatsValue {
    type V = TableStatsModel;

    open spec fn view(&self) -> TableStatsModel {
        TableStatsModel {
            table_id: self.table_id.deep_view(),
            record_count: self.record_count.deep_view(),
            next_row_id: self.next_row_id.deep_view(),
            file_size_bytes: self.file_size_bytes.deep_view(),
        }
    }
}

impl DeepView for TableStatsValue {
    type V = TableStatsModel;

    open spec fn deep_view(&self) -> TableStatsModel {
        self.view()
    }
}

impl Record for TableStatsValue {
    fn dup(&self) -> (r: Self) {
        TableStatsValue {
            table_id: self.table_id.dup(),
            record_count: self.record_count.dup(),
            next_row_id: self.next_row_id.dup(),
            file_size_bytes: self.file_size_bytes.dup(),
        }
    }

    fn same(&self, other: &Self) -> (b: bool) {
        self.table_id.same(&other.table_id)
            && self.record_count.same(&other.record_count)
            && self.next_row_id.same(&other.next_row_id)
            && self.file_size_bytes.same(&other.file_size_bytes)
    }
}

impl Clone for TableStatsValue {
    fn clone(&self) -> (r: Self)
        ensures
            r@ == self@,
    {
        self.dup()
    }
}

/// Statistics of one column over a table.
#[derive(Debug, PartialEq, Eq)]
pub struct TableColumnStatsValue {
    pub table_id: u64,
    pub column_id: u64,
    pub contains_null: Option<bool>,
    pub contains_nan: Option<bool>,
    pub min_value: Option<String>,
    pub max_value: Option<String>,
    pub extra_stats: Option<String>,
}

/// The model of [`TableColumnStatsValue`].
#[verifier::ext_equal]
pub struct TableColumnStatsModel {
    pub table_id: u64,
    pub column_id: u64,
    pub contains_null: Option<bool>,
    pub contains_nan: Option<bool>,
    pub min_value: Option<Seq<char>>,
    pub max_value: Option<Seq<char>>,
    pub extra_stats: Option<Seq<char>>,
}

impl View for TableColumnStatsValue {
    type V = TableColumnStatsModel;

    open spec fn view(&self) -> TableColumnStatsModel {
        TableColumnStatsModel {
            table_id: self.table_id.deep_view(),
            column_id: self.column_id.deep_view(),
            contains_null: self.contains_null.deep_view(),
            contains_nan: self.contains_nan.deep_view(),
            min_value: self.min_value.deep_view(),
            max_value: self.max_value.deep_view(),
            extra_stats: self.extra_stats.deep_view(),
        }
    }
}

impl DeepView for TableColumnStatsValue {
    type V = TableColumnStatsModel;

    open spec fn deep_view(&self) -> TableColumnStatsModel {
        self.view()
    }
}

impl Record for TableColumnStatsValue {
    fn dup(&self) -> (r: Self) {
        TableColumnStatsValue {
            table_id: self.table_id.dup(),
            column_id: self.column_id.dup(),
            contains_null: self.contains_null.dup(),
            contains_nan: self.contains_nan.dup(),
            min_value: self.min_value.dup(),
            max_value: self.max_value.dup(),
            extra_stats: self.extra_stats.dup(),
        }
    }

    fn same(&self, other: &Self) -> (b: bool) {
        self.table_id.same(&other.table_id)
            && self.column_id.same(&other.column_id)
            && self.contains_null.same(&other.contains_null)
            && self.contains_nan.same(&other.contains_nan)
            && self.min_value.same(&other.min_value)
            && self.max_value.same(&other.max_value)
            && self.extra_stats.same(&other.extra_stats)
    }
}

impl Clone for TableColumnStatsValue {
    fn clone(&self) -> (r: Self)
        ensures
            r@ == self@,
    {
        self.dup()
    }
}

/// Statistics of one column in one data file.
#[derive(Debug, PartialEq, Eq)]
pub struct FileColumnStatsValue {
    pub data_file_id: u64,
    pub table_id: u64,
    pub column_id: u64,
    pub column_size_bytes: u64,
    pub value_count: u64,
    pub null_count: u64,
    pub min_value: Option<String>,
    pub max_value: Option<String>,
    pub contains_nan: Option<bool>,
    pub extra_stats: Option<String>,
    pub variant_stats: Vec<String>,
}

/// The model of [`FileColumnStatsValue`].
#[verifier::ext_equal]
pub struct FileColumnStatsModel {
    pub data_file_id: u64,
    pub table_id: u64,
    pub column_id: u64,
    pub column_size_bytes: u64,
    pub value_count: u64,
    pub null_count: u64,
    pub min_value: Option<Seq<char>>,
    pub max_value: Option<Seq<char>>,
    pub contains_nan: Option<bool>,
    pub extra_stats: Option<Seq<char>>,
    pub variant_stats: Seq<Seq<char>>,
}

impl View for FileColumnStatsValue {
    type V = FileColumnStatsModel;

    open spec fn view(&self) -> FileColumnStatsModel {
        FileColumnStatsModel {
            data_file_id: self.data_file_id.deep_view(),
            table_id: self.table_id.deep_view(),
            column_id: self.column_id.deep_view(),
            column_size_bytes: self.column_size_bytes.deep_view(),
            value_count: self.value_count.deep_view(),
            null_count: self.null_count.deep_view(),
            min_value: self.min_value.deep_view(),
            max_value: self.max_value.deep_view(),
            contains_nan: self.contains_nan.deep_view(),
            extra_stats: self.extra_stats.deep_view(),
            variant_stats: self.variant_stats.deep_view(),
        }
    }
}

impl DeepView for FileColumnStatsValue {
    type V = FileColumnStatsModel;

    open spec fn deep_view(&self) -> FileColumnStatsModel {
        self.view()
    }
}

impl Record for FileColumnStatsValue {
    fn dup(&self) -> (r: Self) {
        FileColumnStatsValue {
            data_file_id: self.data_file_id.dup(),
            table_id: self.table_id.dup(),
            column_id: self.column_id.dup(),
            column_size_bytes: self.column_size_bytes.dup(),
            value_count: self.value_count.dup(),
            null_count: self.null_count.dup(),
            min_value: self.min_value.dup(),
            max_value: self.max_value.dup(),
            contains_nan: self.contains_nan.dup(),
            extra_stats: self.extra_stats.dup(),
            variant_stats: self.variant_stats.dup(),
        }
    }

    fn same(&self, other: &Self) -> (b: bool) {
        self.data_file_id.same(&other.data_file_id)
            && self.table_id.same(&other.table_id)
            && self.column_id.same(&other.column_id)
            && self.column_size_bytes.same(&other.column_size_bytes)
            && self.value_count.same(&other.value_count)
            && self.null_count.same(&other.null_count)
            && self.min_value.same(&other.min_value)
            && self.max_value.same(&other.max_value)
            && self.contains_nan.same(&other.contains_nan)
            && self.extra_stats.same(&other.extra_stats)
            && self.variant_stats.same(&other.variant_stats)
    }
}

impl Clone for FileColumnStatsValue {
    fn clone(&self) -> (r: Self)
        ensures
            r@ == self@,
    {
        self.dup()
    }
}

/// One key of a partition spec.
#[derive(Debug, PartialEq, Eq)]
pub struct PartitionColumn {
    pub partition_key_index: u64,
    pub column_id: u64,
    pub transform: String,
}

/// The model of [`PartitionColumn`].
#[verifier::ext_equal]
pub struct PartitionColumnModel {
    pub partition_key_index: u64,
    pub column_id: u64,
    pub transform: Seq<char>,
}

impl View for PartitionColumn {
    type V = PartitionColumnModel;

    open spec fn view(&self) -> PartitionColumnModel {
        PartitionColumnModel {
            partition_key_index: self.partition_key_index.deep_view(),
            column_id: self.column_id.deep_view(),
            transform: self.transform.deep_view(),
        }
    }
}

impl DeepView for PartitionColumn {
    type V = PartitionColumnModel;

    open spec fn deep_view(&self) -> PartitionColumnModel {
        self.view()
    }
}

impl Record for PartitionColumn {
    fn dup(&self) -> (r: Self) {
        PartitionColumn {
            partition_key_index: self.partition_key_index.dup(),
            column_id: self.column_id.dup(),
            transform: self.transform.dup(),
        }
    }

    fn same(&self, other: &Self) -> (b: bool) {
        self.partition_key_index.same(&other.partition_key_index)
            && self.column_id.same(&other.column_id)
            && self.transform.same(&other.transform)
    }
}

impl Clone for PartitionColumn {
    fn clone(&self) -> (r: Self)
        ensures
            r@ == self@,
    {
        self.dup()
    }
}

/// One version of a partition spec.
#[derive(Debug, PartialEq, Eq)]
pub struct PartitionValue {
    pub partition_id: u64,
    pub table_id: u64,
    pub begin_snapshot: u64,
    pub end_snapshot: Option<u64>,
    pub columns: Vec<PartitionColumn>,
}

/// The model of [`PartitionValue`].
#[verifier::ext_equal]
pub struct PartitionModel {
    pub partition_id: u64,
    pub table_id: u64,
    pub begin_snapshot: u64,
    pub end_snapshot: Option<u64>,
    pub columns: Seq<PartitionColumnModel>,
}

impl View for PartitionValue {
    type V = PartitionModel;

    open spec fn view(&self) -> PartitionModel {
        PartitionModel {
            partition_id: self.partition_id.deep_view(),
            table_id: self.table_id.deep_view(),
            begin_snapshot: self.begin_snapshot.deep_view(),
            end_snapshot: self.end_snapshot.deep_view(),
            columns: self.columns.deep_view(),
        }
    }
}

impl DeepView for PartitionValue {
    type V = PartitionModel;

    open spec fn deep_view(&self) -> PartitionModel {
        self.view()
    }
}

impl Record for PartitionValue {
    fn dup(&self) -> (r: Self) {
        PartitionValue {
            partition_id: self.partition_id.dup(),
            table_id: self.table_id.dup(),
            begin_snapshot: self.begin_snapshot.dup(),
            end_snapshot: self.end_snapshot.dup(),
            columns: self.columns.dup(),
        }
    }

    fn same(&self, other: &Self) -> (b: bool) {
        self.partition_id.same(&other.partition_id)
            && self.table_id.same(&other.table_id)
            && self.begin_snapshot.same(&other.begin_snapshot)
            && self.end_snapshot.same(&other.end_snapshot)
            && self.columns.same(&other.columns)
    }
}

impl Clone for PartitionValue {
    fn clone(&self) -> (r: Self)
        ensures
            r@ == self@,
    {
        self.dup()
    }
}

/// One key of a sort spec.
#[derive(Debug, PartialEq, Eq)]
pub struct SortExpression {
    pub sort_key_index: u64,
    pub expression: String,
    pub dialect: String,
    pub sort_direction: String,
    pub null_order: String,
}

/// The model of [`SortExpression`].
#[verifier::ext_equal]
pub struct SortExpressionModel {
    pub sort_key_index: u64,
    pub expression: Seq<char>,
    pub dialect: Seq<char>,
    pub sort_direction: Seq<char>,
    pub null_order: Seq<char>,
}

impl View for SortExpression {
    type V = SortExpressionModel;

    open spec fn view(&self) -> SortExpressionModel {
        SortExpressionModel {
            sort_key_index: self.sort_key_index.deep_view(),
            expression: self.expression.deep_view(),
            dialect: self.dialect.deep_view(),
            sort_direction: self.sort_direction.deep_view(),
            null_order: self.null_order.deep_view(),
        }
    }
}

impl DeepView for SortExpression {
    type V = SortExpressionModel;

    open spec fn deep_view(&self) -> SortExpressionModel {
        self.view()
    }
}

impl Record for SortExpression {
    fn dup(&self) -> (r: Self) {
        SortExpression {
            sort_key_index: self.sort_key_index.dup(),
            expression: self.expression.dup(),
            dialect: self.dialect.dup(),
            sort_direction: self.sort_direction.dup(),
            null_order: self.null_order.dup(),
        }
    }

    fn same(&self, other: &Self) -> (b: bool) {
        self.sort_key_index.same(&other.sort_key_index)
            && self.expression.same(&other.expression)
            && self.dialect.same(&other.dialect)
            && self.sort_direction.same(&other.sort_direction)
            && self.null_order.same(&other.null_order)
    }
}

impl Clone for SortExpression {
    fn clone(&self) -> (r: Self)
        ensures
            r@ == self@,
    {
        self.dup()
    }
}

/// One version of a sort spec.
#[derive(Debug, PartialEq, Eq)]
pub struct SortValue {
    pub sort_id: u64,
    pub table_id: u64,
    pub begin_snapshot: u64,
    pub end_snapshot: Option<u64>,
    pub expressions: Vec<SortExpression>,
}

/// The model of [`SortValue`].
#[verifier::ext_equal]
pub struct SortModel {
    pub sort_id: u64,
    pub table_id: u64,
    pub begin_snapshot: u64,
    pub end_snapshot: Option<u64>,
    pub expressions: Seq<SortExpressionModel>,
}

impl View for SortValue {
    type V = SortModel;

    open spec fn view(&self) -> SortModel {
        SortModel {
            sort_id: self.sort_id.deep_view(),
            table_id: self.table_id.deep_view(),
            begin_snapshot: self.begin_snapshot.deep_view(),
            end_snapshot: self.end_snapshot.deep_view(),
            expressions: self.expressions.deep_view(),
        }
    }
}

impl DeepView for SortValue {
    type V = SortModel;

    open spec fn deep_view(&self) -> SortModel {
        self.view()
    }
}

impl Record for SortValue {
    fn dup(&self) -> (r: Self) {
        SortValue {
            sort_id: self.sort_id.dup(),
            table_id: self.table_id.dup(),
            begin_snapshot: self.begin_snapshot.dup(),
            end_snapshot: self.end_snapshot.dup(),
            expressions: self.expressions.dup(),
        }
    }

    fn same(&self, other: &Self) -> (b: bool) {
        self.sort_id.same(&other.sort_id)
            && self.table_id.same(&other.table_id)
            && self.begin_snapshot.same(&other.begin_snapshot)
            && self.end_snapshot.same(&other.end_snapshot)
            && self.expressions.same(&other.expressions)
    }
}

impl Clone for SortValue {
    fn clone(&self) -> (r: Self)
        ensures
            r@ == self@,
    {
        self.dup()
    }
}

/// One version of an equality index, with the direction of each of its columns and where
/// the NULLs of each sort; `build_state` is set while it is built in steps.
#[derive(Debug, PartialEq, Eq)]
pub struct IndexValue {
    pub index_id: u64,
    pub table_id: u64,
    pub begin_snapshot: u64,
    pub end_snapshot: Option<u64>,
    pub index_name: String,
    pub columns: Vec<u64>,
    pub unique: bool,
    pub directions: Vec<Direction>,
    pub nulls: Vec<NullOrder>,
    pub build_state: Option<u64>,
}

/// The model of [`IndexValue`].
#[verifier::ext_equal]
pub struct IndexModel {
    pub index_id: u64,
    pub table_id: u64,
    pub begin_snapshot: u64,
    pub end_snapshot: Option<u64>,
    pub index_name: Seq<char>,
    pub columns: Seq<u64>,
    pub unique: bool,
    pub directions: Seq<Direction>,
    pub nulls: Seq<NullOrder>,
    pub build_state: Option<u64>,
}

impl View for IndexValue {
    type V = IndexModel;

    open spec fn view(&self) -> IndexModel {
        IndexModel {
            index_id: self.index_id.deep_view(),
            table_id: self.table_id.deep_view(),
            begin_snapshot: self.begin_snapshot.deep_view(),
            end_snapshot: self.end_snapshot.deep_view(),
            index_name: self.index_name.deep_view(),
            columns: self.columns.deep_view(),
            unique: self.unique.deep_view(),
            directions: self.directions.deep_view(),
            nulls: self.nulls.deep_view(),
            build_state: self.build_state.deep_view(),
        }
    }
}

impl DeepView for IndexValue {
    type V = IndexModel;

    open spec fn deep_view(&self) -> IndexModel {
        self.view()
    }
}

impl Record for IndexValue {
    fn dup(&self) -> (r: Self) {
        IndexValue {
            index_id: self.index_id.dup(),
            table_id: self.table_id.dup(),
            begin_snapshot: self.begin_snapshot.dup(),
            end_snapshot: self.end_snapshot.dup(),
            index_name: self.index_name.dup(),
            columns: self.columns.dup(),
            unique: self.unique.dup(),
            directions: self.directions.dup(),
            nulls: self.nulls.dup(),
            build_state: self.build_state.dup(),
        }
    }

    fn same(&self, other: &Self) -> (b: bool) {
        self.index_id.same(&other.index_id)
            && self.table_id.same(&other.table_id)
            && self.begin_snapshot.same(&other.begin_snapshot)
            && self.end_snapshot.same(&other.end_snapshot)
            && self.index_name.same(&other.index_name)
            && self.columns.same(&other.columns)
            && self.unique.same(&other.unique)
            && self.directions.same(&other.directions)
            && self.nulls.same(&other.nulls)
            && self.build_state.same(&other.build_state)
    }
}

impl Clone for IndexValue {
    fn clone(&self) -> (r: Self)
        ensures
            r@ == self@,
    {
        self.dup()
    }
}

/// One parameter of a macro implementation.
#[derive(Debug, PartialEq, Eq)]
pub struct MacroParameter {
    pub column_id: u64,
    pub parameter_name: String,
    pub parameter_type: String,
    pub default_value: Option<String>,
    pub default_value_type: Option<String>,
}

/// The model of [`MacroParameter`].
#[verifier::ext_equal]
pub struct MacroParameterModel {
    pub column_id: u64,
    pub parameter_name: Seq<char>,
    pub parameter_type: Seq<char>,
    pub default_value: Option<Seq<char>>,
    pub default_value_type: Option<Seq<char>>,
}

impl View for MacroParameter {
    type V = MacroParameterModel;

    open spec fn view(&self) -> MacroParameterModel {
        MacroParameterModel {
            column_id: self.column_id.deep_view(),
            parameter_name: self.parameter_name.deep_view(),
            parameter_type: self.parameter_type.deep_view(),
            default_value: self.default_value.deep_view(),
            default_value_type: self.default_value_type.deep_view(),
        }
    }
}

impl DeepView for MacroParameter {
    type V = MacroParameterModel;

    open spec fn deep_view(&self) -> MacroParameterModel {
        self.view()
    }
}

impl Record for MacroParameter {
    fn dup(&self) -> (r: Self) {
        MacroParameter {
            column_id: self.column_id.dup(),
            parameter_name: self.parameter_name.dup(),
            parameter_type: self.parameter_type.dup(),
            default_value: self.default_value.dup(),
            default_value_type: self.default_value_type.dup(),
        }
    }

    fn same(&self, other: &Self) -> (b: bool) {
        self.column_id.same(&other.column_id)
            && self.parameter_name.same(&other.parameter_name)
            && self.parameter_type.same(&other.parameter_type)
            && self.default_value.same(&other.default_value)
            && self.default_value_type.same(&other.default_value_type)
    }
}

impl Clone for MacroParameter {
    fn clone(&self) -> (r: Self)
        ensures
            r@ == self@,
    {
        self.dup()
    }
}

/// One implementation of a macro.
#[derive(Debug, PartialEq, Eq)]
pub struct MacroImplementation {
    pub impl_id: u64,
    pub dialect: String,
    pub sql: String,
    pub macro_type: String,
    pub parameters: Vec<MacroParameter>,
}

/// The model of [`MacroImplementation`].
#[verifier::ext_equal]
pub struct MacroImplementationModel {
    pub impl_id: u64,
    pub dialect: Seq<char>,
    pub sql: Seq<char>,
    pub macro_type: Seq<char>,
    pub parameters: Seq<MacroParameterModel>,
}

impl View for MacroImplementation {
    type V = MacroImplementationModel;

    open spec fn view(&self) -> MacroImplementationModel {
        MacroImplementationModel {
            impl_id: self.impl_id.deep_view(),
            dialect: self.dialect.deep_view(),
            sql: self.sql.deep_view(),
            macro_type: self.macro_type.deep_view(),
            parameters: self.parameters.deep_view(),
        }
    }
}

impl DeepView for MacroImplementation {
    type V = MacroImplementationModel;

    open spec fn deep_view(&self) -> MacroImplementationModel {
        self.view()
    }
}

impl Record for MacroImplementation {
    fn dup(&self) -> (r: Self) {
        MacroImplementation {
            impl_id: self.impl_id.dup(),
            dialect: self.dialect.dup(),
            sql: self.sql.dup(),
            macro_type: self.macro_type.dup(),
            parameters: self.parameters.dup(),
        }
    }

    fn same(&self, other: &Self) -> (b: bool) {
        self.impl_id.same(&other.impl_id)
            && self.dialect.same(&other.dialect)
            && self.sql.same(&other.sql)
            && self.macro_type.same(&other.macro_type)
            && self.parameters.same(&other.parameters)
    }
}

impl Clone for MacroImplementation {
    fn clone(&self) -> (r: Self)
        ensures
            r@ == self@,
    {
        self.dup()
    }
}

/// One version of a macro.
#[derive(Debug, PartialEq, Eq)]
pub struct MacroValue {
    pub schema_id: u64,
    pub macro_id: u64,
    pub macro_name: String,
    pub begin_snapshot: u64,
    pub end_snapshot: Option<u64>,
    pub implementations: Vec<MacroImplementation>,
}

/// The model of [`MacroValue`].
#[verifier::ext_equal]
pub struct MacroModel {
    pub schema_id: u64,
    pub macro_id: u64,
    pub macro_name: Seq<char>,
    pub begin_snapshot: u64,
    pub end_snapshot: Option<u64>,
    pub implementations: Seq<MacroImplementationModel>,
}

impl View for MacroValue {
    type V = MacroModel;

    open spec fn view(&self) -> MacroModel {
        MacroModel {
            schema_id: self.schema_id.deep_view(),
            macro_id: self.macro_id.deep_view(),
            macro_name: self.macro_name.deep_view(),
            begin_snapshot: self.begin_snapshot.deep_view(),
            end_snapshot: self.end_snapshot.deep_view(),
            implementations: self.implementations.deep_view(),
        }
    }
}

impl DeepView for MacroValue {
    type V = MacroModel;

    open spec fn deep_view(&self) -> MacroModel {
        self.view()
    }
}

impl Record for MacroValue {
    fn dup(&self) -> (r: Self) {
        MacroValue {
            schema_id: self.schema_id.dup(),
            macro_id: self.macro_id.dup(),
            macro_name: self.macro_name.dup(),
            begin_snapshot: self.begin_snapshot.dup(),
            end_snapshot: self.end_snapshot.dup(),
            implementations: self.implementations.dup(),
        }
    }

    fn same(&self, other: &Self) -> (b: bool) {
        self.schema_id.same(&other.schema_id)
            && self.macro_id.same(&other.macro_id)
            && self.macro_name.same(&other.macro_name)
            && self.begin_snapshot.same(&other.begin_snapshot)
            && self.end_snapshot.same(&other.end_snapshot)
            && self.implementations.same(&other.implementations)
    }
}

impl Clone for MacroValue {
    fn clone(&self) -> (r: Self)
        ensures
            r@ == self@,
    {
        self.dup()
    }
}

/// One row of a column mapping.
#[derive(Debug, PartialEq, Eq)]
pub struct NameMapping {
    pub column_id: u64,
    pub source_name: String,
    pub target_field_id: u64,
    pub parent_column: Option<u64>,
    pub is_partition: bool,
}

/// The model of [`NameMapping`].
#[verifier::ext_equal]
pub struct NameMappingModel {
    pub column_id: u64,
    pub source_name: Seq<char>,
    pub target_field_id: u64,
    pub parent_column: Option<u64>,
    pub is_partition: bool,
}

impl View for NameMapping {
    type V = NameMappingModel;

    open spec fn view(&self) -> NameMappingModel {
        NameMappingModel {
            column_id: self.column_id.deep_view(),
            source_name: self.source_name.deep_view(),
            target_field_id: self.target_field_id.deep_view(),
            parent_column: self.parent_column.deep_view(),
            is_partition: self.is_partition.deep_view(),
        }
    }
}

impl DeepView for NameMapping {
    type V = NameMappingModel;

    open spec fn deep_view(&self) -> NameMappingModel {
        self.view()
    }
}

impl Record for NameMapping {
    fn dup(&self) -> (r: Self) {
        NameMapping {
            column_id: self.column_id.dup(),
            source_name: self.source_name.dup(),
            target_field_id: self.target_field_id.dup(),
            parent_column: self.parent_column.dup(),
            is_partition: self.is_partition.dup(),
        }
    }

    fn same(&self, other: &Self) -> (b: bool) {
        self.column_id.same(&other.column_id)
            && self.source_name.same(&other.source_name)
            && self.target_field_id.same(&other.target_field_id)
            && self.parent_column.same(&other.parent_column)
            && self.is_partition.same(&other.is_partition)
    }
}

impl Clone for NameMapping {
    fn clone(&self) -> (r: Self)
        ensures
            r@ == self@,
    {
        self.dup()
    }
}

/// A column mapping; created once and never changed.
#[derive(Debug, PartialEq, Eq)]
pub struct MappingValue {
    pub mapping_id: u64,
    pub table_id: u64,
    pub mapping_type: String,
    pub name_mappings: Vec<NameMapping>,
}

/// The model of [`MappingValue`].
#[verifier::ext_equal]
pub struct MappingModel {
    pub mapping_id: u64,
    pub table_id: u64,
    pub mapping_type: Seq<char>,
    pub name_mappings: Seq<NameMappingModel>,
}

impl View for MappingValue {
    type V = MappingModel;

    open spec fn view(&self) -> MappingModel {
        MappingModel {
            mapping_id: self.mapping_id.deep_view(),
            table_id: self.table_id.deep_view(),
            mapping_type: self.mapping_type.deep_view(),
            name_mappings: self.name_mappings.deep_view(),
        }
    }
}

impl DeepView for MappingValue {
    type V = MappingModel;

    open spec fn deep_view(&self) -> MappingModel {
        self.view()
    }
}

impl Record for MappingValue {
    fn dup(&self) -> (r: Self) {
        MappingValue {
            mapping_id: self.mapping_id.dup(),
            table_id: self.table_id.dup(),
            mapping_type: self.mapping_type.dup(),
            name_mappings: self.name_mappings.dup(),
        }
    }

    fn same(&self, other: &Self) -> (b: bool) {
        self.mapping_id.same(&other.mapping_id)
            && self.table_id.same(&other.table_id)
            && self.mapping_type.same(&other.mapping_type)
            && self.name_mappings.same(&other.name_mappings)
    }
}

impl Clone for MappingValue {
    fn clone(&self) -> (r: Self)
        ensures
            r@ == self@,
    {
        self.dup()
    }
}

/// The tags of one catalog object.
#[derive(Debug, PartialEq, Eq)]
pub struct TagValue {
    pub object_id: u64,
    pub entries: Vec<TagEntry>,
}

/// The model of [`TagValue`].
#[verifier::ext_equal]
pub struct TagModel {
    pub object_id: u64,
    pub entries: Seq<TagEntryModel>,
}

impl View for TagValue {
    type V = TagModel;

    open spec fn view(&self) -> TagModel {
        TagModel {
            object_id: self.object_id.deep_view(),
            entries: self.entries.deep_view(),
        }
    }
}

impl DeepView for TagValue {
    type V = TagModel;

    open spec fn deep_view(&self) -> TagModel {
        self.view()
    }
}

impl Record for TagValue {
    fn dup(&self) -> (r: Self) {
        TagValue {
            object_id: self.object_id.dup(),
            entries: self.entries.dup(),
        }
    }

    fn same(&self, other: &Self) -> (b: bool) {
        self.object_id.same(&other.object_id)
            && self.entries.same(&other.entries)
    }
}

impl Clone for TagValue {
    fn clone(&self) -> (r: Self)
        ensures
            r@ == self@,
    {
        self.dup()
    }
}

/// A file that is scheduled for physical deletion.
#[derive(Debug, PartialEq, Eq)]
pub struct GcFileValue {
    pub data_file_id: u64,
    pub path: String,
    pub path_is_relative: bool,
    pub schedule_start_micros: i64,
}

/// The model of [`GcFileValue`].
#[verifier::ext_equal]
pub struct GcFileModel {
    pub data_file_id: u64,
    pub path: Seq<char>,
    pub path_is_relative: bool,
    pub schedule_start_micros: i64,
}

impl View for GcFileValue {
    type V = GcFileModel;

    open spec fn view(&self) -> GcFileModel {
        GcFileModel {
            data_file_id: self.data_file_id.deep_view(),
            path: self.path.deep_view(),
            path_is_relative: self.path_is_relative.deep_view(),
            schedule_start_micros: self.schedule_start_micros.deep_view(),
        }
    }
}

impl DeepView for GcFileValue {
    type V = GcFileModel;

    open spec fn deep_view(&self) -> GcFileModel {
        self.view()
    }
}

impl Record for GcFileValue {
    fn dup(&self) -> (r: Self) {
        GcFileValue {
            data_file_id: self.data_file_id.dup(),
            path: self.path.dup(),
            path_is_relative: self.path_is_relative.dup(),
            schedule_start_micros: self.schedule_start_micros.dup(),
        }
    }

    fn same(&self, other: &Self) -> (b: bool) {
        self.data_file_id.same(&other.data_file_id)
            && self.path.same(&other.path)
            && self.path_is_relative.same(&other.path_is_relative)
            && self.schedule_start_micros.same(&other.schedule_start_micros)
    }
}

impl Clone for GcFileValue {
    fn clone(&self) -> (r: Self)
        ensures
            r@ == self@,
    {
        self.dup()
    }
}

/// The options set in one scope.
#[derive(Debug, PartialEq, Eq)]
pub struct OptionScopeValue {
    pub options: OrdMap<String, String>,
}

/// The model of [`OptionScopeValue`].
#[verifier::ext_equal]
pub struct OptionScopeModel {
    pub options: Map<Seq<char>, Seq<char>>,
}

impl View for OptionScopeValue {
    type V = OptionScopeModel;

    open spec fn view(&self) -> OptionScopeModel {
        OptionScopeModel {
            options: self.options.deep_view(),
        }
    }
}

impl DeepView for OptionScopeValue {
    type V = OptionScopeModel;

    open spec fn deep_view(&self) -> OptionScopeModel {
        self.view()
    }
}

impl Record for OptionScopeValue {
    fn dup(&self) -> (r: Self) {
        OptionScopeValue {
            options: self.options.dup(),
        }
    }

    fn same(&self, other: &Self) -> (b: bool) {
        self.options.same(&other.options)
    }
}

impl Clone for OptionScopeValue {
    fn clone(&self) -> (r: Self)
        ensures
            r@ == self@,
    {
        self.dup()
    }
}

/// The structural format of a store and the version that stamped it.
#[derive(Debug, PartialEq, Eq)]
pub struct FormatValue {
    pub format_version: u64,
    pub writer_version: String,
}

/// The model of [`FormatValue`].
#[verifier::ext_equal]
pub struct FormatModel {
    pub format_version: u64,
    pub writer_version: Seq<char>,
}

impl View for FormatValue {
    type V = FormatModel;

    open spec fn view(&self) -> FormatModel {
        FormatModel {
            format_version: self.format_version.deep_view(),
            writer_version: self.writer_version.deep_view(),
        }
    }
}

impl DeepView for FormatValue {
    type V = FormatModel;

    open spec fn deep_view(&self) -> FormatModel {
        self.view()
    }
}

impl Record for FormatValue {
    fn dup(&self) -> (r: Self) {
        FormatValue {
            format_version: self.format_version.dup(),
            writer_version: self.writer_version.dup(),
        }
    }

    fn same(&self, other: &Self) -> (b: bool) {
        self.format_version.same(&other.format_version)
            && self.writer_version.same(&other.writer_version)
    }
}

impl Clone for FormatValue {
    fn clone(&self) -> (r: Self)
        ensures
            r@ == self@,
    {
        self.dup()
    }
}

/// The newest snapshot.
#[derive(Debug, PartialEq, Eq)]
pub struct HeadValue {
    pub snapshot_id: u64,
}

/// The model of [`HeadValue`].
#[verifier::ext_equal]
pub struct HeadModel {
    pub snapshot_id: u64,
}

impl View for HeadValue {
    type V = HeadModel;

    open spec fn view(&self) -> HeadModel {
        HeadModel {
            snapshot_id: self.snapshot_id.deep_view(),
        }
    }
}

impl DeepView for HeadValue {
    type V = HeadModel;

    open spec fn deep_view(&self) -> HeadModel {
        self.view()
    }
}

impl Record for HeadValue {
    fn dup(&self) -> (r: Self) {
        HeadValue {
            snapshot_id: self.snapshot_id.dup(),
        }
    }

    fn same(&self, other: &Self) -> (b: bool) {
        self.snapshot_id.same(&other.snapshot_id)
    }
}

impl Clone for HeadValue {
    fn clone(&self) -> (r: Self)
        ensures
            r@ == self@,
    {
        self.dup()
    }
}

/// A structural migration in flight.
#[derive(Debug, PartialEq, Eq)]
pub struct MigrationValue {
    pub from_format: u64,
    pub to_format: u64,
    pub cursor: Vec<u8>,
}

/// The model of [`MigrationValue`].
#[verifier::ext_equal]
pub struct MigrationModel {
    pub from_format: u64,
    pub to_format: u64,
    pub cursor: Seq<u8>,
}

impl View for MigrationValue {
    type V = MigrationModel;

    open spec fn view(&self) -> MigrationModel {
        MigrationModel {
            from_format: self.from_format.deep_view(),
            to_format: self.to_format.deep_view(),
            cursor: self.cursor.deep_view(),
        }
    }
}

impl DeepView for MigrationValue {
    type V = MigrationModel;

    open spec fn deep_view(&self) -> MigrationModel {
        self.view()
    }
}

impl Record for MigrationValue {
    fn dup(&self) -> (r: Self) {
        MigrationValue {
            from_format: self.from_format.dup(),
            to_format: self.to_format.dup(),
            cursor: self.cursor.dup(),
        }
    }

    fn same(&self, other: &Self) -> (b: bool) {
        self.from_format.same(&other.from_format)
            && self.to_format.same(&other.to_format)
            && self.cursor.same(&other.cursor)
    }
}

impl Clone for MigrationValue {
    fn clone(&self) -> (r: Self)
        ensures
            r@ == self@,
    {
        self.dup()
    }
}

/// The layout of a table's inlined rows under one schema version.
#[derive(Debug, PartialEq, Eq)]
pub struct InlineSchemaValue {
    pub arrow_schema: Vec<u8>,
}

/// The model of [`InlineSchemaValue`].
#[verifier::ext_equal]
pub struct InlineSchemaModel {
    pub arrow_schema: Seq<u8>,
}

impl View for InlineSchemaValue {
    type V = InlineSchemaModel;

    open spec fn view(&self) -> InlineSchemaModel {
        InlineSchemaModel {
            arrow_schema: self.arrow_schema.deep_view(),
        }
    }
}

impl DeepView for InlineSchemaValue {
    type V = InlineSchemaModel;

    open spec fn deep_view(&self) -> InlineSchemaModel {
        self.view()
    }
}

impl Record for InlineSchemaValue {
    fn dup(&self) -> (r: Self) {
        InlineSchemaValue {
            arrow_schema: self.arrow_schema.dup(),
        }
    }

    fn same(&self, other: &Self) -> (b: bool) {
        self.arrow_schema.same(&other.arrow_schema)
    }
}

impl Clone for InlineSchemaValue {
    fn clone(&self) -> (r: Self)
        ensures
            r@ == self@,
    {
        self.dup()
    }
}

/// A chunk of inlined rows.
#[derive(Debug, PartialEq, Eq)]
pub struct InlineChunkValue {
    pub body: Vec<u8>,
    pub row_id_start: u64,
    pub row_count: u64,
    pub data_file_id: Option<u64>,
}

/// The model of [`InlineChunkValue`].
#[verifier::ext_equal]
pub struct InlineChunkModel {
    pub body: Seq<u8>,
    pub row_id_start: u64,
    pub row_count: u64,
    pub data_file_id: Option<u64>,
}

impl View for InlineChunkValue {
    type V = InlineChunkModel;

    open spec fn view(&self) -> InlineChunkModel {
        InlineChunkModel {
            body: self.body.deep_view(),
            row_id_start: self.row_id_start.deep_view(),
            row_count: self.row_count.deep_view(),
            data_file_id: self.data_file_id.deep_view(),
        }
    }
}

impl DeepView for InlineChunkValue {
    type V = InlineChunkModel;

    open spec fn deep_view(&self) -> InlineChunkModel {
        self.view()
    }
}

impl Record for InlineChunkValue {
    fn dup(&self) -> (r: Self) {
        InlineChunkValue {
            body: self.body.dup(),
            row_id_start: self.row_id_start.dup(),
            row_count: self.row_count.dup(),
            data_file_id: self.data_file_id.dup(),
        }
    }

    fn same(&self, other: &Self) -> (b: bool) {
        self.body.same(&other.body)
            && self.row_id_start.same(&other.row_id_start)
            && self.row_count.same(&other.row_count)
            && self.data_file_id.same(&other.data_file_id)
    }
}

impl Clone for InlineChunkValue {
    fn clone(&self) -> (r: Self)
        ensures
            r@ == self@,
    {
        self.dup()
    }
}

/// When an inlined row ended.
#[derive(Debug, PartialEq, Eq)]
pub struct InlineInlineDeleteValue {
    pub end_snapshot: u64,
}

/// The model of [`InlineInlineDeleteValue`].
#[verifier::ext_equal]
pub struct InlineInlineDeleteModel {
    pub end_snapshot: u64,
}

impl View for InlineInlineDeleteValue {
    type V = InlineInlineDeleteModel;

    open spec fn view(&self) -> InlineInlineDeleteModel {
        InlineInlineDeleteModel {
            end_snapshot: self.end_snapshot.deep_view(),
        }
    }
}

impl DeepView for InlineInlineDeleteValue {
    type V = InlineInlineDeleteModel;

    open spec fn deep_view(&self) -> InlineInlineDeleteModel {
        self.view()
    }
}

impl Record for InlineInlineDeleteValue {
    fn dup(&self) -> (r: Self) {
        InlineInlineDeleteValue {
            end_snapshot: self.end_snapshot.dup(),
        }
    }

    fn same(&self, other: &Self) -> (b: bool) {
        self.end_snapshot.same(&other.end_snapshot)
    }
}

impl Clone for InlineInlineDeleteValue {
    fn clone(&self) -> (r: Self)
        ensures
            r@ == self@,
    {
        self.dup()
    }
}

/// When an inlined delete of a file row took effect.
#[derive(Debug, PartialEq, Eq)]
pub struct InlineFileDeleteValue {
    pub begin_snapshot: u64,
}

/// The model of [`InlineFileDeleteValue`].
#[verifier::ext_equal]
pub struct InlineFileDeleteModel {
    pub begin_snapshot: u64,
}

impl View for InlineFileDeleteValue {
    type V = InlineFileDeleteModel;

    open spec fn view(&self) -> InlineFileDeleteModel {
        InlineFileDeleteModel {
            begin_snapshot: self.begin_snapshot.deep_view(),
        }
    }
}

impl DeepView for InlineFileDeleteValue {
    type V = InlineFileDeleteModel;

    open spec fn deep_view(&self) -> InlineFileDeleteModel {
        self.view()
    }
}

impl Record for InlineFileDeleteValue {
    fn dup(&self) -> (r: Self) {
        InlineFileDeleteValue {
            begin_snapshot: self.begin_snapshot.dup(),
        }
    }

    fn same(&self, other: &Self) -> (b: bool) {
        self.begin_snapshot.same(&other.begin_snapshot)
    }
}

impl Clone for InlineFileDeleteValue {
    fn clone(&self) -> (r: Self)
        ensures
            r@ == self@,
    {
        self.dup()
    }
}

} // verus!
