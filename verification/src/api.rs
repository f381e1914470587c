//! Ids and plain values that callers exchange with a catalog.
use crate::ordered::Record;
use vstd::prelude::*;

verus! {

/// A snapshot.
#[derive(Clone, Copy, PartialEq, Eq, Structural, Debug, PartialOrd, Ord, Hash)]
pub struct SnapshotId {
    pub id: u64,
}

impl SnapshotId {
    pub fn new(id: u64) -> (r: Self)
        ensures
            r.id == id,
    {
        SnapshotId { id }
    }

    pub fn get(&self) -> (id: u64)
        ensures
            id == self.id,
    {
        self.id
    }
}

impl DeepView for SnapshotId {
    type V = SnapshotId;

    open spec fn deep_view(&self) -> SnapshotId {
        *self
    }
}

impl Record for SnapshotId {
    fn dup(&self) -> (r: Self) {
        *self
    }

    fn same(&self, other: &Self) -> (b: bool) {
        *self == *other
    }
}

/// A schema.
#[derive(Clone, Copy, PartialEq, Eq, Structural, Debug, PartialOrd, Ord, Hash)]
pub struct SchemaId {
    pub id: u64,
}

impl SchemaId {
    pub fn new(id: u64) -> (r: Self)
        ensures
            r.id == id,
    {
        SchemaId { id }
    }

    pub fn get(&self) -> (id: u64)
        ensures
            id == self.id,
    {
        self.id
    }
}

impl DeepView for SchemaId {
    type V = SchemaId;

    open spec fn deep_view(&self) -> SchemaId {
        *self
    }
}

impl Record for SchemaId {
    fn dup(&self) -> (r: Self) {
        *self
    }

    fn same(&self, other: &Self) -> (b: bool) {
        *self == *other
    }
}

/// A table.
#[derive(Clone, Copy, PartialEq, Eq, Structural, Debug, PartialOrd, Ord, Hash)]
pub struct TableId {
    pub id: u64,
}

impl TableId {
    pub fn new(id: u64) -> (r: Self)
        ensures
            r.id == id,
    {
        TableId { id }
    }

    pub fn get(&self) -> (id: u64)
        ensures
            id == self.id,
    {
        self.id
    }
}

impl DeepView for TableId {
    type V = TableId;

    open spec fn deep_view(&self) -> TableId {
        *self
    }
}

impl Record for TableId {
    fn dup(&self) -> (r: Self) {
        *self
    }

    fn same(&self, other: &Self) -> (b: bool) {
        *self == *other
    }
}

/// A column, within its table.
#[derive(Clone, Copy, PartialEq, Eq, Structural, Debug, PartialOrd, Ord, Hash)]
pub struct ColumnId {
    pub id: u64,
}

impl ColumnId {
    pub fn new(id: u64) -> (r: Self)
        ensures
            r.id == id,
    {
        ColumnId { id }
    }

    pub fn get(&self) -> (id: u64)
        ensures
            id == self.id,
    {
        self.id
    }
}

impl DeepView for ColumnId {
    type V = ColumnId;

    open spec fn deep_view(&self) -> ColumnId {
        *self
    }
}

impl Record for ColumnId {
    fn dup(&self) -> (r: Self) {
        *self
    }

    fn same(&self, other: &Self) -> (b: bool) {
        *self == *other
    }
}

/// A view.
#[derive(Clone, Copy, PartialEq, Eq, Structural, Debug, PartialOrd, Ord, Hash)]
pub struct ViewId {
    pub id: u64,
}

impl ViewId {
    pub fn new(id: u64) -> (r: Self)
        ensures
            r.id == id,
    {
        ViewId { id }
    }

    pub fn get(&self) -> (id: u64)
        ensures
            id == self.id,
    {
        self.id
    }
}

impl DeepView for ViewId {
    type V = ViewId;

    open spec fn deep_view(&self) -> ViewId {
        *self
    }
}

impl Record for ViewId {
    fn dup(&self) -> (r: Self) {
        *self
    }

    fn same(&self, other: &Self) -> (b: bool) {
        *self == *other
    }
}

/// A data file.
#[derive(Clone, Copy, PartialEq, Eq, Structural, Debug, PartialOrd, Ord, Hash)]
pub struct DataFileId {
    pub id: u64,
}

impl DataFileId {
    pub fn new(id: u64) -> (r: Self)
        ensures
            r.id == id,
    {
        DataFileId { id }
    }

    pub fn get(&self) -> (id: u64)
        ensures
            id == self.id,
    {
        self.id
    }
}

impl DeepView for DataFileId {
    type V = DataFileId;

    open spec fn deep_view(&self) -> DataFileId {
        *self
    }
}

impl Record for DataFileId {
    fn dup(&self) -> (r: Self) {
        *self
    }

    fn same(&self, other: &Self) -> (b: bool) {
        *self == *other
    }
}

/// A delete file.
#[derive(Clone, Copy, PartialEq, Eq, Structural, Debug, PartialOrd, Ord, Hash)]
pub struct DeleteFileId {
    pub id: u64,
}

impl DeleteFileId {
    pub fn new(id: u64) -> (r: Self)
        ensures
            r.id == id,
    {
        DeleteFileId { id }
    }

    pub fn get(&self) -> (id: u64)
        ensures
            id == self.id,
    {
        self.id
    }
}

impl DeepView for DeleteFileId {
    type V = DeleteFileId;

    open spec fn deep_view(&self) -> DeleteFileId {
        *self
    }
}

impl Record for DeleteFileId {
    fn dup(&self) -> (r: Self) {
        *self
    }

    fn same(&self, other: &Self) -> (b: bool) {
        *self == *other
    }
}

/// An equality index.
#[derive(Clone, Copy, PartialEq, Eq, Structural, Debug, PartialOrd, Ord, Hash)]
pub struct IndexId {
    pub id: u64,
}

impl IndexId {
    pub fn new(id: u64) -> (r: Self)
        ensures
            r.id == id,
    {
        IndexId { id }
    }

    pub fn get(&self) -> (id: u64)
        ensures
            id == self.id,
    {
        self.id
    }
}

impl DeepView for IndexId {
    type V = IndexId;

    open spec fn deep_view(&self) -> IndexId {
        *self
    }
}

impl Record for IndexId {
    fn dup(&self) -> (r: Self) {
        *self
    }

    fn same(&self, other: &Self) -> (b: bool) {
        *self == *other
    }
}

/// Where an option is set.
#[derive(Clone, Copy, PartialEq, Eq, Structural, Debug)]
pub enum OptionScope {
    Global,
    Schema(SchemaId),
    Table(TableId),
}

/// The key of a scope's option record: its kind, and the id within the kind.
pub open spec fn scope_key(scope: OptionScope) -> (u64, u64) {
    match scope {
        OptionScope::Global => (0, 0),
        OptionScope::Schema(s) => (1, s.id),
        OptionScope::Table(t) => (2, t.id),
    }
}

impl OptionScope {
    pub fn key_components(&self) -> (k: (u64, u64))
        ensures
            k == scope_key(*self),
    {
        match self {
            OptionScope::Global => (0, 0),
            OptionScope::Schema(s) => (1, s.id),
            OptionScope::Table(t) => (2, t.id),
        }
    }
}

/// A column to create.
#[derive(Debug, PartialEq, Eq)]
pub struct ColumnDef {
    pub name: String,
    pub column_type: String,
    pub nulls_allowed: bool,
    pub default_value: Option<String>,
}

/// The model of [`ColumnDef`].
#[verifier::ext_equal]
pub struct ColumnDefSpec {
    pub name: Seq<char>,
    pub column_type: Seq<char>,
    pub nulls_allowed: bool,
    pub default_value: Option<Seq<char>>,
}

impl View for ColumnDef {
    type V = ColumnDefSpec;

    open spec fn view(&self) -> ColumnDefSpec {
        ColumnDefSpec {
            name: self.name.deep_view(),
            column_type: self.column_type.deep_view(),
            nulls_allowed: self.nulls_allowed.deep_view(),
            default_value: self.default_value.deep_view(),
        }
    }
}

impl DeepView for ColumnDef {
    type V = ColumnDefSpec;

    open spec fn deep_view(&self) -> ColumnDefSpec {
        self.view()
    }
}

impl Record for ColumnDef {
    fn dup(&self) -> (r: Self) {
        ColumnDef {
            name: self.name.dup(),
            column_type: self.column_type.dup(),
            nulls_allowed: self.nulls_allowed.dup(),
            default_value: self.default_value.dup(),
        }
    }

    fn same(&self, other: &Self) -> (b: bool) {
        self.name.same(&other.name)
            && self.column_type.same(&other.column_type)
            && self.nulls_allowed.same(&other.nulls_allowed)
            && self.default_value.same(&other.default_value)
    }
}

impl Clone for ColumnDef {
    fn clone(&self) -> (r: Self)
        ensures
            r@ == self@,
    {
        self.dup()
    }
}

/// A change to a column; `None` keeps what is there.
#[derive(Debug, PartialEq, Eq)]
pub struct ColumnAlteration {
    pub column_type: Option<String>,
    pub nulls_allowed: Option<bool>,
    pub default_value: Option<Option<String>>,
}

/// The model of [`ColumnAlteration`].
#[verifier::ext_equal]
pub struct ColumnAlterationSpec {
    pub column_type: Option<Seq<char>>,
    pub nulls_allowed: Option<bool>,
    pub default_value: Option<Option<Seq<char>>>,
}

impl View for ColumnAlteration {
    type V = ColumnAlterationSpec;

    open spec fn view(&self) -> ColumnAlterationSpec {
        ColumnAlterationSpec {
            column_type: self.column_type.deep_view(),
            nulls_allowed: self.nulls_allowed.deep_view(),
            default_value: self.default_value.deep_view(),
        }
    }
}

impl DeepView for ColumnAlteration {
    type V = ColumnAlterationSpec;

    open spec fn deep_view(&self) -> ColumnAlterationSpec {
        self.view()
    }
}

impl Record for ColumnAlteration {
    fn dup(&self) -> (r: Self) {
        ColumnAlteration {
            column_type: self.column_type.dup(),
            nulls_allowed: self.nulls_allowed.dup(),
            default_value: self.default_value.dup(),
        }
    }

    fn same(&self, other: &Self) -> (b: bool) {
        self.column_type.same(&other.column_type)
            && self.nulls_allowed.same(&other.nulls_allowed)
            && self.default_value.same(&other.default_value)
    }
}

impl Clone for ColumnAlteration {
    fn clone(&self) -> (r: Self)
        ensures
            r@ == self@,
    {
        self.dup()
    }
}

/// Statistics of one column of a data file to register.
#[derive(Debug, PartialEq, Eq)]
pub struct FileColumnStats {
    pub column_id: ColumnId,
    pub column_size_bytes: u64,
    pub value_count: u64,
    pub null_count: u64,
    pub min_value: Option<String>,
    pub max_value: Option<String>,
    pub contains_nan: Option<bool>,
    pub extra_stats: Option<String>,
}

/// The model of [`FileColumnStats`].
#[verifier::ext_equal]
pub struct FileColumnStatsSpec {
    pub column_id: ColumnId,
    pub column_size_bytes: u64,
    pub value_count: u64,
    pub null_count: u64,
    pub min_value: Option<Seq<char>>,
    pub max_value: Option<Seq<char>>,
    pub contains_nan: Option<bool>,
    pub extra_stats: Option<Seq<char>>,
}

impl View for FileColumnStats {
    type V = FileColumnStatsSpec;

    open spec fn view(&self) -> FileColumnStatsSpec {
        FileColumnStatsSpec {
            column_id: self.column_id.deep_view(),
            column_size_bytes: self.column_size_bytes.deep_view(),
            value_count: self.value_count.deep_view(),
            null_count: self.null_count.deep_view(),
            min_value: self.min_value.deep_view(),
            max_value: self.max_value.deep_view(),
            contains_nan: self.contains_nan.deep_view(),
            extra_stats: self.extra_stats.deep_view(),
        }
    }
}

impl DeepView for FileColumnStats {
    type V = FileColumnStatsSpec;

    open spec fn deep_view(&self) -> FileColumnStatsSpec {
        self.view()
    }
}

impl Record for FileColumnStats {
    fn dup(&self) -> (r: Self) {
        FileColumnStats {
            column_id: self.column_id.dup(),
            column_size_bytes: self.column_size_bytes.dup(),
            value_count: self.value_count.dup(),
            null_count: self.null_count.dup(),
            min_value: self.min_value.dup(),
            max_value: self.max_value.dup(),
            contains_nan: self.contains_nan.dup(),
            extra_stats: self.extra_stats.dup(),
        }
    }

    fn same(&self, other: &Self) -> (b: bool) {
        self.column_id.same(&other.column_id)
            && self.column_size_bytes.same(&other.column_size_bytes)
            && self.value_count.same(&other.value_count)
            && self.null_count.same(&other.null_count)
            && self.min_value.same(&other.min_value)
            && self.max_value.same(&other.max_value)
            && self.contains_nan.same(&other.contains_nan)
            && self.extra_stats.same(&other.extra_stats)
    }
}

impl Clone for FileColumnStats {
    fn clone(&self) -> (r: Self)
        ensures
            r@ == self@,
    {
        self.dup()
    }
}

/// A data file to register.
#[derive(Debug, PartialEq, Eq)]
pub struct DataFile {
    pub path: String,
    pub path_is_relative: bool,
    pub file_format: String,
    pub record_count: u64,
    pub file_size_bytes: u64,
    pub footer_size: u64,
    pub encryption_key: Option<String>,
    pub column_stats: Vec<FileColumnStats>,
}

/// The model of [`DataFile`].
#[verifier::ext_equal]
pub struct DataFileSpec {
    pub path: Seq<char>,
    pub path_is_relative: bool,
    pub file_format: Seq<char>,
    pub record_count: u64,
    pub file_size_bytes: u64,
    pub footer_size: u64,
    pub encryption_key: Option<Seq<char>>,
    pub column_stats: Seq<FileColumnStatsSpec>,
}

impl View for DataFile {
    type V = DataFileSpec;

    open spec fn view(&self) -> DataFileSpec {
        DataFileSpec {
            path: self.path.deep_view(),
            path_is_relative: self.path_is_relative.deep_view(),
            file_format: self.file_format.deep_view(),
            record_count: self.record_count.deep_view(),
            file_size_bytes: self.file_size_bytes.deep_view(),
            footer_size: self.footer_size.deep_view(),
            encryption_key: self.encryption_key.deep_view(),
            column_stats: self.column_stats.deep_view(),
        }
    }
}

impl DeepView for DataFile {
    type V = DataFileSpec;

    open spec fn deep_view(&self) -> DataFileSpec {
        self.view()
    }
}

impl Record for DataFile {
    fn dup(&self) -> (r: Self) {
        DataFile {
            path: self.path.dup(),
            path_is_relative: self.path_is_relative.dup(),
            file_format: self.file_format.dup(),
            record_count: self.record_count.dup(),
            file_size_bytes: self.file_size_bytes.dup(),
            footer_size: self.footer_size.dup(),
            encryption_key: self.encryption_key.dup(),
            column_stats: self.column_stats.dup(),
        }
    }

    fn same(&self, other: &Self) -> (b: bool) {
        self.path.same(&other.path)
            && self.path_is_relative.same(&other.path_is_relative)
            && self.file_format.same(&other.file_format)
            && self.record_count.same(&other.record_count)
            && self.file_size_bytes.same(&other.file_size_bytes)
            && self.footer_size.same(&other.footer_size)
            && self.encryption_key.same(&other.encryption_key)
            && self.column_stats.same(&other.column_stats)
    }
}

impl Clone for DataFile {
    fn clone(&self) -> (r: Self)
        ensures
            r@ == self@,
    {
        self.dup()
    }
}

/// A delete file to register.
#[derive(Debug, PartialEq, Eq)]
pub struct DeleteFile {
    pub data_file_id: DataFileId,
    pub path: String,
    pub path_is_relative: bool,
    pub format: String,
    pub delete_count: u64,
    pub file_size_bytes: u64,
    pub footer_size: u64,
    pub encryption_key: Option<String>,
}

/// The model of [`DeleteFile`].
#[verifier::ext_equal]
pub struct DeleteFileSpec {
    pub data_file_id: DataFileId,
    pub path: Seq<char>,
    pub path_is_relative: bool,
    pub format: Seq<char>,
    pub delete_count: u64,
    pub file_size_bytes: u64,
    pub footer_size: u64,
    pub encryption_key: Option<Seq<char>>,
}

impl View for DeleteFile {
    type V = DeleteFileSpec;

    open spec fn view(&self) -> DeleteFileSpec {
        DeleteFileSpec {
            data_file_id: self.data_file_id.deep_view(),
            path: self.path.deep_view(),
            path_is_relative: self.path_is_relative.deep_view(),
            format: self.format.deep_view(),
            delete_count: self.delete_count.deep_view(),
            file_size_bytes: self.file_size_bytes.deep_view(),
            footer_size: self.footer_size.deep_view(),
            encryption_key: self.encryption_key.deep_view(),
        }
    }
}

impl DeepView for DeleteFile {
    type V = DeleteFileSpec;

    open spec fn deep_view(&self) -> DeleteFileSpec {
        self.view()
    }
}

impl Record for DeleteFile {
    fn dup(&self) -> (r: Self) {
        DeleteFile {
            data_file_id: self.data_file_id.dup(),
            path: self.path.dup(),
            path_is_relative: self.path_is_relative.dup(),
            format: self.format.dup(),
            delete_count: self.delete_count.dup(),
            file_size_bytes: self.file_size_bytes.dup(),
            footer_size: self.footer_size.dup(),
            encryption_key: self.encryption_key.dup(),
        }
    }

    fn same(&self, other: &Self) -> (b: bool) {
        self.data_file_id.same(&other.data_file_id)
            && self.path.same(&other.path)
            && self.path_is_relative.same(&other.path_is_relative)
            && self.format.same(&other.format)
            && self.delete_count.same(&other.delete_count)
            && self.file_size_bytes.same(&other.file_size_bytes)
            && self.footer_size.same(&other.footer_size)
            && self.encryption_key.same(&other.encryption_key)
    }
}

impl Clone for DeleteFile {
    fn clone(&self) -> (r: Self)
        ensures
            r@ == self@,
    {
        self.dup()
    }
}

/// Statistics of one column over a table.
#[derive(Debug, PartialEq, Eq)]
pub struct ColumnStats {
    pub contains_null: Option<bool>,
    pub contains_nan: Option<bool>,
    pub min_value: Option<String>,
    pub max_value: Option<String>,
    pub extra_stats: Option<String>,
}

/// The model of [`ColumnStats`].
#[verifier::ext_equal]
pub struct ColumnStatsSpec {
    pub contains_null: Option<bool>,
    pub contains_nan: Option<bool>,
    pub min_value: Option<Seq<char>>,
    pub max_value: Option<Seq<char>>,
    pub extra_stats: Option<Seq<char>>,
}

impl View for ColumnStats {
    type V = ColumnStatsSpec;

    open spec fn view(&self) -> ColumnStatsSpec {
        ColumnStatsSpec {
            contains_null: self.contains_null.deep_view(),
            contains_nan: self.contains_nan.deep_view(),
            min_value: self.min_value.deep_view(),
            max_value: self.max_value.deep_view(),
            extra_stats: self.extra_stats.deep_view(),
        }
    }
}

impl DeepView for ColumnStats {
    type V = ColumnStatsSpec;

    open spec fn deep_view(&self) -> ColumnStatsSpec {
        self.view()
    }
}

impl Record for ColumnStats {
    fn dup(&self) -> (r: Self) {
        ColumnStats {
            contains_null: self.contains_null.dup(),
            contains_nan: self.contains_nan.dup(),
            min_value: self.min_value.dup(),
            max_value: self.max_value.dup(),
            extra_stats: self.extra_stats.dup(),
        }
    }

    fn same(&self, other: &Self) -> (b: bool) {
        self.contains_null.same(&other.contains_null)
            && self.contains_nan.same(&other.contains_nan)
            && self.min_value.same(&other.min_value)
            && self.max_value.same(&other.max_value)
            && self.extra_stats.same(&other.extra_stats)
    }
}

impl Clone for ColumnStats {
    fn clone(&self) -> (r: Self)
        ensures
            r@ == self@,
    {
        self.dup()
    }
}

/// A live schema.
#[derive(Debug, PartialEq, Eq)]
pub struct SchemaInfo {
    pub id: SchemaId,
    pub name: String,
}

/// The model of [`SchemaInfo`].
#[verifier::ext_equal]
pub struct SchemaInfoSpec {
    pub id: SchemaId,
    pub name: Seq<char>,
}

impl View for SchemaInfo {
    type V = SchemaInfoSpec;

    open spec fn view(&self) -> SchemaInfoSpec {
        SchemaInfoSpec {
            id: self.id.deep_view(),
            name: self.name.deep_view(),
        }
    }
}

impl DeepView for SchemaInfo {
    type V = SchemaInfoSpec;

    open spec fn deep_view(&self) -> SchemaInfoSpec {
        self.view()
    }
}

impl Record for SchemaInfo {
    fn dup(&self) -> (r: Self) {
        SchemaInfo {
            id: self.id.dup(),
            name: self.name.dup(),
        }
    }

    fn same(&self, other: &Self) -> (b: bool) {
        self.id.same(&other.id)
            && self.name.same(&other.name)
    }
}

impl Clone for SchemaInfo {
    fn clone(&self) -> (r: Self)
        ensures
            r@ == self@,
    {
        self.dup()
    }
}

/// A live table.
#[derive(Debug, PartialEq, Eq)]
pub struct TableInfo {
    pub id: TableId,
    pub schema: SchemaId,
    pub name: String,
}

/// The model of [`TableInfo`].
#[verifier::ext_equal]
pub struct TableInfoSpec {
    pub id: TableId,
    pub schema: SchemaId,
    pub name: Seq<char>,
}

impl View for TableInfo {
    type V = TableInfoSpec;

    open spec fn view(&self) -> TableInfoSpec {
        TableInfoSpec {
            id: self.id.deep_view(),
            schema: self.schema.deep_view(),
            name: self.name.deep_view(),
        }
    }
}

impl DeepView for TableInfo {
    type V = TableInfoSpec;

    open spec fn deep_view(&self) -> TableInfoSpec {
        self.view()
    }
}

impl Record for TableInfo {
    fn dup(&self) -> (r: Self) {
        TableInfo {
            id: self.id.dup(),
            schema: self.schema.dup(),
            name: self.name.dup(),
        }
    }

    fn same(&self, other: &Self) -> (b: bool) {
        self.id.same(&other.id)
            && self.schema.same(&other.schema)
            && self.name.same(&other.name)
    }
}

impl Clone for TableInfo {
    fn clone(&self) -> (r: Self)
        ensures
            r@ == self@,
    {
        self.dup()
    }
}

/// A live column.
#[derive(Debug, PartialEq, Eq)]
pub struct ColumnInfo {
    pub id: ColumnId,
    pub position: u64,
    pub name: String,
    pub column_type: String,
    pub nulls_allowed: bool,
    pub default_value: Option<String>,
}

/// The model of [`ColumnInfo`].
#[verifier::ext_equal]
pub struct ColumnInfoSpec {
    pub id: ColumnId,
    pub position: u64,
    pub name: Seq<char>,
    pub column_type: Seq<char>,
    pub nulls_allowed: bool,
    pub default_value: Option<Seq<char>>,
}

impl View for ColumnInfo {
    type V = ColumnInfoSpec;

    open spec fn view(&self) -> ColumnInfoSpec {
        ColumnInfoSpec {
            id: self.id.deep_view(),
            position: self.position.deep_view(),
            name: self.name.deep_view(),
            column_type: self.column_type.deep_view(),
            nulls_allowed: self.nulls_allowed.deep_view(),
            default_value: self.default_value.deep_view(),
        }
    }
}

impl DeepView for ColumnInfo {
    type V = ColumnInfoSpec;

    open spec fn deep_view(&self) -> ColumnInfoSpec {
        self.view()
    }
}

impl Record for ColumnInfo {
    fn dup(&self) -> (r: Self) {
        ColumnInfo {
            id: self.id.dup(),
            position: self.position.dup(),
            name: self.name.dup(),
            column_type: self.column_type.dup(),
            nulls_allowed: self.nulls_allowed.dup(),
            default_value: self.default_value.dup(),
        }
    }

    fn same(&self, other: &Self) -> (b: bool) {
        self.id.same(&other.id)
            && self.position.same(&other.position)
            && self.name.same(&other.name)
            && self.column_type.same(&other.column_type)
            && self.nulls_allowed.same(&other.nulls_allowed)
            && self.default_value.same(&other.default_value)
    }
}

impl Clone for ColumnInfo {
    fn clone(&self) -> (r: Self)
        ensures
            r@ == self@,
    {
        self.dup()
    }
}

/// A live view.
#[derive(Debug, PartialEq, Eq)]
pub struct ViewInfo {
    pub id: ViewId,
    pub schema: SchemaId,
    pub name: String,
    pub dialect: String,
    pub sql: String,
}

/// The model of [`ViewInfo`].
#[verifier::ext_equal]
pub struct ViewInfoSpec {
    pub id: ViewId,
    pub schema: SchemaId,
    pub name: Seq<char>,
    pub dialect: Seq<char>,
    pub sql: Seq<char>,
}

impl View for ViewInfo {
    type V = ViewInfoSpec;

    open spec fn view(&self) -> ViewInfoSpec {
        ViewInfoSpec {
            id: self.id.deep_view(),
            schema: self.schema.deep_view(),
            name: self.name.deep_view(),
            dialect: self.dialect.deep_view(),
            sql: self.sql.deep_view(),
        }
    }
}

impl DeepView for ViewInfo {
    type V = ViewInfoSpec;

    open spec fn deep_view(&self) -> ViewInfoSpec {
        self.view()
    }
}

impl Record for ViewInfo {
    fn dup(&self) -> (r: Self) {
        ViewInfo {
            id: self.id.dup(),
            schema: self.schema.dup(),
            name: self.name.dup(),
            dialect: self.dialect.dup(),
            sql: self.sql.dup(),
        }
    }

    fn same(&self, other: &Self) -> (b: bool) {
        self.id.same(&other.id)
            && self.schema.same(&other.schema)
            && self.name.same(&other.name)
            && self.dialect.same(&other.dialect)
            && self.sql.same(&other.sql)
    }
}

impl Clone for ViewInfo {
    fn clone(&self) -> (r: Self)
        ensures
            r@ == self@,
    {
        self.dup()
    }
}

/// A live data file.
#[derive(Debug, PartialEq, Eq)]
pub struct DataFileInfo {
    pub id: DataFileId,
    pub path: String,
    pub record_count: u64,
    pub file_size_bytes: u64,
    pub row_id_start: Option<u64>,
}

/// The model of [`DataFileInfo`].
#[verifier::ext_equal]
pub struct DataFileInfoSpec {
    pub id: DataFileId,
    pub path: Seq<char>,
    pub record_count: u64,
    pub file_size_bytes: u64,
    pub row_id_start: Option<u64>,
}

impl View for DataFileInfo {
    type V = DataFileInfoSpec;

    open spec fn view(&self) -> DataFileInfoSpec {
        DataFileInfoSpec {
            id: self.id.deep_view(),
            path: self.path.deep_view(),
            record_count: self.record_count.deep_view(),
            file_size_bytes: self.file_size_bytes.deep_view(),
            row_id_start: self.row_id_start.deep_view(),
        }
    }
}

impl DeepView for DataFileInfo {
    type V = DataFileInfoSpec;

    open spec fn deep_view(&self) -> DataFileInfoSpec {
        self.view()
    }
}

impl Record for DataFileInfo {
    fn dup(&self) -> (r: Self) {
        DataFileInfo {
            id: self.id.dup(),
            path: self.path.dup(),
            record_count: self.record_count.dup(),
            file_size_bytes: self.file_size_bytes.dup(),
            row_id_start: self.row_id_start.dup(),
        }
    }

    fn same(&self, other: &Self) -> (b: bool) {
        self.id.same(&other.id)
            && self.path.same(&other.path)
            && self.record_count.same(&other.record_count)
            && self.file_size_bytes.same(&other.file_size_bytes)
            && self.row_id_start.same(&other.row_id_start)
    }
}

impl Clone for DataFileInfo {
    fn clone(&self) -> (r: Self)
        ensures
            r@ == self@,
    {
        self.dup()
    }
}

/// A live delete file.
#[derive(Debug, PartialEq, Eq)]
pub struct DeleteFileInfo {
    pub id: DeleteFileId,
    pub data_file_id: DataFileId,
    pub path: String,
    pub delete_count: u64,
}

/// The model of [`DeleteFileInfo`].
#[verifier::ext_equal]
pub struct DeleteFileInfoSpec {
    pub id: DeleteFileId,
    pub data_file_id: DataFileId,
    pub path: Seq<char>,
    pub delete_count: u64,
}

impl View for DeleteFileInfo {
    type V = DeleteFileInfoSpec;

    open spec fn view(&self) -> DeleteFileInfoSpec {
        DeleteFileInfoSpec {
            id: self.id.deep_view(),
            data_file_id: self.data_file_id.deep_view(),
            path: self.path.deep_view(),
            delete_count: self.delete_count.deep_view(),
        }
    }
}

impl DeepView for DeleteFileInfo {
    type V = DeleteFileInfoSpec;

    open spec fn deep_view(&self) -> DeleteFileInfoSpec {
        self.view()
    }
}

impl Record for DeleteFileInfo {
    fn dup(&self) -> (r: Self) {
        DeleteFileInfo {
            id: self.id.dup(),
            data_file_id: self.data_file_id.dup(),
            path: self.path.dup(),
            delete_count: self.delete_count.dup(),
        }
    }

    fn same(&self, other: &Self) -> (b: bool) {
        self.id.same(&other.id)
            && self.data_file_id.same(&other.data_file_id)
            && self.path.same(&other.path)
            && self.delete_count.same(&other.delete_count)
    }
}

impl Clone for DeleteFileInfo {
    fn clone(&self) -> (r: Self)
        ensures
            r@ == self@,
    {
        self.dup()
    }
}

/// Which way an indexed column sorts.
#[derive(Clone, Copy, PartialEq, Eq, Structural, Debug)]
pub enum Direction {
    Ascending,
    Descending,
}

impl DeepView for Direction {
    type V = Direction;

    open spec fn deep_view(&self) -> Direction {
        *self
    }
}

impl Record for Direction {
    fn dup(&self) -> (r: Self) {
        *self
    }

    fn same(&self, other: &Self) -> (b: bool) {
        *self == *other
    }
}

/// Where the NULLs of an indexed column sort.
#[derive(Clone, Copy, PartialEq, Eq, Structural, Debug)]
pub enum NullOrder {
    First,
    Last,
}

impl DeepView for NullOrder {
    type V = NullOrder;

    open spec fn deep_view(&self) -> NullOrder {
        *self
    }
}

impl Record for NullOrder {
    fn dup(&self) -> (r: Self) {
        *self
    }

    fn same(&self, other: &Self) -> (b: bool) {
        *self == *other
    }
}

/// A live equality index. The directions and the places of NULLs stand in the order of
/// the columns; the bytes of an entry's key follow them.
#[derive(Debug, PartialEq, Eq)]
pub struct IndexInfo {
    pub id: IndexId,
    pub columns: Vec<u64>,
    pub unique: bool,
    pub directions: Vec<Direction>,
    pub nulls: Vec<NullOrder>,
}

/// The model of [`IndexInfo`].
#[verifier::ext_equal]
pub struct IndexInfoSpec {
    pub id: IndexId,
    pub columns: Seq<u64>,
    pub unique: bool,
    pub directions: Seq<Direction>,
    pub nulls: Seq<NullOrder>,
}

impl View for IndexInfo {
    type V = IndexInfoSpec;

    open spec fn view(&self) -> IndexInfoSpec {
        IndexInfoSpec {
            id: self.id.deep_view(),
            columns: self.columns.deep_view(),
            unique: self.unique.deep_view(),
            directions: self.directions.deep_view(),
            nulls: self.nulls.deep_view(),
        }
    }
}

impl DeepView for IndexInfo {
    type V = IndexInfoSpec;

    open spec fn deep_view(&self) -> IndexInfoSpec {
        self.view()
    }
}

impl Record for IndexInfo {
    fn dup(&self) -> (r: Self) {
        IndexInfo {
            id: self.id.dup(),
            columns: self.columns.dup(),
            unique: self.unique.dup(),
            directions: self.directions.dup(),
            nulls: self.nulls.dup(),
        }
    }

    fn same(&self, other: &Self) -> (b: bool) {
        self.id.same(&other.id)
            && self.columns.same(&other.columns)
            && self.unique.same(&other.unique)
            && self.directions.same(&other.directions)
            && self.nulls.same(&other.nulls)
    }
}

impl Clone for IndexInfo {
    fn clone(&self) -> (r: Self)
        ensures
            r@ == self@,
    {
        self.dup()
    }
}

impl Default for ColumnAlteration {
    fn default() -> (r: Self)
        ensures
            r.column_type is None,
            r.nulls_allowed is None,
            r.default_value is None,
    {
        ColumnAlteration { column_type: None, nulls_allowed: None, default_value: None }
    }
}

impl Default for ColumnStats {
    fn default() -> (r: Self)
        ensures
            r.contains_null is None,
            r.contains_nan is None,
            r.min_value is None,
            r.max_value is None,
            r.extra_stats is None,
    {
        ColumnStats {
            contains_null: None,
            contains_nan: None,
            min_value: None,
            max_value: None,
            extra_stats: None,
        }
    }
}

} // verus!
