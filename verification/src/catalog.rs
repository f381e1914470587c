//! A catalog as of one snapshot: the live records, how they are put and
//! removed, and what readers ask of them.
use crate::api::{
    scope_key, ColumnId, ColumnInfo, ColumnInfoSpec, ColumnStats, ColumnStatsSpec, DataFileId,
    DataFileInfo, DataFileInfoSpec, DeleteFileId, DeleteFileInfo, DeleteFileInfoSpec, IndexId,
    IndexInfo, IndexInfoSpec, OptionScope, SchemaId, SchemaInfo, SchemaInfoSpec, TableId, TableInfo,
    TableInfoSpec, ViewId, ViewInfo, ViewInfoSpec,
};
use crate::error::{around, refused, text_around, Error, Fault};
use crate::index_upkeep::indexes_listed;
use crate::ordered::{ascending, selected, OrdMap, OrdSet, Record};
use crate::records::{
    ColumnModel, ColumnValue, DataFileModel, DataFileValue, DeleteFileModel, DeleteFileValue, FileColumnStatsModel, FileColumnStatsValue, GcFileModel, GcFileValue, IndexModel, IndexValue, MacroModel, MacroValue, MappingModel, MappingValue, OptionScopeModel, OptionScopeValue, PartitionModel, PartitionValue, SchemaModel, SchemaValue, SnapshotModel, SnapshotValue, SortModel, SortValue, TableColumnStatsModel, TableColumnStatsValue, TableModel, TableStatsModel, TableStatsValue, TableValue, TagModel, TagValue, ViewModel, ViewValue,
};
use crate::scoped::{minus_scope, scope};
use crate::text::{push_text, same_text};
use vstd::prelude::*;

verus! {

/// A catalog as of one snapshot: every live record, by id.
#[derive(Debug, PartialEq, Eq)]
pub struct CatalogSnapshot {
    pub snapshot: SnapshotValue,
    pub schemas: OrdMap<u64, SchemaValue>,
    pub tables: OrdMap<u64, TableValue>,
    pub views: OrdMap<u64, ViewValue>,
    pub columns: OrdMap<(u64, u64), ColumnValue>,
    pub data_files: OrdMap<(u64, u64), DataFileValue>,
    pub delete_files: OrdMap<(u64, u64), DeleteFileValue>,
    pub partitions: OrdMap<(u64, u64), PartitionValue>,
    pub sorts: OrdMap<(u64, u64), SortValue>,
    pub indexes: OrdMap<(u64, u64), IndexValue>,
    pub macros: OrdMap<u64, MacroValue>,
    pub mappings: OrdMap<(u64, u64), MappingValue>,
    pub table_stats: OrdMap<u64, TableStatsValue>,
    pub table_column_stats: OrdMap<(u64, u64), TableColumnStatsValue>,
    pub file_column_stats: OrdMap<(u64, (u64, u64)), FileColumnStatsValue>,
    pub options: OrdMap<(u64, u64), OptionScopeValue>,
    pub tags: OrdMap<u64, TagValue>,
    pub gc_files: OrdMap<u64, GcFileValue>,
}

/// The model of [`CatalogSnapshot`].
#[verifier::ext_equal]
pub struct CatalogModel {
    pub snapshot: SnapshotModel,
    pub schemas: Map<u64, SchemaModel>,
    pub tables: Map<u64, TableModel>,
    pub views: Map<u64, ViewModel>,
    pub columns: Map<(u64, u64), ColumnModel>,
    pub data_files: Map<(u64, u64), DataFileModel>,
    pub delete_files: Map<(u64, u64), DeleteFileModel>,
    pub partitions: Map<(u64, u64), PartitionModel>,
    pub sorts: Map<(u64, u64), SortModel>,
    pub indexes: Map<(u64, u64), IndexModel>,
    pub macros: Map<u64, MacroModel>,
    pub mappings: Map<(u64, u64), MappingModel>,
    pub table_stats: Map<u64, TableStatsModel>,
    pub table_column_stats: Map<(u64, u64), TableColumnStatsModel>,
    pub file_column_stats: Map<(u64, (u64, u64)), FileColumnStatsModel>,
    pub options: Map<(u64, u64), OptionScopeModel>,
    pub tags: Map<u64, TagModel>,
    pub gc_files: Map<u64, GcFileModel>,
}

impl View for CatalogSnapshot {
    type V = CatalogModel;

    open spec fn view(&self) -> CatalogModel {
        CatalogModel {
            snapshot: self.snapshot.deep_view(),
            schemas: self.schemas.deep_view(),
            tables: self.tables.deep_view(),
            views: self.views.deep_view(),
            columns: self.columns.deep_view(),
            data_files: self.data_files.deep_view(),
            delete_files: self.delete_files.deep_view(),
            partitions: self.partitions.deep_view(),
            sorts: self.sorts.deep_view(),
            indexes: self.indexes.deep_view(),
            macros: self.macros.deep_view(),
            mappings: self.mappings.deep_view(),
            table_stats: self.table_stats.deep_view(),
            table_column_stats: self.table_column_stats.deep_view(),
            file_column_stats: self.file_column_stats.deep_view(),
            options: self.options.deep_view(),
            tags: self.tags.deep_view(),
            gc_files: self.gc_files.deep_view(),
        }
    }
}

impl DeepView for CatalogSnapshot {
    type V = CatalogModel;

    open spec fn deep_view(&self) -> CatalogModel {
        self.view()
    }
}

impl Record for CatalogSnapshot {
    fn dup(&self) -> (r: Self) {
        CatalogSnapshot {
            snapshot: self.snapshot.dup(),
            schemas: self.schemas.dup(),
            tables: self.tables.dup(),
            views: self.views.dup(),
            columns: self.columns.dup(),
            data_files: self.data_files.dup(),
            delete_files: self.delete_files.dup(),
            partitions: self.partitions.dup(),
            sorts: self.sorts.dup(),
            indexes: self.indexes.dup(),
            macros: self.macros.dup(),
            mappings: self.mappings.dup(),
            table_stats: self.table_stats.dup(),
            table_column_stats: self.table_column_stats.dup(),
            file_column_stats: self.file_column_stats.dup(),
            options: self.options.dup(),
            tags: self.tags.dup(),
            gc_files: self.gc_files.dup(),
        }
    }

    fn same(&self, other: &Self) -> (b: bool) {
        self.snapshot.same(&other.snapshot)
            && self.schemas.same(&other.schemas)
            && self.tables.same(&other.tables)
            && self.views.same(&other.views)
            && self.columns.same(&other.columns)
            && self.data_files.same(&other.data_files)
            && self.delete_files.same(&other.delete_files)
            && self.partitions.same(&other.partitions)
            && self.sorts.same(&other.sorts)
            && self.indexes.same(&other.indexes)
            && self.macros.same(&other.macros)
            && self.mappings.same(&other.mappings)
            && self.table_stats.same(&other.table_stats)
            && self.table_column_stats.same(&other.table_column_stats)
            && self.file_column_stats.same(&other.file_column_stats)
            && self.options.same(&other.options)
            && self.tags.same(&other.tags)
            && self.gc_files.same(&other.gc_files)
    }
}

impl Clone for CatalogSnapshot {
    fn clone(&self) -> (r: Self)
        ensures
            r@ == self@,
    {
        self.dup()
    }
}

// ---------------------------------------------------------------------------
// Putting and removing
// ---------------------------------------------------------------------------

/// A state without a table: its columns, files, specs, indexes and table-level
/// statistics go with it. Per-file statistics stay, for readers of the past.
pub open spec fn minus_table(m: CatalogModel, table_id: u64) -> CatalogModel {
    CatalogModel {
        tables: m.tables.remove(table_id),
        columns: minus_scope(m.columns, table_id),
        data_files: minus_scope(m.data_files, table_id),
        delete_files: minus_scope(m.delete_files, table_id),
        partitions: minus_scope(m.partitions, table_id),
        sorts: minus_scope(m.sorts, table_id),
        indexes: minus_scope(m.indexes, table_id),
        table_stats: m.table_stats.remove(table_id),
        table_column_stats: minus_scope(m.table_column_stats, table_id),
        ..m
    }
}

/// A state without a column, nor its table-level statistics.
pub open spec fn minus_column(m: CatalogModel, table_id: u64, column_id: u64) -> CatalogModel {
    CatalogModel {
        columns: m.columns.remove((table_id, column_id)),
        table_column_stats: m.table_column_stats.remove((table_id, column_id)),
        ..m
    }
}

impl CatalogSnapshot {
    /// A catalog without records.
    pub fn empty(snapshot: SnapshotValue) -> (c: Self)
        ensures
            c@ == empty_catalog(snapshot@),
    {
        CatalogSnapshot {
            snapshot,
            schemas: OrdMap::new(),
            tables: OrdMap::new(),
            views: OrdMap::new(),
            columns: OrdMap::new(),
            data_files: OrdMap::new(),
            delete_files: OrdMap::new(),
            partitions: OrdMap::new(),
            sorts: OrdMap::new(),
            indexes: OrdMap::new(),
            macros: OrdMap::new(),
            mappings: OrdMap::new(),
            table_stats: OrdMap::new(),
            table_column_stats: OrdMap::new(),
            file_column_stats: OrdMap::new(),
            options: OrdMap::new(),
            tags: OrdMap::new(),
            gc_files: OrdMap::new(),
        }
    }

    pub fn put_schema(&mut self, v: SchemaValue)
        ensures
            final(self)@ == (CatalogModel {
                schemas: old(self)@.schemas.insert(v@.schema_id, v@),
                ..old(self)@
            }),
    {
        self.schemas.insert(v.schema_id, v);
    }

    pub fn put_table(&mut self, v: TableValue)
        ensures
            final(self)@ == (CatalogModel {
                tables: old(self)@.tables.insert(v@.table_id, v@),
                ..old(self)@
            }),
    {
        self.tables.insert(v.table_id, v);
    }

    pub fn put_view(&mut self, v: ViewValue)
        ensures
            final(self)@ == (CatalogModel {
                views: old(self)@.views.insert(v@.view_id, v@),
                ..old(self)@
            }),
    {
        self.views.insert(v.view_id, v);
    }

    pub fn put_column(&mut self, v: ColumnValue)
        ensures
            final(self)@ == (CatalogModel {
                columns: old(self)@.columns.insert((v@.table_id, v@.column_id), v@),
                ..old(self)@
            }),
    {
        self.columns.insert((v.table_id, v.column_id), v);
    }

    pub fn put_data_file(&mut self, v: DataFileValue)
        ensures
            final(self)@ == (CatalogModel {
                data_files: old(self)@.data_files.insert((v@.table_id, v@.data_file_id), v@),
                ..old(self)@
            }),
    {
        self.data_files.insert((v.table_id, v.data_file_id), v);
    }

    pub fn put_delete_file(&mut self, v: DeleteFileValue)
        ensures
            final(self)@ == (CatalogModel {
                delete_files: old(self)@.delete_files.insert((v@.table_id, v@.delete_file_id), v@),
                ..old(self)@
            }),
    {
        self.delete_files.insert((v.table_id, v.delete_file_id), v);
    }

    pub fn put_partition(&mut self, v: PartitionValue)
        ensures
            final(self)@ == (CatalogModel {
                partitions: old(self)@.partitions.insert((v@.table_id, v@.partition_id), v@),
                ..old(self)@
            }),
    {
        self.partitions.insert((v.table_id, v.partition_id), v);
    }

    pub fn put_sort(&mut self, v: SortValue)
        ensures
            final(self)@ == (CatalogModel {
                sorts: old(self)@.sorts.insert((v@.table_id, v@.sort_id), v@),
                ..old(self)@
            }),
    {
        self.sorts.insert((v.table_id, v.sort_id), v);
    }

    pub fn put_index(&mut self, v: IndexValue)
        ensures
            final(self)@ == (CatalogModel {
                indexes: old(self)@.indexes.insert((v@.table_id, v@.index_id), v@),
                ..old(self)@
            }),
    {
        self.indexes.insert((v.table_id, v.index_id), v);
    }

    pub fn put_macro(&mut self, v: MacroValue)
        ensures
            final(self)@ == (CatalogModel {
                macros: old(self)@.macros.insert(v@.macro_id, v@),
                ..old(self)@
            }),
    {
        self.macros.insert(v.macro_id, v);
    }

    pub fn put_mapping(&mut self, v: MappingValue)
        ensures
            final(self)@ == (CatalogModel {
                mappings: old(self)@.mappings.insert((v@.table_id, v@.mapping_id), v@),
                ..old(self)@
            }),
    {
        self.mappings.insert((v.table_id, v.mapping_id), v);
    }

    pub fn put_table_stats(&mut self, v: TableStatsValue)
        ensures
            final(self)@ == (CatalogModel {
                table_stats: old(self)@.table_stats.insert(v@.table_id, v@),
                ..old(self)@
            }),
    {
        self.table_stats.insert(v.table_id, v);
    }

    pub fn put_table_column_stats(&mut self, v: TableColumnStatsValue)
        ensures
            final(self)@ == (CatalogModel {
                table_column_stats: old(self)@.table_column_stats.insert((v@.table_id, v@.column_id), v@),
                ..old(self)@
            }),
    {
        self.table_column_stats.insert((v.table_id, v.column_id), v);
    }

    pub fn put_file_column_stats(&mut self, v: FileColumnStatsValue)
        ensures
            final(self)@ == (CatalogModel {
                file_column_stats: old(self)@.file_column_stats.insert((v@.table_id, (v@.data_file_id, v@.column_id)), v@),
                ..old(self)@
            }),
    {
        self.file_column_stats.insert((v.table_id, (v.data_file_id, v.column_id)), v);
    }

    pub fn put_tags(&mut self, v: TagValue)
        ensures
            final(self)@ == (CatalogModel {
                tags: old(self)@.tags.insert(v@.object_id, v@),
                ..old(self)@
            }),
    {
        self.tags.insert(v.object_id, v);
    }

    pub fn put_gc_file(&mut self, v: GcFileValue)
        ensures
            final(self)@ == (CatalogModel {
                gc_files: old(self)@.gc_files.insert(v@.data_file_id, v@),
                ..old(self)@
            }),
    {
        self.gc_files.insert(v.data_file_id, v);
    }

    /// Sets the options of a scope.
    pub fn set_option_record(&mut self, scope: (u64, u64), v: OptionScopeValue)
        ensures
            final(self)@ == (CatalogModel {
                options: old(self)@.options.insert(scope, v@),
                ..old(self)@
            }),
    {
        self.options.insert(scope, v);
    }

    /// Forgets the options of a scope.
    pub fn remove_option_record(&mut self, scope: (u64, u64))
        ensures
            final(self)@ == (CatalogModel {
                options: old(self)@.options.remove(scope),
                ..old(self)@
            }),
    {
        let _ = self.options.remove(&scope);
    }

    pub fn delete_schema(&mut self, id: u64)
        ensures
            final(self)@ == (CatalogModel { schemas: old(self)@.schemas.remove(id), ..old(self)@ }),
    {
        let _ = self.schemas.remove(&id);
    }

    pub fn delete_view(&mut self, id: u64)
        ensures
            final(self)@ == (CatalogModel { views: old(self)@.views.remove(id), ..old(self)@ }),
    {
        let _ = self.views.remove(&id);
    }

    pub fn delete_data_file(&mut self, table_id: u64, id: u64)
        ensures
            final(self)@ == (CatalogModel {
                data_files: old(self)@.data_files.remove((table_id, id)),
                ..old(self)@
            }),
    {
        let _ = self.data_files.remove(&(table_id, id));
    }

    pub fn delete_delete_file(&mut self, table_id: u64, id: u64)
        ensures
            final(self)@ == (CatalogModel {
                delete_files: old(self)@.delete_files.remove((table_id, id)),
                ..old(self)@
            }),
    {
        let _ = self.delete_files.remove(&(table_id, id));
    }

    /// Removes a table with everything that goes with it.
    pub fn delete_table(&mut self, table_id: u64)
        ensures
            final(self)@ == minus_table(old(self)@, table_id),
    {
        let _ = self.tables.remove(&table_id);
        self.columns.remove_scope(table_id);
        self.data_files.remove_scope(table_id);
        self.delete_files.remove_scope(table_id);
        self.partitions.remove_scope(table_id);
        self.sorts.remove_scope(table_id);
        self.indexes.remove_scope(table_id);
        let _ = self.table_stats.remove(&table_id);
        self.table_column_stats.remove_scope(table_id);
    }

    /// Removes a column and its table-level statistics.
    pub fn delete_column(&mut self, table_id: u64, column_id: u64)
        ensures
            final(self)@ == minus_column(old(self)@, table_id, column_id),
    {
        let _ = self.columns.remove(&(table_id, column_id));
        let _ = self.table_column_stats.remove(&(table_id, column_id));
    }
}

pub open spec fn empty_catalog(snapshot: SnapshotModel) -> CatalogModel {
    CatalogModel {
        snapshot,
        schemas: Map::empty(),
        tables: Map::empty(),
        views: Map::empty(),
        columns: Map::empty(),
        data_files: Map::empty(),
        delete_files: Map::empty(),
        partitions: Map::empty(),
        sorts: Map::empty(),
        indexes: Map::empty(),
        macros: Map::empty(),
        mappings: Map::empty(),
        table_stats: Map::empty(),
        table_column_stats: Map::empty(),
        file_column_stats: Map::empty(),
        options: Map::empty(),
        tags: Map::empty(),
        gc_files: Map::empty(),
    }
}

// ---------------------------------------------------------------------------
// Building from stored records
// ---------------------------------------------------------------------------

/// A record as it was read from the store.
pub enum EntityRecord {
    Schema(SchemaValue),
    Table(TableValue),
    View(ViewValue),
    Column(ColumnValue),
    DataFile(DataFileValue),
    DeleteFile(DeleteFileValue),
    Partition(PartitionValue),
    Sort(SortValue),
    Index(IndexValue),
    Macro(MacroValue),
    Mapping(MappingValue),
    TableStats(TableStatsValue),
    TableColumnStats(TableColumnStatsValue),
    FileColumnStats(FileColumnStatsValue),
    OptionScope { scope_kind: u64, scope_id: u64, value: OptionScopeValue },
    Tag(TagValue),
    GcFile(GcFileValue),
}

/// The model of [`EntityRecord`].
pub enum EntityModel {
    Schema(SchemaModel),
    Table(TableModel),
    View(ViewModel),
    Column(ColumnModel),
    DataFile(DataFileModel),
    DeleteFile(DeleteFileModel),
    Partition(PartitionModel),
    Sort(SortModel),
    Index(IndexModel),
    Macro(MacroModel),
    Mapping(MappingModel),
    TableStats(TableStatsModel),
    TableColumnStats(TableColumnStatsModel),
    FileColumnStats(FileColumnStatsModel),
    OptionScope { scope_kind: u64, scope_id: u64, value: OptionScopeModel },
    Tag(TagModel),
    GcFile(GcFileModel),
}

impl DeepView for EntityRecord {
    type V = EntityModel;

    open spec fn deep_view(&self) -> EntityModel {
        match *self {
            EntityRecord::Schema(v) => EntityModel::Schema(v@),
            EntityRecord::Table(v) => EntityModel::Table(v@),
            EntityRecord::View(v) => EntityModel::View(v@),
            EntityRecord::Column(v) => EntityModel::Column(v@),
            EntityRecord::DataFile(v) => EntityModel::DataFile(v@),
            EntityRecord::DeleteFile(v) => EntityModel::DeleteFile(v@),
            EntityRecord::Partition(v) => EntityModel::Partition(v@),
            EntityRecord::Sort(v) => EntityModel::Sort(v@),
            EntityRecord::Index(v) => EntityModel::Index(v@),
            EntityRecord::Macro(v) => EntityModel::Macro(v@),
            EntityRecord::Mapping(v) => EntityModel::Mapping(v@),
            EntityRecord::TableStats(v) => EntityModel::TableStats(v@),
            EntityRecord::TableColumnStats(v) => EntityModel::TableColumnStats(v@),
            EntityRecord::FileColumnStats(v) => EntityModel::FileColumnStats(v@),
            EntityRecord::OptionScope { scope_kind, scope_id, value } =>
                EntityModel::OptionScope { scope_kind, scope_id, value: value@ },
            EntityRecord::Tag(v) => EntityModel::Tag(v@),
            EntityRecord::GcFile(v) => EntityModel::GcFile(v@),
        }
    }
}

/// Whether a version that lived from `begin` to `end` is seen at a snapshot.
pub open spec fn lives_at(begin: u64, end: Option<u64>, snapshot: u64) -> bool {
    begin <= snapshot && (match end {
        Some(end) => snapshot < end,
        None => true,
    })
}

/// Whether a record is seen at a snapshot; records without versions always are.
pub open spec fn seen_at(r: EntityModel, snapshot: u64) -> bool {
    match r {
        EntityModel::Schema(v) => lives_at(v.begin_snapshot, v.end_snapshot, snapshot),
        EntityModel::Table(v) => lives_at(v.begin_snapshot, v.end_snapshot, snapshot),
        EntityModel::View(v) => lives_at(v.begin_snapshot, v.end_snapshot, snapshot),
        EntityModel::Column(v) => lives_at(v.begin_snapshot, v.end_snapshot, snapshot),
        EntityModel::DataFile(v) => lives_at(v.begin_snapshot, v.end_snapshot, snapshot),
        EntityModel::DeleteFile(v) => lives_at(v.begin_snapshot, v.end_snapshot, snapshot),
        EntityModel::Partition(v) => lives_at(v.begin_snapshot, v.end_snapshot, snapshot),
        EntityModel::Sort(v) => lives_at(v.begin_snapshot, v.end_snapshot, snapshot),
        EntityModel::Index(v) => lives_at(v.begin_snapshot, v.end_snapshot, snapshot),
        EntityModel::Macro(v) => lives_at(v.begin_snapshot, v.end_snapshot, snapshot),
        _ => true,
    }
}

/// The state with a record put in.
pub open spec fn with_record(m: CatalogModel, r: EntityModel) -> CatalogModel {
    match r {
        EntityModel::Schema(v) => CatalogModel {
            schemas: m.schemas.insert(v.schema_id, v),
            ..m
        },
        EntityModel::Table(v) => CatalogModel {
            tables: m.tables.insert(v.table_id, v),
            ..m
        },
        EntityModel::View(v) => CatalogModel {
            views: m.views.insert(v.view_id, v),
            ..m
        },
        EntityModel::Column(v) => CatalogModel {
            columns: m.columns.insert((v.table_id, v.column_id), v),
            ..m
        },
        EntityModel::DataFile(v) => CatalogModel {
            data_files: m.data_files.insert((v.table_id, v.data_file_id), v),
            ..m
        },
        EntityModel::DeleteFile(v) => CatalogModel {
            delete_files: m.delete_files.insert((v.table_id, v.delete_file_id), v),
            ..m
        },
        EntityModel::Partition(v) => CatalogModel {
            partitions: m.partitions.insert((v.table_id, v.partition_id), v),
            ..m
        },
        EntityModel::Sort(v) => CatalogModel {
            sorts: m.sorts.insert((v.table_id, v.sort_id), v),
            ..m
        },
        EntityModel::Index(v) => CatalogModel {
            indexes: m.indexes.insert((v.table_id, v.index_id), v),
            ..m
        },
        EntityModel::Macro(v) => CatalogModel {
            macros: m.macros.insert(v.macro_id, v),
            ..m
        },
        EntityModel::Mapping(v) => CatalogModel {
            mappings: m.mappings.insert((v.table_id, v.mapping_id), v),
            ..m
        },
        EntityModel::TableStats(v) => CatalogModel {
            table_stats: m.table_stats.insert(v.table_id, v),
            ..m
        },
        EntityModel::TableColumnStats(v) => CatalogModel {
            table_column_stats: m.table_column_stats.insert((v.table_id, v.column_id), v),
            ..m
        },
        EntityModel::FileColumnStats(v) => CatalogModel {
            file_column_stats: m.file_column_stats.insert((v.table_id, (v.data_file_id, v.column_id)), v),
            ..m
        },
        EntityModel::OptionScope { scope_kind, scope_id, value } => CatalogModel {
            options: m.options.insert((scope_kind, scope_id), value),
            ..m
        },
        EntityModel::Tag(v) => CatalogModel {
            tags: m.tags.insert(v.object_id, v),
            ..m
        },
        EntityModel::GcFile(v) => CatalogModel {
            gc_files: m.gc_files.insert(v.data_file_id, v),
            ..m
        },
    }
}

/// The state with the records put in, in order, that are seen at a snapshot;
/// `None` sees every record.
pub open spec fn with_records(
    m: CatalogModel,
    records: Seq<EntityModel>,
    at: Option<u64>,
) -> CatalogModel
    decreases records.len(),
{
    if records.len() == 0 {
        m
    } else {
        let before = with_records(m, records.drop_last(), at);
        let r = records.last();
        if at is None || seen_at(r, at->0) {
            with_record(before, r)
        } else {
            before
        }
    }
}

fn version_lives_at(begin: u64, end: Option<u64>, snapshot: u64) -> (r: bool)
    ensures
        r == lives_at(begin, end, snapshot),
{
    begin <= snapshot && match end {
        Some(end) => snapshot < end,
        None => true,
    }
}

impl EntityRecord {
    fn is_seen_at(&self, snapshot: u64) -> (r: bool)
        ensures
            r == seen_at(self.deep_view(), snapshot),
    {
        match self {
            EntityRecord::Schema(v) => version_lives_at(
                v.begin_snapshot,
                v.end_snapshot,
                snapshot,
            ),
            EntityRecord::Table(v) => version_lives_at(
                v.begin_snapshot,
                v.end_snapshot,
                snapshot,
            ),
            EntityRecord::View(v) => version_lives_at(
                v.begin_snapshot,
                v.end_snapshot,
                snapshot,
            ),
            EntityRecord::Column(v) => version_lives_at(
                v.begin_snapshot,
                v.end_snapshot,
                snapshot,
            ),
            EntityRecord::DataFile(v) => version_lives_at(
                v.begin_snapshot,
                v.end_snapshot,
                snapshot,
            ),
            EntityRecord::DeleteFile(v) => version_lives_at(
                v.begin_snapshot,
                v.end_snapshot,
                snapshot,
            ),
            EntityRecord::Partition(v) => version_lives_at(
                v.begin_snapshot,
                v.end_snapshot,
                snapshot,
            ),
            EntityRecord::Sort(v) => version_lives_at(
                v.begin_snapshot,
                v.end_snapshot,
                snapshot,
            ),
            EntityRecord::Index(v) => version_lives_at(
                v.begin_snapshot,
                v.end_snapshot,
                snapshot,
            ),
            EntityRecord::Macro(v) => version_lives_at(
                v.begin_snapshot,
                v.end_snapshot,
                snapshot,
            ),
            _ => true,
        }
    }
}

impl CatalogSnapshot {
    fn put_record(&mut self, r: EntityRecord)
        ensures
            final(self)@ == with_record(old(self)@, r.deep_view()),
    {
        match r {
            EntityRecord::Schema(v) => self.put_schema(v),
            EntityRecord::Table(v) => self.put_table(v),
            EntityRecord::View(v) => self.put_view(v),
            EntityRecord::Column(v) => self.put_column(v),
            EntityRecord::DataFile(v) => self.put_data_file(v),
            EntityRecord::DeleteFile(v) => self.put_delete_file(v),
            EntityRecord::Partition(v) => self.put_partition(v),
            EntityRecord::Sort(v) => self.put_sort(v),
            EntityRecord::Index(v) => self.put_index(v),
            EntityRecord::Macro(v) => self.put_macro(v),
            EntityRecord::Mapping(v) => self.put_mapping(v),
            EntityRecord::TableStats(v) => self.put_table_stats(v),
            EntityRecord::TableColumnStats(v) => self.put_table_column_stats(v),
            EntityRecord::FileColumnStats(v) => self.put_file_column_stats(v),
            EntityRecord::OptionScope { scope_kind, scope_id, value } => self.set_option_record(
                (scope_kind, scope_id),
                value,
            ),
            EntityRecord::Tag(v) => self.put_tags(v),
            EntityRecord::GcFile(v) => self.put_gc_file(v),
        }
    }

    fn put_records(&mut self, records: Vec<EntityRecord>, at: Option<u64>)
        ensures
            final(self)@ == with_records(old(self)@, records.deep_view(), at),
    {
        let ghost rs = records.deep_view();
        let ghost all = records@;
        assert(rs.take(0) =~= Seq::<EntityModel>::empty());
        for r in it: records.into_iter()
            invariant
                it.seq() == all,
                rs.len() == all.len(),
                forall|j: int| 0 <= j < all.len() ==> rs[j] == (#[trigger] all[j]).deep_view(),
                self@ == with_records(old(self)@, rs.take(it.index() as int), at),
        {
            proof {
                let next = rs.take(it.index() + 1);
                assert(next.drop_last() =~= rs.take(it.index() as int));
                assert(next.last() == r.deep_view());
            }
            let seen = match at {
                Some(snapshot) => r.is_seen_at(snapshot),
                None => true,
            };
            if seen {
                self.put_record(r);
            }
        }
        assert(rs.take(rs.len() as int) =~= rs);
    }

    /// The catalog that stored records describe: the live records, and, for a
    /// reader of the past, the ended versions that it still sees.
    pub fn build(
        snapshot: SnapshotValue,
        current: Vec<EntityRecord>,
        history: Vec<EntityRecord>,
        at: Option<u64>,
    ) -> (c: Self)
        ensures
            c@ == with_records(
                with_records(empty_catalog(snapshot@), current.deep_view(), at),
                history.deep_view(),
                at,
            ),
    {
        let mut c = CatalogSnapshot::empty(snapshot);
        c.put_records(current, at);
        c.put_records(history, at);
        c
    }
}

// ---------------------------------------------------------------------------
// Lookups
// ---------------------------------------------------------------------------

/// The schemas with a name.
pub open spec fn schemas_named(m: CatalogModel, name: Seq<char>) -> Set<u64> {
    selected(m.schemas, |id: u64, s: crate::records::SchemaModel| s.schema_name == name)
}

/// The tables of a schema with a name.
pub open spec fn tables_named(m: CatalogModel, schema_id: u64, name: Seq<char>) -> Set<u64> {
    selected(
        m.tables,
        |id: u64, t: crate::records::TableModel| t.schema_id == schema_id && t.table_name == name,
    )
}

/// The views of a schema with a name.
pub open spec fn views_named(m: CatalogModel, schema_id: u64, name: Seq<char>) -> Set<u64> {
    selected(
        m.views,
        |id: u64, v: crate::records::ViewModel| v.schema_id == schema_id && v.view_name == name,
    )
}

/// The tables of a schema.
pub open spec fn tables_under(m: CatalogModel, schema_id: u64) -> Set<u64> {
    selected(m.tables, |id: u64, t: crate::records::TableModel| t.schema_id == schema_id)
}

/// The views of a schema.
pub open spec fn views_under(m: CatalogModel, schema_id: u64) -> Set<u64> {
    selected(m.views, |id: u64, v: crate::records::ViewModel| v.schema_id == schema_id)
}

/// Whether a name is taken: tables and views of a schema share one namespace.
pub open spec fn relation_taken(m: CatalogModel, schema_id: u64, name: Seq<char>) -> bool {
    tables_named(m, schema_id, name) != Set::<u64>::empty() || views_named(m, schema_id, name)
        != Set::<u64>::empty()
}

/// The columns of a table with a name.
pub open spec fn columns_named(m: CatalogModel, table_id: u64, name: Seq<char>) -> Set<(u64, u64)> {
    selected(
        m.columns,
        |id: (u64, u64), c: crate::records::ColumnModel| id.0 == table_id && c.column_name == name,
    )
}

/// The delete files of a table that target a data file.
pub open spec fn delete_files_on(m: CatalogModel, table_id: u64, data_file_id: u64) -> Set<(u64, u64)> {
    selected(
        m.delete_files,
        |id: (u64, u64), d: crate::records::DeleteFileModel|
            id.0 == table_id && d.data_file_id == data_file_id,
    )
}

/// The first of a set of ids, if any.
pub open spec fn lowest(s: Set<u64>) -> Option<u64> {
    if s == Set::<u64>::empty() {
        None
    } else {
        Some(ascending::<u64>(s)[0])
    }
}

fn lowest_of(s: &OrdSet<u64>) -> (id: Option<u64>)
    ensures
        id == lowest(s@),
        id is Some ==> s@.contains(id->0),
{
    let items = s.items();
    let ghost q = items.deep_view();
    if items.len() > 0 {
        proof {
            assert(q.to_set().contains(q[0]));
        }
        Some(items[0])
    } else {
        assert(s@ =~= Set::<u64>::empty());
        None
    }
}

/// What readers are told of a column.
pub open spec fn column_info(c: crate::records::ColumnModel) -> ColumnInfoSpec {
    ColumnInfoSpec {
        id: ColumnId { id: c.column_id },
        position: c.column_order,
        name: c.column_name,
        column_type: c.column_type,
        nulls_allowed: c.nulls_allowed,
        default_value: c.default_value,
    }
}

/// The columns of a table, each as its position and its id within the table.
pub open spec fn column_ranks(m: CatalogModel, table_id: u64) -> Set<(u64, u64)> {
    Set::new(
        |r: (u64, u64)|
            m.columns.contains_key((table_id, r.1)) && m.columns[(table_id, r.1)].column_order
                == r.0,
    )
}

/// What readers are told of a table's columns: by position, then by id.
pub open spec fn column_list(m: CatalogModel, table_id: u64) -> Seq<ColumnInfoSpec> {
    let ranks = ascending::<(u64, u64)>(column_ranks(m, table_id));
    Seq::new(ranks.len(), |i: int| column_info(m.columns[(table_id, ranks[i].1)]))
}

pub open spec fn table_info(t: crate::records::TableModel) -> TableInfoSpec {
    TableInfoSpec {
        id: TableId { id: t.table_id },
        schema: SchemaId { id: t.schema_id },
        name: t.table_name,
    }
}

pub open spec fn view_info(v: crate::records::ViewModel) -> ViewInfoSpec {
    ViewInfoSpec {
        id: ViewId { id: v.view_id },
        schema: SchemaId { id: v.schema_id },
        name: v.view_name,
        dialect: v.dialect,
        sql: v.sql,
    }
}

pub open spec fn data_file_info(f: crate::records::DataFileModel) -> DataFileInfoSpec {
    DataFileInfoSpec {
        id: DataFileId { id: f.data_file_id },
        path: f.path,
        record_count: f.record_count,
        file_size_bytes: f.file_size_bytes,
        row_id_start: f.row_id_start,
    }
}

pub open spec fn delete_file_info(f: crate::records::DeleteFileModel) -> DeleteFileInfoSpec {
    DeleteFileInfoSpec {
        id: DeleteFileId { id: f.delete_file_id },
        data_file_id: DataFileId { id: f.data_file_id },
        path: f.path,
        delete_count: f.delete_count,
    }
}

pub open spec fn index_info(i: crate::records::IndexModel) -> IndexInfoSpec {
    IndexInfoSpec {
        id: IndexId { id: i.index_id },
        columns: i.columns,
        unique: i.unique,
        directions: i.directions,
        nulls: i.nulls,
    }
}

pub open spec fn column_stats_info(s: crate::records::TableColumnStatsModel) -> ColumnStatsSpec {
    ColumnStatsSpec {
        contains_null: s.contains_null,
        contains_nan: s.contains_nan,
        min_value: s.min_value,
        max_value: s.max_value,
        extra_stats: s.extra_stats,
    }
}

/// What a schema's name finds: the schema of that name with the lowest id.
pub open spec fn schema_found(m: CatalogModel, name: Seq<char>) -> Option<SchemaInfoSpec> {
    match lowest(schemas_named(m, name)) {
        Some(id) => Some(
            SchemaInfoSpec {
                id: SchemaId { id: m.schemas[id].schema_id },
                name: m.schemas[id].schema_name,
            },
        ),
        None => None,
    }
}

/// The tables of a schema, by their ids.
pub open spec fn tables_listed(m: CatalogModel, schema_id: u64) -> Seq<TableInfoSpec> {
    ascending::<u64>(tables_under(m, schema_id)).map_values(|id: u64| table_info(m.tables[id]))
}

/// The data files of a table, by their ids.
pub open spec fn data_files_listed(m: CatalogModel, table_id: u64) -> Seq<DataFileInfoSpec> {
    ascending::<u64>(scope(m.data_files, table_id)).map_values(
        |id: u64| data_file_info(m.data_files[(table_id, id)]),
    )
}

/// The delete files of a table, by their ids.
pub open spec fn delete_files_listed(m: CatalogModel, table_id: u64) -> Seq<DeleteFileInfoSpec> {
    ascending::<u64>(scope(m.delete_files, table_id)).map_values(
        |id: u64| delete_file_info(m.delete_files[(table_id, id)]),
    )
}

/// The statistics of a column over its table, where it has some.
pub open spec fn column_stats_found(m: CatalogModel, table_id: u64, column_id: u64) -> Option<
    ColumnStatsSpec,
> {
    match crate::diff::at(m.table_column_stats, (table_id, column_id)) {
        Some(s) => Some(column_stats_info(s)),
        None => None,
    }
}

/// The view of an id, where it is live.
pub open spec fn view_at(m: CatalogModel, id: u64) -> Option<ViewInfoSpec> {
    match crate::diff::at(m.views, id) {
        Some(v) => Some(view_info(v)),
        None => None,
    }
}

/// What a view's name finds in a schema: the view of that name with the lowest
/// id.
pub open spec fn view_found(m: CatalogModel, schema_id: u64, name: Seq<char>) -> Option<
    ViewInfoSpec,
> {
    match lowest(views_named(m, schema_id, name)) {
        Some(id) => Some(view_info(m.views[id])),
        None => None,
    }
}

/// The option set in exactly one scope.
pub open spec fn option_in(m: CatalogModel, scope: OptionScope, key: Seq<char>) -> Option<Seq<char>> {
    let k = scope_key(scope);
    if m.options.contains_key(k) && m.options[k].options.contains_key(key) {
        Some(m.options[k].options[key])
    } else {
        None
    }
}

/// The option that applies in a scope: the one set there, else the one of the
/// schema around a table, else the global one.
pub open spec fn option_for(m: CatalogModel, scope: OptionScope, key: Seq<char>) -> Option<Seq<char>> {
    match scope {
        OptionScope::Global => option_in(m, scope, key),
        OptionScope::Schema(_) => or_else(
            option_in(m, scope, key),
            option_in(m, OptionScope::Global, key),
        ),
        OptionScope::Table(t) => or_else(
            option_in(m, scope, key),
            or_else(
                if m.tables.contains_key(t.id) {
                    option_in(
                        m,
                        OptionScope::Schema(SchemaId { id: m.tables[t.id].schema_id }),
                        key,
                    )
                } else {
                    None
                },
                option_in(m, OptionScope::Global, key),
            ),
        ),
    }
}

pub open spec fn or_else(a: Option<Seq<char>>, b: Option<Seq<char>>) -> Option<Seq<char>> {
    if a is Some {
        a
    } else {
        b
    }
}

/// The directory of a table's files, below the data path.
pub open spec fn table_directory(m: CatalogModel, table_id: u64) -> Option<Seq<char>> {
    if m.tables.contains_key(table_id) {
        let t = m.tables[table_id];
        if m.schemas.contains_key(t.schema_id) {
            Some(m.schemas[t.schema_id].path + t.path)
        } else {
            None
        }
    } else {
        None
    }
}

impl CatalogSnapshot {
    /// The schemas with a name.
    pub fn schema_ids_named(&self, name: &str) -> (ids: OrdSet<u64>)
        ensures
            ids@ == schemas_named(self@, name@),
    {
        let test = |id: &u64, s: &SchemaValue| -> (b: bool)
            ensures
                b == (s@.schema_name == name@),
        {
            same_text(s.schema_name.as_str(), name)
        };
        self.schemas.select(test, Ghost(|id: u64, s: crate::records::SchemaModel| s.schema_name == name@))
    }

    /// The schema with a name.
    pub fn schema_by_name(&self, name: &str) -> (info: Option<SchemaInfo>)
        ensures
            info.deep_view() == schema_found(self@, name@),
    {
        let ids = self.schema_ids_named(name);
        match lowest_of(&ids) {
            Some(id) => match self.schemas.get(&id) {
                Some(s) => Some(
                    SchemaInfo { id: SchemaId::new(s.schema_id), name: s.schema_name.clone() },
                ),
                None => None,
            },
            None => None,
        }
    }

    /// The tables of a schema with a name.
    pub fn table_ids_named(&self, schema_id: u64, name: &str) -> (ids: OrdSet<u64>)
        ensures
            ids@ == tables_named(self@, schema_id, name@),
    {
        let test = |id: &u64, t: &TableValue| -> (b: bool)
            ensures
                b == (t@.schema_id == schema_id && t@.table_name == name@),
        {
            t.schema_id == schema_id && same_text(t.table_name.as_str(), name)
        };
        self.tables.select(test, Ghost(
                |id: u64, t: crate::records::TableModel|
                    t.schema_id == schema_id && t.table_name == name@,
            ))
    }

    /// The views of a schema with a name.
    pub fn view_ids_named(&self, schema_id: u64, name: &str) -> (ids: OrdSet<u64>)
        ensures
            ids@ == views_named(self@, schema_id, name@),
    {
        let test = |id: &u64, v: &ViewValue| -> (b: bool)
            ensures
                b == (v@.schema_id == schema_id && v@.view_name == name@),
        {
            v.schema_id == schema_id && same_text(v.view_name.as_str(), name)
        };
        self.views.select(test, Ghost(
                |id: u64, v: crate::records::ViewModel|
                    v.schema_id == schema_id && v.view_name == name@,
            ))
    }

    /// Whether a table or view of a schema has a name.
    pub fn is_relation_taken(&self, schema_id: u64, name: &str) -> (taken: bool)
        ensures
            taken == relation_taken(self@, schema_id, name@),
    {
        let tables = self.table_ids_named(schema_id, name);
        let views = self.view_ids_named(schema_id, name);
        !tables.is_empty() || !views.is_empty()
    }

    /// The tables of a schema.
    pub fn table_ids_under(&self, schema_id: u64) -> (ids: OrdSet<u64>)
        ensures
            ids@ == tables_under(self@, schema_id),
    {
        let test = |id: &u64, t: &TableValue| -> (b: bool)
            ensures
                b == (t@.schema_id == schema_id),
        {
            t.schema_id == schema_id
        };
        self.tables.select(test, Ghost(|id: u64, t: crate::records::TableModel| t.schema_id == schema_id))
    }

    /// The views of a schema.
    pub fn view_ids_under(&self, schema_id: u64) -> (ids: OrdSet<u64>)
        ensures
            ids@ == views_under(self@, schema_id),
    {
        let test = |id: &u64, v: &ViewValue| -> (b: bool)
            ensures
                b == (v@.schema_id == schema_id),
        {
            v.schema_id == schema_id
        };
        self.views.select(test, Ghost(|id: u64, v: crate::records::ViewModel| v.schema_id == schema_id))
    }

    /// The columns of a table with a name.
    pub fn column_ids_named(&self, table_id: u64, name: &str) -> (ids: OrdSet<(u64, u64)>)
        ensures
            ids@ == columns_named(self@, table_id, name@),
    {
        let test = |id: &(u64, u64), c: &ColumnValue| -> (b: bool)
            ensures
                b == (id.0 == table_id && c@.column_name == name@),
        {
            id.0 == table_id && same_text(c.column_name.as_str(), name)
        };
        self.columns.select(test, Ghost(
                |id: (u64, u64), c: crate::records::ColumnModel|
                    id.0 == table_id && c.column_name == name@,
            ))
    }

    /// The delete files of a table that target a data file.
    pub fn delete_file_ids_on(&self, table_id: u64, data_file_id: u64) -> (ids: OrdSet<(u64, u64)>)
        ensures
            ids@ == delete_files_on(self@, table_id, data_file_id),
    {
        let test = |id: &(u64, u64), d: &DeleteFileValue| -> (b: bool)
            ensures
                b == (id.0 == table_id && d@.data_file_id == data_file_id),
        {
            id.0 == table_id && d.data_file_id == data_file_id
        };
        self.delete_files.select(test, Ghost(
                |id: (u64, u64), d: crate::records::DeleteFileModel|
                    id.0 == table_id && d.data_file_id == data_file_id,
            ))
    }

    /// The tables of a schema, in ascending order of their ids.
    pub fn tables_in(&self, schema: SchemaId) -> (tables: Vec<TableInfo>)
        ensures
            tables.deep_view() == tables_listed(self@, schema.id),
    {
        let ids = self.table_ids_under(schema.id);
        let items = ids.items();
        let ghost q = items.deep_view();
        let mut tables: Vec<TableInfo> = Vec::new();
        let mut i: usize = 0;
        while i < items.len()
            invariant
                i <= items@.len(),
                q == items.deep_view(),
                q.to_set() == tables_under(self@, schema.id),
                tables@.len() == i,
                forall|j: int|
                    0 <= j < i ==> (#[trigger] tables@[j]).deep_view() == table_info(
                        self@.tables[q[j]],
                    ),
            decreases items.len() - i,
        {
            assert(q.to_set().contains(q[i as int]));
            match self.tables.get(&items[i]) {
                Some(t) => {
                    tables.push(
                        TableInfo {
                            id: TableId::new(t.table_id),
                            schema: SchemaId::new(t.schema_id),
                            name: t.table_name.clone(),
                        },
                    );
                },
                None => {},
            }
            i = i + 1;
        }
        assert(tables.deep_view() =~= q.map_values(|id: u64| table_info(self@.tables[id])));
        tables
    }

    /// The columns of a table, each as its position and its id.
    fn ranks_of(&self, table_id: u64) -> (ranks: OrdSet<(u64, u64)>)
        ensures
            ranks@ == column_ranks(self@, table_id),
    {
        let ids = self.columns.in_scope(table_id);
        let items = ids.items();
        let ghost q = items.deep_view();
        let mut ranks: OrdSet<(u64, u64)> = OrdSet::new();
        let mut i: usize = 0;
        while i < items.len()
            invariant
                i <= items@.len(),
                q == items.deep_view(),
                q.to_set() == scope(self@.columns, table_id),
                forall|r: (u64, u64)| #[trigger]
                    ranks@.contains(r) <==> q.take(i as int).contains(r.1) && column_ranks(
                        self@,
                        table_id,
                    ).contains(r),
            decreases items.len() - i,
        {
            let ghost before = ranks@;
            let id: u64 = items[i];
            assert(q[i as int] == id);
            assert(q.to_set().contains(id));
            match self.columns.get(&(table_id, id)) {
                Some(c) => {
                    ranks.insert((c.column_order, id));
                },
                None => {},
            }
            proof {
                let t = q.take(i as int);
                assert(q.take(i + 1) =~= t.push(id));
                crate::ordered::pushed_elements(t, id);
                assert forall|r: (u64, u64)| #[trigger] ranks@.contains(r) <==> q.take(
                    i + 1,
                ).contains(r.1) && column_ranks(self@, table_id).contains(r) by {
                    assert(t.push(id).to_set().contains(r.1) <==> t.to_set().contains(r.1) || r.1
                        == id);
                    assert(before.contains(r) <==> t.contains(r.1) && column_ranks(
                        self@,
                        table_id,
                    ).contains(r));
                }
            }
            i = i + 1;
        }
        proof {
            assert(q.take(q.len() as int) =~= q);
            assert forall|r: (u64, u64)| #[trigger] ranks@.contains(r) <==> column_ranks(
                self@,
                table_id,
            ).contains(r) by {
                if column_ranks(self@, table_id).contains(r) {
                    assert(q.to_set().contains(r.1));
                }
            }
            assert(ranks@ =~= column_ranks(self@, table_id));
        }
        ranks
    }

    /// The columns of a table, by position.
    pub fn columns_of(&self, table: TableId) -> (columns: Vec<ColumnInfo>)
        ensures
            columns.deep_view() == column_list(self@, table.id),
    {
        let ranks = self.ranks_of(table.id);
        let items = ranks.items();
        let ghost q = items.deep_view();
        let mut columns: Vec<ColumnInfo> = Vec::new();
        let mut i: usize = 0;
        while i < items.len()
            invariant
                i <= items@.len(),
                q == items.deep_view(),
                q.to_set() == column_ranks(self@, table.id),
                columns@.len() == i,
                forall|j: int|
                    0 <= j < i ==> (#[trigger] columns@[j]).deep_view() == column_info(
                        self@.columns[(table.id, q[j].1)],
                    ),
            decreases items.len() - i,
        {
            assert(q[i as int] == items@[i as int]);
            assert(q.to_set().contains(q[i as int]));
            match self.columns.get(&(table.id, items[i].1)) {
                Some(c) => {
                    columns.push(
                        ColumnInfo {
                            id: ColumnId::new(c.column_id),
                            position: c.column_order,
                            name: c.column_name.clone(),
                            column_type: c.column_type.clone(),
                            nulls_allowed: c.nulls_allowed,
                            default_value: c.default_value.dup(),
                        },
                    );
                },
                None => {},
            }
            i = i + 1;
        }
        assert(columns.deep_view() =~= column_list(self@, table.id));
        columns
    }

    /// The data files of a table, in ascending order of their ids.
    pub fn data_files_of(&self, table: TableId) -> (files: Vec<DataFileInfo>)
        ensures
            files.deep_view() == data_files_listed(self@, table.id),
    {
        let ids = self.data_files.in_scope(table.id);
        let items = ids.items();
        let ghost q = items.deep_view();
        let mut files: Vec<DataFileInfo> = Vec::new();
        let mut i: usize = 0;
        while i < items.len()
            invariant
                i <= items@.len(),
                q == items.deep_view(),
                q.to_set() == scope(self@.data_files, table.id),
                files@.len() == i,
                forall|j: int|
                    0 <= j < i ==> (#[trigger] files@[j]).deep_view() == data_file_info(
                        self@.data_files[(table.id, q[j])],
                    ),
            decreases items.len() - i,
        {
            assert(q.to_set().contains(q[i as int]));
            match self.data_files.get(&(table.id, items[i])) {
                Some(f) => {
                    files.push(
                        DataFileInfo {
                            id: DataFileId::new(f.data_file_id),
                            path: f.path.clone(),
                            record_count: f.record_count,
                            file_size_bytes: f.file_size_bytes,
                            row_id_start: f.row_id_start,
                        },
                    );
                },
                None => {},
            }
            i = i + 1;
        }
        assert(files.deep_view() =~= q.map_values(
            |id: u64| data_file_info(self@.data_files[(table.id, id)]),
        ));
        files
    }

    /// The delete files of a table, in ascending order of their ids.
    pub fn delete_files_of(&self, table: TableId) -> (files: Vec<DeleteFileInfo>)
        ensures
            files.deep_view() == delete_files_listed(self@, table.id),
    {
        let ids = self.delete_files.in_scope(table.id);
        let items = ids.items();
        let ghost q = items.deep_view();
        let mut files: Vec<DeleteFileInfo> = Vec::new();
        let mut i: usize = 0;
        while i < items.len()
            invariant
                i <= items@.len(),
                q == items.deep_view(),
                q.to_set() == scope(self@.delete_files, table.id),
                files@.len() == i,
                forall|j: int|
                    0 <= j < i ==> (#[trigger] files@[j]).deep_view() == delete_file_info(
                        self@.delete_files[(table.id, q[j])],
                    ),
            decreases items.len() - i,
        {
            assert(q.to_set().contains(q[i as int]));
            match self.delete_files.get(&(table.id, items[i])) {
                Some(f) => {
                    files.push(
                        DeleteFileInfo {
                            id: DeleteFileId::new(f.delete_file_id),
                            data_file_id: DataFileId::new(f.data_file_id),
                            path: f.path.clone(),
                            delete_count: f.delete_count,
                        },
                    );
                },
                None => {},
            }
            i = i + 1;
        }
        assert(files.deep_view() =~= q.map_values(
            |id: u64| delete_file_info(self@.delete_files[(table.id, id)]),
        ));
        files
    }

    /// The equality indexes of a table, in ascending order of their ids.
    pub fn indexes_of(&self, table: TableId) -> (indexes: Vec<IndexInfo>)
        ensures
            indexes.deep_view() == indexes_listed(self@, table.id),
    {
        let ids = self.indexes.in_scope(table.id);
        let items = ids.items();
        let ghost q = items.deep_view();
        let mut indexes: Vec<IndexInfo> = Vec::new();
        let mut i: usize = 0;
        while i < items.len()
            invariant
                i <= items@.len(),
                q == items.deep_view(),
                q.to_set() == scope(self@.indexes, table.id),
                indexes@.len() == i,
                forall|j: int|
                    0 <= j < i ==> (#[trigger] indexes@[j]).deep_view() == index_info(
                        self@.indexes[(table.id, q[j])],
                    ),
            decreases items.len() - i,
        {
            assert(q.to_set().contains(q[i as int]));
            match self.indexes.get(&(table.id, items[i])) {
                Some(x) => {
                    indexes.push(
                        IndexInfo {
                            id: IndexId::new(x.index_id),
                            columns: x.columns.dup(),
                            unique: x.unique,
                            directions: x.directions.dup(),
                            nulls: x.nulls.dup(),
                        },
                    );
                },
                None => {},
            }
            i = i + 1;
        }
        assert(indexes.deep_view() =~= q.map_values(
            |id: u64| index_info(self@.indexes[(table.id, id)]),
        ));
        indexes
    }

    /// The statistics of a table.
    pub fn table_stats(&self, table: TableId) -> (stats: Option<TableStatsValue>)
        ensures
            stats.deep_view() == crate::diff::at(self@.table_stats, table.id),
    {
        match self.table_stats.get(&table.id) {
            Some(s) => Some(s.dup()),
            None => None,
        }
    }

    /// The statistics of a column over its table.
    pub fn column_stats(&self, table: TableId, column: ColumnId) -> (stats: Option<ColumnStats>)
        ensures
            stats.deep_view() == column_stats_found(self@, table.id, column.id),
    {
        match self.table_column_stats.get(&(table.id, column.id)) {
            Some(s) => Some(
                ColumnStats {
                    contains_null: s.contains_null,
                    contains_nan: s.contains_nan,
                    min_value: s.min_value.dup(),
                    max_value: s.max_value.dup(),
                    extra_stats: s.extra_stats.dup(),
                },
            ),
            None => None,
        }
    }

    /// The view with an id.
    pub fn view_by_id(&self, view: ViewId) -> (info: Option<ViewInfo>)
        ensures
            info.deep_view() == view_at(self@, view.id),
    {
        match self.views.get(&view.id) {
            Some(v) => Some(
                ViewInfo {
                    id: ViewId::new(v.view_id),
                    schema: SchemaId::new(v.schema_id),
                    name: v.view_name.clone(),
                    dialect: v.dialect.clone(),
                    sql: v.sql.clone(),
                },
            ),
            None => None,
        }
    }

    /// The view of a schema with a name.
    pub fn view_by_name(&self, schema: SchemaId, name: &str) -> (info: Option<ViewInfo>)
        ensures
            info.deep_view() == view_found(self@, schema.id, name@),
    {
        let ids = self.view_ids_named(schema.id, name);
        match lowest_of(&ids) {
            Some(id) => self.view_by_id(ViewId::new(id)),
            None => None,
        }
    }

    /// The option set in exactly one scope.
    fn option_at(&self, scope: OptionScope, key: &String) -> (value: Option<String>)
        ensures
            value.deep_view() == option_in(self@, scope, key@),
    {
        match self.options.get(&scope.key_components()) {
            Some(record) => match record.options.get(key) {
                Some(value) => Some(value.clone()),
                None => None,
            },
            None => None,
        }
    }

    /// The option that applies in a scope.
    pub fn option(&self, scope: OptionScope, key: &str) -> (value: Option<String>)
        ensures
            value.deep_view() == option_for(self@, scope, key@),
    {
        let mut name = String::new();
        push_text(&mut name, key);
        assert(name@ =~= key@);
        let own = self.option_at(scope, &name);
        if own.is_some() {
            return own;
        }
        match scope {
            OptionScope::Global => own,
            OptionScope::Schema(_) => self.option_at(OptionScope::Global, &name),
            OptionScope::Table(t) => {
                if let Some(table) = self.tables.get(&t.id) {
                    let around = self.option_at(
                        OptionScope::Schema(SchemaId::new(table.schema_id)),
                        &name,
                    );
                    if around.is_some() {
                        return around;
                    }
                }
                self.option_at(OptionScope::Global, &name)
            },
        }
    }

    /// The directory of a table's files, below the data path.
    pub fn table_data_prefix(&self, table: TableId) -> (prefix: Result<String, Error>)
        ensures
            match table_directory(self@, table.id) {
                Some(t) => prefix is Ok && prefix->Ok_0@ == t,
                None => refused(prefix, unknown_table(table.id)),
            },
    {
        if let Some(t) = self.tables.get(&table.id) {
            if let Some(s) = self.schemas.get(&t.schema_id) {
                let mut prefix = s.path.clone();
                push_text(&mut prefix, t.path.as_str());
                return Ok(prefix);
            }
        }
        Err(unknown_table_error(table.id))
    }

    /// The number of live records, as far as it can be counted.
    pub fn live_record_count(&self) -> (n: usize)
        ensures
            n == capped(record_total(self@)),
    {
        let mut n: u128 = 0;
        n = n + self.schemas.len() as u128;
        n = n + self.tables.len() as u128;
        n = n + self.views.len() as u128;
        n = n + self.columns.len() as u128;
        n = n + self.data_files.len() as u128;
        n = n + self.delete_files.len() as u128;
        n = n + self.partitions.len() as u128;
        n = n + self.sorts.len() as u128;
        n = n + self.indexes.len() as u128;
        n = n + self.macros.len() as u128;
        n = n + self.mappings.len() as u128;
        n = n + self.table_stats.len() as u128;
        n = n + self.table_column_stats.len() as u128;
        n = n + self.file_column_stats.len() as u128;
        n = n + self.options.len() as u128;
        n = n + self.tags.len() as u128;
        n = n + self.gc_files.len() as u128;
        assert(n == record_total(self@));
        if n <= usize::MAX as u128 {
            n as usize
        } else {
            usize::MAX
        }
    }
}

/// The number of live records.
pub open spec fn record_total(m: CatalogModel) -> nat {
    m.schemas.dom().len() + m.tables.dom().len() + m.views.dom().len() + m.columns.dom().len()
        + m.data_files.dom().len() + m.delete_files.dom().len() + m.partitions.dom().len()
        + m.sorts.dom().len() + m.indexes.dom().len() + m.macros.dom().len()
        + m.mappings.dom().len() + m.table_stats.dom().len() + m.table_column_stats.dom().len()
        + m.file_column_stats.dom().len() + m.options.dom().len() + m.tags.dom().len()
        + m.gc_files.dom().len()
}

/// A count, held below what a machine word can hold.
pub open spec fn capped(n: nat) -> nat {
    if n <= usize::MAX {
        n
    } else {
        usize::MAX as nat
    }
}

// ---------------------------------------------------------------------------
// Refusals
// ---------------------------------------------------------------------------

pub open spec fn unknown_table(id: u64) -> Fault {
    Fault::NotFound(around("table "@, id, ""@))
}

pub fn unknown_table_error(id: u64) -> (e: Error)
    ensures
        e@ == unknown_table(id),
{
    Error::NotFound(text_around("table ", id, ""))
}

pub open spec fn unknown_schema(id: u64) -> Fault {
    Fault::NotFound(around("schema "@, id, ""@))
}

pub fn unknown_schema_error(id: u64) -> (e: Error)
    ensures
        e@ == unknown_schema(id),
{
    Error::NotFound(text_around("schema ", id, ""))
}

} // verus!
