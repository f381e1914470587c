//! Keys and values of the store, as typed data, and the writes of a commit.
use crate::ordered::Record;
use crate::records::{
    ColumnModel, ColumnValue, DataFileModel, DataFileValue, DeleteFileModel, DeleteFileValue, FileColumnStatsModel, FileColumnStatsValue, FormatModel, FormatValue, GcFileModel, GcFileValue, HeadModel, HeadValue, IndexModel, IndexValue, InlineChunkModel, InlineChunkValue, InlineFileDeleteModel, InlineFileDeleteValue, InlineInlineDeleteModel, InlineInlineDeleteValue, InlineSchemaModel, InlineSchemaValue, MacroModel, MacroValue, MappingModel, MappingValue, MigrationModel, MigrationValue, OptionScopeModel, OptionScopeValue, PartitionModel, PartitionValue, SchemaModel, SchemaValue, SnapshotModel, SnapshotValue, SortModel, SortValue, TableColumnStatsModel, TableColumnStatsValue, TableModel, TableStatsModel, TableStatsValue, TableValue, TagModel, TagValue, ViewModel, ViewValue,
};
use vstd::prelude::*;

verus! {

/// A catalog entity.
#[derive(Clone, Copy, PartialEq, Eq, Structural, Debug)]
pub enum EntityKey {
    Schema { schema_id: u64 },
    Table { table_id: u64 },
    View { view_id: u64 },
    Column { table_id: u64, column_id: u64 },
    File { table_id: u64, data_file_id: u64 },
    DeleteFile { table_id: u64, delete_file_id: u64 },
    Partition { table_id: u64, partition_id: u64 },
    Sort { table_id: u64, sort_id: u64 },
    Index { table_id: u64, index_id: u64 },
    Macro { macro_id: u64 },
    Mapping { table_id: u64, mapping_id: u64 },
    TableStats { table_id: u64 },
    TableColumnStats { table_id: u64, column_id: u64 },
    FileColumnStats { table_id: u64, data_file_id: u64, column_id: u64 },
    OptionScope { scope_kind: u64, scope_id: u64 },
    Tag { object_id: u64 },
}

/// A live record.
#[derive(Clone, Copy, PartialEq, Eq, Structural, Debug)]
pub enum CurrentKey {
    Entity(EntityKey),
    GcFile { data_file_id: u64 },
}

/// An ended version of an entity, by the snapshot that ended it.
#[derive(Clone, Copy, PartialEq, Eq, Structural, Debug)]
pub struct HistoryKey {
    pub entity: EntityKey,
    pub end_snapshot: u64,
}

/// Store-wide records.
#[derive(Clone, Copy, PartialEq, Eq, Structural, Debug)]
pub enum SysKey {
    Format,
    Head,
    Migration,
}

/// Records of inlined rows that a flush or a drop removes.
#[derive(Clone, Copy, PartialEq, Eq, Structural, Debug)]
pub enum InlineOperation {
    Insert { table_id: u64, schema_version: u64, begin_snapshot: u64, chunk_seq: u64 },
    InlineDelete { table_id: u64, row_id: u64 },
    FileDelete { table_id: u64, data_file_id: u64, row_id: u64 },
}

/// Records of inlined rows.
#[derive(Clone, Copy, PartialEq, Eq, Structural, Debug)]
pub enum InlineKey {
    Schema { table_id: u64, schema_version: u64 },
    Live(InlineOperation),
}

/// An entry of an equality index. The canonical value is part of the key; a
/// non-unique entry also carries its row.
#[derive(PartialEq, Eq, Debug)]
pub enum IndexKey {
    Unique { index_id: u64, key: Vec<u8> },
    Multi { index_id: u64, key: Vec<u8>, row_id: u64 },
}

/// The model of [`IndexKey`].
pub enum IndexKeyModel {
    Unique { index_id: u64, key: Seq<u8> },
    Multi { index_id: u64, key: Seq<u8>, row_id: u64 },
}

impl DeepView for IndexKey {
    type V = IndexKeyModel;

    open spec fn deep_view(&self) -> IndexKeyModel {
        match *self {
            IndexKey::Unique { index_id, key } => IndexKeyModel::Unique {
                index_id,
                key: key.deep_view(),
            },
            IndexKey::Multi { index_id, key, row_id } => IndexKeyModel::Multi {
                index_id,
                key: key.deep_view(),
                row_id,
            },
        }
    }
}

impl Record for IndexKey {
    fn dup(&self) -> (r: Self) {
        match self {
            IndexKey::Unique { index_id, key } => IndexKey::Unique {
                index_id: *index_id,
                key: key.dup(),
            },
            IndexKey::Multi { index_id, key, row_id } => IndexKey::Multi {
                index_id: *index_id,
                key: key.dup(),
                row_id: *row_id,
            },
        }
    }

    fn same(&self, other: &Self) -> (b: bool) {
        match (self, other) {
            (
                IndexKey::Unique { index_id: a, key: p },
                IndexKey::Unique { index_id: b, key: q },
            ) => *a == *b && p.same(q),
            (
                IndexKey::Multi { index_id: a, key: p, row_id: r },
                IndexKey::Multi { index_id: b, key: q, row_id: s },
            ) => *a == *b && p.same(q) && *r == *s,
            _ => false,
        }
    }
}

/// A key of the store.
#[derive(PartialEq, Eq, Debug)]
pub enum Key {
    Sys(SysKey),
    Snapshot { snapshot_id: u64 },
    Current(CurrentKey),
    History(HistoryKey),
    CommitDelta { snapshot_id: u64 },
    Inline(InlineKey),
    Index(IndexKey),
}

/// The model of [`Key`].
pub enum KeyModel {
    Sys(SysKey),
    Snapshot { snapshot_id: u64 },
    Current(CurrentKey),
    History(HistoryKey),
    CommitDelta { snapshot_id: u64 },
    Inline(InlineKey),
    Index(IndexKeyModel),
}

impl View for Key {
    type V = KeyModel;

    open spec fn view(&self) -> KeyModel {
        match *self {
            Key::Sys(k) => KeyModel::Sys(k),
            Key::Snapshot { snapshot_id } => KeyModel::Snapshot { snapshot_id },
            Key::Current(k) => KeyModel::Current(k),
            Key::History(k) => KeyModel::History(k),
            Key::CommitDelta { snapshot_id } => KeyModel::CommitDelta { snapshot_id },
            Key::Inline(k) => KeyModel::Inline(k),
            Key::Index(k) => KeyModel::Index(k.deep_view()),
        }
    }
}

impl DeepView for Key {
    type V = KeyModel;

    open spec fn deep_view(&self) -> KeyModel {
        self.view()
    }
}

impl Record for Key {
    fn dup(&self) -> (r: Self) {
        match self {
            Key::Sys(k) => Key::Sys(*k),
            Key::Snapshot { snapshot_id } => Key::Snapshot { snapshot_id: *snapshot_id },
            Key::Current(k) => Key::Current(*k),
            Key::History(k) => Key::History(*k),
            Key::CommitDelta { snapshot_id } => Key::CommitDelta { snapshot_id: *snapshot_id },
            Key::Inline(k) => Key::Inline(*k),
            Key::Index(k) => Key::Index(k.dup()),
        }
    }

    fn same(&self, other: &Self) -> (b: bool) {
        match (self, other) {
            (Key::Sys(a), Key::Sys(b)) => *a == *b,
            (Key::Snapshot { snapshot_id: a }, Key::Snapshot { snapshot_id: b }) => *a == *b,
            (Key::Current(a), Key::Current(b)) => *a == *b,
            (Key::History(a), Key::History(b)) => *a == *b,
            (Key::CommitDelta { snapshot_id: a }, Key::CommitDelta { snapshot_id: b }) => *a == *b,
            (Key::Inline(a), Key::Inline(b)) => *a == *b,
            (Key::Index(a), Key::Index(b)) => a.same(b),
            _ => false,
        }
    }
}

impl Clone for Key {
    fn clone(&self) -> (r: Self)
        ensures
            r@ == self@,
    {
        self.dup()
    }
}

impl Key {
    /// The key of an entity's live version.
    pub fn current(entity: EntityKey) -> (k: Self)
        ensures
            k@ == current_key(entity),
    {
        Key::Current(CurrentKey::Entity(entity))
    }

    /// The key of an entity's version that ended at a snapshot.
    pub fn history(entity: EntityKey, end_snapshot: u64) -> (k: Self)
        ensures
            k@ == history_key(entity, end_snapshot),
    {
        Key::History(HistoryKey { entity, end_snapshot })
    }
}

pub open spec fn current_key(entity: EntityKey) -> KeyModel {
    KeyModel::Current(CurrentKey::Entity(entity))
}

pub open spec fn history_key(entity: EntityKey, end_snapshot: u64) -> KeyModel {
    KeyModel::History(HistoryKey { entity, end_snapshot })
}

/// The live keys that a commit wrote, left for readers that hold an older
/// view.
#[derive(PartialEq, Eq, Debug)]
pub struct CommitDeltaValue {
    pub current_keys: Vec<Key>,
}

/// A value of the store.
#[derive(PartialEq, Eq, Debug)]
pub enum Stored {
    Format(FormatValue),
    Head(HeadValue),
    Migration(MigrationValue),
    Snapshot(SnapshotValue),
    Schema(SchemaValue),
    Table(TableValue),
    View(ViewValue),
    Column(ColumnValue),
    DataFile(DataFileValue),
    DeleteFile(DeleteFileValue),
    Partition(PartitionValue),
    Sort(SortValue),
    Index(IndexValue),
    Macro(MacroValue),
    Mapping(MappingValue),
    TableStats(TableStatsValue),
    TableColumnStats(TableColumnStatsValue),
    FileColumnStats(FileColumnStatsValue),
    OptionScope(OptionScopeValue),
    Tag(TagValue),
    GcFile(GcFileValue),
    InlineSchema(InlineSchemaValue),
    InlineChunk(InlineChunkValue),
    InlineInlineDelete(InlineInlineDeleteValue),
    InlineFileDelete(InlineFileDeleteValue),
    CommitDelta(CommitDeltaValue),
    /// Raw bytes: the value of an index entry.
    Raw(Vec<u8>),
}

/// The model of [`Stored`].
pub enum StoredModel {
    Format(FormatModel),
    Head(HeadModel),
    Migration(MigrationModel),
    Snapshot(SnapshotModel),
    Schema(SchemaModel),
    Table(TableModel),
    View(ViewModel),
    Column(ColumnModel),
    DataFile(DataFileModel),
    DeleteFile(DeleteFileModel),
    Partition(PartitionModel),
    Sort(SortModel),
    Index(IndexModel),
    Macro(MacroModel),
    Mapping(MappingModel),
    TableStats(TableStatsModel),
    TableColumnStats(TableColumnStatsModel),
    FileColumnStats(FileColumnStatsModel),
    OptionScope(OptionScopeModel),
    Tag(TagModel),
    GcFile(GcFileModel),
    InlineSchema(InlineSchemaModel),
    InlineChunk(InlineChunkModel),
    InlineInlineDelete(InlineInlineDeleteModel),
    InlineFileDelete(InlineFileDeleteModel),
    CommitDelta(Seq<KeyModel>),
    Raw(Seq<u8>),
}

impl View for Stored {
    type V = StoredModel;

    open spec fn view(&self) -> StoredModel {
        match *self {
            Stored::Format(v) => StoredModel::Format(v@),
            Stored::Head(v) => StoredModel::Head(v@),
            Stored::Migration(v) => StoredModel::Migration(v@),
            Stored::Snapshot(v) => StoredModel::Snapshot(v@),
            Stored::Schema(v) => StoredModel::Schema(v@),
            Stored::Table(v) => StoredModel::Table(v@),
            Stored::View(v) => StoredModel::View(v@),
            Stored::Column(v) => StoredModel::Column(v@),
            Stored::DataFile(v) => StoredModel::DataFile(v@),
            Stored::DeleteFile(v) => StoredModel::DeleteFile(v@),
            Stored::Partition(v) => StoredModel::Partition(v@),
            Stored::Sort(v) => StoredModel::Sort(v@),
            Stored::Index(v) => StoredModel::Index(v@),
            Stored::Macro(v) => StoredModel::Macro(v@),
            Stored::Mapping(v) => StoredModel::Mapping(v@),
            Stored::TableStats(v) => StoredModel::TableStats(v@),
            Stored::TableColumnStats(v) => StoredModel::TableColumnStats(v@),
            Stored::FileColumnStats(v) => StoredModel::FileColumnStats(v@),
            Stored::OptionScope(v) => StoredModel::OptionScope(v@),
            Stored::Tag(v) => StoredModel::Tag(v@),
            Stored::GcFile(v) => StoredModel::GcFile(v@),
            Stored::InlineSchema(v) => StoredModel::InlineSchema(v@),
            Stored::InlineChunk(v) => StoredModel::InlineChunk(v@),
            Stored::InlineInlineDelete(v) => StoredModel::InlineInlineDelete(v@),
            Stored::InlineFileDelete(v) => StoredModel::InlineFileDelete(v@),
            Stored::CommitDelta(v) => StoredModel::CommitDelta(v.current_keys.deep_view()),
            Stored::Raw(v) => StoredModel::Raw(v.deep_view()),
        }
    }
}

impl DeepView for Stored {
    type V = StoredModel;

    open spec fn deep_view(&self) -> StoredModel {
        self.view()
    }
}

impl Record for Stored {
    fn dup(&self) -> (r: Self) {
        match self {
            Stored::Format(v) => Stored::Format(v.dup()),
            Stored::Head(v) => Stored::Head(v.dup()),
            Stored::Migration(v) => Stored::Migration(v.dup()),
            Stored::Snapshot(v) => Stored::Snapshot(v.dup()),
            Stored::Schema(v) => Stored::Schema(v.dup()),
            Stored::Table(v) => Stored::Table(v.dup()),
            Stored::View(v) => Stored::View(v.dup()),
            Stored::Column(v) => Stored::Column(v.dup()),
            Stored::DataFile(v) => Stored::DataFile(v.dup()),
            Stored::DeleteFile(v) => Stored::DeleteFile(v.dup()),
            Stored::Partition(v) => Stored::Partition(v.dup()),
            Stored::Sort(v) => Stored::Sort(v.dup()),
            Stored::Index(v) => Stored::Index(v.dup()),
            Stored::Macro(v) => Stored::Macro(v.dup()),
            Stored::Mapping(v) => Stored::Mapping(v.dup()),
            Stored::TableStats(v) => Stored::TableStats(v.dup()),
            Stored::TableColumnStats(v) => Stored::TableColumnStats(v.dup()),
            Stored::FileColumnStats(v) => Stored::FileColumnStats(v.dup()),
            Stored::OptionScope(v) => Stored::OptionScope(v.dup()),
            Stored::Tag(v) => Stored::Tag(v.dup()),
            Stored::GcFile(v) => Stored::GcFile(v.dup()),
            Stored::InlineSchema(v) => Stored::InlineSchema(v.dup()),
            Stored::InlineChunk(v) => Stored::InlineChunk(v.dup()),
            Stored::InlineInlineDelete(v) => Stored::InlineInlineDelete(v.dup()),
            Stored::InlineFileDelete(v) => Stored::InlineFileDelete(v.dup()),
            Stored::CommitDelta(v) => Stored::CommitDelta(
                CommitDeltaValue { current_keys: v.current_keys.dup() },
            ),
            Stored::Raw(v) => Stored::Raw(v.dup()),
        }
    }

    fn same(&self, other: &Self) -> (b: bool) {
        match (self, other) {
            (Stored::Format(a), Stored::Format(b)) => a.same(b),
            (Stored::Head(a), Stored::Head(b)) => a.same(b),
            (Stored::Migration(a), Stored::Migration(b)) => a.same(b),
            (Stored::Snapshot(a), Stored::Snapshot(b)) => a.same(b),
            (Stored::Schema(a), Stored::Schema(b)) => a.same(b),
            (Stored::Table(a), Stored::Table(b)) => a.same(b),
            (Stored::View(a), Stored::View(b)) => a.same(b),
            (Stored::Column(a), Stored::Column(b)) => a.same(b),
            (Stored::DataFile(a), Stored::DataFile(b)) => a.same(b),
            (Stored::DeleteFile(a), Stored::DeleteFile(b)) => a.same(b),
            (Stored::Partition(a), Stored::Partition(b)) => a.same(b),
            (Stored::Sort(a), Stored::Sort(b)) => a.same(b),
            (Stored::Index(a), Stored::Index(b)) => a.same(b),
            (Stored::Macro(a), Stored::Macro(b)) => a.same(b),
            (Stored::Mapping(a), Stored::Mapping(b)) => a.same(b),
            (Stored::TableStats(a), Stored::TableStats(b)) => a.same(b),
            (Stored::TableColumnStats(a), Stored::TableColumnStats(b)) => a.same(b),
            (Stored::FileColumnStats(a), Stored::FileColumnStats(b)) => a.same(b),
            (Stored::OptionScope(a), Stored::OptionScope(b)) => a.same(b),
            (Stored::Tag(a), Stored::Tag(b)) => a.same(b),
            (Stored::GcFile(a), Stored::GcFile(b)) => a.same(b),
            (Stored::InlineSchema(a), Stored::InlineSchema(b)) => a.same(b),
            (Stored::InlineChunk(a), Stored::InlineChunk(b)) => a.same(b),
            (Stored::InlineInlineDelete(a), Stored::InlineInlineDelete(b)) => a.same(b),
            (Stored::InlineFileDelete(a), Stored::InlineFileDelete(b)) => a.same(b),
            (Stored::CommitDelta(a), Stored::CommitDelta(b)) => a.current_keys.same(&b.current_keys),
            (Stored::Raw(a), Stored::Raw(b)) => a.same(b),
            _ => false,
        }
    }
}

/// One write of a commit: a value to put, or `None` to delete the key.
pub type StagedWrite = (Key, Option<Stored>);

/// The model of [`StagedWrite`].
pub type WriteModel = (KeyModel, Option<StoredModel>);

/// What a run of writes leaves under a key that held `before`.
pub open spec fn after(writes: Seq<WriteModel>, key: KeyModel, before: Option<StoredModel>) -> Option<
    StoredModel,
>
    decreases writes.len(),
{
    if writes.len() == 0 {
        before
    } else if writes.last().0 == key {
        writes.last().1
    } else {
        after(writes.drop_last(), key, before)
    }
}

/// Writes in two runs are the first run followed by the second.
pub proof fn after_both(
    a: Seq<WriteModel>,
    b: Seq<WriteModel>,
    key: KeyModel,
    before: Option<StoredModel>,
)
    ensures
        after(a + b, key, before) == after(b, key, after(a, key, before)),
    decreases b.len(),
{
    if b.len() == 0 {
        assert(a + b =~= a);
    } else {
        assert((a + b).last() == b.last());
        assert((a + b).drop_last() =~= a + b.drop_last());
        after_both(a, b.drop_last(), key, before);
    }
}

/// Writes to other keys leave a key alone.
pub proof fn after_elsewhere(writes: Seq<WriteModel>, key: KeyModel, before: Option<StoredModel>)
    requires
        forall|i: int| 0 <= i < writes.len() ==> (#[trigger] writes[i]).0 != key,
    ensures
        after(writes, key, before) == before,
    decreases writes.len(),
{
    if writes.len() > 0 {
        assert(writes.last() == writes[writes.len() - 1]);
        assert forall|i: int| 0 <= i < writes.drop_last().len() implies (
        #[trigger] writes.drop_last()[i]).0 != key by {
            assert(writes.drop_last()[i] == writes[i]);
        }
        after_elsewhere(writes.drop_last(), key, before);
    }
}

} // verus!
