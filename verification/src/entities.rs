//! What the kinds of catalog record have in common: the key a record lives
//! under, the value that is stored there, and, for versioned kinds, how a
//! version ends.
use crate::keys::{CurrentKey, EntityKey, Stored, StoredModel};
use crate::ordered::{Ordered, Record};
use crate::records::{
    ColumnModel, ColumnValue, DataFileModel, DataFileValue, DeleteFileModel, DeleteFileValue, FileColumnStatsModel, FileColumnStatsValue, GcFileModel, GcFileValue, IndexModel, IndexValue, MacroModel, MacroValue, MappingModel, MappingValue, OptionScopeModel, OptionScopeValue, PartitionModel, PartitionValue, SchemaModel, SchemaValue, SortModel, SortValue, TableColumnStatsModel, TableColumnStatsValue, TableModel, TableStatsModel, TableStatsValue, TableValue, TagModel, TagValue, ViewModel, ViewValue,
};
use vstd::prelude::*;

verus! {

/// A kind of record that lives under a key of its own.
pub trait Live: Record {
    /// How records of this kind are told apart.
    type Id: Ordered;

    /// The key of the live record.
    spec fn key_of(id: <Self::Id as DeepView>::V) -> CurrentKey;

    /// The stored value.
    spec fn value_of(v: Self::V) -> StoredModel;

    /// No two records of one kind share a key.
    proof fn keys_are_own(a: <Self::Id as DeepView>::V, b: <Self::Id as DeepView>::V)
        ensures
            Self::key_of(a) == Self::key_of(b) ==> a == b,
    ;

    fn key(id: &Self::Id) -> (k: CurrentKey)
        ensures
            k == Self::key_of(id.deep_view()),
    ;

    fn value(&self) -> (s: Stored)
        ensures
            s@ == Self::value_of(self.deep_view()),
    ;
}

/// A kind of record with versions: a version that ends moves to history.
pub trait Versioned: Live {
    /// The entity that the versions are versions of.
    spec fn entity_of(id: <Self::Id as DeepView>::V) -> EntityKey;

    /// A version with its end stamped.
    spec fn ended(v: Self::V, at: u64) -> Self::V;

    /// Whether two different values are one version: a change of mere
    /// bookkeeping, which overwrites the record and ends nothing.
    spec fn one_version(a: Self::V, b: Self::V) -> bool;

    proof fn lives_as_entity(id: <Self::Id as DeepView>::V)
        ensures
            Self::key_of(id) == CurrentKey::Entity(Self::entity_of(id)),
    ;

    fn entity(id: &Self::Id) -> (k: EntityKey)
        ensures
            k == Self::entity_of(id.deep_view()),
    ;

    fn end(&self, at: u64) -> (r: Self)
        ensures
            r.deep_view() == Self::ended(self.deep_view(), at),
    ;

    fn is_one_version(&self, next: &Self) -> (b: bool)
        ensures
            b == Self::one_version(self.deep_view(), next.deep_view()),
    ;
}

impl Live for SchemaValue {
    type Id = u64;

    open spec fn key_of(id: u64) -> CurrentKey {
        CurrentKey::Entity(EntityKey::Schema { schema_id: id })
    }

    open spec fn value_of(v: SchemaModel) -> StoredModel {
        StoredModel::Schema(v)
    }

    proof fn keys_are_own(a: u64, b: u64) {
    }

    fn key(id: &u64) -> (k: CurrentKey) {
        CurrentKey::Entity(EntityKey::Schema { schema_id: *id })
    }

    fn value(&self) -> (s: Stored) {
        Stored::Schema(self.dup())
    }
}

impl Versioned for SchemaValue {
    open spec fn entity_of(id: u64) -> EntityKey {
        EntityKey::Schema { schema_id: id }
    }

    open spec fn ended(v: SchemaModel, at: u64) -> SchemaModel {
        SchemaModel { end_snapshot: Some(at), ..v }
    }

    open spec fn one_version(a: SchemaModel, b: SchemaModel) -> bool {
        false
    }

    proof fn lives_as_entity(id: u64) {
    }

    fn entity(id: &u64) -> (k: EntityKey) {
        EntityKey::Schema { schema_id: *id }
    }

    fn end(&self, at: u64) -> (r: Self) {
        let mut r = self.dup();
        r.end_snapshot = Some(at);
        r
    }

    fn is_one_version(&self, next: &Self) -> (b: bool) {
        false
    }
}

impl Live for TableValue {
    type Id = u64;

    open spec fn key_of(id: u64) -> CurrentKey {
        CurrentKey::Entity(EntityKey::Table { table_id: id })
    }

    open spec fn value_of(v: TableModel) -> StoredModel {
        StoredModel::Table(v)
    }

    proof fn keys_are_own(a: u64, b: u64) {
    }

    fn key(id: &u64) -> (k: CurrentKey) {
        CurrentKey::Entity(EntityKey::Table { table_id: *id })
    }

    fn value(&self) -> (s: Stored) {
        Stored::Table(self.dup())
    }
}

impl Versioned for TableValue {
    open spec fn entity_of(id: u64) -> EntityKey {
        EntityKey::Table { table_id: id }
    }

    open spec fn ended(v: TableModel, at: u64) -> TableModel {
        TableModel { end_snapshot: Some(at), ..v }
    }

    open spec fn one_version(a: TableModel, b: TableModel) -> bool {
        (TableModel { next_column_id: 0, ..a }) == (TableModel { next_column_id: 0, ..b })
    }

    proof fn lives_as_entity(id: u64) {
    }

    fn entity(id: &u64) -> (k: EntityKey) {
        EntityKey::Table { table_id: *id }
    }

    fn end(&self, at: u64) -> (r: Self) {
        let mut r = self.dup();
        r.end_snapshot = Some(at);
        r
    }

    fn is_one_version(&self, next: &Self) -> (b: bool) {
        self.table_id.same(&next.table_id)
            && self.table_uuid.same(&next.table_uuid)
            && self.begin_snapshot.same(&next.begin_snapshot)
            && self.end_snapshot.same(&next.end_snapshot)
            && self.schema_id.same(&next.schema_id)
            && self.table_name.same(&next.table_name)
            && self.path.same(&next.path)
            && self.path_is_relative.same(&next.path_is_relative)
    }
}

impl Live for ViewValue {
    type Id = u64;

    open spec fn key_of(id: u64) -> CurrentKey {
        CurrentKey::Entity(EntityKey::View { view_id: id })
    }

    open spec fn value_of(v: ViewModel) -> StoredModel {
        StoredModel::View(v)
    }

    proof fn keys_are_own(a: u64, b: u64) {
    }

    fn key(id: &u64) -> (k: CurrentKey) {
        CurrentKey::Entity(EntityKey::View { view_id: *id })
    }

    fn value(&self) -> (s: Stored) {
        Stored::View(self.dup())
    }
}

impl Versioned for ViewValue {
    open spec fn entity_of(id: u64) -> EntityKey {
        EntityKey::View { view_id: id }
    }

    open spec fn ended(v: ViewModel, at: u64) -> ViewModel {
        ViewModel { end_snapshot: Some(at), ..v }
    }

    open spec fn one_version(a: ViewModel, b: ViewModel) -> bool {
        false
    }

    proof fn lives_as_entity(id: u64) {
    }

    fn entity(id: &u64) -> (k: EntityKey) {
        EntityKey::View { view_id: *id }
    }

    fn end(&self, at: u64) -> (r: Self) {
        let mut r = self.dup();
        r.end_snapshot = Some(at);
        r
    }

    fn is_one_version(&self, next: &Self) -> (b: bool) {
        false
    }
}

impl Live for ColumnValue {
    type Id = (u64, u64);

    open spec fn key_of(id: (u64, u64)) -> CurrentKey {
        CurrentKey::Entity(EntityKey::Column { table_id: id.0, column_id: id.1 })
    }

    open spec fn value_of(v: ColumnModel) -> StoredModel {
        StoredModel::Column(v)
    }

    proof fn keys_are_own(a: (u64, u64), b: (u64, u64)) {
    }

    fn key(id: &(u64, u64)) -> (k: CurrentKey) {
        CurrentKey::Entity(EntityKey::Column { table_id: id.0, column_id: id.1 })
    }

    fn value(&self) -> (s: Stored) {
        Stored::Column(self.dup())
    }
}

impl Versioned for ColumnValue {
    open spec fn entity_of(id: (u64, u64)) -> EntityKey {
        EntityKey::Column { table_id: id.0, column_id: id.1 }
    }

    open spec fn ended(v: ColumnModel, at: u64) -> ColumnModel {
        ColumnModel { end_snapshot: Some(at), ..v }
    }

    open spec fn one_version(a: ColumnModel, b: ColumnModel) -> bool {
        (ColumnModel { tags: Seq::empty(), ..a }) == (ColumnModel { tags: Seq::empty(), ..b })
    }

    proof fn lives_as_entity(id: (u64, u64)) {
    }

    fn entity(id: &(u64, u64)) -> (k: EntityKey) {
        EntityKey::Column { table_id: id.0, column_id: id.1 }
    }

    fn end(&self, at: u64) -> (r: Self) {
        let mut r = self.dup();
        r.end_snapshot = Some(at);
        r
    }

    fn is_one_version(&self, next: &Self) -> (b: bool) {
        self.column_id.same(&next.column_id)
            && self.begin_snapshot.same(&next.begin_snapshot)
            && self.end_snapshot.same(&next.end_snapshot)
            && self.table_id.same(&next.table_id)
            && self.column_order.same(&next.column_order)
            && self.column_name.same(&next.column_name)
            && self.column_type.same(&next.column_type)
            && self.initial_default.same(&next.initial_default)
            && self.default_value.same(&next.default_value)
            && self.nulls_allowed.same(&next.nulls_allowed)
            && self.parent_column.same(&next.parent_column)
            && self.default_value_type.same(&next.default_value_type)
            && self.default_value_dialect.same(&next.default_value_dialect)
    }
}

impl Live for DataFileValue {
    type Id = (u64, u64);

    open spec fn key_of(id: (u64, u64)) -> CurrentKey {
        CurrentKey::Entity(EntityKey::File { table_id: id.0, data_file_id: id.1 })
    }

    open spec fn value_of(v: DataFileModel) -> StoredModel {
        StoredModel::DataFile(v)
    }

    proof fn keys_are_own(a: (u64, u64), b: (u64, u64)) {
    }

    fn key(id: &(u64, u64)) -> (k: CurrentKey) {
        CurrentKey::Entity(EntityKey::File { table_id: id.0, data_file_id: id.1 })
    }

    fn value(&self) -> (s: Stored) {
        Stored::DataFile(self.dup())
    }
}

impl Versioned for DataFileValue {
    open spec fn entity_of(id: (u64, u64)) -> EntityKey {
        EntityKey::File { table_id: id.0, data_file_id: id.1 }
    }

    open spec fn ended(v: DataFileModel, at: u64) -> DataFileModel {
        DataFileModel { end_snapshot: Some(at), ..v }
    }

    open spec fn one_version(a: DataFileModel, b: DataFileModel) -> bool {
        false
    }

    proof fn lives_as_entity(id: (u64, u64)) {
    }

    fn entity(id: &(u64, u64)) -> (k: EntityKey) {
        EntityKey::File { table_id: id.0, data_file_id: id.1 }
    }

    fn end(&self, at: u64) -> (r: Self) {
        let mut r = self.dup();
        r.end_snapshot = Some(at);
        r
    }

    fn is_one_version(&self, next: &Self) -> (b: bool) {
        false
    }
}

impl Live for DeleteFileValue {
    type Id = (u64, u64);

    open spec fn key_of(id: (u64, u64)) -> CurrentKey {
        CurrentKey::Entity(EntityKey::DeleteFile { table_id: id.0, delete_file_id: id.1 })
    }

    open spec fn value_of(v: DeleteFileModel) -> StoredModel {
        StoredModel::DeleteFile(v)
    }

    proof fn keys_are_own(a: (u64, u64), b: (u64, u64)) {
    }

    fn key(id: &(u64, u64)) -> (k: CurrentKey) {
        CurrentKey::Entity(EntityKey::DeleteFile { table_id: id.0, delete_file_id: id.1 })
    }

    fn value(&self) -> (s: Stored) {
        Stored::DeleteFile(self.dup())
    }
}

impl Versioned for DeleteFileValue {
    open spec fn entity_of(id: (u64, u64)) -> EntityKey {
        EntityKey::DeleteFile { table_id: id.0, delete_file_id: id.1 }
    }

    open spec fn ended(v: DeleteFileModel, at: u64) -> DeleteFileModel {
        DeleteFileModel { end_snapshot: Some(at), ..v }
    }

    open spec fn one_version(a: DeleteFileModel, b: DeleteFileModel) -> bool {
        false
    }

    proof fn lives_as_entity(id: (u64, u64)) {
    }

    fn entity(id: &(u64, u64)) -> (k: EntityKey) {
        EntityKey::DeleteFile { table_id: id.0, delete_file_id: id.1 }
    }

    fn end(&self, at: u64) -> (r: Self) {
        let mut r = self.dup();
        r.end_snapshot = Some(at);
        r
    }

    fn is_one_version(&self, next: &Self) -> (b: bool) {
        false
    }
}

impl Live for PartitionValue {
    type Id = (u64, u64);

    open spec fn key_of(id: (u64, u64)) -> CurrentKey {
        CurrentKey::Entity(EntityKey::Partition { table_id: id.0, partition_id: id.1 })
    }

    open spec fn value_of(v: PartitionModel) -> StoredModel {
        StoredModel::Partition(v)
    }

    proof fn keys_are_own(a: (u64, u64), b: (u64, u64)) {
    }

    fn key(id: &(u64, u64)) -> (k: CurrentKey) {
        CurrentKey::Entity(EntityKey::Partition { table_id: id.0, partition_id: id.1 })
    }

    fn value(&self) -> (s: Stored) {
        Stored::Partition(self.dup())
    }
}

impl Versioned for PartitionValue {
    open spec fn entity_of(id: (u64, u64)) -> EntityKey {
        EntityKey::Partition { table_id: id.0, partition_id: id.1 }
    }

    open spec fn ended(v: PartitionModel, at: u64) -> PartitionModel {
        PartitionModel { end_snapshot: Some(at), ..v }
    }

    open spec fn one_version(a: PartitionModel, b: PartitionModel) -> bool {
        false
    }

    proof fn lives_as_entity(id: (u64, u64)) {
    }

    fn entity(id: &(u64, u64)) -> (k: EntityKey) {
        EntityKey::Partition { table_id: id.0, partition_id: id.1 }
    }

    fn end(&self, at: u64) -> (r: Self) {
        let mut r = self.dup();
        r.end_snapshot = Some(at);
        r
    }

    fn is_one_version(&self, next: &Self) -> (b: bool) {
        false
    }
}

impl Live for SortValue {
    type Id = (u64, u64);

    open spec fn key_of(id: (u64, u64)) -> CurrentKey {
        CurrentKey::Entity(EntityKey::Sort { table_id: id.0, sort_id: id.1 })
    }

    open spec fn value_of(v: SortModel) -> StoredModel {
        StoredModel::Sort(v)
    }

    proof fn keys_are_own(a: (u64, u64), b: (u64, u64)) {
    }

    fn key(id: &(u64, u64)) -> (k: CurrentKey) {
        CurrentKey::Entity(EntityKey::Sort { table_id: id.0, sort_id: id.1 })
    }

    fn value(&self) -> (s: Stored) {
        Stored::Sort(self.dup())
    }
}

impl Versioned for SortValue {
    open spec fn entity_of(id: (u64, u64)) -> EntityKey {
        EntityKey::Sort { table_id: id.0, sort_id: id.1 }
    }

    open spec fn ended(v: SortModel, at: u64) -> SortModel {
        SortModel { end_snapshot: Some(at), ..v }
    }

    open spec fn one_version(a: SortModel, b: SortModel) -> bool {
        false
    }

    proof fn lives_as_entity(id: (u64, u64)) {
    }

    fn entity(id: &(u64, u64)) -> (k: EntityKey) {
        EntityKey::Sort { table_id: id.0, sort_id: id.1 }
    }

    fn end(&self, at: u64) -> (r: Self) {
        let mut r = self.dup();
        r.end_snapshot = Some(at);
        r
    }

    fn is_one_version(&self, next: &Self) -> (b: bool) {
        false
    }
}

impl Live for IndexValue {
    type Id = (u64, u64);

    open spec fn key_of(id: (u64, u64)) -> CurrentKey {
        CurrentKey::Entity(EntityKey::Index { table_id: id.0, index_id: id.1 })
    }

    open spec fn value_of(v: IndexModel) -> StoredModel {
        StoredModel::Index(v)
    }

    proof fn keys_are_own(a: (u64, u64), b: (u64, u64)) {
    }

    fn key(id: &(u64, u64)) -> (k: CurrentKey) {
        CurrentKey::Entity(EntityKey::Index { table_id: id.0, index_id: id.1 })
    }

    fn value(&self) -> (s: Stored) {
        Stored::Index(self.dup())
    }
}

impl Versioned for IndexValue {
    open spec fn entity_of(id: (u64, u64)) -> EntityKey {
        EntityKey::Index { table_id: id.0, index_id: id.1 }
    }

    open spec fn ended(v: IndexModel, at: u64) -> IndexModel {
        IndexModel { end_snapshot: Some(at), ..v }
    }

    open spec fn one_version(a: IndexModel, b: IndexModel) -> bool {
        false
    }

    proof fn lives_as_entity(id: (u64, u64)) {
    }

    fn entity(id: &(u64, u64)) -> (k: EntityKey) {
        EntityKey::Index { table_id: id.0, index_id: id.1 }
    }

    fn end(&self, at: u64) -> (r: Self) {
        let mut r = self.dup();
        r.end_snapshot = Some(at);
        r
    }

    fn is_one_version(&self, next: &Self) -> (b: bool) {
        false
    }
}

impl Live for MacroValue {
    type Id = u64;

    open spec fn key_of(id: u64) -> CurrentKey {
        CurrentKey::Entity(EntityKey::Macro { macro_id: id })
    }

    open spec fn value_of(v: MacroModel) -> StoredModel {
        StoredModel::Macro(v)
    }

    proof fn keys_are_own(a: u64, b: u64) {
    }

    fn key(id: &u64) -> (k: CurrentKey) {
        CurrentKey::Entity(EntityKey::Macro { macro_id: *id })
    }

    fn value(&self) -> (s: Stored) {
        Stored::Macro(self.dup())
    }
}

impl Versioned for MacroValue {
    open spec fn entity_of(id: u64) -> EntityKey {
        EntityKey::Macro { macro_id: id }
    }

    open spec fn ended(v: MacroModel, at: u64) -> MacroModel {
        MacroModel { end_snapshot: Some(at), ..v }
    }

    open spec fn one_version(a: MacroModel, b: MacroModel) -> bool {
        false
    }

    proof fn lives_as_entity(id: u64) {
    }

    fn entity(id: &u64) -> (k: EntityKey) {
        EntityKey::Macro { macro_id: *id }
    }

    fn end(&self, at: u64) -> (r: Self) {
        let mut r = self.dup();
        r.end_snapshot = Some(at);
        r
    }

    fn is_one_version(&self, next: &Self) -> (b: bool) {
        false
    }
}

impl Live for MappingValue {
    type Id = (u64, u64);

    open spec fn key_of(id: (u64, u64)) -> CurrentKey {
        CurrentKey::Entity(EntityKey::Mapping { table_id: id.0, mapping_id: id.1 })
    }

    open spec fn value_of(v: MappingModel) -> StoredModel {
        StoredModel::Mapping(v)
    }

    proof fn keys_are_own(a: (u64, u64), b: (u64, u64)) {
    }

    fn key(id: &(u64, u64)) -> (k: CurrentKey) {
        CurrentKey::Entity(EntityKey::Mapping { table_id: id.0, mapping_id: id.1 })
    }

    fn value(&self) -> (s: Stored) {
        Stored::Mapping(self.dup())
    }
}

impl Live for TableStatsValue {
    type Id = u64;

    open spec fn key_of(id: u64) -> CurrentKey {
        CurrentKey::Entity(EntityKey::TableStats { table_id: id })
    }

    open spec fn value_of(v: TableStatsModel) -> StoredModel {
        StoredModel::TableStats(v)
    }

    proof fn keys_are_own(a: u64, b: u64) {
    }

    fn key(id: &u64) -> (k: CurrentKey) {
        CurrentKey::Entity(EntityKey::TableStats { table_id: *id })
    }

    fn value(&self) -> (s: Stored) {
        Stored::TableStats(self.dup())
    }
}

impl Live for TableColumnStatsValue {
    type Id = (u64, u64);

    open spec fn key_of(id: (u64, u64)) -> CurrentKey {
        CurrentKey::Entity(EntityKey::TableColumnStats { table_id: id.0, column_id: id.1 })
    }

    open spec fn value_of(v: TableColumnStatsModel) -> StoredModel {
        StoredModel::TableColumnStats(v)
    }

    proof fn keys_are_own(a: (u64, u64), b: (u64, u64)) {
    }

    fn key(id: &(u64, u64)) -> (k: CurrentKey) {
        CurrentKey::Entity(EntityKey::TableColumnStats { table_id: id.0, column_id: id.1 })
    }

    fn value(&self) -> (s: Stored) {
        Stored::TableColumnStats(self.dup())
    }
}

impl Live for FileColumnStatsValue {
    type Id = (u64, (u64, u64));

    open spec fn key_of(id: (u64, (u64, u64))) -> CurrentKey {
        CurrentKey::Entity(EntityKey::FileColumnStats { table_id: id.0, data_file_id: id.1.0, column_id: id.1.1 })
    }

    open spec fn value_of(v: FileColumnStatsModel) -> StoredModel {
        StoredModel::FileColumnStats(v)
    }

    proof fn keys_are_own(a: (u64, (u64, u64)), b: (u64, (u64, u64))) {
    }

    fn key(id: &(u64, (u64, u64))) -> (k: CurrentKey) {
        CurrentKey::Entity(EntityKey::FileColumnStats { table_id: id.0, data_file_id: id.1.0, column_id: id.1.1 })
    }

    fn value(&self) -> (s: Stored) {
        Stored::FileColumnStats(self.dup())
    }
}

impl Live for OptionScopeValue {
    type Id = (u64, u64);

    open spec fn key_of(id: (u64, u64)) -> CurrentKey {
        CurrentKey::Entity(EntityKey::OptionScope { scope_kind: id.0, scope_id: id.1 })
    }

    open spec fn value_of(v: OptionScopeModel) -> StoredModel {
        StoredModel::OptionScope(v)
    }

    proof fn keys_are_own(a: (u64, u64), b: (u64, u64)) {
    }

    fn key(id: &(u64, u64)) -> (k: CurrentKey) {
        CurrentKey::Entity(EntityKey::OptionScope { scope_kind: id.0, scope_id: id.1 })
    }

    fn value(&self) -> (s: Stored) {
        Stored::OptionScope(self.dup())
    }
}

impl Live for TagValue {
    type Id = u64;

    open spec fn key_of(id: u64) -> CurrentKey {
        CurrentKey::Entity(EntityKey::Tag { object_id: id })
    }

    open spec fn value_of(v: TagModel) -> StoredModel {
        StoredModel::Tag(v)
    }

    proof fn keys_are_own(a: u64, b: u64) {
    }

    fn key(id: &u64) -> (k: CurrentKey) {
        CurrentKey::Entity(EntityKey::Tag { object_id: *id })
    }

    fn value(&self) -> (s: Stored) {
        Stored::Tag(self.dup())
    }
}

impl Live for GcFileValue {
    type Id = u64;

    open spec fn key_of(id: u64) -> CurrentKey {
        CurrentKey::GcFile { data_file_id: id }
    }

    open spec fn value_of(v: GcFileModel) -> StoredModel {
        StoredModel::GcFile(v)
    }

    proof fn keys_are_own(a: u64, b: u64) {
    }

    fn key(id: &u64) -> (k: CurrentKey) {
        CurrentKey::GcFile { data_file_id: *id }
    }

    fn value(&self) -> (s: Stored) {
        Stored::GcFile(self.dup())
    }
}

} // verus!
