//! The typed mutation log, the change set a commit leaves behind, and the
//! classification of concurrent commits.
//!
//! Operations are recorded at the grain that classification needs: which
//! entries of the schema list and which tables a commit touched.
use crate::grammar::{
    join_entries, parse_created_schema_payload, parse_created_table_payload, quote_ident,
    split_entries,
};
use crate::ordered::{OrdSet, Record};
use crate::text::{chars_of, parse_numeral, push_decimal, push_text, same_text, spells_folded};
use vstd::prelude::*;

verus! {

/// One staged mutation, at the grain that classification needs.
#[derive(Debug, PartialEq, Eq)]
pub enum Operation {
    /// A schema was created.
    CreateSchema { schema_id: u64, name: String },
    /// A schema was dropped.
    DropSchema { schema_id: u64 },
    /// A table was created.
    CreateTable { schema_id: u64, table_id: u64, schema_name: String, table_name: String },
    /// An existing table was renamed, moved, or had a column changed.
    AlterTable { table_id: u64 },
    /// A table was dropped.
    DropTable { table_id: u64 },
    /// Data was appended to a table.
    RegisterDataFile { table_id: u64 },
    /// Delete markers were appended to a table.
    RegisterDeleteFile { table_id: u64 },
    /// Data files became garbage.
    ExpireDataFile { table_id: u64 },
    /// Delete files became garbage.
    ExpireDeleteFile { table_id: u64 },
    /// Statistics changed: enough to mint a snapshot, nothing to classify.
    UpdateStats { table_id: u64 },
    /// A view was created.
    CreateView { schema_id: u64, view_id: u64, schema_name: String, view_name: String },
    /// An existing view was redefined.
    AlterView { view_id: u64 },
    /// A view was dropped.
    DropView { view_id: u64 },
    /// A macro was created; `macro_type` is `scalar` or `table`.
    CreateMacro {
        schema_id: u64,
        macro_id: u64,
        schema_name: String,
        macro_name: String,
        macro_type: String,
    },
    /// A macro was dropped; `macro_type` is `scalar` or `table`.
    DropMacro { macro_id: u64, macro_type: String },
}

/// The model of [`Operation`].
pub enum OperationModel {
    CreateSchema { schema_id: u64, name: Seq<char> },
    DropSchema { schema_id: u64 },
    CreateTable { schema_id: u64, table_id: u64, schema_name: Seq<char>, table_name: Seq<char> },
    AlterTable { table_id: u64 },
    DropTable { table_id: u64 },
    RegisterDataFile { table_id: u64 },
    RegisterDeleteFile { table_id: u64 },
    ExpireDataFile { table_id: u64 },
    ExpireDeleteFile { table_id: u64 },
    UpdateStats { table_id: u64 },
    CreateView { schema_id: u64, view_id: u64, schema_name: Seq<char>, view_name: Seq<char> },
    AlterView { view_id: u64 },
    DropView { view_id: u64 },
    CreateMacro {
        schema_id: u64,
        macro_id: u64,
        schema_name: Seq<char>,
        macro_name: Seq<char>,
        macro_type: Seq<char>,
    },
    DropMacro { macro_id: u64, macro_type: Seq<char> },
}

impl View for Operation {
    type V = OperationModel;

    open spec fn view(&self) -> OperationModel {
        match *self {
            Operation::CreateSchema { schema_id, name } => OperationModel::CreateSchema {
                schema_id,
                name: name@,
            },
            Operation::DropSchema { schema_id } => OperationModel::DropSchema { schema_id },
            Operation::CreateTable { schema_id, table_id, schema_name, table_name } =>
                OperationModel::CreateTable {
                schema_id,
                table_id,
                schema_name: schema_name@,
                table_name: table_name@,
            },
            Operation::AlterTable { table_id } => OperationModel::AlterTable { table_id },
            Operation::DropTable { table_id } => OperationModel::DropTable { table_id },
            Operation::RegisterDataFile { table_id } => OperationModel::RegisterDataFile {
                table_id,
            },
            Operation::RegisterDeleteFile { table_id } => OperationModel::RegisterDeleteFile {
                table_id,
            },
            Operation::ExpireDataFile { table_id } => OperationModel::ExpireDataFile { table_id },
            Operation::ExpireDeleteFile { table_id } => OperationModel::ExpireDeleteFile {
                table_id,
            },
            Operation::UpdateStats { table_id } => OperationModel::UpdateStats { table_id },
            Operation::CreateView { schema_id, view_id, schema_name, view_name } =>
                OperationModel::CreateView {
                schema_id,
                view_id,
                schema_name: schema_name@,
                view_name: view_name@,
            },
            Operation::AlterView { view_id } => OperationModel::AlterView { view_id },
            Operation::DropView { view_id } => OperationModel::DropView { view_id },
            Operation::CreateMacro { schema_id, macro_id, schema_name, macro_name, macro_type } =>
                OperationModel::CreateMacro {
                schema_id,
                macro_id,
                schema_name: schema_name@,
                macro_name: macro_name@,
                macro_type: macro_type@,
            },
            Operation::DropMacro { macro_id, macro_type } => OperationModel::DropMacro {
                macro_id,
                macro_type: macro_type@,
            },
        }
    }
}

impl DeepView for Operation {
    type V = OperationModel;

    open spec fn deep_view(&self) -> OperationModel {
        self.view()
    }
}

/// Whether an operation changes the shape of the catalog.
pub open spec fn changes_shape(op: OperationModel) -> bool {
    !(op is RegisterDataFile || op is RegisterDeleteFile || op is ExpireDataFile
        || op is ExpireDeleteFile || op is UpdateStats)
}

/// The table or view that an operation gives a new shape.
pub open spec fn reshaped(op: OperationModel) -> Option<u64> {
    match op {
        OperationModel::CreateTable { table_id, .. } => Some(table_id),
        OperationModel::AlterTable { table_id } => Some(table_id),
        OperationModel::CreateView { view_id, .. } => Some(view_id),
        OperationModel::AlterView { view_id } => Some(view_id),
        _ => None,
    }
}

impl Operation {
    /// Whether this operation changes the catalog's shape, and so bumps the
    /// schema version.
    pub fn is_schema_changing(&self) -> (r: bool)
        ensures
            r == changes_shape(self@),
    {
        match self {
            Operation::RegisterDataFile { .. } => false,
            Operation::RegisterDeleteFile { .. } => false,
            Operation::ExpireDataFile { .. } => false,
            Operation::ExpireDeleteFile { .. } => false,
            Operation::UpdateStats { .. } => false,
            _ => true,
        }
    }

    /// The table or view whose shape this operation changes, if any. Tables
    /// and views share one id space; drops mint no new shape, and macros have
    /// none.
    pub fn schema_changed_table_id(&self) -> (r: Option<u64>)
        ensures
            r == reshaped(self@),
    {
        match self {
            Operation::CreateTable { table_id, .. } => Some(*table_id),
            Operation::AlterTable { table_id } => Some(*table_id),
            Operation::CreateView { view_id, .. } => Some(*view_id),
            Operation::AlterView { view_id } => Some(*view_id),
            _ => None,
        }
    }
}

// ---------------------------------------------------------------------------
// Entry kinds
// ---------------------------------------------------------------------------

/// Entries whose payload is an id.
#[derive(Clone, Copy, PartialEq, Eq, Structural, Debug)]
pub enum IdKind {
    DroppedSchema,
    DroppedTable,
    DroppedView,
    DroppedScalarMacro,
    DroppedTableMacro,
    InsertedIntoTable,
    DeletedFromTable,
    AlteredTable,
    AlteredView,
    MergeAdjacent,
    RewriteDelete,
    CompactedTable,
}

/// Entries whose payload is a pair of names.
#[derive(Clone, Copy, PartialEq, Eq, Structural, Debug)]
pub enum PairKind {
    CreatedTable,
    CreatedView,
    CreatedScalarMacro,
    CreatedTableMacro,
}

/// The kinds of entry of the wire grammar.
#[derive(Clone, Copy, PartialEq, Eq, Structural, Debug)]
pub enum EntryKind {
    CreatedSchema,
    Pair(PairKind),
    Id(IdKind),
}

/// The word that introduces an entry with an id.
pub open spec fn id_word(k: IdKind) -> Seq<char> {
    match k {
        IdKind::DroppedSchema => "dropped_schema"@,
        IdKind::DroppedTable => "dropped_table"@,
        IdKind::DroppedView => "dropped_view"@,
        IdKind::DroppedScalarMacro => "dropped_scalar_macro"@,
        IdKind::DroppedTableMacro => "dropped_table_macro"@,
        IdKind::InsertedIntoTable => "inserted_into_table"@,
        IdKind::DeletedFromTable => "deleted_from_table"@,
        IdKind::AlteredTable => "altered_table"@,
        IdKind::AlteredView => "altered_view"@,
        IdKind::MergeAdjacent => "merge_adjacent"@,
        IdKind::RewriteDelete => "rewrite_delete"@,
        IdKind::CompactedTable => "compacted_table"@,
    }
}

/// The word that introduces an entry with a pair of names.
pub open spec fn pair_word(k: PairKind) -> Seq<char> {
    match k {
        PairKind::CreatedTable => "created_table"@,
        PairKind::CreatedView => "created_view"@,
        PairKind::CreatedScalarMacro => "created_scalar_macro"@,
        PairKind::CreatedTableMacro => "created_table_macro"@,
    }
}

/// The kind that a word names, ASCII case aside.
pub open spec fn kind_named(t: Seq<char>) -> Option<EntryKind> {
    if crate::text::same_folded(t, "created_schema"@) {
        Some(EntryKind::CreatedSchema)
    } else if crate::text::same_folded(t, "dropped_schema"@) {
        Some(EntryKind::Id(IdKind::DroppedSchema))
    } else if crate::text::same_folded(t, "created_table"@) {
        Some(EntryKind::Pair(PairKind::CreatedTable))
    } else if crate::text::same_folded(t, "altered_table"@) {
        Some(EntryKind::Id(IdKind::AlteredTable))
    } else if crate::text::same_folded(t, "dropped_table"@) {
        Some(EntryKind::Id(IdKind::DroppedTable))
    } else if crate::text::same_folded(t, "created_view"@) {
        Some(EntryKind::Pair(PairKind::CreatedView))
    } else if crate::text::same_folded(t, "altered_view"@) {
        Some(EntryKind::Id(IdKind::AlteredView))
    } else if crate::text::same_folded(t, "dropped_view"@) {
        Some(EntryKind::Id(IdKind::DroppedView))
    } else if crate::text::same_folded(t, "created_scalar_macro"@) {
        Some(EntryKind::Pair(PairKind::CreatedScalarMacro))
    } else if crate::text::same_folded(t, "created_table_macro"@) {
        Some(EntryKind::Pair(PairKind::CreatedTableMacro))
    } else if crate::text::same_folded(t, "dropped_scalar_macro"@) {
        Some(EntryKind::Id(IdKind::DroppedScalarMacro))
    } else if crate::text::same_folded(t, "dropped_table_macro"@) {
        Some(EntryKind::Id(IdKind::DroppedTableMacro))
    } else if crate::text::same_folded(t, "inserted_into_table"@) {
        Some(EntryKind::Id(IdKind::InsertedIntoTable))
    } else if crate::text::same_folded(t, "deleted_from_table"@) {
        Some(EntryKind::Id(IdKind::DeletedFromTable))
    } else if crate::text::same_folded(t, "merge_adjacent"@) {
        Some(EntryKind::Id(IdKind::MergeAdjacent))
    } else if crate::text::same_folded(t, "rewrite_delete"@) {
        Some(EntryKind::Id(IdKind::RewriteDelete))
    } else if crate::text::same_folded(t, "compacted_table"@) {
        Some(EntryKind::Id(IdKind::CompactedTable))
    } else {
        None
    }
}

/// The kind named by the first `to` characters of `chars`.
fn entry_kind(chars: &Vec<char>, to: usize) -> (k: Option<EntryKind>)
    requires
        to <= chars@.len(),
    ensures
        k == kind_named(chars@.take(to as int)),
{
    if spells_folded(chars, to, "created_schema") {
        Some(EntryKind::CreatedSchema)
    } else if spells_folded(chars, to, "dropped_schema") {
        Some(EntryKind::Id(IdKind::DroppedSchema))
    } else if spells_folded(chars, to, "created_table") {
        Some(EntryKind::Pair(PairKind::CreatedTable))
    } else if spells_folded(chars, to, "altered_table") {
        Some(EntryKind::Id(IdKind::AlteredTable))
    } else if spells_folded(chars, to, "dropped_table") {
        Some(EntryKind::Id(IdKind::DroppedTable))
    } else if spells_folded(chars, to, "created_view") {
        Some(EntryKind::Pair(PairKind::CreatedView))
    } else if spells_folded(chars, to, "altered_view") {
        Some(EntryKind::Id(IdKind::AlteredView))
    } else if spells_folded(chars, to, "dropped_view") {
        Some(EntryKind::Id(IdKind::DroppedView))
    } else if spells_folded(chars, to, "created_scalar_macro") {
        Some(EntryKind::Pair(PairKind::CreatedScalarMacro))
    } else if spells_folded(chars, to, "created_table_macro") {
        Some(EntryKind::Pair(PairKind::CreatedTableMacro))
    } else if spells_folded(chars, to, "dropped_scalar_macro") {
        Some(EntryKind::Id(IdKind::DroppedScalarMacro))
    } else if spells_folded(chars, to, "dropped_table_macro") {
        Some(EntryKind::Id(IdKind::DroppedTableMacro))
    } else if spells_folded(chars, to, "inserted_into_table") {
        Some(EntryKind::Id(IdKind::InsertedIntoTable))
    } else if spells_folded(chars, to, "deleted_from_table") {
        Some(EntryKind::Id(IdKind::DeletedFromTable))
    } else if spells_folded(chars, to, "merge_adjacent") {
        Some(EntryKind::Id(IdKind::MergeAdjacent))
    } else if spells_folded(chars, to, "rewrite_delete") {
        Some(EntryKind::Id(IdKind::RewriteDelete))
    } else if spells_folded(chars, to, "compacted_table") {
        Some(EntryKind::Id(IdKind::CompactedTable))
    } else {
        None
    }
}

fn id_word_text(k: IdKind) -> (t: &'static str)
    ensures
        t@ == id_word(k),
{
    match k {
        IdKind::DroppedSchema => "dropped_schema",
        IdKind::DroppedTable => "dropped_table",
        IdKind::DroppedView => "dropped_view",
        IdKind::DroppedScalarMacro => "dropped_scalar_macro",
        IdKind::DroppedTableMacro => "dropped_table_macro",
        IdKind::InsertedIntoTable => "inserted_into_table",
        IdKind::DeletedFromTable => "deleted_from_table",
        IdKind::AlteredTable => "altered_table",
        IdKind::AlteredView => "altered_view",
        IdKind::MergeAdjacent => "merge_adjacent",
        IdKind::RewriteDelete => "rewrite_delete",
        IdKind::CompactedTable => "compacted_table",
    }
}

fn pair_word_text(k: PairKind) -> (t: &'static str)
    ensures
        t@ == pair_word(k),
{
    match k {
        PairKind::CreatedTable => "created_table",
        PairKind::CreatedView => "created_view",
        PairKind::CreatedScalarMacro => "created_scalar_macro",
        PairKind::CreatedTableMacro => "created_table_macro",
    }
}

// ---------------------------------------------------------------------------
// Change sets
// ---------------------------------------------------------------------------

/// What one commit touched, as mathematical sets.
#[verifier::ext_equal]
pub struct ChangeModel {
    pub created_schemas: Set<Seq<char>>,
    pub dropped_schemas: Set<u64>,
    pub created_tables: Set<(Seq<char>, Seq<char>)>,
    pub created_table_schema_ids: Set<u64>,
    pub altered_tables: Set<u64>,
    pub dropped_tables: Set<u64>,
    pub created_views: Set<(Seq<char>, Seq<char>)>,
    pub created_view_schema_ids: Set<u64>,
    pub altered_views: Set<u64>,
    pub dropped_views: Set<u64>,
    pub created_scalar_macros: Set<(Seq<char>, Seq<char>)>,
    pub created_table_macros: Set<(Seq<char>, Seq<char>)>,
    pub created_macro_schema_ids: Set<u64>,
    pub dropped_scalar_macros: Set<u64>,
    pub dropped_table_macros: Set<u64>,
    pub inserted_tables: Set<u64>,
    pub deleted_from_tables: Set<u64>,
    pub merge_adjacent_tables: Set<u64>,
    pub rewrite_delete_tables: Set<u64>,
    pub compacted_tables: Set<u64>,
    pub has_unknown: bool,
}

/// What one commit touched, comparable against another commit's set and
/// written into the snapshot record as `kind:payload` entries.
#[derive(Debug, PartialEq, Eq)]
pub struct ChangeSet {
    /// Names of schemas that were created.
    pub created_schemas: OrdSet<String>,
    /// Schemas that were dropped.
    pub dropped_schemas: OrdSet<u64>,
    /// Schema and table name of tables that were created.
    pub created_tables: OrdSet<(String, String)>,
    /// Schemas a table was created in; known to the committing side only,
    /// because the wire grammar carries names for created objects.
    pub created_table_schema_ids: OrdSet<u64>,
    /// Tables whose shape changed.
    pub altered_tables: OrdSet<u64>,
    /// Tables that were dropped.
    pub dropped_tables: OrdSet<u64>,
    /// Schema and view name of views that were created.
    pub created_views: OrdSet<(String, String)>,
    /// Schemas a view was created in; known to the committing side only.
    pub created_view_schema_ids: OrdSet<u64>,
    /// Views that were redefined.
    pub altered_views: OrdSet<u64>,
    /// Views that were dropped.
    pub dropped_views: OrdSet<u64>,
    /// Schema and macro name of scalar macros that were created.
    pub created_scalar_macros: OrdSet<(String, String)>,
    /// Schema and macro name of table macros that were created.
    pub created_table_macros: OrdSet<(String, String)>,
    /// Schemas a macro was created in; known to the committing side only.
    pub created_macro_schema_ids: OrdSet<u64>,
    /// Scalar macros that were dropped.
    pub dropped_scalar_macros: OrdSet<u64>,
    /// Table macros that were dropped.
    pub dropped_table_macros: OrdSet<u64>,
    /// Tables data was appended to.
    pub inserted_tables: OrdSet<u64>,
    /// Tables delete markers were appended to.
    pub deleted_from_tables: OrdSet<u64>,
    /// Tables whose data files were merged away.
    pub merge_adjacent_tables: OrdSet<u64>,
    /// Tables whose delete files were rewritten away.
    pub rewrite_delete_tables: OrdSet<u64>,
    /// Tables of the older compaction entry, which is read and never written.
    pub compacted_tables: OrdSet<u64>,
    /// Whether an entry was read that is not understood; such a set conflicts
    /// with every other.
    pub has_unknown: bool,
}

impl View for ChangeSet {
    type V = ChangeModel;

    open spec fn view(&self) -> ChangeModel {
        ChangeModel {
            created_schemas: self.created_schemas@,
            dropped_schemas: self.dropped_schemas@,
            created_tables: self.created_tables@,
            created_table_schema_ids: self.created_table_schema_ids@,
            altered_tables: self.altered_tables@,
            dropped_tables: self.dropped_tables@,
            created_views: self.created_views@,
            created_view_schema_ids: self.created_view_schema_ids@,
            altered_views: self.altered_views@,
            dropped_views: self.dropped_views@,
            created_scalar_macros: self.created_scalar_macros@,
            created_table_macros: self.created_table_macros@,
            created_macro_schema_ids: self.created_macro_schema_ids@,
            dropped_scalar_macros: self.dropped_scalar_macros@,
            dropped_table_macros: self.dropped_table_macros@,
            inserted_tables: self.inserted_tables@,
            deleted_from_tables: self.deleted_from_tables@,
            merge_adjacent_tables: self.merge_adjacent_tables@,
            rewrite_delete_tables: self.rewrite_delete_tables@,
            compacted_tables: self.compacted_tables@,
            has_unknown: self.has_unknown,
        }
    }
}

/// The model of a set that records nothing.
pub open spec fn no_changes() -> ChangeModel {
    ChangeModel {
        created_schemas: Set::empty(),
        dropped_schemas: Set::empty(),
        created_tables: Set::empty(),
        created_table_schema_ids: Set::empty(),
        altered_tables: Set::empty(),
        dropped_tables: Set::empty(),
        created_views: Set::empty(),
        created_view_schema_ids: Set::empty(),
        altered_views: Set::empty(),
        dropped_views: Set::empty(),
        created_scalar_macros: Set::empty(),
        created_table_macros: Set::empty(),
        created_macro_schema_ids: Set::empty(),
        dropped_scalar_macros: Set::empty(),
        dropped_table_macros: Set::empty(),
        inserted_tables: Set::empty(),
        deleted_from_tables: Set::empty(),
        merge_adjacent_tables: Set::empty(),
        rewrite_delete_tables: Set::empty(),
        compacted_tables: Set::empty(),
        has_unknown: false,
    }
}

/// All the sets are finite.
pub open spec fn finite(m: ChangeModel) -> bool {
    &&& m.created_schemas.finite()
    &&& m.dropped_schemas.finite()
    &&& m.created_tables.finite()
    &&& m.created_table_schema_ids.finite()
    &&& m.altered_tables.finite()
    &&& m.dropped_tables.finite()
    &&& m.created_views.finite()
    &&& m.created_view_schema_ids.finite()
    &&& m.altered_views.finite()
    &&& m.dropped_views.finite()
    &&& m.created_scalar_macros.finite()
    &&& m.created_table_macros.finite()
    &&& m.created_macro_schema_ids.finite()
    &&& m.dropped_scalar_macros.finite()
    &&& m.dropped_table_macros.finite()
    &&& m.inserted_tables.finite()
    &&& m.deleted_from_tables.finite()
    &&& m.merge_adjacent_tables.finite()
    &&& m.rewrite_delete_tables.finite()
    &&& m.compacted_tables.finite()
}

/// The ids recorded under a kind.
pub open spec fn ids(m: ChangeModel, k: IdKind) -> Set<u64> {
    match k {
        IdKind::DroppedSchema => m.dropped_schemas,
        IdKind::DroppedTable => m.dropped_tables,
        IdKind::DroppedView => m.dropped_views,
        IdKind::DroppedScalarMacro => m.dropped_scalar_macros,
        IdKind::DroppedTableMacro => m.dropped_table_macros,
        IdKind::InsertedIntoTable => m.inserted_tables,
        IdKind::DeletedFromTable => m.deleted_from_tables,
        IdKind::AlteredTable => m.altered_tables,
        IdKind::AlteredView => m.altered_views,
        IdKind::MergeAdjacent => m.merge_adjacent_tables,
        IdKind::RewriteDelete => m.rewrite_delete_tables,
        IdKind::CompactedTable => m.compacted_tables,
    }
}

/// The set with other ids under a kind.
pub open spec fn with_ids(m: ChangeModel, k: IdKind, s: Set<u64>) -> ChangeModel {
    match k {
        IdKind::DroppedSchema => ChangeModel { dropped_schemas: s, ..m },
        IdKind::DroppedTable => ChangeModel { dropped_tables: s, ..m },
        IdKind::DroppedView => ChangeModel { dropped_views: s, ..m },
        IdKind::DroppedScalarMacro => ChangeModel { dropped_scalar_macros: s, ..m },
        IdKind::DroppedTableMacro => ChangeModel { dropped_table_macros: s, ..m },
        IdKind::InsertedIntoTable => ChangeModel { inserted_tables: s, ..m },
        IdKind::DeletedFromTable => ChangeModel { deleted_from_tables: s, ..m },
        IdKind::AlteredTable => ChangeModel { altered_tables: s, ..m },
        IdKind::AlteredView => ChangeModel { altered_views: s, ..m },
        IdKind::MergeAdjacent => ChangeModel { merge_adjacent_tables: s, ..m },
        IdKind::RewriteDelete => ChangeModel { rewrite_delete_tables: s, ..m },
        IdKind::CompactedTable => ChangeModel { compacted_tables: s, ..m },
    }
}

/// The pairs of names recorded under a kind.
pub open spec fn pairs(m: ChangeModel, k: PairKind) -> Set<(Seq<char>, Seq<char>)> {
    match k {
        PairKind::CreatedTable => m.created_tables,
        PairKind::CreatedView => m.created_views,
        PairKind::CreatedScalarMacro => m.created_scalar_macros,
        PairKind::CreatedTableMacro => m.created_table_macros,
    }
}

/// The set with other pairs under a kind.
pub open spec fn with_pairs(
    m: ChangeModel,
    k: PairKind,
    s: Set<(Seq<char>, Seq<char>)>,
) -> ChangeModel {
    match k {
        PairKind::CreatedTable => ChangeModel { created_tables: s, ..m },
        PairKind::CreatedView => ChangeModel { created_views: s, ..m },
        PairKind::CreatedScalarMacro => ChangeModel { created_scalar_macros: s, ..m },
        PairKind::CreatedTableMacro => ChangeModel { created_table_macros: s, ..m },
    }
}

/// The set after one operation.
pub open spec fn noted(m: ChangeModel, op: OperationModel) -> ChangeModel {
    match op {
        OperationModel::CreateSchema { name, .. } => ChangeModel {
            created_schemas: m.created_schemas.insert(name),
            ..m
        },
        OperationModel::DropSchema { schema_id } => ChangeModel {
            dropped_schemas: m.dropped_schemas.insert(schema_id),
            ..m
        },
        OperationModel::CreateTable { schema_id, schema_name, table_name, .. } => ChangeModel {
            created_tables: m.created_tables.insert((schema_name, table_name)),
            created_table_schema_ids: m.created_table_schema_ids.insert(schema_id),
            ..m
        },
        OperationModel::AlterTable { table_id } => ChangeModel {
            altered_tables: m.altered_tables.insert(table_id),
            ..m
        },
        OperationModel::DropTable { table_id } => ChangeModel {
            dropped_tables: m.dropped_tables.insert(table_id),
            ..m
        },
        OperationModel::RegisterDataFile { table_id } => ChangeModel {
            inserted_tables: m.inserted_tables.insert(table_id),
            ..m
        },
        OperationModel::RegisterDeleteFile { table_id } => ChangeModel {
            deleted_from_tables: m.deleted_from_tables.insert(table_id),
            ..m
        },
        OperationModel::ExpireDataFile { table_id } => ChangeModel {
            merge_adjacent_tables: m.merge_adjacent_tables.insert(table_id),
            ..m
        },
        OperationModel::ExpireDeleteFile { table_id } => ChangeModel {
            rewrite_delete_tables: m.rewrite_delete_tables.insert(table_id),
            ..m
        },
        OperationModel::UpdateStats { .. } => m,
        OperationModel::CreateView { schema_id, schema_name, view_name, .. } => ChangeModel {
            created_views: m.created_views.insert((schema_name, view_name)),
            created_view_schema_ids: m.created_view_schema_ids.insert(schema_id),
            ..m
        },
        OperationModel::AlterView { view_id } => ChangeModel {
            altered_views: m.altered_views.insert(view_id),
            ..m
        },
        OperationModel::DropView { view_id } => ChangeModel {
            dropped_views: m.dropped_views.insert(view_id),
            ..m
        },
        OperationModel::CreateMacro { schema_id, schema_name, macro_name, macro_type, .. } => {
            let pair = (schema_name, macro_name);
            let ids = m.created_macro_schema_ids.insert(schema_id);
            if macro_type == "table"@ {
                ChangeModel {
                    created_table_macros: m.created_table_macros.insert(pair),
                    created_macro_schema_ids: ids,
                    ..m
                }
            } else {
                ChangeModel {
                    created_scalar_macros: m.created_scalar_macros.insert(pair),
                    created_macro_schema_ids: ids,
                    ..m
                }
            }
        },
        OperationModel::DropMacro { macro_id, macro_type } => if macro_type == "table"@ {
            ChangeModel { dropped_table_macros: m.dropped_table_macros.insert(macro_id), ..m }
        } else {
            ChangeModel { dropped_scalar_macros: m.dropped_scalar_macros.insert(macro_id), ..m }
        },
    }
}

/// The set that a run of operations leaves.
pub open spec fn changes_of(ops: Seq<OperationModel>) -> ChangeModel
    decreases ops.len(),
{
    if ops.len() == 0 {
        no_changes()
    } else {
        noted(changes_of(ops.drop_last()), ops.last())
    }
}

// ---------------------------------------------------------------------------
// Wire form
// ---------------------------------------------------------------------------

/// An entry with an id.
pub open spec fn id_entry(k: IdKind, id: u64) -> Seq<char> {
    id_word(k) + seq![':'] + crate::text::decimal(id as nat)
}

/// An entry with a pair of names.
pub open spec fn pair_entry(k: PairKind, pair: (Seq<char>, Seq<char>)) -> Seq<char> {
    pair_word(k) + seq![':'] + (crate::grammar::quoted(pair.0) + seq!['.']
        + crate::grammar::quoted(pair.1))
}

/// The entry for a created schema.
pub open spec fn schema_entry(name: Seq<char>) -> Seq<char> {
    "created_schema"@ + seq![':'] + crate::grammar::quoted(name)
}

pub open spec fn id_entries(k: IdKind, q: Seq<u64>) -> Seq<Seq<char>> {
    Seq::new(q.len(), |i: int| id_entry(k, q[i]))
}

pub open spec fn pair_entries(k: PairKind, q: Seq<(Seq<char>, Seq<char>)>) -> Seq<Seq<char>> {
    Seq::new(q.len(), |i: int| pair_entry(k, q[i]))
}

pub open spec fn schema_entries(q: Seq<Seq<char>>) -> Seq<Seq<char>> {
    Seq::new(q.len(), |i: int| schema_entry(q[i]))
}

/// The entries under one id kind, in ascending order of the ids.
pub open spec fn id_group(m: ChangeModel, k: IdKind) -> Seq<Seq<char>> {
    id_entries(k, crate::ordered::ascending::<u64>(ids(m, k)))
}

/// The entries under one pair kind, in ascending order of the names.
pub open spec fn pair_group(m: ChangeModel, k: PairKind) -> Seq<Seq<char>> {
    pair_entries(k, crate::ordered::ascending::<(String, String)>(pairs(m, k)))
}

/// The entries of a set, in the order in which they are written.
pub open spec fn wire_entries(m: ChangeModel) -> Seq<Seq<char>> {
    id_group(m, IdKind::DroppedSchema)
        + id_group(m, IdKind::DroppedTable)
        + id_group(m, IdKind::DroppedView)
        + schema_entries(crate::ordered::ascending::<String>(m.created_schemas))
        + pair_group(m, PairKind::CreatedTable)
        + pair_group(m, PairKind::CreatedView)
        + pair_group(m, PairKind::CreatedScalarMacro)
        + pair_group(m, PairKind::CreatedTableMacro)
        + id_group(m, IdKind::DroppedScalarMacro)
        + id_group(m, IdKind::DroppedTableMacro)
        + id_group(m, IdKind::InsertedIntoTable)
        + id_group(m, IdKind::DeletedFromTable)
        + id_group(m, IdKind::AlteredTable)
        + id_group(m, IdKind::AlteredView)
        + id_group(m, IdKind::MergeAdjacent)
        + id_group(m, IdKind::RewriteDelete)
}

/// The text of a set.
pub open spec fn changes_text(m: ChangeModel) -> Seq<char> {
    crate::grammar::joined(wire_entries(m))
}

/// The part of a set that the wire grammar carries.
pub open spec fn wire_part(m: ChangeModel) -> ChangeModel {
    ChangeModel {
        created_table_schema_ids: Set::empty(),
        created_view_schema_ids: Set::empty(),
        created_macro_schema_ids: Set::empty(),
        compacted_tables: Set::empty(),
        has_unknown: false,
        ..m
    }
}

/// The position of the first colon, or the end.
pub open spec fn first_colon(t: Seq<char>) -> nat
    decreases t.len(),
{
    if t.len() == 0 || t[0] == ':' {
        0
    } else {
        1 + first_colon(t.skip(1))
    }
}

/// The set after an entry that is not understood.
pub open spec fn confused(m: ChangeModel) -> ChangeModel {
    ChangeModel { has_unknown: true, ..m }
}

/// The set after an entry of a kind, given its payload.
pub open spec fn noted_payload(m: ChangeModel, k: EntryKind, payload: Seq<char>) -> ChangeModel {
    match k {
        EntryKind::CreatedSchema => match crate::grammar::name_payload(payload) {
            Some(name) => ChangeModel { created_schemas: m.created_schemas.insert(name), ..m },
            None => confused(m),
        },
        EntryKind::Pair(k) => match crate::grammar::pair_payload(payload) {
            Some(pair) => with_pairs(m, k, pairs(m, k).insert(pair)),
            None => confused(m),
        },
        EntryKind::Id(k) => match crate::text::numeral(payload) {
            Some(id) => with_ids(m, k, ids(m, k).insert(id)),
            None => confused(m),
        },
    }
}

/// The set after one entry.
pub open spec fn noted_entry(m: ChangeModel, entry: Seq<char>) -> ChangeModel {
    let c = first_colon(entry) as int;
    if c < entry.len() {
        match kind_named(entry.take(c)) {
            Some(k) => noted_payload(m, k, entry.skip(c + 1)),
            None => confused(m),
        }
    } else {
        confused(m)
    }
}

pub open spec fn noted_entries(m: ChangeModel, es: Seq<Seq<char>>) -> ChangeModel
    decreases es.len(),
{
    if es.len() == 0 {
        m
    } else {
        noted_entry(noted_entries(m, es.drop_last()), es.last())
    }
}

/// The set that a text denotes.
pub open spec fn parsed(t: Seq<char>) -> ChangeModel {
    noted_entries(no_changes(), crate::grammar::entries_of(t))
}

impl DeepView for ChangeSet {
    type V = ChangeModel;

    open spec fn deep_view(&self) -> ChangeModel {
        self.view()
    }
}

impl Clone for ChangeSet {
    fn clone(&self) -> (s: Self)
        ensures
            s@ == self@,
    {
        ChangeSet {
            created_schemas: self.created_schemas.dup(),
            dropped_schemas: self.dropped_schemas.dup(),
            created_tables: self.created_tables.dup(),
            created_table_schema_ids: self.created_table_schema_ids.dup(),
            altered_tables: self.altered_tables.dup(),
            dropped_tables: self.dropped_tables.dup(),
            created_views: self.created_views.dup(),
            created_view_schema_ids: self.created_view_schema_ids.dup(),
            altered_views: self.altered_views.dup(),
            dropped_views: self.dropped_views.dup(),
            created_scalar_macros: self.created_scalar_macros.dup(),
            created_table_macros: self.created_table_macros.dup(),
            created_macro_schema_ids: self.created_macro_schema_ids.dup(),
            dropped_scalar_macros: self.dropped_scalar_macros.dup(),
            dropped_table_macros: self.dropped_table_macros.dup(),
            inserted_tables: self.inserted_tables.dup(),
            deleted_from_tables: self.deleted_from_tables.dup(),
            merge_adjacent_tables: self.merge_adjacent_tables.dup(),
            rewrite_delete_tables: self.rewrite_delete_tables.dup(),
            compacted_tables: self.compacted_tables.dup(),
            has_unknown: self.has_unknown,
        }
    }
}

impl Default for ChangeSet {
    fn default() -> (s: Self)
        ensures
            s@ == no_changes(),
    {
        ChangeSet {
            created_schemas: OrdSet::new(),
            dropped_schemas: OrdSet::new(),
            created_tables: OrdSet::new(),
            created_table_schema_ids: OrdSet::new(),
            altered_tables: OrdSet::new(),
            dropped_tables: OrdSet::new(),
            created_views: OrdSet::new(),
            created_view_schema_ids: OrdSet::new(),
            altered_views: OrdSet::new(),
            dropped_views: OrdSet::new(),
            created_scalar_macros: OrdSet::new(),
            created_table_macros: OrdSet::new(),
            created_macro_schema_ids: OrdSet::new(),
            dropped_scalar_macros: OrdSet::new(),
            dropped_table_macros: OrdSet::new(),
            inserted_tables: OrdSet::new(),
            deleted_from_tables: OrdSet::new(),
            merge_adjacent_tables: OrdSet::new(),
            rewrite_delete_tables: OrdSet::new(),
            compacted_tables: OrdSet::new(),
            has_unknown: false,
        }
    }
}

impl ChangeSet {
    /// The set that a run of operations leaves.
    pub fn from_operations(operations: &[Operation]) -> (s: Self)
        ensures
            s@ == changes_of(operations.deep_view()),
            finite(s@),
    {
        let mut set = ChangeSet::default();
        let ghost ops = operations.deep_view();
        let mut i: usize = 0;
        assert(ops.take(0) =~= Seq::<OperationModel>::empty());
        while i < operations.len()
            invariant
                i <= operations@.len(),
                ops == operations.deep_view(),
                set@ == changes_of(ops.take(i as int)),
            decreases operations.len() - i,
        {
            proof {
                let next = ops.take(i + 1);
                assert(next.drop_last() =~= ops.take(i as int));
                assert(next.last() == operations@[i as int]@);
            }
            set.note(&operations[i]);
            i = i + 1;
        }
        assert(ops.take(ops.len() as int) =~= ops);
        set.sets_are_finite();
        set
    }

    /// Records one operation.
    fn note(&mut self, op: &Operation)
        ensures
            final(self)@ == noted(old(self)@, op@),
    {
        match op {
            Operation::CreateSchema { name, .. } => {
                self.created_schemas.insert(name.clone());
            },
            Operation::DropSchema { schema_id } => {
                self.dropped_schemas.insert(*schema_id);
            },
            Operation::CreateTable { schema_id, schema_name, table_name, .. } => {
                self.created_tables.insert((schema_name.clone(), table_name.clone()));
                self.created_table_schema_ids.insert(*schema_id);
            },
            Operation::AlterTable { table_id } => {
                self.altered_tables.insert(*table_id);
            },
            Operation::DropTable { table_id } => {
                self.dropped_tables.insert(*table_id);
            },
            Operation::RegisterDataFile { table_id } => {
                self.inserted_tables.insert(*table_id);
            },
            Operation::RegisterDeleteFile { table_id } => {
                self.deleted_from_tables.insert(*table_id);
            },
            Operation::ExpireDataFile { table_id } => {
                self.merge_adjacent_tables.insert(*table_id);
            },
            Operation::ExpireDeleteFile { table_id } => {
                self.rewrite_delete_tables.insert(*table_id);
            },
            Operation::UpdateStats { .. } => {},
            Operation::CreateView { schema_id, schema_name, view_name, .. } => {
                self.created_views.insert((schema_name.clone(), view_name.clone()));
                self.created_view_schema_ids.insert(*schema_id);
            },
            Operation::AlterView { view_id } => {
                self.altered_views.insert(*view_id);
            },
            Operation::DropView { view_id } => {
                self.dropped_views.insert(*view_id);
            },
            Operation::CreateMacro { schema_id, schema_name, macro_name, macro_type, .. } => {
                let pair = (schema_name.clone(), macro_name.clone());
                if same_text(macro_type.as_str(), "table") {
                    self.created_table_macros.insert(pair);
                } else {
                    self.created_scalar_macros.insert(pair);
                }
                self.created_macro_schema_ids.insert(*schema_id);
            },
            Operation::DropMacro { macro_id, macro_type } => {
                if same_text(macro_type.as_str(), "table") {
                    self.dropped_table_macros.insert(*macro_id);
                } else {
                    self.dropped_scalar_macros.insert(*macro_id);
                }
            },
        }
    }

    fn sets_are_finite(&self)
        ensures
            finite(self@),
    {
        let _ = self.created_schemas.items();
        let _ = self.dropped_schemas.items();
        let _ = self.created_tables.items();
        let _ = self.created_table_schema_ids.items();
        let _ = self.altered_tables.items();
        let _ = self.dropped_tables.items();
        let _ = self.created_views.items();
        let _ = self.created_view_schema_ids.items();
        let _ = self.altered_views.items();
        let _ = self.dropped_views.items();
        let _ = self.created_scalar_macros.items();
        let _ = self.created_table_macros.items();
        let _ = self.created_macro_schema_ids.items();
        let _ = self.dropped_scalar_macros.items();
        let _ = self.dropped_table_macros.items();
        let _ = self.inserted_tables.items();
        let _ = self.deleted_from_tables.items();
        let _ = self.merge_adjacent_tables.items();
        let _ = self.rewrite_delete_tables.items();
        let _ = self.compacted_tables.items();
    }

    /// The ids recorded under a kind.
    fn ids_under(&self, k: IdKind) -> (s: &OrdSet<u64>)
        ensures
            s@ == ids(self@, k),
    {
        match k {
            IdKind::DroppedSchema => &self.dropped_schemas,
            IdKind::DroppedTable => &self.dropped_tables,
            IdKind::DroppedView => &self.dropped_views,
            IdKind::DroppedScalarMacro => &self.dropped_scalar_macros,
            IdKind::DroppedTableMacro => &self.dropped_table_macros,
            IdKind::InsertedIntoTable => &self.inserted_tables,
            IdKind::DeletedFromTable => &self.deleted_from_tables,
            IdKind::AlteredTable => &self.altered_tables,
            IdKind::AlteredView => &self.altered_views,
            IdKind::MergeAdjacent => &self.merge_adjacent_tables,
            IdKind::RewriteDelete => &self.rewrite_delete_tables,
            IdKind::CompactedTable => &self.compacted_tables,
        }
    }

    fn insert_id(&mut self, k: IdKind, id: u64)
        ensures
            final(self)@ == with_ids(old(self)@, k, ids(old(self)@, k).insert(id)),
    {
        match k {
            IdKind::DroppedSchema => self.dropped_schemas.insert(id),
            IdKind::DroppedTable => self.dropped_tables.insert(id),
            IdKind::DroppedView => self.dropped_views.insert(id),
            IdKind::DroppedScalarMacro => self.dropped_scalar_macros.insert(id),
            IdKind::DroppedTableMacro => self.dropped_table_macros.insert(id),
            IdKind::InsertedIntoTable => self.inserted_tables.insert(id),
            IdKind::DeletedFromTable => self.deleted_from_tables.insert(id),
            IdKind::AlteredTable => self.altered_tables.insert(id),
            IdKind::AlteredView => self.altered_views.insert(id),
            IdKind::MergeAdjacent => self.merge_adjacent_tables.insert(id),
            IdKind::RewriteDelete => self.rewrite_delete_tables.insert(id),
            IdKind::CompactedTable => self.compacted_tables.insert(id),
        }
    }

    /// The pairs of names recorded under a kind.
    fn pairs_under(&self, k: PairKind) -> (s: &OrdSet<(String, String)>)
        ensures
            s@ == pairs(self@, k),
    {
        match k {
            PairKind::CreatedTable => &self.created_tables,
            PairKind::CreatedView => &self.created_views,
            PairKind::CreatedScalarMacro => &self.created_scalar_macros,
            PairKind::CreatedTableMacro => &self.created_table_macros,
        }
    }

    fn insert_pair(&mut self, k: PairKind, pair: (String, String))
        ensures
            final(self)@ == with_pairs(
                old(self)@,
                k,
                pairs(old(self)@, k).insert(pair.deep_view()),
            ),
    {
        match k {
            PairKind::CreatedTable => self.created_tables.insert(pair),
            PairKind::CreatedView => self.created_views.insert(pair),
            PairKind::CreatedScalarMacro => self.created_scalar_macros.insert(pair),
            PairKind::CreatedTableMacro => self.created_table_macros.insert(pair),
        }
    }

    fn push_ids(&self, k: IdKind, entries: &mut Vec<String>)
        ensures
            final(entries).deep_view() == old(entries).deep_view() + id_group(self@, k),
    {
        let set = self.ids_under(k).items();
        let ghost q = set.deep_view();
        let ghost before = entries.deep_view();
        let mut i: usize = 0;
        assert(entries.deep_view() =~= before + id_entries(k, q.take(0)));
        while i < set.len()
            invariant
                i <= set@.len(),
                q == set.deep_view(),
                entries.deep_view() == before + id_entries(k, q.take(i as int)),
            decreases set.len() - i,
        {
            let mut entry = String::new();
            push_text(&mut entry, id_word_text(k));
            entry.push(':');
            push_decimal(&mut entry, set[i]);
            proof {
                assert(entry@ =~= id_entry(k, q[i as int]));
            }
            let ghost now = entries.deep_view();
            entries.push(entry);
            proof {
                assert(entries.deep_view() =~= now.push(id_entry(k, q[i as int])));
                assert(id_entries(k, q.take(i + 1)) =~= id_entries(k, q.take(i as int)).push(
                    id_entry(k, q[i as int]),
                ));
                assert(entries.deep_view() =~= before + id_entries(k, q.take(i + 1)));
            }
            i = i + 1;
        }
        assert(q.take(q.len() as int) =~= q);
    }

    fn push_pairs(&self, k: PairKind, entries: &mut Vec<String>)
        ensures
            final(entries).deep_view() == old(entries).deep_view() + pair_group(self@, k),
    {
        let set = self.pairs_under(k).items();
        let ghost q = set.deep_view();
        let ghost before = entries.deep_view();
        let mut i: usize = 0;
        assert(entries.deep_view() =~= before + pair_entries(k, q.take(0)));
        while i < set.len()
            invariant
                i <= set@.len(),
                q == set.deep_view(),
                entries.deep_view() == before + pair_entries(k, q.take(i as int)),
            decreases set.len() - i,
        {
            let mut entry = String::new();
            push_text(&mut entry, pair_word_text(k));
            entry.push(':');
            push_text(&mut entry, quote_ident(set[i].0.as_str()).as_str());
            entry.push('.');
            push_text(&mut entry, quote_ident(set[i].1.as_str()).as_str());
            proof {
                assert(entry@ =~= pair_entry(k, q[i as int]));
            }
            let ghost now = entries.deep_view();
            entries.push(entry);
            proof {
                assert(entries.deep_view() =~= now.push(pair_entry(k, q[i as int])));
                assert(pair_entries(k, q.take(i + 1)) =~= pair_entries(k, q.take(i as int)).push(
                    pair_entry(k, q[i as int]),
                ));
                assert(entries.deep_view() =~= before + pair_entries(k, q.take(i + 1)));
            }
            i = i + 1;
        }
        assert(q.take(q.len() as int) =~= q);
    }

    fn push_schemas(&self, entries: &mut Vec<String>)
        ensures
            final(entries).deep_view() == old(entries).deep_view() + schema_entries(
                crate::ordered::ascending::<String>(self@.created_schemas),
            ),
    {
        let set = self.created_schemas.items();
        let ghost q = set.deep_view();
        let ghost before = entries.deep_view();
        let mut i: usize = 0;
        assert(entries.deep_view() =~= before + schema_entries(q.take(0)));
        while i < set.len()
            invariant
                i <= set@.len(),
                q == set.deep_view(),
                entries.deep_view() == before + schema_entries(q.take(i as int)),
            decreases set.len() - i,
        {
            let mut entry = String::new();
            push_text(&mut entry, "created_schema");
            entry.push(':');
            push_text(&mut entry, quote_ident(set[i].as_str()).as_str());
            proof {
                assert(entry@ =~= schema_entry(q[i as int]));
            }
            let ghost now = entries.deep_view();
            entries.push(entry);
            proof {
                assert(entries.deep_view() =~= now.push(schema_entry(q[i as int])));
                assert(schema_entries(q.take(i + 1)) =~= schema_entries(q.take(i as int)).push(
                    schema_entry(q[i as int]),
                ));
                assert(entries.deep_view() =~= before + schema_entries(q.take(i + 1)));
            }
            i = i + 1;
        }
        assert(q.take(q.len() as int) =~= q);
    }

    /// The text of this set: the entries in writer order, joined by commas.
    pub fn to_changes_made(&self) -> (text: String)
        ensures
            text@ == changes_text(self@),
    {
        let mut entries: Vec<String> = Vec::new();
        assert(entries.deep_view() =~= Seq::<Seq<char>>::empty());
        self.push_ids(IdKind::DroppedSchema, &mut entries);
        self.push_ids(IdKind::DroppedTable, &mut entries);
        self.push_ids(IdKind::DroppedView, &mut entries);
        self.push_schemas(&mut entries);
        self.push_pairs(PairKind::CreatedTable, &mut entries);
        self.push_pairs(PairKind::CreatedView, &mut entries);
        self.push_pairs(PairKind::CreatedScalarMacro, &mut entries);
        self.push_pairs(PairKind::CreatedTableMacro, &mut entries);
        self.push_ids(IdKind::DroppedScalarMacro, &mut entries);
        self.push_ids(IdKind::DroppedTableMacro, &mut entries);
        self.push_ids(IdKind::InsertedIntoTable, &mut entries);
        self.push_ids(IdKind::DeletedFromTable, &mut entries);
        self.push_ids(IdKind::AlteredTable, &mut entries);
        self.push_ids(IdKind::AlteredView, &mut entries);
        self.push_ids(IdKind::MergeAdjacent, &mut entries);
        self.push_ids(IdKind::RewriteDelete, &mut entries);
        assert(entries.deep_view() =~= wire_entries(self@));
        join_entries(&entries)
    }

    /// Reads the text of a set. Kinds are matched without regard to ASCII
    /// case; what is not understood is flagged, never dropped.
    pub fn parse(changes_made: &str) -> (s: Self)
        ensures
            s@ == parsed(changes_made@),
    {
        let mut set = ChangeSet::default();
        let entries = split_entries(changes_made);
        let ghost es = entries.deep_view();
        let mut i: usize = 0;
        assert(es.take(0) =~= Seq::<Seq<char>>::empty());
        while i < entries.len()
            invariant
                i <= entries@.len(),
                es == entries.deep_view(),
                set@ == noted_entries(no_changes(), es.take(i as int)),
            decreases entries.len() - i,
        {
            proof {
                let next = es.take(i + 1);
                assert(next.drop_last() =~= es.take(i as int));
                assert(next.last() == es[i as int]);
            }
            set.note_entry(entries[i].as_str());
            i = i + 1;
        }
        assert(es.take(es.len() as int) =~= es);
        set
    }

    /// Records one entry of a text.
    fn note_entry(&mut self, entry: &str)
        ensures
            final(self)@ == noted_entry(old(self)@, entry@),
    {
        let chars = chars_of(entry);
        let colon = colon_position(&chars);
        if colon == chars.len() {
            self.has_unknown = true;
            return;
        }
        let ghost payload = chars@.skip(colon + 1);
        match entry_kind(&chars, colon) {
            Some(EntryKind::CreatedSchema) => {
                match parse_created_schema_payload(&chars, colon + 1) {
                    Some(name) => self.created_schemas.insert(name),
                    None => {
                        self.has_unknown = true;
                    },
                }
            },
            Some(EntryKind::Pair(k)) => {
                match parse_created_table_payload(&chars, colon + 1) {
                    Some(pair) => self.insert_pair(k, pair),
                    None => {
                        self.has_unknown = true;
                    },
                }
            },
            Some(EntryKind::Id(k)) => {
                match parse_numeral(&chars, colon + 1) {
                    Some(id) => self.insert_id(k, id),
                    None => {
                        self.has_unknown = true;
                    },
                }
            },
            None => {
                self.has_unknown = true;
            },
        }
    }
}

/// The position of the first colon, or the end.
fn colon_position(chars: &Vec<char>) -> (at: usize)
    ensures
        at == first_colon(chars@),
        at <= chars@.len(),
{
    let mut at: usize = 0;
    assert(chars@.skip(0) =~= chars@);
    while at < chars.len() && chars[at] != ':'
        invariant
            at <= chars@.len(),
            first_colon(chars@) == at + first_colon(chars@.skip(at as int)),
        decreases chars.len() - at,
    {
        assert(chars@.skip(at as int).skip(1) =~= chars@.skip(at + 1));
        at = at + 1;
    }
    at
}

} // verus!
