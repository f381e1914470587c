//! The mutation handle that a commit closure receives.
//!
//! Reads observe the handle's own staged mutations; nothing touches the store
//! until the closure returns.
use crate::api::{
    scope_key, ColumnAlteration, ColumnAlterationSpec, ColumnDef, ColumnDefSpec, ColumnId,
    ColumnStats, ColumnStatsSpec, DataFile, DataFileId, DataFileSpec, DeleteFile, DeleteFileId,
    DeleteFileSpec, FileColumnStats, FileColumnStatsSpec, OptionScope, SchemaId, TableId, ViewId,
};
use crate::catalog::{
    columns_named, delete_files_on, minus_column, minus_table, relation_taken, schemas_named,
    tables_under, unknown_schema, unknown_schema_error, unknown_table, unknown_table_error,
    views_under, CatalogModel, CatalogSnapshot,
};
use crate::diff::at;
use crate::error::{
    around, around_two, refused, text_around, text_around_two, text_wrapped, wrapped, Error, Fault,
};
use crate::names::{
    empty_name, new_uuid, nonempty_name, path_safe_name, unsafe_name, uuid_text,
};
use crate::operations::{Operation, OperationModel};
use crate::ordered::{OrdMap, OrdSet, Record};
use crate::records::{
    ColumnModel, ColumnValue, DataFileModel, DataFileValue, DeleteFileModel, DeleteFileValue,
    FileColumnStatsModel, FileColumnStatsValue, OptionScopeModel, OptionScopeValue, SchemaModel,
    SchemaValue, TableColumnStatsModel, TableColumnStatsValue, TableModel, TableStatsModel,
    TableStatsValue, TableValue, ViewModel, ViewValue,
};
use crate::scoped::{largest, largest_of, scope};
use crate::text::same_text;
use vstd::prelude::*;

verus! {

/// The mutation handle that a commit closure receives.
pub struct Transaction {
    state: CatalogSnapshot,
    ops: Vec<Operation>,
    next_catalog_id: u64,
    next_file_id: u64,
    new_snapshot_id: u64,
}

/// The model of [`Transaction`]: the working state, the log, and the counters.
#[verifier::ext_equal]
pub struct TransactionModel {
    pub state: CatalogModel,
    pub ops: Seq<OperationModel>,
    pub next_catalog_id: u64,
    pub next_file_id: u64,
    pub new_snapshot_id: u64,
}

impl View for Transaction {
    type V = TransactionModel;

    closed spec fn view(&self) -> TransactionModel {
        TransactionModel {
            state: self.state@,
            ops: self.ops.deep_view(),
            next_catalog_id: self.next_catalog_id,
            next_file_id: self.next_file_id,
            new_snapshot_id: self.new_snapshot_id,
        }
    }
}

impl std::ops::Deref for Transaction {
    type Target = CatalogSnapshot;

    /// The working state: reads observe the transaction's own mutations.
    fn deref(&self) -> (s: &CatalogSnapshot)
        ensures
            s@ == self@.state,
    {
        &self.state
    }
}

/// A transaction with another state and one more operation.
pub open spec fn logged(
    t: TransactionModel,
    state: CatalogModel,
    op: OperationModel,
) -> TransactionModel {
    TransactionModel { state, ops: t.ops.push(op), ..t }
}

/// The name of a directory derived from an object's name.
pub open spec fn directory(name: Seq<char>) -> Seq<char> {
    wrapped(""@, name, "/"@)
}

// ---------------------------------------------------------------------------
// Schemas
// ---------------------------------------------------------------------------

/// Why a schema cannot be created.
pub open spec fn create_schema_refusal(t: TransactionModel, name: Seq<char>) -> Option<Fault> {
    match unsafe_name("schema"@, name) {
        Some(f) => Some(f),
        None => if schemas_named(t.state, name) != Set::<u64>::empty() {
            Some(Fault::AlreadyExists(wrapped("schema "@, name, ""@)))
        } else {
            None
        },
    }
}

/// The transaction after a schema was created.
pub open spec fn schema_created(
    t: TransactionModel,
    name: Seq<char>,
    uuid: Seq<char>,
) -> TransactionModel {
    let id = t.next_catalog_id;
    let schema = SchemaModel {
        schema_id: id,
        schema_uuid: uuid,
        begin_snapshot: t.new_snapshot_id,
        end_snapshot: None,
        schema_name: name,
        path: directory(name),
        path_is_relative: true,
    };
    TransactionModel {
        next_catalog_id: (id + 1) as u64,
        ..logged(
            t,
            CatalogModel { schemas: t.state.schemas.insert(id, schema), ..t.state },
            OperationModel::CreateSchema { schema_id: id, name },
        )
    }
}

/// Why a schema cannot be dropped: the bootstrap schema stays, and so does one
/// that still has tables or views.
pub open spec fn drop_schema_refusal(t: TransactionModel, id: u64) -> Option<Fault> {
    if id == 0 {
        Some(Fault::Constraint("the bootstrap `main` schema cannot be dropped"@))
    } else if !t.state.schemas.contains_key(id) {
        Some(unknown_schema(id))
    } else if tables_under(t.state, id) != Set::<u64>::empty() {
        Some(Fault::Constraint(around("schema "@, id, " still contains tables"@)))
    } else if views_under(t.state, id) != Set::<u64>::empty() {
        Some(Fault::Constraint(around("schema "@, id, " still contains views"@)))
    } else {
        None
    }
}

// ---------------------------------------------------------------------------
// Tables
// ---------------------------------------------------------------------------

pub open spec fn name_taken(name: Seq<char>) -> Fault {
    Fault::AlreadyExists(wrapped("relation "@, name, ""@))
}

/// Why a list of column definitions is refused: an empty or repeated name,
/// whichever comes first.
pub open spec fn column_defs_refusal(defs: Seq<ColumnDefSpec>) -> Option<Fault>
    decreases defs.len(),
{
    if defs.len() == 0 {
        None
    } else {
        let front = defs.drop_last();
        let name = defs.last().name;
        match column_defs_refusal(front) {
            Some(f) => Some(f),
            None => if name.len() == 0 {
                empty_name("column"@, name)
            } else if exists|i: int| 0 <= i < front.len() && (#[trigger] front[i]).name == name {
                Some(Fault::Constraint(wrapped("duplicate column "@, name, ""@)))
            } else {
                None
            },
        }
    }
}

/// Why a table cannot be created.
pub open spec fn create_table_refusal(
    t: TransactionModel,
    schema_id: u64,
    name: Seq<char>,
    defs: Seq<ColumnDefSpec>,
) -> Option<Fault> {
    if !t.state.schemas.contains_key(schema_id) {
        Some(unknown_schema(schema_id))
    } else if unsafe_name("table"@, name) is Some {
        unsafe_name("table"@, name)
    } else if relation_taken(t.state, schema_id, name) {
        Some(name_taken(name))
    } else if defs.len() == 0 {
        Some(Fault::Constraint(wrapped("table "@, name, " needs at least one column"@)))
    } else {
        column_defs_refusal(defs)
    }
}

/// A fresh column.
pub open spec fn fresh_column(
    table_id: u64,
    column_id: u64,
    column_order: u64,
    begin_snapshot: u64,
    def: ColumnDefSpec,
) -> ColumnModel {
    ColumnModel {
        column_id,
        begin_snapshot,
        end_snapshot: None,
        table_id,
        column_order,
        column_name: def.name,
        column_type: def.column_type,
        initial_default: None,
        default_value: def.default_value,
        nulls_allowed: def.nulls_allowed,
        parent_column: None,
        default_value_type: None,
        default_value_dialect: None,
        tags: Seq::empty(),
    }
}

/// Columns laid out in declaration order: ids from one, positions from zero.
pub open spec fn laid_out(
    columns: Map<(u64, u64), ColumnModel>,
    table_id: u64,
    begin_snapshot: u64,
    defs: Seq<ColumnDefSpec>,
) -> Map<(u64, u64), ColumnModel>
    decreases defs.len(),
{
    if defs.len() == 0 {
        columns
    } else {
        let n = defs.len();
        laid_out(columns, table_id, begin_snapshot, defs.drop_last()).insert(
            (table_id, n as u64),
            fresh_column(table_id, n as u64, (n - 1) as u64, begin_snapshot, defs.last()),
        )
    }
}

/// The transaction after a table was created.
pub open spec fn table_created(
    t: TransactionModel,
    schema_id: u64,
    name: Seq<char>,
    defs: Seq<ColumnDefSpec>,
    uuid: Seq<char>,
) -> TransactionModel {
    let id = t.next_catalog_id;
    let table = TableModel {
        table_id: id,
        table_uuid: uuid,
        begin_snapshot: t.new_snapshot_id,
        end_snapshot: None,
        schema_id,
        table_name: name,
        path: directory(name),
        path_is_relative: true,
        next_column_id: (defs.len() + 1) as u64,
    };
    let stats = TableStatsModel { table_id: id, record_count: 0, next_row_id: 0, file_size_bytes: 0 };
    TransactionModel {
        next_catalog_id: (id + 1) as u64,
        ..logged(
            t,
            CatalogModel {
                tables: t.state.tables.insert(id, table),
                columns: laid_out(t.state.columns, id, t.new_snapshot_id, defs),
                table_stats: t.state.table_stats.insert(id, stats),
                ..t.state
            },
            OperationModel::CreateTable {
                schema_id,
                table_id: id,
                schema_name: t.state.schemas[schema_id].schema_name,
                table_name: name,
            },
        )
    }
}

/// The transaction after a table got another value.
pub open spec fn table_altered(
    t: TransactionModel,
    table: TableModel,
    id: u64,
) -> TransactionModel {
    logged(
        t,
        CatalogModel { tables: t.state.tables.insert(table.table_id, table), ..t.state },
        OperationModel::AlterTable { table_id: id },
    )
}

/// Why a table cannot be renamed.
pub open spec fn rename_table_refusal(t: TransactionModel, id: u64, name: Seq<char>) -> Option<Fault> {
    if unsafe_name("table"@, name) is Some {
        unsafe_name("table"@, name)
    } else if !t.state.tables.contains_key(id) {
        Some(unknown_table(id))
    } else if relation_taken(t.state, t.state.tables[id].schema_id, name) {
        Some(name_taken(name))
    } else {
        None
    }
}

/// Why a table cannot be moved to another schema.
pub open spec fn move_table_refusal(t: TransactionModel, id: u64, schema_id: u64) -> Option<Fault> {
    if !t.state.schemas.contains_key(schema_id) {
        Some(unknown_schema(schema_id))
    } else if !t.state.tables.contains_key(id) {
        Some(unknown_table(id))
    } else if relation_taken(t.state, schema_id, t.state.tables[id].table_name) {
        Some(name_taken(t.state.tables[id].table_name))
    } else {
        None
    }
}

// ---------------------------------------------------------------------------
// Columns
// ---------------------------------------------------------------------------

pub open spec fn column_taken(name: Seq<char>) -> Fault {
    Fault::AlreadyExists(wrapped("column "@, name, ""@))
}

pub open spec fn unknown_column(table_id: u64, column_id: u64) -> Fault {
    Fault::NotFound(around_two("column "@, column_id, " of table "@, table_id, ""@))
}

pub fn unknown_column_error(table_id: u64, column_id: u64) -> (e: Error)
    ensures
        e@ == unknown_column(table_id, column_id),
{
    Error::NotFound(text_around_two("column ", column_id, " of table ", table_id, ""))
}

/// Why a column cannot be added.
pub open spec fn add_column_refusal(t: TransactionModel, table_id: u64, name: Seq<char>) -> Option<Fault> {
    if name.len() == 0 {
        empty_name("column"@, name)
    } else if !t.state.tables.contains_key(table_id) {
        Some(unknown_table(table_id))
    } else if columns_named(t.state, table_id, name) != Set::<(u64, u64)>::empty() {
        Some(column_taken(name))
    } else {
        None
    }
}

/// The positions of a table's columns.
pub open spec fn positions(m: CatalogModel, table_id: u64) -> Set<u64> {
    Set::new(
        |p: u64|
            exists|c: u64|
                #[trigger] m.columns.contains_key((table_id, c)) && m.columns[(
                    table_id,
                    c,
                )].column_order == p,
    )
}

/// The id of a column to add: the table's counter, floored above every live
/// id.
pub open spec fn next_column(m: CatalogModel, table_id: u64) -> int {
    let counter = m.tables[table_id].next_column_id as int;
    let floor = largest(scope(m.columns, table_id)) + 1;
    if counter >= floor {
        counter
    } else {
        floor
    }
}

/// The position of a column to add: behind every live one.
pub open spec fn next_position(m: CatalogModel, table_id: u64) -> int {
    if scope(m.columns, table_id) == Set::<u64>::empty() {
        0
    } else {
        largest(positions(m, table_id)) + 1
    }
}

/// The transaction after a column was added.
pub open spec fn column_added(
    t: TransactionModel,
    table_id: u64,
    def: ColumnDefSpec,
) -> TransactionModel {
    let id = next_column(t.state, table_id);
    let column = fresh_column(
        table_id,
        id as u64,
        next_position(t.state, table_id) as u64,
        t.new_snapshot_id,
        def,
    );
    let table = TableModel {
        next_column_id: (id + 1) as u64,
        begin_snapshot: t.new_snapshot_id,
        ..t.state.tables[table_id]
    };
    logged(
        t,
        CatalogModel {
            tables: t.state.tables.insert(table.table_id, table),
            columns: t.state.columns.insert((table_id, id as u64), column),
            ..t.state
        },
        OperationModel::AlterTable { table_id },
    )
}

/// The transaction after a column got another value.
pub open spec fn column_altered(
    t: TransactionModel,
    table_id: u64,
    column: ColumnModel,
) -> TransactionModel {
    logged(
        t,
        CatalogModel {
            columns: t.state.columns.insert((column.table_id, column.column_id), column),
            ..t.state
        },
        OperationModel::AlterTable { table_id },
    )
}

/// Why a column cannot be renamed.
pub open spec fn rename_column_refusal(
    t: TransactionModel,
    table_id: u64,
    column_id: u64,
    name: Seq<char>,
) -> Option<Fault> {
    if name.len() == 0 {
        empty_name("column"@, name)
    } else if columns_named(t.state, table_id, name) != Set::<(u64, u64)>::empty() {
        Some(column_taken(name))
    } else if !t.state.columns.contains_key((table_id, column_id)) {
        Some(unknown_column(table_id, column_id))
    } else {
        None
    }
}

/// A column with an alteration applied.
pub open spec fn altered(c: ColumnModel, a: ColumnAlterationSpec, begin_snapshot: u64) -> ColumnModel {
    ColumnModel {
        column_type: match a.column_type {
            Some(v) => v,
            None => c.column_type,
        },
        nulls_allowed: match a.nulls_allowed {
            Some(v) => v,
            None => c.nulls_allowed,
        },
        default_value: match a.default_value {
            Some(v) => v,
            None => c.default_value,
        },
        begin_snapshot,
        ..c
    }
}

/// Whether some index of a table is over a column.
pub open spec fn is_indexed(m: CatalogModel, table_id: u64, column_id: u64) -> bool {
    exists|k: (u64, u64)| #[trigger]
        m.indexes.contains_key(k) && k.0 == table_id && m.indexes[k].columns.contains(column_id)
}

/// Why a change of an indexed column is refused: the entries of the index would
/// no longer spell its values.
pub open spec fn indexed_column(table_id: u64, column_id: u64) -> Fault {
    Fault::Constraint(
        around_two("column "@, column_id, " of table "@, table_id, " has an equality index"@),
    )
}

/// Why a column cannot be altered: an index is bound to its column's type.
pub open spec fn alter_column_refusal(
    t: TransactionModel,
    table_id: u64,
    column_id: u64,
    alteration: ColumnAlterationSpec,
) -> Option<Fault> {
    if !t.state.columns.contains_key((table_id, column_id)) {
        Some(unknown_column(table_id, column_id))
    } else if alteration.column_type is Some && alteration.column_type->0 != t.state.columns[(
        table_id,
        column_id,
    )].column_type && is_indexed(t.state, table_id, column_id) {
        Some(indexed_column(table_id, column_id))
    } else {
        None
    }
}

/// Why a column cannot be dropped: a table keeps at least one, and an index its
/// columns.
pub open spec fn drop_column_refusal(t: TransactionModel, table_id: u64, column_id: u64) -> Option<Fault> {
    if !t.state.columns.contains_key((table_id, column_id)) {
        Some(unknown_column(table_id, column_id))
    } else if scope(t.state.columns, table_id) == set![column_id] {
        Some(
            Fault::Constraint(
                around_two("column "@, column_id, " is the last column of table "@, table_id, ""@),
            ),
        )
    } else if is_indexed(t.state, table_id, column_id) {
        Some(indexed_column(table_id, column_id))
    } else {
        None
    }
}

/// A transaction in which a schema was dropped.
pub open spec fn schema_dropped(t: TransactionModel, id: u64) -> TransactionModel {
    logged(
        t,
        CatalogModel {
            schemas: t.state.schemas.remove(id),
            ..t.state
        },
        OperationModel::DropSchema { schema_id: id },
    )
}

/// A transaction in which a table was renamed.
pub open spec fn table_renamed(t: TransactionModel, id: u64, name: Seq<char>) -> TransactionModel {
    table_altered(
        t,
        TableModel {
            table_name: name,
            begin_snapshot: t.new_snapshot_id,
            ..t.state.tables[id]
        },
        id,
    )
}

/// A transaction in which a table was moved to a schema.
pub open spec fn table_moved(t: TransactionModel, id: u64, schema_id: u64) -> TransactionModel {
    table_altered(
        t,
        TableModel {
            schema_id,
            begin_snapshot: t.new_snapshot_id,
            ..t.state.tables[id]
        },
        id,
    )
}

/// A transaction in which a table was dropped.
pub open spec fn table_dropped(t: TransactionModel, id: u64) -> TransactionModel {
    logged(
        t,
        minus_table(t.state, id),
        OperationModel::DropTable { table_id: id },
    )
}

/// A transaction in which a column was renamed.
pub open spec fn column_renamed(
    t: TransactionModel,
    table_id: u64,
    column_id: u64,
    name: Seq<char>,
) -> TransactionModel {
    column_altered(
        t,
        table_id,
        ColumnModel {
            begin_snapshot: t.new_snapshot_id,
            column_name: name,
            ..t.state.columns[(table_id, column_id)]
        },
    )
}

/// A transaction in which a column was altered.
pub open spec fn column_changed(
    t: TransactionModel,
    table_id: u64,
    column_id: u64,
    alteration: ColumnAlterationSpec,
) -> TransactionModel {
    column_altered(
        t,
        table_id,
        altered(
            t.state.columns[(table_id, column_id)],
            alteration,
            t.new_snapshot_id,
        ),
    )
}

/// A transaction in which a column was dropped.
pub open spec fn column_dropped(
    t: TransactionModel,
    table_id: u64,
    column_id: u64,
) -> TransactionModel {
    logged(
        t,
        minus_column(t.state, table_id, column_id),
        OperationModel::AlterTable { table_id },
    )
}

/// A transaction in which a delete file was expired.
pub open spec fn delete_expired(t: TransactionModel, table_id: u64, id: u64) -> TransactionModel {
    logged(
        t,
        CatalogModel {
            delete_files: t.state.delete_files.remove((table_id, id)),
            ..t.state
        },
        OperationModel::ExpireDeleteFile { table_id },
    )
}

/// A transaction in which the statistics of a table were set.
pub open spec fn table_stats_set(
    t: TransactionModel,
    table_id: u64,
    record_count: u64,
    file_size_bytes: u64,
) -> TransactionModel {
    logged(
        t,
        CatalogModel {
            table_stats: t.state.table_stats.insert(
                t.state.table_stats[table_id].table_id,
                TableStatsModel {
                    record_count,
                    file_size_bytes,
                    ..t.state.table_stats[table_id]
                },
            ),
            ..t.state
        },
        OperationModel::UpdateStats { table_id },
    )
}

/// A transaction in which the definition of a view was replaced.
pub open spec fn view_altered(
    t: TransactionModel,
    id: u64,
    dialect: Seq<char>,
    sql: Seq<char>,
) -> TransactionModel {
    logged(
        t,
        CatalogModel {
            views: t.state.views.insert(
                t.state.views[id].view_id,
                ViewModel {
                    dialect,
                    sql,
                    begin_snapshot: t.new_snapshot_id,
                    ..t.state.views[id]
                },
            ),
            ..t.state
        },
        OperationModel::AlterView { view_id: id },
    )
}

/// A transaction in which a view was dropped.
pub open spec fn view_dropped(t: TransactionModel, id: u64) -> TransactionModel {
    logged(
        t,
        CatalogModel {
            views: t.state.views.remove(id),
            ..t.state
        },
        OperationModel::DropView { view_id: id },
    )
}

/// A transaction that begins on a catalog.
pub open spec fn begun(m: CatalogModel, new_snapshot_id: u64) -> TransactionModel {
    TransactionModel {
        state: m,
        ops: Seq::empty(),
        next_catalog_id: m.snapshot.next_catalog_id,
        next_file_id: m.snapshot.next_file_id,
        new_snapshot_id,
    }
}

impl Transaction {
    /// A transaction on a state, minting a snapshot.
    pub fn new(state: CatalogSnapshot, new_snapshot_id: u64) -> (t: Self)
        ensures
            t@ == (TransactionModel {
                state: state@,
                ops: Seq::empty(),
                next_catalog_id: state@.snapshot.next_catalog_id,
                next_file_id: state@.snapshot.next_file_id,
                new_snapshot_id,
            }),
            t@ == begun(state@, new_snapshot_id),
    {
        let next_catalog_id = state.snapshot.next_catalog_id;
        let next_file_id = state.snapshot.next_file_id;
        let t = Transaction {
            state,
            ops: Vec::new(),
            next_catalog_id,
            next_file_id,
            new_snapshot_id,
        };
        assert(t@.ops =~= Seq::<OperationModel>::empty());
        t
    }

    /// The log, the working state, and the two id counters.
    pub fn into_parts(self) -> (parts: (Vec<Operation>, CatalogSnapshot, u64, u64))
        ensures
            parts.0.deep_view() == self@.ops,
            parts.1@ == self@.state,
            parts.2 == self@.next_catalog_id,
            parts.3 == self@.next_file_id,
    {
        (self.ops, self.state, self.next_catalog_id, self.next_file_id)
    }

    /// The working state.
    pub fn state(&self) -> (s: &CatalogSnapshot)
        ensures
            s@ == self@.state,
    {
        &self.state
    }

    fn push_op(&mut self, op: Operation)
        ensures
            final(self)@ == (TransactionModel { ops: old(self)@.ops.push(op@), ..old(self)@ }),
    {
        let ghost before = self.ops.deep_view();
        self.ops.push(op);
        assert(self.ops.deep_view() =~= before.push(op@));
    }

    fn alloc_catalog_id(&mut self) -> (id: u64)
        requires
            old(self)@.next_catalog_id < u64::MAX,
        ensures
            id == old(self)@.next_catalog_id,
            final(self)@ == (TransactionModel { next_catalog_id: (id + 1) as u64, ..old(self)@ }),
    {
        let id = self.next_catalog_id;
        self.next_catalog_id = id + 1;
        id
    }

    fn alloc_file_id(&mut self) -> (id: u64)
        requires
            old(self)@.next_file_id < u64::MAX,
        ensures
            id == old(self)@.next_file_id,
            final(self)@ == (TransactionModel { next_file_id: (id + 1) as u64, ..old(self)@ }),
    {
        let id = self.next_file_id;
        self.next_file_id = id + 1;
        id
    }

    /// Creates a schema under a fresh random unique id.
    pub fn create_schema(&mut self, name: &str) -> (r: Result<SchemaId, Error>)
        requires
            create_schema_refusal(old(self)@, name@) is None ==> old(self)@.next_catalog_id
                < u64::MAX,
        ensures
            match create_schema_refusal(old(self)@, name@) {
                Some(f) => refused(r, f) && final(self)@ == old(self)@,
                None => r == Ok::<SchemaId, Error>(SchemaId { id: old(self)@.next_catalog_id })
                    && exists|uuid: Seq<char>| #[trigger]
                    uuid_text(uuid) && final(self)@ == schema_created(old(self)@, name@, uuid),
            },
    {
        let uuid = new_uuid();
        self.create_schema_as(name, uuid)
    }

    /// Creates a schema under a given unique id.
    pub fn create_schema_as(&mut self, name: &str, uuid: String) -> (r: Result<SchemaId, Error>)
        requires
            create_schema_refusal(old(self)@, name@) is None ==> old(self)@.next_catalog_id
                < u64::MAX,
        ensures
            match create_schema_refusal(old(self)@, name@) {
                Some(f) => refused(r, f) && final(self)@ == old(self)@,
                None => r == Ok::<SchemaId, Error>(SchemaId { id: old(self)@.next_catalog_id })
                    && final(self)@ == schema_created(old(self)@, name@, uuid@),
            },
    {
        match path_safe_name("schema", name) {
            Err(e) => return Err(e),
            Ok(()) => {},
        }
        let taken = self.state.schema_ids_named(name);
        if !taken.is_empty() {
            return Err(Error::AlreadyExists(text_wrapped("schema ", name, "")));
        }
        let schema_id = self.alloc_catalog_id();
        self.state.put_schema(
            SchemaValue {
                schema_id,
                schema_uuid: uuid,
                begin_snapshot: self.new_snapshot_id,
                end_snapshot: None,
                schema_name: text_wrapped("", name, ""),
                path: text_wrapped("", name, "/"),
                path_is_relative: true,
            },
        );
        proof {
            plain_text(name@);
        }
        self.push_op(Operation::CreateSchema { schema_id, name: text_wrapped("", name, "") });
        Ok(SchemaId::new(schema_id))
    }

    /// Drops a schema that has no tables or views left.
    pub fn drop_schema(&mut self, schema: SchemaId) -> (r: Result<(), Error>)
        ensures
            match drop_schema_refusal(old(self)@, schema.id) {
                Some(f) => refused(r, f) && final(self)@ == old(self)@,
                None => r is Ok && final(self)@ == schema_dropped(old(self)@, schema.id),
            },
    {
        let id = schema.get();
        if id == 0 {
            return Err(
                Error::Constraint("the bootstrap `main` schema cannot be dropped".to_owned()),
            );
        }
        if !self.state.schemas.contains_key(&id) {
            return Err(unknown_schema_error(id));
        }
        let tables = self.state.table_ids_under(id);
        if !tables.is_empty() {
            return Err(Error::Constraint(text_around("schema ", id, " still contains tables")));
        }
        let views = self.state.view_ids_under(id);
        if !views.is_empty() {
            return Err(Error::Constraint(text_around("schema ", id, " still contains views")));
        }
        self.state.delete_schema(id);
        self.push_op(Operation::DropSchema { schema_id: id });
        Ok(())
    }

    /// Refuses a name that a table or view of the schema already has.
    fn relation_name_free(&self, schema_id: u64, name: &str) -> (r: Result<(), Error>)
        ensures
            if relation_taken(self@.state, schema_id, name@) {
                refused(r, name_taken(name@))
            } else {
                r is Ok
            },
    {
        if self.state.is_relation_taken(schema_id, name) {
            return Err(Error::AlreadyExists(text_wrapped("relation ", name, "")));
        }
        Ok(())
    }

    /// A live table.
    fn live_table(&self, table: TableId) -> (r: Result<TableValue, Error>)
        ensures
            if self@.state.tables.contains_key(table.id) {
                r is Ok && r->Ok_0@ == self@.state.tables[table.id]
            } else {
                refused(r, unknown_table(table.id))
            },
    {
        match self.state.tables.get(&table.id) {
            Some(t) => Ok(t.dup()),
            None => Err(unknown_table_error(table.id)),
        }
    }

    /// Creates a table with its columns under a fresh random unique id.
    pub fn create_table(&mut self, schema: SchemaId, name: &str, columns: &[ColumnDef]) -> (r: Result<
        TableId,
        Error,
    >)
        requires
            columns@.len() < u64::MAX,
            create_table_refusal(old(self)@, schema.id, name@, columns.deep_view()) is None ==> old(
                self,
            )@.next_catalog_id < u64::MAX,
        ensures
            match create_table_refusal(old(self)@, schema.id, name@, columns.deep_view()) {
                Some(f) => refused(r, f) && final(self)@ == old(self)@,
                None => r == Ok::<TableId, Error>(TableId { id: old(self)@.next_catalog_id })
                    && exists|uuid: Seq<char>| #[trigger]
                    uuid_text(uuid) && final(self)@ == table_created(
                        old(self)@,
                        schema.id,
                        name@,
                        columns.deep_view(),
                        uuid,
                    ),
            },
    {
        let uuid = new_uuid();
        self.create_table_as(schema, name, columns, uuid)
    }

    /// Creates a table with its columns under a given unique id.
    pub fn create_table_as(
        &mut self,
        schema: SchemaId,
        name: &str,
        columns: &[ColumnDef],
        uuid: String,
    ) -> (r: Result<TableId, Error>)
        requires
            columns@.len() < u64::MAX,
            create_table_refusal(old(self)@, schema.id, name@, columns.deep_view()) is None ==> old(
                self,
            )@.next_catalog_id < u64::MAX,
        ensures
            match create_table_refusal(old(self)@, schema.id, name@, columns.deep_view()) {
                Some(f) => refused(r, f) && final(self)@ == old(self)@,
                None => r == Ok::<TableId, Error>(TableId { id: old(self)@.next_catalog_id })
                    && final(self)@ == table_created(
                    old(self)@,
                    schema.id,
                    name@,
                    columns.deep_view(),
                    uuid@,
                ),
            },
    {
        let schema_name = match self.state.schemas.get(&schema.id) {
            Some(s) => s.schema_name.clone(),
            None => return Err(unknown_schema_error(schema.id)),
        };
        match path_safe_name("table", name) {
            Err(e) => return Err(e),
            Ok(()) => {},
        }
        match self.relation_name_free(schema.id, name) {
            Err(e) => return Err(e),
            Ok(()) => {},
        }
        if columns.len() == 0 {
            return Err(
                Error::Constraint(text_wrapped("table ", name, " needs at least one column")),
            );
        }
        match check_column_defs(columns) {
            Err(e) => return Err(e),
            Ok(()) => {},
        }
        let table_id = self.alloc_catalog_id();
        self.state.put_table(
            TableValue {
                table_id,
                table_uuid: uuid,
                begin_snapshot: self.new_snapshot_id,
                end_snapshot: None,
                schema_id: schema.id,
                table_name: text_wrapped("", name, ""),
                path: text_wrapped("", name, "/"),
                path_is_relative: true,
                next_column_id: columns.len() as u64 + 1,
            },
        );
        let begin_snapshot = self.new_snapshot_id;
        put_columns(&mut self.state, table_id, begin_snapshot, columns);
        self.state.put_table_stats(
            TableStatsValue { table_id, record_count: 0, next_row_id: 0, file_size_bytes: 0 },
        );
        proof {
            plain_text(name@);
        }
        self.push_op(
            Operation::CreateTable {
                schema_id: schema.id,
                table_id,
                schema_name,
                table_name: text_wrapped("", name, ""),
            },
        );
        Ok(TableId::new(table_id))
    }

    fn mark_altered(&mut self, table_id: u64)
        ensures
            final(self)@ == (TransactionModel {
                ops: old(self)@.ops.push(OperationModel::AlterTable { table_id }),
                ..old(self)@
            }),
    {
        self.push_op(Operation::AlterTable { table_id });
    }

    /// Renames a table within its schema. The current name is taken, too.
    pub fn rename_table(&mut self, table: TableId, new_name: &str) -> (r: Result<(), Error>)
        ensures
            match rename_table_refusal(old(self)@, table.id, new_name@) {
                Some(f) => refused(r, f) && final(self)@ == old(self)@,
                None => r is Ok && final(self)@ == table_renamed(old(self)@, table.id, new_name@),
            },
    {
        match path_safe_name("table", new_name) {
            Err(e) => return Err(e),
            Ok(()) => {},
        }
        let mut value = match self.live_table(table) {
            Err(e) => return Err(e),
            Ok(value) => value,
        };
        match self.relation_name_free(value.schema_id, new_name) {
            Err(e) => return Err(e),
            Ok(()) => {},
        }
        value.table_name = text_wrapped("", new_name, "");
        value.begin_snapshot = self.new_snapshot_id;
        self.state.put_table(value);
        proof {
            plain_text(new_name@);
        }
        self.mark_altered(table.id);
        Ok(())
    }

    /// Moves a table to another schema. Its name must be free there, so a move
    /// to the current schema is refused.
    pub fn set_table_schema(&mut self, table: TableId, new_schema: SchemaId) -> (r: Result<(), Error>)
        ensures
            match move_table_refusal(old(self)@, table.id, new_schema.id) {
                Some(f) => refused(r, f) && final(self)@ == old(self)@,
                None => r is Ok && final(self)@ == table_moved(old(self)@, table.id, new_schema.id),
            },
    {
        if !self.state.schemas.contains_key(&new_schema.id) {
            return Err(unknown_schema_error(new_schema.id));
        }
        let mut value = match self.live_table(table) {
            Err(e) => return Err(e),
            Ok(value) => value,
        };
        match self.relation_name_free(new_schema.id, value.table_name.as_str()) {
            Err(e) => return Err(e),
            Ok(()) => {},
        }
        value.schema_id = new_schema.id;
        value.begin_snapshot = self.new_snapshot_id;
        self.state.put_table(value);
        self.mark_altered(table.id);
        Ok(())
    }

    /// Drops a table with everything that goes with it.
    pub fn drop_table(&mut self, table: TableId) -> (r: Result<(), Error>)
        ensures
            if old(self)@.state.tables.contains_key(table.id) {
                r is Ok && final(self)@ == table_dropped(old(self)@, table.id)
            } else {
                refused(r, unknown_table(table.id)) && final(self)@ == old(self)@
            },
    {
        match self.live_table(table) {
            Err(e) => return Err(e),
            Ok(_) => {},
        }
        self.state.delete_table(table.id);
        self.push_op(Operation::DropTable { table_id: table.id });
        Ok(())
    }

    /// A live column.
    fn live_column(&self, table: TableId, column: ColumnId) -> (r: Result<ColumnValue, Error>)
        ensures
            if self@.state.columns.contains_key((table.id, column.id)) {
                r is Ok && r->Ok_0@ == self@.state.columns[(table.id, column.id)]
            } else {
                refused(r, unknown_column(table.id, column.id))
            },
    {
        match self.state.columns.get(&(table.id, column.id)) {
            Some(c) => Ok(c.dup()),
            None => Err(unknown_column_error(table.id, column.id)),
        }
    }

    /// Refuses a name that a column of the table already has.
    fn column_name_free(&self, table: TableId, name: &str) -> (r: Result<(), Error>)
        ensures
            if columns_named(self@.state, table.id, name@) != Set::<(u64, u64)>::empty() {
                refused(r, column_taken(name@))
            } else {
                r is Ok
            },
    {
        let taken = self.state.column_ids_named(table.id, name);
        if !taken.is_empty() {
            return Err(Error::AlreadyExists(text_wrapped("column ", name, "")));
        }
        Ok(())
    }

    /// Adds a column behind the others. Its id comes from the table's counter,
    /// floored above every live id, and is never used again.
    pub fn add_column(&mut self, table: TableId, def: &ColumnDef) -> (r: Result<ColumnId, Error>)
        requires
            add_column_refusal(old(self)@, table.id, def@.name) is None ==> next_column(
                old(self)@.state,
                table.id,
            ) < u64::MAX && next_position(old(self)@.state, table.id) <= u64::MAX,
        ensures
            match add_column_refusal(old(self)@, table.id, def@.name) {
                Some(f) => refused(r, f) && final(self)@ == old(self)@,
                None => r == Ok::<ColumnId, Error>(
                    ColumnId { id: next_column(old(self)@.state, table.id) as u64 },
                ) && final(self)@ == column_added(old(self)@, table.id, def@),
            },
    {
        match nonempty_name("column", def.name.as_str()) {
            Err(e) => return Err(e),
            Ok(()) => {},
        }
        let mut value = match self.live_table(table) {
            Err(e) => return Err(e),
            Ok(value) => value,
        };
        match self.column_name_free(table, def.name.as_str()) {
            Err(e) => return Err(e),
            Ok(()) => {},
        }
        let (column_id, position) = next_column_slot(&self.state, value.next_column_id, table.id);
        self.state.put_column(
            new_column(table.id, column_id, position, self.new_snapshot_id, def),
        );
        value.next_column_id = column_id + 1;
        value.begin_snapshot = self.new_snapshot_id;
        self.state.put_table(value);
        self.mark_altered(table.id);
        Ok(ColumnId::new(column_id))
    }

    /// Renames a column. The current name is taken, too.
    pub fn rename_column(&mut self, table: TableId, column: ColumnId, new_name: &str) -> (r: Result<
        (),
        Error,
    >)
        ensures
            match rename_column_refusal(old(self)@, table.id, column.id, new_name@) {
                Some(f) => refused(r, f) && final(self)@ == old(self)@,
                None => r is Ok && final(self)@ == column_renamed(
                    old(self)@,
                    table.id,
                    column.id,
                    new_name@,
                ),
            },
    {
        match nonempty_name("column", new_name) {
            Err(e) => return Err(e),
            Ok(()) => {},
        }
        match self.column_name_free(table, new_name) {
            Err(e) => return Err(e),
            Ok(()) => {},
        }
        let mut value = match self.live_column(table, column) {
            Err(e) => return Err(e),
            Ok(value) => value,
        };
        value.begin_snapshot = self.new_snapshot_id;
        value.column_name = text_wrapped("", new_name, "");
        self.state.put_column(value);
        proof {
            plain_text(new_name@);
        }
        self.mark_altered(table.id);
        Ok(())
    }

    /// Changes a column's type, nullability or default. The type of an indexed
    /// column stays.
    pub fn alter_column(&mut self, table: TableId, column: ColumnId, alteration: ColumnAlteration) -> (r:
        Result<(), Error>)
        ensures
            match alter_column_refusal(old(self)@, table.id, column.id, alteration@) {
                Some(f) => refused(r, f) && final(self)@ == old(self)@,
                None => r is Ok && final(self)@ == column_changed(
                    old(self)@,
                    table.id,
                    column.id,
                    alteration@,
                ),
            },
    {
        let mut value = match self.live_column(table, column) {
            Err(e) => return Err(e),
            Ok(value) => value,
        };
        let ColumnAlteration { column_type, nulls_allowed, default_value } = alteration;
        match column_type {
            Some(v) => {
                if !v.same(&value.column_type) && has_index_on(&self.state, table.id, column.id) {
                    return Err(indexed_column_error(table.id, column.id));
                }
                value.column_type = v;
            },
            None => {},
        }
        match nulls_allowed {
            Some(v) => {
                value.nulls_allowed = v;
            },
            None => {},
        }
        match default_value {
            Some(v) => {
                value.default_value = v;
            },
            None => {},
        }
        value.begin_snapshot = self.new_snapshot_id;
        self.state.put_column(value);
        self.mark_altered(table.id);
        Ok(())
    }

    /// Drops a column that is not the last of its table and not indexed.
    pub fn drop_column(&mut self, table: TableId, column: ColumnId) -> (r: Result<(), Error>)
        ensures
            match drop_column_refusal(old(self)@, table.id, column.id) {
                Some(f) => refused(r, f) && final(self)@ == old(self)@,
                None => r is Ok && final(self)@ == column_dropped(old(self)@, table.id, column.id),
            },
    {
        match self.live_column(table, column) {
            Err(e) => return Err(e),
            Ok(_) => {},
        }
        if is_last_column(&self.state, table.id, column.id) {
            return Err(
                Error::Constraint(
                    text_around_two(
                        "column ",
                        column.id,
                        " is the last column of table ",
                        table.id,
                        "",
                    ),
                ),
            );
        }
        if has_index_on(&self.state, table.id, column.id) {
            return Err(indexed_column_error(table.id, column.id));
        }
        self.state.delete_column(table.id, column.id);
        self.mark_altered(table.id);
        Ok(())
    }
}

// ---------------------------------------------------------------------------
// Files and statistics
// ---------------------------------------------------------------------------

/// The sum, held at the largest number.
pub open spec fn plus(a: u64, b: u64) -> u64 {
    if a + b <= u64::MAX {
        (a + b) as u64
    } else {
        u64::MAX
    }
}

/// The difference, held at zero.
pub open spec fn minus(a: u64, b: u64) -> u64 {
    if a >= b {
        (a - b) as u64
    } else {
        0
    }
}

pub open spec fn no_stats(table_id: u64) -> Fault {
    Fault::Corruption(around("table "@, table_id, " has no statistics record"@))
}

pub open spec fn unknown_data_file(table_id: u64, id: u64) -> Fault {
    Fault::NotFound(around_two("data file "@, id, " of table "@, table_id, ""@))
}

pub fn unknown_data_file_error(table_id: u64, id: u64) -> (e: Error)
    ensures
        e@ == unknown_data_file(table_id, id),
{
    Error::NotFound(text_around_two("data file ", id, " of table ", table_id, ""))
}

pub open spec fn unknown_delete_file(table_id: u64, id: u64) -> Fault {
    Fault::NotFound(around_two("delete file "@, id, " of table "@, table_id, ""@))
}

/// Why per-column statistics are refused: the first that names no live column.
pub open spec fn stat_columns_refusal(
    m: CatalogModel,
    table_id: u64,
    stats: Seq<FileColumnStatsSpec>,
) -> Option<Fault>
    decreases stats.len(),
{
    if stats.len() == 0 {
        None
    } else {
        match stat_columns_refusal(m, table_id, stats.drop_last()) {
            Some(f) => Some(f),
            None => if m.columns.contains_key((table_id, stats.last().column_id.id)) {
                None
            } else {
                Some(unknown_column(table_id, stats.last().column_id.id))
            },
        }
    }
}

/// Why a data file cannot be registered, before an id is spent on it.
pub open spec fn register_file_refusal(
    t: TransactionModel,
    table_id: u64,
    file: DataFileSpec,
) -> Option<Fault> {
    if !t.state.tables.contains_key(table_id) {
        Some(unknown_table(table_id))
    } else {
        stat_columns_refusal(t.state, table_id, file.column_stats)
    }
}

/// Per-column statistics of a data file.
pub open spec fn file_stats(
    table_id: u64,
    data_file_id: u64,
    s: FileColumnStatsSpec,
) -> FileColumnStatsModel {
    FileColumnStatsModel {
        data_file_id,
        table_id,
        column_id: s.column_id.id,
        column_size_bytes: s.column_size_bytes,
        value_count: s.value_count,
        null_count: s.null_count,
        min_value: s.min_value,
        max_value: s.max_value,
        contains_nan: s.contains_nan,
        extra_stats: s.extra_stats,
        variant_stats: Seq::empty(),
    }
}

/// The per-file statistics with those of a new file put in.
pub open spec fn with_file_stats(
    m: Map<(u64, (u64, u64)), FileColumnStatsModel>,
    table_id: u64,
    data_file_id: u64,
    stats: Seq<FileColumnStatsSpec>,
) -> Map<(u64, (u64, u64)), FileColumnStatsModel>
    decreases stats.len(),
{
    if stats.len() == 0 {
        m
    } else {
        let s = stats.last();
        with_file_stats(m, table_id, data_file_id, stats.drop_last()).insert(
            (table_id, (data_file_id, s.column_id.id)),
            file_stats(table_id, data_file_id, s),
        )
    }
}

/// The transaction after a data file was registered: its rows get the next
/// row ids, and its size goes into the table's statistics.
pub open spec fn file_registered(
    t: TransactionModel,
    table_id: u64,
    file: DataFileSpec,
) -> TransactionModel {
    let id = t.next_file_id;
    let stats = t.state.table_stats[table_id];
    let value = DataFileModel {
        data_file_id: id,
        table_id,
        begin_snapshot: t.new_snapshot_id,
        end_snapshot: None,
        file_order: None,
        path: file.path,
        path_is_relative: file.path_is_relative,
        file_format: file.file_format,
        record_count: file.record_count,
        file_size_bytes: file.file_size_bytes,
        footer_size: file.footer_size,
        row_id_start: Some(stats.next_row_id),
        partition_id: None,
        encryption_key: file.encryption_key,
        mapping_id: None,
        partial_max: None,
        partition_values: Seq::empty(),
    };
    let new_stats = TableStatsModel {
        next_row_id: plus(stats.next_row_id, file.record_count),
        record_count: plus(stats.record_count, file.record_count),
        file_size_bytes: plus(stats.file_size_bytes, file.file_size_bytes),
        ..stats
    };
    TransactionModel {
        next_file_id: (id + 1) as u64,
        ..logged(
            t,
            CatalogModel {
                table_stats: t.state.table_stats.insert(stats.table_id, new_stats),
                data_files: t.state.data_files.insert((table_id, id), value),
                file_column_stats: with_file_stats(
                    t.state.file_column_stats,
                    table_id,
                    id,
                    file.column_stats,
                ),
                ..t.state
            },
            OperationModel::RegisterDataFile { table_id },
        )
    }
}

/// The state without a data file and the delete files that target it.
pub open spec fn minus_data_file(m: CatalogModel, table_id: u64, id: u64) -> CatalogModel {
    CatalogModel {
        data_files: m.data_files.remove((table_id, id)),
        delete_files: m.delete_files.remove_keys(delete_files_on(m, table_id, id)),
        ..m
    }
}

/// The transaction after a data file expired: its share leaves the table's
/// statistics; the row-id counter stays where it is.
pub open spec fn file_expired(t: TransactionModel, table_id: u64, id: u64) -> TransactionModel {
    let file = t.state.data_files[(table_id, id)];
    let stats = t.state.table_stats[table_id];
    let new_stats = TableStatsModel {
        record_count: minus(stats.record_count, file.record_count),
        file_size_bytes: minus(stats.file_size_bytes, file.file_size_bytes),
        ..stats
    };
    logged(
        t,
        CatalogModel {
            table_stats: t.state.table_stats.insert(stats.table_id, new_stats),
            ..minus_data_file(t.state, table_id, id)
        },
        OperationModel::ExpireDataFile { table_id },
    )
}

/// Why a delete file cannot be registered: its target must be live, and have
/// no live delete file yet.
pub open spec fn register_delete_refusal(
    t: TransactionModel,
    table_id: u64,
    data_file_id: u64,
) -> Option<Fault> {
    if !t.state.tables.contains_key(table_id) {
        Some(unknown_table(table_id))
    } else if !t.state.data_files.contains_key((table_id, data_file_id)) {
        Some(unknown_data_file(table_id, data_file_id))
    } else if delete_files_on(t.state, table_id, data_file_id) != Set::<(u64, u64)>::empty() {
        Some(
            Fault::Constraint(
                around_two(
                    "data file "@,
                    data_file_id,
                    " of table "@,
                    table_id,
                    " already has a live delete file; expire it first"@,
                ),
            ),
        )
    } else {
        None
    }
}

/// The transaction after a delete file was registered.
pub open spec fn delete_registered(
    t: TransactionModel,
    table_id: u64,
    file: DeleteFileSpec,
) -> TransactionModel {
    let id = t.next_file_id;
    let value = DeleteFileModel {
        delete_file_id: id,
        table_id,
        begin_snapshot: t.new_snapshot_id,
        end_snapshot: None,
        data_file_id: file.data_file_id.id,
        path: file.path,
        path_is_relative: file.path_is_relative,
        format: file.format,
        delete_count: file.delete_count,
        file_size_bytes: file.file_size_bytes,
        footer_size: file.footer_size,
        encryption_key: file.encryption_key,
        partial_max: None,
    };
    TransactionModel {
        next_file_id: (id + 1) as u64,
        ..logged(
            t,
            CatalogModel {
                delete_files: t.state.delete_files.insert((table_id, id), value),
                ..t.state
            },
            OperationModel::RegisterDeleteFile { table_id },
        )
    }
}

/// Why a table's statistics cannot be overridden.
pub open spec fn update_stats_refusal(t: TransactionModel, table_id: u64) -> Option<Fault> {
    if !t.state.tables.contains_key(table_id) {
        Some(unknown_table(table_id))
    } else if !t.state.table_stats.contains_key(table_id) {
        Some(no_stats(table_id))
    } else {
        None
    }
}

/// The transaction after a column's statistics were overridden.
pub open spec fn column_stats_set(
    t: TransactionModel,
    table_id: u64,
    column_id: u64,
    s: ColumnStatsSpec,
) -> TransactionModel {
    let value = TableColumnStatsModel {
        table_id,
        column_id,
        contains_null: s.contains_null,
        contains_nan: s.contains_nan,
        min_value: s.min_value,
        max_value: s.max_value,
        extra_stats: s.extra_stats,
    };
    logged(
        t,
        CatalogModel {
            table_column_stats: t.state.table_column_stats.insert((table_id, column_id), value),
            ..t.state
        },
        OperationModel::UpdateStats { table_id },
    )
}

// ---------------------------------------------------------------------------
// Views
// ---------------------------------------------------------------------------

pub open spec fn unknown_view(id: u64) -> Fault {
    Fault::NotFound(around("view "@, id, ""@))
}

/// Why a view cannot be created.
pub open spec fn create_view_refusal(t: TransactionModel, schema_id: u64, name: Seq<char>) -> Option<
    Fault,
> {
    if unsafe_name("view"@, name) is Some {
        unsafe_name("view"@, name)
    } else if !t.state.schemas.contains_key(schema_id) {
        Some(unknown_schema(schema_id))
    } else if relation_taken(t.state, schema_id, name) {
        Some(name_taken(name))
    } else {
        None
    }
}

/// The transaction after a view was created.
pub open spec fn view_created(
    t: TransactionModel,
    schema_id: u64,
    name: Seq<char>,
    dialect: Seq<char>,
    sql: Seq<char>,
    uuid: Seq<char>,
) -> TransactionModel {
    let id = t.next_catalog_id;
    let view = ViewModel {
        view_id: id,
        view_uuid: uuid,
        begin_snapshot: t.new_snapshot_id,
        end_snapshot: None,
        schema_id,
        view_name: name,
        dialect,
        sql,
        column_aliases: None,
    };
    TransactionModel {
        next_catalog_id: (id + 1) as u64,
        ..logged(
            t,
            CatalogModel { views: t.state.views.insert(id, view), ..t.state },
            OperationModel::CreateView {
                schema_id,
                view_id: id,
                schema_name: t.state.schemas[schema_id].schema_name,
                view_name: name,
            },
        )
    }
}

// ---------------------------------------------------------------------------
// Options
// ---------------------------------------------------------------------------

/// Why a scope is refused: its schema or table is not live.
pub open spec fn scope_refusal(m: CatalogModel, scope: OptionScope) -> Option<Fault> {
    match scope {
        OptionScope::Global => None,
        OptionScope::Schema(s) => if m.schemas.contains_key(s.id) {
            None
        } else {
            Some(unknown_schema(s.id))
        },
        OptionScope::Table(t) => if m.tables.contains_key(t.id) {
            None
        } else {
            Some(unknown_table(t.id))
        },
    }
}

/// Why an option is refused: whether files are encrypted is fixed when the
/// catalog is created.
pub open spec fn reserved_refusal(scope: OptionScope, key: Seq<char>) -> Option<Fault> {
    if scope == OptionScope::Global && key == "encrypted"@ {
        Some(
            Fault::Constraint("the global `encrypted` option is fixed at catalog creation"@),
        )
    } else {
        None
    }
}

/// Why an option cannot be set.
pub open spec fn set_option_refusal(t: TransactionModel, scope: OptionScope, key: Seq<char>) -> Option<
    Fault,
> {
    if key.len() == 0 {
        empty_name("option key"@, key)
    } else {
        unset_option_refusal(t, scope, key)
    }
}

/// Why an option cannot be unset.
pub open spec fn unset_option_refusal(
    t: TransactionModel,
    scope: OptionScope,
    key: Seq<char>,
) -> Option<Fault> {
    if scope_refusal(t.state, scope) is Some {
        scope_refusal(t.state, scope)
    } else {
        reserved_refusal(scope, key)
    }
}

/// The options of a scope.
pub open spec fn options_at(m: CatalogModel, scope: OptionScope) -> Map<Seq<char>, Seq<char>> {
    if m.options.contains_key(scope_key(scope)) {
        m.options[scope_key(scope)].options
    } else {
        Map::empty()
    }
}

/// The transaction with an option set; options leave no operation behind.
pub open spec fn option_set(
    t: TransactionModel,
    scope: OptionScope,
    key: Seq<char>,
    value: Seq<char>,
) -> TransactionModel {
    let record = OptionScopeModel { options: options_at(t.state, scope).insert(key, value) };
    TransactionModel {
        state: CatalogModel {
            options: t.state.options.insert(scope_key(scope), record),
            ..t.state
        },
        ..t
    }
}

/// The transaction with an option unset; a scope that is left without options
/// has no record.
pub open spec fn option_unset(
    t: TransactionModel,
    scope: OptionScope,
    key: Seq<char>,
) -> TransactionModel {
    let before = options_at(t.state, scope);
    let left = before.remove(key);
    if !before.contains_key(key) {
        t
    } else if left == Map::<Seq<char>, Seq<char>>::empty() {
        TransactionModel {
            state: CatalogModel { options: t.state.options.remove(scope_key(scope)), ..t.state },
            ..t
        }
    } else {
        TransactionModel {
            state: CatalogModel {
                options: t.state.options.insert(
                    scope_key(scope),
                    OptionScopeModel { options: left },
                ),
                ..t.state
            },
            ..t
        }
    }
}

impl Transaction {
    /// A table's statistics record, which every table has.
    fn live_table_stats(&self, table: TableId) -> (r: Result<TableStatsValue, Error>)
        ensures
            if self@.state.table_stats.contains_key(table.id) {
                r is Ok && r->Ok_0@ == self@.state.table_stats[table.id]
            } else {
                refused(r, no_stats(table.id))
            },
    {
        match self.state.table_stats.get(&table.id) {
            Some(s) => Ok(s.dup()),
            None => Err(
                Error::Corruption(text_around("table ", table.id, " has no statistics record")),
            ),
        }
    }

    /// Refuses statistics that name a column that is not live.
    fn stat_columns_live(&self, table: TableId, stats: &Vec<FileColumnStats>) -> (r: Result<(), Error>)
        ensures
            match stat_columns_refusal(self@.state, table.id, stats.deep_view()) {
                Some(f) => refused(r, f),
                None => r is Ok,
            },
    {
        let ghost q = stats.deep_view();
        let mut i: usize = 0;
        assert(q.take(0) =~= Seq::<FileColumnStatsSpec>::empty());
        while i < stats.len()
            invariant
                i <= stats@.len(),
                q == stats.deep_view(),
                stat_columns_refusal(self@.state, table.id, q.take(i as int)) is None,
            decreases stats.len() - i,
        {
            let ghost next = q.take(i + 1);
            assert(next.drop_last() =~= q.take(i as int));
            assert(next.last() == stats@[i as int]@);
            match self.live_column(table, stats[i].column_id) {
                Err(e) => {
                    proof {
                        stat_refusal_stays(self@.state, table.id, q, i + 1);
                    }
                    return Err(e);
                },
                Ok(_) => {},
            }
            i = i + 1;
        }
        assert(q.take(q.len() as int) =~= q);
        Ok(())
    }

    /// Registers a data file: its rows get a dense range of row ids, and its
    /// size goes into the table's statistics. A table without a statistics
    /// record is corrupt; the file id is spent all the same.
    pub fn register_data_file(&mut self, table: TableId, file: DataFile) -> (r: Result<
        DataFileId,
        Error,
    >)
        requires
            register_file_refusal(old(self)@, table.id, file@) is None ==> old(self)@.next_file_id
                < u64::MAX,
        ensures
            match register_file_refusal(old(self)@, table.id, file@) {
                Some(f) => refused(r, f) && final(self)@ == old(self)@,
                None => if old(self)@.state.table_stats.contains_key(table.id) {
                    r == Ok::<DataFileId, Error>(DataFileId { id: old(self)@.next_file_id })
                        && final(self)@ == file_registered(old(self)@, table.id, file@)
                } else {
                    refused(r, no_stats(table.id)) && final(self)@ == (TransactionModel {
                        next_file_id: (old(self)@.next_file_id + 1) as u64,
                        ..old(self)@
                    })
                },
            },
    {
        match self.live_table(table) {
            Err(e) => return Err(e),
            Ok(_) => {},
        }
        match self.stat_columns_live(table, &file.column_stats) {
            Err(e) => return Err(e),
            Ok(()) => {},
        }
        let data_file_id = self.alloc_file_id();
        let mut stats = match self.live_table_stats(table) {
            Err(e) => return Err(e),
            Ok(stats) => stats,
        };
        let row_id_start = stats.next_row_id;
        stats.next_row_id = stats.next_row_id.saturating_add(file.record_count);
        stats.record_count = stats.record_count.saturating_add(file.record_count);
        stats.file_size_bytes = stats.file_size_bytes.saturating_add(file.file_size_bytes);
        self.state.put_table_stats(stats);
        let value = DataFileValue {
            data_file_id,
            table_id: table.id,
            begin_snapshot: self.new_snapshot_id,
            end_snapshot: None,
            file_order: None,
            path: file.path,
            path_is_relative: file.path_is_relative,
            file_format: file.file_format,
            record_count: file.record_count,
            file_size_bytes: file.file_size_bytes,
            footer_size: file.footer_size,
            row_id_start: Some(row_id_start),
            partition_id: None,
            encryption_key: file.encryption_key,
            mapping_id: None,
            partial_max: None,
            partition_values: Vec::new(),
        };
        assert(value@.partition_values =~= Seq::empty());
        self.state.put_data_file(value);
        self.put_stats_of_file(table.id, data_file_id, &file.column_stats);
        self.push_op(Operation::RegisterDataFile { table_id: table.id });
        Ok(DataFileId::new(data_file_id))
    }

    /// Puts the per-column statistics of a new data file.
    fn put_stats_of_file(&mut self, table_id: u64, data_file_id: u64, stats: &Vec<FileColumnStats>)
        ensures
            final(self)@ == (TransactionModel {
                state: CatalogModel {
                    file_column_stats: with_file_stats(
                        old(self)@.state.file_column_stats,
                        table_id,
                        data_file_id,
                        stats.deep_view(),
                    ),
                    ..old(self)@.state
                },
                ..old(self)@
            }),
    {
        let ghost q = stats.deep_view();
        let mut i: usize = 0;
        assert(q.take(0) =~= Seq::<FileColumnStatsSpec>::empty());
        while i < stats.len()
            invariant
                i <= stats@.len(),
                q == stats.deep_view(),
                self@ == (TransactionModel {
                    state: CatalogModel {
                        file_column_stats: with_file_stats(
                            old(self)@.state.file_column_stats,
                            table_id,
                            data_file_id,
                            q.take(i as int),
                        ),
                        ..old(self)@.state
                    },
                    ..old(self)@
                }),
            decreases stats.len() - i,
        {
            proof {
                let next = q.take(i + 1);
                assert(next.drop_last() =~= q.take(i as int));
                assert(next.last() == stats@[i as int]@);
            }
            let s = &stats[i];
            let value = FileColumnStatsValue {
                data_file_id,
                table_id,
                column_id: s.column_id.id,
                column_size_bytes: s.column_size_bytes,
                value_count: s.value_count,
                null_count: s.null_count,
                min_value: s.min_value.dup(),
                max_value: s.max_value.dup(),
                contains_nan: s.contains_nan,
                extra_stats: s.extra_stats.dup(),
                variant_stats: Vec::new(),
            };
            assert(value@.variant_stats =~= Seq::empty());
            self.state.put_file_column_stats(value);
            i = i + 1;
        }
        assert(q.take(q.len() as int) =~= q);
    }

    /// Expires a data file and the delete files that target it. A table
    /// without a statistics record is corrupt; the files are gone all the
    /// same.
    pub fn expire_data_file(&mut self, table: TableId, file: DataFileId) -> (r: Result<(), Error>)
        ensures
            if !old(self)@.state.data_files.contains_key((table.id, file.id)) {
                refused(r, unknown_data_file(table.id, file.id)) && final(self)@ == old(self)@
            } else if old(self)@.state.table_stats.contains_key(table.id) {
                r is Ok && final(self)@ == file_expired(old(self)@, table.id, file.id)
            } else {
                refused(r, no_stats(table.id)) && final(self)@ == (TransactionModel {
                    state: minus_data_file(old(self)@.state, table.id, file.id),
                    ..old(self)@
                })
            },
    {
        let data_file = match self.state.data_files.get(&(table.id, file.id)) {
            Some(f) => f.dup(),
            None => return Err(unknown_data_file_error(table.id, file.id)),
        };
        let targeting = self.state.delete_file_ids_on(table.id, file.id);
        self.remove_delete_files(&targeting);
        self.state.delete_data_file(table.id, file.id);
        let mut stats = match self.live_table_stats(table) {
            Err(e) => return Err(e),
            Ok(stats) => stats,
        };
        stats.record_count = stats.record_count.saturating_sub(data_file.record_count);
        stats.file_size_bytes = stats.file_size_bytes.saturating_sub(data_file.file_size_bytes);
        self.state.put_table_stats(stats);
        self.push_op(Operation::ExpireDataFile { table_id: table.id });
        Ok(())
    }

    /// Removes a set of delete files.
    fn remove_delete_files(&mut self, ids: &OrdSet<(u64, u64)>)
        ensures
            final(self)@ == (TransactionModel {
                state: CatalogModel {
                    delete_files: old(self)@.state.delete_files.remove_keys(ids@),
                    ..old(self)@.state
                },
                ..old(self)@
            }),
    {
        let items = ids.items();
        let ghost q = items.deep_view();
        let mut i: usize = 0;
        assert(self@.state.delete_files.remove_keys(q.take(0).to_set())
            =~= self@.state.delete_files);
        while i < items.len()
            invariant
                i <= items@.len(),
                q == items.deep_view(),
                self@ == (TransactionModel {
                    state: CatalogModel {
                        delete_files: old(self)@.state.delete_files.remove_keys(
                            q.take(i as int).to_set(),
                        ),
                        ..old(self)@.state
                    },
                    ..old(self)@
                }),
            decreases items.len() - i,
        {
            assert(q[i as int] == items@[i as int]);
            let ghost before = self@.state.delete_files;
            self.state.delete_delete_file(items[i].0, items[i].1);
            proof {
                let x = q[i as int];
                assert(q.take(i + 1) =~= q.take(i as int).push(x));
                crate::ordered::pushed_elements(q.take(i as int), x);
                assert(before.remove(x) =~= old(self)@.state.delete_files.remove_keys(
                    q.take(i + 1).to_set(),
                ));
            }
            i = i + 1;
        }
        assert(q.take(q.len() as int) =~= q);
    }

    /// Registers a delete file for a live data file that has none yet. Delete
    /// files do not change the table's statistics.
    pub fn register_delete_file(&mut self, table: TableId, file: DeleteFile) -> (r: Result<
        DeleteFileId,
        Error,
    >)
        requires
            register_delete_refusal(old(self)@, table.id, file@.data_file_id.id) is None ==> old(
                self,
            )@.next_file_id < u64::MAX,
        ensures
            match register_delete_refusal(old(self)@, table.id, file@.data_file_id.id) {
                Some(f) => refused(r, f) && final(self)@ == old(self)@,
                None => r == Ok::<DeleteFileId, Error>(
                    DeleteFileId { id: old(self)@.next_file_id },
                ) && final(self)@ == delete_registered(old(self)@, table.id, file@),
            },
    {
        match self.live_table(table) {
            Err(e) => return Err(e),
            Ok(_) => {},
        }
        let target = file.data_file_id.id;
        if !self.state.data_files.contains_key(&(table.id, target)) {
            return Err(unknown_data_file_error(table.id, target));
        }
        let targeting = self.state.delete_file_ids_on(table.id, target);
        if !targeting.is_empty() {
            return Err(
                Error::Constraint(
                    text_around_two(
                        "data file ",
                        target,
                        " of table ",
                        table.id,
                        " already has a live delete file; expire it first",
                    ),
                ),
            );
        }
        let delete_file_id = self.alloc_file_id();
        self.state.put_delete_file(
            DeleteFileValue {
                delete_file_id,
                table_id: table.id,
                begin_snapshot: self.new_snapshot_id,
                end_snapshot: None,
                data_file_id: target,
                path: file.path,
                path_is_relative: file.path_is_relative,
                format: file.format,
                delete_count: file.delete_count,
                file_size_bytes: file.file_size_bytes,
                footer_size: file.footer_size,
                encryption_key: file.encryption_key,
                partial_max: None,
            },
        );
        self.push_op(Operation::RegisterDeleteFile { table_id: table.id });
        Ok(DeleteFileId::new(delete_file_id))
    }

    /// Expires a delete file.
    pub fn expire_delete_file(&mut self, table: TableId, file: DeleteFileId) -> (r: Result<(), Error>)
        ensures
            if old(self)@.state.delete_files.contains_key((table.id, file.id)) {
                r is Ok && final(self)@ == delete_expired(old(self)@, table.id, file.id)
            } else {
                refused(r, unknown_delete_file(table.id, file.id)) && final(self)@ == old(self)@
            },
    {
        if !self.state.delete_files.contains_key(&(table.id, file.id)) {
            return Err(
                Error::NotFound(
                    text_around_two("delete file ", file.id, " of table ", table.id, ""),
                ),
            );
        }
        self.state.delete_delete_file(table.id, file.id);
        self.push_op(Operation::ExpireDeleteFile { table_id: table.id });
        Ok(())
    }

    /// Overrides a table's row count and size. The row-id counter stays where
    /// it is; only registering a data file moves it.
    pub fn update_table_stats(&mut self, table: TableId, record_count: u64, file_size_bytes: u64) -> (r:
        Result<(), Error>)
        ensures
            match update_stats_refusal(old(self)@, table.id) {
                Some(f) => refused(r, f) && final(self)@ == old(self)@,
                None => r is Ok && final(self)@ == table_stats_set(old(self)@, table.id, record_count, file_size_bytes),
            },
    {
        match self.live_table(table) {
            Err(e) => return Err(e),
            Ok(_) => {},
        }
        let mut stats = match self.live_table_stats(table) {
            Err(e) => return Err(e),
            Ok(stats) => stats,
        };
        stats.record_count = record_count;
        stats.file_size_bytes = file_size_bytes;
        self.state.put_table_stats(stats);
        self.push_op(Operation::UpdateStats { table_id: table.id });
        Ok(())
    }

    /// Overrides a column's statistics over its table, verbatim.
    pub fn update_column_stats(&mut self, table: TableId, column: ColumnId, stats: ColumnStats) -> (r:
        Result<(), Error>)
        ensures
            if old(self)@.state.columns.contains_key((table.id, column.id)) {
                r is Ok && final(self)@ == column_stats_set(
                    old(self)@,
                    table.id,
                    column.id,
                    stats@,
                )
            } else {
                refused(r, unknown_column(table.id, column.id)) && final(self)@ == old(self)@
            },
    {
        match self.live_column(table, column) {
            Err(e) => return Err(e),
            Ok(_) => {},
        }
        self.state.put_table_column_stats(
            TableColumnStatsValue {
                table_id: table.id,
                column_id: column.id,
                contains_null: stats.contains_null,
                contains_nan: stats.contains_nan,
                min_value: stats.min_value,
                max_value: stats.max_value,
                extra_stats: stats.extra_stats,
            },
        );
        self.push_op(Operation::UpdateStats { table_id: table.id });
        Ok(())
    }

    /// Creates a view under a fresh random unique id.
    pub fn create_view(&mut self, schema: SchemaId, name: &str, dialect: &str, sql: &str) -> (r: Result<
        ViewId,
        Error,
    >)
        requires
            create_view_refusal(old(self)@, schema.id, name@) is None ==> old(self)@.next_catalog_id
                < u64::MAX,
        ensures
            match create_view_refusal(old(self)@, schema.id, name@) {
                Some(f) => refused(r, f) && final(self)@ == old(self)@,
                None => r == Ok::<ViewId, Error>(ViewId { id: old(self)@.next_catalog_id })
                    && exists|uuid: Seq<char>| #[trigger]
                    uuid_text(uuid) && final(self)@ == view_created(
                        old(self)@,
                        schema.id,
                        name@,
                        dialect@,
                        sql@,
                        uuid,
                    ),
            },
    {
        let uuid = new_uuid();
        self.create_view_as(schema, name, dialect, sql, uuid)
    }

    /// Creates a view under a given unique id.
    pub fn create_view_as(
        &mut self,
        schema: SchemaId,
        name: &str,
        dialect: &str,
        sql: &str,
        uuid: String,
    ) -> (r: Result<ViewId, Error>)
        requires
            create_view_refusal(old(self)@, schema.id, name@) is None ==> old(self)@.next_catalog_id
                < u64::MAX,
        ensures
            match create_view_refusal(old(self)@, schema.id, name@) {
                Some(f) => refused(r, f) && final(self)@ == old(self)@,
                None => r == Ok::<ViewId, Error>(ViewId { id: old(self)@.next_catalog_id })
                    && final(self)@ == view_created(
                    old(self)@,
                    schema.id,
                    name@,
                    dialect@,
                    sql@,
                    uuid@,
                ),
            },
    {
        match path_safe_name("view", name) {
            Err(e) => return Err(e),
            Ok(()) => {},
        }
        let schema_name = match self.state.schemas.get(&schema.id) {
            Some(s) => s.schema_name.clone(),
            None => return Err(unknown_schema_error(schema.id)),
        };
        match self.relation_name_free(schema.id, name) {
            Err(e) => return Err(e),
            Ok(()) => {},
        }
        let view_id = self.alloc_catalog_id();
        self.state.put_view(
            ViewValue {
                view_id,
                view_uuid: uuid,
                begin_snapshot: self.new_snapshot_id,
                end_snapshot: None,
                schema_id: schema.id,
                view_name: text_wrapped("", name, ""),
                dialect: text_wrapped("", dialect, ""),
                sql: text_wrapped("", sql, ""),
                column_aliases: None,
            },
        );
        proof {
            plain_text(name@);
            plain_text(dialect@);
            plain_text(sql@);
        }
        self.push_op(
            Operation::CreateView {
                schema_id: schema.id,
                view_id,
                schema_name,
                view_name: text_wrapped("", name, ""),
            },
        );
        Ok(ViewId::new(view_id))
    }

    /// Replaces a view's definition by a new version.
    pub fn alter_view(&mut self, view: ViewId, dialect: &str, sql: &str) -> (r: Result<(), Error>)
        ensures
            if old(self)@.state.views.contains_key(view.id) {
                r is Ok && final(self)@ == view_altered(old(self)@, view.id, dialect@, sql@)
            } else {
                refused(r, unknown_view(view.id)) && final(self)@ == old(self)@
            },
    {
        let mut value = match self.state.views.get(&view.id) {
            Some(v) => v.dup(),
            None => return Err(Error::NotFound(text_around("view ", view.id, ""))),
        };
        value.dialect = text_wrapped("", dialect, "");
        value.sql = text_wrapped("", sql, "");
        value.begin_snapshot = self.new_snapshot_id;
        proof {
            plain_text(dialect@);
            plain_text(sql@);
        }
        self.state.put_view(value);
        self.push_op(Operation::AlterView { view_id: view.id });
        Ok(())
    }

    /// Drops a view.
    pub fn drop_view(&mut self, view: ViewId) -> (r: Result<(), Error>)
        ensures
            if old(self)@.state.views.contains_key(view.id) {
                r is Ok && final(self)@ == view_dropped(old(self)@, view.id)
            } else {
                refused(r, unknown_view(view.id)) && final(self)@ == old(self)@
            },
    {
        if !self.state.views.contains_key(&view.id) {
            return Err(Error::NotFound(text_around("view ", view.id, "")));
        }
        self.state.delete_view(view.id);
        self.push_op(Operation::DropView { view_id: view.id });
        Ok(())
    }

    /// Refuses a scope whose schema or table is not live.
    fn live_scope(&self, scope: OptionScope) -> (r: Result<(), Error>)
        ensures
            match scope_refusal(self@.state, scope) {
                Some(f) => refused(r, f),
                None => r is Ok,
            },
    {
        match scope {
            OptionScope::Global => Ok(()),
            OptionScope::Schema(s) => if self.state.schemas.contains_key(&s.id) {
                Ok(())
            } else {
                Err(unknown_schema_error(s.id))
            },
            OptionScope::Table(t) => if self.state.tables.contains_key(&t.id) {
                Ok(())
            } else {
                Err(unknown_table_error(t.id))
            },
        }
    }

    /// Sets an option in a scope; the last write wins.
    pub fn set_option(&mut self, scope: OptionScope, key: &str, value: &str) -> (r: Result<(), Error>)
        ensures
            match set_option_refusal(old(self)@, scope, key@) {
                Some(f) => refused(r, f) && final(self)@ == old(self)@,
                None => r is Ok && final(self)@ == option_set(old(self)@, scope, key@, value@),
            },
    {
        match nonempty_name("option key", key) {
            Err(e) => return Err(e),
            Ok(()) => {},
        }
        match self.live_scope(scope) {
            Err(e) => return Err(e),
            Ok(()) => {},
        }
        match reserved_option(scope, key) {
            Err(e) => return Err(e),
            Ok(()) => {},
        }
        let components = scope.key_components();
        let mut record = match self.state.options.get(&components) {
            Some(record) => record.dup(),
            None => OptionScopeValue { options: OrdMap::new() },
        };
        proof {
            plain_text(key@);
            plain_text(value@);
        }
        record.options.insert(text_wrapped("", key, ""), text_wrapped("", value, ""));
        self.state.set_option_record(components, record);
        Ok(())
    }

    /// Removes an option from a scope; one that is not set is no matter.
    pub fn unset_option(&mut self, scope: OptionScope, key: &str) -> (r: Result<(), Error>)
        ensures
            match unset_option_refusal(old(self)@, scope, key@) {
                Some(f) => refused(r, f) && final(self)@ == old(self)@,
                None => r is Ok && final(self)@ == option_unset(old(self)@, scope, key@),
            },
    {
        match self.live_scope(scope) {
            Err(e) => return Err(e),
            Ok(()) => {},
        }
        match reserved_option(scope, key) {
            Err(e) => return Err(e),
            Ok(()) => {},
        }
        let components = scope.key_components();
        let mut record = match self.state.options.get(&components) {
            Some(record) => record.dup(),
            None => return Ok(()),
        };
        proof {
            plain_text(key@);
        }
        let name = text_wrapped("", key, "");
        if record.options.remove(&name).is_none() {
            return Ok(());
        }
        if record.options.is_empty() {
            self.state.remove_option_record(components);
        } else {
            self.state.set_option_record(components, record);
        }
        Ok(())
    }
}

/// A refusal of the first statistics is the refusal of all of them.
proof fn stat_refusal_stays(m: CatalogModel, table_id: u64, q: Seq<FileColumnStatsSpec>, n: int)
    requires
        0 <= n <= q.len(),
        stat_columns_refusal(m, table_id, q.take(n)) is Some,
    ensures
        stat_columns_refusal(m, table_id, q) == stat_columns_refusal(m, table_id, q.take(n)),
    decreases q.len(),
{
    if n == q.len() {
        assert(q.take(n) =~= q);
    } else {
        assert(q.drop_last().take(n) =~= q.take(n));
        stat_refusal_stays(m, table_id, q.drop_last(), n);
    }
}

/// Refuses the global `encrypted` option.
pub fn reserved_option(scope: OptionScope, key: &str) -> (r: Result<(), Error>)
    ensures
        match reserved_refusal(scope, key@) {
            Some(f) => refused(r, f),
            None => r is Ok,
        },
{
    if scope == OptionScope::Global && same_text(key, "encrypted") {
        return Err(
            Error::Constraint(
                "the global `encrypted` option is fixed at catalog creation".to_owned(),
            ),
        );
    }
    Ok(())
}

/// Wrapping a text in nothing leaves it as it is.
pub proof fn plain_text(t: Seq<char>)
    ensures
        wrapped(""@, t, ""@) == t,
{
    reveal_strlit("");
    assert(wrapped(""@, t, ""@) =~= t);
}

/// Refuses column definitions with an empty or repeated name.
fn check_column_defs(columns: &[ColumnDef]) -> (r: Result<(), Error>)
    ensures
        match column_defs_refusal(columns.deep_view()) {
            Some(f) => refused(r, f),
            None => r is Ok,
        },
{
    let ghost defs = columns.deep_view();
    let mut i: usize = 0;
    assert(defs.take(0) =~= Seq::<ColumnDefSpec>::empty());
    while i < columns.len()
        invariant
            i <= columns@.len(),
            defs == columns.deep_view(),
            column_defs_refusal(defs.take(i as int)) is None,
        decreases columns.len() - i,
    {
        let ghost front = defs.take(i as int);
        let ghost next = defs.take(i + 1);
        assert(next.drop_last() =~= front);
        assert(next.last() == columns@[i as int]@);
        match nonempty_name("column", columns[i].name.as_str()) {
            Err(e) => {
                proof {
                    column_refusal_stays(defs, i + 1);
                }
                return Err(e);
            },
            Ok(()) => {},
        }
        let mut j: usize = 0;
        while j < i
            invariant
                j <= i < columns@.len(),
                defs == columns.deep_view(),
                front == defs.take(i as int),
                next == defs.take(i + 1),
                next.drop_last() == front,
                next.last() == defs[i as int],
                defs[i as int].name.len() > 0,
                column_defs_refusal(front) is None,
                forall|k: int| 0 <= k < j ==> (#[trigger] front[k]).name != defs[i as int].name,
            decreases i - j,
        {
            assert(front[j as int] == columns@[j as int]@);
            if columns[j].name == columns[i].name {
                proof {
                    assert(front[j as int].name == defs[i as int].name);
                    column_refusal_stays(defs, i + 1);
                }
                return Err(
                    Error::Constraint(
                        text_wrapped("duplicate column ", columns[i].name.as_str(), ""),
                    ),
                );
            }
            j = j + 1;
        }
        assert(column_defs_refusal(next) is None);
        i = i + 1;
    }
    assert(defs.take(defs.len() as int) =~= defs);
    Ok(())
}

/// A refusal of the first definitions is the refusal of all of them.
proof fn column_refusal_stays(defs: Seq<ColumnDefSpec>, n: int)
    requires
        0 <= n <= defs.len(),
        column_defs_refusal(defs.take(n)) is Some,
    ensures
        column_defs_refusal(defs) == column_defs_refusal(defs.take(n)),
    decreases defs.len(),
{
    if n == defs.len() {
        assert(defs.take(n) =~= defs);
    } else {
        assert(defs.drop_last().take(n) =~= defs.take(n));
        column_refusal_stays(defs.drop_last(), n);
    }
}

/// Lays a new table's columns out in declaration order.
pub fn put_columns(
    state: &mut CatalogSnapshot,
    table_id: u64,
    begin_snapshot: u64,
    columns: &[ColumnDef],
)
    requires
        columns@.len() < u64::MAX,
    ensures
        final(state)@ == (CatalogModel {
            columns: laid_out(old(state)@.columns, table_id, begin_snapshot, columns.deep_view()),
            ..old(state)@
        }),
{
    let ghost defs = columns.deep_view();
    let mut i: usize = 0;
    assert(defs.take(0) =~= Seq::<ColumnDefSpec>::empty());
    while i < columns.len()
        invariant
            i <= columns@.len(),
            columns@.len() < u64::MAX,
            defs == columns.deep_view(),
            state@ == (CatalogModel {
                columns: laid_out(
                    old(state)@.columns,
                    table_id,
                    begin_snapshot,
                    defs.take(i as int),
                ),
                ..old(state)@
            }),
        decreases columns.len() - i,
    {
        proof {
            let next = defs.take(i + 1);
            assert(next.drop_last() =~= defs.take(i as int));
            assert(next.last() == columns@[i as int]@);
        }
        state.put_column(
            new_column(table_id, i as u64 + 1, i as u64, begin_snapshot, &columns[i]),
        );
        i = i + 1;
    }
    assert(defs.take(defs.len() as int) =~= defs);
}

/// The positions of a table's columns.
pub fn positions_of(state: &CatalogSnapshot, table_id: u64) -> (orders: OrdSet<u64>)
    ensures
        orders@ == positions(state@, table_id),
{
    let ids = state.columns.in_scope(table_id);
    let items = ids.items();
    let ghost q = items.deep_view();
    let ghost m = state@;
    let mut orders: OrdSet<u64> = OrdSet::new();
    let mut i: usize = 0;
    while i < items.len()
        invariant
            i <= items@.len(),
            q == items.deep_view(),
            m == state@,
            q.to_set() == scope(m.columns, table_id),
            forall|p: u64| #[trigger]
                orders@.contains(p) <==> exists|j: int|
                    0 <= j < i && m.columns[(table_id, #[trigger] q[j])].column_order == p,
        decreases items.len() - i,
    {
        let ghost before = orders@;
        let id: u64 = items[i];
        assert(q[i as int] == id);
        assert(q.to_set().contains(id));
        match state.columns.get(&(table_id, id)) {
            Some(c) => {
                orders.insert(c.column_order);
            },
            None => {},
        }
        proof {
            assert forall|p: u64| #[trigger] orders@.contains(p) <==> exists|j: int|
                0 <= j < i + 1 && m.columns[(table_id, #[trigger] q[j])].column_order == p by {
                if orders@.contains(p) {
                    if before.contains(p) {
                        let j = choose|j: int|
                            0 <= j < i && m.columns[(table_id, #[trigger] q[j])].column_order
                                == p;
                        assert(m.columns[(table_id, q[j])].column_order == p);
                    } else {
                        assert(m.columns[(table_id, q[i as int])].column_order == p);
                    }
                }
                if exists|j: int|
                    0 <= j < i + 1 && m.columns[(table_id, #[trigger] q[j])].column_order == p {
                    let j = choose|j: int|
                        0 <= j < i + 1 && m.columns[(table_id, #[trigger] q[j])].column_order
                            == p;
                    if j < i {
                        assert(before.contains(p));
                    }
                }
            }
        }
        i = i + 1;
    }
    proof {
        assert forall|p: u64| #[trigger] orders@.contains(p) <==> positions(
            m,
            table_id,
        ).contains(p) by {
            if orders@.contains(p) {
                let j = choose|j: int|
                    0 <= j < i && m.columns[(table_id, #[trigger] q[j])].column_order == p;
                assert(q.to_set().contains(q[j]));
                assert(m.columns.contains_key((table_id, q[j])));
            }
            if positions(m, table_id).contains(p) {
                let c = choose|c: u64|
                    #[trigger] m.columns.contains_key((table_id, c)) && m.columns[(
                        table_id,
                        c,
                    )].column_order == p;
                assert(q.to_set().contains(c));
                let j = choose|j: int| 0 <= j < q.len() && q[j] == c;
                assert(m.columns[(table_id, q[j])].column_order == p);
            }
        }
        assert(orders@ =~= positions(m, table_id));
    }
    orders
}

/// The id and the position of a column to add.
pub fn next_column_slot(state: &CatalogSnapshot, next_column_id: u64, table_id: u64) -> (slot: (
    u64,
    u64,
))
    requires
        state@.tables.contains_key(table_id),
        next_column_id == state@.tables[table_id].next_column_id,
        next_column(state@, table_id) < u64::MAX,
        next_position(state@, table_id) <= u64::MAX,
    ensures
        slot.0 == next_column(state@, table_id),
        slot.1 == next_position(state@, table_id),
{
    let ids = state.columns.in_scope(table_id);
    let live_max = largest_of(&ids);
    let column_id: u64 = if next_column_id > live_max {
        next_column_id
    } else {
        live_max + 1
    };
    let position: u64 = if ids.is_empty() {
        0
    } else {
        let orders = positions_of(state, table_id);
        largest_of(&orders) + 1
    };
    (column_id, position)
}

/// Whether a column is the only one of its table.
pub fn is_last_column(state: &CatalogSnapshot, table_id: u64, column_id: u64) -> (last: bool)
    requires
        state@.columns.contains_key((table_id, column_id)),
    ensures
        last == (scope(state@.columns, table_id) == set![column_id]),
{
    let ids = state.columns.in_scope(table_id);
    let items = ids.items();
    proof {
        let q = items.deep_view();
        let s = scope(state@.columns, table_id);
        assert(s.contains(column_id));
        assert(q.to_set().contains(column_id));
        if q.len() <= 1 {
            assert(q[0] == column_id);
            assert forall|x: u64| #[trigger] s.contains(x) implies x == column_id by {
                assert(q.to_set().contains(x));
            }
            assert(s =~= set![column_id]);
        } else {
            assert(q.to_set().contains(q[0]) && q.to_set().contains(q[1]));
            assert(q[0] < q[1]);
            assert(s.contains(q[0]) && s.contains(q[1]));
        }
    }
    items.len() <= 1
}

fn names_column(columns: &Vec<u64>, column_id: u64) -> (b: bool)
    ensures
        b == columns.deep_view().contains(column_id),
{
    let ghost q = columns.deep_view();
    let mut i: usize = 0;
    while i < columns.len()
        invariant
            i <= columns@.len(),
            q == columns.deep_view(),
            forall|j: int| 0 <= j < i ==> q[j] != column_id,
        decreases columns.len() - i,
    {
        assert(q[i as int] == columns@[i as int]);
        if columns[i] == column_id {
            return true;
        }
        i = i + 1;
    }
    false
}

/// Whether some index of a table is over a column.
pub fn has_index_on(state: &CatalogSnapshot, table_id: u64, column_id: u64) -> (b: bool)
    ensures
        b == is_indexed(state@, table_id, column_id),
{
    let keys = state.indexes.keys();
    let ghost q = keys.deep_view();
    let ghost m = state@.indexes;
    let mut i: usize = 0;
    while i < keys.len()
        invariant
            i <= keys@.len(),
            q == keys.deep_view(),
            m == state@.indexes,
            q.to_set() == m.dom(),
            forall|j: int|
                0 <= j < i && (#[trigger] q[j]).0 == table_id ==> !m[q[j]].columns.contains(
                    column_id,
                ),
        decreases keys.len() - i,
    {
        let key = keys[i];
        proof {
            assert(q[i as int] == key);
            assert(q.to_set().contains(key));
        }
        match state.indexes.get(&key) {
            Some(index) => {
                if key.0 == table_id && names_column(&index.columns, column_id) {
                    assert(m.contains_key(key));
                    return true;
                }
            },
            None => {},
        }
        i = i + 1;
    }
    proof {
        assert forall|k: (u64, u64)| #[trigger]
            m.contains_key(k) && k.0 == table_id implies !m[k].columns.contains(column_id) by {
            assert(q.to_set().contains(k));
            let j = choose|j: int| 0 <= j < q.len() && q[j] == k;
            assert(q[j] == k);
        }
    }
    false
}

fn indexed_column_error(table_id: u64, column_id: u64) -> (e: Error)
    ensures
        e@ == indexed_column(table_id, column_id),
{
    Error::Constraint(
        text_around_two("column ", column_id, " of table ", table_id, " has an equality index"),
    )
}

/// A fresh column.
pub fn new_column(
    table_id: u64,
    column_id: u64,
    column_order: u64,
    begin_snapshot: u64,
    def: &ColumnDef,
) -> (c: ColumnValue)
    ensures
        c@ == fresh_column(table_id, column_id, column_order, begin_snapshot, def@),
{
    let c = ColumnValue {
        column_id,
        begin_snapshot,
        end_snapshot: None,
        table_id,
        column_order,
        column_name: def.name.clone(),
        column_type: def.column_type.clone(),
        initial_default: None,
        default_value: def.default_value.dup(),
        nulls_allowed: def.nulls_allowed,
        parent_column: None,
        default_value_type: None,
        default_value_dialect: None,
        tags: Vec::new(),
    };
    assert(c@.tags =~= Seq::empty());
    c
}

} // verus!
