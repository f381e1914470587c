//! The small mutation handle: schemas, tables and columns alone.
//!
//! Its rules are those of a store that holds nothing else. Names are free-form,
//! tables share no namespace with views, and every mutator looks for what it
//! changes before it looks at names.
use crate::api::{
    ColumnAlteration, ColumnAlterationSpec, ColumnDef, ColumnDefSpec, ColumnId, SchemaId, TableId,
};
use crate::catalog::{
    columns_named, minus_column, minus_table, schemas_named, tables_named, tables_under,
    unknown_schema, unknown_schema_error, unknown_table, unknown_table_error, CatalogModel,
    CatalogSnapshot,
};
use crate::error::{
    around, around_two, refused, text_around, text_around_two, text_wrapped, wrapped, Error, Fault,
};
use crate::names::{new_uuid, uuid_text};
use crate::operations::{Operation, OperationModel};
use crate::ordered::Record;
use crate::records::{
    ColumnModel, ColumnValue, SchemaModel, SchemaValue, TableModel, TableValue,
};
use crate::scoped::scope;
use crate::verbs::{
    altered, column_taken, directory, fresh_column, is_last_column, laid_out, new_column,
    next_column, next_column_slot, next_position, plain_text, put_columns, unknown_column,
    unknown_column_error,
};
use vstd::prelude::*;

verus! {

/// The small mutation handle.
pub struct Txn {
    state: CatalogSnapshot,
    ops: Vec<Operation>,
    next_catalog_id: u64,
    new_snapshot_id: u64,
}

/// The model of [`Txn`]: the working state, the log, and the counters.
#[verifier::ext_equal]
pub struct TxnModel {
    pub state: CatalogModel,
    pub ops: Seq<OperationModel>,
    pub next_catalog_id: u64,
    pub new_snapshot_id: u64,
}

impl View for Txn {
    type V = TxnModel;

    closed spec fn view(&self) -> TxnModel {
        TxnModel {
            state: self.state@,
            ops: self.ops.deep_view(),
            next_catalog_id: self.next_catalog_id,
            new_snapshot_id: self.new_snapshot_id,
        }
    }
}

impl std::ops::Deref for Txn {
    type Target = CatalogSnapshot;

    /// The working state.
    fn deref(&self) -> (s: &CatalogSnapshot)
        ensures
            s@ == self@.state,
    {
        &self.state
    }
}

/// A handle with another state and one more operation.
pub open spec fn noted(t: TxnModel, state: CatalogModel, op: OperationModel) -> TxnModel {
    TxnModel { state, ops: t.ops.push(op), ..t }
}

/// Why a schema cannot be created.
pub open spec fn create_schema_refusal(t: TxnModel, name: Seq<char>) -> Option<Fault> {
    if schemas_named(t.state, name) != Set::<u64>::empty() {
        Some(Fault::AlreadyExists(wrapped("schema "@, name, ""@)))
    } else {
        None
    }
}

/// The handle after a schema was created.
pub open spec fn schema_created(t: TxnModel, name: Seq<char>, uuid: Seq<char>) -> TxnModel {
    let id = t.next_catalog_id;
    let schema = SchemaModel {
        schema_id: id,
        schema_uuid: uuid,
        begin_snapshot: t.new_snapshot_id,
        end_snapshot: None,
        schema_name: name,
        path: directory(name),
        path_is_relative: true,
    };
    TxnModel {
        next_catalog_id: (id + 1) as u64,
        ..noted(
            t,
            CatalogModel { schemas: t.state.schemas.insert(id, schema), ..t.state },
            OperationModel::CreateSchema { schema_id: id, name },
        )
    }
}

/// Why a schema cannot be dropped.
pub open spec fn drop_schema_refusal(t: TxnModel, id: u64) -> Option<Fault> {
    if !t.state.schemas.contains_key(id) {
        Some(unknown_schema(id))
    } else if tables_under(t.state, id) != Set::<u64>::empty() {
        Some(Fault::Constraint(around("schema "@, id, " still contains tables"@)))
    } else {
        None
    }
}

pub open spec fn table_taken(name: Seq<char>) -> Fault {
    Fault::AlreadyExists(wrapped("table "@, name, ""@))
}

/// Why a list of column definitions is refused: the first repeated name.
pub open spec fn repeated_column(defs: Seq<ColumnDefSpec>) -> Option<Fault>
    decreases defs.len(),
{
    if defs.len() == 0 {
        None
    } else {
        let front = defs.drop_last();
        let name = defs.last().name;
        match repeated_column(front) {
            Some(f) => Some(f),
            None => if exists|i: int| 0 <= i < front.len() && (#[trigger] front[i]).name == name {
                Some(Fault::Constraint(wrapped("duplicate column "@, name, ""@)))
            } else {
                None
            },
        }
    }
}

proof fn repeated_column_stays(defs: Seq<ColumnDefSpec>, n: int)
    requires
        0 <= n <= defs.len(),
        repeated_column(defs.take(n)) is Some,
    ensures
        repeated_column(defs) == repeated_column(defs.take(n)),
    decreases defs.len(),
{
    if n == defs.len() {
        assert(defs.take(n) =~= defs);
    } else {
        assert(defs.drop_last().take(n) =~= defs.take(n));
        repeated_column_stays(defs.drop_last(), n);
    }
}

fn check_repeated(columns: &[ColumnDef]) -> (r: Result<(), Error>)
    ensures
        match repeated_column(columns.deep_view()) {
            Some(f) => refused(r, f),
            None => r is Ok,
        },
{
    let ghost defs = columns.deep_view();
    let mut i: usize = 0;
    assert(defs.take(0) =~= Seq::<ColumnDefSpec>::empty());
    while i < columns.len()
        invariant
            i <= columns@.len(),
            defs == columns.deep_view(),
            repeated_column(defs.take(i as int)) is None,
        decreases columns.len() - i,
    {
        let ghost front = defs.take(i as int);
        let ghost next = defs.take(i + 1);
        assert(next.drop_last() =~= front);
        assert(next.last() == columns@[i as int]@);
        let mut j: usize = 0;
        while j < i
            invariant
                j <= i < columns@.len(),
                defs == columns.deep_view(),
                front == defs.take(i as int),
                next == defs.take(i + 1),
                next.drop_last() == front,
                next.last() == defs[i as int],
                repeated_column(front) is None,
                forall|k: int| 0 <= k < j ==> (#[trigger] front[k]).name != defs[i as int].name,
            decreases i - j,
        {
            assert(front[j as int] == columns@[j as int]@);
            if columns[j].name == columns[i].name {
                proof {
                    assert(front[j as int].name == defs[i as int].name);
                    repeated_column_stays(defs, i + 1);
                }
                return Err(
                    Error::Constraint(
                        text_wrapped("duplicate column ", columns[i].name.as_str(), ""),
                    ),
                );
            }
            j = j + 1;
        }
        assert(repeated_column(next) is None);
        i = i + 1;
    }
    assert(defs.take(defs.len() as int) =~= defs);
    Ok(())
}

/// Why a table cannot be created.
pub open spec fn create_table_refusal(
    t: TxnModel,
    schema_id: u64,
    name: Seq<char>,
    defs: Seq<ColumnDefSpec>,
) -> Option<Fault> {
    if !t.state.schemas.contains_key(schema_id) {
        Some(unknown_schema(schema_id))
    } else if tables_named(t.state, schema_id, name) != Set::<u64>::empty() {
        Some(table_taken(name))
    } else if defs.len() == 0 {
        Some(Fault::Constraint(wrapped("table "@, name, " needs at least one column"@)))
    } else {
        repeated_column(defs)
    }
}

/// The handle after a table was created.
pub open spec fn table_created(
    t: TxnModel,
    schema_id: u64,
    name: Seq<char>,
    defs: Seq<ColumnDefSpec>,
    uuid: Seq<char>,
) -> TxnModel {
    let id = t.next_catalog_id;
    let table = TableModel {
        table_id: id,
        table_uuid: uuid,
        begin_snapshot: t.new_snapshot_id,
        end_snapshot: None,
        schema_id,
        table_name: name,
        path: directory(name),
        path_is_relative: true,
        next_column_id: (defs.len() + 1) as u64,
    };
    TxnModel {
        next_catalog_id: (id + 1) as u64,
        ..noted(
            t,
            CatalogModel {
                tables: t.state.tables.insert(id, table),
                columns: laid_out(t.state.columns, id, t.new_snapshot_id, defs),
                ..t.state
            },
            OperationModel::CreateTable {
                schema_id,
                table_id: id,
                schema_name: t.state.schemas[schema_id].schema_name,
                table_name: name,
            },
        )
    }
}

/// The handle after a table got another value.
pub open spec fn table_altered(t: TxnModel, table: TableModel, id: u64) -> TxnModel {
    noted(
        t,
        CatalogModel { tables: t.state.tables.insert(table.table_id, table), ..t.state },
        OperationModel::AlterTable { table_id: id },
    )
}

/// Why a table cannot be renamed.
pub open spec fn rename_table_refusal(t: TxnModel, id: u64, name: Seq<char>) -> Option<Fault> {
    if !t.state.tables.contains_key(id) {
        Some(unknown_table(id))
    } else if tables_named(t.state, t.state.tables[id].schema_id, name) != Set::<u64>::empty() {
        Some(table_taken(name))
    } else {
        None
    }
}

/// Why a table cannot be moved to another schema.
pub open spec fn move_table_refusal(t: TxnModel, id: u64, schema_id: u64) -> Option<Fault> {
    if !t.state.tables.contains_key(id) {
        Some(unknown_table(id))
    } else if !t.state.schemas.contains_key(schema_id) {
        Some(unknown_schema(schema_id))
    } else if tables_named(t.state, schema_id, t.state.tables[id].table_name)
        != Set::<u64>::empty() {
        Some(table_taken(t.state.tables[id].table_name))
    } else {
        None
    }
}

/// Why a column cannot be added.
pub open spec fn add_column_refusal(t: TxnModel, table_id: u64, name: Seq<char>) -> Option<Fault> {
    if !t.state.tables.contains_key(table_id) {
        Some(unknown_table(table_id))
    } else if columns_named(t.state, table_id, name) != Set::<(u64, u64)>::empty() {
        Some(column_taken(name))
    } else {
        None
    }
}

/// The handle after a column was added.
pub open spec fn column_added(t: TxnModel, table_id: u64, def: ColumnDefSpec) -> TxnModel {
    let id = next_column(t.state, table_id);
    let column = fresh_column(
        table_id,
        id as u64,
        next_position(t.state, table_id) as u64,
        t.new_snapshot_id,
        def,
    );
    let table = TableModel {
        next_column_id: (id + 1) as u64,
        begin_snapshot: t.new_snapshot_id,
        ..t.state.tables[table_id]
    };
    noted(
        t,
        CatalogModel {
            tables: t.state.tables.insert(table.table_id, table),
            columns: t.state.columns.insert((table_id, id as u64), column),
            ..t.state
        },
        OperationModel::AlterTable { table_id },
    )
}

/// The handle after a column got another value.
pub open spec fn column_altered(t: TxnModel, table_id: u64, column: ColumnModel) -> TxnModel {
    noted(
        t,
        CatalogModel {
            columns: t.state.columns.insert((column.table_id, column.column_id), column),
            ..t.state
        },
        OperationModel::AlterTable { table_id },
    )
}

/// Why a column cannot be renamed.
pub open spec fn rename_column_refusal(
    t: TxnModel,
    table_id: u64,
    column_id: u64,
    name: Seq<char>,
) -> Option<Fault> {
    if !t.state.columns.contains_key((table_id, column_id)) {
        Some(unknown_column(table_id, column_id))
    } else if columns_named(t.state, table_id, name) != Set::<(u64, u64)>::empty() {
        Some(column_taken(name))
    } else {
        None
    }
}

/// Why a column cannot be dropped: a table keeps at least one.
pub open spec fn drop_column_refusal(t: TxnModel, table_id: u64, column_id: u64) -> Option<Fault> {
    if !t.state.columns.contains_key((table_id, column_id)) {
        Some(unknown_column(table_id, column_id))
    } else if scope(t.state.columns, table_id) == set![column_id] {
        Some(
            Fault::Constraint(
                around_two("column "@, column_id, " is the last column of table "@, table_id, ""@),
            ),
        )
    } else {
        None
    }
}

/// A handle in which a schema was dropped.
pub open spec fn schema_dropped(t: TxnModel, id: u64) -> TxnModel {
    noted(
        t,
        CatalogModel {
            schemas: t.state.schemas.remove(id),
            ..t.state
        },
        OperationModel::DropSchema { schema_id: id },
    )
}

/// A handle in which a table was renamed.
pub open spec fn table_renamed(t: TxnModel, id: u64, name: Seq<char>) -> TxnModel {
    table_altered(
        t,
        TableModel {
            table_name: name,
            begin_snapshot: t.new_snapshot_id,
            ..t.state.tables[id]
        },
        id,
    )
}

/// A handle in which a table was moved to a schema.
pub open spec fn table_moved(t: TxnModel, id: u64, schema_id: u64) -> TxnModel {
    table_altered(
        t,
        TableModel {
            schema_id,
            begin_snapshot: t.new_snapshot_id,
            ..t.state.tables[id]
        },
        id,
    )
}

/// A handle in which a table was dropped.
pub open spec fn table_dropped(t: TxnModel, id: u64) -> TxnModel {
    noted(
        t,
        minus_table(t.state, id),
        OperationModel::DropTable { table_id: id },
    )
}

/// A handle in which a column was renamed.
pub open spec fn column_renamed(
    t: TxnModel,
    table_id: u64,
    column_id: u64,
    name: Seq<char>,
) -> TxnModel {
    column_altered(
        t,
        table_id,
        ColumnModel {
            column_name: name,
            begin_snapshot: t.new_snapshot_id,
            ..t.state.columns[(table_id, column_id)]
        },
    )
}

/// A handle in which a column was altered.
pub open spec fn column_changed(
    t: TxnModel,
    table_id: u64,
    column_id: u64,
    alteration: ColumnAlterationSpec,
) -> TxnModel {
    column_altered(
        t,
        table_id,
        altered(
            t.state.columns[(table_id, column_id)],
            alteration,
            t.new_snapshot_id,
        ),
    )
}

/// A handle in which a column was dropped.
pub open spec fn column_dropped(t: TxnModel, table_id: u64, column_id: u64) -> TxnModel {
    noted(
        t,
        minus_column(t.state, table_id, column_id),
        OperationModel::AlterTable { table_id },
    )
}

/// A handle that begins on a catalog.
pub open spec fn begun(m: CatalogModel, new_snapshot_id: u64) -> TxnModel {
    TxnModel {
        state: m,
        ops: Seq::empty(),
        next_catalog_id: m.snapshot.next_catalog_id,
        new_snapshot_id,
    }
}

impl Txn {
    /// A handle on a state, minting a snapshot.
    pub fn new(state: CatalogSnapshot, new_snapshot_id: u64) -> (t: Self)
        ensures
            t@ == (TxnModel {
                state: state@,
                ops: Seq::empty(),
                next_catalog_id: state@.snapshot.next_catalog_id,
                new_snapshot_id,
            }),
            t@ == begun(state@, new_snapshot_id),
    {
        let next_catalog_id = state.snapshot.next_catalog_id;
        let t = Txn { state, ops: Vec::new(), next_catalog_id, new_snapshot_id };
        assert(t@.ops =~= Seq::<OperationModel>::empty());
        t
    }

    /// The working state.
    pub fn state(&self) -> (s: &CatalogSnapshot)
        ensures
            s@ == self@.state,
    {
        &self.state
    }

    /// The log, the working state, and the id counter.
    pub fn into_parts(self) -> (parts: (Vec<Operation>, CatalogSnapshot, u64))
        ensures
            parts.0.deep_view() == self@.ops,
            parts.1@ == self@.state,
            parts.2 == self@.next_catalog_id,
    {
        (self.ops, self.state, self.next_catalog_id)
    }

    fn push_op(&mut self, op: Operation)
        ensures
            final(self)@ == (TxnModel { ops: old(self)@.ops.push(op@), ..old(self)@ }),
    {
        let ghost before = self.ops.deep_view();
        self.ops.push(op);
        assert(self.ops.deep_view() =~= before.push(op@));
    }

    fn alloc_catalog_id(&mut self) -> (id: u64)
        requires
            old(self)@.next_catalog_id < u64::MAX,
        ensures
            id == old(self)@.next_catalog_id,
            final(self)@ == (TxnModel { next_catalog_id: (id + 1) as u64, ..old(self)@ }),
    {
        let id = self.next_catalog_id;
        self.next_catalog_id = id + 1;
        id
    }

    /// Creates a schema under a fresh random unique id.
    pub fn create_schema(&mut self, name: &str) -> (r: Result<SchemaId, Error>)
        requires
            create_schema_refusal(old(self)@, name@) is None ==> old(self)@.next_catalog_id
                < u64::MAX,
        ensures
            match create_schema_refusal(old(self)@, name@) {
                Some(f) => refused(r, f) && final(self)@ == old(self)@,
                None => r == Ok::<SchemaId, Error>(SchemaId { id: old(self)@.next_catalog_id })
                    && exists|uuid: Seq<char>| #[trigger]
                    uuid_text(uuid) && final(self)@ == schema_created(old(self)@, name@, uuid),
            },
    {
        let uuid = new_uuid();
        self.create_schema_as(name, uuid)
    }

    /// Creates a schema under a given unique id.
    pub fn create_schema_as(&mut self, name: &str, uuid: String) -> (r: Result<SchemaId, Error>)
        requires
            create_schema_refusal(old(self)@, name@) is None ==> old(self)@.next_catalog_id
                < u64::MAX,
        ensures
            match create_schema_refusal(old(self)@, name@) {
                Some(f) => refused(r, f) && final(self)@ == old(self)@,
                None => r == Ok::<SchemaId, Error>(SchemaId { id: old(self)@.next_catalog_id })
                    && final(self)@ == schema_created(old(self)@, name@, uuid@),
            },
    {
        let taken = self.state.schema_ids_named(name);
        if !taken.is_empty() {
            return Err(Error::AlreadyExists(text_wrapped("schema ", name, "")));
        }
        let schema_id = self.alloc_catalog_id();
        self.state.put_schema(
            SchemaValue {
                schema_id,
                schema_uuid: uuid,
                begin_snapshot: self.new_snapshot_id,
                end_snapshot: None,
                schema_name: text_wrapped("", name, ""),
                path: text_wrapped("", name, "/"),
                path_is_relative: true,
            },
        );
        proof {
            plain_text(name@);
        }
        self.push_op(Operation::CreateSchema { schema_id, name: text_wrapped("", name, "") });
        Ok(SchemaId::new(schema_id))
    }

    /// Drops a schema that has no tables left.
    pub fn drop_schema(&mut self, schema: SchemaId) -> (r: Result<(), Error>)
        ensures
            match drop_schema_refusal(old(self)@, schema.id) {
                Some(f) => refused(r, f) && final(self)@ == old(self)@,
                None => r is Ok && final(self)@ == schema_dropped(old(self)@, schema.id),
            },
    {
        let id = schema.get();
        if !self.state.schemas.contains_key(&id) {
            return Err(unknown_schema_error(id));
        }
        let tables = self.state.table_ids_under(id);
        if !tables.is_empty() {
            return Err(Error::Constraint(text_around("schema ", id, " still contains tables")));
        }
        self.state.delete_schema(id);
        self.push_op(Operation::DropSchema { schema_id: id });
        Ok(())
    }

    /// Refuses a name that a table of the schema already has.
    fn table_name_free(&self, schema_id: u64, name: &str) -> (r: Result<(), Error>)
        ensures
            if tables_named(self@.state, schema_id, name@) != Set::<u64>::empty() {
                refused(r, table_taken(name@))
            } else {
                r is Ok
            },
    {
        let taken = self.state.table_ids_named(schema_id, name);
        if !taken.is_empty() {
            return Err(Error::AlreadyExists(text_wrapped("table ", name, "")));
        }
        Ok(())
    }

    /// A live table.
    fn live_table(&self, table: TableId) -> (r: Result<TableValue, Error>)
        ensures
            if self@.state.tables.contains_key(table.id) {
                r is Ok && r->Ok_0@ == self@.state.tables[table.id]
            } else {
                refused(r, unknown_table(table.id))
            },
    {
        match self.state.tables.get(&table.id) {
            Some(t) => Ok(t.dup()),
            None => Err(unknown_table_error(table.id)),
        }
    }

    /// Creates a table with its columns under a fresh random unique id.
    pub fn create_table(&mut self, schema: SchemaId, name: &str, columns: &[ColumnDef]) -> (r: Result<
        TableId,
        Error,
    >)
        requires
            columns@.len() < u64::MAX,
            create_table_refusal(old(self)@, schema.id, name@, columns.deep_view()) is None ==> old(
                self,
            )@.next_catalog_id < u64::MAX,
        ensures
            match create_table_refusal(old(self)@, schema.id, name@, columns.deep_view()) {
                Some(f) => refused(r, f) && final(self)@ == old(self)@,
                None => r == Ok::<TableId, Error>(TableId { id: old(self)@.next_catalog_id })
                    && exists|uuid: Seq<char>| #[trigger]
                    uuid_text(uuid) && final(self)@ == table_created(
                        old(self)@,
                        schema.id,
                        name@,
                        columns.deep_view(),
                        uuid,
                    ),
            },
    {
        let uuid = new_uuid();
        self.create_table_as(schema, name, columns, uuid)
    }

    /// Creates a table with its columns under a given unique id.
    pub fn create_table_as(
        &mut self,
        schema: SchemaId,
        name: &str,
        columns: &[ColumnDef],
        uuid: String,
    ) -> (r: Result<TableId, Error>)
        requires
            columns@.len() < u64::MAX,
            create_table_refusal(old(self)@, schema.id, name@, columns.deep_view()) is None ==> old(
                self,
            )@.next_catalog_id < u64::MAX,
        ensures
            match create_table_refusal(old(self)@, schema.id, name@, columns.deep_view()) {
                Some(f) => refused(r, f) && final(self)@ == old(self)@,
                None => r == Ok::<TableId, Error>(TableId { id: old(self)@.next_catalog_id })
                    && final(self)@ == table_created(
                    old(self)@,
                    schema.id,
                    name@,
                    columns.deep_view(),
                    uuid@,
                ),
            },
    {
        let schema_name = match self.state.schemas.get(&schema.id) {
            Some(s) => s.schema_name.clone(),
            None => return Err(unknown_schema_error(schema.id)),
        };
        match self.table_name_free(schema.id, name) {
            Err(e) => return Err(e),
            Ok(()) => {},
        }
        if columns.len() == 0 {
            return Err(
                Error::Constraint(text_wrapped("table ", name, " needs at least one column")),
            );
        }
        match check_repeated(columns) {
            Err(e) => return Err(e),
            Ok(()) => {},
        }
        let table_id = self.alloc_catalog_id();
        self.state.put_table(
            TableValue {
                table_id,
                table_uuid: uuid,
                begin_snapshot: self.new_snapshot_id,
                end_snapshot: None,
                schema_id: schema.id,
                table_name: text_wrapped("", name, ""),
                path: text_wrapped("", name, "/"),
                path_is_relative: true,
                next_column_id: columns.len() as u64 + 1,
            },
        );
        let begin_snapshot = self.new_snapshot_id;
        put_columns(&mut self.state, table_id, begin_snapshot, columns);
        proof {
            plain_text(name@);
        }
        self.push_op(
            Operation::CreateTable {
                schema_id: schema.id,
                table_id,
                schema_name,
                table_name: text_wrapped("", name, ""),
            },
        );
        Ok(TableId::new(table_id))
    }

    fn mark_altered(&mut self, table_id: u64)
        ensures
            final(self)@ == (TxnModel {
                ops: old(self)@.ops.push(OperationModel::AlterTable { table_id }),
                ..old(self)@
            }),
    {
        self.push_op(Operation::AlterTable { table_id });
    }

    /// Renames a table within its schema. The current name is taken, too.
    pub fn rename_table(&mut self, table: TableId, new_name: &str) -> (r: Result<(), Error>)
        ensures
            match rename_table_refusal(old(self)@, table.id, new_name@) {
                Some(f) => refused(r, f) && final(self)@ == old(self)@,
                None => r is Ok && final(self)@ == table_renamed(old(self)@, table.id, new_name@),
            },
    {
        let mut value = match self.live_table(table) {
            Err(e) => return Err(e),
            Ok(value) => value,
        };
        match self.table_name_free(value.schema_id, new_name) {
            Err(e) => return Err(e),
            Ok(()) => {},
        }
        value.table_name = text_wrapped("", new_name, "");
        value.begin_snapshot = self.new_snapshot_id;
        self.state.put_table(value);
        proof {
            plain_text(new_name@);
        }
        self.mark_altered(table.id);
        Ok(())
    }

    /// Moves a table to another schema. Its name must be free there, so a move
    /// to the current schema is refused.
    pub fn set_table_schema(&mut self, table: TableId, new_schema: SchemaId) -> (r: Result<(), Error>)
        ensures
            match move_table_refusal(old(self)@, table.id, new_schema.id) {
                Some(f) => refused(r, f) && final(self)@ == old(self)@,
                None => r is Ok && final(self)@ == table_moved(old(self)@, table.id, new_schema.id),
            },
    {
        let mut value = match self.live_table(table) {
            Err(e) => return Err(e),
            Ok(value) => value,
        };
        if !self.state.schemas.contains_key(&new_schema.id) {
            return Err(unknown_schema_error(new_schema.id));
        }
        match self.table_name_free(new_schema.id, value.table_name.as_str()) {
            Err(e) => return Err(e),
            Ok(()) => {},
        }
        value.schema_id = new_schema.id;
        value.begin_snapshot = self.new_snapshot_id;
        self.state.put_table(value);
        self.mark_altered(table.id);
        Ok(())
    }

    /// Drops a table with its columns.
    pub fn drop_table(&mut self, table: TableId) -> (r: Result<(), Error>)
        ensures
            if old(self)@.state.tables.contains_key(table.id) {
                r is Ok && final(self)@ == table_dropped(old(self)@, table.id)
            } else {
                refused(r, unknown_table(table.id)) && final(self)@ == old(self)@
            },
    {
        match self.live_table(table) {
            Err(e) => return Err(e),
            Ok(_) => {},
        }
        self.state.delete_table(table.id);
        self.push_op(Operation::DropTable { table_id: table.id });
        Ok(())
    }

    /// A live column.
    fn live_column(&self, table: TableId, column: ColumnId) -> (r: Result<ColumnValue, Error>)
        ensures
            if self@.state.columns.contains_key((table.id, column.id)) {
                r is Ok && r->Ok_0@ == self@.state.columns[(table.id, column.id)]
            } else {
                refused(r, unknown_column(table.id, column.id))
            },
    {
        match self.state.columns.get(&(table.id, column.id)) {
            Some(c) => Ok(c.dup()),
            None => Err(unknown_column_error(table.id, column.id)),
        }
    }

    /// Refuses a name that a column of the table already has.
    fn column_name_free(&self, table: TableId, name: &str) -> (r: Result<(), Error>)
        ensures
            if columns_named(self@.state, table.id, name@) != Set::<(u64, u64)>::empty() {
                refused(r, column_taken(name@))
            } else {
                r is Ok
            },
    {
        let taken = self.state.column_ids_named(table.id, name);
        if !taken.is_empty() {
            return Err(Error::AlreadyExists(text_wrapped("column ", name, "")));
        }
        Ok(())
    }

    /// Adds a column behind the others. Its id comes from the table's counter,
    /// floored above every live id, and is never used again.
    pub fn add_column(&mut self, table: TableId, def: &ColumnDef) -> (r: Result<ColumnId, Error>)
        requires
            add_column_refusal(old(self)@, table.id, def@.name) is None ==> next_column(
                old(self)@.state,
                table.id,
            ) < u64::MAX && next_position(old(self)@.state, table.id) <= u64::MAX,
        ensures
            match add_column_refusal(old(self)@, table.id, def@.name) {
                Some(f) => refused(r, f) && final(self)@ == old(self)@,
                None => r == Ok::<ColumnId, Error>(
                    ColumnId { id: next_column(old(self)@.state, table.id) as u64 },
                ) && final(self)@ == column_added(old(self)@, table.id, def@),
            },
    {
        let mut value = match self.live_table(table) {
            Err(e) => return Err(e),
            Ok(value) => value,
        };
        match self.column_name_free(table, def.name.as_str()) {
            Err(e) => return Err(e),
            Ok(()) => {},
        }
        let (column_id, position) = next_column_slot(&self.state, value.next_column_id, table.id);
        self.state.put_column(
            new_column(table.id, column_id, position, self.new_snapshot_id, def),
        );
        value.next_column_id = column_id + 1;
        value.begin_snapshot = self.new_snapshot_id;
        self.state.put_table(value);
        self.mark_altered(table.id);
        Ok(ColumnId::new(column_id))
    }

    /// Renames a column. The current name is taken, too.
    pub fn rename_column(&mut self, table: TableId, column: ColumnId, new_name: &str) -> (r: Result<
        (),
        Error,
    >)
        ensures
            match rename_column_refusal(old(self)@, table.id, column.id, new_name@) {
                Some(f) => refused(r, f) && final(self)@ == old(self)@,
                None => r is Ok && final(self)@ == column_renamed(
                    old(self)@,
                    table.id,
                    column.id,
                    new_name@,
                ),
            },
    {
        let mut value = match self.live_column(table, column) {
            Err(e) => return Err(e),
            Ok(value) => value,
        };
        match self.column_name_free(table, new_name) {
            Err(e) => return Err(e),
            Ok(()) => {},
        }
        value.column_name = text_wrapped("", new_name, "");
        value.begin_snapshot = self.new_snapshot_id;
        self.state.put_column(value);
        proof {
            plain_text(new_name@);
        }
        self.mark_altered(table.id);
        Ok(())
    }

    /// Changes a column's type, nullability or default.
    pub fn alter_column(&mut self, table: TableId, column: ColumnId, alteration: ColumnAlteration) -> (r:
        Result<(), Error>)
        ensures
            if old(self)@.state.columns.contains_key((table.id, column.id)) {
                r is Ok && final(self)@ == column_changed(
                    old(self)@,
                    table.id,
                    column.id,
                    alteration@,
                )
            } else {
                refused(r, unknown_column(table.id, column.id)) && final(self)@ == old(self)@
            },
    {
        let mut value = match self.live_column(table, column) {
            Err(e) => return Err(e),
            Ok(value) => value,
        };
        let ColumnAlteration { column_type, nulls_allowed, default_value } = alteration;
        match column_type {
            Some(v) => {
                value.column_type = v;
            },
            None => {},
        }
        match nulls_allowed {
            Some(v) => {
                value.nulls_allowed = v;
            },
            None => {},
        }
        match default_value {
            Some(v) => {
                value.default_value = v;
            },
            None => {},
        }
        value.begin_snapshot = self.new_snapshot_id;
        self.state.put_column(value);
        self.mark_altered(table.id);
        Ok(())
    }

    /// Drops a column that is not the last of its table.
    pub fn drop_column(&mut self, table: TableId, column: ColumnId) -> (r: Result<(), Error>)
        ensures
            match drop_column_refusal(old(self)@, table.id, column.id) {
                Some(f) => refused(r, f) && final(self)@ == old(self)@,
                None => r is Ok && final(self)@ == column_dropped(old(self)@, table.id, column.id),
            },
    {
        match self.live_column(table, column) {
            Err(e) => return Err(e),
            Ok(_) => {},
        }
        if is_last_column(&self.state, table.id, column.id) {
            return Err(
                Error::Constraint(
                    text_around_two(
                        "column ",
                        column.id,
                        " is the last column of table ",
                        table.id,
                        "",
                    ),
                ),
            );
        }
        self.state.delete_column(table.id, column.id);
        self.mark_altered(table.id);
        Ok(())
    }
}

} // verus!
