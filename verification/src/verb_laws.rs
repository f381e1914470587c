//! What every verb of a transaction keeps: a sound catalog stays sound, and
//! ids that were given out do not return.
use crate::api::{
    ColumnAlterationSpec, ColumnDefSpec, ColumnStatsSpec, DataFileSpec, DeleteFileSpec, OptionScope,
};
use crate::catalog::{
    columns_named, delete_files_on, empty_catalog, minus_column, minus_table, relation_taken,
    schemas_named, tables_named, tables_under, views_named, views_under, CatalogModel,
};
use crate::operations::OperationModel;
use crate::records::{
    ColumnModel, SchemaModel, SnapshotModel, TableModel, TableStatsModel, ViewModel,
};
use crate::scoped::{is_largest, largest, scope};
use crate::verbs::{
    add_column_refusal, altered, column_added, column_altered, column_defs_refusal, column_stats_set, create_schema_refusal,
    create_table_refusal, create_view_refusal, delete_registered, drop_column_refusal,
    drop_schema_refusal, file_expired, file_registered, fresh_column, laid_out, logged,
    move_table_refusal, next_column, option_set, option_unset, register_delete_refusal,
    register_file_refusal, rename_column_refusal, rename_table_refusal, schema_created,
    table_altered, table_created, view_created, TransactionModel,
};
use vstd::prelude::*;

verus! {

// ---------------------------------------------------------------------------
// Soundness
// ---------------------------------------------------------------------------

/// Every record lies under its own ids.
pub open spec fn keyed(m: CatalogModel) -> bool {
    &&& forall|k: u64| #[trigger] m.schemas.contains_key(k) ==> m.schemas[k].schema_id == k
    &&& forall|k: u64| #[trigger] m.tables.contains_key(k) ==> m.tables[k].table_id == k
    &&& forall|k: u64| #[trigger] m.views.contains_key(k) ==> m.views[k].view_id == k
    &&& forall|k: u64| #[trigger] m.table_stats.contains_key(k) ==> m.table_stats[k].table_id == k
    &&& forall|k: (u64, u64)| #[trigger]
        m.columns.contains_key(k) ==> (m.columns[k].table_id, m.columns[k].column_id) == k
    &&& forall|k: (u64, u64)| #[trigger]
        m.data_files.contains_key(k) ==> (m.data_files[k].table_id, m.data_files[k].data_file_id)
            == k
    &&& forall|k: (u64, u64)| #[trigger]
        m.delete_files.contains_key(k) ==> (
            m.delete_files[k].table_id,
            m.delete_files[k].delete_file_id,
        ) == k
}

/// No id that is in use lies at or above its counter.
pub open spec fn counted(t: TransactionModel) -> bool {
    &&& forall|k: u64| #[trigger] t.state.schemas.contains_key(k) ==> k < t.next_catalog_id
    &&& forall|k: u64| #[trigger] t.state.tables.contains_key(k) ==> k < t.next_catalog_id
    &&& forall|k: u64| #[trigger] t.state.views.contains_key(k) ==> k < t.next_catalog_id
    &&& forall|k: (u64, u64)| #[trigger]
        t.state.data_files.contains_key(k) ==> k.1 < t.next_file_id
    &&& forall|k: (u64, u64)| #[trigger]
        t.state.delete_files.contains_key(k) ==> k.1 < t.next_file_id
}

/// No two schemas have one name.
pub open spec fn schemas_distinct(m: CatalogModel) -> bool {
    forall|a: u64, b: u64| #[trigger]
        m.schemas.contains_key(a) && #[trigger] m.schemas.contains_key(b) && m.schemas[a].schema_name
            == m.schemas[b].schema_name ==> a == b
}

/// Whether a table has a name in a schema.
pub open spec fn table_is(m: CatalogModel, id: u64, schema_id: u64, name: Seq<char>) -> bool {
    m.tables.contains_key(id) && m.tables[id].schema_id == schema_id && m.tables[id].table_name
        == name
}

/// Whether a view has a name in a schema.
pub open spec fn view_is(m: CatalogModel, id: u64, schema_id: u64, name: Seq<char>) -> bool {
    m.views.contains_key(id) && m.views[id].schema_id == schema_id && m.views[id].view_name == name
}

/// No two tables or views of a schema have one name.
pub open spec fn relations_distinct(m: CatalogModel) -> bool {
    &&& forall|s: u64, n: Seq<char>, a: u64, b: u64| #[trigger]
        table_is(m, a, s, n) && #[trigger] table_is(m, b, s, n) ==> a == b
    &&& forall|s: u64, n: Seq<char>, a: u64, b: u64| #[trigger]
        view_is(m, a, s, n) && #[trigger] view_is(m, b, s, n) ==> a == b
    &&& forall|s: u64, n: Seq<char>, a: u64, b: u64|
        !(#[trigger] table_is(m, a, s, n) && #[trigger] view_is(m, b, s, n))
}

/// No two columns of a table have one name.
pub open spec fn columns_distinct(m: CatalogModel) -> bool {
    forall|t: u64, a: u64, b: u64| #[trigger]
        m.columns.contains_key((t, a)) && #[trigger] m.columns.contains_key((t, b)) && m.columns[(
            t,
            a,
        )].column_name == m.columns[(t, b)].column_name ==> a == b
}

/// Everything belongs somewhere: tables and views to live schemas; columns,
/// files and statistics to live tables. Every table has statistics and a
/// column.
pub open spec fn rooted(m: CatalogModel) -> bool {
    &&& forall|k: u64| #[trigger]
        m.tables.contains_key(k) ==> m.schemas.contains_key(m.tables[k].schema_id)
    &&& forall|k: u64| #[trigger]
        m.views.contains_key(k) ==> m.schemas.contains_key(m.views[k].schema_id)
    &&& forall|k: (u64, u64)| #[trigger] m.columns.contains_key(k) ==> m.tables.contains_key(k.0)
    &&& forall|k: (u64, u64)| #[trigger]
        m.data_files.contains_key(k) ==> m.tables.contains_key(k.0)
    &&& forall|k: u64| #[trigger] m.tables.contains_key(k) <==> m.table_stats.contains_key(k)
    &&& forall|k: u64| #[trigger]
        m.tables.contains_key(k) ==> exists|c: u64| #[trigger] m.columns.contains_key((k, c))
}

/// Every delete file targets a live data file of its table, and no two the
/// same.
pub open spec fn deletes_single(m: CatalogModel) -> bool {
    &&& forall|k: (u64, u64)| #[trigger]
        m.delete_files.contains_key(k) ==> m.data_files.contains_key(
            (k.0, m.delete_files[k].data_file_id),
        )
    &&& forall|t: u64, a: u64, b: u64| #[trigger]
        m.delete_files.contains_key((t, a)) && #[trigger] m.delete_files.contains_key((t, b))
            && m.delete_files[(t, a)].data_file_id == m.delete_files[(t, b)].data_file_id ==> a
            == b
}

/// A sound catalog.
pub open spec fn sound(t: TransactionModel) -> bool {
    &&& keyed(t.state)
    &&& counted(t)
    &&& schemas_distinct(t.state)
    &&& relations_distinct(t.state)
    &&& columns_distinct(t.state)
    &&& rooted(t.state)
    &&& deletes_single(t.state)
}

/// A catalog with one schema and nothing else, as a fresh store has it, is
/// sound.
pub proof fn fresh_catalogs_are_sound(snapshot: SnapshotModel, schema: SchemaModel, n: u64)
    requires
        schema.schema_id < snapshot.next_catalog_id,
    ensures
        sound(
            (TransactionModel {
                state: CatalogModel {
                    schemas: Map::<u64, SchemaModel>::empty().insert(schema.schema_id, schema),
                    ..empty_catalog(snapshot)
                },
                ops: Seq::empty(),
                next_catalog_id: snapshot.next_catalog_id,
                next_file_id: snapshot.next_file_id,
                new_snapshot_id: n,
            }),
        ),
{
}

proof fn no_schema_named(m: CatalogModel, name: Seq<char>)
    requires
        schemas_named(m, name) == Set::<u64>::empty(),
    ensures
        forall|k: u64| #[trigger] m.schemas.contains_key(k) ==> m.schemas[k].schema_name != name,
{
    assert forall|k: u64| #[trigger] m.schemas.contains_key(k) implies m.schemas[k].schema_name
        != name by {
        assert(!schemas_named(m, name).contains(k));
    }
}

proof fn no_relation_named(m: CatalogModel, schema_id: u64, name: Seq<char>)
    requires
        !relation_taken(m, schema_id, name),
    ensures
        forall|k: u64| !#[trigger] table_is(m, k, schema_id, name),
        forall|k: u64| !#[trigger] view_is(m, k, schema_id, name),
{
    assert forall|k: u64| !#[trigger] table_is(m, k, schema_id, name) by {
        assert(!tables_named(m, schema_id, name).contains(k));
    }
    assert forall|k: u64| !#[trigger] view_is(m, k, schema_id, name) by {
        assert(!views_named(m, schema_id, name).contains(k));
    }
}

proof fn no_column_named(m: CatalogModel, table_id: u64, name: Seq<char>)
    requires
        columns_named(m, table_id, name) == Set::<(u64, u64)>::empty(),
    ensures
        forall|c: u64| #[trigger]
            m.columns.contains_key((table_id, c)) ==> m.columns[(table_id, c)].column_name != name,
{
    assert forall|c: u64| #[trigger] m.columns.contains_key((table_id, c)) implies m.columns[(
        table_id,
        c,
    )].column_name != name by {
        assert(!columns_named(m, table_id, name).contains((table_id, c)));
    }
}

// ---------------------------------------------------------------------------
// Schemas and views
// ---------------------------------------------------------------------------

/// Creating a schema keeps a catalog sound.
pub proof fn create_schema_keeps_sound(t: TransactionModel, name: Seq<char>, uuid: Seq<char>)
    requires
        sound(t),
        create_schema_refusal(t, name) is None,
        t.next_catalog_id < u64::MAX,
    ensures
        sound(schema_created(t, name, uuid)),
{
    no_schema_named(t.state, name);
    let n = schema_created(t, name, uuid);
    same_relations(t.state, n.state);
}

/// Relations are as distinct as before where tables and views are the same.
proof fn same_relations(a: CatalogModel, b: CatalogModel)
    requires
        relations_distinct(a),
        a.tables == b.tables,
        a.views == b.views,
    ensures
        relations_distinct(b),
{
    assert forall|id: u64, s: u64, n: Seq<char>| #[trigger] table_is(b, id, s, n) == table_is(
        a,
        id,
        s,
        n,
    ) by {}
    assert forall|id: u64, s: u64, n: Seq<char>| #[trigger] view_is(b, id, s, n) == view_is(
        a,
        id,
        s,
        n,
    ) by {}
}

/// Relations are as distinct as before where there are fewer.
proof fn fewer_relations(a: CatalogModel, b: CatalogModel)
    requires
        relations_distinct(a),
        forall|k: u64| #[trigger]
            b.tables.contains_key(k) ==> a.tables.contains_key(k) && a.tables[k] == b.tables[k],
        forall|k: u64| #[trigger]
            b.views.contains_key(k) ==> a.views.contains_key(k) && a.views[k] == b.views[k],
    ensures
        relations_distinct(b),
{
    assert forall|id: u64, s: u64, n: Seq<char>| #[trigger] table_is(b, id, s, n) implies table_is(
        a,
        id,
        s,
        n,
    ) by {}
    assert forall|id: u64, s: u64, n: Seq<char>| #[trigger] view_is(b, id, s, n) implies view_is(
        a,
        id,
        s,
        n,
    ) by {}
}

/// Relations are as distinct as before where one table has another place or
/// name that was free.
proof fn renamed_relation(a: CatalogModel, b: CatalogModel, table: TableModel)
    requires
        relations_distinct(a),
        !relation_taken(a, table.schema_id, table.table_name),
        b.tables == a.tables.insert(table.table_id, table),
        b.views == a.views,
    ensures
        relations_distinct(b),
{
    no_relation_named(a, table.schema_id, table.table_name);
    assert forall|id: u64, s: u64, n: Seq<char>| #[trigger] table_is(b, id, s, n) implies if id
        == table.table_id {
        s == table.schema_id && n == table.table_name
    } else {
        table_is(a, id, s, n)
    } by {}
    assert forall|id: u64, s: u64, n: Seq<char>| #[trigger] view_is(b, id, s, n) == view_is(
        a,
        id,
        s,
        n,
    ) by {}
}

/// Dropping a schema keeps a catalog sound.
pub proof fn drop_schema_keeps_sound(t: TransactionModel, id: u64)
    requires
        sound(t),
        drop_schema_refusal(t, id) is None,
    ensures
        sound(
            logged(
                t,
                CatalogModel { schemas: t.state.schemas.remove(id), ..t.state },
                OperationModel::DropSchema { schema_id: id },
            ),
        ),
{
    let m = t.state;
    let n = CatalogModel { schemas: m.schemas.remove(id), ..m };
    same_relations(m, n);
    assert forall|k: u64| #[trigger] m.tables.contains_key(k) implies m.tables[k].schema_id
        != id by {
        assert(!tables_under(m, id).contains(k));
    }
    assert forall|k: u64| #[trigger] m.views.contains_key(k) implies m.views[k].schema_id != id by {
        assert(!views_under(m, id).contains(k));
    }
}

/// Creating a view keeps a catalog sound: tables and views share a namespace.
pub proof fn create_view_keeps_sound(
    t: TransactionModel,
    schema_id: u64,
    name: Seq<char>,
    dialect: Seq<char>,
    sql: Seq<char>,
    uuid: Seq<char>,
)
    requires
        sound(t),
        create_view_refusal(t, schema_id, name) is None,
        t.next_catalog_id < u64::MAX,
    ensures
        sound(view_created(t, schema_id, name, dialect, sql, uuid)),
{
    let m = t.state;
    let n = view_created(t, schema_id, name, dialect, sql, uuid).state;
    no_relation_named(m, schema_id, name);
    assert forall|id: u64, s: u64, w: Seq<char>| #[trigger] table_is(n, id, s, w) == table_is(
        m,
        id,
        s,
        w,
    ) by {}
    assert forall|id: u64, s: u64, w: Seq<char>| #[trigger] view_is(n, id, s, w) implies if id
        == t.next_catalog_id {
        s == schema_id && w == name
    } else {
        view_is(m, id, s, w)
    } by {}
}

/// Replacing a view's definition keeps a catalog sound.
pub proof fn alter_view_keeps_sound(t: TransactionModel, id: u64, dialect: Seq<char>, sql: Seq<char>)
    requires
        sound(t),
        t.state.views.contains_key(id),
    ensures
        sound(
            logged(
                t,
                CatalogModel {
                    views: t.state.views.insert(
                        t.state.views[id].view_id,
                        ViewModel {
                            dialect,
                            sql,
                            begin_snapshot: t.new_snapshot_id,
                            ..t.state.views[id]
                        },
                    ),
                    ..t.state
                },
                OperationModel::AlterView { view_id: id },
            ),
        ),
{
    let m = t.state;
    let n = CatalogModel {
        views: m.views.insert(
            m.views[id].view_id,
            ViewModel { dialect, sql, begin_snapshot: t.new_snapshot_id, ..m.views[id] },
        ),
        ..m
    };
    assert forall|k: u64, s: u64, w: Seq<char>| #[trigger] table_is(n, k, s, w) == table_is(
        m,
        k,
        s,
        w,
    ) by {}
    assert forall|k: u64, s: u64, w: Seq<char>| #[trigger] view_is(n, k, s, w) == view_is(
        m,
        k,
        s,
        w,
    ) by {}
}

/// Dropping a view keeps a catalog sound.
pub proof fn drop_view_keeps_sound(t: TransactionModel, id: u64)
    requires
        sound(t),
    ensures
        sound(
            logged(
                t,
                CatalogModel { views: t.state.views.remove(id), ..t.state },
                OperationModel::DropView { view_id: id },
            ),
        ),
{
    let n = CatalogModel { views: t.state.views.remove(id), ..t.state };
    fewer_relations(t.state, n);
}

// ---------------------------------------------------------------------------
// Tables
// ---------------------------------------------------------------------------

/// The columns of a laid-out table are those of its definitions, and every
/// other table keeps its own.
proof fn laid_out_columns(
    columns: Map<(u64, u64), ColumnModel>,
    table_id: u64,
    begin_snapshot: u64,
    defs: Seq<ColumnDefSpec>,
)
    requires
        defs.len() < u64::MAX,
    ensures
        forall|k: (u64, u64)| #[trigger]
            laid_out(columns, table_id, begin_snapshot, defs).contains_key(k) <==> (k.0 == table_id
                && 1 <= k.1 <= defs.len()) || columns.contains_key(k),
        forall|c: u64|
            1 <= c <= defs.len() ==> #[trigger] laid_out(columns, table_id, begin_snapshot, defs)[(
                table_id,
                c,
            )] == fresh_column(table_id, c, (c - 1) as u64, begin_snapshot, defs[c - 1]),
        forall|k: (u64, u64)|
            !(k.0 == table_id && 1 <= k.1 <= defs.len()) ==> #[trigger] laid_out(
                columns,
                table_id,
                begin_snapshot,
                defs,
            )[k] == columns[k],
    decreases defs.len(),
{
    if defs.len() > 0 {
        let front = defs.drop_last();
        laid_out_columns(columns, table_id, begin_snapshot, front);
        let before = laid_out(columns, table_id, begin_snapshot, front);
        let now = laid_out(columns, table_id, begin_snapshot, defs);
        assert forall|c: u64| 1 <= c <= defs.len() implies #[trigger] now[(table_id, c)]
            == fresh_column(table_id, c, (c - 1) as u64, begin_snapshot, defs[c - 1]) by {
            if c < defs.len() {
                assert(now[(table_id, c)] == before[(table_id, c)]);
                assert(front[c - 1] == defs[c - 1]);
            }
        }
    }
}

/// Definitions that are accepted have names of their own.
proof fn accepted_names_differ(defs: Seq<ColumnDefSpec>, i: int, j: int)
    requires
        column_defs_refusal(defs) is None,
        0 <= i < j < defs.len(),
    ensures
        defs[i].name != defs[j].name,
    decreases defs.len(),
{
    let front = defs.drop_last();
    if j < defs.len() - 1 {
        accepted_names_differ(front, i, j);
    } else {
        assert(front[i] == defs[i]);
    }
}

/// Creating a table keeps a catalog sound.
pub proof fn create_table_keeps_sound(
    t: TransactionModel,
    schema_id: u64,
    name: Seq<char>,
    defs: Seq<ColumnDefSpec>,
    uuid: Seq<char>,
)
    requires
        sound(t),
        create_table_refusal(t, schema_id, name, defs) is None,
        t.next_catalog_id < u64::MAX,
        defs.len() < u64::MAX,
    ensures
        sound(table_created(t, schema_id, name, defs, uuid)),
{
    let m = t.state;
    let id = t.next_catalog_id;
    let n = table_created(t, schema_id, name, defs, uuid).state;
    laid_out_columns(m.columns, id, t.new_snapshot_id, defs);
    renamed_relation(m, n, n.tables[id]);
    assert forall|k: (u64, u64)| #[trigger] m.columns.contains_key(k) implies k.0 != id by {}
    assert forall|s: u64, a: u64, b: u64| #[trigger]
        n.columns.contains_key((s, a)) && #[trigger] n.columns.contains_key((s, b)) && n.columns[(
            s,
            a,
        )].column_name == n.columns[(s, b)].column_name implies a == b by {
        if s == id {
            assert(!m.columns.contains_key((s, a)));
            assert(!m.columns.contains_key((s, b)));
            if a < b {
                accepted_names_differ(defs, a - 1, b - 1);
            } else if b < a {
                accepted_names_differ(defs, b - 1, a - 1);
            }
        } else {
            assert(m.columns.contains_key((s, a)));
            assert(m.columns.contains_key((s, b)));
            assert(n.columns[(s, a)] == m.columns[(s, a)]);
            assert(n.columns[(s, b)] == m.columns[(s, b)]);
        }
    }
    assert forall|k: u64| #[trigger] n.tables.contains_key(k) implies exists|c: u64| #[trigger]
        n.columns.contains_key((k, c)) by {
        if k == id {
            assert(n.columns.contains_key((id, 1)));
        } else {
            assert(m.tables.contains_key(k));
            let c = choose|c: u64| #[trigger] m.columns.contains_key((k, c));
            assert(n.columns.contains_key((k, c)));
        }
    }
    assert forall|k: (u64, u64)| #[trigger] n.columns.contains_key(k) implies (
        n.columns[k].table_id,
        n.columns[k].column_id,
    ) == k by {
        if k.0 == id {
            assert(!m.columns.contains_key(k));
            assert(n.columns[(id, k.1)].table_id == id);
        } else {
            assert(m.columns.contains_key(k));
        }
    }
}

/// A table's record may change where its place and name stay or are free.
proof fn changed_table(t: TransactionModel, table: TableModel, id: u64)
    requires
        sound(t),
        t.state.tables.contains_key(id),
        table.table_id == id,
        t.state.schemas.contains_key(table.schema_id),
        (table.schema_id == t.state.tables[id].schema_id && table.table_name
            == t.state.tables[id].table_name) || !relation_taken(
            t.state,
            table.schema_id,
            table.table_name,
        ),
    ensures
        sound(table_altered(t, table, id)),
{
    let m = t.state;
    let n = table_altered(t, table, id).state;
    if relation_taken(m, table.schema_id, table.table_name) {
        assert forall|k: u64, s: u64, w: Seq<char>| #[trigger] table_is(n, k, s, w) == table_is(
            m,
            k,
            s,
            w,
        ) by {}
        assert forall|k: u64, s: u64, w: Seq<char>| #[trigger] view_is(n, k, s, w) == view_is(
            m,
            k,
            s,
            w,
        ) by {}
    } else {
        renamed_relation(m, n, table);
    }
    assert forall|k: u64| #[trigger] n.tables.contains_key(k) implies exists|c: u64| #[trigger]
        n.columns.contains_key((k, c)) by {
        assert(m.tables.contains_key(k));
        let c = choose|c: u64| #[trigger] m.columns.contains_key((k, c));
        assert(n.columns.contains_key((k, c)));
    }
}

/// Renaming a table keeps a catalog sound.
pub proof fn rename_table_keeps_sound(t: TransactionModel, id: u64, name: Seq<char>)
    requires
        sound(t),
        rename_table_refusal(t, id, name) is None,
    ensures
        sound(
            table_altered(
                t,
                TableModel {
                    table_name: name,
                    begin_snapshot: t.new_snapshot_id,
                    ..t.state.tables[id]
                },
                id,
            ),
        ),
{
    changed_table(
        t,
        TableModel { table_name: name, begin_snapshot: t.new_snapshot_id, ..t.state.tables[id] },
        id,
    );
}

/// Moving a table to another schema keeps a catalog sound.
pub proof fn set_table_schema_keeps_sound(t: TransactionModel, id: u64, schema_id: u64)
    requires
        sound(t),
        move_table_refusal(t, id, schema_id) is None,
    ensures
        sound(
            table_altered(
                t,
                TableModel { schema_id, begin_snapshot: t.new_snapshot_id, ..t.state.tables[id] },
                id,
            ),
        ),
{
    changed_table(
        t,
        TableModel { schema_id, begin_snapshot: t.new_snapshot_id, ..t.state.tables[id] },
        id,
    );
}

/// Dropping a table keeps a catalog sound: everything of it goes with it.
pub proof fn drop_table_keeps_sound(t: TransactionModel, id: u64)
    requires
        sound(t),
    ensures
        sound(
            logged(t, minus_table(t.state, id), OperationModel::DropTable { table_id: id }),
        ),
{
    let m = t.state;
    let n = minus_table(m, id);
    fewer_relations(m, n);
    assert forall|k: u64| #[trigger] n.tables.contains_key(k) implies exists|c: u64| #[trigger]
        n.columns.contains_key((k, c)) by {
        assert(m.tables.contains_key(k));
        let c = choose|c: u64| #[trigger] m.columns.contains_key((k, c));
        assert(n.columns.contains_key((k, c)));
    }
    assert forall|k: (u64, u64)| #[trigger] n.columns.contains_key(k) implies m.columns.contains_key(
        k,
    ) && k.0 != id && n.columns[k] == m.columns[k] by {}
    assert forall|s: u64, a: u64, b: u64| #[trigger]
        n.columns.contains_key((s, a)) && #[trigger] n.columns.contains_key((s, b)) && n.columns[(
            s,
            a,
        )].column_name == n.columns[(s, b)].column_name implies a == b by {
        assert(m.columns.contains_key((s, a)) && m.columns.contains_key((s, b)));
    }
    assert forall|s: u64, a: u64, b: u64| #[trigger]
        n.delete_files.contains_key((s, a)) && #[trigger] n.delete_files.contains_key((s, b))
            && n.delete_files[(s, a)].data_file_id == n.delete_files[(s, b)].data_file_id implies a
        == b by {
        assert(m.delete_files.contains_key((s, a)) && m.delete_files.contains_key((s, b)));
    }
}

// ---------------------------------------------------------------------------
// Columns
// ---------------------------------------------------------------------------

/// A set of numbers that is not empty has a largest one.
pub proof fn has_largest(s: Set<u64>, x: u64)
    requires
        s.contains(x),
    ensures
        s != Set::<u64>::empty(),
        is_largest(s, largest(s)),
    decreases u64::MAX - x,
{
    if forall|y: u64| #[trigger] s.contains(y) ==> y <= x {
        assert(is_largest(s, x as int));
    } else {
        let y = choose|y: u64| #[trigger] s.contains(y) && y > x;
        has_largest(s, y);
    }
}

/// The id of a column to add lies above every id that is in use.
pub proof fn added_ids_are_free(m: CatalogModel, table_id: u64, column_id: u64)
    requires
        m.columns.contains_key((table_id, column_id)),
    ensures
        column_id < next_column(m, table_id),
{
    assert(scope(m.columns, table_id).contains(column_id));
    has_largest(scope(m.columns, table_id), column_id);
}

/// An id that was given to a column does not return: the next one is larger,
/// whether or not the column is dropped meanwhile.
pub proof fn column_ids_never_return(t: TransactionModel, table_id: u64, def: ColumnDefSpec)
    requires
        t.state.tables.contains_key(table_id),
        t.state.tables[table_id].table_id == table_id,
        next_column(t.state, table_id) < u64::MAX,
    ensures
        ({
            let id = next_column(t.state, table_id);
            let n = column_added(t, table_id, def).state;
            &&& next_column(n, table_id) > id
            &&& next_column(minus_column(n, table_id, id as u64), table_id) > id
        }),
{
    let id = next_column(t.state, table_id);
    let n = column_added(t, table_id, def).state;
    assert(n.tables[table_id].next_column_id == id + 1);
}

/// The columns of a new table have the ids from one on, and the next column
/// gets the one behind them.
pub proof fn new_tables_count_their_columns(
    t: TransactionModel,
    schema_id: u64,
    name: Seq<char>,
    defs: Seq<ColumnDefSpec>,
    uuid: Seq<char>,
)
    requires
        sound(t),
        defs.len() < u64::MAX,
    ensures
        ({
            let n = table_created(t, schema_id, name, defs, uuid).state;
            &&& scope(n.columns, t.next_catalog_id) == Set::new(
                |c: u64| 1 <= c <= defs.len(),
            )
            &&& next_column(n, t.next_catalog_id) == defs.len() + 1
        }),
{
    let id = t.next_catalog_id;
    let n = table_created(t, schema_id, name, defs, uuid).state;
    laid_out_columns(t.state.columns, id, t.new_snapshot_id, defs);
    assert forall|c: u64| #[trigger] t.state.columns.contains_key((id, c)) implies false by {
        assert(t.state.tables.contains_key(id));
    }
    let s = scope(n.columns, id);
    assert(s =~= Set::new(|c: u64| 1 <= c <= defs.len()));
    if defs.len() > 0 {
        assert(s.contains(defs.len() as u64));
        has_largest(s, defs.len() as u64);
    } else {
        assert(s =~= Set::<u64>::empty());
    }
}

/// Adding a column keeps a catalog sound.
pub proof fn add_column_keeps_sound(t: TransactionModel, table_id: u64, def: ColumnDefSpec)
    requires
        sound(t),
        add_column_refusal(t, table_id, def.name) is None,
        next_column(t.state, table_id) < u64::MAX,
    ensures
        sound(column_added(t, table_id, def)),
{
    let m = t.state;
    let id = next_column(m, table_id) as u64;
    let n = column_added(t, table_id, def).state;
    no_column_named(m, table_id, def.name);
    assert forall|c: u64| #[trigger] m.columns.contains_key((table_id, c)) implies c != id by {
        added_ids_are_free(m, table_id, c);
    }
    assert forall|k: u64, s: u64, w: Seq<char>| #[trigger] table_is(n, k, s, w) == table_is(
        m,
        k,
        s,
        w,
    ) by {}
    assert forall|k: u64, s: u64, w: Seq<char>| #[trigger] view_is(n, k, s, w) == view_is(
        m,
        k,
        s,
        w,
    ) by {}
    assert forall|k: (u64, u64)| #[trigger] n.columns.contains_key(k) implies k == (table_id, id)
        || m.columns.contains_key(k) && n.columns[k] == m.columns[k] by {}
    assert forall|s: u64, a: u64, b: u64| #[trigger]
        n.columns.contains_key((s, a)) && #[trigger] n.columns.contains_key((s, b)) && n.columns[(
            s,
            a,
        )].column_name == n.columns[(s, b)].column_name implies a == b by {
        if (s, a) != (table_id, id) {
            assert(m.columns.contains_key((s, a)));
        }
        if (s, b) != (table_id, id) {
            assert(m.columns.contains_key((s, b)));
        }
    }
    assert forall|k: u64| #[trigger] n.tables.contains_key(k) implies exists|c: u64| #[trigger]
        n.columns.contains_key((k, c)) by {
        assert(m.tables.contains_key(k));
        let c = choose|c: u64| #[trigger] m.columns.contains_key((k, c));
        assert(n.columns.contains_key((k, c)));
    }
}

/// A column's record may change where its name stays or is free.
proof fn changed_column(
    t: TransactionModel,
    table_id: u64,
    column_id: u64,
    column: ColumnModel,
)
    requires
        sound(t),
        t.state.columns.contains_key((table_id, column_id)),
        (column.table_id, column.column_id) == (table_id, column_id),
        column.column_name == t.state.columns[(table_id, column_id)].column_name
            || rename_column_refusal(t, table_id, column_id, column.column_name) is None,
    ensures
        sound(column_altered(t, table_id, column)),
{
    let m = t.state;
    let n = column_altered(t, table_id, column).state;
    same_relations(m, n);
    if columns_named(m, table_id, column.column_name) == Set::<(u64, u64)>::empty() {
        no_column_named(m, table_id, column.column_name);
    }
    assert forall|s: u64, a: u64, b: u64| #[trigger]
        n.columns.contains_key((s, a)) && #[trigger] n.columns.contains_key((s, b)) && n.columns[(
            s,
            a,
        )].column_name == n.columns[(s, b)].column_name implies a == b by {
        assert(m.columns.contains_key((s, a)) && m.columns.contains_key((s, b)));
    }
    assert forall|k: u64| #[trigger] n.tables.contains_key(k) implies exists|c: u64| #[trigger]
        n.columns.contains_key((k, c)) by {
        assert(m.tables.contains_key(k));
        let c = choose|c: u64| #[trigger] m.columns.contains_key((k, c));
        assert(n.columns.contains_key((k, c)));
    }
}

/// Renaming a column keeps a catalog sound.
pub proof fn rename_column_keeps_sound(
    t: TransactionModel,
    table_id: u64,
    column_id: u64,
    name: Seq<char>,
)
    requires
        sound(t),
        rename_column_refusal(t, table_id, column_id, name) is None,
    ensures
        sound(
            column_altered(
                t,
                table_id,
                ColumnModel {
                    begin_snapshot: t.new_snapshot_id,
                    column_name: name,
                    ..t.state.columns[(table_id, column_id)]
                },
            ),
        ),
{
    changed_column(
        t,
        table_id,
        column_id,
        ColumnModel {
            begin_snapshot: t.new_snapshot_id,
            column_name: name,
            ..t.state.columns[(table_id, column_id)]
        },
    );
}

/// Altering a column keeps a catalog sound.
pub proof fn alter_column_keeps_sound(
    t: TransactionModel,
    table_id: u64,
    column_id: u64,
    alteration: ColumnAlterationSpec,
)
    requires
        sound(t),
        t.state.columns.contains_key((table_id, column_id)),
    ensures
        sound(
            column_altered(
                t,
                table_id,
                altered(t.state.columns[(table_id, column_id)], alteration, t.new_snapshot_id),
            ),
        ),
{
    changed_column(
        t,
        table_id,
        column_id,
        altered(t.state.columns[(table_id, column_id)], alteration, t.new_snapshot_id),
    );
}

/// Dropping a column keeps a catalog sound: its table keeps another one.
pub proof fn drop_column_keeps_sound(t: TransactionModel, table_id: u64, column_id: u64)
    requires
        sound(t),
        drop_column_refusal(t, table_id, column_id) is None,
    ensures
        sound(
            logged(
                t,
                minus_column(t.state, table_id, column_id),
                OperationModel::AlterTable { table_id },
            ),
        ),
{
    let m = t.state;
    let n = minus_column(m, table_id, column_id);
    same_relations(m, n);
    assert forall|s: u64, a: u64, b: u64| #[trigger]
        n.columns.contains_key((s, a)) && #[trigger] n.columns.contains_key((s, b)) && n.columns[(
            s,
            a,
        )].column_name == n.columns[(s, b)].column_name implies a == b by {
        assert(m.columns.contains_key((s, a)) && m.columns.contains_key((s, b)));
    }
    assert forall|k: u64| #[trigger] n.tables.contains_key(k) implies exists|c: u64| #[trigger]
        n.columns.contains_key((k, c)) by {
        assert(m.tables.contains_key(k));
        if k == table_id {
            let s = scope(m.columns, table_id);
            assert(s.contains(column_id));
            if forall|c: u64| #[trigger] s.contains(c) ==> c == column_id {
                assert(s =~= set![column_id]);
            }
            let c = choose|c: u64| #[trigger] s.contains(c) && c != column_id;
            assert(n.columns.contains_key((k, c)));
        } else {
            let c = choose|c: u64| #[trigger] m.columns.contains_key((k, c));
            assert(n.columns.contains_key((k, c)));
        }
    }
}

/// Whether every column of every index is live.
pub open spec fn indexes_rooted(m: CatalogModel) -> bool {
    forall|k: (u64, u64), c: u64| #[trigger]
        m.indexes.contains_key(k) && #[trigger] m.indexes[k].columns.contains(c)
            ==> m.columns.contains_key((k.0, c))
}

/// An index keeps its columns: a column goes only where no index is over it, or
/// with its table and the indexes of that.
pub proof fn indexes_keep_their_columns(t: TransactionModel, table_id: u64, column_id: u64)
    requires
        indexes_rooted(t.state),
    ensures
        drop_column_refusal(t, table_id, column_id) is None ==> indexes_rooted(
            minus_column(t.state, table_id, column_id),
        ),
        indexes_rooted(minus_table(t.state, table_id)),
{
    let m = t.state;
    let n = minus_column(m, table_id, column_id);
    if drop_column_refusal(t, table_id, column_id) is None {
        assert forall|k: (u64, u64), c: u64| #[trigger]
            n.indexes.contains_key(k) && #[trigger] n.indexes[k].columns.contains(
                c,
            ) implies n.columns.contains_key((k.0, c)) by {
            assert(m.indexes.contains_key(k) && m.indexes[k].columns.contains(c));
        }
    }
    let gone = minus_table(m, table_id);
    assert forall|k: (u64, u64), c: u64| #[trigger]
        gone.indexes.contains_key(k) && #[trigger] gone.indexes[k].columns.contains(
            c,
        ) implies gone.columns.contains_key((k.0, c)) by {
        assert(m.indexes.contains_key(k) && m.indexes[k].columns.contains(c));
    }
}

// ---------------------------------------------------------------------------
// Files, statistics and options
// ---------------------------------------------------------------------------

/// Changes that leave schemas, tables, views and columns alone keep what is
/// said of them.
proof fn same_relations_and_columns(a: CatalogModel, b: CatalogModel)
    requires
        relations_distinct(a),
        columns_distinct(a),
        forall|k: u64| #[trigger]
            a.tables.contains_key(k) ==> exists|c: u64| #[trigger] a.columns.contains_key((k, c)),
        a.tables == b.tables,
        a.views == b.views,
        a.columns == b.columns,
    ensures
        relations_distinct(b),
        columns_distinct(b),
        forall|k: u64| #[trigger]
            b.tables.contains_key(k) ==> exists|c: u64| #[trigger] b.columns.contains_key((k, c)),
{
    same_relations(a, b);
    assert forall|k: u64| #[trigger] b.tables.contains_key(k) implies exists|c: u64| #[trigger]
        b.columns.contains_key((k, c)) by {
        assert(a.tables.contains_key(k));
        let c = choose|c: u64| #[trigger] a.columns.contains_key((k, c));
        assert(b.columns.contains_key((k, c)));
    }
}

/// Registering a data file keeps a catalog sound.
pub proof fn register_data_file_keeps_sound(t: TransactionModel, table_id: u64, file: DataFileSpec)
    requires
        sound(t),
        register_file_refusal(t, table_id, file) is None,
        t.next_file_id < u64::MAX,
    ensures
        sound(file_registered(t, table_id, file)),
{
    let m = t.state;
    let n = file_registered(t, table_id, file).state;
    same_relations_and_columns(m, n);
    assert forall|s: u64, a: u64, b: u64| #[trigger]
        n.delete_files.contains_key((s, a)) && #[trigger] n.delete_files.contains_key((s, b))
            && n.delete_files[(s, a)].data_file_id == n.delete_files[(s, b)].data_file_id implies a
        == b by {
        assert(m.delete_files.contains_key((s, a)) && m.delete_files.contains_key((s, b)));
    }
}

/// Expiring a data file keeps a catalog sound: the delete files that target it
/// go with it.
pub proof fn expire_data_file_keeps_sound(t: TransactionModel, table_id: u64, id: u64)
    requires
        sound(t),
        t.state.data_files.contains_key((table_id, id)),
    ensures
        sound(file_expired(t, table_id, id)),
        forall|k: (u64, u64)| #[trigger]
            file_expired(t, table_id, id).state.delete_files.contains_key(k) && k.0 == table_id
                ==> t.state.delete_files[k].data_file_id != id,
{
    let m = t.state;
    let n = file_expired(t, table_id, id).state;
    same_relations_and_columns(m, n);
    assert forall|k: (u64, u64)| #[trigger] n.delete_files.contains_key(k) implies
        m.delete_files.contains_key(k) && n.delete_files[k] == m.delete_files[k] && !(k.0
        == table_id && m.delete_files[k].data_file_id == id) by {
        assert(!delete_files_on(m, table_id, id).contains(k));
    }
    assert forall|s: u64, a: u64, b: u64| #[trigger]
        n.delete_files.contains_key((s, a)) && #[trigger] n.delete_files.contains_key((s, b))
            && n.delete_files[(s, a)].data_file_id == n.delete_files[(s, b)].data_file_id implies a
        == b by {
        assert(m.delete_files.contains_key((s, a)) && m.delete_files.contains_key((s, b)));
    }
}

/// Registering a delete file keeps a catalog sound: a data file has one at
/// most.
pub proof fn register_delete_file_keeps_sound(
    t: TransactionModel,
    table_id: u64,
    file: DeleteFileSpec,
)
    requires
        sound(t),
        register_delete_refusal(t, table_id, file.data_file_id.id) is None,
        t.next_file_id < u64::MAX,
    ensures
        sound(delete_registered(t, table_id, file)),
{
    let m = t.state;
    let target = file.data_file_id.id;
    let n = delete_registered(t, table_id, file).state;
    same_relations_and_columns(m, n);
    assert forall|c: u64| #[trigger] m.delete_files.contains_key((table_id, c)) implies
        m.delete_files[(table_id, c)].data_file_id != target by {
        assert(!delete_files_on(m, table_id, target).contains((table_id, c)));
    }
    assert forall|s: u64, a: u64, b: u64| #[trigger]
        n.delete_files.contains_key((s, a)) && #[trigger] n.delete_files.contains_key((s, b))
            && n.delete_files[(s, a)].data_file_id == n.delete_files[(s, b)].data_file_id implies a
        == b by {
        if (s, a) != (table_id, t.next_file_id) {
            assert(m.delete_files.contains_key((s, a)));
        }
        if (s, b) != (table_id, t.next_file_id) {
            assert(m.delete_files.contains_key((s, b)));
        }
    }
}

/// Expiring a delete file keeps a catalog sound.
pub proof fn expire_delete_file_keeps_sound(t: TransactionModel, table_id: u64, id: u64)
    requires
        sound(t),
    ensures
        sound(
            logged(
                t,
                CatalogModel {
                    delete_files: t.state.delete_files.remove((table_id, id)),
                    ..t.state
                },
                OperationModel::ExpireDeleteFile { table_id },
            ),
        ),
{
    let m = t.state;
    let n = CatalogModel { delete_files: m.delete_files.remove((table_id, id)), ..m };
    same_relations_and_columns(m, n);
    assert forall|s: u64, a: u64, b: u64| #[trigger]
        n.delete_files.contains_key((s, a)) && #[trigger] n.delete_files.contains_key((s, b))
            && n.delete_files[(s, a)].data_file_id == n.delete_files[(s, b)].data_file_id implies a
        == b by {
        assert(m.delete_files.contains_key((s, a)) && m.delete_files.contains_key((s, b)));
    }
}

/// Overriding a table's statistics keeps a catalog sound.
pub proof fn update_table_stats_keeps_sound(
    t: TransactionModel,
    table_id: u64,
    record_count: u64,
    file_size_bytes: u64,
)
    requires
        sound(t),
        t.state.table_stats.contains_key(table_id),
    ensures
        sound(
            logged(
                t,
                CatalogModel {
                    table_stats: t.state.table_stats.insert(
                        t.state.table_stats[table_id].table_id,
                        TableStatsModel {
                            record_count,
                            file_size_bytes,
                            ..t.state.table_stats[table_id]
                        },
                    ),
                    ..t.state
                },
                OperationModel::UpdateStats { table_id },
            ),
        ),
{
    let m = t.state;
    let n = CatalogModel {
        table_stats: m.table_stats.insert(
            m.table_stats[table_id].table_id,
            TableStatsModel { record_count, file_size_bytes, ..m.table_stats[table_id] },
        ),
        ..m
    };
    same_relations_and_columns(m, n);
}

/// Overriding a column's statistics keeps a catalog sound.
pub proof fn update_column_stats_keeps_sound(
    t: TransactionModel,
    table_id: u64,
    column_id: u64,
    stats: ColumnStatsSpec,
)
    requires
        sound(t),
    ensures
        sound(column_stats_set(t, table_id, column_id, stats)),
{
    same_relations_and_columns(t.state, column_stats_set(t, table_id, column_id, stats).state);
}

/// Setting and unsetting an option keep a catalog sound.
pub proof fn options_keep_sound(
    t: TransactionModel,
    scope: OptionScope,
    key: Seq<char>,
    value: Seq<char>,
)
    requires
        sound(t),
    ensures
        sound(option_set(t, scope, key, value)),
        sound(option_unset(t, scope, key)),
{
    same_relations_and_columns(t.state, option_set(t, scope, key, value).state);
    same_relations_and_columns(t.state, option_unset(t, scope, key).state);
}

/// The row-id counter of a table never goes back: registering a file moves it
/// past the file's rows, as far as numbers go, and expiring one leaves it.
pub proof fn row_ids_never_return(
    t: TransactionModel,
    table_id: u64,
    file: DataFileSpec,
    expired: u64,
)
    requires
        sound(t),
        t.state.tables.contains_key(table_id),
    ensures
        ({
            let before = t.state.table_stats[table_id].next_row_id;
            let registered = file_registered(t, table_id, file).state;
            let gone = file_expired(t, table_id, expired).state;
            &&& registered.table_stats[table_id].next_row_id >= before
            &&& before + file.record_count <= u64::MAX ==> registered.table_stats[table_id].next_row_id
                == before + file.record_count
            &&& registered.data_files[(table_id, t.next_file_id)].row_id_start == Some(before)
            &&& gone.table_stats[table_id].next_row_id == before
        }),
{
    assert(t.state.table_stats.contains_key(table_id));
}

} // verus!
