//! What each verb does, field by field: what it changes, what it leaves, what it
//! counts, what it logs, and when it is refused.
use crate::api::{
    ColumnAlterationSpec, ColumnDefSpec, ColumnStatsSpec, DataFileSpec, DeleteFileSpec, OptionScope,
};
use crate::catalog::{
    columns_named, delete_files_on, relation_taken, schemas_named, tables_named, tables_under,
    views_named, views_under, CatalogModel,
};
use crate::error::Fault;
use crate::names::unsafe_name;
use crate::operations::OperationModel;
use crate::records::{
    ColumnModel, DataFileModel, DeleteFileModel, FileColumnStatsModel, SchemaModel, TableModel,
    TableStatsModel, ViewModel,
};
use crate::scoped::{largest, scope};
use crate::txn::TxnModel;
use crate::verb_laws::has_largest;
use crate::verbs::{
    add_column_refusal, alter_column_refusal, column_added, column_changed, column_defs_refusal,
    column_dropped, column_renamed, column_stats_set, create_schema_refusal, create_table_refusal,
    create_view_refusal, delete_expired, delete_registered, drop_column_refusal,
    drop_schema_refusal, file_expired, file_registered, laid_out, move_table_refusal, next_column,
    next_position, option_set, option_unset, register_delete_refusal, register_file_refusal,
    rename_column_refusal, rename_table_refusal, schema_created, schema_dropped,
    set_option_refusal, stat_columns_refusal, table_created, table_dropped, table_moved,
    table_renamed, table_stats_set, unset_option_refusal, update_stats_refusal, view_altered,
    view_created, view_dropped, with_file_stats, TransactionModel,
};
use vstd::prelude::*;

verus! {

// ---------------------------------------------------------------------------
// Changes
// ---------------------------------------------------------------------------

/// Whether only what is under a key changed, to a value.
pub open spec fn puts<K, V>(before: Map<K, V>, after: Map<K, V>, key: K, value: V) -> bool {
    &&& after.contains_key(key) && after[key] == value
    &&& forall|k: K|
        k != key ==> (#[trigger] after.contains_key(k) <==> before.contains_key(k))
    &&& forall|k: K| k != key && #[trigger] after.contains_key(k) ==> after[k] == before[k]
}

/// Whether exactly the keys that are picked went.
pub open spec fn drops<K, V>(
    before: Map<K, V>,
    after: Map<K, V>,
    picked: spec_fn(K) -> bool,
) -> bool {
    &&& forall|k: K| #[trigger]
        after.contains_key(k) <==> before.contains_key(k) && !picked(k)
    &&& forall|k: K| #[trigger] after.contains_key(k) ==> after[k] == before[k]
}

/// Whether a name cannot be a segment of a path.
pub open spec fn bad_name(name: Seq<char>) -> bool {
    ||| name.len() == 0
    ||| exists|i: int| 0 <= i < name.len() && (#[trigger] name[i] == '/' || name[i] == '\\')
    ||| name.len() == 1 && name[0] == '.'
    ||| name.len() == 2 && name[0] == '.' && name[1] == '.'
}

proof fn bad_names_are_unsafe(what: Seq<char>, name: Seq<char>)
    ensures
        unsafe_name(what, name) is Some <==> bad_name(name),
        unsafe_name(what, name) is Some ==> unsafe_name(what, name)->0 is Constraint,
{
    if name.contains('/') {
        let i = choose|i: int| 0 <= i < name.len() && name[i] == '/';
        assert(name[i] == '/');
    }
    if name.contains('\\') {
        let i = choose|i: int| 0 <= i < name.len() && name[i] == '\\';
        assert(name[i] == '\\');
    }
    if name.len() == 1 && name[0] == '.' {
        assert(name =~= seq!['.']);
    }
    if name.len() == 2 && name[0] == '.' && name[1] == '.' {
        assert(name =~= seq!['.', '.']);
    }
}

/// Whether a schema has a name.
pub open spec fn schema_has_name(m: CatalogModel, name: Seq<char>) -> bool {
    exists|k: u64| #[trigger] m.schemas.contains_key(k) && m.schemas[k].schema_name == name
}

/// Whether a table of a schema has a name.
pub open spec fn table_has_name(m: CatalogModel, schema_id: u64, name: Seq<char>) -> bool {
    exists|k: u64| #[trigger]
        m.tables.contains_key(k) && m.tables[k].schema_id == schema_id && m.tables[k].table_name
            == name
}

/// Whether a view of a schema has a name.
pub open spec fn view_has_name(m: CatalogModel, schema_id: u64, name: Seq<char>) -> bool {
    exists|k: u64| #[trigger]
        m.views.contains_key(k) && m.views[k].schema_id == schema_id && m.views[k].view_name == name
}

/// Whether a column of a table has a name.
pub open spec fn column_has_name(m: CatalogModel, table_id: u64, name: Seq<char>) -> bool {
    exists|c: u64| #[trigger]
        m.columns.contains_key((table_id, c)) && m.columns[(table_id, c)].column_name == name
}

/// Whether a schema has a table.
pub open spec fn has_table(m: CatalogModel, schema_id: u64) -> bool {
    exists|k: u64| #[trigger] m.tables.contains_key(k) && m.tables[k].schema_id == schema_id
}

/// Whether a schema has a view.
pub open spec fn has_view(m: CatalogModel, schema_id: u64) -> bool {
    exists|k: u64| #[trigger] m.views.contains_key(k) && m.views[k].schema_id == schema_id
}

/// Whether a data file has a delete file.
pub open spec fn has_deletes(m: CatalogModel, table_id: u64, data_file_id: u64) -> bool {
    exists|d: u64| #[trigger]
        m.delete_files.contains_key((table_id, d)) && m.delete_files[(
            table_id,
            d,
        )].data_file_id == data_file_id
}

/// Whether an index is on a column.
pub open spec fn has_index(m: CatalogModel, table_id: u64, column_id: u64) -> bool {
    exists|i: u64| #[trigger]
        m.indexes.contains_key((table_id, i)) && m.indexes[(table_id, i)].columns.contains(
            column_id,
        )
}

proof fn names_are_found(
    m: CatalogModel,
    schema_id: u64,
    table_id: u64,
    other_id: u64,
    name: Seq<char>,
)
    ensures
        schemas_named(m, name) != Set::<u64>::empty() <==> schema_has_name(m, name),
        tables_named(m, schema_id, name) != Set::<u64>::empty() <==> table_has_name(
            m,
            schema_id,
            name,
        ),
        views_named(m, schema_id, name) != Set::<u64>::empty() <==> view_has_name(
            m,
            schema_id,
            name,
        ),
        relation_taken(m, schema_id, name) <==> table_has_name(m, schema_id, name)
            || view_has_name(m, schema_id, name),
        tables_under(m, schema_id) != Set::<u64>::empty() <==> has_table(m, schema_id),
        views_under(m, schema_id) != Set::<u64>::empty() <==> has_view(m, schema_id),
        columns_named(m, table_id, name) != Set::<(u64, u64)>::empty() <==> column_has_name(
            m,
            table_id,
            name,
        ),
        delete_files_on(m, table_id, other_id) != Set::<(u64, u64)>::empty() <==> has_deletes(
            m,
            table_id,
            other_id,
        ),
        crate::verbs::is_indexed(m, table_id, other_id) <==> has_index(m, table_id, other_id),
{
    assert forall|k: u64| #[trigger] m.schemas.contains_key(k) && m.schemas[k].schema_name
        == name implies schemas_named(m, name).contains(k) by {}
    assert forall|k: u64| schemas_named(m, name).contains(k) implies #[trigger] m.schemas.contains_key(k)
        && m.schemas[k].schema_name == name by {}
    one_or_none(schemas_named(m, name));
    one_or_none(tables_named(m, schema_id, name));
    one_or_none(views_named(m, schema_id, name));
    one_or_none(tables_under(m, schema_id));
    one_or_none(views_under(m, schema_id));
    one_or_none(columns_named(m, table_id, name));
    one_or_none(delete_files_on(m, table_id, other_id));
    if schemas_named(m, name) != Set::<u64>::empty() {
        let k = choose|k: u64| schemas_named(m, name).contains(k);
        assert(m.schemas.contains_key(k));
    }
    if tables_named(m, schema_id, name) != Set::<u64>::empty() {
        let k = choose|k: u64| tables_named(m, schema_id, name).contains(k);
        assert(m.tables.contains_key(k));
    }
    if table_has_name(m, schema_id, name) {
        let k = choose|k: u64| #[trigger]
            m.tables.contains_key(k) && m.tables[k].schema_id == schema_id
                && m.tables[k].table_name == name;
        assert(tables_named(m, schema_id, name).contains(k));
    }
    if views_named(m, schema_id, name) != Set::<u64>::empty() {
        let k = choose|k: u64| views_named(m, schema_id, name).contains(k);
        assert(m.views.contains_key(k));
    }
    if view_has_name(m, schema_id, name) {
        let k = choose|k: u64| #[trigger]
            m.views.contains_key(k) && m.views[k].schema_id == schema_id && m.views[k].view_name
                == name;
        assert(views_named(m, schema_id, name).contains(k));
    }
    if tables_under(m, schema_id) != Set::<u64>::empty() {
        let k = choose|k: u64| tables_under(m, schema_id).contains(k);
        assert(m.tables.contains_key(k));
    }
    if has_table(m, schema_id) {
        let k = choose|k: u64| #[trigger]
            m.tables.contains_key(k) && m.tables[k].schema_id == schema_id;
        assert(tables_under(m, schema_id).contains(k));
    }
    if views_under(m, schema_id) != Set::<u64>::empty() {
        let k = choose|k: u64| views_under(m, schema_id).contains(k);
        assert(m.views.contains_key(k));
    }
    if has_view(m, schema_id) {
        let k = choose|k: u64| #[trigger]
            m.views.contains_key(k) && m.views[k].schema_id == schema_id;
        assert(views_under(m, schema_id).contains(k));
    }
    if columns_named(m, table_id, name) != Set::<(u64, u64)>::empty() {
        let k = choose|k: (u64, u64)| columns_named(m, table_id, name).contains(k);
        assert(m.columns.contains_key((table_id, k.1)));
    }
    if column_has_name(m, table_id, name) {
        let c = choose|c: u64| #[trigger]
            m.columns.contains_key((table_id, c)) && m.columns[(table_id, c)].column_name == name;
        assert(columns_named(m, table_id, name).contains((table_id, c)));
    }
    if delete_files_on(m, table_id, other_id) != Set::<(u64, u64)>::empty() {
        let k = choose|k: (u64, u64)| delete_files_on(m, table_id, other_id).contains(k);
        assert(m.delete_files.contains_key((table_id, k.1)));
    }
    if has_deletes(m, table_id, other_id) {
        let d = choose|d: u64| #[trigger]
            m.delete_files.contains_key((table_id, d)) && m.delete_files[(
                table_id,
                d,
            )].data_file_id == other_id;
        assert(delete_files_on(m, table_id, other_id).contains((table_id, d)));
    }
    if crate::verbs::is_indexed(m, table_id, other_id) {
        let k = choose|k: (u64, u64)| #[trigger]
            m.indexes.contains_key(k) && k.0 == table_id && m.indexes[k].columns.contains(other_id);
        assert(m.indexes.contains_key((table_id, k.1)));
    }
    if has_index(m, table_id, other_id) {
        let i = choose|i: u64| #[trigger]
            m.indexes.contains_key((table_id, i)) && m.indexes[(table_id, i)].columns.contains(
                other_id,
            );
        assert(m.indexes.contains_key((table_id, i)));
    }
}

proof fn one_or_none<A>(s: Set<A>)
    ensures
        s != Set::<A>::empty() <==> exists|k: A| s.contains(k),
{
    if forall|k: A| !s.contains(k) {
        assert(s =~= Set::empty());
    }
}

/// Whether two columns of a table that is made have one name.
pub open spec fn repeats(defs: Seq<ColumnDefSpec>) -> bool {
    exists|i: int, j: int|
        0 <= i < j < defs.len() && (#[trigger] defs[i]).name == (#[trigger] defs[j]).name
}

/// Whether a column of a table that is made has no name.
pub open spec fn nameless(defs: Seq<ColumnDefSpec>) -> bool {
    exists|i: int| 0 <= i < defs.len() && (#[trigger] defs[i]).name.len() == 0
}

proof fn columns_are_refused(defs: Seq<ColumnDefSpec>)
    ensures
        column_defs_refusal(defs) is Some <==> repeats(defs) || nameless(defs),
        column_defs_refusal(defs) is Some ==> column_defs_refusal(defs)->0 is Constraint,
        crate::txn::repeated_column(defs) is Some <==> repeats(defs),
        crate::txn::repeated_column(defs) is Some ==> crate::txn::repeated_column(
            defs,
        )->0 is Constraint,
    decreases defs.len(),
{
    if defs.len() > 0 {
        let front = defs.drop_last();
        let n = defs.len() - 1;
        columns_are_refused(front);
        assert(defs[n] == defs.last());
        if repeats(front) {
            let (i, j) = choose|i: int, j: int|
                0 <= i < j < front.len() && (#[trigger] front[i]).name == (
                #[trigger] front[j]).name;
            assert(defs[i] == front[i] && defs[j] == front[j]);
        }
        if nameless(front) {
            let i = choose|i: int| 0 <= i < front.len() && (#[trigger] front[i]).name.len() == 0;
            assert(defs[i] == front[i]);
        }
        if exists|i: int| 0 <= i < front.len() && (#[trigger] front[i]).name == defs.last().name {
            let i = choose|i: int|
                0 <= i < front.len() && (#[trigger] front[i]).name == defs.last().name;
            assert(defs[i].name == defs[n].name);
        }
        if repeats(defs) {
            let (i, j) = choose|i: int, j: int|
                0 <= i < j < defs.len() && (#[trigger] defs[i]).name == (#[trigger] defs[j]).name;
            assert(front[i] == defs[i]);
            if j < n {
                assert(front[j] == defs[j]);
            }
        }
        if nameless(defs) {
            let i = choose|i: int| 0 <= i < defs.len() && (#[trigger] defs[i]).name.len() == 0;
            if i < n {
                assert(front[i] == defs[i]);
            }
        }
    }
}

proof fn columns_are_laid_out(
    columns: Map<(u64, u64), ColumnModel>,
    table_id: u64,
    begin_snapshot: u64,
    defs: Seq<ColumnDefSpec>,
)
    requires
        defs.len() < u64::MAX,
    ensures
        forall|i: int|
            0 <= i < defs.len() ==> #[trigger] column_stands(
                laid_out(columns, table_id, begin_snapshot, defs),
                table_id,
                begin_snapshot,
                defs,
                i,
            ),
        forall|k: (u64, u64)|
            #![trigger laid_out(columns, table_id, begin_snapshot, defs).contains_key(k)]
            k.0 != table_id || k.1 == 0 || k.1 > defs.len() ==> {
                let after = laid_out(columns, table_id, begin_snapshot, defs);
                &&& after.contains_key(k) <==> columns.contains_key(k)
                &&& after.contains_key(k) ==> after[k] == columns[k]
            },
    decreases defs.len(),
{
    if defs.len() > 0 {
        let front = defs.drop_last();
        let n = defs.len() - 1;
        columns_are_laid_out(columns, table_id, begin_snapshot, front);
        let before = laid_out(columns, table_id, begin_snapshot, front);
        let after = laid_out(columns, table_id, begin_snapshot, defs);
        assert forall|i: int| 0 <= i < defs.len() implies #[trigger] column_stands(
            after,
            table_id,
            begin_snapshot,
            defs,
            i,
        ) by {
            if i < n {
                assert(front[i] == defs[i]);
                assert(column_stands(before, table_id, begin_snapshot, front, i));
            }
        }
        assert forall|k: (u64, u64)|
            k.0 != table_id || k.1 == 0 || k.1 > defs.len() implies (#[trigger] after.contains_key(k)
            <==> columns.contains_key(k)) && (after.contains_key(k) ==> after[k] == columns[k]) by {
            assert(before.contains_key(k) <==> columns.contains_key(k));
        }
    }
}

/// Whether a table has the column of a definition in its place: at the
/// definition's position, under the id one above it.
pub open spec fn column_stands(
    columns: Map<(u64, u64), ColumnModel>,
    table_id: u64,
    begin_snapshot: u64,
    defs: Seq<ColumnDefSpec>,
    i: int,
) -> bool {
    let at = (table_id, (i + 1) as u64);
    columns.contains_key(at) && new_column(
        columns[at],
        table_id,
        i + 1,
        i,
        begin_snapshot,
        defs[i],
    )
}

/// Whether a column is what a definition asks for.
pub open spec fn new_column(
    c: ColumnModel,
    table_id: u64,
    column_id: int,
    column_order: int,
    begin_snapshot: u64,
    def: ColumnDefSpec,
) -> bool {
    &&& c.table_id == table_id && c.column_id == column_id && c.column_order == column_order
    &&& c.begin_snapshot == begin_snapshot && c.end_snapshot is None
    &&& c.column_name == def.name && c.column_type == def.column_type
    &&& c.nulls_allowed == def.nulls_allowed && c.default_value == def.default_value
    &&& c.initial_default is None && c.parent_column is None
    &&& c.default_value_type is None && c.default_value_dialect is None
    &&& c.tags.len() == 0
}

/// Whether a table has a column other than one.
pub open spec fn has_other_column(m: CatalogModel, table_id: u64, column_id: u64) -> bool {
    exists|c: u64| c != column_id && #[trigger] m.columns.contains_key((table_id, c))
}

proof fn lone_columns_are_last(m: CatalogModel, table_id: u64, column_id: u64)
    ensures
        m.columns.contains_key((table_id, column_id)) ==> (scope(m.columns, table_id)
            == set![column_id] <==> !has_other_column(m, table_id, column_id)),
{
    if m.columns.contains_key((table_id, column_id)) {
        if !has_other_column(m, table_id, column_id) {
            assert forall|c: u64| scope(m.columns, table_id).contains(c) implies c == column_id by {
                assert(m.columns.contains_key((table_id, c)));
            }
            assert(scope(m.columns, table_id) =~= set![column_id]);
        } else {
            let c = choose|c: u64|
                c != column_id && #[trigger] m.columns.contains_key((table_id, c));
            assert(scope(m.columns, table_id).contains(c));
            assert(!set![column_id].contains(c));
        }
    }
}

proof fn slots_are_behind(m: CatalogModel, table_id: u64)
    ensures
        next_column(m, table_id) >= m.tables[table_id].next_column_id,
        next_column(m, table_id) >= 1,
        forall|o: u64| #[trigger]
            m.columns.contains_key((table_id, o)) ==> o < next_column(m, table_id)
                && m.columns[(table_id, o)].column_order < next_position(m, table_id),
        next_column(m, table_id) == m.tables[table_id].next_column_id || next_column(m, table_id)
            == 1 || m.columns.contains_key((table_id, (next_column(m, table_id) - 1) as u64)),
        next_position(m, table_id) >= 0,
        next_position(m, table_id) == 0 || exists|o: u64| #[trigger]
            m.columns.contains_key((table_id, o)) && m.columns[(table_id, o)].column_order + 1
                == next_position(m, table_id),
{
    let live = scope(m.columns, table_id);
    let orders = crate::verbs::positions(m, table_id);
    if live != Set::<u64>::empty() {
        one_or_none(live);
        let c = choose|c: u64| live.contains(c);
        has_largest(live, c);
        assert(m.columns.contains_key((table_id, c)));
        assert(orders.contains(m.columns[(table_id, c)].column_order));
        has_largest(orders, m.columns[(table_id, c)].column_order);
        assert(live.contains(largest(live) as u64));
        assert(orders.contains(largest(orders) as u64));
        let o = choose|o: u64| #[trigger]
            m.columns.contains_key((table_id, o)) && m.columns[(table_id, o)].column_order
                == largest(orders) as u64;
        assert(m.columns.contains_key((table_id, o)));
    }
    assert forall|o: u64| #[trigger] m.columns.contains_key((table_id, o)) implies o < next_column(
        m,
        table_id,
    ) && m.columns[(table_id, o)].column_order < next_position(m, table_id) by {
        assert(live.contains(o));
        assert(orders.contains(m.columns[(table_id, o)].column_order));
        has_largest(live, o);
        has_largest(orders, m.columns[(table_id, o)].column_order);
    }
}

proof fn stat_columns_are_live(
    m: CatalogModel,
    table_id: u64,
    stats: Seq<crate::api::FileColumnStatsSpec>,
)
    ensures
        match stat_columns_refusal(m, table_id, stats) {
            None => forall|i: int|
                0 <= i < stats.len() ==> m.columns.contains_key(
                    (table_id, (#[trigger] stats[i]).column_id.id),
                ),
            Some(f) => f is NotFound && exists|i: int|
                0 <= i < stats.len() && !m.columns.contains_key(
                    (table_id, (#[trigger] stats[i]).column_id.id),
                ),
        },
    decreases stats.len(),
{
    if stats.len() > 0 {
        let front = stats.drop_last();
        let n = stats.len() - 1;
        stat_columns_are_live(m, table_id, front);
        assert(stats[n] == stats.last());
        assert forall|i: int| 0 <= i < front.len() implies #[trigger] front[i] == stats[i] by {}
        if stat_columns_refusal(m, table_id, front) is Some {
            let i = choose|i: int|
                0 <= i < front.len() && !m.columns.contains_key(
                    (table_id, (#[trigger] front[i]).column_id.id),
                );
            assert(stats[i] == front[i]);
        } else if stat_columns_refusal(m, table_id, stats) is None {
            assert forall|i: int| 0 <= i < stats.len() implies m.columns.contains_key(
                (table_id, (#[trigger] stats[i]).column_id.id),
            ) by {
                if i < n {
                    assert(front[i] == stats[i]);
                }
            }
        }
    }
}

proof fn stats_come_with_files(
    m: Map<(u64, (u64, u64)), FileColumnStatsModel>,
    table_id: u64,
    id: u64,
    stats: Seq<crate::api::FileColumnStatsSpec>,
)
    ensures
        ({
            let after = with_file_stats(m, table_id, id, stats);
            &&& forall|k: (u64, (u64, u64))|
                k.0 != table_id || k.1.0 != id ==> (#[trigger] after.contains_key(k)
                    <==> m.contains_key(k)) && (after.contains_key(k) ==> after[k] == m[k])
            &&& forall|i: int|
                #![trigger stats[i]]
                0 <= i < stats.len() && (forall|j: int|
                    i < j < stats.len() ==> (#[trigger] stats[j]).column_id.id
                        != stats[i].column_id.id) ==> {
                    let s = stats[i];
                    let at = (table_id, (id, s.column_id.id));
                    &&& after.contains_key(at)
                    &&& after[at] == (FileColumnStatsModel {
                        data_file_id: id,
                        table_id,
                        column_id: s.column_id.id,
                        column_size_bytes: s.column_size_bytes,
                        value_count: s.value_count,
                        null_count: s.null_count,
                        min_value: s.min_value,
                        max_value: s.max_value,
                        contains_nan: s.contains_nan,
                        extra_stats: s.extra_stats,
                        variant_stats: Seq::empty(),
                    })
                }
        }),
    decreases stats.len(),
{
    if stats.len() > 0 {
        let front = stats.drop_last();
        let n = stats.len() - 1;
        stats_come_with_files(m, table_id, id, front);
        let before = with_file_stats(m, table_id, id, front);
        let after = with_file_stats(m, table_id, id, stats);
        assert(stats[n] == stats.last());
        assert forall|k: (u64, (u64, u64))| k.0 != table_id || k.1.0 != id implies (
        #[trigger] after.contains_key(k) <==> m.contains_key(k)) && (after.contains_key(k)
            ==> after[k] == m[k]) by {
            assert(before.contains_key(k) <==> m.contains_key(k));
        }
        assert forall|i: int|
            #![trigger stats[i]]
            0 <= i < stats.len() && (forall|j: int|
                i < j < stats.len() ==> (#[trigger] stats[j]).column_id.id
                    != stats[i].column_id.id) implies {
            let s = stats[i];
            let at = (table_id, (id, s.column_id.id));
            &&& after.contains_key(at)
            &&& after[at] == (FileColumnStatsModel {
                data_file_id: id,
                table_id,
                column_id: s.column_id.id,
                column_size_bytes: s.column_size_bytes,
                value_count: s.value_count,
                null_count: s.null_count,
                min_value: s.min_value,
                max_value: s.max_value,
                contains_nan: s.contains_nan,
                extra_stats: s.extra_stats,
                variant_stats: Seq::empty(),
            })
        } by {
            if i < n {
                assert(stats[n].column_id.id != stats[i].column_id.id);
                assert(front[i] == stats[i]);
                assert forall|j: int| i < j < front.len() implies (
                #[trigger] front[j]).column_id.id != front[i].column_id.id by {
                    assert(front[j] == stats[j]);
                }
            }
        }
    }
}

/// Where the options of a scope are.
pub open spec fn option_place(scope: OptionScope) -> (u64, u64) {
    match scope {
        OptionScope::Global => (0, 0),
        OptionScope::Schema(s) => (1, s.id),
        OptionScope::Table(t) => (2, t.id),
    }
}

/// The options of a scope.
pub open spec fn options_of(m: CatalogModel, scope: OptionScope) -> Map<Seq<char>, Seq<char>> {
    if m.options.contains_key(option_place(scope)) {
        m.options[option_place(scope)].options
    } else {
        Map::empty()
    }
}

/// Whether what a scope is of is live.
pub open spec fn scope_lives(m: CatalogModel, scope: OptionScope) -> bool {
    match scope {
        OptionScope::Global => true,
        OptionScope::Schema(s) => m.schemas.contains_key(s.id),
        OptionScope::Table(t) => m.tables.contains_key(t.id),
    }
}

// ---------------------------------------------------------------------------
// The verbs of a transaction
// ---------------------------------------------------------------------------

/// Creating a schema adds it under the next id, live from the transaction's
/// snapshot, in a directory of its name, and nothing else changes.
pub proof fn schemas_are_created(
    t: TransactionModel,
    name: Seq<char>,
    uuid: Seq<char>,
)
    requires
        t.next_catalog_id < u64::MAX,
    ensures
        ({
            let next = schema_created(t, name, uuid);
            &&& next.state == (CatalogModel { schemas: next.state.schemas, ..t.state })
            &&& puts(
                t.state.schemas,
                next.state.schemas,
                t.next_catalog_id,
                SchemaModel {
                    schema_id: t.next_catalog_id,
                    schema_uuid: uuid,
                    begin_snapshot: t.new_snapshot_id,
                    end_snapshot: None,
                    schema_name: name,
                    path: name.push('/'),
                    path_is_relative: true,
                },
            )
            &&& next.next_catalog_id == t.next_catalog_id + 1
            &&& next.ops == t.ops.push(OperationModel::CreateSchema { schema_id: t.next_catalog_id, name })
            &&& next.new_snapshot_id == t.new_snapshot_id
            &&& next.next_file_id == t.next_file_id
        }),
{
    reveal_strlit("/");
    reveal_strlit("");
    assert(crate::verbs::directory(name) =~= name.push('/'));
}

/// A schema cannot be created under a name that is no segment of a path, or that
/// a schema has.
pub proof fn schema_names_are_refused(
    t: TransactionModel,
    name: Seq<char>,
)
    ensures
        match create_schema_refusal(t, name) {
            None => !bad_name(name) && !schema_has_name(t.state, name),
            Some(Fault::Constraint(_)) => bad_name(name),
            Some(Fault::AlreadyExists(_)) => !bad_name(name) && schema_has_name(t.state, name),
            Some(_) => false,
        },
{
    bad_names_are_unsafe("schema"@, name);
    names_are_found(t.state, 0, 0, 0, name);
}

/// A schema can be dropped if it is live, is not the first one, and is empty.
pub proof fn schema_drops_are_refused(
    t: TransactionModel,
    id: u64,
)
    ensures
        match drop_schema_refusal(t, id) {
            None => id != 0 && t.state.schemas.contains_key(id) && !has_table(t.state, id)
                && !has_view(t.state, id),
            Some(Fault::Constraint(_)) => id == 0 || t.state.schemas.contains_key(id) && (
            has_table(t.state, id) || has_view(t.state, id)),
            Some(Fault::NotFound(_)) => id != 0 && !t.state.schemas.contains_key(id),
            Some(_) => false,
        },
{
    names_are_found(t.state, id, 0, 0, Seq::empty());
}

/// Dropping a schema takes it away, and nothing else.
pub proof fn schemas_are_dropped(
    t: TransactionModel,
    id: u64,
)
    ensures
        ({
            let next = schema_dropped(t, id);
            &&& next.state == (CatalogModel { schemas: next.state.schemas, ..t.state })
            &&& drops(t.state.schemas, next.state.schemas, |k: u64| k == id)
            &&& next.ops == t.ops.push(OperationModel::DropSchema { schema_id: id })
            &&& next.next_catalog_id == t.next_catalog_id
            &&& next.new_snapshot_id == t.new_snapshot_id
            &&& next.next_file_id == t.next_file_id
        }),
{
}

/// Creating a table adds it under the next id, live from the transaction's
/// snapshot, in a directory of its name, with its columns in their order, numbered
/// from one, and with statistics of no rows; and nothing else changes.
pub proof fn tables_are_created(
    t: TransactionModel,
    schema_id: u64,
    name: Seq<char>,
    defs: Seq<ColumnDefSpec>,
    uuid: Seq<char>,
)
    requires
        t.next_catalog_id < u64::MAX,
        defs.len() < u64::MAX,
    ensures
        ({
            let next = table_created(t, schema_id, name, defs, uuid);
            &&& next.state == (CatalogModel {
                tables: next.state.tables,
                columns: next.state.columns,
                table_stats: next.state.table_stats,
                ..t.state
            })
            &&& puts(
                t.state.tables,
                next.state.tables,
                t.next_catalog_id,
                TableModel {
                    table_id: t.next_catalog_id,
                    table_uuid: uuid,
                    begin_snapshot: t.new_snapshot_id,
                    end_snapshot: None,
                    schema_id,
                    table_name: name,
                    path: name.push('/'),
                    path_is_relative: true,
                    next_column_id: (defs.len() + 1) as u64,
                },
            )
            &&& puts(
                t.state.table_stats,
                next.state.table_stats,
                t.next_catalog_id,
                TableStatsModel {
                    table_id: t.next_catalog_id,
                    record_count: 0,
                    next_row_id: 0,
                    file_size_bytes: 0,
                },
            )
            &&& forall|i: int|
                0 <= i < defs.len() ==> #[trigger] column_stands(
                    next.state.columns,
                    t.next_catalog_id,
                    t.new_snapshot_id,
                    defs,
                    i,
                )
            &&& forall|k: (u64, u64)|
                k.0 != t.next_catalog_id || k.1 == 0 || k.1 > defs.len() ==> (
                #[trigger] next.state.columns.contains_key(k) <==> t.state.columns.contains_key(
                    k,
                )) && (next.state.columns.contains_key(k) ==> next.state.columns[k]
                    == t.state.columns[k])
            &&& next.next_catalog_id == t.next_catalog_id + 1
            &&& next.ops == t.ops.push(
                OperationModel::CreateTable {
                    schema_id,
                    table_id: t.next_catalog_id,
                    schema_name: t.state.schemas[schema_id].schema_name,
                    table_name: name,
                },
            )
            &&& next.new_snapshot_id == t.new_snapshot_id
            &&& next.next_file_id == t.next_file_id
        }),
{
    reveal_strlit("/");
    reveal_strlit("");
    assert(crate::verbs::directory(name) =~= name.push('/'));
    columns_are_laid_out(t.state.columns, t.next_catalog_id, t.new_snapshot_id, defs);
}

/// A table can be created in a live schema, under a name that is a segment of a
/// path and that no table or view of the schema has, with columns that have names
/// of their own.
pub proof fn table_creations_are_refused(
    t: TransactionModel,
    schema_id: u64,
    name: Seq<char>,
    defs: Seq<ColumnDefSpec>,
)
    ensures
        match create_table_refusal(t, schema_id, name, defs) {
            None => {
                &&& t.state.schemas.contains_key(schema_id) && !bad_name(name)
                &&& !table_has_name(t.state, schema_id, name)
                &&& !view_has_name(t.state, schema_id, name)
                &&& defs.len() > 0 && !repeats(defs) && !nameless(defs)
            },
            Some(Fault::NotFound(_)) => !t.state.schemas.contains_key(schema_id),
            Some(Fault::AlreadyExists(_)) => t.state.schemas.contains_key(schema_id) && !bad_name(
                name,
            ) && (table_has_name(t.state, schema_id, name) || view_has_name(
                t.state,
                schema_id,
                name,
            )),
            Some(Fault::Constraint(_)) => t.state.schemas.contains_key(schema_id) && (bad_name(name)
                || defs.len() == 0 || repeats(defs) || nameless(defs)),
            Some(_) => false,
        },
{
    bad_names_are_unsafe("table"@, name);
    names_are_found(t.state, schema_id, 0, 0, name);
    columns_are_refused(defs);
}

/// A live table can be renamed to a name that is a segment of a path and that no
/// table or view of its schema has.
pub proof fn table_renames_are_refused(
    t: TransactionModel,
    id: u64,
    name: Seq<char>,
)
    ensures
        match rename_table_refusal(t, id, name) {
            None => {
                &&& t.state.tables.contains_key(id) && !bad_name(name)
                &&& !table_has_name(t.state, t.state.tables[id].schema_id, name)
                &&& !view_has_name(t.state, t.state.tables[id].schema_id, name)
            },
            Some(Fault::Constraint(_)) => bad_name(name),
            Some(Fault::NotFound(_)) => !bad_name(name) && !t.state.tables.contains_key(id),
            Some(Fault::AlreadyExists(_)) => t.state.tables.contains_key(id) && (table_has_name(
                t.state,
                t.state.tables[id].schema_id,
                name,
            ) || view_has_name(t.state, t.state.tables[id].schema_id, name)),
            Some(_) => false,
        },
{
    bad_names_are_unsafe("table"@, name);
    names_are_found(t.state, t.state.tables[id].schema_id, 0, 0, name);
}

/// A live table can be moved to a live schema in which no table or view has its
/// name.
pub proof fn table_moves_are_refused(
    t: TransactionModel,
    id: u64,
    schema_id: u64,
)
    ensures
        match move_table_refusal(t, id, schema_id) {
            None => {
                &&& t.state.tables.contains_key(id) && t.state.schemas.contains_key(schema_id)
                &&& !table_has_name(t.state, schema_id, t.state.tables[id].table_name)
                &&& !view_has_name(t.state, schema_id, t.state.tables[id].table_name)
            },
            Some(Fault::NotFound(_)) => !t.state.tables.contains_key(id)
                || !t.state.schemas.contains_key(schema_id),
            Some(Fault::AlreadyExists(_)) => t.state.tables.contains_key(id) && (table_has_name(
                t.state,
                schema_id,
                t.state.tables[id].table_name,
            ) || view_has_name(t.state, schema_id, t.state.tables[id].table_name)),
            Some(_) => false,
        },
{
    names_are_found(t.state, schema_id, 0, 0, t.state.tables[id].table_name);
}

/// Renaming a table changes its name and begins a version, and nothing else.
pub proof fn tables_are_renamed(
    t: TransactionModel,
    id: u64,
    name: Seq<char>,
)
    requires
        t.state.tables.contains_key(id),
        t.state.tables[id].table_id == id,
    ensures
        ({
            let next = table_renamed(t, id, name);
            &&& next.state == (CatalogModel { tables: next.state.tables, ..t.state })
            &&& puts(
                t.state.tables,
                next.state.tables,
                id,
                TableModel {
                    table_name: name,
                    begin_snapshot: t.new_snapshot_id,
                    ..t.state.tables[id]
                },
            )
            &&& next.ops == t.ops.push(OperationModel::AlterTable { table_id: id })
            &&& next.next_catalog_id == t.next_catalog_id
            &&& next.new_snapshot_id == t.new_snapshot_id
            &&& next.next_file_id == t.next_file_id
        }),
{
}

/// Moving a table changes its schema and begins a version, and nothing else.
pub proof fn tables_are_moved(
    t: TransactionModel,
    id: u64,
    schema_id: u64,
)
    requires
        t.state.tables.contains_key(id),
        t.state.tables[id].table_id == id,
    ensures
        ({
            let next = table_moved(t, id, schema_id);
            &&& next.state == (CatalogModel { tables: next.state.tables, ..t.state })
            &&& puts(
                t.state.tables,
                next.state.tables,
                id,
                TableModel {
                    schema_id,
                    begin_snapshot: t.new_snapshot_id,
                    ..t.state.tables[id]
                },
            )
            &&& next.ops == t.ops.push(OperationModel::AlterTable { table_id: id })
            &&& next.next_catalog_id == t.next_catalog_id
            &&& next.new_snapshot_id == t.new_snapshot_id
            &&& next.next_file_id == t.next_file_id
        }),
{
}

/// Dropping a table takes it away with its columns, files, layouts, indexes and
/// statistics; what is not of it stays, and so do the statistics of its files.
pub proof fn tables_are_dropped(
    t: TransactionModel,
    id: u64,
)
    ensures
        ({
            let next = table_dropped(t, id);
            &&& next.state == (CatalogModel {
                tables: next.state.tables,
                columns: next.state.columns,
                data_files: next.state.data_files,
                delete_files: next.state.delete_files,
                partitions: next.state.partitions,
                sorts: next.state.sorts,
                indexes: next.state.indexes,
                table_stats: next.state.table_stats,
                table_column_stats: next.state.table_column_stats,
                ..t.state
            })
            &&& drops(t.state.tables, next.state.tables, |k: u64| k == id)
            &&& drops(t.state.columns, next.state.columns, |k: (u64, u64)| k.0 == id)
            &&& drops(t.state.data_files, next.state.data_files, |k: (u64, u64)| k.0 == id)
            &&& drops(t.state.delete_files, next.state.delete_files, |k: (u64, u64)| k.0 == id)
            &&& drops(t.state.partitions, next.state.partitions, |k: (u64, u64)| k.0 == id)
            &&& drops(t.state.sorts, next.state.sorts, |k: (u64, u64)| k.0 == id)
            &&& drops(t.state.indexes, next.state.indexes, |k: (u64, u64)| k.0 == id)
            &&& drops(t.state.table_stats, next.state.table_stats, |k: u64| k == id)
            &&& drops(
                t.state.table_column_stats,
                next.state.table_column_stats,
                |k: (u64, u64)| k.0 == id,
            )
            &&& next.ops == t.ops.push(OperationModel::DropTable { table_id: id })
            &&& next.next_catalog_id == t.next_catalog_id
            &&& next.new_snapshot_id == t.new_snapshot_id
            &&& next.next_file_id == t.next_file_id
        }),
{
}

/// Adding a column puts it behind the others, under an id that is above every
/// live one and at or above the table's counter, which moves beyond it; the table
/// begins a version, and nothing else changes.
pub proof fn columns_are_added(
    t: TransactionModel,
    table_id: u64,
    def: ColumnDefSpec,
)
    requires
        t.state.tables.contains_key(table_id),
        t.state.tables[table_id].table_id == table_id,
        next_column(t.state, table_id) < u64::MAX,
        next_position(t.state, table_id) <= u64::MAX,
    ensures
        ({
            let next = column_added(t, table_id, def);
            &&& next.state == (CatalogModel {
                tables: next.state.tables,
                columns: next.state.columns,
                ..t.state
            })
            &&& ({
                let id = (next.state.tables[table_id].next_column_id - 1) as u64;
                let c = next.state.columns[(table_id, id)];
                &&& puts(t.state.columns, next.state.columns, (table_id, id), c)
                &&& new_column(c, table_id, id as int, c.column_order as int, t.new_snapshot_id, def)
                &&& id >= t.state.tables[table_id].next_column_id
                &&& forall|o: u64| #[trigger]
                    t.state.columns.contains_key((table_id, o)) ==> o < id && t.state.columns[(
                        table_id,
                        o,
                    )].column_order < c.column_order
                &&& id == t.state.tables[table_id].next_column_id || id == 1
                    || t.state.columns.contains_key((table_id, (id - 1) as u64))
                &&& c.column_order == 0 || exists|o: u64| #[trigger]
                    t.state.columns.contains_key((table_id, o)) && t.state.columns[(
                        table_id,
                        o,
                    )].column_order + 1 == c.column_order
                &&& puts(
                    t.state.tables,
                    next.state.tables,
                    table_id,
                    TableModel {
                        next_column_id: (id + 1) as u64,
                        begin_snapshot: t.new_snapshot_id,
                        ..t.state.tables[table_id]
                    },
                )
            })
            &&& next.ops == t.ops.push(OperationModel::AlterTable { table_id })
            &&& next.next_catalog_id == t.next_catalog_id
            &&& next.new_snapshot_id == t.new_snapshot_id
            &&& next.next_file_id == t.next_file_id
        }),
{
    slots_are_behind(t.state, table_id);
}

/// A column can be added to a live table under a name that no column of it has.
pub proof fn column_additions_are_refused(
    t: TransactionModel,
    table_id: u64,
    name: Seq<char>,
)
    ensures
        match add_column_refusal(t, table_id, name) {
            None => name.len() > 0 && t.state.tables.contains_key(table_id) && !column_has_name(
                t.state,
                table_id,
                name,
            ),
            Some(Fault::Constraint(_)) => name.len() == 0,
            Some(Fault::NotFound(_)) => name.len() > 0 && !t.state.tables.contains_key(table_id),
            Some(Fault::AlreadyExists(_)) => t.state.tables.contains_key(table_id)
                && column_has_name(t.state, table_id, name),
            Some(_) => false,
        },
{
    names_are_found(t.state, 0, table_id, 0, name);
}

/// A live column can be renamed to a name that no column of its table has.
pub proof fn column_renames_are_refused(
    t: TransactionModel,
    table_id: u64,
    column_id: u64,
    name: Seq<char>,
)
    ensures
        match rename_column_refusal(t, table_id, column_id, name) {
            None => name.len() > 0 && t.state.columns.contains_key((table_id, column_id))
                && !column_has_name(t.state, table_id, name),
            Some(Fault::Constraint(_)) => name.len() == 0,
            Some(Fault::AlreadyExists(_)) => name.len() > 0 && column_has_name(
                t.state,
                table_id,
                name,
            ),
            Some(Fault::NotFound(_)) => !t.state.columns.contains_key((table_id, column_id)),
            Some(_) => false,
        },
{
    names_are_found(t.state, 0, table_id, 0, name);
}

/// A live column can be altered, but not the type of an indexed one.
pub proof fn column_alterations_are_refused(
    t: TransactionModel,
    table_id: u64,
    column_id: u64,
    a: ColumnAlterationSpec,
)
    ensures
        match alter_column_refusal(t, table_id, column_id, a) {
            None => t.state.columns.contains_key((table_id, column_id)) && (has_index(
                t.state,
                table_id,
                column_id,
            ) ==> a.column_type is None || a.column_type->0 == t.state.columns[(
                table_id,
                column_id,
            )].column_type),
            Some(Fault::NotFound(_)) => !t.state.columns.contains_key((table_id, column_id)),
            Some(Fault::Constraint(_)) => has_index(t.state, table_id, column_id)
                && a.column_type is Some && a.column_type->0 != t.state.columns[(
                table_id,
                column_id,
            )].column_type,
            Some(_) => false,
        },
{
    names_are_found(t.state, 0, table_id, column_id, Seq::empty());
}

/// A live column can be dropped if its table has another and no index is on it.
pub proof fn column_drops_are_refused(
    t: TransactionModel,
    table_id: u64,
    column_id: u64,
)
    ensures
        match drop_column_refusal(t, table_id, column_id) {
            None => {
                &&& t.state.columns.contains_key((table_id, column_id))
                &&& !has_index(t.state, table_id, column_id)
                &&& has_other_column(t.state, table_id, column_id)
            },
            Some(Fault::NotFound(_)) => !t.state.columns.contains_key((table_id, column_id)),
            Some(Fault::Constraint(_)) => t.state.columns.contains_key((table_id, column_id)) && (
            has_index(t.state, table_id, column_id) || !has_other_column(
                t.state,
                table_id,
                column_id,
            )),
            Some(_) => false,
        },
{
    names_are_found(t.state, 0, table_id, column_id, Seq::empty());
    lone_columns_are_last(t.state, table_id, column_id);
}

/// Renaming a column changes its name and begins a version, and nothing else.
pub proof fn columns_are_renamed(
    t: TransactionModel,
    table_id: u64,
    column_id: u64,
    name: Seq<char>,
)
    requires
        t.state.columns.contains_key((table_id, column_id)),
        t.state.columns[(table_id, column_id)].table_id == table_id,
        t.state.columns[(table_id, column_id)].column_id == column_id,
    ensures
        ({
            let next = column_renamed(t, table_id, column_id, name);
            &&& next.state == (CatalogModel { columns: next.state.columns, ..t.state })
            &&& puts(
                t.state.columns,
                next.state.columns,
                (table_id, column_id),
                ColumnModel {
                    column_name: name,
                    begin_snapshot: t.new_snapshot_id,
                    ..t.state.columns[(table_id, column_id)]
                },
            )
            &&& next.ops == t.ops.push(OperationModel::AlterTable { table_id })
            &&& next.next_catalog_id == t.next_catalog_id
            &&& next.new_snapshot_id == t.new_snapshot_id
            &&& next.next_file_id == t.next_file_id
        }),
{
}

/// Altering a column sets what is asked for, keeps the rest, begins a version,
/// and changes nothing else.
pub proof fn columns_are_altered(
    t: TransactionModel,
    table_id: u64,
    column_id: u64,
    a: ColumnAlterationSpec,
)
    requires
        t.state.columns.contains_key((table_id, column_id)),
        t.state.columns[(table_id, column_id)].table_id == table_id,
        t.state.columns[(table_id, column_id)].column_id == column_id,
    ensures
        ({
            let next = column_changed(t, table_id, column_id, a);
            &&& next.state == (CatalogModel { columns: next.state.columns, ..t.state })
            &&& ({
                let old_column = t.state.columns[(table_id, column_id)];
                let new_one = next.state.columns[(table_id, column_id)];
                &&& puts(t.state.columns, next.state.columns, (table_id, column_id), new_one)
                &&& new_one == (ColumnModel {
                    column_type: new_one.column_type,
                    nulls_allowed: new_one.nulls_allowed,
                    default_value: new_one.default_value,
                    begin_snapshot: t.new_snapshot_id,
                    ..old_column
                })
                &&& a.column_type is Some ==> new_one.column_type == a.column_type->0
                &&& a.column_type is None ==> new_one.column_type == old_column.column_type
                &&& a.nulls_allowed is Some ==> new_one.nulls_allowed == a.nulls_allowed->0
                &&& a.nulls_allowed is None ==> new_one.nulls_allowed == old_column.nulls_allowed
                &&& a.default_value is Some ==> new_one.default_value == a.default_value->0
                &&& a.default_value is None ==> new_one.default_value == old_column.default_value
            })
            &&& next.ops == t.ops.push(OperationModel::AlterTable { table_id })
            &&& next.next_catalog_id == t.next_catalog_id
            &&& next.new_snapshot_id == t.new_snapshot_id
            &&& next.next_file_id == t.next_file_id
        }),
{
}

/// Dropping a column takes it away with its statistics, and nothing else.
pub proof fn columns_are_dropped(
    t: TransactionModel,
    table_id: u64,
    column_id: u64,
)
    ensures
        ({
            let next = column_dropped(t, table_id, column_id);
            &&& next.state == (CatalogModel {
                columns: next.state.columns,
                table_column_stats: next.state.table_column_stats,
                ..t.state
            })
            &&& drops(t.state.columns, next.state.columns, |k: (u64, u64)| k == (table_id, column_id))
            &&& drops(
                t.state.table_column_stats,
                next.state.table_column_stats,
                |k: (u64, u64)| k == (table_id, column_id),
            )
            &&& next.ops == t.ops.push(OperationModel::AlterTable { table_id })
            &&& next.next_catalog_id == t.next_catalog_id
            &&& next.new_snapshot_id == t.new_snapshot_id
            &&& next.next_file_id == t.next_file_id
        }),
{
}

/// Creating a view adds it under the next id, live from the transaction's
/// snapshot, and nothing else changes.
pub proof fn views_are_created(
    t: TransactionModel,
    schema_id: u64,
    name: Seq<char>,
    dialect: Seq<char>,
    sql: Seq<char>,
    uuid: Seq<char>,
)
    requires
        t.next_catalog_id < u64::MAX,
    ensures
        ({
            let next = view_created(t, schema_id, name, dialect, sql, uuid);
            &&& next.state == (CatalogModel { views: next.state.views, ..t.state })
            &&& puts(
                t.state.views,
                next.state.views,
                t.next_catalog_id,
                ViewModel {
                    view_id: t.next_catalog_id,
                    view_uuid: uuid,
                    begin_snapshot: t.new_snapshot_id,
                    end_snapshot: None,
                    schema_id,
                    view_name: name,
                    dialect,
                    sql,
                    column_aliases: None,
                },
            )
            &&& next.next_catalog_id == t.next_catalog_id + 1
            &&& next.ops == t.ops.push(
                OperationModel::CreateView {
                    schema_id,
                    view_id: t.next_catalog_id,
                    schema_name: t.state.schemas[schema_id].schema_name,
                    view_name: name,
                },
            )
            &&& next.new_snapshot_id == t.new_snapshot_id
            &&& next.next_file_id == t.next_file_id
        }),
{
}

/// A view can be created in a live schema under a name that is a segment of a path
/// and that no table or view of the schema has.
pub proof fn view_creations_are_refused(
    t: TransactionModel,
    schema_id: u64,
    name: Seq<char>,
)
    ensures
        match create_view_refusal(t, schema_id, name) {
            None => {
                &&& t.state.schemas.contains_key(schema_id) && !bad_name(name)
                &&& !table_has_name(t.state, schema_id, name)
                &&& !view_has_name(t.state, schema_id, name)
            },
            Some(Fault::Constraint(_)) => bad_name(name),
            Some(Fault::NotFound(_)) => !bad_name(name) && !t.state.schemas.contains_key(schema_id),
            Some(Fault::AlreadyExists(_)) => table_has_name(t.state, schema_id, name)
                || view_has_name(t.state, schema_id, name),
            Some(_) => false,
        },
{
    bad_names_are_unsafe("view"@, name);
    names_are_found(t.state, schema_id, 0, 0, name);
}

/// Replacing a view's definition changes its dialect and text and begins a
/// version, and nothing else.
pub proof fn views_are_altered(
    t: TransactionModel,
    id: u64,
    dialect: Seq<char>,
    sql: Seq<char>,
)
    requires
        t.state.views.contains_key(id),
        t.state.views[id].view_id == id,
    ensures
        ({
            let next = view_altered(t, id, dialect, sql);
            &&& next.state == (CatalogModel { views: next.state.views, ..t.state })
            &&& puts(
                t.state.views,
                next.state.views,
                id,
                ViewModel {
                    dialect,
                    sql,
                    begin_snapshot: t.new_snapshot_id,
                    ..t.state.views[id]
                },
            )
            &&& next.ops == t.ops.push(OperationModel::AlterView { view_id: id })
            &&& next.next_catalog_id == t.next_catalog_id
            &&& next.new_snapshot_id == t.new_snapshot_id
            &&& next.next_file_id == t.next_file_id
        }),
{
}

/// Dropping a view takes it away, and nothing else.
pub proof fn views_are_dropped(
    t: TransactionModel,
    id: u64,
)
    ensures
        ({
            let next = view_dropped(t, id);
            &&& next.state == (CatalogModel { views: next.state.views, ..t.state })
            &&& drops(t.state.views, next.state.views, |k: u64| k == id)
            &&& next.ops == t.ops.push(OperationModel::DropView { view_id: id })
            &&& next.next_catalog_id == t.next_catalog_id
            &&& next.new_snapshot_id == t.new_snapshot_id
            &&& next.next_file_id == t.next_file_id
        }),
{
}

/// Registering a data file adds it under the next file id, live from the
/// transaction's snapshot, with the row ids that its table has next; the table's
/// statistics count its rows and bytes, and its columns' statistics come with it.
/// Nothing else changes.
pub proof fn data_files_are_registered(
    t: TransactionModel,
    table_id: u64,
    file: DataFileSpec,
)
    requires
        t.next_file_id < u64::MAX,
        t.state.table_stats.contains_key(table_id),
        t.state.table_stats[table_id].table_id == table_id,
    ensures
        ({
            let next = file_registered(t, table_id, file);
            &&& next.state == (CatalogModel {
                table_stats: next.state.table_stats,
                data_files: next.state.data_files,
                file_column_stats: next.state.file_column_stats,
                ..t.state
            })
            &&& puts(
                t.state.data_files,
                next.state.data_files,
                (table_id, t.next_file_id),
                DataFileModel {
                    data_file_id: t.next_file_id,
                    table_id,
                    begin_snapshot: t.new_snapshot_id,
                    end_snapshot: None,
                    file_order: None,
                    path: file.path,
                    path_is_relative: file.path_is_relative,
                    file_format: file.file_format,
                    record_count: file.record_count,
                    file_size_bytes: file.file_size_bytes,
                    footer_size: file.footer_size,
                    row_id_start: Some(t.state.table_stats[table_id].next_row_id),
                    partition_id: None,
                    encryption_key: file.encryption_key,
                    mapping_id: None,
                    partial_max: None,
                    partition_values: Seq::empty(),
                },
            )
            &&& ({
                let was = t.state.table_stats[table_id];
                let now = next.state.table_stats[table_id];
                &&& puts(t.state.table_stats, next.state.table_stats, table_id, now)
                &&& now.table_id == table_id
                &&& was.record_count + file.record_count <= u64::MAX ==> now.record_count
                    == was.record_count + file.record_count
                &&& was.next_row_id + file.record_count <= u64::MAX ==> now.next_row_id
                    == was.next_row_id + file.record_count
                &&& was.file_size_bytes + file.file_size_bytes <= u64::MAX ==> now.file_size_bytes
                    == was.file_size_bytes + file.file_size_bytes
            })
            &&& forall|k: (u64, (u64, u64))|
                k.0 != table_id || k.1.0 != t.next_file_id ==> (
                #[trigger] next.state.file_column_stats.contains_key(k)
                    <==> t.state.file_column_stats.contains_key(k)) && (
                next.state.file_column_stats.contains_key(k) ==> next.state.file_column_stats[k]
                    == t.state.file_column_stats[k])
            &&& forall|i: int|
                #![trigger file.column_stats[i]]
                0 <= i < file.column_stats.len() && (forall|j: int|
                    i < j < file.column_stats.len() ==> (
                    #[trigger] file.column_stats[j]).column_id.id
                        != file.column_stats[i].column_id.id) ==> {
                    let s = file.column_stats[i];
                    let at = (table_id, (t.next_file_id, s.column_id.id));
                    &&& next.state.file_column_stats.contains_key(at)
                    &&& next.state.file_column_stats[at] == (FileColumnStatsModel {
                        data_file_id: t.next_file_id,
                        table_id,
                        column_id: s.column_id.id,
                        column_size_bytes: s.column_size_bytes,
                        value_count: s.value_count,
                        null_count: s.null_count,
                        min_value: s.min_value,
                        max_value: s.max_value,
                        contains_nan: s.contains_nan,
                        extra_stats: s.extra_stats,
                        variant_stats: Seq::empty(),
                    })
                }
            &&& next.next_file_id == t.next_file_id + 1
            &&& next.ops == t.ops.push(OperationModel::RegisterDataFile { table_id })
            &&& next.new_snapshot_id == t.new_snapshot_id
            &&& next.next_catalog_id == t.next_catalog_id
        }),
{
    stats_come_with_files(
        t.state.file_column_stats,
        table_id,
        t.next_file_id,
        file.column_stats,
    );
}

/// A data file can be registered with a live table if the columns that it has
/// statistics of are live.
pub proof fn file_registrations_are_refused(
    t: TransactionModel,
    table_id: u64,
    file: DataFileSpec,
)
    ensures
        match register_file_refusal(t, table_id, file) {
            None => t.state.tables.contains_key(table_id) && forall|i: int|
                0 <= i < file.column_stats.len() ==> t.state.columns.contains_key(
                    (table_id, (#[trigger] file.column_stats[i]).column_id.id),
                ),
            Some(Fault::NotFound(_)) => !t.state.tables.contains_key(table_id) || exists|i: int|
                0 <= i < file.column_stats.len() && !t.state.columns.contains_key(
                    (table_id, (#[trigger] file.column_stats[i]).column_id.id),
                ),
            Some(_) => false,
        },
{
    stat_columns_are_live(t.state, table_id, file.column_stats);
}

/// Expiring a data file takes it away with its delete files; the table's
/// statistics lose its rows and bytes, but no row id comes back. Nothing else
/// changes.
pub proof fn data_files_are_expired(
    t: TransactionModel,
    table_id: u64,
    id: u64,
)
    requires
        t.state.data_files.contains_key((table_id, id)),
        t.state.table_stats.contains_key(table_id),
        t.state.table_stats[table_id].table_id == table_id,
    ensures
        ({
            let next = file_expired(t, table_id, id);
            &&& next.state == (CatalogModel {
                table_stats: next.state.table_stats,
                data_files: next.state.data_files,
                delete_files: next.state.delete_files,
                ..t.state
            })
            &&& drops(t.state.data_files, next.state.data_files, |k: (u64, u64)| k == (table_id, id))
            &&& drops(
                t.state.delete_files,
                next.state.delete_files,
                |k: (u64, u64)| k.0 == table_id && t.state.delete_files[k].data_file_id == id,
            )
            &&& ({
                let was = t.state.table_stats[table_id];
                let now = next.state.table_stats[table_id];
                let gone = t.state.data_files[(table_id, id)];
                &&& puts(t.state.table_stats, next.state.table_stats, table_id, now)
                &&& now.table_id == table_id
                &&& now.next_row_id == was.next_row_id
                &&& was.record_count >= gone.record_count ==> now.record_count
                    == was.record_count - gone.record_count
                &&& was.record_count < gone.record_count ==> now.record_count == 0
                &&& was.file_size_bytes >= gone.file_size_bytes ==> now.file_size_bytes
                    == was.file_size_bytes - gone.file_size_bytes
                &&& was.file_size_bytes < gone.file_size_bytes ==> now.file_size_bytes == 0
            })
            &&& next.next_file_id == t.next_file_id
            &&& next.ops == t.ops.push(OperationModel::ExpireDataFile { table_id })
            &&& next.new_snapshot_id == t.new_snapshot_id
            &&& next.next_catalog_id == t.next_catalog_id
        }),
{
}

/// Registering a delete file adds it under the next file id, live from the
/// transaction's snapshot, and nothing else changes.
pub proof fn delete_files_are_registered(
    t: TransactionModel,
    table_id: u64,
    file: DeleteFileSpec,
)
    requires
        t.next_file_id < u64::MAX,
    ensures
        ({
            let next = delete_registered(t, table_id, file);
            &&& next.state == (CatalogModel { delete_files: next.state.delete_files, ..t.state })
            &&& puts(
                t.state.delete_files,
                next.state.delete_files,
                (table_id, t.next_file_id),
                DeleteFileModel {
                    delete_file_id: t.next_file_id,
                    table_id,
                    begin_snapshot: t.new_snapshot_id,
                    end_snapshot: None,
                    data_file_id: file.data_file_id.id,
                    path: file.path,
                    path_is_relative: file.path_is_relative,
                    format: file.format,
                    delete_count: file.delete_count,
                    file_size_bytes: file.file_size_bytes,
                    footer_size: file.footer_size,
                    encryption_key: file.encryption_key,
                    partial_max: None,
                },
            )
            &&& next.next_file_id == t.next_file_id + 1
            &&& next.ops == t.ops.push(OperationModel::RegisterDeleteFile { table_id })
            &&& next.new_snapshot_id == t.new_snapshot_id
            &&& next.next_catalog_id == t.next_catalog_id
        }),
{
}

/// A delete file can be registered for a live data file that has none.
pub proof fn delete_registrations_are_refused(
    t: TransactionModel,
    table_id: u64,
    data_file_id: u64,
)
    ensures
        match register_delete_refusal(t, table_id, data_file_id) {
            None => t.state.tables.contains_key(table_id) && t.state.data_files.contains_key(
                (table_id, data_file_id),
            ) && !has_deletes(t.state, table_id, data_file_id),
            Some(Fault::NotFound(_)) => !t.state.tables.contains_key(table_id)
                || !t.state.data_files.contains_key((table_id, data_file_id)),
            Some(Fault::Constraint(_)) => t.state.tables.contains_key(table_id)
                && t.state.data_files.contains_key((table_id, data_file_id)) && has_deletes(
                t.state,
                table_id,
                data_file_id,
            ),
            Some(_) => false,
        },
{
    names_are_found(t.state, 0, table_id, data_file_id, Seq::empty());
}

/// Expiring a delete file takes it away, and nothing else.
pub proof fn delete_files_are_expired(
    t: TransactionModel,
    table_id: u64,
    id: u64,
)
    ensures
        ({
            let next = delete_expired(t, table_id, id);
            &&& next.state == (CatalogModel { delete_files: next.state.delete_files, ..t.state })
            &&& drops(t.state.delete_files, next.state.delete_files, |k: (u64, u64)| k == (table_id, id))
            &&& next.next_file_id == t.next_file_id
            &&& next.ops == t.ops.push(OperationModel::ExpireDeleteFile { table_id })
            &&& next.new_snapshot_id == t.new_snapshot_id
            &&& next.next_catalog_id == t.next_catalog_id
        }),
{
}

/// Setting a table's statistics changes its rows and bytes; no row id comes back,
/// and nothing else changes. The table must be live and have statistics.
pub proof fn table_stats_are_set(
    t: TransactionModel,
    table_id: u64,
    record_count: u64,
    file_size_bytes: u64,
)
    ensures
        ({
            let next = table_stats_set(t, table_id, record_count, file_size_bytes);
            &&& next.state == (CatalogModel { table_stats: next.state.table_stats, ..t.state })
            &&& t.state.table_stats[table_id].table_id == table_id ==> puts(
                t.state.table_stats,
                next.state.table_stats,
                table_id,
                TableStatsModel {
                    table_id,
                    record_count,
                    next_row_id: t.state.table_stats[table_id].next_row_id,
                    file_size_bytes,
                },
            )
            &&& next.next_file_id == t.next_file_id
            &&& next.ops == t.ops.push(OperationModel::UpdateStats { table_id })
            &&& next.new_snapshot_id == t.new_snapshot_id
            &&& next.next_catalog_id == t.next_catalog_id
        }),
        match update_stats_refusal(t, table_id) {
            None => t.state.tables.contains_key(table_id) && t.state.table_stats.contains_key(
                table_id,
            ),
            Some(Fault::NotFound(_)) => !t.state.tables.contains_key(table_id),
            Some(Fault::Corruption(_)) => t.state.tables.contains_key(table_id)
                && !t.state.table_stats.contains_key(table_id),
            Some(_) => false,
        },
{
}

/// Setting a column's statistics stores them as they came, and nothing else
/// changes.
pub proof fn column_stats_are_set(
    t: TransactionModel,
    table_id: u64,
    column_id: u64,
    s: ColumnStatsSpec,
)
    ensures
        ({
            let next = column_stats_set(t, table_id, column_id, s);
            &&& next.state == (CatalogModel {
                table_column_stats: next.state.table_column_stats,
                ..t.state
            })
            &&& ({
                let now = next.state.table_column_stats[(table_id, column_id)];
                &&& puts(
                    t.state.table_column_stats,
                    next.state.table_column_stats,
                    (table_id, column_id),
                    now,
                )
                &&& now.table_id == table_id && now.column_id == column_id
                &&& now.contains_null == s.contains_null && now.contains_nan == s.contains_nan
                &&& now.min_value == s.min_value && now.max_value == s.max_value
                &&& now.extra_stats == s.extra_stats
            })
            &&& next.next_file_id == t.next_file_id
            &&& next.ops == t.ops.push(OperationModel::UpdateStats { table_id })
            &&& next.new_snapshot_id == t.new_snapshot_id
            &&& next.next_catalog_id == t.next_catalog_id
        }),
{
}

/// Setting an option puts its value under its key and scope, leaves the others,
/// and logs nothing.
pub proof fn options_are_set(
    t: TransactionModel,
    scope: OptionScope,
    key: Seq<char>,
    value: Seq<char>,
)
    ensures
        ({
            let next = option_set(t, scope, key, value);
            &&& next == (TransactionModel {
                state: CatalogModel { options: next.state.options, ..t.state },
                ..t
            })
            &&& ({
                let at = option_place(scope);
                &&& puts(t.state.options, next.state.options, at, next.state.options[at])
                &&& puts(
                    options_of(t.state, scope),
                    next.state.options[at].options,
                    key,
                    value,
                )
            })
        }),
{
}

/// Unsetting an option takes its value away, leaves the others, and logs nothing; a
/// scope without options has no record.
pub proof fn options_are_unset(
    t: TransactionModel,
    scope: OptionScope,
    key: Seq<char>,
)
    ensures
        ({
            let next = option_unset(t, scope, key);
            &&& next == (TransactionModel {
                state: CatalogModel { options: next.state.options, ..t.state },
                ..t
            })
            &&& forall|k: Seq<char>| #[trigger]
                options_of(next.state, scope).contains_key(k) <==> options_of(
                    t.state,
                    scope,
                ).contains_key(k) && k != key
            &&& forall|k: Seq<char>| #[trigger]
                options_of(next.state, scope).contains_key(k) ==> options_of(next.state, scope)[k]
                    == options_of(t.state, scope)[k]
            &&& forall|o: OptionScope|
                o != scope ==> #[trigger] options_of(next.state, o) == options_of(t.state, o)
            &&& options_of(t.state, scope).contains_key(key) && options_of(
                next.state,
                scope,
            ) == Map::<Seq<char>, Seq<char>>::empty() ==> !next.state.options.contains_key(
                option_place(scope),
            )
        }),
{
    let before = options_of(t.state, scope);
    let next = option_unset(t, scope, key);
    assert(crate::verbs::options_at(t.state, scope) == before);
    if before.contains_key(key) {
        if before.remove(key) == Map::<Seq<char>, Seq<char>>::empty() {
            assert(options_of(next.state, scope) == Map::<Seq<char>, Seq<char>>::empty());
            assert forall|k: Seq<char>| before.contains_key(k) implies k == key by {
                if k != key {
                    assert(before.remove(key).contains_key(k));
                }
            }
        }
    }
    assert forall|o: OptionScope| o != scope implies #[trigger] options_of(next.state, o)
        == options_of(t.state, o) by {
        assert(option_place(o) != option_place(scope));
    }
}

/// An option can be set at the catalog, a live schema or a live table under a key
/// that is not empty, and unset there; the catalog's encryption stays as it is.
pub proof fn options_are_refused(
    t: TransactionModel,
    scope: OptionScope,
    key: Seq<char>,
)
    ensures
        match set_option_refusal(t, scope, key) {
            None => key.len() > 0 && scope_lives(t.state, scope) && !(scope is Global && key
                == "encrypted"@),
            Some(Fault::NotFound(_)) => key.len() > 0 && !scope_lives(t.state, scope),
            Some(Fault::Constraint(_)) => key.len() == 0 || scope is Global && key
                == "encrypted"@,
            Some(_) => false,
        },
        match unset_option_refusal(t, scope, key) {
            None => scope_lives(t.state, scope) && !(scope is Global && key == "encrypted"@),
            Some(Fault::NotFound(_)) => !scope_lives(t.state, scope),
            Some(Fault::Constraint(_)) => scope is Global && key == "encrypted"@,
            Some(_) => false,
        },
{
}

// ---------------------------------------------------------------------------
// The verbs of the small handle
// ---------------------------------------------------------------------------

/// Creating a schema through the small handle adds it under the next id, live from the transaction's
/// snapshot, in a directory of its name, and nothing else changes.
pub proof fn small_schemas_are_created(
    t: TxnModel,
    name: Seq<char>,
    uuid: Seq<char>,
)
    requires
        t.next_catalog_id < u64::MAX,
    ensures
        ({
            let next = crate::txn::schema_created(t, name, uuid);
            &&& next.state == (CatalogModel { schemas: next.state.schemas, ..t.state })
            &&& puts(
                t.state.schemas,
                next.state.schemas,
                t.next_catalog_id,
                SchemaModel {
                    schema_id: t.next_catalog_id,
                    schema_uuid: uuid,
                    begin_snapshot: t.new_snapshot_id,
                    end_snapshot: None,
                    schema_name: name,
                    path: name.push('/'),
                    path_is_relative: true,
                },
            )
            &&& next.next_catalog_id == t.next_catalog_id + 1
            &&& next.ops == t.ops.push(OperationModel::CreateSchema { schema_id: t.next_catalog_id, name })
            &&& next.new_snapshot_id == t.new_snapshot_id
        }),
{
    reveal_strlit("/");
    reveal_strlit("");
    assert(crate::verbs::directory(name) =~= name.push('/'));
}

/// A schema cannot be created through the small handle under a name that a schema has.
pub proof fn small_schema_names_are_refused(
    t: TxnModel,
    name: Seq<char>,
)
    ensures
        match crate::txn::create_schema_refusal(t, name) {
            None => !schema_has_name(t.state, name),
            Some(Fault::AlreadyExists(_)) => schema_has_name(t.state, name),
            Some(_) => false,
        },
{
    names_are_found(t.state, 0, 0, 0, name);
}

/// A schema can be dropped through the small handle if it is live and has no table.
pub proof fn small_schema_drops_are_refused(
    t: TxnModel,
    id: u64,
)
    ensures
        match crate::txn::drop_schema_refusal(t, id) {
            None => t.state.schemas.contains_key(id) && !has_table(t.state, id),
            Some(Fault::Constraint(_)) => t.state.schemas.contains_key(id) && has_table(t.state, id),
            Some(Fault::NotFound(_)) => !t.state.schemas.contains_key(id),
            Some(_) => false,
        },
{
    names_are_found(t.state, id, 0, 0, Seq::empty());
}

/// Dropping a schema through the small handle takes it away, and nothing else.
pub proof fn small_schemas_are_dropped(
    t: TxnModel,
    id: u64,
)
    ensures
        ({
            let next = crate::txn::schema_dropped(t, id);
            &&& next.state == (CatalogModel { schemas: next.state.schemas, ..t.state })
            &&& drops(t.state.schemas, next.state.schemas, |k: u64| k == id)
            &&& next.ops == t.ops.push(OperationModel::DropSchema { schema_id: id })
            &&& next.next_catalog_id == t.next_catalog_id
            &&& next.new_snapshot_id == t.new_snapshot_id
        }),
{
}

/// Creating a table through the small handle adds it under the next id, live from the transaction's
/// snapshot, in a directory of its name, with its columns in their order, numbered
/// from one; and nothing else changes.
pub proof fn small_tables_are_created(
    t: TxnModel,
    schema_id: u64,
    name: Seq<char>,
    defs: Seq<ColumnDefSpec>,
    uuid: Seq<char>,
)
    requires
        t.next_catalog_id < u64::MAX,
        defs.len() < u64::MAX,
    ensures
        ({
            let next = crate::txn::table_created(t, schema_id, name, defs, uuid);
            &&& next.state == (CatalogModel {
                tables: next.state.tables,
                columns: next.state.columns,
                ..t.state
            })
            &&& puts(
                t.state.tables,
                next.state.tables,
                t.next_catalog_id,
                TableModel {
                    table_id: t.next_catalog_id,
                    table_uuid: uuid,
                    begin_snapshot: t.new_snapshot_id,
                    end_snapshot: None,
                    schema_id,
                    table_name: name,
                    path: name.push('/'),
                    path_is_relative: true,
                    next_column_id: (defs.len() + 1) as u64,
                },
            )
            &&& forall|i: int|
                0 <= i < defs.len() ==> #[trigger] column_stands(
                    next.state.columns,
                    t.next_catalog_id,
                    t.new_snapshot_id,
                    defs,
                    i,
                )
            &&& forall|k: (u64, u64)|
                k.0 != t.next_catalog_id || k.1 == 0 || k.1 > defs.len() ==> (
                #[trigger] next.state.columns.contains_key(k) <==> t.state.columns.contains_key(
                    k,
                )) && (next.state.columns.contains_key(k) ==> next.state.columns[k]
                    == t.state.columns[k])
            &&& next.next_catalog_id == t.next_catalog_id + 1
            &&& next.ops == t.ops.push(
                OperationModel::CreateTable {
                    schema_id,
                    table_id: t.next_catalog_id,
                    schema_name: t.state.schemas[schema_id].schema_name,
                    table_name: name,
                },
            )
            &&& next.new_snapshot_id == t.new_snapshot_id
        }),
{
    reveal_strlit("/");
    reveal_strlit("");
    assert(crate::verbs::directory(name) =~= name.push('/'));
    columns_are_laid_out(t.state.columns, t.next_catalog_id, t.new_snapshot_id, defs);
}

/// A table can be created through the small handle in a live schema, under a name that no table of the
/// schema has, with columns that have names of their own.
pub proof fn small_table_creations_are_refused(
    t: TxnModel,
    schema_id: u64,
    name: Seq<char>,
    defs: Seq<ColumnDefSpec>,
)
    ensures
        match crate::txn::create_table_refusal(t, schema_id, name, defs) {
            None => {
                &&& t.state.schemas.contains_key(schema_id)
                &&& !table_has_name(t.state, schema_id, name)
                &&& defs.len() > 0 && !repeats(defs)
            },
            Some(Fault::NotFound(_)) => !t.state.schemas.contains_key(schema_id),
            Some(Fault::AlreadyExists(_)) => t.state.schemas.contains_key(schema_id)
                && table_has_name(t.state, schema_id, name),
            Some(Fault::Constraint(_)) => t.state.schemas.contains_key(schema_id) && (defs.len()
                == 0 || repeats(defs)),
            Some(_) => false,
        },
{
    names_are_found(t.state, schema_id, 0, 0, name);
    columns_are_refused(defs);
}

/// A live table can be renamed through the small handle to a name that no table of its schema has.
pub proof fn small_table_renames_are_refused(
    t: TxnModel,
    id: u64,
    name: Seq<char>,
)
    ensures
        match crate::txn::rename_table_refusal(t, id, name) {
            None => t.state.tables.contains_key(id) && !table_has_name(
                t.state,
                t.state.tables[id].schema_id,
                name,
            ),
            Some(Fault::NotFound(_)) => !t.state.tables.contains_key(id),
            Some(Fault::AlreadyExists(_)) => t.state.tables.contains_key(id) && table_has_name(
                t.state,
                t.state.tables[id].schema_id,
                name,
            ),
            Some(_) => false,
        },
{
    names_are_found(t.state, t.state.tables[id].schema_id, 0, 0, name);
}

/// A live table can be moved through the small handle to a live schema in which no table has its name.
pub proof fn small_table_moves_are_refused(
    t: TxnModel,
    id: u64,
    schema_id: u64,
)
    ensures
        match crate::txn::move_table_refusal(t, id, schema_id) {
            None => t.state.tables.contains_key(id) && t.state.schemas.contains_key(schema_id)
                && !table_has_name(t.state, schema_id, t.state.tables[id].table_name),
            Some(Fault::NotFound(_)) => !t.state.tables.contains_key(id)
                || !t.state.schemas.contains_key(schema_id),
            Some(Fault::AlreadyExists(_)) => t.state.tables.contains_key(id) && table_has_name(
                t.state,
                schema_id,
                t.state.tables[id].table_name,
            ),
            Some(_) => false,
        },
{
    names_are_found(t.state, schema_id, 0, 0, t.state.tables[id].table_name);
}

/// Renaming a table through the small handle changes its name and begins a version, and nothing else.
pub proof fn small_tables_are_renamed(
    t: TxnModel,
    id: u64,
    name: Seq<char>,
)
    requires
        t.state.tables.contains_key(id),
        t.state.tables[id].table_id == id,
    ensures
        ({
            let next = crate::txn::table_renamed(t, id, name);
            &&& next.state == (CatalogModel { tables: next.state.tables, ..t.state })
            &&& puts(
                t.state.tables,
                next.state.tables,
                id,
                TableModel {
                    table_name: name,
                    begin_snapshot: t.new_snapshot_id,
                    ..t.state.tables[id]
                },
            )
            &&& next.ops == t.ops.push(OperationModel::AlterTable { table_id: id })
            &&& next.next_catalog_id == t.next_catalog_id
            &&& next.new_snapshot_id == t.new_snapshot_id
        }),
{
}

/// Moving a table through the small handle changes its schema and begins a version, and nothing else.
pub proof fn small_tables_are_moved(
    t: TxnModel,
    id: u64,
    schema_id: u64,
)
    requires
        t.state.tables.contains_key(id),
        t.state.tables[id].table_id == id,
    ensures
        ({
            let next = crate::txn::table_moved(t, id, schema_id);
            &&& next.state == (CatalogModel { tables: next.state.tables, ..t.state })
            &&& puts(
                t.state.tables,
                next.state.tables,
                id,
                TableModel {
                    schema_id,
                    begin_snapshot: t.new_snapshot_id,
                    ..t.state.tables[id]
                },
            )
            &&& next.ops == t.ops.push(OperationModel::AlterTable { table_id: id })
            &&& next.next_catalog_id == t.next_catalog_id
            &&& next.new_snapshot_id == t.new_snapshot_id
        }),
{
}

/// Dropping a table through the small handle takes it away with its columns, files, layouts, indexes and
/// statistics; what is not of it stays, and so do the statistics of its files.
pub proof fn small_tables_are_dropped(
    t: TxnModel,
    id: u64,
)
    ensures
        ({
            let next = crate::txn::table_dropped(t, id);
            &&& next.state == (CatalogModel {
                tables: next.state.tables,
                columns: next.state.columns,
                data_files: next.state.data_files,
                delete_files: next.state.delete_files,
                partitions: next.state.partitions,
                sorts: next.state.sorts,
                indexes: next.state.indexes,
                table_stats: next.state.table_stats,
                table_column_stats: next.state.table_column_stats,
                ..t.state
            })
            &&& drops(t.state.tables, next.state.tables, |k: u64| k == id)
            &&& drops(t.state.columns, next.state.columns, |k: (u64, u64)| k.0 == id)
            &&& drops(t.state.data_files, next.state.data_files, |k: (u64, u64)| k.0 == id)
            &&& drops(t.state.delete_files, next.state.delete_files, |k: (u64, u64)| k.0 == id)
            &&& drops(t.state.partitions, next.state.partitions, |k: (u64, u64)| k.0 == id)
            &&& drops(t.state.sorts, next.state.sorts, |k: (u64, u64)| k.0 == id)
            &&& drops(t.state.indexes, next.state.indexes, |k: (u64, u64)| k.0 == id)
            &&& drops(t.state.table_stats, next.state.table_stats, |k: u64| k == id)
            &&& drops(
                t.state.table_column_stats,
                next.state.table_column_stats,
                |k: (u64, u64)| k.0 == id,
            )
            &&& next.ops == t.ops.push(OperationModel::DropTable { table_id: id })
            &&& next.next_catalog_id == t.next_catalog_id
            &&& next.new_snapshot_id == t.new_snapshot_id
        }),
{
}

/// Adding a column through the small handle puts it behind the others, under an id that is above every
/// live one and at or above the table's counter, which moves beyond it; the table
/// begins a version, and nothing else changes.
pub proof fn small_columns_are_added(
    t: TxnModel,
    table_id: u64,
    def: ColumnDefSpec,
)
    requires
        t.state.tables.contains_key(table_id),
        t.state.tables[table_id].table_id == table_id,
        next_column(t.state, table_id) < u64::MAX,
        next_position(t.state, table_id) <= u64::MAX,
    ensures
        ({
            let next = crate::txn::column_added(t, table_id, def);
            &&& next.state == (CatalogModel {
                tables: next.state.tables,
                columns: next.state.columns,
                ..t.state
            })
            &&& ({
                let id = (next.state.tables[table_id].next_column_id - 1) as u64;
                let c = next.state.columns[(table_id, id)];
                &&& puts(t.state.columns, next.state.columns, (table_id, id), c)
                &&& new_column(c, table_id, id as int, c.column_order as int, t.new_snapshot_id, def)
                &&& id >= t.state.tables[table_id].next_column_id
                &&& forall|o: u64| #[trigger]
                    t.state.columns.contains_key((table_id, o)) ==> o < id && t.state.columns[(
                        table_id,
                        o,
                    )].column_order < c.column_order
                &&& id == t.state.tables[table_id].next_column_id || id == 1
                    || t.state.columns.contains_key((table_id, (id - 1) as u64))
                &&& c.column_order == 0 || exists|o: u64| #[trigger]
                    t.state.columns.contains_key((table_id, o)) && t.state.columns[(
                        table_id,
                        o,
                    )].column_order + 1 == c.column_order
                &&& puts(
                    t.state.tables,
                    next.state.tables,
                    table_id,
                    TableModel {
                        next_column_id: (id + 1) as u64,
                        begin_snapshot: t.new_snapshot_id,
                        ..t.state.tables[table_id]
                    },
                )
            })
            &&& next.ops == t.ops.push(OperationModel::AlterTable { table_id })
            &&& next.next_catalog_id == t.next_catalog_id
            &&& next.new_snapshot_id == t.new_snapshot_id
        }),
{
    slots_are_behind(t.state, table_id);
}

/// A column can be added through the small handle to a live table under a name that no column of it
/// has.
pub proof fn small_column_additions_are_refused(
    t: TxnModel,
    table_id: u64,
    name: Seq<char>,
)
    ensures
        match crate::txn::add_column_refusal(t, table_id, name) {
            None => t.state.tables.contains_key(table_id) && !column_has_name(
                t.state,
                table_id,
                name,
            ),
            Some(Fault::NotFound(_)) => !t.state.tables.contains_key(table_id),
            Some(Fault::AlreadyExists(_)) => t.state.tables.contains_key(table_id)
                && column_has_name(t.state, table_id, name),
            Some(_) => false,
        },
{
    names_are_found(t.state, 0, table_id, 0, name);
}

/// A live column can be renamed through the small handle to a name that no column of its table has.
pub proof fn small_column_renames_are_refused(
    t: TxnModel,
    table_id: u64,
    column_id: u64,
    name: Seq<char>,
)
    ensures
        match crate::txn::rename_column_refusal(t, table_id, column_id, name) {
            None => t.state.columns.contains_key((table_id, column_id)) && !column_has_name(
                t.state,
                table_id,
                name,
            ),
            Some(Fault::NotFound(_)) => !t.state.columns.contains_key((table_id, column_id)),
            Some(Fault::AlreadyExists(_)) => t.state.columns.contains_key((table_id, column_id))
                && column_has_name(t.state, table_id, name),
            Some(_) => false,
        },
{
    names_are_found(t.state, 0, table_id, 0, name);
}

/// A live column can be dropped through the small handle if its table has another.
pub proof fn small_column_drops_are_refused(
    t: TxnModel,
    table_id: u64,
    column_id: u64,
)
    ensures
        match crate::txn::drop_column_refusal(t, table_id, column_id) {
            None => t.state.columns.contains_key((table_id, column_id)) && has_other_column(
                t.state,
                table_id,
                column_id,
            ),
            Some(Fault::NotFound(_)) => !t.state.columns.contains_key((table_id, column_id)),
            Some(Fault::Constraint(_)) => t.state.columns.contains_key((table_id, column_id))
                && !has_other_column(t.state, table_id, column_id),
            Some(_) => false,
        },
{
    lone_columns_are_last(t.state, table_id, column_id);
}

/// Renaming a column through the small handle changes its name and begins a version, and nothing else.
pub proof fn small_columns_are_renamed(
    t: TxnModel,
    table_id: u64,
    column_id: u64,
    name: Seq<char>,
)
    requires
        t.state.columns.contains_key((table_id, column_id)),
        t.state.columns[(table_id, column_id)].table_id == table_id,
        t.state.columns[(table_id, column_id)].column_id == column_id,
    ensures
        ({
            let next = crate::txn::column_renamed(t, table_id, column_id, name);
            &&& next.state == (CatalogModel { columns: next.state.columns, ..t.state })
            &&& puts(
                t.state.columns,
                next.state.columns,
                (table_id, column_id),
                ColumnModel {
                    column_name: name,
                    begin_snapshot: t.new_snapshot_id,
                    ..t.state.columns[(table_id, column_id)]
                },
            )
            &&& next.ops == t.ops.push(OperationModel::AlterTable { table_id })
            &&& next.next_catalog_id == t.next_catalog_id
            &&& next.new_snapshot_id == t.new_snapshot_id
        }),
{
}

/// Altering a column through the small handle sets what is asked for, keeps the rest, begins a version,
/// and changes nothing else.
pub proof fn small_columns_are_altered(
    t: TxnModel,
    table_id: u64,
    column_id: u64,
    a: ColumnAlterationSpec,
)
    requires
        t.state.columns.contains_key((table_id, column_id)),
        t.state.columns[(table_id, column_id)].table_id == table_id,
        t.state.columns[(table_id, column_id)].column_id == column_id,
    ensures
        ({
            let next = crate::txn::column_changed(t, table_id, column_id, a);
            &&& next.state == (CatalogModel { columns: next.state.columns, ..t.state })
            &&& ({
                let old_column = t.state.columns[(table_id, column_id)];
                let new_one = next.state.columns[(table_id, column_id)];
                &&& puts(t.state.columns, next.state.columns, (table_id, column_id), new_one)
                &&& new_one == (ColumnModel {
                    column_type: new_one.column_type,
                    nulls_allowed: new_one.nulls_allowed,
                    default_value: new_one.default_value,
                    begin_snapshot: t.new_snapshot_id,
                    ..old_column
                })
                &&& a.column_type is Some ==> new_one.column_type == a.column_type->0
                &&& a.column_type is None ==> new_one.column_type == old_column.column_type
                &&& a.nulls_allowed is Some ==> new_one.nulls_allowed == a.nulls_allowed->0
                &&& a.nulls_allowed is None ==> new_one.nulls_allowed == old_column.nulls_allowed
                &&& a.default_value is Some ==> new_one.default_value == a.default_value->0
                &&& a.default_value is None ==> new_one.default_value == old_column.default_value
            })
            &&& next.ops == t.ops.push(OperationModel::AlterTable { table_id })
            &&& next.next_catalog_id == t.next_catalog_id
            &&& next.new_snapshot_id == t.new_snapshot_id
        }),
{
}

/// Dropping a column through the small handle takes it away with its statistics, and nothing else.
pub proof fn small_columns_are_dropped(
    t: TxnModel,
    table_id: u64,
    column_id: u64,
)
    ensures
        ({
            let next = crate::txn::column_dropped(t, table_id, column_id);
            &&& next.state == (CatalogModel {
                columns: next.state.columns,
                table_column_stats: next.state.table_column_stats,
                ..t.state
            })
            &&& drops(t.state.columns, next.state.columns, |k: (u64, u64)| k == (table_id, column_id))
            &&& drops(
                t.state.table_column_stats,
                next.state.table_column_stats,
                |k: (u64, u64)| k == (table_id, column_id),
            )
            &&& next.ops == t.ops.push(OperationModel::AlterTable { table_id })
            &&& next.next_catalog_id == t.next_catalog_id
            &&& next.new_snapshot_id == t.new_snapshot_id
        }),
{
}

} // verus!
