//! What a log of operations is recorded as: each operation among its own kind,
//! and nothing besides.
use crate::operations::{changes_of, OperationModel};
use vstd::prelude::*;

verus! {

/// Whether some operation of a log is as told.
pub open spec fn some_operation(
    ops: Seq<OperationModel>,
    told: spec_fn(OperationModel) -> bool,
) -> bool {
    exists|i: int| 0 <= i < ops.len() && told(#[trigger] ops[i])
}

proof fn last_or_earlier(ops: Seq<OperationModel>, told: spec_fn(OperationModel) -> bool)
    requires
        ops.len() > 0,
    ensures
        some_operation(ops, told) <==> some_operation(ops.drop_last(), told) || told(ops.last()),
{
    let front = ops.drop_last();
    if some_operation(front, told) {
        let i = choose|i: int| 0 <= i < front.len() && told(#[trigger] front[i]);
        assert(ops[i] == front[i]);
    }
    if told(ops.last()) {
        assert(told(ops[ops.len() - 1]));
    }
    if some_operation(ops, told) {
        let i = choose|i: int| 0 <= i < ops.len() && told(#[trigger] ops[i]);
        if i < front.len() {
            assert(front[i] == ops[i]);
        }
    }
}

/// Whether an operation is recorded among `created_schemas`.
pub open spec fn tells_created_schemas(op: OperationModel, name: Seq<char>) -> bool {
    match op {
        OperationModel::CreateSchema { name: x, .. } => x == name,
        _ => false,
    }
}

/// Whether an operation is recorded among `dropped_schemas`.
pub open spec fn tells_dropped_schemas(op: OperationModel, id: u64) -> bool {
    match op {
        OperationModel::DropSchema { schema_id } => schema_id == id,
        _ => false,
    }
}

/// Whether an operation is recorded among `created_tables`.
pub open spec fn tells_created_tables(op: OperationModel, pair: (Seq<char>, Seq<char>)) -> bool {
    match op {
        OperationModel::CreateTable { schema_name, table_name, .. } => (schema_name, table_name)
            == pair,
        _ => false,
    }
}

/// Whether an operation is recorded among `created_table_schema_ids`.
pub open spec fn tells_created_table_schema_ids(op: OperationModel, id: u64) -> bool {
    match op {
        OperationModel::CreateTable { schema_id, .. } => schema_id == id,
        _ => false,
    }
}

/// Whether an operation is recorded among `altered_tables`.
pub open spec fn tells_altered_tables(op: OperationModel, id: u64) -> bool {
    match op {
        OperationModel::AlterTable { table_id } => table_id == id,
        _ => false,
    }
}

/// Whether an operation is recorded among `dropped_tables`.
pub open spec fn tells_dropped_tables(op: OperationModel, id: u64) -> bool {
    match op {
        OperationModel::DropTable { table_id } => table_id == id,
        _ => false,
    }
}

/// Whether an operation is recorded among `created_views`.
pub open spec fn tells_created_views(op: OperationModel, pair: (Seq<char>, Seq<char>)) -> bool {
    match op {
        OperationModel::CreateView { schema_name, view_name, .. } => (schema_name, view_name) == pair,
        _ => false,
    }
}

/// Whether an operation is recorded among `created_view_schema_ids`.
pub open spec fn tells_created_view_schema_ids(op: OperationModel, id: u64) -> bool {
    match op {
        OperationModel::CreateView { schema_id, .. } => schema_id == id,
        _ => false,
    }
}

/// Whether an operation is recorded among `altered_views`.
pub open spec fn tells_altered_views(op: OperationModel, id: u64) -> bool {
    match op {
        OperationModel::AlterView { view_id } => view_id == id,
        _ => false,
    }
}

/// Whether an operation is recorded among `dropped_views`.
pub open spec fn tells_dropped_views(op: OperationModel, id: u64) -> bool {
    match op {
        OperationModel::DropView { view_id } => view_id == id,
        _ => false,
    }
}

/// Whether an operation is recorded among `created_scalar_macros`.
pub open spec fn tells_created_scalar_macros(op: OperationModel, pair: (Seq<char>, Seq<char>)) -> bool {
    match op {
        OperationModel::CreateMacro { schema_name, macro_name, macro_type, .. } => (
            schema_name,
            macro_name,
        ) == pair && macro_type != "table"@,
        _ => false,
    }
}

/// Whether an operation is recorded among `created_table_macros`.
pub open spec fn tells_created_table_macros(op: OperationModel, pair: (Seq<char>, Seq<char>)) -> bool {
    match op {
        OperationModel::CreateMacro { schema_name, macro_name, macro_type, .. } => (
            schema_name,
            macro_name,
        ) == pair && macro_type == "table"@,
        _ => false,
    }
}

/// Whether an operation is recorded among `created_macro_schema_ids`.
pub open spec fn tells_created_macro_schema_ids(op: OperationModel, id: u64) -> bool {
    match op {
        OperationModel::CreateMacro { schema_id, .. } => schema_id == id,
        _ => false,
    }
}

/// Whether an operation is recorded among `dropped_scalar_macros`.
pub open spec fn tells_dropped_scalar_macros(op: OperationModel, id: u64) -> bool {
    match op {
        OperationModel::DropMacro { macro_id, macro_type } => macro_id == id && macro_type != "table"@,
        _ => false,
    }
}

/// Whether an operation is recorded among `dropped_table_macros`.
pub open spec fn tells_dropped_table_macros(op: OperationModel, id: u64) -> bool {
    match op {
        OperationModel::DropMacro { macro_id, macro_type } => macro_id == id && macro_type == "table"@,
        _ => false,
    }
}

/// Whether an operation is recorded among `inserted_tables`.
pub open spec fn tells_inserted_tables(op: OperationModel, id: u64) -> bool {
    match op {
        OperationModel::RegisterDataFile { table_id } => table_id == id,
        _ => false,
    }
}

/// Whether an operation is recorded among `deleted_from_tables`.
pub open spec fn tells_deleted_from_tables(op: OperationModel, id: u64) -> bool {
    match op {
        OperationModel::RegisterDeleteFile { table_id } => table_id == id,
        _ => false,
    }
}

/// Whether an operation is recorded among `merge_adjacent_tables`.
pub open spec fn tells_merge_adjacent_tables(op: OperationModel, id: u64) -> bool {
    match op {
        OperationModel::ExpireDataFile { table_id } => table_id == id,
        _ => false,
    }
}

/// Whether an operation is recorded among `rewrite_delete_tables`.
pub open spec fn tells_rewrite_delete_tables(op: OperationModel, id: u64) -> bool {
    match op {
        OperationModel::ExpireDeleteFile { table_id } => table_id == id,
        _ => false,
    }
}

/// Every operation of a log is recorded among its own kind under its own id or
/// name, and nothing is recorded that no operation did.
pub proof fn operations_are_recorded(
    ops: Seq<OperationModel>,
    id: u64,
    name: Seq<char>,
    pair: (Seq<char>, Seq<char>),
)
    ensures
        changes_of(ops).created_schemas.contains(name) <==> some_operation(
            ops,
            |op: OperationModel| tells_created_schemas(op, name),
        ),
        changes_of(ops).dropped_schemas.contains(id) <==> some_operation(
            ops,
            |op: OperationModel| tells_dropped_schemas(op, id),
        ),
        changes_of(ops).created_tables.contains(pair) <==> some_operation(
            ops,
            |op: OperationModel| tells_created_tables(op, pair),
        ),
        changes_of(ops).created_table_schema_ids.contains(id) <==> some_operation(
            ops,
            |op: OperationModel| tells_created_table_schema_ids(op, id),
        ),
        changes_of(ops).altered_tables.contains(id) <==> some_operation(
            ops,
            |op: OperationModel| tells_altered_tables(op, id),
        ),
        changes_of(ops).dropped_tables.contains(id) <==> some_operation(
            ops,
            |op: OperationModel| tells_dropped_tables(op, id),
        ),
        changes_of(ops).created_views.contains(pair) <==> some_operation(
            ops,
            |op: OperationModel| tells_created_views(op, pair),
        ),
        changes_of(ops).created_view_schema_ids.contains(id) <==> some_operation(
            ops,
            |op: OperationModel| tells_created_view_schema_ids(op, id),
        ),
        changes_of(ops).altered_views.contains(id) <==> some_operation(
            ops,
            |op: OperationModel| tells_altered_views(op, id),
        ),
        changes_of(ops).dropped_views.contains(id) <==> some_operation(
            ops,
            |op: OperationModel| tells_dropped_views(op, id),
        ),
        changes_of(ops).created_scalar_macros.contains(pair) <==> some_operation(
            ops,
            |op: OperationModel| tells_created_scalar_macros(op, pair),
        ),
        changes_of(ops).created_table_macros.contains(pair) <==> some_operation(
            ops,
            |op: OperationModel| tells_created_table_macros(op, pair),
        ),
        changes_of(ops).created_macro_schema_ids.contains(id) <==> some_operation(
            ops,
            |op: OperationModel| tells_created_macro_schema_ids(op, id),
        ),
        changes_of(ops).dropped_scalar_macros.contains(id) <==> some_operation(
            ops,
            |op: OperationModel| tells_dropped_scalar_macros(op, id),
        ),
        changes_of(ops).dropped_table_macros.contains(id) <==> some_operation(
            ops,
            |op: OperationModel| tells_dropped_table_macros(op, id),
        ),
        changes_of(ops).inserted_tables.contains(id) <==> some_operation(
            ops,
            |op: OperationModel| tells_inserted_tables(op, id),
        ),
        changes_of(ops).deleted_from_tables.contains(id) <==> some_operation(
            ops,
            |op: OperationModel| tells_deleted_from_tables(op, id),
        ),
        changes_of(ops).merge_adjacent_tables.contains(id) <==> some_operation(
            ops,
            |op: OperationModel| tells_merge_adjacent_tables(op, id),
        ),
        changes_of(ops).rewrite_delete_tables.contains(id) <==> some_operation(
            ops,
            |op: OperationModel| tells_rewrite_delete_tables(op, id),
        ),
        !changes_of(ops).compacted_tables.contains(id),
        !changes_of(ops).has_unknown,
    decreases ops.len(),
{
    if ops.len() > 0 {
        operations_are_recorded(ops.drop_last(), id, name, pair);
        last_or_earlier(ops, |op: OperationModel| tells_created_schemas(op, name));
        last_or_earlier(ops, |op: OperationModel| tells_dropped_schemas(op, id));
        last_or_earlier(ops, |op: OperationModel| tells_created_tables(op, pair));
        last_or_earlier(ops, |op: OperationModel| tells_created_table_schema_ids(op, id));
        last_or_earlier(ops, |op: OperationModel| tells_altered_tables(op, id));
        last_or_earlier(ops, |op: OperationModel| tells_dropped_tables(op, id));
        last_or_earlier(ops, |op: OperationModel| tells_created_views(op, pair));
        last_or_earlier(ops, |op: OperationModel| tells_created_view_schema_ids(op, id));
        last_or_earlier(ops, |op: OperationModel| tells_altered_views(op, id));
        last_or_earlier(ops, |op: OperationModel| tells_dropped_views(op, id));
        last_or_earlier(ops, |op: OperationModel| tells_created_scalar_macros(op, pair));
        last_or_earlier(ops, |op: OperationModel| tells_created_table_macros(op, pair));
        last_or_earlier(ops, |op: OperationModel| tells_created_macro_schema_ids(op, id));
        last_or_earlier(ops, |op: OperationModel| tells_dropped_scalar_macros(op, id));
        last_or_earlier(ops, |op: OperationModel| tells_dropped_table_macros(op, id));
        last_or_earlier(ops, |op: OperationModel| tells_inserted_tables(op, id));
        last_or_earlier(ops, |op: OperationModel| tells_deleted_from_tables(op, id));
        last_or_earlier(ops, |op: OperationModel| tells_merge_adjacent_tables(op, id));
        last_or_earlier(ops, |op: OperationModel| tells_rewrite_delete_tables(op, id));
    }
}

} // verus!
