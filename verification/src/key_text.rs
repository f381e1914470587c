//! Keys as messages write them.
use crate::keys::{
    CurrentKey, EntityKey, HistoryKey, IndexKey, IndexKeyModel, InlineKey, InlineOperation, Key,
    KeyModel, SysKey,
};
use crate::text::{decimal, push_decimal, push_text};
use vstd::prelude::*;

verus! {

/// The text of a list of bytes, from a position on.
pub open spec fn bytes_from(bytes: Seq<u8>, at: int) -> Seq<char>
    decreases bytes.len() - at,
{
    if at >= bytes.len() {
        "]"@
    } else {
        (if at == 0 {
            ""@
        } else {
            ", "@
        }) + decimal(bytes[at] as nat) + bytes_from(bytes, at + 1)
    }
}

/// The text of a list of bytes.
pub open spec fn bytes_name(bytes: Seq<u8>) -> Seq<char> {
    "["@ + bytes_from(bytes, 0)
}

fn push_bytes(out: &mut String, bytes: &Vec<u8>)
    ensures
        final(out)@ == old(out)@ + bytes_name(bytes.deep_view()),
{
    let ghost q = bytes.deep_view();
    push_text(out, "[");
    let mut i: usize = 0;
    while i < bytes.len()
        invariant
            i <= bytes@.len(),
            q == bytes.deep_view(),
            out@ + bytes_from(q, i as int) == old(out)@ + bytes_name(q),
        decreases bytes.len() - i,
    {
        assert(q[i as int] == bytes@[i as int]);
        let ghost was = out@;
        if i > 0 {
            push_text(out, ", ");
        } else {
            push_text(out, "");
        }
        push_decimal(out, bytes[i] as u64);
        assert(was + bytes_from(q, i as int) =~= out@ + bytes_from(q, i + 1));
        i = i + 1;
    }
    push_text(out, "]");
}

/// The text of an entity.
pub open spec fn entity_name(k: EntityKey) -> Seq<char> {
    match k {
        EntityKey::Schema { schema_id } => "Schema { schema_id: "@ + decimal(schema_id as nat) + " }"@,
        EntityKey::Table { table_id } => "Table { table_id: "@ + decimal(table_id as nat) + " }"@,
        EntityKey::View { view_id } => "View { view_id: "@ + decimal(view_id as nat) + " }"@,
        EntityKey::Column { table_id, column_id } => "Column { table_id: "@ + decimal(table_id as nat) + ", column_id: "@ + decimal(column_id as nat) + " }"@,
        EntityKey::File { table_id, data_file_id } => "File { table_id: "@ + decimal(table_id as nat) + ", data_file_id: "@ + decimal(data_file_id as nat) + " }"@,
        EntityKey::DeleteFile { table_id, delete_file_id } => "DeleteFile { table_id: "@ + decimal(table_id as nat) + ", delete_file_id: "@ + decimal(delete_file_id as nat) + " }"@,
        EntityKey::Partition { table_id, partition_id } => "Partition { table_id: "@ + decimal(table_id as nat) + ", partition_id: "@ + decimal(partition_id as nat) + " }"@,
        EntityKey::Sort { table_id, sort_id } => "Sort { table_id: "@ + decimal(table_id as nat) + ", sort_id: "@ + decimal(sort_id as nat) + " }"@,
        EntityKey::Index { table_id, index_id } => "Index { table_id: "@ + decimal(table_id as nat) + ", index_id: "@ + decimal(index_id as nat) + " }"@,
        EntityKey::Macro { macro_id } => "Macro { macro_id: "@ + decimal(macro_id as nat) + " }"@,
        EntityKey::Mapping { table_id, mapping_id } => "Mapping { table_id: "@ + decimal(table_id as nat) + ", mapping_id: "@ + decimal(mapping_id as nat) + " }"@,
        EntityKey::TableStats { table_id } => "TableStats { table_id: "@ + decimal(table_id as nat) + " }"@,
        EntityKey::TableColumnStats { table_id, column_id } => "TableColumnStats { table_id: "@ + decimal(table_id as nat) + ", column_id: "@ + decimal(column_id as nat) + " }"@,
        EntityKey::FileColumnStats { table_id, data_file_id, column_id } => "FileColumnStats { table_id: "@ + decimal(table_id as nat) + ", data_file_id: "@ + decimal(data_file_id as nat) + ", column_id: "@ + decimal(column_id as nat) + " }"@,
        EntityKey::OptionScope { scope_kind, scope_id } => "OptionScope { scope_kind: "@ + decimal(scope_kind as nat) + ", scope_id: "@ + decimal(scope_id as nat) + " }"@,
        EntityKey::Tag { object_id } => "Tag { object_id: "@ + decimal(object_id as nat) + " }"@,
    }
}

pub fn push_entity(out: &mut String, k: &EntityKey)
    ensures
        final(out)@ == old(out)@ + entity_name(*k),
{
    match k {
        EntityKey::Schema { schema_id } => {
            push_text(out, "Schema { schema_id: ");
            push_decimal(out, *schema_id);
            push_text(out, " }");
        },
        EntityKey::Table { table_id } => {
            push_text(out, "Table { table_id: ");
            push_decimal(out, *table_id);
            push_text(out, " }");
        },
        EntityKey::View { view_id } => {
            push_text(out, "View { view_id: ");
            push_decimal(out, *view_id);
            push_text(out, " }");
        },
        EntityKey::Column { table_id, column_id } => {
            push_text(out, "Column { table_id: ");
            push_decimal(out, *table_id);
            push_text(out, ", column_id: ");
            push_decimal(out, *column_id);
            push_text(out, " }");
        },
        EntityKey::File { table_id, data_file_id } => {
            push_text(out, "File { table_id: ");
            push_decimal(out, *table_id);
            push_text(out, ", data_file_id: ");
            push_decimal(out, *data_file_id);
            push_text(out, " }");
        },
        EntityKey::DeleteFile { table_id, delete_file_id } => {
            push_text(out, "DeleteFile { table_id: ");
            push_decimal(out, *table_id);
            push_text(out, ", delete_file_id: ");
            push_decimal(out, *delete_file_id);
            push_text(out, " }");
        },
        EntityKey::Partition { table_id, partition_id } => {
            push_text(out, "Partition { table_id: ");
            push_decimal(out, *table_id);
            push_text(out, ", partition_id: ");
            push_decimal(out, *partition_id);
            push_text(out, " }");
        },
        EntityKey::Sort { table_id, sort_id } => {
            push_text(out, "Sort { table_id: ");
            push_decimal(out, *table_id);
            push_text(out, ", sort_id: ");
            push_decimal(out, *sort_id);
            push_text(out, " }");
        },
        EntityKey::Index { table_id, index_id } => {
            push_text(out, "Index { table_id: ");
            push_decimal(out, *table_id);
            push_text(out, ", index_id: ");
            push_decimal(out, *index_id);
            push_text(out, " }");
        },
        EntityKey::Macro { macro_id } => {
            push_text(out, "Macro { macro_id: ");
            push_decimal(out, *macro_id);
            push_text(out, " }");
        },
        EntityKey::Mapping { table_id, mapping_id } => {
            push_text(out, "Mapping { table_id: ");
            push_decimal(out, *table_id);
            push_text(out, ", mapping_id: ");
            push_decimal(out, *mapping_id);
            push_text(out, " }");
        },
        EntityKey::TableStats { table_id } => {
            push_text(out, "TableStats { table_id: ");
            push_decimal(out, *table_id);
            push_text(out, " }");
        },
        EntityKey::TableColumnStats { table_id, column_id } => {
            push_text(out, "TableColumnStats { table_id: ");
            push_decimal(out, *table_id);
            push_text(out, ", column_id: ");
            push_decimal(out, *column_id);
            push_text(out, " }");
        },
        EntityKey::FileColumnStats { table_id, data_file_id, column_id } => {
            push_text(out, "FileColumnStats { table_id: ");
            push_decimal(out, *table_id);
            push_text(out, ", data_file_id: ");
            push_decimal(out, *data_file_id);
            push_text(out, ", column_id: ");
            push_decimal(out, *column_id);
            push_text(out, " }");
        },
        EntityKey::OptionScope { scope_kind, scope_id } => {
            push_text(out, "OptionScope { scope_kind: ");
            push_decimal(out, *scope_kind);
            push_text(out, ", scope_id: ");
            push_decimal(out, *scope_id);
            push_text(out, " }");
        },
        EntityKey::Tag { object_id } => {
            push_text(out, "Tag { object_id: ");
            push_decimal(out, *object_id);
            push_text(out, " }");
        },
    }
    assert(out@ =~= old(out)@ + entity_name(*k));
}

/// The text of a live record's key.
pub open spec fn current_name(k: CurrentKey) -> Seq<char> {
    match k {
        CurrentKey::Entity(inner) => "Entity("@ + entity_name(inner) + ")"@,
        CurrentKey::GcFile { data_file_id } => "GcFile { data_file_id: "@ + decimal(data_file_id as nat) + " }"@,
    }
}

pub fn push_current(out: &mut String, k: &CurrentKey)
    ensures
        final(out)@ == old(out)@ + current_name(*k),
{
    match k {
        CurrentKey::Entity(inner) => {
            push_text(out, "Entity(");
            push_entity(out, inner);
            push_text(out, ")");
        },
        CurrentKey::GcFile { data_file_id } => {
            push_text(out, "GcFile { data_file_id: ");
            push_decimal(out, *data_file_id);
            push_text(out, " }");
        },
    }
    assert(out@ =~= old(out)@ + current_name(*k));
}

/// The text of an ended version's key.
pub open spec fn history_name(k: HistoryKey) -> Seq<char> {
    "HistoryKey { entity: "@ + entity_name(k.entity) + ", end_snapshot: "@ + decimal(
        k.end_snapshot as nat,
    ) + " }"@
}

pub fn push_history(out: &mut String, k: &HistoryKey)
    ensures
        final(out)@ == old(out)@ + history_name(*k),
{
    push_text(out, "HistoryKey { entity: ");
    push_entity(out, &k.entity);
    push_text(out, ", end_snapshot: ");
    push_decimal(out, k.end_snapshot);
    push_text(out, " }");
    assert(out@ =~= old(out)@ + history_name(*k));
}

/// The text of a store-wide key.
pub open spec fn sys_name(k: SysKey) -> Seq<char> {
    match k {
        SysKey::Format => "Format"@,
        SysKey::Head => "Head"@,
        SysKey::Migration => "Migration"@,
    }
}

pub fn push_sys(out: &mut String, k: &SysKey)
    ensures
        final(out)@ == old(out)@ + sys_name(*k),
{
    match k {
        SysKey::Format => {
            push_text(out, "Format");
        },
        SysKey::Head => {
            push_text(out, "Head");
        },
        SysKey::Migration => {
            push_text(out, "Migration");
        },
    }
    assert(out@ =~= old(out)@ + sys_name(*k));
}

/// The text of an operation on inlined rows.
pub open spec fn operation_name(k: InlineOperation) -> Seq<char> {
    match k {
        InlineOperation::Insert { table_id, schema_version, begin_snapshot, chunk_seq } => "Insert { table_id: "@ + decimal(table_id as nat) + ", schema_version: "@ + decimal(schema_version as nat) + ", begin_snapshot: "@ + decimal(begin_snapshot as nat) + ", chunk_seq: "@ + decimal(chunk_seq as nat) + " }"@,
        InlineOperation::InlineDelete { table_id, row_id } => "InlineDelete { table_id: "@ + decimal(table_id as nat) + ", row_id: "@ + decimal(row_id as nat) + " }"@,
        InlineOperation::FileDelete { table_id, data_file_id, row_id } => "FileDelete { table_id: "@ + decimal(table_id as nat) + ", data_file_id: "@ + decimal(data_file_id as nat) + ", row_id: "@ + decimal(row_id as nat) + " }"@,
    }
}

pub fn push_operation(out: &mut String, k: &InlineOperation)
    ensures
        final(out)@ == old(out)@ + operation_name(*k),
{
    match k {
        InlineOperation::Insert { table_id, schema_version, begin_snapshot, chunk_seq } => {
            push_text(out, "Insert { table_id: ");
            push_decimal(out, *table_id);
            push_text(out, ", schema_version: ");
            push_decimal(out, *schema_version);
            push_text(out, ", begin_snapshot: ");
            push_decimal(out, *begin_snapshot);
            push_text(out, ", chunk_seq: ");
            push_decimal(out, *chunk_seq);
            push_text(out, " }");
        },
        InlineOperation::InlineDelete { table_id, row_id } => {
            push_text(out, "InlineDelete { table_id: ");
            push_decimal(out, *table_id);
            push_text(out, ", row_id: ");
            push_decimal(out, *row_id);
            push_text(out, " }");
        },
        InlineOperation::FileDelete { table_id, data_file_id, row_id } => {
            push_text(out, "FileDelete { table_id: ");
            push_decimal(out, *table_id);
            push_text(out, ", data_file_id: ");
            push_decimal(out, *data_file_id);
            push_text(out, ", row_id: ");
            push_decimal(out, *row_id);
            push_text(out, " }");
        },
    }
    assert(out@ =~= old(out)@ + operation_name(*k));
}

/// The text of an inlined record's key.
pub open spec fn inline_name(k: InlineKey) -> Seq<char> {
    match k {
        InlineKey::Schema { table_id, schema_version } => "Schema { table_id: "@ + decimal(table_id as nat) + ", schema_version: "@ + decimal(schema_version as nat) + " }"@,
        InlineKey::Live(inner) => "Live("@ + operation_name(inner) + ")"@,
    }
}

pub fn push_inline(out: &mut String, k: &InlineKey)
    ensures
        final(out)@ == old(out)@ + inline_name(*k),
{
    match k {
        InlineKey::Schema { table_id, schema_version } => {
            push_text(out, "Schema { table_id: ");
            push_decimal(out, *table_id);
            push_text(out, ", schema_version: ");
            push_decimal(out, *schema_version);
            push_text(out, " }");
        },
        InlineKey::Live(inner) => {
            push_text(out, "Live(");
            push_operation(out, inner);
            push_text(out, ")");
        },
    }
    assert(out@ =~= old(out)@ + inline_name(*k));
}

/// The text of an index entry's key.
pub open spec fn index_name(k: IndexKeyModel) -> Seq<char> {
    match k {
        IndexKeyModel::Unique { index_id, key } => "Unique { index_id: "@ + decimal(index_id as nat) + ", key: "@ + bytes_name(key) + " }"@,
        IndexKeyModel::Multi { index_id, key, row_id } => "Multi { index_id: "@ + decimal(index_id as nat) + ", key: "@ + bytes_name(key) + ", row_id: "@ + decimal(row_id as nat) + " }"@,
    }
}

pub fn push_index(out: &mut String, k: &IndexKey)
    ensures
        final(out)@ == old(out)@ + index_name(k.deep_view()),
{
    match k {
        IndexKey::Unique { index_id, key } => {
            push_text(out, "Unique { index_id: ");
            push_decimal(out, *index_id);
            push_text(out, ", key: ");
            push_bytes(out, key);
            push_text(out, " }");
        },
        IndexKey::Multi { index_id, key, row_id } => {
            push_text(out, "Multi { index_id: ");
            push_decimal(out, *index_id);
            push_text(out, ", key: ");
            push_bytes(out, key);
            push_text(out, ", row_id: ");
            push_decimal(out, *row_id);
            push_text(out, " }");
        },
    }
    assert(out@ =~= old(out)@ + index_name(k.deep_view()));
}

/// The text of a key.
pub open spec fn key_name(k: KeyModel) -> Seq<char> {
    match k {
        KeyModel::Sys(inner) => "Sys("@ + sys_name(inner) + ")"@,
        KeyModel::Snapshot { snapshot_id } => "Snapshot { snapshot_id: "@ + decimal(snapshot_id as nat) + " }"@,
        KeyModel::Current(inner) => "Current("@ + current_name(inner) + ")"@,
        KeyModel::History(inner) => "History("@ + history_name(inner) + ")"@,
        KeyModel::CommitDelta { snapshot_id } => "CommitDelta { snapshot_id: "@ + decimal(snapshot_id as nat) + " }"@,
        KeyModel::Inline(inner) => "Inline("@ + inline_name(inner) + ")"@,
        KeyModel::Index(inner) => "Index("@ + index_name(inner) + ")"@,
    }
}

pub fn push_key(out: &mut String, k: &Key)
    ensures
        final(out)@ == old(out)@ + key_name(k.deep_view()),
{
    match k {
        Key::Sys(inner) => {
            push_text(out, "Sys(");
            push_sys(out, inner);
            push_text(out, ")");
        },
        Key::Snapshot { snapshot_id } => {
            push_text(out, "Snapshot { snapshot_id: ");
            push_decimal(out, *snapshot_id);
            push_text(out, " }");
        },
        Key::Current(inner) => {
            push_text(out, "Current(");
            push_current(out, inner);
            push_text(out, ")");
        },
        Key::History(inner) => {
            push_text(out, "History(");
            push_history(out, inner);
            push_text(out, ")");
        },
        Key::CommitDelta { snapshot_id } => {
            push_text(out, "CommitDelta { snapshot_id: ");
            push_decimal(out, *snapshot_id);
            push_text(out, " }");
        },
        Key::Inline(inner) => {
            push_text(out, "Inline(");
            push_inline(out, inner);
            push_text(out, ")");
        },
        Key::Index(inner) => {
            push_text(out, "Index(");
            push_index(out, inner);
            push_text(out, ")");
        },
    }
    assert(out@ =~= old(out)@ + key_name(k.deep_view()));
}

/// A key as messages write it.
pub fn key_text(k: &Key) -> (t: String)
    ensures
        t@ == key_name(k@),
{
    let mut t = String::new();
    push_key(&mut t, k);
    assert(t@ =~= key_name(k@));
    t
}

/// An entity as messages write it.
pub fn entity_text(k: EntityKey) -> (t: String)
    ensures
        t@ == entity_name(k),
{
    let mut t = String::new();
    push_entity(&mut t, &k);
    assert(t@ =~= entity_name(k));
    t
}

} // verus!
