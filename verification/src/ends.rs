//! Staged rows that end a version, or move the begin of a new file.
use crate::catalog::{CatalogModel, CatalogSnapshot};
use crate::decode::{decode_end, end_refusal, entity_named, key_width};
use crate::key_text::{entity_name, entity_text};
use crate::error::{
    around, around_two, debug_form, debug_text, refused, text_around, text_around_two, text_wrapped,
    wrapped, Error, Fault,
};
use crate::keys::EntityKey;
use crate::ordered::Record;
use crate::records::{ColumnModel, DataFileModel, TagEntry, TagEntryModel, TagModel};
use crate::rows::{
    check_row, corrupt, corrupt_row, kind_name, kind_text, number, number_of, row_refusal, text,
    text_of, Cell, CellModel, TableKind, Want,
};
use vstd::prelude::*;

verus! {

/// The position of the first live tag with a key, from a position on; the
/// length where there is none.
pub open spec fn first_live(entries: Seq<TagEntryModel>, key: Seq<char>, from: int) -> int
    decreases entries.len() - from,
{
    if from >= entries.len() {
        entries.len() as int
    } else if entries[from].key == key && entries[from].end_snapshot is None {
        from
    } else {
        first_live(entries, key, from + 1)
    }
}

/// Whether some tag with a key is live.
pub open spec fn has_live(entries: Seq<TagEntryModel>, key: Seq<char>) -> bool {
    first_live(entries, key, 0) < entries.len()
}

/// The tags with the first live one of a key ended.
pub open spec fn with_ended(entries: Seq<TagEntryModel>, key: Seq<char>, end: u64) -> Seq<TagEntryModel> {
    let i = first_live(entries, key, 0);
    entries.update(i, TagEntryModel { end_snapshot: Some(end), ..entries[i] })
}

/// Ends the first live tag with a key, in place; says whether there was one.
pub fn end_live_entry(entries: &mut Vec<TagEntry>, key: &String, end: u64) -> (ended: bool)
    ensures
        ended == has_live(old(entries).deep_view(), key@),
        ended ==> final(entries).deep_view() == with_ended(old(entries).deep_view(), key@, end),
        !ended ==> final(entries).deep_view() == old(entries).deep_view(),
{
    let ghost q = entries.deep_view();
    let mut i: usize = 0;
    while i < entries.len()
        invariant
            i <= entries@.len(),
            entries@ == old(entries)@,
            q == entries.deep_view(),
            first_live(q, key@, 0) == first_live(q, key@, i as int),
        decreases entries.len() - i,
    {
        assert(q[i as int] == entries@[i as int].deep_view());
        if entries[i].key.same(key) && entries[i].end_snapshot.is_none() {
            let mut entry = entries[i].dup();
            entry.end_snapshot = Some(end);
            entries.set(i, entry);
            assert(entries.deep_view() =~= with_ended(q, key@, end));
            return true;
        }
        i = i + 1;
    }
    false
}

/// Why an end is refused: it must be the commit's own snapshot.
pub open spec fn end_snapshot_refusal(table: TableKind, end_snapshot: u64, new_id: u64) -> Option<Fault> {
    if end_snapshot == new_id {
        None
    } else {
        Some(
            corrupt(
                table,
                around_two(
                    "end_snapshot "@,
                    end_snapshot,
                    " does not match this commit's snapshot id "@,
                    new_id,
                    ""@,
                ),
            ),
        )
    }
}

/// Refuses an end that is not the commit's own snapshot.
pub fn check_end_snapshot(table: TableKind, end_snapshot: u64, new_id: u64) -> (r: Result<(), Error>)
    ensures
        match end_snapshot_refusal(table, end_snapshot, new_id) {
            Some(f) => refused(r, f),
            None => r is Ok,
        },
{
    if end_snapshot == new_id {
        Ok(())
    } else {
        Err(
            corrupt_row(
                table,
                &text_around_two(
                    "end_snapshot ",
                    end_snapshot,
                    " does not match this commit's snapshot id ",
                    new_id,
                    "",
                ),
            ),
        )
    }
}

// ---------------------------------------------------------------------------
// Tags
// ---------------------------------------------------------------------------

pub open spec fn tag_end_shape() -> Seq<Want> {
    seq![Want::Number, Want::Text, Want::Number]
}

/// Whether an object has a live tag with a key.
pub open spec fn tag_is_live(m: CatalogModel, object_id: u64, key: Seq<char>) -> bool {
    m.tags.contains_key(object_id) && has_live(m.tags[object_id].entries, key)
}

/// Why a tag cannot be ended.
pub open spec fn tag_end_refusal(m: CatalogModel, cells: Seq<CellModel>, new_id: u64) -> Option<Fault> {
    let object_id = number(cells[0]);
    let key = text(cells[1]);
    if row_refusal(TableKind::Tag, tag_end_shape(), cells) is Some {
        row_refusal(TableKind::Tag, tag_end_shape(), cells)
    } else if end_snapshot_refusal(TableKind::Tag, number(cells[2]), new_id) is Some {
        end_snapshot_refusal(TableKind::Tag, number(cells[2]), new_id)
    } else if !tag_is_live(m, object_id, key) {
        Some(
            corrupt(
                TableKind::Tag,
                wrapped(
                    around("no live tag entry ("@, object_id, ", "@),
                    debug_text(key),
                    ") to end"@,
                ),
            ),
        )
    } else {
        None
    }
}

/// The state with a tag ended, in its container.
pub open spec fn tag_ended(m: CatalogModel, object_id: u64, key: Seq<char>, end: u64) -> CatalogModel {
    let container = m.tags[object_id];
    CatalogModel {
        tags: m.tags.insert(
            object_id,
            TagModel { entries: with_ended(container.entries, key, end), ..container },
        ),
        ..m
    }
}

/// Ends the live tag of an object and a key, in place: containers have no
/// ended versions.
pub fn apply_tag_set_end(state: &mut CatalogSnapshot, cells: &Vec<Cell>, new_id: u64) -> (r: Result<
    (),
    Error,
>)
    ensures
        match tag_end_refusal(old(state)@, cells.deep_view(), new_id) {
            Some(f) => refused(r, f) && final(state)@ == old(state)@,
            None => r is Ok && final(state)@ == tag_ended(
                old(state)@,
                number(cells.deep_view()[0]),
                text(cells.deep_view()[1]),
                new_id,
            ),
        },
{
    let shape: Vec<Want> = vec![Want::Number, Want::Text, Want::Number];
    assert(shape@ =~= tag_end_shape());
    match check_row(TableKind::Tag, &shape, cells) {
        Err(e) => return Err(e),
        Ok(()) => {},
    }
    assert(forall|i: int|
        0 <= i < cells@.len() ==> cells.deep_view()[i] == (#[trigger] cells@[i]).deep_view());
    let object_id = number_of(&cells[0]);
    let key = text_of(&cells[1]);
    match check_end_snapshot(TableKind::Tag, number_of(&cells[2]), new_id) {
        Err(e) => return Err(e),
        Ok(()) => {},
    }
    match state.tags.get(&object_id) {
        Some(found) => {
            let mut container = found.dup();
            if end_live_entry(&mut container.entries, &key, new_id) {
                state.tags.insert(object_id, container);
                return Ok(());
            }
        },
        None => {},
    }
    Err(
        corrupt_row(
            TableKind::Tag,
            &text_wrapped(
                &text_around("no live tag entry (", object_id, ", "),
                &debug_form(&key),
                ") to end",
            ),
        ),
    )
}

pub open spec fn column_tag_end_shape() -> Seq<Want> {
    seq![Want::Number, Want::Number, Want::Text, Want::Number]
}

/// Whether a column has a live tag with a key.
pub open spec fn column_tag_is_live(m: CatalogModel, column: (u64, u64), key: Seq<char>) -> bool {
    m.columns.contains_key(column) && has_live(m.columns[column].tags, key)
}

/// Why a column tag cannot be ended.
pub open spec fn column_tag_end_refusal(m: CatalogModel, cells: Seq<CellModel>, new_id: u64) -> Option<
    Fault,
> {
    let column = (number(cells[0]), number(cells[1]));
    let key = text(cells[2]);
    if row_refusal(TableKind::ColumnTag, column_tag_end_shape(), cells) is Some {
        row_refusal(TableKind::ColumnTag, column_tag_end_shape(), cells)
    } else if end_snapshot_refusal(TableKind::ColumnTag, number(cells[3]), new_id) is Some {
        end_snapshot_refusal(TableKind::ColumnTag, number(cells[3]), new_id)
    } else if !column_tag_is_live(m, column, key) {
        Some(
            corrupt(
                TableKind::ColumnTag,
                wrapped(
                    around_two("no live column tag ("@, column.0, ", "@, column.1, ", "@),
                    debug_text(key),
                    ") to end"@,
                ),
            ),
        )
    } else {
        None
    }
}

/// The state with a column tag ended, in the column's record.
pub open spec fn column_tag_ended(m: CatalogModel, column: (u64, u64), key: Seq<char>, end: u64) -> CatalogModel {
    let value = m.columns[column];
    CatalogModel {
        columns: m.columns.insert(
            column,
            ColumnModel { tags: with_ended(value.tags, key, end), ..value },
        ),
        ..m
    }
}

/// Ends the live tag of a column and a key, in the column's live record.
pub fn apply_column_tag_set_end(
    state: &mut CatalogSnapshot,
    cells: &Vec<Cell>,
    new_id: u64,
) -> (r: Result<(), Error>)
    ensures
        match column_tag_end_refusal(old(state)@, cells.deep_view(), new_id) {
            Some(f) => refused(r, f) && final(state)@ == old(state)@,
            None => r is Ok && final(state)@ == column_tag_ended(
                old(state)@,
                (number(cells.deep_view()[0]), number(cells.deep_view()[1])),
                text(cells.deep_view()[2]),
                new_id,
            ),
        },
{
    let shape: Vec<Want> = vec![Want::Number, Want::Number, Want::Text, Want::Number];
    assert(shape@ =~= column_tag_end_shape());
    match check_row(TableKind::ColumnTag, &shape, cells) {
        Err(e) => return Err(e),
        Ok(()) => {},
    }
    assert(forall|i: int|
        0 <= i < cells@.len() ==> cells.deep_view()[i] == (#[trigger] cells@[i]).deep_view());
    let column = (number_of(&cells[0]), number_of(&cells[1]));
    let key = text_of(&cells[2]);
    match check_end_snapshot(TableKind::ColumnTag, number_of(&cells[3]), new_id) {
        Err(e) => return Err(e),
        Ok(()) => {},
    }
    match state.columns.get(&column) {
        Some(found) => {
            let mut value = found.dup();
            if end_live_entry(&mut value.tags, &key, new_id) {
                state.columns.insert(column, value);
                return Ok(());
            }
        },
        None => {},
    }
    Err(
        corrupt_row(
            TableKind::ColumnTag,
            &text_wrapped(
                &text_around_two("no live column tag (", column.0, ", ", column.1, ", "),
                &debug_form(&key),
                ") to end",
            ),
        ),
    )
}

// ---------------------------------------------------------------------------
// Versioned rows
// ---------------------------------------------------------------------------

/// Whether an entity of a versioned table is live.
pub open spec fn entity_is_live(m: CatalogModel, key: EntityKey) -> bool {
    match key {
        EntityKey::Schema { schema_id } => m.schemas.contains_key(schema_id),
        EntityKey::Table { table_id } => m.tables.contains_key(table_id),
        EntityKey::View { view_id } => m.views.contains_key(view_id),
        EntityKey::Column { table_id, column_id } => m.columns.contains_key((table_id, column_id)),
        EntityKey::File { table_id, data_file_id } => m.data_files.contains_key(
            (table_id, data_file_id),
        ),
        EntityKey::DeleteFile { table_id, delete_file_id } => m.delete_files.contains_key(
            (table_id, delete_file_id),
        ),
        EntityKey::Partition { table_id, partition_id } => m.partitions.contains_key(
            (table_id, partition_id),
        ),
        EntityKey::Sort { table_id, sort_id } => m.sorts.contains_key((table_id, sort_id)),
        EntityKey::Macro { macro_id } => m.macros.contains_key(macro_id),
        _ => false,
    }
}

/// The state without one entity; nothing else goes with it.
pub open spec fn minus_entity(m: CatalogModel, key: EntityKey) -> CatalogModel {
    match key {
        EntityKey::Schema { schema_id } => CatalogModel { schemas: m.schemas.remove(schema_id), ..m },
        EntityKey::Table { table_id } => CatalogModel { tables: m.tables.remove(table_id), ..m },
        EntityKey::View { view_id } => CatalogModel { views: m.views.remove(view_id), ..m },
        EntityKey::Column { table_id, column_id } => CatalogModel {
            columns: m.columns.remove((table_id, column_id)),
            ..m
        },
        EntityKey::File { table_id, data_file_id } => CatalogModel {
            data_files: m.data_files.remove((table_id, data_file_id)),
            ..m
        },
        EntityKey::DeleteFile { table_id, delete_file_id } => CatalogModel {
            delete_files: m.delete_files.remove((table_id, delete_file_id)),
            ..m
        },
        EntityKey::Partition { table_id, partition_id } => CatalogModel {
            partitions: m.partitions.remove((table_id, partition_id)),
            ..m
        },
        EntityKey::Sort { table_id, sort_id } => CatalogModel {
            sorts: m.sorts.remove((table_id, sort_id)),
            ..m
        },
        EntityKey::Macro { macro_id } => CatalogModel { macros: m.macros.remove(macro_id), ..m },
        _ => m,
    }
}

/// Removes one entity, and nothing else; says whether it was live.
fn remove_entity(state: &mut CatalogSnapshot, key: EntityKey) -> (live: bool)
    ensures
        live == entity_is_live(old(state)@, key),
        final(state)@ == minus_entity(old(state)@, key),
{
    match key {
        EntityKey::Schema { schema_id } => state.schemas.remove(&schema_id).is_some(),
        EntityKey::Table { table_id } => state.tables.remove(&table_id).is_some(),
        EntityKey::View { view_id } => state.views.remove(&view_id).is_some(),
        EntityKey::Column { table_id, column_id } => state.columns.remove(
            &(table_id, column_id),
        ).is_some(),
        EntityKey::File { table_id, data_file_id } => state.data_files.remove(
            &(table_id, data_file_id),
        ).is_some(),
        EntityKey::DeleteFile { table_id, delete_file_id } => state.delete_files.remove(
            &(table_id, delete_file_id),
        ).is_some(),
        EntityKey::Partition { table_id, partition_id } => state.partitions.remove(
            &(table_id, partition_id),
        ).is_some(),
        EntityKey::Sort { table_id, sort_id } => state.sorts.remove(
            &(table_id, sort_id),
        ).is_some(),
        EntityKey::Macro { macro_id } => state.macros.remove(&macro_id).is_some(),
        _ => false,
    }
}

/// Why a version cannot be ended.
pub open spec fn version_end_refusal(
    m: CatalogModel,
    table: TableKind,
    cells: Seq<CellModel>,
    new_id: u64,
) -> Option<Fault> {
    let end = number(cells[key_width(table) as int]);
    let key = entity_named(table, cells);
    if end_refusal(table, cells) is Some {
        end_refusal(table, cells)
    } else if end_snapshot_refusal(table, end, new_id) is Some {
        end_snapshot_refusal(table, end, new_id)
    } else if !entity_is_live(m, key) {
        Some(corrupt(table, wrapped("no live row to end for "@, entity_name(key), ""@)))
    } else {
        None
    }
}

/// The state after a row's version ended, or why it cannot.
pub open spec fn ended(m: CatalogModel, table: TableKind, cells: Seq<CellModel>, new_id: u64) -> Result<
    CatalogModel,
    Fault,
> {
    match table {
        TableKind::Tag => match tag_end_refusal(m, cells, new_id) {
            Some(f) => Err(f),
            None => Ok(tag_ended(m, number(cells[0]), text(cells[1]), new_id)),
        },
        TableKind::ColumnTag => match column_tag_end_refusal(m, cells, new_id) {
            Some(f) => Err(f),
            None => Ok(
                column_tag_ended(m, (number(cells[0]), number(cells[1])), text(cells[2]), new_id),
            ),
        },
        _ => match version_end_refusal(m, table, cells, new_id) {
            Some(f) => Err(f),
            None => Ok(minus_entity(m, entity_named(table, cells))),
        },
    }
}

/// Ends the live version of the one row that was named. Nothing else ends with
/// it: every change of a row comes as a row of its own. Ending a row that is
/// not live is refused.
pub fn apply_update_set_end(
    state: &mut CatalogSnapshot,
    table: TableKind,
    cells: &Vec<Cell>,
    new_id: u64,
) -> (r: Result<(), Error>)
    ensures
        match ended(old(state)@, table, cells.deep_view(), new_id) {
            Err(f) => refused(r, f) && final(state)@ == old(state)@,
            Ok(next) => r is Ok && final(state)@ == next,
        },
{
    match table {
        TableKind::Tag => return apply_tag_set_end(state, cells, new_id),
        TableKind::ColumnTag => return apply_column_tag_set_end(state, cells, new_id),
        _ => {},
    }
    let (key, end_snapshot) = match decode_end(table, cells) {
        Err(e) => return Err(e),
        Ok(pair) => pair,
    };
    match check_end_snapshot(table, end_snapshot, new_id) {
        Err(e) => return Err(e),
        Ok(()) => {},
    }
    if !remove_entity(state, key) {
        proof {
            removing_nothing(old(state)@, key);
        }
        return Err(
            corrupt_row(
                table,
                &text_wrapped("no live row to end for ", &entity_text(key), ""),
            ),
        );
    }
    Ok(())
}

/// Removing an entity that is not live changes nothing.
proof fn removing_nothing(m: CatalogModel, key: EntityKey)
    requires
        !entity_is_live(m, key),
    ensures
        minus_entity(m, key) == m,
{
    assert(minus_entity(m, key) =~= m);
}

// ---------------------------------------------------------------------------
// The begin of a new file
// ---------------------------------------------------------------------------

pub open spec fn begin_shape() -> Seq<Want> {
    seq![Want::Number, Want::Number, Want::Number]
}

/// Why the begin of a file cannot be moved: only a file that this commit
/// inserts can be, and only to the commit's own snapshot.
pub open spec fn begin_refusal(
    base: CatalogModel,
    m: CatalogModel,
    table: TableKind,
    cells: Seq<CellModel>,
    new_id: u64,
) -> Option<Fault> {
    let file = (number(cells[0]), number(cells[1]));
    let begin = number(cells[2]);
    if table != TableKind::DataFile {
        Some(Fault::Constraint(wrapped("update_set_begin is not defined for "@, kind_name(table), ""@)))
    } else if row_refusal(table, begin_shape(), cells) is Some {
        row_refusal(table, begin_shape(), cells)
    } else if begin != new_id {
        Some(
            corrupt(
                table,
                around_two(
                    "begin_snapshot "@,
                    begin,
                    " does not match this commit's snapshot id "@,
                    new_id,
                    ""@,
                ),
            ),
        )
    } else if base.data_files.contains_key(file) {
        Some(
            corrupt(
                table,
                around_two(
                    "file ("@,
                    file.0,
                    ", "@,
                    file.1,
                    ") predates this commit and cannot be rebased"@,
                ),
            ),
        )
    } else if !m.data_files.contains_key(file) {
        Some(corrupt(table, around_two("no data file ("@, file.0, ", "@, file.1, ") to rebase"@)))
    } else {
        None
    }
}

/// The state with the begin of a file moved.
pub open spec fn begun(m: CatalogModel, file: (u64, u64), begin: u64) -> CatalogModel {
    CatalogModel {
        data_files: m.data_files.insert(
            file,
            DataFileModel { begin_snapshot: begin, ..m.data_files[file] },
        ),
        ..m
    }
}

/// Moves the begin of a data file that this commit inserts.
pub fn apply_update_set_begin(
    base: &CatalogSnapshot,
    state: &mut CatalogSnapshot,
    table: TableKind,
    cells: &Vec<Cell>,
    new_id: u64,
) -> (r: Result<(), Error>)
    ensures
        match begin_refusal(base@, old(state)@, table, cells.deep_view(), new_id) {
            Some(f) => refused(r, f) && final(state)@ == old(state)@,
            None => r is Ok && final(state)@ == begun(
                old(state)@,
                (number(cells.deep_view()[0]), number(cells.deep_view()[1])),
                new_id,
            ),
        },
{
    if table != TableKind::DataFile {
        return Err(
            Error::Constraint(
                text_wrapped("update_set_begin is not defined for ", kind_text(table), ""),
            ),
        );
    }
    let shape: Vec<Want> = vec![Want::Number, Want::Number, Want::Number];
    assert(shape@ =~= begin_shape());
    match check_row(table, &shape, cells) {
        Err(e) => return Err(e),
        Ok(()) => {},
    }
    assert(forall|i: int|
        0 <= i < cells@.len() ==> cells.deep_view()[i] == (#[trigger] cells@[i]).deep_view());
    let file = (number_of(&cells[0]), number_of(&cells[1]));
    let begin = number_of(&cells[2]);
    if begin != new_id {
        return Err(
            corrupt_row(
                table,
                &text_around_two(
                    "begin_snapshot ",
                    begin,
                    " does not match this commit's snapshot id ",
                    new_id,
                    "",
                ),
            ),
        );
    }
    if base.data_files.contains_key(&file) {
        return Err(
            corrupt_row(
                table,
                &text_around_two(
                    "file (",
                    file.0,
                    ", ",
                    file.1,
                    ") predates this commit and cannot be rebased",
                ),
            ),
        );
    }
    let mut value = match state.data_files.get(&file) {
        Some(value) => value.dup(),
        None => return Err(
            corrupt_row(
                table,
                &text_around_two("no data file (", file.0, ", ", file.1, ") to rebase"),
            ),
        ),
    };
    value.begin_snapshot = begin;
    state.data_files.insert(file, value);
    Ok(())
}

} // verus!
