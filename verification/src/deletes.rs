//! Staged rows that delete.
//!
//! Records without versions leave the working state, and their removal reaches
//! the store through the diff. Versions and snapshots are pruned by deletes of
//! their own: an ended version is not part of the working state, and removing a
//! live one from it would end it once more. Rows inside another record are
//! rewritten with it, or go with it.
use crate::catalog::{CatalogModel, CatalogSnapshot};
use crate::decode::{
    decode_delete_key, decode_hard_delete, entity_named, key_width, prune_refusal, stats_named,
    stats_shape, StatsKey,
};
use crate::error::{
    around, debug_form, debug_text, refused, text_around, text_wrapped, wrapped, Error, Fault,
};
use crate::keys::{
    current_key, history_key, EntityKey, Key, KeyModel, StagedWrite, StoredModel, WriteModel,
};
use crate::ordered::{selected, Record};
use crate::records::{ColumnModel, MappingModel, MappingValue, TagEntry, TagEntryModel, TagModel};
use crate::rows::{
    check_leading, check_row, corrupt, corrupt_row, leading_refusal, number, number_if, number_of,
    row_refusal, text, text_of, Cell, CellModel, TableKind, Want,
};
use crate::text::push_text;
use vstd::prelude::*;

verus! {

/// Whether a tag is the one with a key and a begin.
pub open spec fn is_tag(e: TagEntryModel, key: Seq<char>, begin: u64) -> bool {
    e.key == key && e.begin_snapshot == begin
}

/// The tags but those with a key and a begin.
pub open spec fn tags_but(entries: Seq<TagEntryModel>, key: Seq<char>, begin: u64) -> Seq<TagEntryModel> {
    entries.filter(|e: TagEntryModel| !is_tag(e, key, begin))
}

fn retain_others(entries: &Vec<TagEntry>, key: &String, begin: u64) -> (rest: Vec<TagEntry>)
    ensures
        rest.deep_view() == tags_but(entries.deep_view(), key@, begin),
{
    let ghost q = entries.deep_view();
    let ghost p = |e: TagEntryModel| !is_tag(e, key@, begin);
    let mut rest: Vec<TagEntry> = Vec::new();
    let mut i: usize = 0;
    proof {
        reveal(Seq::filter);
        assert(q.take(0).filter(p) =~= Seq::empty());
        assert(rest.deep_view() =~= Seq::empty());
    }
    while i < entries.len()
        invariant
            i <= entries@.len(),
            q == entries.deep_view(),
            p == (|e: TagEntryModel| !is_tag(e, key@, begin)),
            rest.deep_view() == q.take(i as int).filter(p),
        decreases entries.len() - i,
    {
        let ghost was = rest.deep_view();
        proof {
            reveal(Seq::filter);
            let next = q.take(i + 1);
            assert(next.drop_last() =~= q.take(i as int));
            assert(next.last() == entries@[i as int].deep_view());
        }
        if !(entries[i].key.same(key) && entries[i].begin_snapshot == begin) {
            let copy = entries[i].dup();
            rest.push(copy);
            assert(rest.deep_view() =~= was.push(copy.deep_view()));
        }
        i = i + 1;
    }
    assert(q.take(q.len() as int) =~= q);
    rest
}

// ---------------------------------------------------------------------------
// Tags
// ---------------------------------------------------------------------------

pub open spec fn tag_delete_shape() -> Seq<Want> {
    seq![Want::Number, Want::Text, Want::Number]
}

/// Whether an object has a tag with a key and a begin.
pub open spec fn has_tag(m: CatalogModel, object_id: u64, key: Seq<char>, begin: u64) -> bool {
    m.tags.contains_key(object_id) && tags_but(m.tags[object_id].entries, key, begin).len()
        < m.tags[object_id].entries.len()
}

/// Why a tag cannot be deleted.
pub open spec fn tag_delete_refusal(m: CatalogModel, cells: Seq<CellModel>) -> Option<Fault> {
    let object_id = number(cells[0]);
    let key = text(cells[1]);
    let begin = number(cells[2]);
    if row_refusal(TableKind::Tag, tag_delete_shape(), cells) is Some {
        row_refusal(TableKind::Tag, tag_delete_shape(), cells)
    } else if !has_tag(m, object_id, key, begin) {
        Some(
            corrupt(
                TableKind::Tag,
                wrapped(around("no tag entry ("@, object_id, ", "@), debug_text(key), ", "@)
                    + around(""@, begin, ") to delete"@),
            ),
        )
    } else {
        None
    }
}

/// The state without a tag; a container that is left empty goes too.
pub open spec fn minus_tag(m: CatalogModel, object_id: u64, key: Seq<char>, begin: u64) -> CatalogModel {
    let container = m.tags[object_id];
    let rest = tags_but(container.entries, key, begin);
    CatalogModel {
        tags: if rest.len() == 0 {
            m.tags.remove(object_id)
        } else {
            m.tags.insert(object_id, TagModel { entries: rest, ..container })
        },
        ..m
    }
}

/// Removes a tag from its container.
pub fn apply_tag_delete(state: &mut CatalogSnapshot, cells: &Vec<Cell>) -> (r: Result<(), Error>)
    ensures
        match tag_delete_refusal(old(state)@, cells.deep_view()) {
            Some(f) => refused(r, f) && final(state)@ == old(state)@,
            None => r is Ok && final(state)@ == minus_tag(
                old(state)@,
                number(cells.deep_view()[0]),
                text(cells.deep_view()[1]),
                number(cells.deep_view()[2]),
            ),
        },
{
    let shape: Vec<Want> = vec![Want::Number, Want::Text, Want::Number];
    assert(shape@ =~= tag_delete_shape());
    match check_row(TableKind::Tag, &shape, cells) {
        Err(e) => return Err(e),
        Ok(()) => {},
    }
    assert(forall|i: int|
        0 <= i < cells@.len() ==> cells.deep_view()[i] == (#[trigger] cells@[i]).deep_view());
    let object_id = number_of(&cells[0]);
    let key = text_of(&cells[1]);
    let begin = number_of(&cells[2]);
    match state.tags.get(&object_id) {
        Some(found) => {
            let rest = retain_others(&found.entries, &key, begin);
            assert(rest.deep_view().len() == rest@.len());
            assert(found.entries.deep_view().len() == found.entries@.len());
            if rest.len() < found.entries.len() {
                if rest.len() == 0 {
                    let _ = state.tags.remove(&object_id);
                } else {
                    let mut container = found.dup();
                    container.entries = rest;
                    state.tags.insert(object_id, container);
                }
                return Ok(());
            }
        },
        None => {},
    }
    let mut detail = text_wrapped(
        &text_around("no tag entry (", object_id, ", "),
        &debug_form(&key),
        ", ",
    );
    push_text(&mut detail, &text_around("", begin, ") to delete"));
    Err(corrupt_row(TableKind::Tag, &detail))
}

pub open spec fn column_tag_delete_shape() -> Seq<Want> {
    seq![Want::Number, Want::Number, Want::Text, Want::Number]
}

/// The state without a column tag; a column that is not live has none.
pub open spec fn minus_column_tag(m: CatalogModel, column: (u64, u64), key: Seq<char>, begin: u64) -> CatalogModel {
    if m.columns.contains_key(column) {
        let value = m.columns[column];
        CatalogModel {
            columns: m.columns.insert(
                column,
                ColumnModel { tags: tags_but(value.tags, key, begin), ..value },
            ),
            ..m
        }
    } else {
        m
    }
}

/// Removes a column tag from its column.
fn apply_column_tag_delete(state: &mut CatalogSnapshot, cells: &Vec<Cell>) -> (r: Result<(), Error>)
    ensures
        match row_refusal(TableKind::ColumnTag, column_tag_delete_shape(), cells.deep_view()) {
            Some(f) => refused(r, f) && final(state)@ == old(state)@,
            None => r is Ok && final(state)@ == minus_column_tag(
                old(state)@,
                (number(cells.deep_view()[0]), number(cells.deep_view()[1])),
                text(cells.deep_view()[2]),
                number(cells.deep_view()[3]),
            ),
        },
{
    let shape: Vec<Want> = vec![Want::Number, Want::Number, Want::Text, Want::Number];
    assert(shape@ =~= column_tag_delete_shape());
    match check_row(TableKind::ColumnTag, &shape, cells) {
        Err(e) => return Err(e),
        Ok(()) => {},
    }
    assert(forall|i: int|
        0 <= i < cells@.len() ==> cells.deep_view()[i] == (#[trigger] cells@[i]).deep_view());
    let column = (number_of(&cells[0]), number_of(&cells[1]));
    let key = text_of(&cells[2]);
    let begin = number_of(&cells[3]);
    match state.columns.get(&column) {
        Some(found) => {
            let mut value = found.dup();
            value.tags = retain_others(&found.tags, &key, begin);
            state.columns.insert(column, value);
        },
        None => {},
    }
    Ok(())
}

// ---------------------------------------------------------------------------
// Rows inside another record
// ---------------------------------------------------------------------------

/// The leading cells of a row inside another record: those that name its
/// parent.
pub open spec fn parent_shape(table: TableKind) -> Seq<Want> {
    match table {
        TableKind::PartitionColumn
        | TableKind::SortExpression
        | TableKind::FilePartitionValue => seq![Want::Number, Want::Number],
        _ => seq![Want::Number],
    }
}

/// Whether the parent of a row inside another record is live.
pub open spec fn parent_is_live(m: CatalogModel, table: TableKind, cells: Seq<CellModel>) -> bool {
    match table {
        TableKind::PartitionColumn => m.partitions.contains_key((number(cells[1]), number(cells[0]))),
        TableKind::SortExpression => m.sorts.contains_key((number(cells[1]), number(cells[0]))),
        TableKind::FilePartitionValue => m.data_files.contains_key(
            (number(cells[1]), number(cells[0])),
        ),
        TableKind::MacroImpl | TableKind::MacroParameters => m.macros.contains_key(number(cells[0])),
        _ => exists|k: (u64, u64)| #[trigger] m.mappings.contains_key(k) && k.1 == number(cells[0]),
    }
}

/// Whether a table's rows live inside another record.
pub open spec fn embedded(table: TableKind) -> bool {
    match table {
        TableKind::PartitionColumn
        | TableKind::SortExpression
        | TableKind::FilePartitionValue
        | TableKind::MacroImpl
        | TableKind::MacroParameters
        | TableKind::NameMapping => true,
        _ => false,
    }
}

/// Why a row inside another record cannot be deleted: it goes with its parent
/// alone.
pub open spec fn embedded_refusal(m: CatalogModel, table: TableKind, cells: Seq<CellModel>) -> Option<Fault> {
    if !embedded(table) {
        Some(corrupt(table, "not an embedded kind"@))
    } else if leading_refusal(table, parent_shape(table), cells) is Some {
        leading_refusal(table, parent_shape(table), cells)
    } else if parent_is_live(m, table, cells) {
        Some(corrupt(table, "embedded row deleted while its parent record is still live"@))
    } else {
        None
    }
}

fn has_mapping(state: &CatalogSnapshot, mapping_id: u64) -> (b: bool)
    ensures
        b == exists|k: (u64, u64)| #[trigger] state@.mappings.contains_key(k) && k.1 == mapping_id,
{
    let test = |id: &(u64, u64), v: &MappingValue| -> (b: bool)
        ensures
            b == (id.1 == mapping_id),
    {
        id.1 == mapping_id
    };
    let ghost p = |id: (u64, u64), v: MappingModel| id.1 == mapping_id;
    let found = state.mappings.select(test, Ghost(p));
    proof {
        let s = selected(state@.mappings, p);
        if exists|k: (u64, u64)| #[trigger] state@.mappings.contains_key(k) && k.1 == mapping_id {
            let k = choose|k: (u64, u64)| #[trigger]
                state@.mappings.contains_key(k) && k.1 == mapping_id;
            assert(s.contains(k));
        } else {
            assert(s =~= Set::empty());
        }
    }
    !found.is_empty()
}

/// Accepts the deletion of a row inside another record, which goes with its
/// parent; a parent that is still live is refused.
pub fn apply_embedded_delete(state: &CatalogSnapshot, table: TableKind, cells: &Vec<Cell>) -> (r: Result<
    (),
    Error,
>)
    ensures
        match embedded_refusal(state@, table, cells.deep_view()) {
            Some(f) => refused(r, f),
            None => r is Ok,
        },
{
    let shape: Vec<Want> = match table {
        TableKind::PartitionColumn | TableKind::SortExpression | TableKind::FilePartitionValue => vec![
            Want::Number,
            Want::Number,
        ],
        TableKind::MacroImpl | TableKind::MacroParameters | TableKind::NameMapping => vec![
            Want::Number,
        ],
        _ => return Err(corrupt_row(table, "not an embedded kind")),
    };
    assert(shape@ =~= parent_shape(table));
    match check_leading(table, &shape, cells) {
        Err(e) => return Err(e),
        Ok(()) => {},
    }
    assert(forall|i: int|
        0 <= i < cells@.len() ==> cells.deep_view()[i] == (#[trigger] cells@[i]).deep_view());
    let live = match table {
        TableKind::PartitionColumn => state.partitions.contains_key(
            &(number_of(&cells[1]), number_of(&cells[0])),
        ),
        TableKind::SortExpression => state.sorts.contains_key(
            &(number_of(&cells[1]), number_of(&cells[0])),
        ),
        TableKind::FilePartitionValue => state.data_files.contains_key(
            &(number_of(&cells[1]), number_of(&cells[0])),
        ),
        TableKind::MacroImpl | TableKind::MacroParameters => state.macros.contains_key(
            &number_of(&cells[0]),
        ),
        _ => has_mapping(state, number_of(&cells[0])),
    };
    if live {
        return Err(
            corrupt_row(table, "embedded row deleted while its parent record is still live"),
        );
    }
    Ok(())
}

// ---------------------------------------------------------------------------
// Statistics
// ---------------------------------------------------------------------------

/// The state without a statistics record.
pub open spec fn minus_stats(m: CatalogModel, key: StatsKey) -> CatalogModel {
    match key {
        StatsKey::Table(table_id) => CatalogModel { table_stats: m.table_stats.remove(table_id), ..m },
        StatsKey::Column(table_id, column_id) => CatalogModel {
            table_column_stats: m.table_column_stats.remove((table_id, column_id)),
            ..m
        },
        StatsKey::FileColumn(table_id, data_file_id, column_id) => CatalogModel {
            file_column_stats: m.file_column_stats.remove((table_id, (data_file_id, column_id))),
            ..m
        },
    }
}

/// Removes a statistics record; one that does not exist is no matter, since
/// statistics are deleted in bulk without being read.
pub fn apply_stats_delete(state: &mut CatalogSnapshot, table: TableKind, cells: &Vec<Cell>) -> (r: Result<
    (),
    Error,
>)
    ensures
        match row_refusal(table, stats_shape(table), cells.deep_view()) {
            Some(f) => refused(r, f) && final(state)@ == old(state)@,
            None => r is Ok && final(state)@ == minus_stats(
                old(state)@,
                stats_named(table, cells.deep_view()),
            ),
        },
{
    match decode_delete_key(table, cells) {
        Err(e) => return Err(e),
        Ok(StatsKey::Table(table_id)) => {
            let _ = state.table_stats.remove(&table_id);
        },
        Ok(StatsKey::Column(table_id, column_id)) => {
            let _ = state.table_column_stats.remove(&(table_id, column_id));
        },
        Ok(StatsKey::FileColumn(table_id, data_file_id, column_id)) => {
            let _ = state.file_column_stats.remove(&(table_id, (data_file_id, column_id)));
        },
    }
    Ok(())
}

// ---------------------------------------------------------------------------
// All deletes
// ---------------------------------------------------------------------------

/// The deletion of a key.
pub open spec fn deletion(key: KeyModel) -> WriteModel {
    (key, None::<StoredModel>)
}

/// The key of the version that a row prunes: the live one where the row names
/// no end.
pub open spec fn pruned_key(table: TableKind, cells: Seq<CellModel>) -> KeyModel {
    match number_if(cells[key_width(table) as int]) {
        Some(end) => history_key(entity_named(table, cells), end),
        None => current_key(entity_named(table, cells)),
    }
}

/// The working state and the deletes of their own after a delete, or why it is
/// refused.
pub open spec fn deleted(
    m: CatalogModel,
    direct: Seq<WriteModel>,
    table: TableKind,
    cells: Seq<CellModel>,
) -> Result<(CatalogModel, Seq<WriteModel>), Fault> {
    match table {
        TableKind::TableStats | TableKind::TableColumnStats | TableKind::FileColumnStats => {
            match row_refusal(table, stats_shape(table), cells) {
                Some(f) => Err(f),
                None => Ok((minus_stats(m, stats_named(table, cells)), direct)),
            }
        },
        TableKind::FilesScheduledForDeletion => match row_refusal(table, seq![Want::Number], cells) {
            Some(f) => Err(f),
            None => if m.gc_files.contains_key(number(cells[0])) {
                Ok(
                    (
                        CatalogModel { gc_files: m.gc_files.remove(number(cells[0])), ..m },
                        direct,
                    ),
                )
            } else {
                Err(
                    corrupt(
                        table,
                        around("no scheduled deletion for file "@, number(cells[0]), ""@),
                    ),
                )
            },
        },
        TableKind::Snapshot => match row_refusal(table, seq![Want::Number], cells) {
            Some(f) => Err(f),
            None => if number(cells[0]) == m.snapshot.snapshot_id {
                Err(
                    Fault::Constraint(
                        around(
                            "snapshot "@,
                            number(cells[0]),
                            " is the head and cannot be expired"@,
                        ),
                    ),
                )
            } else {
                Ok((m, direct.push(deletion(KeyModel::Snapshot { snapshot_id: number(cells[0]) }))))
            },
        },
        TableKind::SnapshotChanges => match row_refusal(table, seq![Want::Number], cells) {
            Some(f) => Err(f),
            None => Ok((m, direct)),
        },
        TableKind::ColumnMapping => {
            match row_refusal(table, seq![Want::Number, Want::Number], cells) {
                Some(f) => Err(f),
                None => Ok(
                    (
                        m,
                        direct.push(
                            deletion(
                                current_key(
                                    EntityKey::Mapping {
                                        table_id: number(cells[1]),
                                        mapping_id: number(cells[0]),
                                    },
                                ),
                            ),
                        ),
                    ),
                ),
            }
        },
        TableKind::Tag => match tag_delete_refusal(m, cells) {
            Some(f) => Err(f),
            None => Ok(
                (minus_tag(m, number(cells[0]), text(cells[1]), number(cells[2])), direct),
            ),
        },
        TableKind::ColumnTag => match row_refusal(table, column_tag_delete_shape(), cells) {
            Some(f) => Err(f),
            None => Ok(
                (
                    minus_column_tag(
                        m,
                        (number(cells[0]), number(cells[1])),
                        text(cells[2]),
                        number(cells[3]),
                    ),
                    direct,
                ),
            ),
        },
        TableKind::SchemaVersions => {
            match row_refusal(table, seq![Want::Number, Want::Number, Want::Number], cells) {
                Some(f) => Err(f),
                None => Ok((m, direct)),
            }
        },
        TableKind::PartitionColumn
        | TableKind::SortExpression
        | TableKind::FilePartitionValue
        | TableKind::MacroImpl
        | TableKind::MacroParameters
        | TableKind::NameMapping => match embedded_refusal(m, table, cells) {
            Some(f) => Err(f),
            None => Ok((m, direct)),
        },
        TableKind::Schema
        | TableKind::Table
        | TableKind::View
        | TableKind::Column
        | TableKind::DataFile
        | TableKind::DeleteFile
        | TableKind::PartitionInfo
        | TableKind::SortInfo
        | TableKind::Macro => match prune_refusal(table, cells) {
            Some(f) => Err(f),
            None => Ok((m, direct.push(deletion(pruned_key(table, cells))))),
        },
    }
}

/// Appends the deletion of a key.
fn push_deletion(direct: &mut Vec<StagedWrite>, key: Key)
    ensures
        final(direct).deep_view() == old(direct).deep_view().push(deletion(key@)),
{
    let ghost was = direct.deep_view();
    direct.push((key, None));
    assert(direct.deep_view() =~= was.push(deletion(key@)));
}

/// Deletes a row.
pub fn apply_delete(
    state: &mut CatalogSnapshot,
    table: TableKind,
    cells: &Vec<Cell>,
    direct: &mut Vec<StagedWrite>,
) -> (r: Result<(), Error>)
    ensures
        match deleted(old(state)@, old(direct).deep_view(), table, cells.deep_view()) {
            Err(f) => refused(r, f) && final(state)@ == old(state)@ && final(direct).deep_view()
                == old(direct).deep_view(),
            Ok(next) => r is Ok && final(state)@ == next.0 && final(direct).deep_view() == next.1,
        },
{
    match table {
        TableKind::TableStats | TableKind::TableColumnStats | TableKind::FileColumnStats => {
            apply_stats_delete(state, table, cells)
        },
        TableKind::FilesScheduledForDeletion => {
            let data_file_id = match one_number(table, cells) {
                Err(e) => return Err(e),
                Ok(n) => n,
            };
            if !state.gc_files.contains_key(&data_file_id) {
                return Err(
                    corrupt_row(
                        table,
                        &text_around("no scheduled deletion for file ", data_file_id, ""),
                    ),
                );
            }
            let _ = state.gc_files.remove(&data_file_id);
            Ok(())
        },
        TableKind::Snapshot => {
            let snapshot_id = match one_number(table, cells) {
                Err(e) => return Err(e),
                Ok(n) => n,
            };
            if snapshot_id == state.snapshot.snapshot_id {
                return Err(
                    Error::Constraint(
                        text_around(
                            "snapshot ",
                            snapshot_id,
                            " is the head and cannot be expired",
                        ),
                    ),
                );
            }
            push_deletion(direct, Key::Snapshot { snapshot_id });
            Ok(())
        },
        // The record goes with the row of the snapshot itself.
        TableKind::SnapshotChanges => match one_number(table, cells) {
            Err(e) => Err(e),
            Ok(_) => Ok(()),
        },
        // The working state keeps the mapping: mappings are only ever added to
        // it.
        TableKind::ColumnMapping => {
            let shape: Vec<Want> = vec![Want::Number, Want::Number];
            assert(shape@ =~= seq![Want::Number, Want::Number]);
            match check_row(table, &shape, cells) {
                Err(e) => return Err(e),
                Ok(()) => {},
            }
            assert(forall|i: int|
                0 <= i < cells@.len() ==> cells.deep_view()[i] == (
                #[trigger] cells@[i]).deep_view());
            push_deletion(
                direct,
                Key::current(
                    EntityKey::Mapping {
                        table_id: number_of(&cells[1]),
                        mapping_id: number_of(&cells[0]),
                    },
                ),
            );
            Ok(())
        },
        TableKind::Schema
        | TableKind::Table
        | TableKind::View
        | TableKind::Column
        | TableKind::DataFile
        | TableKind::DeleteFile
        | TableKind::PartitionInfo
        | TableKind::SortInfo
        | TableKind::Macro => {
            let (entity, end) = match decode_hard_delete(table, cells) {
                Err(e) => return Err(e),
                Ok(pair) => pair,
            };
            let key = match end {
                Some(end) => Key::history(entity, end),
                None => Key::current(entity),
            };
            push_deletion(direct, key);
            Ok(())
        },
        TableKind::Tag => apply_tag_delete(state, cells),
        TableKind::ColumnTag => apply_column_tag_delete(state, cells),
        TableKind::PartitionColumn
        | TableKind::SortExpression
        | TableKind::FilePartitionValue
        | TableKind::MacroImpl
        | TableKind::MacroParameters
        | TableKind::NameMapping => apply_embedded_delete(state, table, cells),
        // These rows are part of snapshot records, which go with their
        // snapshots.
        TableKind::SchemaVersions => {
            let shape: Vec<Want> = vec![Want::Number, Want::Number, Want::Number];
            assert(shape@ =~= seq![Want::Number, Want::Number, Want::Number]);
            check_row(table, &shape, cells)
        },
    }
}

/// The number of a row with one cell.
pub fn one_number(table: TableKind, cells: &Vec<Cell>) -> (r: Result<u64, Error>)
    ensures
        match row_refusal(table, seq![Want::Number], cells.deep_view()) {
            Some(f) => refused(r, f),
            None => r == Ok::<u64, Error>(number(cells.deep_view()[0])),
        },
{
    let shape: Vec<Want> = vec![Want::Number];
    assert(shape@ =~= seq![Want::Number]);
    match check_row(table, &shape, cells) {
        Err(e) => return Err(e),
        Ok(()) => {},
    }
    assert(cells.deep_view()[0] == cells@[0].deep_view());
    Ok(number_of(&cells[0]))
}

} // verus!
