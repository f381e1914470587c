//! Staged rows, applied to a working copy of the catalog.
use crate::catalog::{CatalogModel, CatalogSnapshot};
use crate::children::{group, take_group, ChildModel, ChildRows};
use crate::decode::{
    column_mapping_row, column_row, column_tag_row, data_file_row, decode_column,
    decode_column_mapping, decode_column_tag_row, decode_data_file, decode_delete_file,
    decode_file_column_stats, decode_gc_file_row, decode_macro, decode_partition_info,
    decode_schema, decode_sort_info, decode_table, decode_table_column_stats, decode_table_stats,
    decode_tag_row, decode_view, delete_file_row, file_column_stats_row, gc_file_row,
    insert_refusal, macro_row, partition_info_row, schema_row, sort_info_row,
    table_column_stats_row, table_from, table_row, table_stats_row, table_value, tag_row, view_row,
};
use crate::error::{around_two, refused, text_around_two, Error, Fault};
use crate::ordered::Record;
use crate::records::{
    ColumnModel, DataFileModel, MacroImplementation, MacroImplementationModel, MacroModel,
    MacroParameter, MacroParameterModel, MappingModel, NameMapping, NameMappingModel,
    PartitionModel, SortModel, TagEntry, TagEntryModel, TagModel, TagValue,
};
use crate::rows::{corrupt, corrupt_row, number, Cell, CellModel, TableKind};
use vstd::prelude::*;

verus! {

// ---------------------------------------------------------------------------
// Macros and mappings
// ---------------------------------------------------------------------------

/// Why the implementations of a macro are refused: ordinals count from zero,
/// and all have one type.
pub open spec fn implementations_refusal(rows: Seq<MacroImplementationModel>) -> Option<Fault>
    decreases rows.len(),
{
    if rows.len() == 0 {
        None
    } else {
        let n = rows.len() - 1;
        match implementations_refusal(rows.drop_last()) {
            Some(f) => Some(f),
            None => if rows[n].impl_id != n {
                Some(corrupt(TableKind::MacroImpl, "impl_id values must be contiguous from zero"@))
            } else if rows[n].macro_type != rows[0].macro_type {
                Some(
                    corrupt(
                        TableKind::MacroImpl,
                        "all implementations of one macro must share a type"@,
                    ),
                )
            } else {
                None
            },
        }
    }
}

proof fn implementations_refusal_stays(rows: Seq<MacroImplementationModel>, n: int)
    requires
        0 <= n <= rows.len(),
        implementations_refusal(rows.take(n)) is Some,
    ensures
        implementations_refusal(rows) == implementations_refusal(rows.take(n)),
    decreases rows.len(),
{
    if n == rows.len() {
        assert(rows.take(n) =~= rows);
    } else {
        assert(rows.drop_last().take(n) =~= rows.take(n));
        implementations_refusal_stays(rows.drop_last(), n);
    }
}

/// Implementations that are not refused are numbered from zero.
proof fn implementations_are_numbered(rows: Seq<MacroImplementationModel>)
    requires
        implementations_refusal(rows) is None,
    ensures
        forall|i: int| 0 <= i < rows.len() ==> (#[trigger] rows[i]).impl_id == i,
    decreases rows.len(),
{
    if rows.len() > 0 {
        implementations_are_numbered(rows.drop_last());
        assert forall|i: int| 0 <= i < rows.len() implies (#[trigger] rows[i]).impl_id == i by {
            if i < rows.len() - 1 {
                assert(rows.drop_last()[i] == rows[i]);
            }
        }
    }
}

fn check_implementations(rows: &Vec<MacroImplementation>) -> (r: Result<(), Error>)
    ensures
        match implementations_refusal(rows.deep_view()) {
            Some(f) => refused(r, f),
            None => r is Ok,
        },
{
    let ghost q = rows.deep_view();
    let mut i: usize = 0;
    assert(q.take(0) =~= Seq::<MacroImplementationModel>::empty());
    while i < rows.len()
        invariant
            i <= rows@.len(),
            q == rows.deep_view(),
            implementations_refusal(q.take(i as int)) is None,
        decreases rows.len() - i,
    {
        proof {
            let next = q.take(i + 1);
            assert(next.drop_last() =~= q.take(i as int));
            assert(next[i as int] == rows@[i as int].deep_view());
            assert(next[0] == rows@[0].deep_view());
        }
        if rows[i].impl_id != i as u64 {
            proof {
                implementations_refusal_stays(q, i + 1);
            }
            return Err(
                corrupt_row(TableKind::MacroImpl, "impl_id values must be contiguous from zero"),
            );
        }
        if !rows[i].macro_type.same(&rows[0].macro_type) {
            proof {
                implementations_refusal_stays(q, i + 1);
            }
            return Err(
                corrupt_row(
                    TableKind::MacroImpl,
                    "all implementations of one macro must share a type",
                ),
            );
        }
        i = i + 1;
    }
    assert(q.take(q.len() as int) =~= q);
    Ok(())
}

/// Whether parameters are numbered from zero.
pub open spec fn parameters_numbered(rows: Seq<MacroParameterModel>) -> bool {
    forall|i: int| 0 <= i < rows.len() ==> (#[trigger] rows[i]).column_id == i
}

fn check_parameters(rows: &Vec<MacroParameter>) -> (b: bool)
    ensures
        b == parameters_numbered(rows.deep_view()),
{
    let ghost q = rows.deep_view();
    let mut i: usize = 0;
    while i < rows.len()
        invariant
            i <= rows@.len(),
            q == rows.deep_view(),
            forall|j: int| 0 <= j < i ==> (#[trigger] q[j]).column_id == j,
        decreases rows.len() - i,
    {
        assert(q[i as int] == rows@[i as int].deep_view());
        if rows[i].column_id != i as u64 {
            return false;
        }
        i = i + 1;
    }
    true
}

/// The parameters without those of the first `n` implementations of a macro.
pub open spec fn minus_parameters(
    m: Map<(u64, u64), Seq<MacroParameterModel>>,
    macro_id: u64,
    n: nat,
) -> Map<(u64, u64), Seq<MacroParameterModel>>
    decreases n,
{
    if n == 0 {
        m
    } else {
        minus_parameters(m, macro_id, (n - 1) as nat).remove((macro_id, (n - 1) as u64))
    }
}

/// Removing the parameters of the first implementations leaves the others.
proof fn later_parameters_stay(
    m: Map<(u64, u64), Seq<MacroParameterModel>>,
    macro_id: u64,
    n: nat,
    at: u64,
)
    requires
        n <= at,
    ensures
        group(minus_parameters(m, macro_id, n), (macro_id, at)) == group(m, (macro_id, at)),
    decreases n,
{
    if n > 0 {
        later_parameters_stay(m, macro_id, (n - 1) as nat, at);
        assert((n - 1) as u64 != at);
    }
}

/// Whether some implementation's parameters are not numbered from zero.
pub open spec fn parameters_astray(
    m: Map<(u64, u64), Seq<MacroParameterModel>>,
    macro_id: u64,
    n: nat,
) -> bool {
    exists|i: int|
        0 <= i < n && !parameters_numbered(#[trigger] group(m, (macro_id, i as u64)))
}

/// Why a macro cannot be inserted.
pub open spec fn macro_refusal(children: ChildModel, cells: Seq<CellModel>) -> Option<Fault> {
    let id = macro_row(cells).macro_id;
    let rows = group(children.macro_implementations, id);
    if insert_refusal(TableKind::Macro, cells) is Some {
        insert_refusal(TableKind::Macro, cells)
    } else if rows.len() == 0 {
        Some(
            corrupt(
                TableKind::Macro,
                "a macro insert requires at least one macro_impl row in the same commit"@,
            ),
        )
    } else if implementations_refusal(rows) is Some {
        implementations_refusal(rows)
    } else if parameters_astray(children.macro_parameters, id, rows.len()) {
        Some(corrupt(TableKind::MacroParameters, "column_id values must be contiguous from zero"@))
    } else {
        None
    }
}

/// A macro with its implementations and their parameters.
pub open spec fn macro_with(children: ChildModel, cells: Seq<CellModel>) -> MacroModel {
    let id = macro_row(cells).macro_id;
    let rows = group(children.macro_implementations, id);
    MacroModel {
        implementations: Seq::new(
            rows.len(),
            |i: int|
                MacroImplementationModel {
                    parameters: group(children.macro_parameters, (id, i as u64)),
                    ..rows[i]
                },
        ),
        ..macro_row(cells)
    }
}

/// The child rows that a macro leaves.
pub open spec fn minus_macro(children: ChildModel, id: u64) -> ChildModel {
    ChildModel {
        macro_implementations: children.macro_implementations.remove(id),
        macro_parameters: minus_parameters(
            children.macro_parameters,
            id,
            group(children.macro_implementations, id).len(),
        ),
        ..children
    }
}

/// The first implementation, from a rank on, whose parameters are not numbered
/// from zero.
pub open spec fn first_astray(
    m: Map<(u64, u64), Seq<MacroParameterModel>>,
    macro_id: u64,
    n: nat,
    from: nat,
) -> nat
    decreases n - from,
{
    if from >= n || !parameters_numbered(group(m, (macro_id, from as u64))) {
        from
    } else {
        first_astray(m, macro_id, n, from + 1)
    }
}

/// The child rows that a macro leaves where it is refused: its implementations
/// are taken once its row is read, and the parameters of each up to the one that
/// is refused.
pub open spec fn macro_left(children: ChildModel, cells: Seq<CellModel>) -> ChildModel {
    let id = macro_row(cells).macro_id;
    let rows = group(children.macro_implementations, id);
    let taken = ChildModel {
        macro_implementations: children.macro_implementations.remove(id),
        ..children
    };
    if insert_refusal(TableKind::Macro, cells) is Some {
        children
    } else if rows.len() == 0 || implementations_refusal(rows) is Some {
        taken
    } else {
        ChildModel {
            macro_parameters: minus_parameters(
                children.macro_parameters,
                id,
                first_astray(children.macro_parameters, id, rows.len(), 0) + 1,
            ),
            ..taken
        }
    }
}

/// Inserts a macro with its implementations and their parameters: at least one
/// implementation, ordinals from zero, one type.
pub fn apply_macro_insert(
    state: &mut CatalogSnapshot,
    cells: &Vec<Cell>,
    children: &mut ChildRows,
) -> (r: Result<(), Error>)
    ensures
        match macro_refusal(old(children)@, cells.deep_view()) {
            Some(f) => refused(r, f) && final(state)@ == old(state)@ && final(children)@
                == macro_left(old(children)@, cells.deep_view()),
            None => r is Ok && final(state)@ == (CatalogModel {
                macros: old(state)@.macros.insert(
                    macro_row(cells.deep_view()).macro_id,
                    macro_with(old(children)@, cells.deep_view()),
                ),
                ..old(state)@
            }) && final(children)@ == minus_macro(
                old(children)@,
                macro_row(cells.deep_view()).macro_id,
            ),
        },
{
    let mut value = match decode_macro(cells) {
        Err(e) => return Err(e),
        Ok(value) => value,
    };
    let id = value.macro_id;
    let rows = take_group(&mut children.macro_implementations, &id);
    if rows.len() == 0 {
        return Err(
            corrupt_row(
                TableKind::Macro,
                "a macro insert requires at least one macro_impl row in the same commit",
            ),
        );
    }
    match check_implementations(&rows) {
        Err(e) => return Err(e),
        Ok(()) => {},
    }
    let ghost q = rows.deep_view();
    let ghost before = old(children)@.macro_parameters;
    proof {
        implementations_are_numbered(q);
    }
    let mut done: Vec<MacroImplementation> = Vec::new();
    let mut i: usize = 0;
    while i < rows.len()
        invariant
            i <= rows@.len(),
            rows@.len() <= usize::MAX,
            q == rows.deep_view(),
            implementations_refusal(q) is None,
            q.len() > 0,
            id == macro_row(cells.deep_view()).macro_id,
            q == group(old(children)@.macro_implementations, id),
            before == old(children)@.macro_parameters,
            insert_refusal(TableKind::Macro, cells.deep_view()) is None,
            forall|j: int| 0 <= j < q.len() ==> (#[trigger] q[j]).impl_id == j,
            done@.len() == i,
            forall|j: int|
                0 <= j < i ==> (#[trigger] done.deep_view()[j]) == (MacroImplementationModel {
                    parameters: group(before, (id, j as u64)),
                    ..q[j]
                }),
            forall|j: int|
                0 <= j < i ==> parameters_numbered(#[trigger] group(before, (id, j as u64))),
            first_astray(before, id, q.len(), 0) == first_astray(before, id, q.len(), i as nat),
            state@ == old(state)@,
            children@ == (ChildModel {
                macro_implementations: old(children)@.macro_implementations.remove(id),
                macro_parameters: minus_parameters(before, id, i as nat),
                ..old(children)@
            }),
        decreases rows.len() - i,
    {
        let mut row = rows[i].dup();
        assert(q[i as int] == rows@[i as int].deep_view());
        let impl_id = row.impl_id;
        let parameters = take_group(&mut children.macro_parameters, &(id, impl_id));
        proof {
            later_parameters_stay(before, id, i as nat, i as u64);
        }
        assert(parameters.deep_view() == group(before, (id, i as u64)));
        if !check_parameters(&parameters) {
            proof {
                assert(first_astray(before, id, q.len(), i as nat) == i);
                assert(children@.macro_parameters =~= minus_parameters(before, id, (i + 1) as nat));
                assert(children@ =~= macro_left(old(children)@, cells.deep_view()));
            }
            return Err(
                corrupt_row(
                    TableKind::MacroParameters,
                    "column_id values must be contiguous from zero",
                ),
            );
        }
        row.parameters = parameters;
        let ghost was = done.deep_view();
        done.push(row);
        proof {
            assert(done.deep_view() =~= was.push(row@));
            assert(children@.macro_parameters =~= minus_parameters(before, id, (i + 1) as nat));
        }
        i = i + 1;
    }
    value.implementations = done;
    proof {
        assert(value@.implementations =~= macro_with(
            old(children)@,
            cells.deep_view(),
        ).implementations);
        assert(!parameters_astray(before, id, q.len()));
    }
    state.put_macro(value);
    Ok(())
}

/// Why the names of a mapping are refused: no ordinal twice, and parents come
/// before their children.
pub open spec fn names_refusal(rows: Seq<NameMappingModel>) -> Option<Fault>
    decreases rows.len(),
{
    if rows.len() == 0 {
        None
    } else {
        let n = rows.len() - 1;
        match names_refusal(rows.drop_last()) {
            Some(f) => Some(f),
            None => if n > 0 && rows[n - 1].column_id == rows[n].column_id {
                Some(
                    corrupt(
                        TableKind::NameMapping,
                        "column_id values must be unique within a mapping"@,
                    ),
                )
            } else if rows[n].parent_column is Some && rows[n].parent_column->0
                >= rows[n].column_id {
                Some(
                    corrupt(
                        TableKind::NameMapping,
                        "parent_column must reference an earlier column_id"@,
                    ),
                )
            } else {
                None
            },
        }
    }
}

proof fn names_refusal_stays(rows: Seq<NameMappingModel>, n: int)
    requires
        0 <= n <= rows.len(),
        names_refusal(rows.take(n)) is Some,
    ensures
        names_refusal(rows) == names_refusal(rows.take(n)),
    decreases rows.len(),
{
    if n == rows.len() {
        assert(rows.take(n) =~= rows);
    } else {
        assert(rows.drop_last().take(n) =~= rows.take(n));
        names_refusal_stays(rows.drop_last(), n);
    }
}

fn check_names(rows: &Vec<NameMapping>) -> (r: Result<(), Error>)
    ensures
        match names_refusal(rows.deep_view()) {
            Some(f) => refused(r, f),
            None => r is Ok,
        },
{
    let ghost q = rows.deep_view();
    let mut i: usize = 0;
    assert(q.take(0) =~= Seq::<NameMappingModel>::empty());
    while i < rows.len()
        invariant
            i <= rows@.len(),
            q == rows.deep_view(),
            names_refusal(q.take(i as int)) is None,
        decreases rows.len() - i,
    {
        proof {
            let next = q.take(i + 1);
            assert(next.drop_last() =~= q.take(i as int));
            assert(next[i as int] == rows@[i as int].deep_view());
            if i > 0 {
                assert(next[i - 1] == rows@[i - 1].deep_view());
            }
        }
        if i > 0 && rows[i - 1].column_id == rows[i].column_id {
            proof {
                names_refusal_stays(q, i + 1);
            }
            return Err(
                corrupt_row(
                    TableKind::NameMapping,
                    "column_id values must be unique within a mapping",
                ),
            );
        }
        let late = match rows[i].parent_column {
            Some(parent) => parent >= rows[i].column_id,
            None => false,
        };
        if late {
            proof {
                names_refusal_stays(q, i + 1);
            }
            return Err(
                corrupt_row(
                    TableKind::NameMapping,
                    "parent_column must reference an earlier column_id",
                ),
            );
        }
        i = i + 1;
    }
    assert(q.take(q.len() as int) =~= q);
    Ok(())
}

/// Why a mapping cannot be inserted.
pub open spec fn mapping_refusal(
    state: CatalogModel,
    children: ChildModel,
    cells: Seq<CellModel>,
) -> Option<Fault> {
    let row = column_mapping_row(cells);
    let rows = group(children.name_mappings, row.mapping_id);
    if insert_refusal(TableKind::ColumnMapping, cells) is Some {
        insert_refusal(TableKind::ColumnMapping, cells)
    } else if rows.len() == 0 {
        Some(
            corrupt(
                TableKind::ColumnMapping,
                "a column_mapping insert requires name_mapping rows in the same commit"@,
            ),
        )
    } else if names_refusal(rows) is Some {
        names_refusal(rows)
    } else if state.mappings.contains_key((row.table_id, row.mapping_id)) {
        Some(corrupt(TableKind::ColumnMapping, "mapping_id already exists for this table"@))
    } else {
        None
    }
}

/// The child rows that a mapping leaves where it is refused: its names are taken
/// once its row is read.
pub open spec fn mapping_left(children: ChildModel, cells: Seq<CellModel>) -> ChildModel {
    if insert_refusal(TableKind::ColumnMapping, cells) is Some {
        children
    } else {
        ChildModel {
            name_mappings: children.name_mappings.remove(column_mapping_row(cells).mapping_id),
            ..children
        }
    }
}

/// Inserts a mapping with its names: at least one, no ordinal twice, parents
/// before children, under an id that the table does not have yet.
pub fn apply_mapping_insert(
    state: &mut CatalogSnapshot,
    cells: &Vec<Cell>,
    children: &mut ChildRows,
) -> (r: Result<(), Error>)
    ensures
        match mapping_refusal(old(state)@, old(children)@, cells.deep_view()) {
            Some(f) => refused(r, f) && final(state)@ == old(state)@ && final(children)@
                == mapping_left(old(children)@, cells.deep_view()),
            None => {
                let row = column_mapping_row(cells.deep_view());
                r is Ok && final(state)@ == (CatalogModel {
                    mappings: old(state)@.mappings.insert(
                        (row.table_id, row.mapping_id),
                        MappingModel {
                            name_mappings: group(old(children)@.name_mappings, row.mapping_id),
                            ..row
                        },
                    ),
                    ..old(state)@
                }) && final(children)@ == (ChildModel {
                    name_mappings: old(children)@.name_mappings.remove(row.mapping_id),
                    ..old(children)@
                })
            },
        },
{
    let mut value = match decode_column_mapping(cells) {
        Err(e) => return Err(e),
        Ok(value) => value,
    };
    let rows = take_group(&mut children.name_mappings, &value.mapping_id);
    if rows.len() == 0 {
        return Err(
            corrupt_row(
                TableKind::ColumnMapping,
                "a column_mapping insert requires name_mapping rows in the same commit",
            ),
        );
    }
    match check_names(&rows) {
        Err(e) => return Err(e),
        Ok(()) => {},
    }
    if state.mappings.contains_key(&(value.table_id, value.mapping_id)) {
        return Err(
            corrupt_row(TableKind::ColumnMapping, "mapping_id already exists for this table"),
        );
    }
    value.name_mappings = rows;
    state.put_mapping(value);
    Ok(())
}

// ---------------------------------------------------------------------------
// Inserts
// ---------------------------------------------------------------------------

/// A column row, with the tags of the version before it.
pub open spec fn column_from(base: CatalogModel, row: ColumnModel) -> ColumnModel {
    ColumnModel {
        tags: if base.columns.contains_key((row.table_id, row.column_id)) {
            base.columns[(row.table_id, row.column_id)].tags
        } else {
            row.tags
        },
        ..row
    }
}

/// The tags of an object with one more.
pub open spec fn with_tag(tags: Map<u64, TagModel>, object_id: u64, entry: TagEntryModel) -> Map<
    u64,
    TagModel,
> {
    let before = if tags.contains_key(object_id) {
        tags[object_id]
    } else {
        TagModel { object_id, entries: Seq::empty() }
    };
    tags.insert(object_id, TagModel { entries: before.entries.push(entry), ..before })
}

pub open spec fn absent_column(table_id: u64, column_id: u64) -> Fault {
    corrupt(
        TableKind::ColumnTag,
        around_two("column tag names an absent column ("@, table_id, ", "@, column_id, ")"@),
    )
}

/// Whether a row is part of another record, or of the snapshot's own.
pub open spec fn folded_elsewhere(table: TableKind) -> bool {
    match table {
        TableKind::Snapshot
        | TableKind::SnapshotChanges
        | TableKind::SchemaVersions
        | TableKind::PartitionColumn
        | TableKind::SortExpression
        | TableKind::FilePartitionValue
        | TableKind::MacroImpl
        | TableKind::MacroParameters
        | TableKind::NameMapping => true,
        _ => false,
    }
}

/// The working state and the child rows after an insert, or why it is refused.
pub open spec fn inserted(
    base: CatalogModel,
    state: CatalogModel,
    children: ChildModel,
    table: TableKind,
    cells: Seq<CellModel>,
) -> Result<(CatalogModel, ChildModel), Fault> {
    if folded_elsewhere(table) {
        Ok((state, children))
    } else if table == TableKind::Macro {
        match macro_refusal(children, cells) {
            Some(f) => Err(f),
            None => Ok(
                (
                    CatalogModel {
                        macros: state.macros.insert(
                            macro_row(cells).macro_id,
                            macro_with(children, cells),
                        ),
                        ..state
                    },
                    minus_macro(children, macro_row(cells).macro_id),
                ),
            ),
        }
    } else if table == TableKind::ColumnMapping {
        match mapping_refusal(state, children, cells) {
            Some(f) => Err(f),
            None => {
                let row = column_mapping_row(cells);
                Ok(
                    (
                        CatalogModel {
                            mappings: state.mappings.insert(
                                (row.table_id, row.mapping_id),
                                MappingModel {
                                    name_mappings: group(children.name_mappings, row.mapping_id),
                                    ..row
                                },
                            ),
                            ..state
                        },
                        ChildModel {
                            name_mappings: children.name_mappings.remove(row.mapping_id),
                            ..children
                        },
                    ),
                )
            },
        }
    } else if insert_refusal(table, cells) is Some {
        Err(insert_refusal(table, cells)->0)
    } else {
        match table {
            TableKind::Schema => {
                let row = schema_row(cells);
                Ok((CatalogModel { schemas: state.schemas.insert(row.schema_id, row), ..state }, children))
            },
            TableKind::Table => {
                let row = table_from(base, table_row(cells));
                Ok((CatalogModel { tables: state.tables.insert(row.table_id, row), ..state }, children))
            },
            TableKind::View => {
                let row = view_row(cells);
                Ok((CatalogModel { views: state.views.insert(row.view_id, row), ..state }, children))
            },
            TableKind::Column => {
                let row = column_from(base, column_row(cells));
                Ok(
                    (
                        CatalogModel {
                            columns: state.columns.insert((row.table_id, row.column_id), row),
                            ..state
                        },
                        children,
                    ),
                )
            },
            TableKind::DataFile => {
                let row = data_file_row(cells);
                let key = (row.table_id, row.data_file_id);
                let full = DataFileModel {
                    partition_values: group(children.file_partition_values, key),
                    ..row
                };
                Ok(
                    (
                        CatalogModel { data_files: state.data_files.insert(key, full), ..state },
                        ChildModel {
                            file_partition_values: children.file_partition_values.remove(key),
                            ..children
                        },
                    ),
                )
            },
            TableKind::DeleteFile => {
                let row = delete_file_row(cells);
                Ok(
                    (
                        CatalogModel {
                            delete_files: state.delete_files.insert(
                                (row.table_id, row.delete_file_id),
                                row,
                            ),
                            ..state
                        },
                        children,
                    ),
                )
            },
            TableKind::PartitionInfo => {
                let row = partition_info_row(cells);
                let full = PartitionModel {
                    columns: group(children.partition_columns, row.partition_id),
                    ..row
                };
                Ok(
                    (
                        CatalogModel {
                            partitions: state.partitions.insert(
                                (row.table_id, row.partition_id),
                                full,
                            ),
                            ..state
                        },
                        ChildModel {
                            partition_columns: children.partition_columns.remove(row.partition_id),
                            ..children
                        },
                    ),
                )
            },
            TableKind::SortInfo => {
                let row = sort_info_row(cells);
                let full = SortModel {
                    expressions: group(children.sort_expressions, row.sort_id),
                    ..row
                };
                Ok(
                    (
                        CatalogModel {
                            sorts: state.sorts.insert((row.table_id, row.sort_id), full),
                            ..state
                        },
                        ChildModel {
                            sort_expressions: children.sort_expressions.remove(row.sort_id),
                            ..children
                        },
                    ),
                )
            },
            TableKind::TableStats => {
                let row = table_stats_row(cells);
                Ok(
                    (
                        CatalogModel {
                            table_stats: state.table_stats.insert(row.table_id, row),
                            ..state
                        },
                        children,
                    ),
                )
            },
            TableKind::TableColumnStats => {
                let row = table_column_stats_row(cells);
                Ok(
                    (
                        CatalogModel {
                            table_column_stats: state.table_column_stats.insert(
                                (row.table_id, row.column_id),
                                row,
                            ),
                            ..state
                        },
                        children,
                    ),
                )
            },
            TableKind::FileColumnStats => {
                let row = file_column_stats_row(cells);
                Ok(
                    (
                        CatalogModel {
                            file_column_stats: state.file_column_stats.insert(
                                (row.table_id, (row.data_file_id, row.column_id)),
                                row,
                            ),
                            ..state
                        },
                        children,
                    ),
                )
            },
            TableKind::FilesScheduledForDeletion => {
                let row = gc_file_row(cells);
                Ok(
                    (
                        CatalogModel { gc_files: state.gc_files.insert(row.data_file_id, row), ..state },
                        children,
                    ),
                )
            },
            TableKind::Tag => Ok(
                (
                    CatalogModel { tags: with_tag(state.tags, number(cells[0]), tag_row(cells)), ..state },
                    children,
                ),
            ),
            _ => {
                let key = (number(cells[0]), number(cells[1]));
                if state.columns.contains_key(key) {
                    let column = state.columns[key];
                    Ok(
                        (
                            CatalogModel {
                                columns: state.columns.insert(
                                    key,
                                    ColumnModel {
                                        tags: column.tags.push(column_tag_row(cells)),
                                        ..column
                                    },
                                ),
                                ..state
                            },
                            children,
                        ),
                    )
                } else {
                    Err(absent_column(key.0, key.1))
                }
            },
        }
    }
}

/// The child rows that an insert leaves where it is refused.
pub open spec fn insert_left(children: ChildModel, table: TableKind, cells: Seq<CellModel>) -> ChildModel {
    match table {
        TableKind::Macro => macro_left(children, cells),
        TableKind::ColumnMapping => mapping_left(children, cells),
        _ => children,
    }
}

/// Inserts a row into the working state. A child row is part of its parent's
/// record and is no insert of its own, nor is a row of the snapshot.
pub fn apply_insert(
    base: &CatalogSnapshot,
    state: &mut CatalogSnapshot,
    table: TableKind,
    cells: &Vec<Cell>,
    children: &mut ChildRows,
) -> (r: Result<(), Error>)
    ensures
        match inserted(base@, old(state)@, old(children)@, table, cells.deep_view()) {
            Err(f) => refused(r, f) && final(state)@ == old(state)@ && final(children)@
                == insert_left(old(children)@, table, cells.deep_view()),
            Ok(next) => r is Ok && final(state)@ == next.0 && final(children)@ == next.1,
        },
{
    match table {
        TableKind::Snapshot
        | TableKind::SnapshotChanges
        | TableKind::SchemaVersions
        | TableKind::PartitionColumn
        | TableKind::SortExpression
        | TableKind::FilePartitionValue
        | TableKind::MacroImpl
        | TableKind::MacroParameters
        | TableKind::NameMapping => Ok(()),
        TableKind::Schema => match decode_schema(cells) {
            Err(e) => Err(e),
            Ok(v) => {
                state.put_schema(v);
                Ok(())
            },
        },
        TableKind::Table => match decode_table(cells) {
            Err(e) => Err(e),
            Ok(v) => {
                state.put_table(table_value(base, v));
                Ok(())
            },
        },
        TableKind::View => match decode_view(cells) {
            Err(e) => Err(e),
            Ok(v) => {
                state.put_view(v);
                Ok(())
            },
        },
        TableKind::Column => match decode_column(cells) {
            Err(e) => Err(e),
            Ok(decoded) => {
                let mut v = decoded;
                // Tags outlive the versions of their column.
                match base.columns.get(&(v.table_id, v.column_id)) {
                    Some(prior) => {
                        v.tags = prior.tags.dup();
                    },
                    None => {},
                }
                state.put_column(v);
                Ok(())
            },
        },
        TableKind::DataFile => match decode_data_file(cells) {
            Err(e) => Err(e),
            Ok(decoded) => {
                let mut v = decoded;
                v.partition_values = take_group(
                    &mut children.file_partition_values,
                    &(v.table_id, v.data_file_id),
                );
                state.put_data_file(v);
                Ok(())
            },
        },
        TableKind::DeleteFile => match decode_delete_file(cells) {
            Err(e) => Err(e),
            Ok(v) => {
                state.put_delete_file(v);
                Ok(())
            },
        },
        TableKind::PartitionInfo => match decode_partition_info(cells) {
            Err(e) => Err(e),
            Ok(decoded) => {
                let mut v = decoded;
                v.columns = take_group(&mut children.partition_columns, &v.partition_id);
                state.put_partition(v);
                Ok(())
            },
        },
        TableKind::SortInfo => match decode_sort_info(cells) {
            Err(e) => Err(e),
            Ok(decoded) => {
                let mut v = decoded;
                v.expressions = take_group(&mut children.sort_expressions, &v.sort_id);
                state.put_sort(v);
                Ok(())
            },
        },
        TableKind::Macro => apply_macro_insert(state, cells, children),
        TableKind::ColumnMapping => apply_mapping_insert(state, cells, children),
        TableKind::TableStats => match decode_table_stats(cells) {
            Err(e) => Err(e),
            Ok(v) => {
                state.put_table_stats(v);
                Ok(())
            },
        },
        TableKind::TableColumnStats => match decode_table_column_stats(cells) {
            Err(e) => Err(e),
            Ok(v) => {
                state.put_table_column_stats(v);
                Ok(())
            },
        },
        TableKind::FileColumnStats => match decode_file_column_stats(cells) {
            Err(e) => Err(e),
            Ok(v) => {
                state.put_file_column_stats(v);
                Ok(())
            },
        },
        TableKind::FilesScheduledForDeletion => match decode_gc_file_row(cells) {
            Err(e) => Err(e),
            Ok(v) => {
                state.put_gc_file(v);
                Ok(())
            },
        },
        TableKind::Tag => match decode_tag_row(cells) {
            Err(e) => Err(e),
            Ok((object_id, entry)) => {
                add_tag(state, object_id, entry);
                Ok(())
            },
        },
        TableKind::ColumnTag => match decode_column_tag_row(cells) {
            Err(e) => Err(e),
            Ok((key, tag)) => {
                let mut column = match state.columns.get(&key) {
                    Some(column) => column.dup(),
                    None => return Err(
                        corrupt_row(
                            TableKind::ColumnTag,
                            &text_around_two(
                                "column tag names an absent column (",
                                key.0,
                                ", ",
                                key.1,
                                ")",
                            ),
                        ),
                    ),
                };
                let ghost was = column.tags.deep_view();
                column.tags.push(tag);
                assert(column.tags.deep_view() =~= was.push(tag.deep_view()));
                state.columns.insert(key, column);
                Ok(())
            },
        },
    }
}

/// Adds a tag to its object.
fn add_tag(state: &mut CatalogSnapshot, object_id: u64, entry: TagEntry)
    ensures
        final(state)@ == (CatalogModel {
            tags: with_tag(old(state)@.tags, object_id, entry@),
            ..old(state)@
        }),
{
    let mut container = match state.tags.get(&object_id) {
        Some(container) => container.dup(),
        None => {
            let container = TagValue { object_id, entries: Vec::new() };
            assert(container@.entries =~= Seq::empty());
            container
        },
    };
    let ghost was = container.entries.deep_view();
    container.entries.push(entry);
    assert(container.entries.deep_view() =~= was.push(entry.deep_view()));
    state.tags.insert(object_id, container);
}

} // verus!
