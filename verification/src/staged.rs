//! Commits of staged rows: DuckLake authors the rows, and this module turns
//! them into one batch of writes.
//!
//! Every value is stored as it was given, but for one convention: a row that
//! sets an end moves its version out of the live records. A commit of staged
//! rows is never tried again, since its ids and counters were given.
use crate::api::SnapshotId;
use crate::apply::{apply_insert, insert_left, inserted};
use crate::catalog::{CatalogModel, CatalogSnapshot};
use crate::children::{children_of, collect_child_rows, no_children, ChildModel, ChildRows};
use crate::decode::{check_insert, columns_in, insert_refusal};
use crate::deletes::{apply_delete, deleted, one_number};
use crate::diff::{diff, diff_writes};
use crate::ends::{apply_update_set_begin, apply_update_set_end, begin_refusal, begun, ended};
use crate::error::{around, around_two, refused, text_around, text_around_two, Error, Fault};
use crate::keys::{Key, KeyModel, StagedWrite, Stored, StoredModel, SysKey, WriteModel};
use crate::index_changes::{IndexReads, ReadsModel};
use crate::inline::{inline_writes, translate_inline, InlineScans, InlineTableModel};
use crate::ordered::{OrdSet, Record};
use crate::upkeep::{stage_index_maintenance, upkeep_writes};
use crate::records::{HeadModel, HeadValue, SnapshotModel, SnapshotValue, TableModel};
use crate::rows::{
    corrupt, corrupt_row, inline_op, is_inline_op, number, number_of, row_refusal, signed, signed_of,
    text, text_if, text_if_any, text_of, Cell, CellModel, RowModel, RowOperation, TableKind, Want,
};
use crate::scoped::{largest, largest_of, scope};
use crate::text::push_text;
use vstd::prelude::*;

verus! {

// ---------------------------------------------------------------------------
// The snapshot of a commit
// ---------------------------------------------------------------------------

/// The last row that a commit inserts into a table.
pub open spec fn last_insert(ops: Seq<RowModel>, table: TableKind) -> Option<Seq<CellModel>>
    decreases ops.len(),
{
    if ops.len() == 0 {
        None
    } else {
        match ops.last() {
            RowModel::Insert { table: t, cells } => if t == table {
                Some(cells)
            } else {
                last_insert(ops.drop_last(), table)
            },
            _ => last_insert(ops.drop_last(), table),
        }
    }
}

/// The last row that a commit inserts into a table.
fn find_insert(ops: &Vec<RowOperation>, table: TableKind) -> (found: Option<&Vec<Cell>>)
    ensures
        match last_insert(ops.deep_view(), table) {
            Some(cells) => found is Some && found->0.deep_view() == cells,
            None => found is None,
        },
{
    let ghost q = ops.deep_view();
    let mut i: usize = ops.len();
    assert(q.take(q.len() as int) =~= q);
    while i > 0
        invariant
            i <= ops@.len(),
            q == ops.deep_view(),
            last_insert(q, table) == last_insert(q.take(i as int), table),
        decreases i,
    {
        i = i - 1;
        proof {
            let t = q.take(i + 1);
            assert(t.last() == ops@[i as int].deep_view());
            assert(t.drop_last() =~= q.take(i as int));
        }
        match &ops[i] {
            RowOperation::Insert { table: t, cells } => {
                if *t == table {
                    return Some(cells);
                }
            },
            _ => {},
        }
    }
    None
}

/// Why a commit lacks the rows of its snapshot.
pub open spec fn snapshot_rows_refusal(ops: Seq<RowModel>) -> Option<Fault> {
    if last_insert(ops, TableKind::Snapshot) is None {
        Some(Fault::Constraint("staged commit requires a ducklake_snapshot insert"@))
    } else if last_insert(ops, TableKind::SnapshotChanges) is None {
        Some(Fault::Constraint("staged commit requires a ducklake_snapshot_changes insert"@))
    } else {
        None
    }
}

/// The two rows of a commit's snapshot; a commit needs both.
pub fn find_snapshot_rows(ops: &Vec<RowOperation>) -> (r: Result<(&Vec<Cell>, &Vec<Cell>), Error>)
    ensures
        match snapshot_rows_refusal(ops.deep_view()) {
            Some(f) => refused(r, f),
            None => r is Ok && Some(r->Ok_0.0.deep_view()) == last_insert(
                ops.deep_view(),
                TableKind::Snapshot,
            ) && Some(r->Ok_0.1.deep_view()) == last_insert(
                ops.deep_view(),
                TableKind::SnapshotChanges,
            ),
        },
{
    let snapshot = match find_insert(ops, TableKind::Snapshot) {
        Some(cells) => cells,
        None => return Err(
            Error::Constraint("staged commit requires a ducklake_snapshot insert".to_owned()),
        ),
    };
    match find_insert(ops, TableKind::SnapshotChanges) {
        Some(changes) => Ok((snapshot, changes)),
        None => Err(
            Error::Constraint(
                "staged commit requires a ducklake_snapshot_changes insert".to_owned(),
            ),
        ),
    }
}

/// Why a row of schema versions is refused: it repeats two values of the
/// snapshot's own row.
pub open spec fn versions_refusal(cells: Seq<CellModel>, snapshot_id: u64, schema_version: u64) -> Option<
    Fault,
> {
    let table = TableKind::SchemaVersions;
    match insert_refusal(table, cells) {
        Some(f) => Some(f),
        None => if number(cells[0]) != snapshot_id || number(cells[1]) != schema_version {
            Some(
                corrupt(
                    table,
                    around_two(
                        "(begin_snapshot "@,
                        number(cells[0]),
                        ", schema_version "@,
                        number(cells[1]),
                        ") does not match ducklake_snapshot's ("@,
                    ) + around_two(""@, snapshot_id, ", "@, schema_version, ")"@),
                ),
            )
        } else {
            None
        },
    }
}

/// The tables that a commit's rows of schema versions name, in order.
pub open spec fn reshaped_tables(ops: Seq<RowModel>, snapshot_id: u64, schema_version: u64) -> Result<
    Seq<u64>,
    Fault,
>
    decreases ops.len(),
{
    if ops.len() == 0 {
        Ok(Seq::empty())
    } else {
        match reshaped_tables(ops.drop_last(), snapshot_id, schema_version) {
            Err(f) => Err(f),
            Ok(ids) => match ops.last() {
                RowModel::Insert { table, cells } => if table == TableKind::SchemaVersions {
                    match versions_refusal(cells, snapshot_id, schema_version) {
                        Some(f) => Err(f),
                        None => Ok(ids.push(number(cells[2]))),
                    }
                } else {
                    Ok(ids)
                },
                _ => Ok(ids),
            },
        }
    }
}

proof fn reshaped_refusal_stays(ops: Seq<RowModel>, snapshot_id: u64, schema_version: u64, n: int)
    requires
        0 <= n <= ops.len(),
        reshaped_tables(ops.take(n), snapshot_id, schema_version) is Err,
    ensures
        reshaped_tables(ops, snapshot_id, schema_version) == reshaped_tables(
            ops.take(n),
            snapshot_id,
            schema_version,
        ),
    decreases ops.len(),
{
    if n == ops.len() {
        assert(ops.take(n) =~= ops);
    } else {
        assert(ops.drop_last().take(n) =~= ops.take(n));
        reshaped_refusal_stays(ops.drop_last(), snapshot_id, schema_version, n);
    }
}

fn read_versions(cells: &Vec<Cell>, snapshot_id: u64, schema_version: u64) -> (r: Result<u64, Error>)
    ensures
        match versions_refusal(cells.deep_view(), snapshot_id, schema_version) {
            Some(f) => refused(r, f),
            None => r == Ok::<u64, Error>(number(cells.deep_view()[2])),
        },
{
    let table = TableKind::SchemaVersions;
    match check_insert(table, cells) {
        Err(e) => return Err(e),
        Ok(()) => {},
    }
    assert(columns_in(table).len() == 3);
    assert(forall|i: int|
        0 <= i < cells@.len() ==> cells.deep_view()[i] == (#[trigger] cells@[i]).deep_view());
    let begin = number_of(&cells[0]);
    let version = number_of(&cells[1]);
    if begin != snapshot_id || version != schema_version {
        let mut detail = text_around_two(
            "(begin_snapshot ",
            begin,
            ", schema_version ",
            version,
            ") does not match ducklake_snapshot's (",
        );
        push_text(&mut detail, &text_around_two("", snapshot_id, ", ", schema_version, ")"));
        return Err(corrupt_row(table, &detail));
    }
    Ok(number_of(&cells[2]))
}

fn collect_versions(ops: &Vec<RowOperation>, snapshot_id: u64, schema_version: u64) -> (r: Result<
    Vec<u64>,
    Error,
>)
    ensures
        match reshaped_tables(ops.deep_view(), snapshot_id, schema_version) {
            Err(f) => refused(r, f),
            Ok(ids) => r is Ok && r->Ok_0.deep_view() == ids,
        },
{
    let ghost q = ops.deep_view();
    let mut ids: Vec<u64> = Vec::new();
    let mut i: usize = 0;
    assert(q.take(0) =~= Seq::<RowModel>::empty());
    assert(ids.deep_view() =~= Seq::<u64>::empty());
    while i < ops.len()
        invariant
            i <= ops@.len(),
            q == ops.deep_view(),
            reshaped_tables(q.take(i as int), snapshot_id, schema_version) == Ok::<
                Seq<u64>,
                Fault,
            >(ids.deep_view()),
        decreases ops.len() - i,
    {
        proof {
            let next = q.take(i + 1);
            assert(next.drop_last() =~= q.take(i as int));
            assert(next.last() == ops@[i as int].deep_view());
        }
        match &ops[i] {
            RowOperation::Insert { table, cells } => {
                if *table == TableKind::SchemaVersions {
                    match read_versions(cells, snapshot_id, schema_version) {
                        Err(e) => {
                            proof {
                                reshaped_refusal_stays(q, snapshot_id, schema_version, i + 1);
                            }
                            return Err(e);
                        },
                        Ok(id) => {
                            let ghost was = ids.deep_view();
                            ids.push(id);
                            assert(ids.deep_view() =~= was.push(id));
                        },
                    }
                }
            },
            _ => {},
        }
        i = i + 1;
    }
    assert(q.take(q.len() as int) =~= q);
    Ok(ids)
}

/// The snapshot of a commit of staged rows, or why its rows are refused.
pub open spec fn snapshot_of(ops: Seq<RowModel>) -> Result<SnapshotModel, Fault> {
    let s = last_insert(ops, TableKind::Snapshot)->0;
    let c = last_insert(ops, TableKind::SnapshotChanges)->0;
    if snapshot_rows_refusal(ops) is Some {
        Err(snapshot_rows_refusal(ops)->0)
    } else if insert_refusal(TableKind::Snapshot, s) is Some {
        Err(insert_refusal(TableKind::Snapshot, s)->0)
    } else if insert_refusal(TableKind::SnapshotChanges, c) is Some {
        Err(insert_refusal(TableKind::SnapshotChanges, c)->0)
    } else if number(c[0]) != number(s[0]) {
        Err(
            corrupt(
                TableKind::SnapshotChanges,
                around_two(
                    "snapshot_id "@,
                    number(c[0]),
                    " does not match ducklake_snapshot's "@,
                    number(s[0]),
                    ""@,
                ),
            ),
        )
    } else {
        match reshaped_tables(ops, number(s[0]), number(s[2])) {
            Err(f) => Err(f),
            Ok(ids) => Ok(
                SnapshotModel {
                    snapshot_id: number(s[0]),
                    snapshot_time_micros: signed(s[1]),
                    schema_version: number(s[2]),
                    next_catalog_id: number(s[3]),
                    next_file_id: number(s[4]),
                    next_deletion_id: 0,
                    changes_made: text(c[1]),
                    author: text_if(c[2]),
                    commit_message: text_if(c[3]),
                    commit_extra_info: text_if(c[4]),
                    schema_changed_table_ids: ids,
                },
            ),
        }
    }
}

/// Builds the snapshot of a commit from its rows. The values that rows repeat
/// are checked, not trusted.
pub fn build_snapshot_value(ops: &Vec<RowOperation>) -> (r: Result<SnapshotValue, Error>)
    ensures
        match snapshot_of(ops.deep_view()) {
            Err(f) => refused(r, f),
            Ok(m) => r is Ok && r->Ok_0@ == m,
        },
{
    let (s, c) = match find_snapshot_rows(ops) {
        Err(e) => return Err(e),
        Ok(pair) => pair,
    };
    match check_insert(TableKind::Snapshot, s) {
        Err(e) => return Err(e),
        Ok(()) => {},
    }
    assert(columns_in(TableKind::Snapshot).len() == 5);
    assert(forall|i: int|
        0 <= i < s@.len() ==> s.deep_view()[i] == (#[trigger] s@[i]).deep_view());
    match check_insert(TableKind::SnapshotChanges, c) {
        Err(e) => return Err(e),
        Ok(()) => {},
    }
    assert(columns_in(TableKind::SnapshotChanges).len() == 5);
    assert(forall|i: int|
        0 <= i < c@.len() ==> c.deep_view()[i] == (#[trigger] c@[i]).deep_view());
    let snapshot_id = number_of(&s[0]);
    let schema_version = number_of(&s[2]);
    if number_of(&c[0]) != snapshot_id {
        return Err(
            corrupt_row(
                TableKind::SnapshotChanges,
                &text_around_two(
                    "snapshot_id ",
                    number_of(&c[0]),
                    " does not match ducklake_snapshot's ",
                    snapshot_id,
                    "",
                ),
            ),
        );
    }
    let ids = match collect_versions(ops, snapshot_id, schema_version) {
        Err(e) => return Err(e),
        Ok(ids) => ids,
    };
    Ok(
        SnapshotValue {
            snapshot_id,
            snapshot_time_micros: signed_of(&s[1]),
            schema_version,
            next_catalog_id: number_of(&s[3]),
            next_file_id: number_of(&s[4]),
            next_deletion_id: 0,
            changes_made: text_of(&c[1]),
            author: text_if_any(&c[2]),
            commit_message: text_if_any(&c[3]),
            commit_extra_info: text_if_any(&c[4]),
            schema_changed_table_ids: ids,
        },
    )
}

// ---------------------------------------------------------------------------
// Applying the rows
// ---------------------------------------------------------------------------

/// What rows are applied to.
#[verifier::ext_equal]
pub struct WorkModel {
    /// The working copy of the catalog.
    pub state: CatalogModel,
    /// The child rows that no insert took yet.
    pub children: ChildModel,
    /// The deletes beside those that the diff gives.
    pub direct: Seq<WriteModel>,
}

/// What one more row leaves, or why it is refused.
pub open spec fn applied(base: CatalogModel, w: WorkModel, op: RowModel, new_id: u64) -> Result<
    WorkModel,
    Fault,
> {
    match op {
        RowModel::Insert { table, cells } => match inserted(base, w.state, w.children, table, cells) {
            Err(f) => Err(f),
            Ok(next) => Ok(WorkModel { state: next.0, children: next.1, ..w }),
        },
        RowModel::UpdateSetEnd { table, cells } => match ended(w.state, table, cells, new_id) {
            Err(f) => Err(f),
            Ok(state) => Ok(WorkModel { state, ..w }),
        },
        RowModel::UpdateSetBegin { table, cells } => {
            match begin_refusal(base, w.state, table, cells, new_id) {
                Some(f) => Err(f),
                None => Ok(
                    WorkModel {
                        state: begun(w.state, (number(cells[0]), number(cells[1])), new_id),
                        ..w
                    },
                ),
            }
        },
        RowModel::Delete { table, cells } => match deleted(w.state, w.direct, table, cells) {
            Err(f) => Err(f),
            Ok(next) => Ok(WorkModel { state: next.0, direct: next.1, ..w }),
        },
        _ => Ok(w),
    }
}

/// The child rows that a row leaves where it is refused.
pub open spec fn children_left(children: ChildModel, op: RowModel) -> ChildModel {
    match op {
        RowModel::Insert { table, cells } => insert_left(children, table, cells),
        _ => children,
    }
}

/// Applies one row.
pub fn apply_op(
    base: &CatalogSnapshot,
    state: &mut CatalogSnapshot,
    op: &RowOperation,
    new_id: u64,
    children: &mut ChildRows,
    direct: &mut Vec<StagedWrite>,
) -> (r: Result<(), Error>)
    ensures
        match applied(
            base@,
            (WorkModel {
                state: old(state)@,
                children: old(children)@,
                direct: old(direct).deep_view(),
            }),
            op.deep_view(),
            new_id,
        ) {
            Err(f) => refused(r, f) && final(state)@ == old(state)@ && final(children)@
                == children_left(old(children)@, op.deep_view()) && final(direct).deep_view()
                == old(direct).deep_view(),
            Ok(w) => r is Ok && final(state)@ == w.state && final(children)@ == w.children && final(direct).deep_view() == w.direct,
        },
{
    match op {
        RowOperation::Insert { table, cells } => apply_insert(base, state, *table, cells, children),
        RowOperation::UpdateSetEnd { table, cells } => apply_update_set_end(
            state,
            *table,
            cells,
            new_id,
        ),
        RowOperation::UpdateSetBegin { table, cells } => apply_update_set_begin(
            base,
            state,
            *table,
            cells,
            new_id,
        ),
        RowOperation::Delete { table, cells } => apply_delete(state, *table, cells, direct),
        _ => Ok(()),
    }
}

/// The rounds in which rows are applied. Ends and deletes come before inserts,
/// whatever the order in which they were staged: a rename ends one version and
/// inserts another under the same id, and the insert must stay. Moves of a
/// begin come last: they are about rows that this commit inserts.
#[derive(Debug, Clone, Copy, PartialEq, Eq, Structural)]
pub enum Round {
    Ends,
    Inserts,
    Begins,
}

/// Whether a row is applied in a round.
pub open spec fn in_round(op: RowModel, round: Round) -> bool {
    match round {
        Round::Ends => op is Delete || op is UpdateSetEnd,
        Round::Inserts => op is Insert,
        Round::Begins => op is UpdateSetBegin,
    }
}

fn is_in_round(op: &RowOperation, round: Round) -> (b: bool)
    ensures
        b == in_round(op.deep_view(), round),
{
    match (round, op) {
        (Round::Ends, RowOperation::Delete { .. })
        | (Round::Ends, RowOperation::UpdateSetEnd { .. })
        | (Round::Inserts, RowOperation::Insert { .. })
        | (Round::Begins, RowOperation::UpdateSetBegin { .. }) => true,
        _ => false,
    }
}

/// What a round leaves, or why its first bad row is refused.
pub open spec fn rounded(
    base: CatalogModel,
    w: WorkModel,
    ops: Seq<RowModel>,
    new_id: u64,
    round: Round,
) -> Result<WorkModel, Fault>
    decreases ops.len(),
{
    if ops.len() == 0 {
        Ok(w)
    } else {
        match rounded(base, w, ops.drop_last(), new_id, round) {
            Err(f) => Err(f),
            Ok(next) => if in_round(ops.last(), round) {
                applied(base, next, ops.last(), new_id)
            } else {
                Ok(next)
            },
        }
    }
}

proof fn round_refusal_stays(
    base: CatalogModel,
    w: WorkModel,
    ops: Seq<RowModel>,
    new_id: u64,
    round: Round,
    n: int,
)
    requires
        0 <= n <= ops.len(),
        rounded(base, w, ops.take(n), new_id, round) is Err,
    ensures
        rounded(base, w, ops, new_id, round) == rounded(base, w, ops.take(n), new_id, round),
    decreases ops.len(),
{
    if n == ops.len() {
        assert(ops.take(n) =~= ops);
    } else {
        assert(ops.drop_last().take(n) =~= ops.take(n));
        round_refusal_stays(base, w, ops.drop_last(), new_id, round, n);
    }
}

fn apply_round(
    base: &CatalogSnapshot,
    state: &mut CatalogSnapshot,
    ops: &Vec<RowOperation>,
    new_id: u64,
    children: &mut ChildRows,
    direct: &mut Vec<StagedWrite>,
    round: Round,
) -> (r: Result<(), Error>)
    ensures
        match rounded(
            base@,
            (WorkModel {
                state: old(state)@,
                children: old(children)@,
                direct: old(direct).deep_view(),
            }),
            ops.deep_view(),
            new_id,
            round,
        ) {
            Err(f) => refused(r, f),
            Ok(w) => r is Ok && final(state)@ == w.state && final(children)@ == w.children && final(direct).deep_view() == w.direct,
        },
{
    let ghost q = ops.deep_view();
    let ghost w0 = WorkModel { state: state@, children: children@, direct: direct.deep_view() };
    let mut i: usize = 0;
    assert(q.take(0) =~= Seq::<RowModel>::empty());
    while i < ops.len()
        invariant
            i <= ops@.len(),
            q == ops.deep_view(),
            w0 == (WorkModel {
                state: old(state)@,
                children: old(children)@,
                direct: old(direct).deep_view(),
            }),
            rounded(base@, w0, q.take(i as int), new_id, round) == Ok::<WorkModel, Fault>(
                WorkModel { state: state@, children: children@, direct: direct.deep_view() },
            ),
        decreases ops.len() - i,
    {
        proof {
            let next = q.take(i + 1);
            assert(next.drop_last() =~= q.take(i as int));
            assert(next.last() == ops@[i as int].deep_view());
        }
        if is_in_round(&ops[i], round) {
            match apply_op(base, state, &ops[i], new_id, children, direct) {
                Err(e) => {
                    proof {
                        round_refusal_stays(base@, w0, q, new_id, round, i + 1);
                    }
                    return Err(e);
                },
                Ok(()) => {},
            }
        }
        i = i + 1;
    }
    assert(q.take(q.len() as int) =~= q);
    Ok(())
}

/// Why child rows that are left over are refused: they belong to a row that
/// the commit does not insert.
pub open spec fn leftover_refusal(c: ChildModel) -> Option<Fault> {
    if c.partition_columns != Map::<u64, Seq<crate::records::PartitionColumnModel>>::empty() {
        Some(
            corrupt(
                TableKind::PartitionColumn,
                "partition_column rows without a matching partition_info insert in this commit"@,
            ),
        )
    } else if c.sort_expressions != Map::<u64, Seq<crate::records::SortExpressionModel>>::empty() {
        Some(
            corrupt(
                TableKind::SortExpression,
                "sort_expression rows without a matching sort_info insert in this commit"@,
            ),
        )
    } else if c.file_partition_values != Map::<
        (u64, u64),
        Seq<crate::records::FilePartitionValueModel>,
    >::empty() {
        Some(
            corrupt(
                TableKind::FilePartitionValue,
                "file_partition_value rows without a matching data_file insert in this commit"@,
            ),
        )
    } else if c.macro_implementations != Map::<
        u64,
        Seq<crate::records::MacroImplementationModel>,
    >::empty() {
        Some(
            corrupt(
                TableKind::MacroImpl,
                "macro_impl rows without a matching macro insert in this commit"@,
            ),
        )
    } else if c.macro_parameters != Map::<(u64, u64), Seq<crate::records::MacroParameterModel>>::empty() {
        Some(
            corrupt(
                TableKind::MacroParameters,
                "macro_parameters rows without a matching macro_impl in this commit"@,
            ),
        )
    } else if c.name_mappings != Map::<u64, Seq<crate::records::NameMappingModel>>::empty() {
        Some(
            corrupt(
                TableKind::NameMapping,
                "name_mapping rows without a matching column_mapping insert in this commit"@,
            ),
        )
    } else {
        None
    }
}

fn check_leftovers(c: &ChildRows) -> (r: Result<(), Error>)
    ensures
        match leftover_refusal(c@) {
            Some(f) => refused(r, f),
            None => r is Ok,
        },
{
    if !c.partition_columns.is_empty() {
        return Err(
            corrupt_row(
                TableKind::PartitionColumn,
                "partition_column rows without a matching partition_info insert in this commit",
            ),
        );
    }
    if !c.sort_expressions.is_empty() {
        return Err(
            corrupt_row(
                TableKind::SortExpression,
                "sort_expression rows without a matching sort_info insert in this commit",
            ),
        );
    }
    if !c.file_partition_values.is_empty() {
        return Err(
            corrupt_row(
                TableKind::FilePartitionValue,
                "file_partition_value rows without a matching data_file insert in this commit",
            ),
        );
    }
    if !c.macro_implementations.is_empty() {
        return Err(
            corrupt_row(
                TableKind::MacroImpl,
                "macro_impl rows without a matching macro insert in this commit",
            ),
        );
    }
    if !c.macro_parameters.is_empty() {
        return Err(
            corrupt_row(
                TableKind::MacroParameters,
                "macro_parameters rows without a matching macro_impl in this commit",
            ),
        );
    }
    if !c.name_mappings.is_empty() {
        return Err(
            corrupt_row(
                TableKind::NameMapping,
                "name_mapping rows without a matching column_mapping insert in this commit",
            ),
        );
    }
    Ok(())
}

// ---------------------------------------------------------------------------
// Column-id counters
// ---------------------------------------------------------------------------

/// A table with its column-id counter above every live column id.
pub open spec fn floated_table(m: CatalogModel, table_id: u64) -> TableModel {
    let table = m.tables[table_id];
    let ids = scope(m.columns, table_id);
    if ids != Set::<u64>::empty() && table.next_column_id <= largest(ids) {
        TableModel { next_column_id: (largest(ids) + 1) as u64, ..table }
    } else {
        table
    }
}

/// The state with every table's column-id counter above its live column ids.
pub open spec fn floated(m: CatalogModel) -> CatalogModel {
    CatalogModel {
        tables: Map::new(|t: u64| m.tables.contains_key(t), |t: u64| floated_table(m, t)),
        ..m
    }
}

/// Whether every column id of a live table has a successor.
pub open spec fn column_ids_fit(m: CatalogModel) -> bool {
    forall|k: (u64, u64)| #[trigger]
        m.columns.contains_key(k) && m.tables.contains_key(k.0) ==> k.1 < u64::MAX
}

/// Staged rows bring their own column ids; this puts every table's counter
/// above them, so that no id is given out twice.
pub fn float_column_counters(state: &mut CatalogSnapshot)
    requires
        column_ids_fit(old(state)@),
    ensures
        final(state)@ == floated(old(state)@),
{
    let ghost m = state@;
    let ids = state.tables.keys();
    let ghost q = ids.deep_view();
    let mut i: usize = 0;
    assert(q.no_duplicates()) by {
        assert forall|a: int, b: int| 0 <= a < q.len() && 0 <= b < q.len() && a != b implies q[a]
            != q[b] by {
            if a < b {
                assert(q[a] < q[b]);
            } else {
                assert(q[b] < q[a]);
            }
        }
    }
    while i < ids.len()
        invariant
            i <= ids@.len(),
            q == ids.deep_view(),
            q.to_set() == m.tables.dom(),
            q.no_duplicates(),
            m == old(state)@,
            column_ids_fit(m),
            state@.columns == m.columns,
            state@ == (CatalogModel { tables: state@.tables, ..m }),
            state@.tables.dom() == m.tables.dom(),
            forall|j: int|
                0 <= j < i ==> state@.tables[#[trigger] q[j]] == floated_table(m, q[j]),
            forall|j: int| i <= j < q.len() ==> state@.tables[#[trigger] q[j]] == m.tables[q[j]],
        decreases ids.len() - i,
    {
        let id: u64 = ids[i];
        proof {
            assert(q[i as int] == id);
            assert(q.to_set().contains(id));
        }
        let columns = state.columns.in_scope(id);
        if !columns.is_empty() {
            let top = largest_of(&columns);
            assert(m.columns.contains_key((id, top)));
            assert(m.tables.contains_key(id));
            match state.tables.get(&id) {
                Some(found) => {
                    if found.next_column_id <= top {
                        let mut table = found.dup();
                        table.next_column_id = top + 1;
                        state.tables.insert(id, table);
                    }
                },
                None => {},
            }
        }
        assert(state@.tables.dom() =~= m.tables.dom());
        assert forall|j: int| 0 <= j < i + 1 implies state@.tables[#[trigger] q[j]]
            == floated_table(m, q[j]) by {
            if j < i {
                assert(q[j] != q[i as int]);
            }
        }
        i = i + 1;
    }
    proof {
        assert forall|t: u64| m.tables.contains_key(t) implies #[trigger] state@.tables[t]
            == floated_table(m, t) by {
            assert(q.to_set().contains(t));
            let j = choose|j: int| 0 <= j < q.len() && q[j] == t;
            assert(state@.tables[q[j]] == floated_table(m, q[j]));
        }
        assert(state@.tables =~= floated(m).tables);
    }
}

// ---------------------------------------------------------------------------
// Translation
// ---------------------------------------------------------------------------

/// What the three rounds leave.
pub open spec fn worked(base: CatalogModel, ops: Seq<RowModel>, children: ChildModel, new_id: u64) -> Result<
    WorkModel,
    Fault,
> {
    let start = WorkModel { state: base, children, direct: Seq::empty() };
    match rounded(base, start, ops, new_id, Round::Ends) {
        Err(f) => Err(f),
        Ok(first) => match rounded(base, first, ops, new_id, Round::Inserts) {
            Err(f) => Err(f),
            Ok(second) => rounded(base, second, ops, new_id, Round::Begins),
        },
    }
}

/// The snapshot that a commit mints and what its rows leave, before the
/// counters go up, or why the rows are refused.
pub open spec fn rows_worked(base: CatalogModel, ops: Seq<RowModel>) -> Result<
    (SnapshotModel, WorkModel),
    Fault,
> {
    match snapshot_of(ops) {
        Err(f) => Err(f),
        Ok(snapshot) => match children_of(ops) {
            Err(f) => Err(f),
            Ok(children) => match worked(base, ops, children, snapshot.snapshot_id) {
                Err(f) => Err(f),
                Ok(w) => match leftover_refusal(w.children) {
                    Some(f) => Err(f),
                    None => Ok((snapshot, w)),
                },
            },
        },
    }
}

/// Whether the rows are refused or leave every column id of a live table with
/// a successor, so that the counters can go above them.
pub open spec fn counters_fit(base: CatalogModel, ops: Seq<RowModel>) -> bool {
    match rows_worked(base, ops) {
        Err(_) => true,
        Ok((_, w)) => column_ids_fit(w.state),
    }
}

/// The snapshot and the writes of a commit that mints a snapshot, or why it is
/// refused.
pub open spec fn translated(base: CatalogModel, ops: Seq<RowModel>) -> Result<
    (SnapshotModel, Seq<WriteModel>),
    Fault,
> {
    match rows_worked(base, ops) {
        Err(f) => Err(f),
        Ok((snapshot, w)) => Ok(
            (snapshot, diff(base, floated(w.state), snapshot.snapshot_id) + w.direct),
        ),
    }
}

fn append_writes(writes: &mut Vec<StagedWrite>, more: Vec<StagedWrite>)
    ensures
        final(writes).deep_view() == old(writes).deep_view() + more.deep_view(),
{
    let mut rest = more;
    let ghost a = writes.deep_view();
    let ghost b = rest.deep_view();
    writes.append(&mut rest);
    assert(writes.deep_view() =~= a + b);
}

/// Applies every row to a working copy of the catalog, in three rounds.
fn work_rows(base: &CatalogSnapshot, ops: &Vec<RowOperation>) -> (r: Result<
    (SnapshotValue, CatalogSnapshot, Vec<StagedWrite>),
    Error,
>)
    ensures
        match rows_worked(base@, ops.deep_view()) {
            Err(f) => refused(r, f),
            Ok((snapshot, w)) => r is Ok && r->Ok_0.0@ == snapshot && r->Ok_0.1@ == w.state
                && r->Ok_0.2.deep_view() == w.direct,
        },
{
    let snapshot = match build_snapshot_value(ops) {
        Err(e) => return Err(e),
        Ok(snapshot) => snapshot,
    };
    let new_id = snapshot.snapshot_id;
    let mut state = base.dup();
    let mut children = match collect_child_rows(ops) {
        Err(e) => return Err(e),
        Ok(children) => children,
    };
    let mut direct: Vec<StagedWrite> = Vec::new();
    assert(direct.deep_view() =~= Seq::<WriteModel>::empty());
    match apply_round(base, &mut state, ops, new_id, &mut children, &mut direct, Round::Ends) {
        Err(e) => return Err(e),
        Ok(()) => {},
    }
    match apply_round(base, &mut state, ops, new_id, &mut children, &mut direct, Round::Inserts) {
        Err(e) => return Err(e),
        Ok(()) => {},
    }
    match apply_round(base, &mut state, ops, new_id, &mut children, &mut direct, Round::Begins) {
        Err(e) => return Err(e),
        Ok(()) => {},
    }
    match check_leftovers(&children) {
        Err(e) => return Err(e),
        Ok(()) => {},
    }
    Ok((snapshot, state, direct))
}

fn state_ids_fit(state: &CatalogSnapshot) -> (b: bool)
    ensures
        b == column_ids_fit(state@),
{
    let keys = state.columns.keys();
    let ghost q = keys.deep_view();
    let mut i: usize = 0;
    while i < keys.len()
        invariant
            i <= keys@.len(),
            q == keys.deep_view(),
            q.to_set() == state@.columns.dom(),
            forall|j: int|
                0 <= j < i && state@.tables.contains_key((#[trigger] q[j]).0) ==> q[j].1
                    < u64::MAX,
        decreases keys.len() - i,
    {
        let key = keys[i];
        assert(q[i as int] == key);
        if key.1 == u64::MAX && state.tables.contains_key(&key.0) {
            assert(q.to_set().contains(q[i as int]));
            assert(state@.columns.contains_key(key));
            return false;
        }
        i = i + 1;
    }
    assert forall|k: (u64, u64)| #[trigger]
        state@.columns.contains_key(k) && state@.tables.contains_key(k.0) implies k.1
        < u64::MAX by {
        assert(q.to_set().contains(k));
        let j = choose|j: int| 0 <= j < q.len() && q[j] == k;
        assert(q[j].1 < u64::MAX);
    }
    true
}

/// Whether a commit of staged rows can put the counters of the tables it
/// leaves above their column ids.
pub fn column_ids_have_successors(base: &CatalogSnapshot, ops: &Vec<RowOperation>) -> (b: bool)
    ensures
        b == counters_fit(base@, ops.deep_view()),
{
    match work_rows(base, ops) {
        Err(_) => true,
        Ok((_, state, _)) => state_ids_fit(&state),
    }
}

/// Applies every row to a working copy of the catalog, and diffs the copy.
pub fn translate(base: &CatalogSnapshot, ops: &Vec<RowOperation>) -> (r: Result<
    (u64, Vec<StagedWrite>, SnapshotValue),
    Error,
>)
    requires
        counters_fit(base@, ops.deep_view()),
    ensures
        match translated(base@, ops.deep_view()) {
            Err(f) => refused(r, f),
            Ok((snapshot, writes)) => r is Ok && r->Ok_0.0 == snapshot.snapshot_id
                && r->Ok_0.1.deep_view() == writes && r->Ok_0.2@ == snapshot,
        },
{
    let (snapshot, mut state, direct) = match work_rows(base, ops) {
        Err(e) => return Err(e),
        Ok(parts) => parts,
    };
    let new_id = snapshot.snapshot_id;
    float_column_counters(&mut state);
    let mut writes = diff_writes(base, &state, new_id);
    append_writes(&mut writes, direct);
    Ok((new_id, writes, snapshot))
}

// ---------------------------------------------------------------------------
// Maintenance
// ---------------------------------------------------------------------------

/// Whether a commit that mints no snapshot may hold a row: it may only
/// reclaim.
pub open spec fn reclaims(op: RowModel) -> bool {
    op is Delete || inline_op(op) || match op {
        RowModel::Insert { table, .. } => table == TableKind::FilesScheduledForDeletion,
        _ => false,
    }
}

fn op_reclaims(op: &RowOperation) -> (b: bool)
    ensures
        b == reclaims(op.deep_view()),
{
    match op {
        RowOperation::Delete { .. } => true,
        RowOperation::Insert { table, .. } => match table {
            TableKind::FilesScheduledForDeletion => true,
            _ => false,
        },
        other => is_inline_op(other),
    }
}

pub open spec fn not_a_reclaim() -> Fault {
    Fault::Constraint(
        "a staged commit without a ducklake_snapshot insert may only reclaim state (maintenance deletes and deletion-schedule inserts)"@,
    )
}

/// What the rows of a commit that mints no snapshot leave, in their order.
pub open spec fn reclaimed(base: CatalogModel, ops: Seq<RowModel>) -> Result<WorkModel, Fault>
    decreases ops.len(),
{
    if ops.len() == 0 {
        Ok(WorkModel { state: base, children: no_children(), direct: Seq::empty() })
    } else {
        match reclaimed(base, ops.drop_last()) {
            Err(f) => Err(f),
            Ok(w) => if reclaims(ops.last()) {
                applied(base, w, ops.last(), base.snapshot.snapshot_id)
            } else {
                Err(not_a_reclaim())
            },
        }
    }
}

proof fn reclaim_refusal_stays(base: CatalogModel, ops: Seq<RowModel>, n: int)
    requires
        0 <= n <= ops.len(),
        reclaimed(base, ops.take(n)) is Err,
    ensures
        reclaimed(base, ops) == reclaimed(base, ops.take(n)),
    decreases ops.len(),
{
    if n == ops.len() {
        assert(ops.take(n) =~= ops);
    } else {
        assert(ops.drop_last().take(n) =~= ops.take(n));
        reclaim_refusal_stays(base, ops.drop_last(), n);
    }
}

/// The writes of a commit that mints no snapshot, or why it is refused.
pub open spec fn maintained(base: CatalogModel, ops: Seq<RowModel>) -> Result<Seq<WriteModel>, Fault> {
    match reclaimed(base, ops) {
        Err(f) => Err(f),
        Ok(w) => Ok(diff(base, w.state, base.snapshot.snapshot_id) + w.direct),
    }
}

/// Applies the rows of a commit that mints no snapshot to a working copy of the
/// catalog, in their order.
#[verifier::spinoff_prover]
fn reclaim_rows(base: &CatalogSnapshot, ops: &Vec<RowOperation>) -> (r: Result<
    (CatalogSnapshot, Vec<StagedWrite>),
    Error,
>)
    ensures
        match reclaimed(base@, ops.deep_view()) {
            Err(f) => refused(r, f),
            Ok(w) => r is Ok && r->Ok_0.0@ == w.state && r->Ok_0.1.deep_view() == w.direct,
        },
{
    let head = base.snapshot.snapshot_id;
    let mut state = base.dup();
    let mut children = ChildRows::new();
    let mut direct: Vec<StagedWrite> = Vec::new();
    let ghost q = ops.deep_view();
    let mut i: usize = 0;
    proof {
        assert(q.take(0) =~= Seq::<RowModel>::empty());
        assert(direct.deep_view() =~= Seq::<WriteModel>::empty());
    }
    while i < ops.len()
        invariant
            i <= ops@.len(),
            q == ops.deep_view(),
            head == base@.snapshot.snapshot_id,
            reclaimed(base@, q.take(i as int)) == Ok::<WorkModel, Fault>(
                WorkModel { state: state@, children: children@, direct: direct.deep_view() },
            ),
        decreases ops.len() - i,
    {
        proof {
            let next = q.take(i + 1);
            assert(next.drop_last() =~= q.take(i as int));
            assert(next.last() == ops@[i as int].deep_view());
        }
        if !op_reclaims(&ops[i]) {
            proof {
                reclaim_refusal_stays(base@, q, i + 1);
            }
            return Err(
                Error::Constraint(
                    "a staged commit without a ducklake_snapshot insert may only reclaim state (maintenance deletes and deletion-schedule inserts)".to_owned(),
                ),
            );
        }
        match apply_op(base, &mut state, &ops[i], head, &mut children, &mut direct) {
            Err(e) => {
                proof {
                    reclaim_refusal_stays(base@, q, i + 1);
                }
                return Err(e);
            },
            Ok(()) => {},
        }
        i = i + 1;
    }
    assert(q.take(q.len() as int) =~= q);
    Ok((state, direct))
}

/// Translates a commit that mints no snapshot: the expiry of snapshots and the
/// cleanup of files. The head stays where it is. Any row that does not reclaim
/// is refused: every other change comes with a snapshot.
#[verifier::spinoff_prover]
pub fn translate_maintenance(base: &CatalogSnapshot, ops: &Vec<RowOperation>) -> (r: Result<
    Vec<StagedWrite>,
    Error,
>)
    ensures
        match maintained(base@, ops.deep_view()) {
            Err(f) => refused(r, f),
            Ok(writes) => r is Ok && r->Ok_0.deep_view() == writes,
        },
{
    let (state, direct) = match reclaim_rows(base, ops) {
        Err(e) => return Err(e),
        Ok(parts) => parts,
    };
    let mut writes = diff_writes(base, &state, base.snapshot.snapshot_id);
    append_writes(&mut writes, direct);
    Ok(writes)
}

// ---------------------------------------------------------------------------
// The transaction
// ---------------------------------------------------------------------------

/// Rows that were staged and not committed yet.
pub struct StagedTransaction {
    ops: Vec<RowOperation>,
}

impl View for StagedTransaction {
    type V = Seq<RowModel>;

    closed spec fn view(&self) -> Seq<RowModel> {
        self.ops.deep_view()
    }
}

/// Whether a commit mints a snapshot: it inserts the row of one.
pub open spec fn mints(ops: Seq<RowModel>) -> bool {
    last_insert(ops, TableKind::Snapshot) is Some
}

/// The snapshot that a commit leads to, and its writes: those of the catalog,
/// then the snapshot and the head where it mints one, then those of inlined
/// rows, then those of the indexes.
pub open spec fn committed(
    base: CatalogModel,
    ops: Seq<RowModel>,
    scans: Map<u64, InlineTableModel>,
    reads: ReadsModel,
    data_prefix: Seq<char>,
) -> Result<(u64, Seq<WriteModel>), Fault> {
    match catalog_part(base, ops) {
        Err(f) => Err(f),
        Ok((id, writes)) => match upkeep_writes(base, ops, reads, data_prefix) {
            Err(f) => Err(f),
            Ok(more) => Ok((id, writes + inline_writes(ops, scans) + more)),
        },
    }
}

/// The writes to the catalog, then the snapshot that they lead to and the head.
pub open spec fn headed(writes: Seq<WriteModel>, snapshot: SnapshotModel) -> Seq<WriteModel> {
    writes + seq![
        (
            KeyModel::Snapshot { snapshot_id: snapshot.snapshot_id },
            Some(StoredModel::Snapshot(snapshot)),
        ),
        (
            KeyModel::Sys(SysKey::Head),
            Some(StoredModel::Head(HeadModel { snapshot_id: snapshot.snapshot_id })),
        ),
    ]
}

fn push_head(writes: &mut Vec<StagedWrite>, snapshot: SnapshotValue)
    ensures
        final(writes).deep_view() == headed(old(writes).deep_view(), snapshot@),
{
    let snapshot_id = snapshot.snapshot_id;
    writes.push((Key::Snapshot { snapshot_id }, Some(Stored::Snapshot(snapshot))));
    writes.push((Key::Sys(SysKey::Head), Some(Stored::Head(HeadValue { snapshot_id }))));
    assert(writes.deep_view() =~= headed(old(writes).deep_view(), snapshot@));
}

/// The writes of a commit to the catalog itself.
pub open spec fn catalog_part(base: CatalogModel, ops: Seq<RowModel>) -> Result<
    (u64, Seq<WriteModel>),
    Fault,
> {
    if mints(ops) {
        match translated(base, ops) {
            Err(f) => Err(f),
            Ok((snapshot, writes)) => Ok((snapshot.snapshot_id, headed(writes, snapshot))),
        }
    } else {
        match maintained(base, ops) {
            Err(f) => Err(f),
            Ok(writes) => Ok((base.snapshot.snapshot_id, writes)),
        }
    }
}

/// The writes of a commit to the catalog itself, and the snapshot that it leads
/// to.
#[verifier::spinoff_prover]
fn catalog_writes(base: &CatalogSnapshot, ops: &Vec<RowOperation>) -> (r: Result<
    (u64, Vec<StagedWrite>),
    Error,
>)
    requires
        mints(ops.deep_view()) ==> counters_fit(base@, ops.deep_view()),
    ensures
        match catalog_part(base@, ops.deep_view()) {
            Err(f) => refused(r, f),
            Ok((id, writes)) => r is Ok && r->Ok_0.0 == id && r->Ok_0.1.deep_view() == writes,
        },
{
    if find_insert(ops, TableKind::Snapshot).is_some() {
        return match translate(base, ops) {
            Err(e) => Err(e),
            Ok((id, writes, snapshot)) => {
                let mut writes = writes;
                push_head(&mut writes, snapshot);
                Ok((id, writes))
            },
        };
    }
    match translate_maintenance(base, ops) {
        Err(e) => Err(e),
        Ok(writes) => Ok((base.snapshot.snapshot_id, writes)),
    }
}

/// The snapshots that a transaction deletes, or why a row is refused.
pub open spec fn expired(ops: Seq<RowModel>) -> Result<Set<u64>, Fault>
    decreases ops.len(),
{
    if ops.len() == 0 {
        Ok(Set::empty())
    } else {
        match expired(ops.drop_last()) {
            Err(f) => Err(f),
            Ok(ids) => match ops.last() {
                RowModel::Delete { table, cells } => if table == TableKind::Snapshot {
                    match row_refusal(table, seq![Want::Number], cells) {
                        Some(f) => Err(f),
                        None => Ok(ids.insert(number(cells[0]))),
                    }
                } else {
                    Ok(ids)
                },
                _ => Ok(ids),
            },
        }
    }
}

proof fn expiry_refusal_stays(ops: Seq<RowModel>, n: int)
    requires
        0 <= n <= ops.len(),
        expired(ops.take(n)) is Err,
    ensures
        expired(ops) == expired(ops.take(n)),
    decreases ops.len(),
{
    if n == ops.len() {
        assert(ops.take(n) =~= ops);
    } else {
        assert(ops.drop_last().take(n) =~= ops.take(n));
        expiry_refusal_stays(ops.drop_last(), n);
    }
}

/// The snapshots that are not among some ids.
pub open spec fn surviving(snapshots: Seq<SnapshotModel>, gone: Set<u64>) -> Seq<SnapshotModel>
    decreases snapshots.len(),
{
    if snapshots.len() == 0 {
        Seq::empty()
    } else if gone.contains(snapshots.last().snapshot_id) {
        surviving(snapshots.drop_last(), gone)
    } else {
        surviving(snapshots.drop_last(), gone).push(snapshots.last())
    }
}

impl StagedTransaction {
    /// A transaction without rows.
    pub fn begin() -> (t: Self)
        ensures
            t@ == Seq::<RowModel>::empty(),
    {
        let t = StagedTransaction { ops: Vec::new() };
        assert(t@ =~= Seq::<RowModel>::empty());
        t
    }

    /// Adds a row. Nothing is written before the commit.
    pub fn stage(&mut self, op: RowOperation)
        ensures
            final(self)@ == old(self)@.push(op.deep_view()),
    {
        self.ops.push(op);
        assert(self@ =~= old(self)@.push(op.deep_view()));
    }

    /// Discards the rows.
    pub fn rollback(self) {
    }

    /// The rows so far.
    pub fn operations(&self) -> (ops: &Vec<RowOperation>)
        ensures
            ops.deep_view() == self@,
    {
        &self.ops
    }

    /// The snapshots as this transaction sees them: those that were there
    /// before, but the ones that it deletes.
    pub fn visible_snapshots(&self, committed: Vec<SnapshotValue>) -> (r: Result<
        Vec<SnapshotValue>,
        Error,
    >)
        ensures
            match expired(self@) {
                Err(f) => refused(r, f),
                Ok(gone) => r is Ok && r->Ok_0.deep_view() == surviving(
                    committed.deep_view(),
                    gone,
                ),
            },
    {
        let ghost q = self.ops.deep_view();
        let mut gone: OrdSet<u64> = OrdSet::new();
        let mut i: usize = 0;
        assert(q.take(0) =~= Seq::<RowModel>::empty());
        while i < self.ops.len()
            invariant
                i <= self.ops@.len(),
                q == self.ops.deep_view(),
                expired(q.take(i as int)) == Ok::<Set<u64>, Fault>(gone@),
            decreases self.ops.len() - i,
        {
            proof {
                let next = q.take(i + 1);
                assert(next.drop_last() =~= q.take(i as int));
                assert(next.last() == self.ops@[i as int].deep_view());
            }
            match &self.ops[i] {
                RowOperation::Delete { table, cells } => {
                    if *table == TableKind::Snapshot {
                        match one_number(*table, cells) {
                            Err(e) => {
                                proof {
                                    expiry_refusal_stays(q, i + 1);
                                }
                                return Err(e);
                            },
                            Ok(id) => gone.insert(id),
                        }
                    }
                },
                _ => {},
            }
            i = i + 1;
        }
        assert(q.take(q.len() as int) =~= q);
        let ghost c = committed.deep_view();
        let mut visible: Vec<SnapshotValue> = Vec::new();
        let mut i: usize = 0;
        proof {
            assert(c.take(0) =~= Seq::<SnapshotModel>::empty());
            assert(visible.deep_view() =~= Seq::<SnapshotModel>::empty());
        }
        while i < committed.len()
            invariant
                i <= committed@.len(),
                c == committed.deep_view(),
                visible.deep_view() == surviving(c.take(i as int), gone@),
            decreases committed.len() - i,
        {
            proof {
                let next = c.take(i + 1);
                assert(next.drop_last() =~= c.take(i as int));
                assert(next.last() == committed@[i as int].deep_view());
            }
            if !gone.contains(&committed[i].snapshot_id) {
                let ghost was = visible.deep_view();
                let copy = committed[i].dup();
                visible.push(copy);
                assert(visible.deep_view() =~= was.push(copy.deep_view()));
            }
            i = i + 1;
        }
        assert(c.take(c.len() as int) =~= c);
        Ok(visible)
    }

    /// Turns the rows into the writes of one batch, but for those of indexes,
    /// given the catalog at the head and the inlined records of the tables
    /// that are flushed or dropped. Returns the snapshot that the commit leads
    /// to: a new one where the rows mint one, the head otherwise.
    #[verifier::spinoff_prover]
    pub fn row_writes(&self, base: &CatalogSnapshot, scans: &InlineScans) -> (r: Result<
        (u64, Vec<StagedWrite>),
        Error,
    >)
        requires
            mints(self@) ==> counters_fit(base@, self@),
        ensures
            match catalog_part(base@, self@) {
                Err(f) => refused(r, f),
                Ok((id, writes)) => r is Ok && r->Ok_0.0 == id && r->Ok_0.1.deep_view() == writes
                    + inline_writes(self@, scans@),
            },
    {
        let (id, mut writes) = match catalog_writes(base, &self.ops) {
            Err(e) => return Err(e),
            Ok(parts) => parts,
        };
        append_writes(&mut writes, translate_inline(&self.ops, scans));
        Ok((id, writes))
    }

    /// Turns the rows into the writes of one batch, given the catalog at the
    /// head, the inlined records of the tables that are flushed or dropped,
    /// and what was read for the upkeep of indexes.
    pub fn commit(
        self,
        base: &CatalogSnapshot,
        scans: &InlineScans,
        reads: &IndexReads,
        data_prefix: &str,
    ) -> (r: Result<(SnapshotId, Vec<StagedWrite>), Error>)
        requires
            mints(self@) ==> counters_fit(base@, self@),
        ensures
            match committed(base@, self@, scans@, reads@, data_prefix@) {
                Err(f) => refused(r, f),
                Ok((id, writes)) => r is Ok && r->Ok_0.0.id == id && r->Ok_0.1.deep_view()
                    == writes,
            },
    {
        let (id, mut writes) = match self.row_writes(base, scans) {
            Err(e) => return Err(e),
            Ok(parts) => parts,
        };
        match stage_index_maintenance(base, &self.ops, reads, data_prefix, &mut writes) {
            Err(e) => return Err(e),
            Ok(()) => {},
        }
        Ok((SnapshotId::new(id), writes))
    }
}

/// The error of a commit of staged rows that another commit overtook. Such a
/// commit is never tried again.
pub fn lost_race(attempted: u64) -> (e: Error)
    ensures
        e@ == Fault::CommitConflict(
            around(
                "a concurrent commit changed state this one read or wrote (attempted snapshot "@,
                attempted,
                "); staged-row commits are never retried internally"@,
            ),
        ),
{
    Error::CommitConflict(
        text_around(
            "a concurrent commit changed state this one read or wrote (attempted snapshot ",
            attempted,
            "); staged-row commits are never retried internally",
        ),
    )
}

} // verus!
