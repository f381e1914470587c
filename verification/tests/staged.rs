use moraine::apply::apply_macro_insert;
use moraine::catalog::CatalogSnapshot;
use moraine::children::collect_child_rows;
use moraine::commit::bootstrap_writes;
use moraine::error::Error;
use moraine::fold::fold_batch;
use moraine::index_changes::IndexReads;
use moraine::index_entries::HeldEntries;
use moraine::inline::InlineScans;
use moraine::keys::{CurrentKey, EntityKey, Key, StagedWrite, Stored, SysKey};
use moraine::ordered::OrdMap;
use moraine::records::{HeadValue, SnapshotValue};
use moraine::rows::{Cell, RowOperation, TableKind};
use moraine::staged::{column_ids_have_successors, lost_race, translate, StagedTransaction};

fn number(n: u64) -> Cell {
    Cell::U64(n)
}

fn text(t: &str) -> Cell {
    Cell::Str(t.to_owned())
}

fn insert(table: TableKind, cells: Vec<Cell>) -> RowOperation {
    RowOperation::Insert { table, cells }
}

fn bootstrapped() -> CatalogSnapshot {
    let mut view = CatalogSnapshot::empty(SnapshotValue {
        snapshot_id: 0,
        snapshot_time_micros: 0,
        schema_version: 0,
        next_catalog_id: 0,
        next_file_id: 0,
        next_deletion_id: 0,
        changes_made: String::new(),
        author: None,
        commit_message: None,
        commit_extra_info: None,
        schema_changed_table_ids: Vec::new(),
    });
    let writes = bootstrap_writes(false, None, 5, "u".to_owned(), "test");
    fold_batch(&mut view, &writes).unwrap();
    view
}

fn reads() -> IndexReads {
    IndexReads {
        store: true,
        inserted_files: OrdMap::new(),
        live_files: OrdMap::new(),
        delete_files: OrdMap::new(),
        staged_chunks: OrdMap::new(),
        committed_chunks: OrdMap::new(),
        schemas: OrdMap::new(),
        held: HeldEntries::new(),
    }
}

/// The two rows that every commit with a snapshot has.
fn snapshot_rows(id: u64, changes: &str) -> Vec<RowOperation> {
    vec![
        insert(
            TableKind::Snapshot,
            vec![number(id), Cell::I64(77), number(id), number(9), number(4)],
        ),
        insert(
            TableKind::SnapshotChanges,
            vec![number(id), text(changes), text("me"), Cell::Null, Cell::Null],
        ),
    ]
}

fn schema_row(id: u64, name: &str, begin: u64) -> RowOperation {
    insert(
        TableKind::Schema,
        vec![
            number(id),
            text("uuid"),
            number(begin),
            Cell::Null,
            text(name),
            text("p/"),
            Cell::Bool(true),
        ],
    )
}

fn table_row(id: u64, schema_id: u64, name: &str, begin: u64) -> RowOperation {
    insert(
        TableKind::Table,
        vec![
            number(id),
            text("uuid"),
            number(begin),
            Cell::Null,
            number(schema_id),
            text(name),
            text("t/"),
            Cell::Bool(true),
        ],
    )
}

fn column_row(id: u64, table_id: u64, name: &str, begin: u64) -> RowOperation {
    insert(
        TableKind::Column,
        vec![
            number(id),
            number(begin),
            Cell::Null,
            number(table_id),
            number(id - 1),
            text(name),
            text("BIGINT"),
            Cell::Null,
            Cell::Null,
            Cell::Bool(true),
            Cell::Null,
            Cell::Null,
            Cell::Null,
        ],
    )
}

fn commit(
    base: &CatalogSnapshot,
    ops: Vec<RowOperation>,
) -> Result<(u64, Vec<StagedWrite>), Error> {
    assert!(column_ids_have_successors(base, &ops));
    let mut transaction = StagedTransaction::begin();
    for op in ops {
        transaction.stage(op);
    }
    transaction
        .commit(base, &InlineScans::new(), &reads(), "")
        .map(|(id, writes)| (id.get(), writes))
}

/// A base with one table of two columns, committed as rows at snapshot one.
fn with_table() -> CatalogSnapshot {
    let mut base = bootstrapped();
    let mut ops = snapshot_rows(1, r#"created_table:"s"."t""#);
    ops.push(schema_row(1, "s", 1));
    ops.push(table_row(2, 1, "t", 1));
    ops.push(column_row(1, 2, "a", 1));
    ops.push(column_row(2, 2, "b", 1));
    let (id, writes) = commit(&base, ops).unwrap();
    assert_eq!(id, 1);
    fold_batch(&mut base, &writes).unwrap();
    base
}

#[test]
fn staged_rows_become_a_commit() {
    let base = with_table();
    assert_eq!(base.snapshot.snapshot_id, 1);
    assert_eq!(base.snapshot.snapshot_time_micros, 77);
    assert_eq!(base.snapshot.author, Some("me".to_owned()));
    assert_eq!(base.snapshot.next_catalog_id, 9);
    let table = base.tables.get(&2).unwrap();
    assert_eq!(table.table_name, "t");
    // Rows carry no column counter; it is set behind the live columns.
    assert_eq!(table.next_column_id, 3);
    assert_eq!(base.columns.keys(), vec![(2, 1), (2, 2)]);
}

#[test]
fn a_commit_ends_with_its_snapshot_and_head() {
    let base = bootstrapped();
    let mut ops = snapshot_rows(1, "");
    ops.push(schema_row(1, "s", 1));
    let (_, writes) = commit(&base, ops).unwrap();
    assert!(writes.contains(&(
        Key::Sys(SysKey::Head),
        Some(Stored::Head(HeadValue { snapshot_id: 1 }))
    )));
    assert!(writes
        .iter()
        .any(|write| write.0 == Key::Snapshot { snapshot_id: 1 }));
}

#[test]
fn a_version_ends_at_the_snapshot_of_its_commit() {
    let base = with_table();
    let mut ops = snapshot_rows(2, "dropped_table:2");
    let end = |at| RowOperation::UpdateSetEnd {
        table: TableKind::Table,
        cells: vec![number(2), number(at)],
    };
    ops.push(end(2));
    let (_, writes) = commit(&base, ops).unwrap();
    let table = EntityKey::Table { table_id: 2 };
    assert!(writes.contains(&(Key::Current(CurrentKey::Entity(table)), None)));
    assert!(writes
        .iter()
        .any(|write| write.0 == Key::history(table, 2)));

    let mut wrong = snapshot_rows(2, "");
    wrong.push(end(7));
    assert!(matches!(commit(&base, wrong), Err(Error::Corruption(_))));
}

#[test]
fn the_snapshot_rows_must_agree() {
    let base = bootstrapped();
    let mut lone = snapshot_rows(1, "");
    lone.pop();
    assert_eq!(
        commit(&base, lone).unwrap_err(),
        Error::Constraint(
            "staged commit requires a ducklake_snapshot_changes insert".to_owned()
        )
    );
    let mut differing = snapshot_rows(1, "");
    differing.pop();
    differing.push(snapshot_rows(2, "").pop().unwrap());
    assert_eq!(
        commit(&base, differing).unwrap_err(),
        Error::Corruption(
            "staged row for SnapshotChanges: snapshot_id 2 does not match \
             ducklake_snapshot's 1"
                .to_owned()
        )
    );
}

#[test]
fn a_row_of_the_wrong_shape_is_refused() {
    let base = bootstrapped();
    let mut ops = snapshot_rows(1, "");
    ops.push(insert(TableKind::Schema, vec![number(1), number(2)]));
    match commit(&base, ops) {
        Err(Error::Corruption(text)) => {
            assert!(text.starts_with("staged row for Schema: "))
        }
        other => panic!("{other:?}"),
    }
}

#[test]
fn without_a_snapshot_only_reclaiming_is_allowed() {
    let base = with_table();
    let expire = |id| RowOperation::Delete {
        table: TableKind::Snapshot,
        cells: vec![number(id)],
    };
    let (id, writes) = commit(&base, vec![expire(0)]).unwrap();
    assert_eq!(id, 1);
    assert!(writes.contains(&(Key::Snapshot { snapshot_id: 0 }, None)));
    // The head stays: a commit that touches it is refused.
    assert_eq!(
        commit(&base, vec![expire(1)]).unwrap_err(),
        Error::Constraint("snapshot 1 is the head and cannot be expired".to_owned())
    );
    match commit(&base, vec![schema_row(7, "late", 2)]) {
        Err(Error::Constraint(text)) => {
            assert!(text.starts_with("a staged commit without a ducklake_snapshot insert"))
        }
        other => panic!("{other:?}"),
    }
}

#[test]
fn a_transaction_sees_its_own_expirations() {
    let mut transaction = StagedTransaction::begin();
    transaction.stage(RowOperation::Delete {
        table: TableKind::Snapshot,
        cells: vec![number(3)],
    });
    let snapshot = |snapshot_id| SnapshotValue {
        snapshot_id,
        snapshot_time_micros: 0,
        schema_version: 0,
        next_catalog_id: 0,
        next_file_id: 0,
        next_deletion_id: 0,
        changes_made: String::new(),
        author: None,
        commit_message: None,
        commit_extra_info: None,
        schema_changed_table_ids: Vec::new(),
    };
    let visible = transaction
        .visible_snapshots(vec![snapshot(2), snapshot(3), snapshot(4)])
        .unwrap();
    let ids: Vec<u64> = visible.iter().map(|s| s.snapshot_id).collect();
    assert_eq!(ids, vec![2, 4]);
    assert_eq!(transaction.operations().len(), 1);
    transaction.rollback();
}

#[test]
fn a_lost_staged_race_names_its_attempt() {
    let err = lost_race(6);
    assert_eq!(
        err,
        Error::CommitConflict(
            "a concurrent commit changed state this one read or wrote (attempted snapshot 6); \
             staged-row commits are never retried internally"
                .to_owned()
        )
    );
    assert!(err.message().contains("conflict"));
}

#[test]
fn column_ids_at_the_limit_are_noticed() {
    let base = with_table();
    let mut ops = snapshot_rows(2, "altered_table:2");
    ops.push(column_row(u64::MAX, 2, "c", 2));
    assert!(!column_ids_have_successors(&base, &ops));
    // A column of a table that the commit does not leave has no counter to move.
    let mut elsewhere = snapshot_rows(2, "");
    elsewhere.push(column_row(u64::MAX, 8, "c", 2));
    assert!(column_ids_have_successors(&base, &elsewhere));
    // Neither has a commit that is refused, or that mints no snapshot.
    ops.push(insert(TableKind::Schema, vec![number(1)]));
    assert!(column_ids_have_successors(&base, &ops));
    assert!(commit(&base, ops).is_err());
    let lone = vec![column_row(u64::MAX, 2, "c", 2)];
    assert!(column_ids_have_successors(&base, &lone));
    assert!(matches!(commit(&base, lone), Err(Error::Constraint(_))));
}

#[test]
fn rows_are_translated_before_indexes() {
    let base = with_table();
    let mut transaction = StagedTransaction::begin();
    for op in snapshot_rows(2, "") {
        transaction.stage(op);
    }
    transaction.stage(schema_row(7, "late", 2));
    assert!(column_ids_have_successors(&base, transaction.operations()));
    let (id, writes) = transaction.row_writes(&base, &InlineScans::new()).unwrap();
    assert_eq!(id, 2);
    // With no index there is nothing to add.
    let (committed, all) = transaction
        .commit(&base, &InlineScans::new(), &reads(), "")
        .unwrap();
    assert_eq!(committed.get(), 2);
    assert_eq!(all, writes);
}

#[test]
fn a_refused_macro_has_taken_its_child_rows() {
    let implementation = |macro_id| {
        insert(
            TableKind::MacroImpl,
            vec![
                number(macro_id),
                number(0),
                text("duckdb"),
                text("select 1"),
                text("scalar"),
            ],
        )
    };
    let parameter = |macro_id, column_id| {
        insert(
            TableKind::MacroParameters,
            vec![
                number(macro_id),
                number(0),
                number(column_id),
                text("p"),
                text("BIGINT"),
                Cell::Null,
                Cell::Null,
            ],
        )
    };
    let ops = vec![
        implementation(1),
        parameter(1, 3),
        implementation(2),
        parameter(2, 0),
    ];
    let mut children = collect_child_rows(&ops).unwrap();
    let mut state = with_table();
    let row = |id| {
        vec![
            number(1),
            number(id),
            text("m"),
            number(2),
            Cell::Null,
        ]
    };
    let mut astray = row(1);
    astray.pop();
    assert!(apply_macro_insert(&mut state, &astray, &mut children).is_err());
    assert!(children.macro_implementations.contains_key(&1));
    assert_eq!(
        apply_macro_insert(&mut state, &row(1), &mut children),
        Err(Error::Corruption(
            "staged row for MacroParameters: column_id values must be contiguous from zero"
                .to_owned()
        ))
    );
    assert!(!children.macro_implementations.contains_key(&1));
    assert!(!children.macro_parameters.contains_key(&(1, 0)));
    assert!(children.macro_implementations.contains_key(&2));
    assert!(state.macros.is_empty());
    apply_macro_insert(&mut state, &row(2), &mut children).unwrap();
    assert!(state.macros.contains_key(&2));
    assert!(children.macro_implementations.is_empty());
}

#[test]
fn table_kinds_read_back_from_their_numbers() {
    for (number, kind) in TableKind::ALL.iter().enumerate() {
        assert_eq!(TableKind::try_from(number as i32), Ok(*kind));
    }
    assert!(TableKind::try_from(-1).is_err());
    assert!(TableKind::try_from(TableKind::ALL.len() as i32).is_err());
}

#[test]
fn tags_end_and_begin_within_one_object() {
    let base = with_table();
    let tag = |begin, key: &str, value: &str| {
        insert(
            TableKind::Tag,
            vec![number(2), number(begin), Cell::Null, text(key), text(value)],
        )
    };
    let mut ops = snapshot_rows(2, "");
    ops.push(tag(2, "owner", "a"));
    let (_, writes, _) = translate(&base, &ops).unwrap();
    let mut view = base.clone();
    fold_batch(&mut view, &writes).unwrap();
    assert_eq!(view.tags.keys(), vec![2]);

    let mut ops = snapshot_rows(3, "");
    ops.push(RowOperation::UpdateSetEnd {
        table: TableKind::Tag,
        cells: vec![number(2), text("owner"), number(3)],
    });
    ops.push(tag(3, "owner", "b"));
    let (_, writes, _) = translate(&view, &ops).unwrap();
    fold_batch(&mut view, &writes).unwrap();
    let entries = &view.tags.get(&2).unwrap().entries;
    assert_eq!(entries.len(), 2);
    assert_eq!(entries[0].end_snapshot, Some(3));
    assert_eq!(entries[1].end_snapshot, None);
}

#[test]
fn an_end_may_come_behind_the_version_that_follows() {
    let base = with_table();
    let end = || RowOperation::UpdateSetEnd {
        table: TableKind::Table,
        cells: vec![number(2), number(2)],
    };
    let mut before = snapshot_rows(2, "altered_table:2");
    before.push(end());
    before.push(table_row(2, 1, "renamed", 2));
    let mut behind = snapshot_rows(2, "altered_table:2");
    behind.push(table_row(2, 1, "renamed", 2));
    behind.push(end());
    let (_, writes) = commit(&base, before).unwrap();
    assert_eq!(commit(&base, behind).unwrap().1, writes);
    let table = Key::current(EntityKey::Table { table_id: 2 });
    assert!(writes
        .iter()
        .any(|write| write.0 == table && write.1.is_some()));
}
