use moraine::api::{ColumnDef, Direction, NullOrder, SchemaId, TableId};
use moraine::catalog::CatalogSnapshot;
use moraine::diff::diff_writes;
use moraine::error::Error;
use moraine::index_changes::{
    inline_schema_for, pending_inline_schemas, InlineChunk, IndexReads,
};
use moraine::index_entries::{HeldEntries, StagedIndexEntry};
use moraine::index_upkeep::{
    data_file_object_path, file_delete_read, file_location_text, index_positions,
    per_index_scoped_entries, plan_read, table_object_path, KeyedRow, KilledRows, ScopedReadEntry,
};
use moraine::keys::{EntityKey, IndexKey, Key, Stored};
use moraine::ordered::{OrdMap, Record};
use moraine::reading::{next_read, Wanted};
use moraine::records::{DataFileValue, IndexValue, SnapshotValue};
use moraine::rows::{Cell, RowOperation, TableKind};
use moraine::upkeep::{derive_index_entries, stage_index_maintenance};
use moraine::verbs::Transaction;

/// A schema `sales` (1) with a table `orders` (2) of two columns, an index on
/// the second column, and a data file of three rows.
fn indexed() -> CatalogSnapshot {
    let empty = CatalogSnapshot::empty(SnapshotValue {
        snapshot_id: 0,
        snapshot_time_micros: 0,
        schema_version: 0,
        next_catalog_id: 1,
        next_file_id: 0,
        next_deletion_id: 0,
        changes_made: String::new(),
        author: None,
        commit_message: None,
        commit_extra_info: None,
        schema_changed_table_ids: Vec::new(),
    });
    let mut transaction = Transaction::new(empty, 1);
    let schema: SchemaId = transaction.create_schema("sales").unwrap();
    let column = |name: &str| ColumnDef {
        name: name.to_owned(),
        column_type: "BIGINT".to_owned(),
        nulls_allowed: true,
        default_value: None,
    };
    let table: TableId = transaction
        .create_table(schema, "orders", &[column("id"), column("qty")])
        .unwrap();
    assert_eq!(table.get(), 2);
    let (_, mut base, _, _) = transaction.into_parts();
    base.put_index(IndexValue {
        index_id: 5,
        table_id: 2,
        begin_snapshot: 1,
        end_snapshot: None,
        index_name: "by_qty".to_owned(),
        columns: vec![2],
        unique: true,
        directions: vec![Direction::Ascending],
        nulls: vec![NullOrder::Last],
        build_state: None,
    });
    base.put_data_file(data_file(7));
    base
}

fn data_file(data_file_id: u64) -> DataFileValue {
    DataFileValue {
        data_file_id,
        table_id: 2,
        begin_snapshot: 1,
        end_snapshot: None,
        file_order: None,
        path: "f.parquet".to_owned(),
        path_is_relative: true,
        file_format: "parquet".to_owned(),
        record_count: 3,
        file_size_bytes: 30,
        footer_size: 4,
        row_id_start: Some(100),
        partition_id: None,
        encryption_key: None,
        mapping_id: None,
        partial_max: None,
        partition_values: Vec::new(),
    }
}

fn reads() -> IndexReads {
    IndexReads {
        store: true,
        inserted_files: OrdMap::new(),
        live_files: OrdMap::new(),
        delete_files: OrdMap::new(),
        staged_chunks: OrdMap::new(),
        committed_chunks: OrdMap::new(),
        schemas: OrdMap::new(),
        held: HeldEntries::new(),
    }
}

/// A row with a value, as its index reads and encodes it.
fn row(row_id: u64, value: u8) -> KeyedRow {
    (
        ScopedReadEntry {
            row_id,
            values: vec![Some(vec![value])],
        },
        vec![value],
    )
}

fn inserted_file(data_file_id: u64) -> RowOperation {
    RowOperation::Insert {
        table: TableKind::DataFile,
        cells: vec![
            Cell::U64(data_file_id),
            Cell::U64(2),
            Cell::U64(2),
            Cell::Null,
            Cell::Null,
            Cell::Str("g.parquet".to_owned()),
            Cell::Bool(true),
            Cell::Str("parquet".to_owned()),
            Cell::U64(2),
            Cell::U64(20),
            Cell::U64(4),
            Cell::U64(103),
            Cell::Null,
            Cell::Null,
            Cell::Null,
            Cell::Null,
        ],
    }
}

fn added(key: u8, row_id: u64, delete: bool) -> StagedIndexEntry {
    StagedIndexEntry {
        index_id: 5,
        unique: true,
        key: vec![key],
        row_id,
        delete,
    }
}

#[test]
fn paths_are_below_their_table_and_normalized() {
    assert_eq!(
        file_location_text("sales/orders/", "f.parquet", true, "root"),
        "root/sales/orders/f.parquet"
    );
    assert_eq!(
        file_location_text("sales/orders/", "f.parquet", true, ""),
        "sales/orders/f.parquet"
    );
    assert_eq!(
        file_location_text("sales/orders/", "/abs//f.parquet", false, "root"),
        "/abs//f.parquet"
    );
    let base = indexed();
    assert_eq!(
        data_file_object_path(&base, &data_file(7), "root").unwrap(),
        "root/sales/orders/f.parquet"
    );
    // Empty segments go, and reserved characters are escaped.
    assert_eq!(
        table_object_path(&base, 2, "/abs//f 1%.parquet/", false, "").unwrap(),
        "abs/f 1%25.parquet"
    );
    assert_eq!(
        table_object_path(&base, 99, "f", true, "").unwrap_err(),
        Error::Corruption("registered file names unknown table 99".to_owned())
    );
}

#[test]
fn reads_are_planned_by_column_position() {
    let base = indexed();
    let table = TableId::new(2);
    let columns = base.columns_of(table);
    let indexes = base.indexes_of(table);
    assert_eq!(index_positions(&columns, &indexes[0], table), Ok(vec![1]));
    assert_eq!(
        plan_read(&columns, &indexes, table),
        Ok((vec![1], vec![(0, 1)]))
    );
    let mut stale = base.clone();
    stale.delete_column(2, 2);
    assert_eq!(
        plan_read(&stale.columns_of(table), &indexes, table).unwrap_err(),
        Error::NotFound("indexed column 2 of table 2".to_owned())
    );
}

#[test]
fn a_registered_file_adds_the_entries_of_its_rows() {
    let base = indexed();
    let ops = vec![inserted_file(8)];
    let mut found = reads();
    found
        .inserted_files
        .insert((2, 8), vec![vec![row(103, 10), row(104, 11)]]);
    assert_eq!(
        derive_index_entries(&base, &ops, &found, "").unwrap(),
        vec![added(10, 103, false), added(11, 104, false)]
    );
    let mut writes = Vec::new();
    stage_index_maintenance(&base, &ops, &found, "", &mut writes).unwrap();
    assert_eq!(writes.len(), 2);
    assert_eq!(
        writes[0],
        (
            Key::Index(IndexKey::Unique {
                index_id: 5,
                key: vec![10]
            }),
            Some(Stored::Raw(103_u64.to_be_bytes().to_vec()))
        )
    );
    // A file that has to be read cannot be left out.
    assert!(derive_index_entries(&base, &ops, &reads(), "").is_err());
    let mut nowhere = reads();
    nowhere.store = false;
    assert!(matches!(
        derive_index_entries(&base, &ops, &nowhere, ""),
        Err(Error::Constraint(_))
    ));
}

#[test]
fn a_killed_row_takes_its_entry_away() {
    let base = indexed();
    let ops = vec![RowOperation::InlineFileDelete {
        table_id: 2,
        data_file_id: 7,
        row_id: 1,
        begin_snapshot: 2,
    }];
    let mut found = reads();
    found.live_files.insert(
        (2, 7),
        vec![vec![row(100, 10), row(101, 11), row(102, 12)]],
    );
    assert_eq!(
        derive_index_entries(&base, &ops, &found, "").unwrap(),
        vec![added(11, 101, true)]
    );
}

#[test]
fn a_position_outside_its_file_is_refused() {
    let base = indexed();
    let mut killed = KilledRows::new();
    killed.insert_position(2);
    assert!(file_delete_read(&base, 2, 7, &killed, true, "")
        .unwrap()
        .is_some());
    killed.insert_position(3);
    assert_eq!(
        file_delete_read(&base, 2, 7, &killed, true, "").unwrap_err(),
        Error::Constraint(
            "delete file for data file 7 on table 2 names position 3 outside the file's record \
             count 3"
                .to_owned()
        )
    );
}

#[test]
fn an_ended_inline_row_takes_its_entry_away() {
    let base = indexed();
    let end = |row_id| RowOperation::InlineInlineDelete {
        table_id: 2,
        row_id,
        end_snapshot: 2,
    };
    let mut found = reads();
    found.schemas.insert((2, 1), vec![7]);
    found.committed_chunks.insert(
        2,
        vec![InlineChunk {
            schema_version: 1,
            row_id_start: 200,
            row_count: 2,
            rows: vec![vec![row(200, 20), row(201, 21)]],
        }],
    );
    assert_eq!(
        derive_index_entries(&base, &vec![end(201)], &found, "").unwrap(),
        vec![added(21, 201, true)]
    );
    assert_eq!(
        derive_index_entries(&base, &vec![end(300)], &found, "").unwrap_err(),
        Error::Corruption(
            "inline delete of row 300 on indexed table 2 names no inline chunk, so its index \
             entries cannot be derived"
                .to_owned()
        )
    );
}

#[test]
fn an_inline_schema_is_the_pending_or_the_stored_one() {
    let pending = pending_inline_schemas(&vec![RowOperation::InlineSchema {
        table_id: 2,
        schema_version: 3,
        arrow_schema: vec![1],
    }]);
    let mut stored = OrdMap::new();
    stored.insert((2, 3), vec![8]);
    stored.insert((2, 4), vec![9]);
    assert_eq!(inline_schema_for(&pending, &stored, 2, 3), Ok(vec![1]));
    assert_eq!(inline_schema_for(&pending, &stored, 2, 4), Ok(vec![9]));
    assert_eq!(
        inline_schema_for(&pending, &stored, 2, 5).unwrap_err(),
        Error::Corruption("no inline schema for table 2 version 5".to_owned())
    );
}

#[test]
fn an_untouched_index_needs_nothing() {
    let base = indexed();
    let ops = vec![RowOperation::InlineDrop { table_id: 2 }];
    assert_eq!(
        derive_index_entries(&base, &ops, &reads(), "").unwrap(),
        vec![]
    );
}

#[test]
fn one_read_is_split_by_index() {
    let value = |byte: u8| Some(vec![byte]);
    let rows = vec![
        ScopedReadEntry {
            row_id: 1,
            values: vec![value(10), value(11), None],
        },
        ScopedReadEntry {
            row_id: 2,
            values: vec![value(20), value(21), value(22)],
        },
    ];
    assert_eq!(
        per_index_scoped_entries(&rows, &vec![(0, 1), (1, 2)]),
        vec![
            vec![
                ScopedReadEntry {
                    row_id: 1,
                    values: vec![value(10)],
                },
                ScopedReadEntry {
                    row_id: 2,
                    values: vec![value(20)],
                },
            ],
            vec![
                ScopedReadEntry {
                    row_id: 1,
                    values: vec![value(11), None],
                },
                ScopedReadEntry {
                    row_id: 2,
                    values: vec![value(21), value(22)],
                },
            ],
        ]
    );
}

/// Upkeep asks for one read after the other, and for none that it has.
#[test]
fn reads_are_asked_for_in_turn() {
    let base = indexed();
    let ops = vec![
        inserted_file(8),
        RowOperation::InlineInsert {
            table_id: 2,
            schema_version: 1,
            begin_snapshot: 2,
            row_id_start: 200,
            row_count: 1,
            arrow_body: vec![9],
        },
        RowOperation::InlineInlineDelete {
            table_id: 2,
            row_id: 200,
            end_snapshot: 2,
        },
        RowOperation::InlineFileDelete {
            table_id: 2,
            data_file_id: 7,
            row_id: 1,
            begin_snapshot: 2,
        },
    ];
    let mut found = reads();
    found.schemas.insert((2, 1), vec![7]);
    match next_read(&base, &ops, &found, "") {
        Some(Wanted::InsertedFile(read)) => {
            assert_eq!((read.table_id, read.data_file_id), (2, 8));
            assert_eq!(read.positions, vec![1]);
        }
        _ => panic!("the inserted file comes first"),
    }
    found.inserted_files.insert((2, 8), vec![vec![row(103, 10)]]);
    assert!(matches!(
        next_read(&base, &ops, &found, ""),
        Some(Wanted::StagedChunk {
            number: 1,
            table_id: 2,
            schema_version: 1,
        })
    ));
    found.staged_chunks.insert(1, vec![vec![row(200, 20)]]);
    match next_read(&base, &ops, &found, "") {
        Some(Wanted::Chunks { table_id, row_ids }) => {
            assert_eq!((table_id, row_ids), (2, vec![200]));
        }
        _ => panic!("the chunks of the ended row come next"),
    }
    found.committed_chunks.insert(2, vec![]);
    match next_read(&base, &ops, &found, "") {
        Some(Wanted::LiveFile {
            table_id,
            data_file_id,
            ..
        }) => assert_eq!((table_id, data_file_id), (2, 7)),
        _ => panic!("the file of the killed row comes last"),
    }
    found.live_files.insert(
        (2, 7),
        vec![vec![row(100, 10), row(101, 11), row(102, 12)]],
    );
    assert!(next_read(&base, &ops, &found, "").is_none());
    assert_eq!(
        derive_index_entries(&base, &ops, &found, "").unwrap(),
        vec![
            added(10, 103, false),
            added(20, 200, false),
            added(20, 200, true),
            added(11, 101, true),
        ]
    );
}

/// Without a store of files nothing is asked for: the commit is refused.
#[test]
fn refused_operations_want_no_reads() {
    let base = indexed();
    let ops = vec![inserted_file(8)];
    let mut nowhere = reads();
    nowhere.store = false;
    assert!(next_read(&base, &ops, &nowhere, "").is_none());
}

#[test]
fn refused_upkeep_leaves_the_writes_alone() {
    let base = indexed();
    let ops = vec![inserted_file(8)];
    let mut nowhere = reads();
    nowhere.store = false;
    let before = vec![(Key::Snapshot { snapshot_id: 2 }, None)];
    let mut writes = before.dup();
    assert_eq!(
        stage_index_maintenance(&base, &ops, &nowhere, "", &mut writes),
        derive_index_entries(&base, &ops, &nowhere, "").map(|_| ())
    );
    assert_eq!(writes, before);
    // A value that another row holds is found after the values before it.
    let mut found = reads();
    found
        .inserted_files
        .insert((2, 8), vec![vec![row(103, 10), row(104, 11)]]);
    found
        .held
        .insert((5, vec![11]), 9_u64.to_be_bytes().to_vec());
    assert!(matches!(
        stage_index_maintenance(&base, &ops, &found, "", &mut writes),
        Err(Error::Constraint(_))
    ));
    assert_eq!(writes.len(), 2);
    assert_eq!(writes[..1], before[..]);
}

#[test]
fn a_row_with_a_null_has_an_entry_of_its_own() {
    let base = indexed();
    let ops = vec![inserted_file(8)];
    let null = |row_id| -> KeyedRow {
        (
            ScopedReadEntry {
                row_id,
                values: vec![None],
            },
            vec![0],
        )
    };
    let mut found = reads();
    found
        .inserted_files
        .insert((2, 8), vec![vec![null(103), null(104)]]);
    let mut writes = Vec::new();
    stage_index_maintenance(&base, &ops, &found, "", &mut writes).unwrap();
    let keys: Vec<Key> = writes.into_iter().map(|write| write.0).collect();
    let multi = |row_id| {
        Key::Index(IndexKey::Multi {
            index_id: 5,
            key: vec![0],
            row_id,
        })
    };
    assert_eq!(keys, vec![multi(103), multi(104)]);
}

#[test]
fn an_index_keeps_its_directions() {
    let mut base = indexed();
    base.put_index(IndexValue {
        index_id: 6,
        table_id: 2,
        begin_snapshot: 1,
        end_snapshot: None,
        index_name: "by_both".to_owned(),
        columns: vec![2, 1],
        unique: false,
        directions: vec![Direction::Descending, Direction::Ascending],
        nulls: vec![NullOrder::First, NullOrder::Last],
        build_state: None,
    });
    let listed = base.indexes_of(TableId::new(2));
    assert_eq!(listed.len(), 2);
    assert_eq!(listed[0].directions, vec![Direction::Ascending]);
    assert_eq!(
        listed[1].directions,
        vec![Direction::Descending, Direction::Ascending]
    );
    assert_eq!(listed[1].nulls, vec![NullOrder::First, NullOrder::Last]);
    // Dropping its table keeps them in the history.
    let mut transaction = Transaction::new(base.clone(), 2);
    transaction.drop_table(TableId::new(2)).unwrap();
    let (_, state, _, _) = transaction.into_parts();
    let writes = diff_writes(&base, &state, 2);
    let entity = EntityKey::Index {
        table_id: 2,
        index_id: 6,
    };
    let ended = writes
        .iter()
        .find(|write| write.0 == Key::history(entity, 2))
        .unwrap();
    match &ended.1 {
        Some(Stored::Index(index)) => {
            assert_eq!(index.end_snapshot, Some(2));
            assert_eq!(
                index.directions,
                vec![Direction::Descending, Direction::Ascending]
            );
            assert_eq!(index.nulls, vec![NullOrder::First, NullOrder::Last]);
        }
        other => panic!("{other:?}"),
    }
}
