use moraine::api::{
    ColumnAlteration, ColumnDef, ColumnId, ColumnStats, DataFile, DataFileId, DeleteFile, Direction,
    FileColumnStats, NullOrder, OptionScope, SchemaId, TableId, ViewId,
};
use moraine::catalog::{CatalogSnapshot, EntityRecord};
use moraine::error::Error;
use moraine::operations::Operation;
use moraine::records::{ColumnValue, IndexValue, SchemaValue, SnapshotValue, TableValue};
use moraine::verbs::Transaction;

fn empty_transaction() -> Transaction {
    let snapshot = SnapshotValue {
        snapshot_id: 4,
        snapshot_time_micros: 1,
        schema_version: 2,
        next_catalog_id: 10,
        next_file_id: 0,
        next_deletion_id: 0,
        changes_made: String::new(),
        author: None,
        commit_message: None,
        commit_extra_info: None,
        schema_changed_table_ids: Vec::new(),
    };
    Transaction::new(CatalogSnapshot::build(snapshot, vec![], vec![], None), 5)
}

fn col(name: &str) -> ColumnDef {
    ColumnDef {
        name: name.into(),
        column_type: "BIGINT".into(),
        nulls_allowed: true,
        default_value: None,
    }
}

#[test]
fn create_read_your_own_writes_and_id_allocation() {
    let mut transaction = empty_transaction();
    let s = transaction.create_schema("sales").unwrap();
    assert_eq!(s, SchemaId::new(10));
    let t = transaction
        .create_table(s, "orders", &[col("id"), col("qty")])
        .unwrap();
    assert_eq!(t, TableId::new(11));
    // Reads on the Transaction see staged state (Deref to the working view).
    assert_eq!(transaction.schema_by_name("sales").unwrap().id, s);
    let cols = transaction.columns_of(t);
    assert_eq!(cols[0].id, ColumnId::new(1));
    assert_eq!(cols[1].id, ColumnId::new(2));
    // Records are stamped with the commit's snapshot id.
    assert_eq!(transaction.state().tables.get(&11).unwrap().begin_snapshot, 5);
    // The counter is seeded past the ids just handed out.
    assert_eq!(transaction.state().tables.get(&11).unwrap().next_column_id, 3);

    let (ops, _, next_catalog_id, _) = transaction.into_parts();
    assert_eq!(next_catalog_id, 12);
    assert_eq!(
        ops,
        vec![
            Operation::CreateSchema {
                schema_id: 10,
                name: "sales".into(),
            },
            Operation::CreateTable {
                schema_id: 10,
                table_id: 11,
                schema_name: "sales".into(),
                table_name: "orders".into(),
            },
        ]
    );
}

#[test]
fn name_collisions_and_missing_entities() {
    let mut transaction = empty_transaction();
    let s = transaction.create_schema("sales").unwrap();
    assert!(matches!(
        transaction.create_schema("sales"),
        Err(Error::AlreadyExists(_))
    ));
    transaction.create_table(s, "orders", &[col("id")]).unwrap();
    assert!(matches!(
        transaction.create_table(s, "orders", &[col("id")]),
        Err(Error::AlreadyExists(_))
    ));
    assert!(matches!(
        transaction.create_table(SchemaId::new(99), "x", &[col("id")]),
        Err(Error::NotFound(_))
    ));
    assert!(matches!(
        transaction.rename_table(TableId::new(99), "y"),
        Err(Error::NotFound(_))
    ));
}

#[test]
fn constraints() {
    let mut transaction = empty_transaction();
    let s = transaction.create_schema("sales").unwrap();
    let t = transaction.create_table(s, "orders", &[col("id")]).unwrap();
    // A schema with live tables cannot be dropped.
    assert!(matches!(
        transaction.drop_schema(s),
        Err(Error::Constraint(_))
    ));
    // The last live column cannot be dropped.
    assert!(matches!(
        transaction.drop_column(t, ColumnId::new(1)),
        Err(Error::Constraint(_))
    ));
    // Tables need at least one column, without duplicate names.
    assert!(matches!(
        transaction.create_table(s, "empty", &[]),
        Err(Error::Constraint(_))
    ));
    assert!(matches!(
        transaction.create_table(s, "dup", &[col("a"), col("a")]),
        Err(Error::Constraint(_))
    ));
    // Drop the table, then the schema drop succeeds.
    transaction.drop_table(t).unwrap();
    transaction.drop_schema(s).unwrap();
}

#[test]
fn column_ddl_allocates_fresh_field_ids() {
    let mut transaction = empty_transaction();
    let s = transaction.create_schema("s").unwrap();
    let t = transaction
        .create_table(s, "t", &[col("a"), col("b")])
        .unwrap();
    transaction.drop_column(t, ColumnId::new(2)).unwrap();
    // The dropped column's field id is never reused.
    let c = transaction.add_column(t, &col("c")).unwrap();
    assert_eq!(c, ColumnId::new(3));
    let cols = transaction.columns_of(t);
    assert_eq!(cols.len(), 2);
    assert_eq!(cols[1].position, 1);

    transaction
        .rename_column(t, ColumnId::new(1), "a2")
        .unwrap();
    assert_eq!(transaction.columns_of(t)[0].name, "a2");
    assert!(matches!(
        transaction.rename_column(t, ColumnId::new(1), "c"),
        Err(Error::AlreadyExists(_))
    ));

    transaction
        .alter_column(
            t,
            c,
            ColumnAlteration {
                column_type: Some("VARCHAR".into()),
                nulls_allowed: Some(false),
                default_value: Some(Some("''".into())),
            },
        )
        .unwrap();
    let altered = &transaction.columns_of(t)[1];
    assert_eq!(altered.column_type, "VARCHAR");
    assert!(!altered.nulls_allowed);
    assert_eq!(altered.default_value, Some("''".into()));
}

#[test]
fn table_moves_and_renames_validate_against_target() {
    let mut transaction = empty_transaction();
    let s1 = transaction.create_schema("a").unwrap();
    let s2 = transaction.create_schema("b").unwrap();
    let t1 = transaction.create_table(s1, "t", &[col("x")]).unwrap();
    let _t2 = transaction.create_table(s2, "t", &[col("x")]).unwrap();
    // Moving into a schema that already has a table of that name fails.
    assert!(matches!(
        transaction.set_table_schema(t1, s2),
        Err(Error::AlreadyExists(_))
    ));
    assert!(matches!(
        transaction.set_table_schema(t1, SchemaId::new(99)),
        Err(Error::NotFound(_))
    ));
    transaction.rename_table(t1, "t_renamed").unwrap();
    transaction.set_table_schema(t1, s2).unwrap();
    assert_eq!(transaction.tables_in(s2).len(), 2);
    // Each mutation of an existing table classifies as an alter.
    let (ops, _, _, _) = transaction.into_parts();
    let alters = ops
        .iter()
        .filter(|op| matches!(op, Operation::AlterTable { table_id } if *table_id == t1.get()))
        .count();
    assert_eq!(alters, 2);
}

#[test]
fn self_targeted_renames_and_moves_error() {
    let mut transaction = empty_transaction();
    let s = transaction.create_schema("s").unwrap();
    let t = transaction.create_table(s, "t", &[col("a")]).unwrap();
    assert!(matches!(
        transaction.rename_table(t, "t"),
        Err(Error::AlreadyExists(_))
    ));
    assert!(matches!(
        transaction.set_table_schema(t, s),
        Err(Error::AlreadyExists(_))
    ));
    assert!(matches!(
        transaction.rename_column(t, ColumnId::new(1), "a"),
        Err(Error::AlreadyExists(_))
    ));
}

#[test]
fn add_column_floors_allocation_at_live_ids() {
    // A table version authored without the counter (next_column_id
    // absent, i.e. 0) must not let allocation regress below the ids
    // already live on the table.

    let snapshot = SnapshotValue {
        snapshot_id: 4,
        snapshot_time_micros: 1,
        schema_version: 0,
        next_catalog_id: 10,
        next_file_id: 0,
        next_deletion_id: 0,
        changes_made: String::new(),
        author: None,
        commit_message: None,
        commit_extra_info: None,
        schema_changed_table_ids: Vec::new(),
    };
    let table = TableValue {
        table_id: 1,
        table_uuid: "uuid-t1".into(),
        begin_snapshot: 1,
        end_snapshot: None,
        schema_id: 0,
        table_name: "t".into(),
        path: "t/".into(),
        path_is_relative: true,
        next_column_id: 0,
    };
    let columns = [1u64, 2].map(|id| {
        EntityRecord::Column(ColumnValue {
            column_id: id,
            begin_snapshot: 1,
            end_snapshot: None,
            table_id: 1,
            column_order: id - 1,
            column_name: format!("c{id}"),
            column_type: "BIGINT".into(),
            initial_default: None,
            default_value: None,
            nulls_allowed: true,
            parent_column: None,
            default_value_type: None,
            default_value_dialect: None,
            tags: vec![],
        })
    });
    let mut current = vec![EntityRecord::Table(table)];
    current.extend(columns);
    let state = CatalogSnapshot::build(snapshot, current, vec![], None);
    let mut transaction = Transaction::new(state, 5);
    let c = transaction.add_column(TableId::new(1), &col("c")).unwrap();
    assert_eq!(c, ColumnId::new(3));
}

fn datafile(rows: u64, stats: Vec<FileColumnStats>) -> DataFile {
    DataFile {
        path: "f.parquet".into(),
        path_is_relative: true,
        file_format: "parquet".into(),
        record_count: rows,
        file_size_bytes: rows * 10,
        footer_size: 4,
        encryption_key: None,
        column_stats: stats,
    }
}

#[test]
fn register_allocates_row_ids_and_maintains_stats() {
    let mut transaction = empty_transaction();
    let s = transaction.create_schema("s").unwrap();
    let t = transaction.create_table(s, "t", &[col("a")]).unwrap();
    // create_table minted the stats record.
    let stats = transaction.table_stats(t).unwrap();
    assert_eq!((stats.record_count, stats.next_row_id), (0, 0));

    let f1 = transaction
        .register_data_file(t, datafile(100, vec![]))
        .unwrap();
    let f2 = transaction
        .register_data_file(t, datafile(50, vec![]))
        .unwrap();
    assert_ne!(f1, f2);
    let files = transaction.data_files_of(t);
    assert_eq!(files[0].row_id_start, Some(0));
    assert_eq!(files[1].row_id_start, Some(100));
    let stats = transaction.table_stats(t).unwrap();
    assert_eq!(stats.record_count, 150);
    assert_eq!(stats.next_row_id, 150);
    assert_eq!(stats.file_size_bytes, 1500);
}

#[test]
fn register_validates_table_and_stat_columns() {
    let mut transaction = empty_transaction();
    let s = transaction.create_schema("s").unwrap();
    let t = transaction.create_table(s, "t", &[col("a")]).unwrap();
    assert!(matches!(
        transaction.register_data_file(TableId::new(99), datafile(1, vec![])),
        Err(Error::NotFound(_))
    ));
    let bad_stats = vec![FileColumnStats {
        column_id: ColumnId::new(99),
        column_size_bytes: 1,
        value_count: 1,
        null_count: 0,
        min_value: None,
        max_value: None,
        contains_nan: None,
        extra_stats: None,
    }];
    assert!(matches!(
        transaction.register_data_file(t, datafile(1, bad_stats)),
        Err(Error::NotFound(_))
    ));
}

#[test]
fn expire_cascades_delete_files_and_preserves_next_row_id() {
    let mut transaction = empty_transaction();
    let s = transaction.create_schema("s").unwrap();
    let t = transaction.create_table(s, "t", &[col("a")]).unwrap();
    let f = transaction
        .register_data_file(t, datafile(100, vec![]))
        .unwrap();
    let d = transaction
        .register_delete_file(
            t,
            DeleteFile {
                data_file_id: f,
                path: "d.parquet".into(),
                path_is_relative: true,
                format: "parquet".into(),
                delete_count: 5,
                file_size_bytes: 50,
                footer_size: 4,
                encryption_key: None,
            },
        )
        .unwrap();
    assert_eq!(transaction.delete_files_of(t)[0].id, d);

    transaction.expire_data_file(t, f).unwrap();
    assert!(transaction.data_files_of(t).is_empty());
    assert!(
        transaction.delete_files_of(t).is_empty(),
        "delete file cascades"
    );
    let stats = transaction.table_stats(t).unwrap();
    assert_eq!(stats.record_count, 0);
    // The row-id counter never regresses.
    assert_eq!(stats.next_row_id, 100);
    let f2 = transaction
        .register_data_file(t, datafile(10, vec![]))
        .unwrap();
    assert_eq!(transaction.data_files_of(t)[0].row_id_start, Some(100));
    let _ = f2;
}

#[test]
fn delete_file_requires_live_data_file() {
    let mut transaction = empty_transaction();
    let s = transaction.create_schema("s").unwrap();
    let t = transaction.create_table(s, "t", &[col("a")]).unwrap();
    assert!(matches!(
        transaction.register_delete_file(
            t,
            DeleteFile {
                data_file_id: DataFileId::new(99),
                path: "d.parquet".into(),
                path_is_relative: true,
                format: "parquet".into(),
                delete_count: 1,
                file_size_bytes: 10,
                footer_size: 4,
                encryption_key: None,
            },
        ),
        Err(Error::NotFound(_))
    ));
}

/// One live delete file per data file: a second registration against
/// the same target is refused until the first is expired (a new delete
/// file carries all deletes and supersedes its predecessor).
#[test]
fn second_live_delete_file_for_same_data_file_is_refused() {
    let delete_file = |f| DeleteFile {
        data_file_id: f,
        path: "d.parquet".into(),
        path_is_relative: true,
        format: "parquet".into(),
        delete_count: 1,
        file_size_bytes: 10,
        footer_size: 4,
        encryption_key: None,
    };

    let mut transaction = empty_transaction();
    let s = transaction.create_schema("s").unwrap();
    let t = transaction.create_table(s, "t", &[col("a")]).unwrap();
    let f = transaction
        .register_data_file(t, datafile(100, vec![]))
        .unwrap();

    let first = transaction.register_delete_file(t, delete_file(f)).unwrap();
    assert!(matches!(
        transaction.register_delete_file(t, delete_file(f)),
        Err(Error::Constraint(_))
    ));

    // Expiring the predecessor frees the slot.
    transaction.expire_delete_file(t, first).unwrap();
    transaction.register_delete_file(t, delete_file(f)).unwrap();
}

#[test]
fn stats_verbs_update_verbatim_and_preserve_row_counter() {
    let mut transaction = empty_transaction();
    let s = transaction.create_schema("s").unwrap();
    let t = transaction.create_table(s, "t", &[col("a")]).unwrap();
    transaction
        .register_data_file(t, datafile(100, vec![]))
        .unwrap();
    transaction.update_table_stats(t, 42, 420).unwrap();
    let stats = transaction.table_stats(t).unwrap();
    assert_eq!((stats.record_count, stats.file_size_bytes), (42, 420));
    assert_eq!(
        stats.next_row_id, 100,
        "override cannot regress the counter"
    );

    transaction
        .update_column_stats(
            t,
            ColumnId::new(1),
            ColumnStats {
                contains_null: Some(false),
                contains_nan: None,
                min_value: Some("9".into()),
                max_value: Some("10".into()),
                extra_stats: None,
            },
        )
        .unwrap();
    let cs = transaction.column_stats(t, ColumnId::new(1)).unwrap();
    assert_eq!(cs.min_value.as_deref(), Some("9"));
    assert!(matches!(
        transaction.update_column_stats(t, ColumnId::new(9), ColumnStats::default()),
        Err(Error::NotFound(_))
    ));

    // Dropping a column removes its table-level stats too, symmetric
    // with delete_table removing table_stats.
    let c2 = transaction.add_column(t, &col("b")).unwrap();
    transaction
        .update_column_stats(
            t,
            c2,
            ColumnStats {
                contains_null: Some(true),
                contains_nan: None,
                min_value: Some("1".into()),
                max_value: Some("2".into()),
                extra_stats: None,
            },
        )
        .unwrap();
    assert!(transaction.column_stats(t, c2).is_some());
    transaction.drop_column(t, c2).unwrap();
    assert!(transaction.column_stats(t, c2).is_none());
}

#[test]
fn views_share_the_relation_namespace() {
    let mut transaction = empty_transaction();
    let s = transaction.create_schema("s").unwrap();
    let t = transaction.create_table(s, "orders", &[col("a")]).unwrap();
    assert!(matches!(
        transaction.create_view(s, "orders", "duckdb", "SELECT 1"),
        Err(Error::AlreadyExists(_))
    ));
    let v = transaction
        .create_view(s, "v_orders", "duckdb", "SELECT 1")
        .unwrap();
    assert!(matches!(
        transaction.create_table(s, "v_orders", &[col("a")]),
        Err(Error::AlreadyExists(_))
    ));
    assert!(matches!(
        transaction.rename_table(t, "v_orders"),
        Err(Error::AlreadyExists(_))
    ));
    assert_eq!(transaction.view_by_name(s, "v_orders").unwrap().id, v);
    // A schema with live views cannot be dropped.
    transaction.drop_table(t).unwrap();
    assert!(matches!(
        transaction.drop_schema(s),
        Err(Error::Constraint(_))
    ));
    transaction.drop_view(v).unwrap();
    transaction.drop_schema(s).unwrap();
}

#[test]
fn alter_view_replaces_definition() {
    let mut transaction = empty_transaction();
    let s = transaction.create_schema("s").unwrap();
    let v = transaction
        .create_view(s, "v", "duckdb", "SELECT 1")
        .unwrap();
    transaction.alter_view(v, "duckdb", "SELECT 2").unwrap();
    assert_eq!(transaction.view_by_id(v).unwrap().sql, "SELECT 2");
    assert!(matches!(
        transaction.alter_view(ViewId::new(99), "d", "s"),
        Err(Error::NotFound(_))
    ));
}

#[test]
fn options_set_unset_and_validate_scopes() {
    let mut transaction = empty_transaction();
    let s = transaction.create_schema("s").unwrap();
    let t = transaction.create_table(s, "t", &[col("a")]).unwrap();
    transaction
        .set_option(OptionScope::Global, "k", "g")
        .unwrap();
    transaction
        .set_option(OptionScope::Table(t), "k", "t")
        .unwrap();
    assert_eq!(
        transaction.option(OptionScope::Table(t), "k").as_deref(),
        Some("t")
    );
    transaction
        .unset_option(OptionScope::Table(t), "k")
        .unwrap();
    assert_eq!(
        transaction.option(OptionScope::Table(t), "k").as_deref(),
        Some("g")
    );
    transaction
        .unset_option(OptionScope::Table(t), "missing")
        .unwrap();
    assert!(matches!(
        transaction.set_option(OptionScope::Table(TableId::new(99)), "k", "v"),
        Err(Error::NotFound(_))
    ));
    // Option mutations stage no ops; the two DDL ops remain.
    let (ops, _, _, _) = transaction.into_parts();
    assert_eq!(ops.len(), 2);
}

/// The bootstrap `main` schema (id 0) is the catalog's default —
/// DuckDB resolves unqualified names against it — and must survive
/// every commit. Only the verb path could drop it; DuckDB refuses the
/// SQL-level drop before it ever reaches the staged path.
#[test]
fn bootstrap_main_schema_cannot_be_dropped() {
    let snapshot = SnapshotValue {
        snapshot_id: 4,
        snapshot_time_micros: 1,
        schema_version: 2,
        next_catalog_id: 10,
        next_file_id: 0,
        next_deletion_id: 0,
        changes_made: String::new(),
        author: None,
        commit_message: None,
        commit_extra_info: None,
        schema_changed_table_ids: Vec::new(),
    };
    let main = SchemaValue {
        schema_id: 0,
        schema_uuid: "u".into(),
        begin_snapshot: 0,
        end_snapshot: None,
        schema_name: "main".into(),
        path: "main/".into(),
        path_is_relative: true,
    };
    let mut transaction = Transaction::new(
        CatalogSnapshot::build(
            snapshot,
            vec![EntityRecord::Schema(main)],
            vec![],
            None,
        ),
        5,
    );

    assert!(matches!(
        transaction.drop_schema(SchemaId::new(0)),
        Err(Error::Constraint(_))
    ));

    // Any other empty schema still drops.
    let other = transaction.create_schema("other").unwrap();
    transaction.drop_schema(other).unwrap();
}

/// Relation names flow into derived storage paths: a separator nests
/// or collides prefixes and a dot segment escapes the catalog root,
/// so schema, table, and view names refuse them.
#[test]
fn path_unsafe_names_are_refused() {
    let mut transaction = empty_transaction();
    let s = transaction.create_schema("s").unwrap();
    let t = transaction.create_table(s, "t", &[col("a")]).unwrap();

    for name in ["a/b", "a\\b", ".", ".."] {
        assert!(
            matches!(transaction.create_schema(name), Err(Error::Constraint(_))),
            "schema {name:?}"
        );
        assert!(
            matches!(
                transaction.create_table(s, name, &[col("a")]),
                Err(Error::Constraint(_))
            ),
            "table {name:?}"
        );
        assert!(
            matches!(transaction.rename_table(t, name), Err(Error::Constraint(_))),
            "rename {name:?}"
        );
        assert!(
            matches!(
                transaction.create_view(s, name, "duckdb", "SELECT 1"),
                Err(Error::Constraint(_))
            ),
            "view {name:?}"
        );
    }
}

/// Every name-taking verb refuses the empty string: an empty name is
/// unaddressable and an empty schema name persists the path `"/"`.
#[test]
fn empty_names_are_refused() {
    let mut transaction = empty_transaction();
    let s = transaction.create_schema("s").unwrap();
    let t = transaction.create_table(s, "t", &[col("a")]).unwrap();
    let column = transaction.columns_of(t)[0].id;

    let refused = [
        transaction.create_schema("").err(),
        transaction.create_table(s, "", &[col("a")]).err(),
        transaction.create_table(s, "t2", &[col("")]).err(),
        transaction.rename_table(t, "").err(),
        transaction.add_column(t, &col("")).err(),
        transaction.rename_column(t, column, "").err(),
        transaction.create_view(s, "", "duckdb", "SELECT 1").err(),
        transaction.set_option(OptionScope::Global, "", "v").err(),
    ];
    for err in refused {
        assert!(matches!(err, Some(Error::Constraint(_))), "{err:?}");
    }
}

/// The global `encrypted` option is fixed at catalog creation: set and
/// unset both refuse it, while a non-global `encrypted` key (or any
/// other global key) stays writable.
#[test]
fn global_encrypted_option_is_reserved() {
    let mut transaction = empty_transaction();
    let s = transaction.create_schema("s").unwrap();
    let t = transaction.create_table(s, "t", &[col("a")]).unwrap();

    assert!(matches!(
        transaction.set_option(OptionScope::Global, "encrypted", "true"),
        Err(Error::Constraint(_))
    ));
    assert!(matches!(
        transaction.unset_option(OptionScope::Global, "encrypted"),
        Err(Error::Constraint(_))
    ));

    transaction
        .set_option(OptionScope::Table(t), "encrypted", "x")
        .unwrap();
    transaction
        .set_option(OptionScope::Global, "other", "v")
        .unwrap();
}

/// A table of two columns with an index over the first.
fn indexed_table() -> (CatalogSnapshot, TableId) {
    let mut transaction = empty_transaction();
    let s = transaction.create_schema("s").unwrap();
    let t = transaction
        .create_table(s, "t", &[col("a"), col("b")])
        .unwrap();
    let (_, mut state, _, _) = transaction.into_parts();
    state.put_index(IndexValue {
        index_id: 20,
        table_id: t.get(),
        begin_snapshot: 5,
        end_snapshot: None,
        index_name: "by_a".into(),
        columns: vec![1],
        unique: true,
        directions: vec![Direction::Ascending],
        nulls: vec![NullOrder::Last],
        build_state: None,
    });
    (state, t)
}

fn indexed_columns_are_guarded() {
    let (state, table) = indexed_table();
    let retype = |column_type: &str| ColumnAlteration {
        column_type: Some(column_type.into()),
        ..ColumnAlteration::default()
    };

    // Dropping or retyping the indexed column is refused.
    let mut tx = Transaction::new(state.clone(), 6);
    let dropped = tx.drop_column(table, ColumnId::new(1));
    assert!(matches!(dropped, Err(Error::Constraint(_))), "{dropped:?}");
    let retyped = tx.alter_column(table, ColumnId::new(1), retype("INTEGER"));
    assert!(matches!(retyped, Err(Error::Constraint(_))), "{retyped:?}");
    assert_eq!(
        retyped.unwrap_err(),
        Error::Constraint("column 1 of table 11 has an equality index".into())
    );
    assert_eq!(*tx.state(), state);

    // Renaming the indexed column, and retyping a non-indexed column,
    // are unaffected.
    tx.rename_column(table, ColumnId::new(1), "a2").unwrap();
    tx.alter_column(table, ColumnId::new(2), retype("INTEGER"))
        .unwrap();
    // What leaves the type alone is no retyping.
    tx.alter_column(table, ColumnId::new(1), retype("BIGINT"))
        .unwrap();
    tx.drop_column(table, ColumnId::new(2)).unwrap();
}

#[test]
fn commit_ddl_on_an_indexed_column_is_guarded() {
    indexed_columns_are_guarded();
}

#[test]
fn tests_ddl_on_an_indexed_column_is_guarded() {
    indexed_columns_are_guarded();
}
