use moraine::api::{ColumnAlteration, ColumnDef, ColumnId, SchemaId, TableId};
use moraine::catalog::{CatalogSnapshot, EntityRecord};
use moraine::error::Error;
use moraine::operations::Operation;
use moraine::records::{ColumnValue, SnapshotValue, TableValue};
use moraine::txn::Txn;

fn empty_txn() -> Txn {
    let snap = SnapshotValue {
        snapshot_id: 4,
        snapshot_time_micros: 1,
        schema_version: 2,
        next_catalog_id: 10,
        next_file_id: 0,
        next_deletion_id: 0,
        changes_made: String::new(),
        author: None,
        commit_message: None,
        commit_extra_info: None,
        schema_changed_table_ids: Vec::new(),
    };
    Txn::new(CatalogSnapshot::build(snap, vec![], vec![], None), 5)
}

fn col(name: &str) -> ColumnDef {
    ColumnDef {
        name: name.into(),
        column_type: "BIGINT".into(),
        nulls_allowed: true,
        default_value: None,
    }
}

#[test]
fn verbs_create_read_your_own_writes_and_id_allocation() {
    let mut txn = empty_txn();
    let s = txn.create_schema("sales").unwrap();
    assert_eq!(s, SchemaId::new(10));
    let t = txn
        .create_table(s, "orders", &[col("id"), col("qty")])
        .unwrap();
    assert_eq!(t, TableId::new(11));
    // Reads on the Txn see staged state (Deref to the working view).
    assert_eq!(txn.schema_by_name("sales").unwrap().id, s);
    let cols = txn.columns_of(t);
    assert_eq!(cols[0].id, ColumnId::new(1));
    assert_eq!(cols[1].id, ColumnId::new(2));
    // Records are stamped with the commit's snapshot id.
    assert_eq!(txn.state().tables.get(&11).unwrap().begin_snapshot, 5);
    // The counter is seeded past the ids just handed out.
    assert_eq!(txn.state().tables.get(&11).unwrap().next_column_id, 3);

    let (ops, _, next_catalog_id) = txn.into_parts();
    assert_eq!(next_catalog_id, 12);
    assert_eq!(
        ops,
        vec![
            Operation::CreateSchema {
                schema_id: 10,
                name: "sales".into(),
            },
            Operation::CreateTable {
                schema_id: 10,
                table_id: 11,
                schema_name: "sales".into(),
                table_name: "orders".into(),
            },
        ]
    );
}

#[test]
fn verbs_name_collisions_and_missing_entities() {
    let mut txn = empty_txn();
    let s = txn.create_schema("sales").unwrap();
    assert!(matches!(
        txn.create_schema("sales"),
        Err(Error::AlreadyExists(_))
    ));
    txn.create_table(s, "orders", &[col("id")]).unwrap();
    assert!(matches!(
        txn.create_table(s, "orders", &[col("id")]),
        Err(Error::AlreadyExists(_))
    ));
    assert!(matches!(
        txn.create_table(SchemaId::new(99), "x", &[col("id")]),
        Err(Error::NotFound(_))
    ));
    assert!(matches!(
        txn.rename_table(TableId::new(99), "y"),
        Err(Error::NotFound(_))
    ));
}

#[test]
fn verbs_constraints() {
    let mut txn = empty_txn();
    let s = txn.create_schema("sales").unwrap();
    let t = txn.create_table(s, "orders", &[col("id")]).unwrap();
    // A schema with live tables cannot be dropped.
    assert!(matches!(txn.drop_schema(s), Err(Error::Constraint(_))));
    // The last live column cannot be dropped.
    assert!(matches!(
        txn.drop_column(t, ColumnId::new(1)),
        Err(Error::Constraint(_))
    ));
    // Tables need at least one column, without duplicate names.
    assert!(matches!(
        txn.create_table(s, "empty", &[]),
        Err(Error::Constraint(_))
    ));
    assert!(matches!(
        txn.create_table(s, "dup", &[col("a"), col("a")]),
        Err(Error::Constraint(_))
    ));
    // Drop the table, then the schema drop succeeds.
    txn.drop_table(t).unwrap();
    txn.drop_schema(s).unwrap();
}

#[test]
fn verbs_column_ddl_allocates_fresh_field_ids() {
    let mut txn = empty_txn();
    let s = txn.create_schema("s").unwrap();
    let t = txn.create_table(s, "t", &[col("a"), col("b")]).unwrap();
    txn.drop_column(t, ColumnId::new(2)).unwrap();
    // The dropped column's field id is never reused.
    let c = txn.add_column(t, &col("c")).unwrap();
    assert_eq!(c, ColumnId::new(3));
    let cols = txn.columns_of(t);
    assert_eq!(cols.len(), 2);
    assert_eq!(cols[1].position, 1);

    txn.rename_column(t, ColumnId::new(1), "a2").unwrap();
    assert_eq!(txn.columns_of(t)[0].name, "a2");
    assert!(matches!(
        txn.rename_column(t, ColumnId::new(1), "c"),
        Err(Error::AlreadyExists(_))
    ));

    txn.alter_column(
        t,
        c,
        ColumnAlteration {
            column_type: Some("VARCHAR".into()),
            nulls_allowed: Some(false),
            default_value: Some(Some("''".into())),
        },
    )
    .unwrap();
    let altered = &txn.columns_of(t)[1];
    assert_eq!(altered.column_type, "VARCHAR");
    assert!(!altered.nulls_allowed);
    assert_eq!(altered.default_value, Some("''".into()));
}

#[test]
fn verbs_table_moves_and_renames_validate_against_target() {
    let mut txn = empty_txn();
    let s1 = txn.create_schema("a").unwrap();
    let s2 = txn.create_schema("b").unwrap();
    let t1 = txn.create_table(s1, "t", &[col("x")]).unwrap();
    let _t2 = txn.create_table(s2, "t", &[col("x")]).unwrap();
    // Moving into a schema that already has a table of that name fails.
    assert!(matches!(
        txn.set_table_schema(t1, s2),
        Err(Error::AlreadyExists(_))
    ));
    assert!(matches!(
        txn.set_table_schema(t1, SchemaId::new(99)),
        Err(Error::NotFound(_))
    ));
    txn.rename_table(t1, "t_renamed").unwrap();
    txn.set_table_schema(t1, s2).unwrap();
    assert_eq!(txn.tables_in(s2).len(), 2);
    // Each mutation of an existing table classifies as an alter.
    let (ops, _, _) = txn.into_parts();
    let alters = ops
        .iter()
        .filter(|op| matches!(op, Operation::AlterTable { table_id } if *table_id == t1.get()))
        .count();
    assert_eq!(alters, 2);
}

#[test]
fn verbs_self_targeted_renames_and_moves_error() {
    let mut txn = empty_txn();
    let s = txn.create_schema("s").unwrap();
    let t = txn.create_table(s, "t", &[col("a")]).unwrap();
    assert!(matches!(
        txn.rename_table(t, "t"),
        Err(Error::AlreadyExists(_))
    ));
    assert!(matches!(
        txn.set_table_schema(t, s),
        Err(Error::AlreadyExists(_))
    ));
    assert!(matches!(
        txn.rename_column(t, ColumnId::new(1), "a"),
        Err(Error::AlreadyExists(_))
    ));
}

#[test]
fn verbs_add_column_floors_allocation_at_live_ids() {
    // A table version authored without the counter (next_column_id
    // absent, i.e. 0) must not let allocation regress below the ids
    // already live on the table.
    let snap = SnapshotValue {
        snapshot_id: 4,
        snapshot_time_micros: 1,
        schema_version: 0,
        next_catalog_id: 10,
        next_file_id: 0,
        next_deletion_id: 0,
        changes_made: String::new(),
        author: None,
        commit_message: None,
        commit_extra_info: None,
        schema_changed_table_ids: Vec::new(),
    };
    let table = TableValue {
        table_id: 1,
        table_uuid: "uuid-t1".into(),
        begin_snapshot: 1,
        end_snapshot: None,
        schema_id: 0,
        table_name: "t".into(),
        path: "t/".into(),
        path_is_relative: true,
        next_column_id: 0,
    };
    let columns = [1u64, 2].map(|id| {
        EntityRecord::Column(ColumnValue {
            column_id: id,
            begin_snapshot: 1,
            end_snapshot: None,
            table_id: 1,
            column_order: id - 1,
            column_name: format!("c{id}"),
            column_type: "BIGINT".into(),
            initial_default: None,
            default_value: None,
            nulls_allowed: true,
            parent_column: None,
            default_value_type: None,
            default_value_dialect: None,
            tags: vec![],
        })
    });
    let mut cur = vec![EntityRecord::Table(table)];
    cur.extend(columns);
    let state = CatalogSnapshot::build(snap, cur, vec![], None);
    let mut txn = Txn::new(state, 5);
    let c = txn.add_column(TableId::new(1), &col("c")).unwrap();
    assert_eq!(c, ColumnId::new(3));
}
