use moraine::api::ColumnDef;
use moraine::catalog::CatalogSnapshot;
use moraine::commit::Prepared;
use moraine::error::Error;
use moraine::fold::fold_batch;
use moraine::keys::{Key, Stored, SysKey};
use moraine::operations::ChangeSet;
use moraine::ordered::OrdMap;
use moraine::records::{FormatValue, HeadValue, MigrationValue, SnapshotValue};
use moraine::txn::Txn;
use moraine::txn_commit::{
    bootstrap_writes, diff_writes, intervening_changes, materialize, prepare, stage_bootstrap,
    validate_format,
};

fn empty() -> CatalogSnapshot {
    let mut view = CatalogSnapshot::empty(SnapshotValue {
        snapshot_id: 9,
        snapshot_time_micros: 9,
        schema_version: 9,
        next_catalog_id: 9,
        next_file_id: 9,
        next_deletion_id: 0,
        changes_made: String::new(),
        author: None,
        commit_message: None,
        commit_extra_info: None,
        schema_changed_table_ids: Vec::new(),
    });
    fold_batch(&mut view, &bootstrap_writes(3, "test")).unwrap();
    view
}

#[test]
fn the_small_store_has_one_format() {
    let format = |format_version| {
        Some(FormatValue {
            format_version,
            writer_version: "future".to_owned(),
        })
    };
    assert_eq!(validate_format(&None, format(1)), Ok(format(1)));
    assert_eq!(validate_format(&None, None), Ok(None));
    assert_eq!(
        validate_format(&None, format(2)),
        Err(Error::Corruption(
            "store format 2 is not the supported format 1".to_owned()
        ))
    );
    let marker = Some(MigrationValue {
        from_format: 1,
        to_format: 2,
        cursor: vec![],
    });
    assert!(matches!(
        validate_format(&marker, format(1)),
        Err(Error::Corruption(_))
    ));
}

#[test]
fn the_small_store_starts_empty() {
    let view = empty();
    assert_eq!(view.snapshot.snapshot_id, 0);
    assert_eq!(view.snapshot.next_catalog_id, 0);
    assert_eq!(view.snapshot.changes_made, "");
    assert!(view.schemas.is_empty());
    assert_eq!(stage_bootstrap("test").len(), 3);
}

#[test]
fn a_small_commit_folds_to_its_state() {
    let base = empty();
    let mut txn = Txn::new(base.clone(), 1);
    let s = txn.create_schema("a").unwrap();
    let column = ColumnDef {
        name: "x".into(),
        column_type: "BIGINT".into(),
        nulls_allowed: true,
        default_value: None,
    };
    let t = txn.create_table(s, "t", &[column]).unwrap();
    let (ops, state, next_catalog_id) = txn.into_parts();
    let writes = match prepare(&base, &ops, &state, next_catalog_id, 7) {
        Prepared::Staged {
            head_before,
            commits,
            writes,
            ..
        } => {
            assert_eq!((head_before, commits), (0, 1));
            writes
        }
        Prepared::Nothing { .. } => panic!("nothing was staged"),
    };
    assert_eq!(writes.len(), diff_writes(&base, &state, 1).len() + 2);
    assert_eq!(writes.last().unwrap().0, Key::Sys(SysKey::Head));
    match &writes[writes.len() - 2].1 {
        Some(Stored::Snapshot(minted)) => {
            assert_eq!(minted.snapshot_id, 1);
            assert_eq!(minted.schema_version, 1);
            assert_eq!(minted.next_catalog_id, 2);
            assert_eq!(
                minted.changes_made,
                r#"created_schema:"a",created_table:"a"."t""#
            );
        }
        other => panic!("{other:?}"),
    }
    let mut view = base.clone();
    fold_batch(&mut view, &writes).unwrap();
    assert_eq!(view.columns_of(t).len(), 1);

    let nothing = prepare(&base, &Vec::new(), &state, 0, 7);
    assert!(matches!(nothing, Prepared::Nothing { head: 0 }));
}

#[test]
fn a_small_commit_carries_the_deletion_counter_over() {
    let mut base = empty();
    assert_eq!(base.snapshot.next_deletion_id, 0);
    base.snapshot.next_deletion_id = 6;
    base.snapshot.next_file_id = 4;
    let mut txn = Txn::new(base.clone(), 1);
    txn.create_schema("a").unwrap();
    let (ops, state, next_catalog_id) = txn.into_parts();
    let mut view = base.clone();
    match prepare(&base, &ops, &state, next_catalog_id, 7) {
        Prepared::Staged { writes, .. } => fold_batch(&mut view, &writes).unwrap(),
        Prepared::Nothing { .. } => panic!("nothing was staged"),
    }
    assert_eq!(view.snapshot.next_deletion_id, 6);
    assert_eq!(view.snapshot.next_file_id, 4);
}

#[test]
fn a_missing_snapshot_record_is_damage() {
    let head = |snapshot_id| Some(HeadValue { snapshot_id });
    let missing = |id: u64| Err(Error::Corruption(format!("snapshot record {id} missing")));
    let read = |head: &Option<HeadValue>, at, snapshot| {
        materialize(head, at, snapshot, vec![], vec![]).map(|view| view.snapshot.snapshot_id)
    };
    let snapshot = |id| {
        let mut snapshot = empty().snapshot;
        snapshot.snapshot_id = id;
        snapshot.changes_made = format!("altered_table:{id}");
        snapshot
    };
    assert_eq!(read(&head(3), None, Some(snapshot(3))), Ok(3));
    assert_eq!(read(&head(3), Some(2), Some(snapshot(2))), Ok(2));
    assert_eq!(read(&head(3), None, None), missing(3));
    assert_eq!(read(&head(3), Some(2), None), missing(2));
    assert_eq!(
        read(&head(3), Some(4), None),
        Err(Error::NotFound("snapshot 4 (head is 3)".to_owned()))
    );
    let headless = || Error::Corruption("store has no head pointer".to_owned());
    assert_eq!(read(&None, None, None), Err(headless()));

    let mut records = OrdMap::new();
    records.insert(2, snapshot(2));
    records.insert(3, snapshot(3));
    let changes = intervening_changes(1, &head(3), &records).unwrap();
    let ids: Vec<u64> = changes.iter().map(|change| change.0).collect();
    assert_eq!(ids, vec![2, 3]);
    assert_eq!(changes[1].1, ChangeSet::parse("altered_table:3"));
    assert_eq!(intervening_changes(3, &head(3), &records), Ok(vec![]));
    assert_eq!(
        intervening_changes(1, &head(5), &records).map(|_| 0),
        missing(4)
    );
    assert_eq!(
        intervening_changes(0, &head(5), &records).map(|_| 0),
        missing(1)
    );
    assert_eq!(intervening_changes(1, &None, &records), Err(headless()));
}
