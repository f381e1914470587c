use moraine::catalog::CatalogSnapshot;
use moraine::commit::bootstrap_writes;
use moraine::delta::write_for;
use moraine::error::Error;
use moraine::fold::fold_batch;
use moraine::keys::{CommitDeltaValue, EntityKey, Key, StagedWrite, Stored};
use moraine::records::{HeadValue, MigrationValue, SchemaValue, SnapshotValue};
use moraine::refresh::{add_changes, changed_keys, finish_refresh, plan_refresh, RefreshPlan};

fn snapshot(snapshot_id: u64) -> SnapshotValue {
    SnapshotValue {
        snapshot_id,
        snapshot_time_micros: 1,
        schema_version: 0,
        next_catalog_id: 0,
        next_file_id: 0,
        next_deletion_id: 0,
        changes_made: String::new(),
        author: None,
        commit_message: None,
        commit_extra_info: None,
        schema_changed_table_ids: Vec::new(),
    }
}

fn bootstrapped() -> CatalogSnapshot {
    let mut view = CatalogSnapshot::empty(snapshot(0));
    let writes = bootstrap_writes(false, None, 5, "u".to_owned(), "test");
    fold_batch(&mut view, &writes).unwrap();
    view
}

fn schema_write(schema_id: u64, name: &str, begin_snapshot: u64) -> StagedWrite {
    (
        Key::current(EntityKey::Schema { schema_id }),
        Some(Stored::Schema(SchemaValue {
            schema_id,
            schema_uuid: "u".to_owned(),
            begin_snapshot,
            end_snapshot: None,
            schema_name: name.to_owned(),
            path: format!("{name}/"),
            path_is_relative: true,
        })),
    )
}

fn delta(keys: Vec<Key>) -> Option<CommitDeltaValue> {
    Some(CommitDeltaValue { current_keys: keys })
}

#[test]
fn a_refresh_is_planned_by_the_head() {
    let base = bootstrapped();
    let head = |snapshot_id| Some(HeadValue { snapshot_id });
    assert_eq!(
        plan_refresh(&base, &None, &head(0)),
        Ok(RefreshPlan::Unchanged)
    );
    match plan_refresh(&base, &None, &head(3)) {
        Ok(RefreshPlan::Replay { first, last, .. }) => assert_eq!((first, last), (1, 3)),
        other => panic!("{other:?}"),
    }
    let mut later = bootstrapped();
    later.snapshot.snapshot_id = 5;
    assert_eq!(
        plan_refresh(&later, &None, &head(3)),
        Ok(RefreshPlan::Rescan)
    );
    assert!(matches!(
        plan_refresh(&base, &None, &None),
        Err(Error::Corruption(_))
    ));
    let marker = Some(MigrationValue {
        from_format: 1,
        to_format: 2,
        cursor: vec![],
    });
    assert!(matches!(
        plan_refresh(&base, &marker, &head(0)),
        Err(Error::Corruption(_))
    ));
}

#[test]
fn changed_keys_are_collected_within_the_budget() {
    let key = |schema_id| Key::current(EntityKey::Schema { schema_id });
    let deltas = vec![delta(vec![key(1), key(2)]), delta(vec![key(2), key(3)])];
    assert_eq!(
        changed_keys(&deltas, 3),
        Some(vec![key(1), key(2), key(3)])
    );
    assert_eq!(changed_keys(&deltas, 2), None);
    // A commit without a record cannot be replayed.
    assert_eq!(changed_keys(&vec![delta(vec![]), None], 3), None);
}

/// Refreshing by the keys that commits recorded gives what folding the commits
/// gives.
#[test]
fn a_refresh_reaches_the_head() {
    let base = bootstrapped();
    let first = vec![schema_write(1, "a", 1), schema_write(2, "b", 1)];
    let second = vec![
        (Key::current(EntityKey::Schema { schema_id: 1 }), None),
        schema_write(3, "c", 2),
    ];
    let mut expected = base.clone();
    fold_batch(&mut expected, &first).unwrap();
    fold_batch(&mut expected, &second).unwrap();

    let recorded = |id, writes: &Vec<StagedWrite>| match write_for(id, writes) {
        Some((_, Some(Stored::CommitDelta(delta)))) => Some(delta),
        other => panic!("{other:?}"),
    };
    let deltas = vec![recorded(1, &first), recorded(2, &second)];
    let keys = changed_keys(&deltas, 10).unwrap();
    let values: Vec<StagedWrite> = keys
        .into_iter()
        .map(|key| {
            let now = first
                .iter()
                .chain(second.iter())
                .rev()
                .find(|write| write.0 == key)
                .unwrap();
            let value = match &now.1 {
                Some(Stored::Schema(schema)) => Some(Stored::Schema(schema.clone())),
                _ => None,
            };
            (key, value)
        })
        .collect();
    let refreshed = finish_refresh(&base, 2, Some(snapshot(2)), &values).unwrap();
    assert_eq!(refreshed.snapshot.snapshot_id, 2);
    assert_eq!(refreshed.schemas.keys(), expected.schemas.keys());
    assert!(refreshed.schema_by_name("a").is_none());
    assert!(refreshed.schema_by_name("c").is_some());

    assert_eq!(
        finish_refresh(&base, 2, None, &values).err().unwrap(),
        Error::SnapshotExpired("snapshot 2 (expired or never minted)".to_owned())
    );
}

#[test]
fn records_are_taken_in_one_by_one() {
    let key = |schema_id| Key::current(EntityKey::Schema { schema_id });
    let mut keys = Vec::new();
    assert!(add_changes(&mut keys, &delta(vec![key(1), key(2)]), 2));
    assert!(add_changes(&mut keys, &delta(vec![key(2)]), 2));
    assert_eq!(keys, vec![key(1), key(2)]);
    assert!(!add_changes(&mut keys, &delta(vec![key(3)]), 2));
    assert_eq!(keys, vec![key(1), key(2), key(3)]);
    assert!(!add_changes(&mut keys, &None, 9));
    assert_eq!(keys.len(), 3);
}
