use moraine::api::{ColumnDef, DataFile, Direction, FileColumnStats, NullOrder, OptionScope};
use moraine::catalog::{CatalogSnapshot, EntityRecord};
use moraine::commit::{
    bootstrap_writes, intervening_changes, lost_bootstrap, materialize, materialize_target,
    must_compare, opening, opening_reader, prepare, resolve_lost_race, stage_bootstrap,
    target_format, validate_format, CommitCycle, Opening, Prepared, FORMAT_VERSION,
    FORMAT_WITH_INDEX, FORMAT_WITH_STAGED_INDEX, MAX_COMMIT_ATTEMPTS,
};
use moraine::diff::diff_writes;
use moraine::error::Error;
use moraine::fold::fold_batch;
use moraine::index_entries::{HeldEntries, StagedIndexEntry};
use moraine::keys::{CurrentKey, EntityKey, HistoryKey, Key, StagedWrite, Stored, SysKey};
use moraine::operations::ChangeSet;
use moraine::ordered::OrdMap;
use moraine::records::{
    FormatValue, HeadValue, IndexValue, MigrationValue, SchemaValue, SnapshotValue,
};
use moraine::verbs::Transaction;

fn snapshot(snapshot_id: u64, changes_made: &str) -> SnapshotValue {
    SnapshotValue {
        snapshot_id,
        snapshot_time_micros: 1,
        schema_version: 0,
        next_catalog_id: 0,
        next_file_id: 0,
        next_deletion_id: 0,
        changes_made: changes_made.to_owned(),
        author: None,
        commit_message: None,
        commit_extra_info: None,
        schema_changed_table_ids: Vec::new(),
    }
}

fn bootstrapped() -> CatalogSnapshot {
    let mut view = CatalogSnapshot::empty(snapshot(0, ""));
    let writes = bootstrap_writes(false, None, 5, "u".to_owned(), "test");
    fold_batch(&mut view, &writes).unwrap();
    view
}

fn format(format_version: u64) -> FormatValue {
    FormatValue {
        format_version,
        writer_version: "future".to_owned(),
    }
}

fn migrating() -> Option<MigrationValue> {
    Some(MigrationValue {
        from_format: 1,
        to_format: 2,
        cursor: vec![],
    })
}

fn column(name: &str) -> ColumnDef {
    ColumnDef {
        name: name.into(),
        column_type: "BIGINT".into(),
        nulls_allowed: true,
        default_value: None,
    }
}

/// Prepares what a transaction has to commit on a base.
fn prepared(
    base: &CatalogSnapshot,
    transaction: Transaction,
    entries: Vec<StagedIndexEntry>,
    held: &HeldEntries,
) -> Result<Prepared, Error> {
    let (ops, state, next_catalog_id, next_file_id) = transaction.into_parts();
    prepare(
        base,
        &ops,
        &entries,
        &state,
        next_catalog_id,
        next_file_id,
        &Some(format(FORMAT_VERSION)),
        held,
        42,
        "test",
    )
}

fn staged_writes(prepared: Result<Prepared, Error>) -> Vec<StagedWrite> {
    match prepared {
        Ok(Prepared::Staged { writes, .. }) => writes,
        Ok(Prepared::Nothing { head }) => panic!("nothing to commit at {head}"),
        Err(err) => panic!("{err:?}"),
    }
}

/// A file registered and expired within one commit exists in neither
/// `base` nor `state`'s `data_files`: its per-file column stats are
/// orphaned and must never be staged as a write.
fn no_orphaned_file_column_stats() {
    let empty = CatalogSnapshot::build(snapshot(0, ""), vec![], vec![], None);
    let mut setup = Transaction::new(empty, 1);
    let schema = setup.create_schema("s").unwrap();
    let table = setup.create_table(schema, "t", &[column("a")]).unwrap();
    let column = setup.columns_of(table)[0].id;
    let (_, base, _, _) = setup.into_parts();

    // Register a file with column stats, then expire it — all inside
    // this one commit's transaction.
    let mut tx = Transaction::new(base.clone(), 2);
    let file = tx
        .register_data_file(
            table,
            DataFile {
                path: "f.parquet".into(),
                path_is_relative: true,
                file_format: "parquet".into(),
                record_count: 10,
                file_size_bytes: 100,
                footer_size: 4,
                encryption_key: None,
                column_stats: vec![FileColumnStats {
                    column_id: column,
                    column_size_bytes: 10,
                    value_count: 10,
                    null_count: 0,
                    min_value: Some("1".into()),
                    max_value: Some("2".into()),
                    contains_nan: None,
                    extra_stats: None,
                }],
            },
        )
        .unwrap();
    tx.expire_data_file(table, file).unwrap();
    let (_, state, _, _) = tx.into_parts();

    let writes = diff_writes(&base, &state, 2);
    for (key, _) in &writes {
        let is_file_column_stats = matches!(
            key,
            Key::Current(CurrentKey::Entity(EntityKey::FileColumnStats { .. }))
                | Key::History(HistoryKey {
                    entity: EntityKey::FileColumnStats { .. },
                    ..
                })
        );
        assert!(
            !is_file_column_stats,
            "orphaned file_column_stats write staged: {key:?}"
        );
    }
}

#[test]
fn commit_register_then_expire_in_one_commit_stages_no_orphaned_file_column_stats() {
    no_orphaned_file_column_stats();
}

#[test]
fn tests_register_then_expire_in_one_commit_stages_no_orphaned_file_column_stats() {
    no_orphaned_file_column_stats();
}

#[test]
fn an_unknown_format_is_refused() {
    let err = validate_format(&None, Some(format(99))).unwrap_err();
    assert_eq!(
        err,
        Error::Corruption("store format 99 is outside the supported range 1..=3".to_owned())
    );
    assert!(validate_format(&None, Some(format(0))).is_err());
    for known in FORMAT_VERSION..=FORMAT_WITH_STAGED_INDEX {
        assert_eq!(
            validate_format(&None, Some(format(known))),
            Ok(Some(format(known)))
        );
    }
    assert_eq!(validate_format(&None, None), Ok(None));
}

#[test]
fn a_migration_marker_is_refused() {
    let err = validate_format(&migrating(), Some(format(1))).unwrap_err();
    assert_eq!(
        err,
        Error::Corruption("store is mid-migration; refusing to open".to_owned())
    );
    assert!(opening(&migrating(), None).is_err());
    assert!(opening_reader(&migrating(), Some(format(1))).is_err());
}

#[test]
fn opening_an_empty_store_bootstraps_it() {
    assert_eq!(opening(&None, None), Ok(Opening::Bootstrap));
    assert_eq!(opening(&None, Some(format(1))), Ok(Opening::Ready));
    assert_eq!(opening_reader(&None, Some(format(1))), Ok(()));
    assert!(matches!(
        opening_reader(&None, None),
        Err(Error::Corruption(_))
    ));
    assert_eq!(lost_bootstrap(&None, Some(format(1))), Ok(()));
    assert_eq!(
        lost_bootstrap(&None, None),
        Err(Error::Corruption(
            "bootstrap race left the store uninitialized".to_owned()
        ))
    );
}

#[test]
fn a_fresh_store_holds_the_main_schema() {
    let writes = bootstrap_writes(true, Some("s3://b/d".to_owned()), 5, "u".to_owned(), "1.2");
    let keys: Vec<&Key> = writes.iter().map(|write| &write.0).collect();
    assert_eq!(
        keys,
        vec![
            &Key::Sys(SysKey::Format),
            &Key::Snapshot { snapshot_id: 0 },
            &Key::current(EntityKey::Schema { schema_id: 0 }),
            &Key::current(EntityKey::OptionScope {
                scope_kind: 0,
                scope_id: 0
            }),
            &Key::Sys(SysKey::Head),
        ]
    );
    match &writes[1].1 {
        Some(Stored::Snapshot(first)) => {
            assert_eq!(first.changes_made, r#"created_schema:"main""#);
            assert_eq!(first.next_catalog_id, 1);
            assert_eq!(first.snapshot_time_micros, 5);
        }
        other => panic!("{other:?}"),
    }
    let mut view = CatalogSnapshot::empty(snapshot(0, ""));
    fold_batch(&mut view, &writes).unwrap();
    assert_eq!(view.schema_by_name("main").unwrap().id.get(), 0);
    assert_eq!(
        view.option(OptionScope::Global, "encrypted"),
        Some("true".to_owned())
    );
    assert_eq!(
        view.option(OptionScope::Global, "data_path"),
        Some("s3://b/d".to_owned())
    );
}

/// A store bootstrapped now has a random id of the usual form and a stamp.
#[test]
fn a_bootstrap_mints_its_id_and_its_time() {
    let writes = stage_bootstrap(false, None, "1");
    let other = stage_bootstrap(false, None, "1");
    let uuid = |writes: &Vec<StagedWrite>| match &writes[2].1 {
        Some(Stored::Schema(schema)) => schema.schema_uuid.clone(),
        other => panic!("{other:?}"),
    };
    let id = uuid(&writes);
    assert_eq!(id.len(), 36);
    for (position, c) in id.chars().enumerate() {
        if [8, 13, 18, 23].contains(&position) {
            assert_eq!(c, '-');
        } else {
            assert!(c.is_ascii_hexdigit() && !c.is_ascii_uppercase());
        }
    }
    assert_eq!(id.as_bytes()[14], b'4');
    assert_ne!(id, uuid(&other));
    match &writes[1].1 {
        // Some time after the first of January 2020.
        Some(Stored::Snapshot(first)) => {
            assert!(first.snapshot_time_micros > 1_577_836_800_000_000)
        }
        other => panic!("{other:?}"),
    }
}

#[test]
fn a_commit_folds_to_its_state() {
    let base = bootstrapped();
    let mut transaction = Transaction::new(base.clone(), 1);
    let schema = transaction.create_schema("sales").unwrap();
    let table = transaction
        .create_table(schema, "orders", &[column("id")])
        .unwrap();
    let state = transaction.state().clone();
    let prepared = prepared(&base, transaction, vec![], &HeldEntries::new()).unwrap();
    let (ours, writes) = match prepared {
        Prepared::Staged {
            ours,
            head_before,
            commits,
            writes,
        } => {
            assert_eq!((head_before, commits), (0, 1));
            (ours, writes)
        }
        Prepared::Nothing { .. } => panic!("nothing was staged"),
    };
    assert_eq!(
        ours.to_changes_made(),
        r#"created_schema:"sales",created_table:"sales"."orders""#
    );

    let mut view = base.clone();
    fold_batch(&mut view, &writes).unwrap();
    assert_eq!(view.snapshot.snapshot_id, 1);
    assert_eq!(view.snapshot.schema_version, 1);
    assert_eq!(view.snapshot.snapshot_time_micros, 42);
    assert_eq!(view.snapshot.next_catalog_id, 3);
    assert_eq!(view.snapshot.schema_changed_table_ids, vec![table.get()]);
    assert_eq!(view.tables_in(schema), state.tables_in(schema));
    assert_eq!(view.columns_of(table), state.columns_of(table));
    assert_eq!(
        writes.last().unwrap().1,
        Some(Stored::Head(HeadValue { snapshot_id: 1 }))
    );
}

#[test]
fn ended_versions_move_to_history() {
    let mut first = Transaction::new(bootstrapped(), 1);
    let schema = first.create_schema("sales").unwrap();
    let table = first
        .create_table(schema, "orders", &[column("id")])
        .unwrap();
    let (_, base, _, _) = first.into_parts();
    let mut second = Transaction::new(base.clone(), 2);
    second.rename_table(table, "invoices").unwrap();
    let (_, state, _, _) = second.into_parts();
    let writes = diff_writes(&base, &state, 2);
    assert_eq!(writes.len(), 2);
    assert_eq!(
        writes[0].0,
        Key::history(
            EntityKey::Table {
                table_id: table.get()
            },
            2
        )
    );
    match &writes[0].1 {
        Some(Stored::Table(ended)) => {
            assert_eq!(ended.end_snapshot, Some(2));
            assert_eq!(ended.table_name, "orders");
        }
        other => panic!("{other:?}"),
    }
    assert!(diff_writes(&state, &state, 3).is_empty());
}

#[test]
fn options_alone_rewrite_the_head() {
    let base = bootstrapped();
    let mut transaction = Transaction::new(base.clone(), 1);
    transaction
        .set_option(OptionScope::Global, "k", "v")
        .unwrap();
    match prepared(&base, transaction, vec![], &HeldEntries::new()).unwrap() {
        Prepared::Staged {
            ours,
            commits,
            writes,
            ..
        } => {
            assert!(ours.is_empty());
            assert_eq!(commits, 0);
            assert_eq!(writes.len(), 2);
            assert_eq!(
                writes[1],
                (
                    Key::Sys(SysKey::Head),
                    Some(Stored::Head(HeadValue { snapshot_id: 0 }))
                )
            );
        }
        Prepared::Nothing { .. } => panic!("the option was lost"),
    }
    let untouched = Transaction::new(base.clone(), 1);
    assert!(matches!(
        prepared(&base, untouched, vec![], &HeldEntries::new()),
        Ok(Prepared::Nothing { head: 0 })
    ));
}

#[test]
fn an_index_raises_the_format_once() {
    let base = bootstrapped();
    let mut state = base.clone();
    assert_eq!(target_format(&state), FORMAT_VERSION);
    let index = |build_state| IndexValue {
        index_id: 5,
        table_id: 2,
        begin_snapshot: 1,
        end_snapshot: None,
        index_name: "by_a".to_owned(),
        columns: vec![1],
        unique: true,
        directions: vec![Direction::Ascending],
        nulls: vec![NullOrder::Last],
        build_state,
    };
    state.put_index(index(None));
    assert_eq!(target_format(&state), FORMAT_WITH_INDEX);
    state.put_index(index(Some(1)));
    assert_eq!(target_format(&state), FORMAT_WITH_STAGED_INDEX);

    let mut transaction = Transaction::new(state.clone(), 1);
    transaction.create_schema("s").unwrap();
    let (ops, after, next_catalog_id, next_file_id) = transaction.into_parts();
    let stamp = |stored| {
        let writes = staged_writes(prepare(
            &base,
            &ops,
            &Vec::new(),
            &after,
            next_catalog_id,
            next_file_id,
            &Some(format(stored)),
            &HeldEntries::new(),
            1,
            "test",
        ));
        writes
            .into_iter()
            .find(|write| write.0 == Key::Sys(SysKey::Format))
            .map(|write| write.1)
    };
    assert_eq!(
        stamp(1),
        Some(Some(Stored::Format(FormatValue {
            format_version: FORMAT_WITH_STAGED_INDEX,
            writer_version: "test".to_owned(),
        })))
    );
    assert_eq!(stamp(3), None);
}

#[test]
fn a_duplicate_unique_value_is_refused_without_a_retry_word() {
    let base = bootstrapped();
    let entry = |row_id| StagedIndexEntry {
        index_id: 5,
        unique: true,
        key: vec![1, 2],
        row_id,
        delete: false,
    };
    let attempt = |entries| {
        let mut transaction = Transaction::new(base.clone(), 1);
        transaction.create_schema("s").unwrap();
        prepared(&base, transaction, entries, &HeldEntries::new())
    };
    assert!(attempt(vec![entry(1)]).is_ok());
    match attempt(vec![entry(1), entry(2)]) {
        Err(Error::Constraint(text)) => {
            assert_eq!(text, "duplicate value violates equality index 5");
            for word in ["conflict", "concurrent", "unique", "primary key"] {
                assert!(!text.contains(word));
            }
        }
        _ => panic!("the duplicate was accepted"),
    }
}

#[test]
fn time_travel_stops_at_the_head() {
    let head = Some(HeadValue { snapshot_id: 4 });
    assert_eq!(materialize_target(&head, None), Ok(4));
    assert_eq!(materialize_target(&head, Some(2)), Ok(2));
    assert_eq!(
        materialize_target(&head, Some(5)),
        Err(Error::NotFound("snapshot 5 (head is 4)".to_owned()))
    );
    assert_eq!(
        materialize_target(&None, None),
        Err(Error::Corruption("store has no head pointer".to_owned()))
    );
}

/// A reader of the past sees what lived then, and nothing that came later.
#[test]
fn the_past_is_rebuilt_from_history() {
    let schema = |schema_id, name: &str, begin_snapshot, end_snapshot| {
        EntityRecord::Schema(SchemaValue {
            schema_id,
            schema_uuid: "u".to_owned(),
            begin_snapshot,
            end_snapshot,
            schema_name: name.to_owned(),
            path: "p/".to_owned(),
            path_is_relative: true,
        })
    };
    let view = materialize(
        &Some(HeadValue { snapshot_id: 4 }),
        Some(2),
        Some(snapshot(2, "")),
        vec![schema(0, "main", 0, None), schema(2, "late", 3, None)],
        vec![
            schema(1, "gone", 1, Some(3)),
            schema(3, "ended", 1, Some(2)),
        ],
    )
    .unwrap();
    assert!(view.schema_by_name("main").is_some());
    assert!(view.schema_by_name("gone").is_some());
    assert!(view.schema_by_name("late").is_none());
    assert!(view.schema_by_name("ended").is_none());
}

#[test]
fn lost_races_are_judged_by_what_came_first() {
    let mut records: OrdMap<u64, SnapshotValue> = OrdMap::new();
    records.insert(2, snapshot(2, "altered_table:7"));
    records.insert(3, snapshot(3, "altered_table:9"));
    let head = Some(HeadValue { snapshot_id: 3 });
    let theirs = intervening_changes(1, &head, &records).unwrap();
    assert_eq!(theirs.len(), 2);

    let mut ours = ChangeSet::default();
    assert!(!must_compare(&ours));
    assert_eq!(resolve_lost_race(&ours, &theirs), Ok(()));
    ours.altered_tables.insert(5);
    assert!(must_compare(&ours));
    assert_eq!(resolve_lost_race(&ours, &theirs), Ok(()));
    ours.altered_tables.insert(9);
    assert_eq!(
        resolve_lost_race(&ours, &theirs),
        Err(Error::CommitConflict(
            "concurrent commit 3 touched the same state".to_owned()
        ))
    );

    assert!(matches!(
        intervening_changes(1, &None, &records),
        Err(Error::Corruption(_))
    ));
}

#[test]
fn attempts_run_out() {
    let mut cycle = CommitCycle::new();
    for _ in 0..MAX_COMMIT_ATTEMPTS {
        cycle.next_attempt().unwrap();
    }
    assert_eq!(
        cycle.next_attempt(),
        Err(Error::CommitConflict(
            "retry budget exhausted after 10 attempts".to_owned()
        ))
    );
}

/// A renamed table has its old name at the snapshots before the rename, and its
/// new one from then on.
#[test]
fn the_past_stays_through_a_rename() {
    let empty = CatalogSnapshot::build(snapshot(0, ""), vec![], vec![], None);
    let mut setup = Transaction::new(empty, 1);
    let schema = setup.create_schema("s").unwrap();
    let table = setup.create_table(schema, "old", &[column("a")]).unwrap();
    let (_, base, _, _) = setup.into_parts();

    let mut rename = Transaction::new(base.clone(), 2);
    rename.rename_table(table, "new").unwrap();
    let (_, state, _, _) = rename.into_parts();

    let mut current = Vec::new();
    let mut history = Vec::new();
    for (key, value) in diff_writes(&base, &state, 2) {
        match (key, value) {
            (Key::Current(_), Some(Stored::Table(value))) => {
                current.push(EntityRecord::Table(value))
            }
            (Key::History(at), Some(Stored::Table(value))) => {
                assert_eq!(at.end_snapshot, 2);
                history.push(EntityRecord::Table(value));
            }
            other => panic!("unexpected write {other:?}"),
        }
    }
    assert_eq!((current.len(), history.len()), (1, 1));
    let names = |at: u64, current: &Vec<EntityRecord>, history: &Vec<EntityRecord>| {
        let copy = |records: &Vec<EntityRecord>| -> Vec<EntityRecord> {
            records
                .iter()
                .map(|record| match record {
                    EntityRecord::Table(value) => EntityRecord::Table(value.clone()),
                    _ => unreachable!(),
                })
                .collect()
        };
        let view = materialize(
            &Some(HeadValue { snapshot_id: 2 }),
            Some(at),
            Some(snapshot(at, "")),
            copy(current),
            copy(history),
        )
        .unwrap();
        view.tables
            .get(&table.get())
            .map(|value| value.table_name.clone())
    };
    assert_eq!(names(0, &current, &history), None);
    assert_eq!(names(1, &current, &history), Some("old".to_owned()));
    assert_eq!(names(2, &current, &history), Some("new".to_owned()));
}

#[test]
fn a_diff_writes_what_differs() {
    let mut base = bootstrapped();
    let mut transaction = Transaction::new(base.clone(), 1);
    let schema = transaction.create_schema("s").unwrap();
    let kept = transaction.create_table(schema, "kept", &[column("a")]).unwrap();
    let gone = transaction.create_table(schema, "gone", &[column("a")]).unwrap();
    base = transaction.into_parts().1;
    let mut transaction = Transaction::new(base.clone(), 2);
    transaction.drop_table(gone).unwrap();
    transaction
        .set_option(OptionScope::Table(kept), "k", "v")
        .unwrap();
    let state = transaction.into_parts().1;
    let writes = diff_writes(&base, &state, 2);
    for (i, write) in writes.iter().enumerate() {
        assert!(writes[..i].iter().all(|other| other.0 != write.0));
    }
    let keys: Vec<Key> = writes.into_iter().map(|write| write.0).collect();
    let table = |id: u64| EntityKey::Table { table_id: id };
    assert!(keys.contains(&Key::current(table(gone.get()))));
    assert!(keys.contains(&Key::history(table(gone.get()), 2)));
    assert!(!keys.contains(&Key::current(table(kept.get()))));
    // The table and its column, each with its last version, the table's
    // statistics and the option.
    assert_eq!(keys.len(), 6);
    let history = keys
        .iter()
        .filter(|key| matches!(key, Key::History(_)))
        .count();
    assert_eq!(history, 2);
}

#[test]
fn options_alone_need_no_next_snapshot() {
    let mut base = bootstrapped();
    base.snapshot.snapshot_id = u64::MAX;
    base.snapshot.schema_version = u64::MAX;
    let mut transaction = Transaction::new(base.clone(), u64::MAX);
    transaction.set_option(OptionScope::Global, "k", "v").unwrap();
    match prepared(&base, transaction, vec![], &HeldEntries::new()) {
        Ok(Prepared::Staged { commits, .. }) => assert_eq!(commits, u64::MAX),
        _ => panic!("nothing was staged"),
    }
    let untouched = Transaction::new(base.clone(), u64::MAX);
    assert!(matches!(
        prepared(&base, untouched, vec![], &HeldEntries::new()),
        Ok(Prepared::Nothing { head: u64::MAX })
    ));
}
