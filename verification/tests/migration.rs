use moraine::catalog::CatalogSnapshot;
use moraine::commit::{bootstrap_writes, FORMAT_VERSION, MAX_FORMAT_VERSION};
use moraine::error::Error;
use moraine::fold::fold_batch;
use moraine::keys::{EntityKey, Key, StagedWrite, Stored, SysKey};
use moraine::migration::{
    chain_from, decode_cursor, finish, mark, move_scope_unit, plan, run_step, second_link_unit,
    MigrationUnit, MIGRATIONS, MIN_FORMAT_VERSION, SOURCE_SCOPE, TARGET_SCOPE,
};
use moraine::ordered::OrdMap;
use moraine::records::{FormatValue, MigrationValue, OptionScopeValue, SnapshotValue};

const SEEDED_RECORDS: u64 = 3;

/// A bootstrapped catalog with option records under the source scope.
fn seeded() -> CatalogSnapshot {
    let mut view = CatalogSnapshot::empty(SnapshotValue {
        snapshot_id: 0,
        snapshot_time_micros: 0,
        schema_version: 0,
        next_catalog_id: 0,
        next_file_id: 0,
        next_deletion_id: 0,
        changes_made: String::new(),
        author: None,
        commit_message: None,
        commit_extra_info: None,
        schema_changed_table_ids: Vec::new(),
    });
    let writes = bootstrap_writes(false, None, 5, "u".to_owned(), "test");
    fold_batch(&mut view, &writes).unwrap();
    for scope_id in 1..=SEEDED_RECORDS {
        let mut options = OrdMap::new();
        options.insert("planted".to_string(), scope_id.to_string());
        let write = (
            Key::current(EntityKey::OptionScope {
                scope_kind: SOURCE_SCOPE,
                scope_id,
            }),
            Some(Stored::OptionScope(OptionScopeValue { options })),
        );
        fold_batch(&mut view, &vec![write]).unwrap();
    }
    view
}

/// The scopes a fully migrated store holds: the bootstrap's own global
/// record, untouched, plus every planted record moved to the target scope.
fn migrated_scopes() -> Vec<(u64, u64)> {
    let mut expected = vec![(0, 0)];
    expected.extend((1..=SEEDED_RECORDS).map(|scope_id| (TARGET_SCOPE, scope_id)));
    expected
}

/// Walks the unit from a cursor, stopping after `limit` steps; gives the cursor
/// that was reached and whether the walk is done.
fn walk(view: &mut CatalogSnapshot, cursor: Vec<u8>, limit: usize) -> (Vec<u8>, bool) {
    let unit = move_scope_unit();
    let mut cursor = cursor;
    for _ in 0..limit {
        match run_step(&unit, view, &cursor).unwrap() {
            None => return (cursor, true),
            Some(step) => {
                fold_batch(view, &step.writes).unwrap();
                cursor = step.cursor;
            }
        }
    }
    (cursor, false)
}

/// A marker the format stamp contradicts cannot be produced by any step of
/// the protocol, so meeting one is corruption, not a resume.
#[test]
fn a_marker_the_format_contradicts_is_corruption() {
    let error = plan(
        &MIGRATIONS,
        FORMAT_VERSION,
        Some(&MigrationValue {
            from_format: FORMAT_VERSION + 1,
            to_format: FORMAT_VERSION + 2,
            cursor: Vec::new(),
        }),
    )
    .err()
    .unwrap();

    assert!(matches!(error, Error::Corruption(_)), "{error:?}");
}

/// A migration this binary does not carry is refused by name rather than
/// guessed at — the same discipline as meeting a newer format.
#[test]
fn an_unknown_migration_in_flight_is_refused() {
    let error = plan(
        &MIGRATIONS,
        FORMAT_VERSION,
        Some(&MigrationValue {
            from_format: FORMAT_VERSION,
            to_format: FORMAT_VERSION + 1,
            cursor: Vec::new(),
        }),
    )
    .err()
    .unwrap();

    assert!(matches!(error, Error::Migration(_)), "{error:?}");
}

/// The registry and the readable floor have to agree, and nothing but this
/// test makes them.
#[test]
fn the_registry_and_the_readable_floor_agree() {
    for pair in MIGRATIONS.windows(2) {
        assert_eq!(
            pair[0].to_format, pair[1].from_format,
            "{} and {} leave a gap the chain cannot cross",
            pair[0].name, pair[1].name
        );
    }

    let mut sources: Vec<u64> = MIGRATIONS.iter().map(|unit| unit.from_format).collect();
    let before = sources.len();
    sources.sort_unstable();
    sources.dedup();
    assert_eq!(
        sources.len(),
        before,
        "two units read the same format; which one runs would depend on registry order"
    );

    for unit in MIGRATIONS {
        assert!(
            unit.from_format < unit.to_format,
            "{} does not move the store forward",
            unit.name
        );
        assert!(
            unit.to_format <= MAX_FORMAT_VERSION,
            "{} migrates to {}, past the newest format this binary names ({MAX_FORMAT_VERSION})",
            unit.name,
            unit.to_format
        );
    }

    let expected_floor = MIGRATIONS
        .last()
        .map_or(FORMAT_VERSION, |unit| unit.to_format);
    assert_eq!(
        MIN_FORMAT_VERSION, expected_floor,
        "the floor must sit at the newest rewritten layout: below it the keys are somewhere else"
    );
}

/// Wherever a walk stops, carrying it on from its cursor moves every record
/// exactly once.
#[test]
fn a_walk_that_stops_resumes_to_a_coherent_store() {
    for stop in 0..=4 {
        let mut view = seeded();
        let (cursor, _) = walk(&mut view, Vec::new(), stop);
        let (_, done) = walk(&mut view, cursor, 10);
        assert!(done);
        assert_eq!(view.options.keys(), migrated_scopes(), "stopped at {stop}");
        for scope_id in 1..=SEEDED_RECORDS {
            let record = view.options.get(&(TARGET_SCOPE, scope_id)).unwrap();
            assert_eq!(
                record.options.get(&"planted".to_owned()),
                Some(&scope_id.to_string())
            );
        }
    }
}

#[test]
fn a_step_moves_one_record_and_names_it() {
    let mut view = seeded();
    let (cursor, done) = walk(&mut view, Vec::new(), 1);
    assert!(!done);
    assert_eq!(cursor, 1_u64.to_be_bytes().to_vec());
    assert_eq!(view.options.keys(), vec![(0, 0), (1, 2), (1, 3), (2, 1)]);
    // A step that was applied does nothing when it runs again.
    let (again, _) = walk(&mut view, Vec::new(), 1);
    assert_eq!(again, 2_u64.to_be_bytes().to_vec());
}

#[test]
fn a_unit_without_work_has_no_step() {
    let view = seeded();
    let step = run_step(&second_link_unit(), &view, &Vec::new()).unwrap();
    assert!(step.is_none());
}

#[test]
fn cursors_read_back() {
    assert_eq!(decode_cursor(&vec![]), Ok(None));
    assert_eq!(
        decode_cursor(&258_u64.to_be_bytes().to_vec()),
        Ok(Some(258))
    );
    assert_eq!(
        decode_cursor(&vec![1, 2]),
        Err(Error::Corruption(
            "migration cursor is not a scope id".to_owned()
        ))
    );
}

/// A jump over versions is planned as its links, and a stopped one is carried on
/// by the unit that started it.
#[test]
fn a_jump_is_planned_as_its_links() {
    let units = [second_link_unit(), move_scope_unit()];
    let names: Vec<&str> = chain_from(&units, FORMAT_VERSION)
        .iter()
        .map(|unit| unit.name)
        .collect();
    assert_eq!(names, vec!["move-option-scope", "second-link"]);
    assert_eq!(chain_from(&units, MAX_FORMAT_VERSION).len(), 1);
    assert!(chain_from(&units, MAX_FORMAT_VERSION + 1).is_empty());

    let resumed = plan(
        &units,
        FORMAT_VERSION,
        Some(&MigrationValue {
            from_format: FORMAT_VERSION,
            to_format: MAX_FORMAT_VERSION,
            cursor: vec![0, 0, 0, 0, 0, 0, 0, 2],
        }),
    )
    .ok()
    .unwrap();
    assert_eq!(resumed.units.len(), 2);
    assert_eq!(resumed.resume, Some(vec![0, 0, 0, 0, 0, 0, 0, 2]));

    // A completed migration plans nothing.
    let done = plan(&units, MAX_FORMAT_VERSION + 1, None).ok().unwrap();
    assert!(done.units.is_empty());
    assert!(done.resume.is_none());
}

#[test]
fn the_last_batch_stamps_and_takes_the_marker_away() {
    let unit = move_scope_unit();
    let (key, value) = mark(&unit, &vec![7]);
    assert_eq!(key, Key::Sys(SysKey::Migration));
    assert_eq!(
        value,
        Some(Stored::Migration(MigrationValue {
            from_format: FORMAT_VERSION,
            to_format: MAX_FORMAT_VERSION,
            cursor: vec![7],
        }))
    );
    let writes = finish(&unit, "test");
    assert_eq!(
        writes,
        vec![
            (
                Key::Sys(SysKey::Format),
                Some(Stored::Format(FormatValue {
                    format_version: MAX_FORMAT_VERSION,
                    writer_version: "test".to_owned(),
                }))
            ),
            (Key::Sys(SysKey::Migration), None),
        ]
    );
}

/// What is durable beside the catalog: the layout's stamp and the marker.
struct Durable {
    view: CatalogSnapshot,
    format: u64,
    marker: Option<MigrationValue>,
}

impl Durable {
    fn commit(&mut self, writes: Vec<StagedWrite>) {
        for (key, value) in writes {
            match (key, value) {
                (Key::Sys(SysKey::Format), Some(Stored::Format(format))) => {
                    self.format = format.format_version
                }
                (Key::Sys(SysKey::Migration), Some(Stored::Migration(marker))) => {
                    self.marker = Some(marker)
                }
                (Key::Sys(SysKey::Migration), None) => self.marker = None,
                write => fold_batch(&mut self.view, &vec![write]).unwrap(),
            }
        }
    }
}

/// Carries a store through the units that it needs; stops after some batches.
fn migrate(store: &mut Durable, units: &[MigrationUnit], batches: usize) {
    let left = plan(units, store.format, store.marker.as_ref()).ok().unwrap();
    let mut resume = left.resume;
    let mut batches = batches;
    for unit in &left.units {
        let mut cursor = match resume.take() {
            Some(cursor) => cursor,
            None => {
                if batches == 0 {
                    return;
                }
                batches -= 1;
                store.commit(vec![mark(unit, &Vec::new())]);
                Vec::new()
            }
        };
        loop {
            if batches == 0 {
                return;
            }
            batches -= 1;
            match run_step(unit, &store.view, &cursor).unwrap() {
                Some(step) => {
                    let mut writes = step.writes;
                    writes.push(mark(unit, &step.cursor));
                    store.commit(writes);
                    cursor = step.cursor;
                }
                None => {
                    store.commit(finish(unit, "test"));
                    break;
                }
            }
        }
    }
}

/// A multi-version jump is the composition of its links, each with its own
/// start, steps, and finish, so the format lands on the last link's target
/// and no marker survives, in one go or stopped after any batch.
#[test]
fn a_multi_version_jump_composes_its_links() {
    let units = [move_scope_unit(), second_link_unit()];
    for stop in 0..=8 {
        let mut store = Durable {
            view: seeded(),
            format: FORMAT_VERSION,
            marker: None,
        };
        migrate(&mut store, &units, stop);
        migrate(&mut store, &units, 100);
        assert_eq!(store.format, second_link_unit().to_format);
        assert!(store.marker.is_none());
        assert_eq!(store.view.options.keys(), migrated_scopes());
        // Run again, nothing is left to do.
        migrate(&mut store, &units, 100);
        assert_eq!(store.format, second_link_unit().to_format);
    }
}
