use moraine::delta::{record_commit, write_for, MAX_DELTA_KEYS};
use moraine::keys::{CurrentKey, EntityKey, Key, StagedWrite, Stored, SysKey};

fn current(table_id: u64) -> Key {
    Key::current(EntityKey::Table { table_id })
}

fn decoded(write: &StagedWrite) -> Vec<Key> {
    match write.1.as_ref().unwrap() {
        Stored::CommitDelta(delta) => delta.current_keys.clone(),
        other => panic!("not a delta: {other:?}"),
    }
}

/// The record names current keys and nothing else: a history or index
/// key in the list would send a refresh to re-read a key that never
/// appears in a head view.
#[test]
fn the_delta_names_only_current_keys() {
    let writes: Vec<(Key, Option<Vec<u8>>)> = vec![
        (current(1), Some(vec![1])),
        (
            Key::history(EntityKey::Table { table_id: 2 }, 3),
            Some(vec![2]),
        ),
        (Key::Sys(SysKey::Head), Some(vec![3])),
        (
            Key::Current(CurrentKey::GcFile { data_file_id: 9 }),
            None,
        ),
    ];

    let write = write_for(7, &writes).unwrap();
    assert_eq!(write.0, Key::CommitDelta { snapshot_id: 7 });
    assert_eq!(
        decoded(&write),
        vec![
            current(1),
            Key::Current(CurrentKey::GcFile { data_file_id: 9 }),
        ]
    );
}

/// A deletion is recorded by key like any other change; the refresh
/// learns it was deleted by finding the key absent, not from the record.
#[test]
fn deletions_are_recorded_by_key() {
    let writes: Vec<(Key, Option<Vec<u8>>)> = vec![(current(4), None)];
    assert_eq!(decoded(&write_for(1, &writes).unwrap()), vec![current(4)]);
}

/// Over the cap the record is omitted entirely: a partial one would
/// refresh a view to a state no commit ever produced.
#[test]
fn an_oversized_commit_records_nothing() {
    let writes: Vec<(Key, Option<Vec<u8>>)> = (0..=MAX_DELTA_KEYS as u64)
        .map(|table_id| (current(table_id), Some(vec![0])))
        .collect();
    assert!(write_for(1, &writes).is_none());
}

/// A batch that touched no live key still records one, empty: absence
/// means "not replayable", and this commit is replayable by doing
/// nothing.
#[test]
fn a_batch_without_current_keys_records_an_empty_list() {
    let writes: Vec<(Key, Option<Vec<u8>>)> = vec![(Key::Sys(SysKey::Head), Some(vec![1]))];
    assert!(decoded(&write_for(1, &writes).unwrap()).is_empty());
}

#[test]
fn a_commit_that_leads_to_a_snapshot_records_its_live_keys() {
    let writes = || -> Vec<StagedWrite> {
        vec![
            (current(4), None),
            (Key::Sys(SysKey::Head), None),
            (current(9), None),
        ]
    };
    let mut recorded = writes();
    record_commit(6, 7, &mut recorded);
    assert_eq!(recorded.len(), 4);
    assert_eq!(recorded[3].0, Key::CommitDelta { snapshot_id: 7 });
    assert_eq!(decoded(&recorded[3]), vec![current(4), current(9)]);

    let mut unmoved = writes();
    record_commit(7, 7, &mut unmoved);
    assert_eq!(unmoved, writes());
}
