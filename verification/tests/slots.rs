use moraine::catalog::CatalogSnapshot;
use moraine::commit::bootstrap_writes;
use moraine::error::Error;
use moraine::fold::fold_batch;
use moraine::folder::session_outcome;
use moraine::keys::{EntityKey, Key, StagedWrite, Stored, SysKey};
use moraine::operations::ChangeSet;
use moraine::records::{HeadValue, SchemaValue, SnapshotValue};
use moraine::slots::{
    admission_of, apply, classify_lost_race, commit_from, replay, retried_head, view_route,
    view_source, Admission, Commit, Envelope, Overlay, Race, Replayed, SlotHead, SlotPayload, Tail,
    ViewSource,
};

fn snapshot(snapshot_id: u64, next_catalog_id: u64, changes_made: String) -> SnapshotValue {
    SnapshotValue {
        snapshot_id,
        snapshot_time_micros: 0,
        schema_version: snapshot_id,
        next_catalog_id,
        next_file_id: 0,
        next_deletion_id: 0,
        changes_made,
        author: None,
        commit_message: None,
        commit_extra_info: None,
        schema_changed_table_ids: Vec::new(),
    }
}

/// The catalog of a store that was just bootstrapped.
fn bootstrapped() -> CatalogSnapshot {
    let mut view = CatalogSnapshot::empty(snapshot(0, 0, String::new()));
    let writes = bootstrap_writes(false, None, 5, "u".to_owned(), "test");
    fold_batch(&mut view, &writes).unwrap();
    view
}

/// The writes that a commit creating one schema stages.
fn schema_writes(schema_id: u64, name: &str, snapshot_id: u64) -> Vec<StagedWrite> {
    let mut changes = ChangeSet::default();
    changes.created_schemas.insert(name.to_string());

    vec![
        (
            Key::current(EntityKey::Schema { schema_id }),
            Some(Stored::Schema(SchemaValue {
                schema_id,
                schema_uuid: "u".to_string(),
                begin_snapshot: snapshot_id,
                end_snapshot: None,
                schema_name: name.to_string(),
                path: format!("{name}/"),
                path_is_relative: true,
            })),
        ),
        (
            Key::Snapshot { snapshot_id },
            Some(Stored::Snapshot(snapshot(
                snapshot_id,
                schema_id + 1,
                changes.to_changes_made(),
            ))),
        ),
        (
            Key::Sys(SysKey::Head),
            Some(Stored::Head(HeadValue { snapshot_id })),
        ),
    ]
}

/// One commit that creates a schema, minting the snapshot above
/// `validated_head`.
fn schema_commit(transaction_id: u8, schema_id: u64, name: &str, validated_head: u64) -> Commit {
    commit_from(
        [transaction_id; 16],
        validated_head,
        format!("created_schema:\"{name}\""),
        &schema_writes(schema_id, name, validated_head + 1),
    )
}

/// One envelope holding one commit that creates a schema.
fn schema_slot(transaction_id: u8, schema_id: u64, name: &str, validated_head: u64) -> Envelope {
    Envelope {
        commits: vec![schema_commit(
            transaction_id,
            schema_id,
            name,
            validated_head,
        )],
    }
}

fn tail(slots: Vec<(u64, Envelope)>) -> Tail {
    Tail {
        slots,
        gap_at: None,
    }
}

fn head_of(replayed: Result<Replayed, Error>) -> SlotHead {
    match replayed {
        Ok(Replayed::Head(head)) => head,
        Ok(Replayed::Hole { gap_at, .. }) => panic!("hole at {gap_at}"),
        Err(err) => panic!("{err:?}"),
    }
}

fn refusal(replayed: Result<Replayed, Error>) -> Error {
    match replayed {
        Ok(_) => panic!("the replay was accepted"),
        Err(err) => err,
    }
}

/// A commit carrying only a classification string, for judging a race
/// without staging any writes.
fn classified(changes_made: &str) -> Commit {
    Commit {
        transaction_id: [0; 16],
        payload: SlotPayload {
            validated_head: 0,
            changes_made: changes_made.to_string(),
            writes: vec![],
        },
    }
}

/// A lost race is judged against every commit a winner carries, so a
/// conflict a second commit introduces is not missed; an unparseable
/// classification is an unknown change and never benign; and an absent
/// change set cannot be judged benign at all.
#[test]
fn classify_lost_race_scans_all_commits_and_refuses_the_unparseable() {
    let mut ours = ChangeSet::default();
    ours.altered_tables.insert(5);

    // Two commits, neither touching table 5: nothing to rebase away from.
    let benign = Envelope {
        commits: vec![classified("altered_table:7"), classified("altered_table:9")],
    };
    assert_eq!(classify_lost_race(Some(&ours), &benign), Race::Benign);

    // The conflict is the winner's *second* commit; a scan that stopped at
    // the first would call this benign and apply over a real conflict.
    let conflicting = Envelope {
        commits: vec![classified("altered_table:7"), classified("altered_table:5")],
    };
    assert_eq!(
        classify_lost_race(Some(&ours), &conflicting),
        Race::Conflict
    );

    // An unparseable classification parses to an unknown change, which
    // conflicts with anything.
    let unparseable = Envelope {
        commits: vec![classified("not a change list at all")],
    };
    assert_eq!(
        classify_lost_race(Some(&ours), &unparseable),
        Race::Conflict
    );

    // No change set to compare cannot be called benign.
    assert_eq!(classify_lost_race(None, &benign), Race::Conflict);
}

/// The head is the folded store plus the tail: a slot no folder has
/// applied is already visible, and its writes are readable as an overlay.
#[test]
fn the_head_replays_the_tail_over_the_folded_view() {
    let envelope = schema_slot(1, 1, "sales", 0);
    let writes = schema_writes(1, "sales", 1);

    let head = head_of(replay(bootstrapped(), 0, &tail(vec![(1, envelope)]), None));

    assert_eq!(head.view.snapshot.snapshot_id, 1);
    assert!(head.view.schema_by_name("sales").is_some());
    assert_eq!(head.next_sequence, 2);
    for write in &writes {
        assert_eq!(head.overlay.get(&write.0), Some(write.1.as_ref()));
    }
    assert_eq!(head.overlay.get(&Key::Sys(SysKey::Format)), None);
}

/// Slots apply in order, and every process replays the same order: a
/// second slot staged against the first's result advances the head again.
#[test]
fn the_tail_replays_in_slot_order() {
    let slots = vec![
        (1, schema_slot(1, 1, "sales", 0)),
        (2, schema_slot(2, 2, "staging", 1)),
    ];

    let head = head_of(replay(bootstrapped(), 0, &tail(slots), None));

    assert_eq!(head.view.snapshot.snapshot_id, 2);
    assert_eq!(head.view.schemas.len(), 3);
    assert_eq!(head.next_sequence, 3);
    // The second slot's head hides the first's.
    let key = Key::Sys(SysKey::Head);
    assert_eq!(
        head.overlay.get(&key),
        Some(Some(&Stored::Head(HeadValue { snapshot_id: 2 })))
    );
}

/// A commit validated above the replayed head means the slots between them
/// are missing, so its writes never apply.
#[test]
fn a_commit_validated_above_the_view_refuses() {
    // Bootstrap leaves head 0, so a slot staged against head 7 has seven
    // predecessors nothing in this log holds.
    let slots = vec![(1, schema_slot(1, 1, "sales", 7))];

    let err = refusal(replay(bootstrapped(), 0, &tail(slots), None));
    assert!(matches!(err, Error::Corruption(_)), "{err:?}");
    assert!(err.message().contains("slot 1"), "{err:?}");
    assert_eq!(
        err,
        Error::Corruption(
            "slot 1 was validated against snapshot 7 but replay reached only 0; the slots \
             between them are missing"
                .to_owned()
        )
    );
}

/// A slot that does not chain onto the one before it is refused, not
/// skipped: once a commit has applied in this replay, a following `less`
/// is a broken chain, never a stale cursor. Skipping it would silently
/// drop a committer's writes while reporting success.
#[test]
fn a_slot_that_does_not_chain_after_an_apply_refuses() {
    // A second slot staged against head 0 as well: whatever assembled it
    // did not stage it against slot 1's result.
    let slots = vec![
        (1, schema_slot(1, 1, "sales", 0)),
        (2, schema_slot(2, 2, "staging", 0)),
    ];

    let err = refusal(replay(bootstrapped(), 0, &tail(slots), None));
    assert!(matches!(err, Error::Corruption(_)), "{err:?}");
    assert!(err.message().contains("slot 2"), "{err:?}");
}

/// The legitimate `less` case the skip rule exists for: slot 1 is folded
/// into the store while the cursor lags at 0, so replay re-reads it, finds
/// it already reflected, and skips it — then applies slot 2. No commit has
/// applied when the skip happens, so the latch does not fire.
#[test]
fn a_slot_already_folded_under_a_lagging_cursor_is_skipped() {
    let slots = vec![
        (1, schema_slot(1, 1, "sales", 0)),
        (2, schema_slot(2, 2, "staging", 1)),
    ];
    let mut folded = bootstrapped();
    fold_batch(&mut folded, &schema_writes(1, "sales", 1)).unwrap();

    let head = head_of(replay(folded, 0, &tail(slots), None));

    assert_eq!(head.view.snapshot.snapshot_id, 2);
    assert!(head.view.schema_by_name("sales").is_some());
    assert!(head.view.schema_by_name("staging").is_some());
    assert_eq!(head.next_sequence, 3);
}

/// A well-chained multi-commit envelope replays commit by commit to
/// head + 2.
#[test]
fn a_chained_multi_commit_envelope_reaches_head_plus_two() {
    let envelope = Envelope {
        commits: vec![
            schema_commit(1, 1, "sales", 0),
            schema_commit(2, 2, "staging", 1),
        ],
    };

    let head = head_of(replay(bootstrapped(), 0, &tail(vec![(1, envelope)]), None));

    assert_eq!(head.view.snapshot.snapshot_id, 2);
    assert!(head.view.schema_by_name("sales").is_some());
    assert!(head.view.schema_by_name("staging").is_some());
    assert_eq!(head.next_sequence, 2);
}

/// A multi-commit envelope whose second commit did not stage against the
/// first's result fails its own replay under the latch, rather than
/// applying the first and silently dropping the second.
#[test]
fn a_badly_chained_multi_commit_envelope_refuses() {
    let envelope = Envelope {
        commits: vec![
            schema_commit(1, 1, "sales", 0),
            // Staged against head 0 as well: it does not chain onto commit 1.
            schema_commit(2, 2, "staging", 0),
        ],
    };

    let err = refusal(replay(bootstrapped(), 0, &tail(vec![(1, envelope)]), None));
    assert!(matches!(err, Error::Corruption(_)), "{err:?}");
    assert!(err.message().contains("slot 1"), "{err:?}");
}

/// A hole the fold cursor is still below is a slot destroyed outside the
/// protocol: the prefix is never served as the head.
#[test]
fn a_hole_below_the_fold_cursor_is_corruption() {
    // Slot 2 was destroyed: 3 exists above it and nothing folded it.
    let holed = Tail {
        slots: vec![
            (1, schema_slot(1, 1, "sales", 0)),
            (3, schema_slot(3, 3, "archive", 2)),
        ],
        gap_at: Some(2),
    };
    let replayed = replay(bootstrapped(), 0, &holed, None).ok().unwrap();
    assert!(matches!(
        replayed,
        Replayed::Hole {
            gap_at: 2,
            folded: 0
        }
    ));

    let err = retried_head(replayed).err().unwrap();
    assert!(matches!(err, Error::Corruption(_)), "{err:?}");
    assert!(err.message().contains("slot 2"), "{err:?}");
}

/// The other cause of a hole: a peer folded past it and truncated it, so
/// this reader is merely behind. A freshly opened reader sees the advanced
/// cursor, and the slots above it still serve.
#[test]
fn a_hole_a_peer_truncated_replays_against_the_fresher_cursor() {
    let mut folded = bootstrapped();
    fold_batch(&mut folded, &schema_writes(1, "sales", 1)).unwrap();
    let fresher = tail(vec![(2, schema_slot(2, 2, "staging", 1))]);

    let head = retried_head(replay(folded, 1, &fresher, None).ok().unwrap())
        .ok()
        .unwrap();

    assert_eq!(head.view.snapshot.snapshot_id, 2);
    assert!(head.view.schema_by_name("sales").is_some());
    assert!(head.view.schema_by_name("staging").is_some());
    assert_eq!(head.next_sequence, 3);
}

/// Time travel below the folded head reads history from the store; above
/// it, the tail is replayed up to the target and no further.
#[test]
fn time_travel_spans_the_folded_head_and_the_tail() {
    let slots = tail(vec![
        (1, schema_slot(1, 1, "sales", 0)),
        (2, schema_slot(2, 2, "staging", 1)),
    ]);

    let first = head_of(replay(bootstrapped(), 0, &slots, Some(1)));
    assert_eq!(first.view.snapshot.snapshot_id, 1);
    assert!(first.view.schema_by_name("sales").is_some());
    assert!(first.view.schema_by_name("staging").is_none());
    assert_eq!(view_source(1, 1), Ok(ViewSource::Replay));
    assert_eq!(view_source(2, 1), Ok(ViewSource::Store));

    let last = head_of(replay(bootstrapped(), 0, &slots, Some(3)));
    let err = view_source(last.view.snapshot.snapshot_id, 3).unwrap_err();
    assert_eq!(err, Error::NotFound("snapshot 3 (head is 2)".to_owned()));
}

/// A replay of an empty tail gives the folded view, and the slot after the
/// cursor is the next one.
#[test]
fn an_empty_tail_replays_to_the_folded_view() {
    let head = head_of(replay(bootstrapped(), 7, &tail(vec![]), None));
    assert_eq!(head.view.snapshot.snapshot_id, 0);
    assert_eq!(head.next_sequence, 8);
    let head = head_of(replay(bootstrapped(), u64::MAX, &tail(vec![]), None));
    assert_eq!(head.next_sequence, u64::MAX);
}

/// A batch that cannot be folded is refused with what is wrong with it.
#[test]
fn a_batch_that_does_not_fold_refuses() {
    let bad = commit_from(
        [1; 16],
        0,
        String::new(),
        &vec![(
            Key::current(EntityKey::Schema { schema_id: 1 }),
            Some(Stored::Head(HeadValue { snapshot_id: 1 })),
        )],
    );
    let slots = vec![(4, Envelope { commits: vec![bad] })];
    let err = refusal(replay(bootstrapped(), 3, &tail(slots), None));
    assert!(
        err.message().contains("slot 4 could not be replayed: corruption: "),
        "{err:?}"
    );
}

#[test]
fn commits_are_admitted_by_their_head() {
    let view = bootstrapped();
    let commit = schema_commit(1, 1, "sales", 0);
    assert_eq!(admission_of(&view, &commit, 1), Ok(Admission::Apply));
    let mut later = bootstrapped();
    fold_batch(&mut later, &schema_writes(1, "sales", 1)).unwrap();
    assert_eq!(admission_of(&later, &commit, 1), Ok(Admission::Skip));
}

#[test]
fn an_overlay_reads_the_last_write() {
    let mut overlay = Overlay::new();
    let key = Key::current(EntityKey::Schema { schema_id: 1 });
    assert_eq!(overlay.get(&key), None);
    overlay.absorb(&schema_slot(1, 1, "sales", 0));
    assert!(matches!(overlay.get(&key), Some(Some(Stored::Schema(_)))));
    overlay.absorb(&Envelope {
        commits: vec![commit_from(
            [2; 16],
            1,
            String::new(),
            &vec![(Key::current(EntityKey::Schema { schema_id: 1 }), None)],
        )],
    });
    assert_eq!(overlay.get(&key), Some(None));
}

#[test]
fn a_failure_to_close_shows_only_after_success() {
    let failed = || Error::Fenced("fenced".to_owned());
    let work = || Error::Constraint("work".to_owned());
    assert_eq!(session_outcome(Ok(3), Ok(())), Ok(3));
    assert_eq!(session_outcome::<u8>(Ok(3), Err(failed())), Err(failed()));
    assert_eq!(session_outcome::<u8>(Err(work()), Ok(())), Err(work()));
    assert_eq!(session_outcome::<u8>(Err(work()), Err(failed())), Err(work()));
}

#[test]
fn a_refused_write_leaves_those_before_it() {
    let mut writes = schema_writes(1, "sales", 1);
    writes[1] = (
        Key::current(EntityKey::Table { table_id: 2 }),
        Some(Stored::Head(HeadValue { snapshot_id: 1 })),
    );
    let mut view = bootstrapped();
    assert!(fold_batch(&mut view, &writes).is_err());
    assert!(view.schema_by_name("sales").is_some());
    assert_eq!(view.snapshot.snapshot_id, 0);

    let commit = commit_from([1; 16], 0, String::new(), &writes);
    let mut view = bootstrapped();
    assert!(matches!(
        apply(&mut view, &commit, 4),
        Err(Error::Corruption(_))
    ));
    assert!(view.schema_by_name("sales").is_some());
}

#[test]
fn a_view_is_looked_for_in_the_store_up_to_its_head() {
    let folded = Some(HeadValue { snapshot_id: 3 });
    assert!(matches!(view_route(&folded, 2), Ok(ViewSource::Store)));
    assert!(matches!(view_route(&folded, 3), Ok(ViewSource::Store)));
    assert!(matches!(view_route(&folded, 4), Ok(ViewSource::Replay)));
    assert!(matches!(view_route(&None, 0), Err(Error::Corruption(_))));
}
