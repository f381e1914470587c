use moraine::api::SnapshotId;
use moraine::catalog::CatalogSnapshot;
use moraine::coalesce::{
    chain, check_writable, clone_error, outcome_for, record, round_envelope, Batch, CommitDrive,
    Directive, MemberCell, MemberSlot, Product, Queue, Verdict,
};
use moraine::commit::{bootstrap_writes, prepare, Prepared};
use moraine::error::Error;
use moraine::fold::fold_batch;
use moraine::index_entries::HeldEntries;
use moraine::keys::{EntityKey, Key, Stored};
use moraine::operations::ChangeSet;
use moraine::ordered::Record;
use moraine::records::SnapshotValue;
use moraine::slots::{commit_from, replay, Envelope, Overlay, Race, Replayed, Tail};
use moraine::verbs::Transaction;

fn bootstrapped() -> CatalogSnapshot {
    let mut view = CatalogSnapshot::empty(SnapshotValue {
        snapshot_id: 0,
        snapshot_time_micros: 0,
        schema_version: 0,
        next_catalog_id: 0,
        next_file_id: 0,
        next_deletion_id: 0,
        changes_made: String::new(),
        author: None,
        commit_message: None,
        commit_extra_info: None,
        schema_changed_table_ids: Vec::new(),
    });
    let writes = bootstrap_writes(false, None, 5, "u".to_owned(), "test");
    fold_batch(&mut view, &writes).unwrap();
    view
}

/// What a member that creates a schema prepares against a view.
fn schema_attempt(view: &CatalogSnapshot, name: &str) -> Result<Prepared, Error> {
    let mut transaction = Transaction::new(view.clone(), view.snapshot.snapshot_id + 1);
    transaction.create_schema(name)?;
    let (ops, state, next_catalog_id, next_file_id) = transaction.into_parts();
    prepare(
        view,
        &ops,
        &Vec::new(),
        &state,
        next_catalog_id,
        next_file_id,
        &None,
        &HeldEntries::new(),
        9,
        "test",
    )
}

#[test]
fn members_of_a_round_chain_and_replay() {
    let mut batch = Batch::new([1; 16], bootstrapped(), Overlay::new());
    let mut accum = batch.begin_round(&vec![[2; 16], [3; 16]]);
    assert_eq!(batch.followers.len(), 2);

    let attempt = schema_attempt(&accum.view, "sales");
    let product = chain(&mut accum, [1; 16], attempt);
    assert!(matches!(product, Product::Staged { minted: 1, .. }));
    batch.record_leader(product);
    let attempt = schema_attempt(&accum.view, "staging");
    let product = chain(&mut accum, [2; 16], attempt);
    assert!(matches!(product, Product::Staged { minted: 2, .. }));
    batch.record_follower(0, product);
    // A member whose own work fails leaves the batch alone.
    let attempt = schema_attempt(&accum.view, "sales");
    let product = chain(&mut accum, [3; 16], attempt);
    assert!(matches!(product, Product::Failed(Error::AlreadyExists(_))));
    batch.record_follower(1, product);
    assert_eq!(batch.last_changes.len(), 2);

    let envelope = round_envelope(accum).unwrap();
    assert_eq!(envelope.commits.len(), 2);
    assert_eq!(envelope.commits[0].payload.validated_head, 0);
    assert_eq!(envelope.commits[1].payload.validated_head, 1);
    assert_eq!(
        envelope.commits[1].payload.changes_made,
        r#"created_schema:"staging""#
    );

    let tail = Tail {
        slots: vec![(1, envelope)],
        gap_at: None,
    };
    match replay(bootstrapped(), 0, &tail, None) {
        Ok(Replayed::Head(head)) => {
            assert_eq!(head.view.snapshot.snapshot_id, 2);
            assert!(head.view.schema_by_name("sales").is_some());
            assert!(head.view.schema_by_name("staging").is_some());
        }
        _ => panic!("the envelope does not replay"),
    }

    let (leader, followers) = batch.settle(&Ok(CommitDrive::Committed { sequence: 1 }));
    assert_eq!(leader, Ok(SnapshotId::new(1)));
    assert_eq!(followers[0], Ok(SnapshotId::new(2)));
    assert_eq!(
        followers[1],
        Err(Error::AlreadyExists("schema sales".to_owned()))
    );
}

#[test]
fn a_round_without_commits_has_no_envelope() {
    let mut batch = Batch::new([1; 16], bootstrapped(), Overlay::new());
    let mut accum = batch.begin_round(&vec![]);
    let product = chain(&mut accum, [1; 16], Ok(Prepared::Nothing { head: 0 }));
    assert!(matches!(product, Product::Nothing));
    batch.record_leader(product);
    assert!(round_envelope(accum).is_none());
    let (leader, _) = batch.settle(&Ok(CommitDrive::Nothing));
    assert_eq!(leader, Ok(SnapshotId::new(0)));
}

#[test]
fn a_batch_rebases_on_a_benign_winner() {
    let mut batch = Batch::new([1; 16], bootstrapped(), Overlay::new());
    let mut ours = ChangeSet::default();
    ours.altered_tables.insert(4);
    batch.last_changes.push(ours);

    let mut winner_view = bootstrapped();
    let mut other = Batch::new([2; 16], bootstrapped(), Overlay::new());
    let mut accum = other.begin_round(&vec![]);
    let attempt = schema_attempt(&winner_view, "sales");
    chain(&mut accum, [2; 16], attempt);
    let winner = round_envelope(accum).unwrap();
    assert_eq!(batch.classify(&winner), Race::Benign);
    batch.absorb(1, &winner).unwrap();
    assert_eq!(batch.view.snapshot.snapshot_id, 1);
    assert!(batch.view.schema_by_name("sales").is_some());
    // What is there already is skipped.
    batch.absorb(1, &winner).unwrap();
    assert_eq!(batch.view.snapshot.snapshot_id, 1);

    let mut schemas = ChangeSet::default();
    schemas.created_schemas.insert("x".to_owned());
    batch.last_changes.push(schemas);
    assert_eq!(batch.classify(&winner), Race::Conflict);

    // A winner from further on is missing its predecessors.
    fold_batch(
        &mut winner_view,
        &winner.commits[0].payload.writes,
    )
    .unwrap();
    let later = schema_attempt(&winner_view, "later");
    let mut fresh = Batch::new([3; 16], bootstrapped(), Overlay::new());
    let mut accum = fresh.begin_round(&vec![]);
    accum.view = winner_view;
    chain(&mut accum, [3; 16], later);
    let envelope = round_envelope(accum).unwrap();
    assert!(matches!(
        fresh.absorb(2, &envelope),
        Err(Error::Corruption(_))
    ));
}

#[test]
fn every_verdict_has_its_outcome() {
    let mut slot = MemberSlot::new([1; 16]);
    let mut changes = Vec::new();
    record(
        &mut slot,
        Product::Staged {
            minted: 6,
            ours: ChangeSet::default(),
        },
        &mut changes,
        4,
    );
    assert_eq!(changes.len(), 1);
    let outcome = |drive: Result<CommitDrive, Error>| outcome_for(&slot, &Verdict::of(&drive), 4);

    assert_eq!(
        outcome(Ok(CommitDrive::Committed { sequence: 9 })),
        Ok(SnapshotId::new(6))
    );
    assert_eq!(outcome(Ok(CommitDrive::Nothing)), Ok(SnapshotId::new(4)));
    let lost = outcome(Ok(CommitDrive::Conflict { sequence: 9 })).unwrap_err();
    assert_eq!(
        lost,
        Error::CommitConflict(
            "a concurrent commit won slot 9 from head snapshot 4 and conflicts with this \
             transaction"
                .to_owned()
        )
    );
    assert!(lost.message().contains("conflict"));
    assert_eq!(
        outcome(Ok(CommitDrive::Exhausted {
            attempts: 10,
            last_sequence: 9
        })),
        Err(Error::RetryBudgetExhausted(
            "spent 10 attempts from head snapshot 4 without settling; last raced slot 9".to_owned()
        ))
    );
    assert_eq!(
        outcome(Ok(CommitDrive::Unavailable {
            attempts: 3,
            last_sequence: 9,
            last_error: "timed out".to_owned(),
        })),
        Err(Error::SlotLog(
            "commit-slot log unreachable after 3 attempts from head snapshot 4 (last raced slot \
             9): timed out"
                .to_owned()
        ))
    );
    assert_eq!(
        outcome(Err(Error::Store("gone".to_owned()))),
        Err(Error::Corruption("store: gone".to_owned()))
    );
}

#[test]
fn a_terminal_member_keeps_its_own_outcome() {
    let mut slot = MemberSlot::new([1; 16]);
    let mut changes = Vec::new();
    record(&mut slot, Product::Nothing, &mut changes, 4);
    assert!(changes.is_empty());
    let verdict = Verdict::of(&Ok(CommitDrive::Conflict { sequence: 9 }));
    assert_eq!(outcome_for(&slot, &verdict, 4), Ok(SnapshotId::new(4)));

    let mut failed = MemberSlot::new([2; 16]);
    record(
        &mut failed,
        Product::Failed(Error::NotFound("table 3".to_owned())),
        &mut changes,
        4,
    );
    assert_eq!(
        outcome_for(&failed, &verdict, 4),
        Err(Error::NotFound("table 3".to_owned()))
    );
}

#[test]
fn errors_are_made_again_for_a_second_member() {
    let kept = [
        Error::CommitConflict("t".to_owned()),
        Error::RetryBudgetExhausted("t".to_owned()),
        Error::NotFound("t".to_owned()),
        Error::AlreadyExists("t".to_owned()),
        Error::Constraint("t".to_owned()),
        Error::IndexBuilding("t".to_owned()),
        Error::SlotLog("t".to_owned()),
    ];
    for err in kept {
        assert_eq!(clone_error(&err), err);
    }
    let folded = [
        (Error::Corruption("t".to_owned()), "corruption: t"),
        (Error::SnapshotExpired("t".to_owned()), "snapshot expired: t"),
        (Error::Migration("t".to_owned()), "migration: t"),
        (Error::Fenced("t".to_owned()), "fenced: t"),
        (Error::Store("t".to_owned()), "store: t"),
    ];
    for (err, text) in folded {
        assert_eq!(clone_error(&err), Error::Corruption(text.to_owned()));
    }
}

#[test]
fn one_member_leads_at_a_time() {
    let mut queue = Queue::new();
    assert!(queue.join(1));
    assert!(!queue.join(2));
    assert!(!queue.join(3));
    queue.leave(1);
    assert_eq!(queue.drain(), vec![2, 3]);
    // Nobody joined meanwhile: the batch closes, and the next one leads anew.
    assert_eq!(queue.hand_on(), None);
    assert!(queue.join(4));
    queue.leave(4);
    assert!(!queue.join(5));
    assert!(!queue.join(6));
    assert_eq!(queue.hand_on(), Some(5));
    assert!(!queue.join(7));
    assert_eq!(queue.drain(), vec![6, 7]);
    assert_eq!(queue.hand_on(), None);
}

#[test]
fn members_and_batches_hand_over_through_a_cell() {
    let mut cell = MemberCell::new();
    assert_eq!(cell.take_directive(), Directive::Idle);
    cell.direct(Directive::Assemble);
    assert_eq!(cell.take_directive(), Directive::Assemble);
    assert_eq!(cell.take_directive(), Directive::Idle);
    assert!(cell.take_product().is_none());
    cell.produce(Product::Nothing);
    // A new round drops what an earlier one left.
    cell.direct(Directive::Assemble);
    assert!(cell.take_product().is_none());
    cell.produce(Product::Nothing);
    assert!(matches!(cell.take_product(), Some(Product::Nothing)));
    cell.settle(Ok(SnapshotId::new(3)));
    assert_eq!(cell.take_directive(), Directive::Settle);
    assert_eq!(cell.take_outcome(), Ok(SnapshotId::new(3)));
    assert_eq!(
        cell.take_outcome(),
        Err(Error::Corruption(
            "a coalesced commit was settled with no outcome".to_owned()
        ))
    );
}

#[test]
fn a_read_only_catalog_refuses_to_commit() {
    assert_eq!(check_writable(false), Ok(()));
    assert_eq!(
        check_writable(true),
        Err(Error::Constraint(
            "catalog attached read-only; writes are unavailable".to_owned()
        ))
    );
}

#[test]
fn a_commit_that_cannot_chain_fails() {
    let mut batch = Batch::new([1; 16], bootstrapped(), Overlay::new());
    let mut accum = batch.begin_round(&vec![]);
    let bad = Prepared::Staged {
        ours: ChangeSet::default(),
        head_before: 0,
        commits: 1,
        writes: vec![(
            moraine::keys::Key::current(moraine::keys::EntityKey::Table { table_id: 1 }),
            Some(moraine::keys::Stored::Raw(vec![])),
        )],
    };
    match chain(&mut accum, [1; 16], Ok(bad)) {
        Product::Failed(Error::Corruption(text)) => assert!(
            text.starts_with("a coalesced commit could not chain onto its batch: corruption: ")
        ),
        _ => panic!("the commit was chained"),
    }
    let empty = Envelope { commits: vec![] };
    assert_eq!(batch.classify(&empty), Race::Benign);
}

#[test]
fn a_refusal_leaves_what_came_before_it() {
    let view = bootstrapped();
    let (ours, mut writes) = match schema_attempt(&view, "sales") {
        Ok(Prepared::Staged { ours, writes, .. }) => (ours, writes),
        _ => panic!("nothing was staged"),
    };
    writes.insert(
        1,
        (
            Key::current(EntityKey::Table { table_id: 1 }),
            Some(Stored::Raw(vec![])),
        ),
    );
    let bad = || Prepared::Staged {
        ours: ours.clone(),
        head_before: 0,
        commits: 1,
        writes: writes.dup(),
    };
    let mut batch = Batch::new([1; 16], view.clone(), Overlay::new());
    let mut accum = batch.begin_round(&vec![]);
    assert!(matches!(
        chain(&mut accum, [1; 16], Ok(bad())),
        Product::Failed(Error::Corruption(_))
    ));
    assert!(accum.view.schema_by_name("sales").is_some());
    assert_eq!(accum.view.snapshot.snapshot_id, 0);
    assert!(accum.commits.is_empty());

    let winner = Envelope {
        commits: vec![commit_from([2; 16], 0, String::new(), &writes)],
    };
    assert!(batch.absorb(1, &winner).is_err());
    assert!(batch.view.schema_by_name("sales").is_some());
    assert!(batch.overlay.get(&writes[0].0).is_none());
}
