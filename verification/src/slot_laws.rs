//! What slots and rounds of commits lead to: which commits are applied, in what
//! order, who loses, and what each member of a round is told.
use crate::catalog::CatalogModel;
use crate::coalesce::{
    absorbed, chained, drained, fresh_slot, handed_on, joined, left, outcome, recorded,
    round_clashes, shared_fault, verdict_of, with_changes, AccumModel, CommitDrive, ProductModel,
    QueueModel, VerdictModel,
};
use crate::commit::PreparedModel;
use crate::error::{message, Error, Fault};
use crate::fold::with_writes;
use crate::keys::WriteModel;
use crate::operations::{changes_of, changes_text, ChangeModel, OperationModel};
use crate::race_laws::{records_tell_of_rivals, rivals_on_record};
use crate::slots::{
    admission, clashes, replay_start, replayed_slot, replayed_tail, writes_in, Admission,
    CommitModel, HeadState, ReplayModel,
};
use vstd::prelude::*;

verus! {

// ---------------------------------------------------------------------------
// Replay
// ---------------------------------------------------------------------------

/// A commit is applied at the head that it was validated against, and skipped
/// beyond it; one from beyond the head has lost the commits between.
pub proof fn commits_are_admitted_at_their_head(head: u64, validated_head: u64, sequence: u64)
    ensures
        match admission(head, validated_head, sequence) {
            Ok(Admission::Apply) => validated_head == head,
            Ok(Admission::Skip) => validated_head < head,
            Err(Fault::Corruption(_)) => validated_head > head,
            Err(_) => false,
        },
{
}

/// Whether the target of a replay is reached.
pub open spec fn target_reached(m: CatalogModel, until: Option<u64>) -> bool {
    match until {
        Some(target) => target <= m.snapshot.snapshot_id,
        None => false,
    }
}

/// The commits of a slot are replayed in order. Each is folded in where it was
/// validated against the head that was reached; one from below is skipped, unless
/// one was folded in before it; one from above, or one that cannot be folded in,
/// breaks the replay; and nothing happens once the target is reached.
pub proof fn slots_replay_in_order(
    s: ReplayModel,
    commits: Seq<CommitModel>,
    c: CommitModel,
    sequence: u64,
    until: Option<u64>,
)
    ensures
        replayed_slot(s, Seq::empty(), sequence, until) == Ok::<ReplayModel, Fault>(s),
        match (
            replayed_slot(s, commits, sequence, until),
            replayed_slot(s, commits.push(c), sequence, until),
        ) {
            (Err(f), r) => r == Err::<ReplayModel, Fault>(f),
            (Ok(n), r) => {
                let head = n.view.snapshot.snapshot_id;
                if n.stopped {
                    r == Ok::<ReplayModel, Fault>(n)
                } else if target_reached(n.view, until) {
                    r == Ok::<ReplayModel, Fault>(ReplayModel { stopped: true, ..n })
                } else if c.validated_head == head {
                    match with_writes(n.view, c.writes) {
                        Ok(view) => r == Ok::<ReplayModel, Fault>(
                            ReplayModel { view, applied: true, stopped: false },
                        ),
                        Err(_) => r is Err && r->Err_0 is Corruption,
                    }
                } else if c.validated_head < head && !n.applied {
                    r == Ok::<ReplayModel, Fault>(n)
                } else {
                    r is Err && r->Err_0 is Corruption
                }
            },
        },
{
    assert(commits.push(c).drop_last() =~= commits);
}

/// Commits that chain, each on the catalog that the one before leaves, replay to
/// the last of those catalogs.
pub proof fn chains_replay(
    views: Seq<CatalogModel>,
    commits: Seq<CommitModel>,
    applied: bool,
    sequence: u64,
)
    requires
        views.len() == commits.len() + 1,
        forall|i: int|
            #![trigger commits[i]]
            0 <= i < commits.len() ==> commits[i].validated_head == views[i].snapshot.snapshot_id
                && with_writes(views[i], commits[i].writes) == Ok::<CatalogModel, Fault>(
                views[i + 1],
            ),
    ensures
        replayed_slot(
            ReplayModel { view: views[0], applied, stopped: false },
            commits,
            sequence,
            None,
        ) == Ok::<ReplayModel, Fault>(
            ReplayModel {
                view: views.last(),
                applied: applied || commits.len() > 0,
                stopped: false,
            },
        ),
    decreases commits.len(),
{
    if commits.len() > 0 {
        let front = commits.drop_last();
        let before = views.drop_last();
        assert forall|i: int|
            #![trigger front[i]]
            0 <= i < front.len() implies front[i].validated_head == before[i].snapshot.snapshot_id
            && with_writes(before[i], front[i].writes) == Ok::<CatalogModel, Fault>(
            before[i + 1],
        ) by {
            assert(front[i] == commits[i]);
        }
        chains_replay(before, front, applied, sequence);
        assert(commits[commits.len() - 1] == commits.last());
    }
}

/// The writes of a slot are those of its commits, in order.
pub proof fn slot_writes_come_in_order(commits: Seq<CommitModel>, c: CommitModel)
    ensures
        writes_in(Seq::empty()) == Seq::<WriteModel>::empty(),
        writes_in(commits.push(c)) == writes_in(commits) + c.writes,
{
    assert(commits.push(c).drop_last() =~= commits);
}

/// A replay starts at the catalog that was folded, with nothing applied, at the
/// slot after the last one that was folded.
pub proof fn replays_start_after_the_fold(m: CatalogModel, folded: u64)
    ensures
        replay_start(m, folded).replay == (ReplayModel { view: m, applied: false, stopped: false }),
        replay_start(m, folded).overlay.len() == 0,
        folded < u64::MAX ==> replay_start(m, folded).next_sequence == folded + 1,
{
}

/// Slots are replayed in order, until one stops or breaks the replay; the writes
/// of those before it are above the fold, and the next slot is the one after
/// them.
pub proof fn tails_replay_in_order(
    start: HeadState,
    slots: Seq<(u64, Seq<CommitModel>)>,
    sequence: u64,
    commits: Seq<CommitModel>,
    until: Option<u64>,
)
    requires
        sequence < u64::MAX,
    ensures
        replayed_tail(start, Seq::empty(), until) == Ok::<HeadState, Fault>(start),
        match (
            replayed_tail(start, slots, until),
            replayed_tail(start, slots.push((sequence, commits)), until),
        ) {
            (Err(f), r) => r == Err::<HeadState, Fault>(f),
            (Ok(h), r) => if h.replay.stopped {
                r == Ok::<HeadState, Fault>(h)
            } else {
                match replayed_slot(h.replay, commits, sequence, until) {
                    Err(f) => r == Err::<HeadState, Fault>(f),
                    Ok(replay) => if replay.stopped {
                        r == Ok::<HeadState, Fault>(HeadState { replay, ..h })
                    } else {
                        r == Ok::<HeadState, Fault>(
                            HeadState {
                                replay,
                                overlay: h.overlay + writes_in(commits),
                                next_sequence: (sequence + 1) as u64,
                            },
                        )
                    },
                }
            },
        },
{
    assert(slots.push((sequence, commits)).drop_last() =~= slots);
}

/// A commit loses to a slot if and only if something that it does cannot stand
/// beside something that a commit of the slot records.
pub proof fn losers_clash_with_records(a: Seq<OperationModel>, won: Seq<Seq<OperationModel>>, commits: Seq<CommitModel>)
    requires
        commits.len() == won.len(),
        forall|i: int|
            0 <= i < commits.len() ==> (#[trigger] commits[i]).changes_made == changes_text(
                changes_of(won[i]),
            ),
    ensures
        clashes(changes_of(a), commits) <==> exists|i: int, p: int, q: int|
            0 <= i < won.len() && 0 <= p < a.len() && 0 <= q < won[i].len() && rivals_on_record(
                #[trigger] a[p],
                #[trigger] won[i][q],
            ),
{
    if clashes(changes_of(a), commits) {
        let i = choose|i: int|
            0 <= i < commits.len() && crate::conflicts::conflicting(
                changes_of(a),
                crate::operations::parsed((#[trigger] commits[i]).changes_made),
            );
        records_tell_of_rivals(a, won[i]);
        let (p, q) = choose|p: int, q: int|
            0 <= p < a.len() && 0 <= q < won[i].len() && rivals_on_record(
                #[trigger] a[p],
                #[trigger] won[i][q],
            );
        assert(rivals_on_record(a[p], won[i][q]));
    }
    if exists|i: int, p: int, q: int|
        0 <= i < won.len() && 0 <= p < a.len() && 0 <= q < won[i].len() && rivals_on_record(
            #[trigger] a[p],
            #[trigger] won[i][q],
        ) {
        let (i, p, q) = choose|i: int, p: int, q: int|
            0 <= i < won.len() && 0 <= p < a.len() && 0 <= q < won[i].len() && rivals_on_record(
                #[trigger] a[p],
                #[trigger] won[i][q],
            );
        records_tell_of_rivals(a, won[i]);
        assert(rivals_on_record(a[p], won[i][q]));
        assert(commits[i].changes_made == changes_text(changes_of(won[i])));
    }
}

// ---------------------------------------------------------------------------
// Rounds
// ---------------------------------------------------------------------------

/// A member whose work is staged is told the snapshot that it minted once the
/// round commits, and why it did not where it does not commit.
pub proof fn staged_members_share_the_verdict(
    txid: [u8; 16],
    minted: u64,
    ours: ChangeModel,
    original_head: u64,
    verdict: VerdictModel,
)
    ensures
        ({
            let s = recorded(
                fresh_slot(txid),
                ProductModel::Staged { minted, ours },
                original_head,
            );
            &&& s.txid == txid
            &&& s.staged
            &&& match verdict {
                VerdictModel::Committed => outcome(s, verdict, original_head) == Ok::<u64, Fault>(
                    minted,
                ),
                VerdictModel::Nothing => outcome(s, verdict, original_head) == Ok::<u64, Fault>(
                    original_head,
                ),
                VerdictModel::Conflict { .. } => outcome(s, verdict, original_head) is Err
                    && outcome(s, verdict, original_head)->Err_0 is CommitConflict,
                VerdictModel::Exhausted { .. } => outcome(s, verdict, original_head) is Err
                    && outcome(s, verdict, original_head)->Err_0 is RetryBudgetExhausted,
                VerdictModel::Unavailable { .. } => outcome(s, verdict, original_head) is Err
                    && outcome(s, verdict, original_head)->Err_0 is SlotLog,
                VerdictModel::Failed(t) => outcome(s, verdict, original_head) == Err::<u64, Fault>(
                    Fault::Corruption(t),
                ),
            }
        }),
{
}

/// A member that staged nothing is told the head that the round started from, and
/// one that failed its own failure, whatever becomes of the round.
pub proof fn other_members_have_their_own_outcome(
    txid: [u8; 16],
    f: Fault,
    original_head: u64,
    verdict: VerdictModel,
)
    ensures
        ({
            let none = recorded(fresh_slot(txid), ProductModel::Nothing, original_head);
            let failed = recorded(fresh_slot(txid), ProductModel::Failed(f), original_head);
            &&& !none.staged && none.txid == txid
            &&& !failed.staged && failed.txid == txid
            &&& outcome(none, verdict, original_head) == Ok::<u64, Fault>(original_head)
            &&& outcome(failed, verdict, original_head) == Err::<u64, Fault>(shared_fault(f))
        }),
{
}

/// Failures that a caller acts on keep their kind when they are shared; the
/// others are told as corruption, in their own words.
pub proof fn shared_failures_keep_their_kind(f: Fault)
    ensures
        match f {
            Fault::Corruption(_) | Fault::SnapshotExpired(_) | Fault::Migration(_)
            | Fault::Fenced(_) | Fault::Store(_) => shared_fault(f) == Fault::Corruption(
                message(f),
            ),
            _ => shared_fault(f) == f,
        },
{
}

/// What became of a round is told as it was.
pub proof fn verdicts_tell_what_happened(drive: Result<CommitDrive, Error>)
    ensures
        match drive {
            Ok(CommitDrive::Committed { .. }) => verdict_of(drive) is Committed,
            Ok(CommitDrive::Nothing) => verdict_of(drive) is Nothing,
            Ok(CommitDrive::Conflict { sequence }) => verdict_of(drive) == (
            VerdictModel::Conflict { sequence }),
            Ok(CommitDrive::Exhausted { attempts, last_sequence }) => verdict_of(drive) == (
            VerdictModel::Exhausted { attempts, last_sequence }),
            Ok(CommitDrive::Unavailable { attempts, last_sequence, last_error }) => verdict_of(
                drive,
            ) == (VerdictModel::Unavailable { attempts, last_sequence, last_error: last_error@ }),
            Err(e) => verdict_of(drive) == VerdictModel::Failed(message(e@)),
        },
{
}

/// The changes of a round are those of its staged members, in order.
pub proof fn rounds_gather_changes(
    changes: Seq<ChangeModel>,
    minted: u64,
    ours: ChangeModel,
    f: Fault,
)
    ensures
        with_changes(changes, ProductModel::Staged { minted, ours }) == changes.push(ours),
        with_changes(changes, ProductModel::Nothing) == changes,
        with_changes(changes, ProductModel::Failed(f)) == changes,
{
}

/// A round loses to a slot if and only if one of its members does.
pub proof fn rounds_lose_with_a_member(changes: Seq<ChangeModel>, commits: Seq<CommitModel>)
    ensures
        round_clashes(changes, commits) <==> exists|i: int|
            0 <= i < changes.len() && clashes(#[trigger] changes[i], commits),
{
}

/// A member's prepared commit chains onto its round: it is validated against the
/// head that it was prepared on, records what it changes, holds its writes, and
/// the round goes on from the catalog that it leaves. One that prepared nothing,
/// or failed, leaves the round as it was.
pub proof fn members_chain(
    a: AccumModel,
    txid: [u8; 16],
    ours: ChangeModel,
    head_before: u64,
    commits: u64,
    writes: Seq<WriteModel>,
    head: u64,
    f: Fault,
)
    ensures
        ({
            let p = PreparedModel::Staged { ours, head_before, commits, writes };
            let (next, product) = chained(a, txid, Ok(p));
            match with_writes(a.view, writes) {
                Ok(view) => {
                    &&& next.view == view
                    &&& next.overlay == a.overlay + writes
                    &&& next.commits == a.commits.push(
                        CommitModel {
                            transaction_id: txid,
                            validated_head: head_before,
                            changes_made: changes_text(ours),
                            writes,
                        },
                    )
                    &&& product == (ProductModel::Staged { minted: commits, ours })
                },
                Err(_) => next.commits == a.commits && next.overlay == a.overlay && product is Failed,
            }
        }),
        chained(a, txid, Ok(PreparedModel::Nothing { head })) == (a, ProductModel::Nothing),
        chained(a, txid, Err(f)) == (a, ProductModel::Failed(f)),
{
}

/// A slot that won is absorbed commit by commit: each is folded in where it was
/// validated against the head that was reached, and skipped where it is from
/// below.
pub proof fn winners_are_absorbed_in_order(
    m: CatalogModel,
    commits: Seq<CommitModel>,
    c: CommitModel,
    sequence: u64,
)
    ensures
        absorbed(m, Seq::empty(), sequence) == Ok::<CatalogModel, Fault>(m),
        match (absorbed(m, commits, sequence), absorbed(m, commits.push(c), sequence)) {
            (Err(f), r) => r == Err::<CatalogModel, Fault>(f),
            (Ok(view), r) => if c.validated_head == view.snapshot.snapshot_id {
                match with_writes(view, c.writes) {
                    Ok(next) => r == Ok::<CatalogModel, Fault>(next),
                    Err(_) => r is Err && r->Err_0 is Corruption,
                }
            } else if c.validated_head < view.snapshot.snapshot_id {
                r == Ok::<CatalogModel, Fault>(view)
            } else {
                r is Err && r->Err_0 is Corruption
            },
        },
{
    assert(commits.push(c).drop_last() =~= commits);
}

// ---------------------------------------------------------------------------
// The queue
// ---------------------------------------------------------------------------

/// Members wait in the order in which they came: one that joins is last, one that
/// leads is taken out and the others keep their order, and the first is the next
/// to lead. The last to go leaves no one driving.
pub proof fn members_wait_in_order(q: QueueModel, member: u64, i: int)
    requires
        q.waiting.no_duplicates(),
    ensures
        joined(q, member).waiting == q.waiting.push(member),
        joined(q, member).driving,
        drained(q).waiting.len() == 0,
        drained(q).driving == q.driving,
        q.waiting.len() == 0 ==> handed_on(q).waiting.len() == 0 && !handed_on(q).driving,
        q.waiting.len() > 0 ==> handed_on(q).waiting.len() == q.waiting.len() - 1
            && handed_on(q).driving == q.driving,
        0 <= i < q.waiting.len() - 1 ==> handed_on(q).waiting[i] == q.waiting[i + 1],
        left(q, member).driving == q.driving,
        forall|m: u64| #[trigger]
            left(q, member).waiting.contains(m) <==> q.waiting.contains(m) && m != member,
        left(q, member).waiting == q.waiting.filter(|m: u64| m != member),
{
    let p = crate::coalesce::others(member);
    let s = q.waiting;
    filtered_are_those(s, p);
    same_members(s, p, |m: u64| m != member);
}

proof fn filtered_are_those(s: Seq<u64>, p: spec_fn(u64) -> bool)
    ensures
        forall|m: u64| #[trigger] s.filter(p).contains(m) <==> s.contains(m) && p(m),
    decreases s.len(),
{
    reveal(Seq::filter);
    if s.len() > 0 {
        let front = s.drop_last();
        filtered_are_those(front, p);
        assert forall|m: u64| #[trigger] s.filter(p).contains(m) <==> s.contains(m) && p(m) by {
            let f = front.filter(p);
            assert(f.contains(m) <==> front.contains(m) && p(m));
            if s.contains(m) {
                let k = choose|k: int| 0 <= k < s.len() && s[k] == m;
                if k < front.len() {
                    assert(front[k] == m);
                }
            }
            if front.contains(m) {
                let k = choose|k: int| 0 <= k < front.len() && front[k] == m;
                assert(s[k] == m);
            }
            assert(s[s.len() - 1] == s.last());
            if p(s.last()) {
                assert(s.filter(p) == f.push(s.last()));
                if f.contains(m) {
                    let k = choose|k: int| 0 <= k < f.len() && f[k] == m;
                    assert(s.filter(p)[k] == m);
                }
                if s.filter(p).contains(m) {
                    let k = choose|k: int| 0 <= k < s.filter(p).len() && s.filter(p)[k] == m;
                    if k < f.len() {
                        assert(f[k] == m);
                    }
                }
                if m == s.last() {
                    assert(s.filter(p)[f.len() as int] == m);
                }
            }
        }
    }
}

proof fn same_members(s: Seq<u64>, p: spec_fn(u64) -> bool, q: spec_fn(u64) -> bool)
    requires
        forall|x: u64| #[trigger] p(x) == q(x),
    ensures
        s.filter(p) == s.filter(q),
    decreases s.len(),
{
    reveal(Seq::filter);
    if s.len() > 0 {
        same_members(s.drop_last(), p, q);
        assert(p(s.last()) == q(s.last()));
    }
}

} // verus!
