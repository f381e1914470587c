//! The head of a store whose commits are slots of a log: what was folded into
//! the store, with the later slots replayed onto it.
use crate::catalog::{CatalogModel, CatalogSnapshot};
use crate::commit::{no_head, no_head_error};
use crate::conflicts::{conflicting, conflicts};
use crate::error::{
    around, around_two, message, refused, text_around, text_around_two, Error, Fault,
};
use crate::fold::{fold_batch, with_writes, with_writes_until};
use crate::keys::{after, Key, KeyModel, StagedWrite, Stored, StoredModel, WriteModel};
use crate::operations::{parsed, ChangeModel, ChangeSet};
use crate::ordered::Record;
use crate::records::HeadValue;
use crate::text::push_text;
use vstd::prelude::*;

verus! {

/// One commit in a slot.
#[derive(Debug, PartialEq, Eq)]
pub struct Commit {
    pub transaction_id: [u8; 16],
    pub payload: SlotPayload,
}

/// What a commit in a slot says.
#[derive(Debug, PartialEq, Eq)]
pub struct SlotPayload {
    /// The head that the commit was staged against.
    pub validated_head: u64,
    /// What the commit changed, in the wire form.
    pub changes_made: String,
    /// The commit's batch.
    pub writes: Vec<StagedWrite>,
}

/// One slot: the commits of one batch.
#[derive(Debug, PartialEq, Eq)]
pub struct Envelope {
    pub commits: Vec<Commit>,
}

/// The model of [`Commit`].
#[verifier::ext_equal]
pub struct CommitModel {
    pub transaction_id: [u8; 16],
    pub validated_head: u64,
    pub changes_made: Seq<char>,
    pub writes: Seq<WriteModel>,
}

impl View for Commit {
    type V = CommitModel;

    open spec fn view(&self) -> CommitModel {
        CommitModel {
            transaction_id: self.transaction_id,
            validated_head: self.payload.validated_head,
            changes_made: self.payload.changes_made@,
            writes: self.payload.writes.deep_view(),
        }
    }
}

impl DeepView for Commit {
    type V = CommitModel;

    open spec fn deep_view(&self) -> CommitModel {
        self.view()
    }
}

impl Record for Commit {
    fn dup(&self) -> (r: Self) {
        Commit {
            transaction_id: self.transaction_id,
            payload: SlotPayload {
                validated_head: self.payload.validated_head,
                changes_made: self.payload.changes_made.dup(),
                writes: self.payload.writes.dup(),
            },
        }
    }

    fn same(&self, other: &Self) -> (b: bool) {
        same_id(&self.transaction_id, &other.transaction_id) && self.payload.validated_head
            == other.payload.validated_head && self.payload.changes_made.same(
            &other.payload.changes_made,
        ) && self.payload.writes.same(&other.payload.writes)
    }
}

fn same_id(a: &[u8; 16], b: &[u8; 16]) -> (same: bool)
    ensures
        same == (*a == *b),
{
    let mut i: usize = 0;
    while i < 16
        invariant
            i <= 16,
            forall|j: int| 0 <= j < i ==> a@[j] == b@[j],
        decreases 16 - i,
    {
        if a[i] != b[i] {
            assert(a@[i as int] != b@[i as int]);
            return false;
        }
        i = i + 1;
    }
    assert(a@ =~= b@);
    assert(*a == *b);
    true
}

impl DeepView for Envelope {
    type V = Seq<CommitModel>;

    open spec fn deep_view(&self) -> Seq<CommitModel> {
        self.commits.deep_view()
    }
}

impl Clone for Commit {
    fn clone(&self) -> (r: Self)
        ensures
            r@ == self@,
    {
        self.dup()
    }
}

/// Builds a commit from its parts.
pub fn commit_from(
    transaction_id: [u8; 16],
    validated_head: u64,
    changes_made: String,
    writes: &Vec<StagedWrite>,
) -> (c: Commit)
    ensures
        c@ == (CommitModel {
            transaction_id,
            validated_head,
            changes_made: changes_made@,
            writes: writes.deep_view(),
        }),
{
    Commit {
        transaction_id,
        payload: SlotPayload { validated_head, changes_made, writes: writes.dup() },
    }
}

// ---------------------------------------------------------------------------
// The overlay
// ---------------------------------------------------------------------------

/// The writes of slots that are not folded yet, for reads of keys that a
/// catalog does not hold.
#[derive(Debug, PartialEq, Eq)]
pub struct Overlay {
    writes: Vec<StagedWrite>,
}

impl View for Overlay {
    type V = Seq<WriteModel>;

    closed spec fn view(&self) -> Seq<WriteModel> {
        self.writes.deep_view()
    }
}

/// The last write under a key.
pub open spec fn last_write(writes: Seq<WriteModel>, key: KeyModel) -> Option<Option<StoredModel>>
    decreases writes.len(),
{
    if writes.len() == 0 {
        None
    } else if writes.last().0 == key {
        Some(writes.last().1)
    } else {
        last_write(writes.drop_last(), key)
    }
}

/// The writes of the commits of a slot, in order.
pub open spec fn writes_in(commits: Seq<CommitModel>) -> Seq<WriteModel>
    decreases commits.len(),
{
    if commits.len() == 0 {
        Seq::empty()
    } else {
        writes_in(commits.drop_last()) + commits.last().writes
    }
}

impl Overlay {
    pub fn new() -> (o: Self)
        ensures
            o@ == Seq::<WriteModel>::empty(),
    {
        let o = Overlay { writes: Vec::new() };
        assert(o@ =~= Seq::<WriteModel>::empty());
        o
    }

    /// What the slots left under a key: nothing, a deletion, or a value.
    pub fn get(&self, key: &Key) -> (found: Option<Option<&Stored>>)
        ensures
            match last_write(self@, key@) {
                None => found is None,
                Some(None) => found is Some && found->0 is None,
                Some(Some(v)) => found is Some && found->0 is Some && found->0->0@ == v,
            },
    {
        let ghost q = self.writes.deep_view();
        let mut i: usize = self.writes.len();
        assert(q.take(q.len() as int) =~= q);
        while i > 0
            invariant
                i <= self.writes@.len(),
                q == self.writes.deep_view(),
                last_write(q, key@) == last_write(q.take(i as int), key@),
            decreases i,
        {
            i = i - 1;
            proof {
                let t = q.take(i + 1);
                assert(t.last() == self.writes@[i as int].deep_view());
                assert(t.drop_last() =~= q.take(i as int));
            }
            if self.writes[i].0.same(key) {
                return match &self.writes[i].1 {
                    Some(v) => Some(Some(v)),
                    None => Some(None),
                };
            }
        }
        None
    }

    /// Adds the writes of a slot.
    pub fn absorb(&mut self, envelope: &Envelope)
        ensures
            final(self)@ == old(self)@ + writes_in(envelope.deep_view()),
    {
        let ghost q = envelope.commits.deep_view();
        let mut i: usize = 0;
        assert(q.take(0) =~= Seq::<CommitModel>::empty());
        assert(self@ + writes_in(q.take(0)) =~= self@);
        while i < envelope.commits.len()
            invariant
                i <= envelope.commits@.len(),
                q == envelope.commits.deep_view(),
                self@ == old(self)@ + writes_in(q.take(i as int)),
            decreases envelope.commits.len() - i,
        {
            proof {
                let next = q.take(i + 1);
                assert(next.drop_last() =~= q.take(i as int));
                assert(next.last() == envelope.commits@[i as int].deep_view());
            }
            let mut more = envelope.commits[i].payload.writes.dup();
            let ghost a = self.writes.deep_view();
            let ghost b = more.deep_view();
            self.writes.append(&mut more);
            assert(self.writes.deep_view() =~= a + b);
            i = i + 1;
            assert(self@ =~= old(self)@ + writes_in(q.take(i as int)));
        }
        assert(q.take(q.len() as int) =~= q);
    }
}

impl Clone for Overlay {
    fn clone(&self) -> (r: Self)
        ensures
            r@ == self@,
    {
        Overlay { writes: self.writes.dup() }
    }
}

/// Reading a key through the overlay, and the store below it, gives what
/// applying the slots to the store would leave there.
pub proof fn overlay_reads_the_tail(
    writes: Seq<WriteModel>,
    key: KeyModel,
    below: Option<StoredModel>,
)
    ensures
        after(writes, key, below) == match last_write(writes, key) {
            Some(v) => v,
            None => below,
        },
    decreases writes.len(),
{
    if writes.len() > 0 {
        overlay_reads_the_tail(writes.drop_last(), key, below);
    }
}

// ---------------------------------------------------------------------------
// Admission
// ---------------------------------------------------------------------------

/// Whether a commit's writes belong on a view.
#[derive(Debug, Clone, Copy, PartialEq, Eq, Structural)]
pub enum Admission {
    /// The commit was staged against this very head.
    Apply,
    /// The view has the commit already.
    Skip,
}

/// How a commit is admitted by the head that it was staged against: the view's
/// own applies, a lower one is there already, and a higher one means that the
/// slots in between are missing.
pub open spec fn admission(head: u64, validated_head: u64, sequence: u64) -> Result<Admission, Fault> {
    if validated_head == head {
        Ok(Admission::Apply)
    } else if validated_head < head {
        Ok(Admission::Skip)
    } else {
        Err(
            Fault::Corruption(
                around_two(
                    "slot "@,
                    sequence,
                    " was validated against snapshot "@,
                    validated_head,
                    " but replay reached only "@,
                ) + around(""@, head, "; the slots between them are missing"@),
            ),
        )
    }
}

/// Admits a commit by the head that it was staged against.
pub fn admission_of(view: &CatalogSnapshot, commit: &Commit, sequence: u64) -> (r: Result<Admission, Error>)
    ensures
        match admission(view@.snapshot.snapshot_id, commit@.validated_head, sequence) {
            Err(f) => refused(r, f),
            Ok(a) => r == Ok::<Admission, Error>(a),
        },
{
    let head = view.snapshot.snapshot_id;
    let validated_head = commit.payload.validated_head;
    if validated_head == head {
        Ok(Admission::Apply)
    } else if validated_head < head {
        Ok(Admission::Skip)
    } else {
        let mut t = text_around_two(
            "slot ",
            sequence,
            " was validated against snapshot ",
            validated_head,
            " but replay reached only ",
        );
        push_text(&mut t, &text_around("", head, "; the slots between them are missing"));
        Err(Error::Corruption(t))
    }
}

/// The view with a commit's batch applied, or why it cannot be.
pub open spec fn commit_applied(m: CatalogModel, commit: CommitModel, sequence: u64) -> Result<
    CatalogModel,
    Fault,
> {
    match with_writes(m, commit.writes) {
        Err(f) => Err(
            Fault::Corruption(around("slot "@, sequence, " could not be replayed: "@) + message(f)),
        ),
        Ok(next) => Ok(next),
    }
}

/// Applies a commit's batch. Where one of its writes is refused, those before it
/// stay applied.
pub fn apply(view: &mut CatalogSnapshot, commit: &Commit, sequence: u64) -> (r: Result<(), Error>)
    ensures
        match commit_applied(old(view)@, commit@, sequence) {
            Err(f) => refused(r, f) && final(view)@ == with_writes_until(
                old(view)@,
                commit@.writes,
            ),
            Ok(m) => r is Ok && final(view)@ == m,
        },
{
    match fold_batch(view, &commit.payload.writes) {
        Err(e) => {
            let mut t = text_around("slot ", sequence, " could not be replayed: ");
            push_text(&mut t, &e.message());
            Err(Error::Corruption(t))
        },
        Ok(()) => Ok(()),
    }
}

// ---------------------------------------------------------------------------
// Replay
// ---------------------------------------------------------------------------

/// Whether a replay has reached its target.
pub open spec fn is_reached(m: CatalogModel, until: Option<u64>) -> bool {
    until is Some && m.snapshot.snapshot_id >= until->0
}

/// A commit that does not follow the one before it.
pub open spec fn broken_chain(sequence: u64, validated_head: u64, head: u64) -> Fault {
    Fault::Corruption(
        around_two(
            "slot "@,
            sequence,
            " was validated against snapshot "@,
            validated_head,
            " after replay had already reached "@,
        ) + around(""@, head, "; its commit does not chain onto the one before it"@),
    )
}

/// A replay in progress.
#[verifier::ext_equal]
pub struct ReplayModel {
    pub view: CatalogModel,
    /// Whether a commit was applied. From then on none may be skipped: the
    /// commits that the view has already come first.
    pub applied: bool,
    /// Whether the target was reached.
    pub stopped: bool,
}

/// A replay with one more commit.
pub open spec fn replayed_commit(
    s: ReplayModel,
    commit: CommitModel,
    sequence: u64,
    until: Option<u64>,
) -> Result<ReplayModel, Fault> {
    if s.stopped {
        Ok(s)
    } else if is_reached(s.view, until) {
        Ok(ReplayModel { stopped: true, ..s })
    } else {
        match admission(s.view.snapshot.snapshot_id, commit.validated_head, sequence) {
            Err(f) => Err(f),
            Ok(Admission::Apply) => match commit_applied(s.view, commit, sequence) {
                Err(f) => Err(f),
                Ok(view) => Ok(ReplayModel { view, applied: true, ..s }),
            },
            Ok(Admission::Skip) => if s.applied {
                Err(broken_chain(sequence, commit.validated_head, s.view.snapshot.snapshot_id))
            } else {
                Ok(s)
            },
        }
    }
}

/// A replay with the commits of a slot.
pub open spec fn replayed_slot(
    s: ReplayModel,
    commits: Seq<CommitModel>,
    sequence: u64,
    until: Option<u64>,
) -> Result<ReplayModel, Fault>
    decreases commits.len(),
{
    if commits.len() == 0 {
        Ok(s)
    } else {
        match replayed_slot(s, commits.drop_last(), sequence, until) {
            Err(f) => Err(f),
            Ok(next) => replayed_commit(next, commits.last(), sequence, until),
        }
    }
}

proof fn slot_refusal_stays(
    s: ReplayModel,
    commits: Seq<CommitModel>,
    sequence: u64,
    until: Option<u64>,
    n: int,
)
    requires
        0 <= n <= commits.len(),
        replayed_slot(s, commits.take(n), sequence, until) is Err,
    ensures
        replayed_slot(s, commits, sequence, until) == replayed_slot(
            s,
            commits.take(n),
            sequence,
            until,
        ),
    decreases commits.len(),
{
    if n == commits.len() {
        assert(commits.take(n) =~= commits);
    } else {
        assert(commits.drop_last().take(n) =~= commits.take(n));
        slot_refusal_stays(s, commits.drop_last(), sequence, until, n);
    }
}

/// A head: the view, the overlay of the slots that were replayed whole, and the
/// slot that comes next.
#[verifier::ext_equal]
pub struct HeadState {
    pub replay: ReplayModel,
    pub overlay: Seq<WriteModel>,
    pub next_sequence: u64,
}

/// The number after a slot's.
pub open spec fn next_after(sequence: u64) -> u64 {
    if sequence < u64::MAX {
        (sequence + 1) as u64
    } else {
        u64::MAX
    }
}

/// A replay of a tail of slots.
pub open spec fn replayed_tail(
    start: HeadState,
    slots: Seq<(u64, Seq<CommitModel>)>,
    until: Option<u64>,
) -> Result<HeadState, Fault>
    decreases slots.len(),
{
    if slots.len() == 0 {
        Ok(start)
    } else {
        match replayed_tail(start, slots.drop_last(), until) {
            Err(f) => Err(f),
            Ok(h) => if h.replay.stopped {
                Ok(h)
            } else {
                let (sequence, commits) = slots.last();
                match replayed_slot(h.replay, commits, sequence, until) {
                    Err(f) => Err(f),
                    Ok(replay) => if replay.stopped {
                        Ok(HeadState { replay, ..h })
                    } else {
                        Ok(
                            HeadState {
                                replay,
                                overlay: h.overlay + writes_in(commits),
                                next_sequence: next_after(sequence),
                            },
                        )
                    },
                }
            },
        }
    }
}

proof fn tail_refusal_stays(
    start: HeadState,
    slots: Seq<(u64, Seq<CommitModel>)>,
    until: Option<u64>,
    n: int,
)
    requires
        0 <= n <= slots.len(),
        replayed_tail(start, slots.take(n), until) is Err,
    ensures
        replayed_tail(start, slots, until) == replayed_tail(start, slots.take(n), until),
    decreases slots.len(),
{
    if n == slots.len() {
        assert(slots.take(n) =~= slots);
    } else {
        assert(slots.drop_last().take(n) =~= slots.take(n));
        tail_refusal_stays(start, slots.drop_last(), until, n);
    }
}

proof fn tail_stop_stays(
    start: HeadState,
    slots: Seq<(u64, Seq<CommitModel>)>,
    until: Option<u64>,
    n: int,
)
    requires
        0 <= n <= slots.len(),
        replayed_tail(start, slots.take(n), until) is Ok,
        replayed_tail(start, slots.take(n), until)->Ok_0.replay.stopped,
    ensures
        replayed_tail(start, slots, until) == replayed_tail(start, slots.take(n), until),
    decreases slots.len(),
{
    if n == slots.len() {
        assert(slots.take(n) =~= slots);
    } else {
        assert(slots.drop_last().take(n) =~= slots.take(n));
        tail_stop_stays(start, slots.drop_last(), until, n);
    }
}

/// The slots above the fold cursor, as they were read.
pub struct Tail {
    pub slots: Vec<(u64, Envelope)>,
    /// A slot that is absent below one that is there.
    pub gap_at: Option<u64>,
}

/// The model of a tail's slots.
pub open spec fn slot_models(slots: Seq<(u64, Envelope)>) -> Seq<(u64, Seq<CommitModel>)> {
    Seq::new(slots.len(), |i: int| (slots[i].0, slots[i].1.deep_view()))
}

/// The head of a store whose commits are slots.
pub struct SlotHead {
    pub view: CatalogSnapshot,
    pub overlay: Overlay,
    /// The first slot that is not written yet, for which a commit races.
    pub next_sequence: u64,
}

/// What a replay gave.
pub enum Replayed {
    Head(SlotHead),
    /// A slot is absent below one that is there. That is never a head: going on
    /// past it would hide a commit.
    Hole { gap_at: u64, folded: u64 },
}

/// Where a replay starts.
pub open spec fn replay_start(m: CatalogModel, folded: u64) -> HeadState {
    HeadState {
        replay: ReplayModel { view: m, applied: false, stopped: false },
        overlay: Seq::empty(),
        next_sequence: next_after(folded),
    }
}

fn replay_slot(
    view: &mut CatalogSnapshot,
    envelope: &Envelope,
    sequence: u64,
    until: Option<u64>,
    applied: bool,
) -> (r: Result<(bool, bool), Error>)
    ensures
        match replayed_slot(
            (ReplayModel { view: old(view)@, applied, stopped: false }),
            envelope.deep_view(),
            sequence,
            until,
        ) {
            Err(f) => refused(r, f),
            Ok(s) => r is Ok && final(view)@ == s.view && r->Ok_0.0 == s.applied && r->Ok_0.1
                == s.stopped,
        },
{
    let ghost q = envelope.commits.deep_view();
    let ghost start = ReplayModel { view: view@, applied, stopped: false };
    let mut done = applied;
    let mut i: usize = 0;
    assert(q.take(0) =~= Seq::<CommitModel>::empty());
    while i < envelope.commits.len()
        invariant
            i <= envelope.commits@.len(),
            q == envelope.commits.deep_view(),
            start == (ReplayModel { view: old(view)@, applied, stopped: false }),
            replayed_slot(start, q.take(i as int), sequence, until) == Ok::<ReplayModel, Fault>(
                ReplayModel { view: view@, applied: done, stopped: false },
            ),
        decreases envelope.commits.len() - i,
    {
        proof {
            let next = q.take(i + 1);
            assert(next.drop_last() =~= q.take(i as int));
            assert(next.last() == envelope.commits@[i as int].deep_view());
        }
        let commit = &envelope.commits[i];
        let reached = match until {
            Some(target) => view.snapshot.snapshot_id >= target,
            None => false,
        };
        if reached {
            proof {
                slot_stop_stays(start, q, sequence, until, i + 1);
            }
            return Ok((done, true));
        }
        match admission_of(view, commit, sequence) {
            Err(e) => {
                proof {
                    slot_refusal_stays(start, q, sequence, until, i + 1);
                }
                return Err(e);
            },
            Ok(Admission::Apply) => {
                match apply(view, commit, sequence) {
                    Err(e) => {
                        proof {
                            slot_refusal_stays(start, q, sequence, until, i + 1);
                        }
                        return Err(e);
                    },
                    Ok(()) => {},
                }
                done = true;
            },
            Ok(Admission::Skip) => {
                if done {
                    proof {
                        slot_refusal_stays(start, q, sequence, until, i + 1);
                    }
                    let mut t = text_around_two(
                        "slot ",
                        sequence,
                        " was validated against snapshot ",
                        commit.payload.validated_head,
                        " after replay had already reached ",
                    );
                    push_text(
                        &mut t,
                        &text_around(
                            "",
                            view.snapshot.snapshot_id,
                            "; its commit does not chain onto the one before it",
                        ),
                    );
                    return Err(Error::Corruption(t));
                }
            },
        }
        i = i + 1;
    }
    assert(q.take(q.len() as int) =~= q);
    Ok((done, false))
}

proof fn slot_stop_stays(
    s: ReplayModel,
    commits: Seq<CommitModel>,
    sequence: u64,
    until: Option<u64>,
    n: int,
)
    requires
        0 <= n <= commits.len(),
        replayed_slot(s, commits.take(n), sequence, until) is Ok,
        replayed_slot(s, commits.take(n), sequence, until)->Ok_0.stopped,
    ensures
        replayed_slot(s, commits, sequence, until) == replayed_slot(
            s,
            commits.take(n),
            sequence,
            until,
        ),
    decreases commits.len(),
{
    if n == commits.len() {
        assert(commits.take(n) =~= commits);
    } else {
        assert(commits.drop_last().take(n) =~= commits.take(n));
        slot_stop_stays(s, commits.drop_last(), sequence, until, n);
    }
}

/// Replays the slots above the fold cursor onto the folded view, up to a
/// target where there is one. Only a replay without a target gives the head.
pub fn replay(view: CatalogSnapshot, folded: u64, tail: &Tail, until: Option<u64>) -> (r: Result<
    Replayed,
    Error,
>)
    ensures
        match tail.gap_at {
            Some(gap_at) => r == Ok::<Replayed, Error>(Replayed::Hole { gap_at, folded }),
            None => match replayed_tail(replay_start(view@, folded), slot_models(tail.slots@), until) {
                Err(f) => refused(r, f),
                Ok(h) => r is Ok && (r->Ok_0 matches Replayed::Head(head) && head.view@
                    == h.replay.view && head.overlay@ == h.overlay && head.next_sequence
                    == h.next_sequence),
            },
        },
{
    match tail.gap_at {
        Some(gap_at) => return Ok(Replayed::Hole { gap_at, folded }),
        None => {},
    }
    let ghost start = replay_start(view@, folded);
    let ghost q = slot_models(tail.slots@);
    let mut reached = view;
    let mut overlay = Overlay::new();
    let mut next_sequence = folded.saturating_add(1);
    let mut applied = false;
    let mut i: usize = 0;
    assert(q.take(0) =~= Seq::<(u64, Seq<CommitModel>)>::empty());
    while i < tail.slots.len()
        invariant
            i <= tail.slots@.len(),
            tail.gap_at is None,
            start == replay_start(view@, folded),
            q == slot_models(tail.slots@),
            replayed_tail(start, q.take(i as int), until) == Ok::<HeadState, Fault>(
                HeadState {
                    replay: ReplayModel { view: reached@, applied, stopped: false },
                    overlay: overlay@,
                    next_sequence,
                },
            ),
        decreases tail.slots.len() - i,
    {
        proof {
            let next = q.take(i + 1);
            assert(next.drop_last() =~= q.take(i as int));
            assert(next.last() == q[i as int]);
        }
        let sequence = tail.slots[i].0;
        match replay_slot(&mut reached, &tail.slots[i].1, sequence, until, applied) {
            Err(e) => {
                proof {
                    tail_refusal_stays(start, q, until, i + 1);
                }
                return Err(e);
            },
            Ok((done, stopped)) => {
                if stopped {
                    proof {
                        tail_stop_stays(start, q, until, i + 1);
                    }
                    return Ok(Replayed::Head(SlotHead { view: reached, overlay, next_sequence }));
                }
                applied = done;
            },
        }
        overlay.absorb(&tail.slots[i].1);
        next_sequence = sequence.saturating_add(1);
        i = i + 1;
    }
    assert(q.take(q.len() as int) =~= q);
    Ok(Replayed::Head(SlotHead { view: reached, overlay, next_sequence }))
}

/// A hole that a reader at the newest state of the store still sees: the slot
/// was destroyed, since nothing folded it.
pub open spec fn destroyed_slot(gap_at: u64, folded: u64) -> Fault {
    Fault::Corruption(
        around_two(
            "slot "@,
            gap_at,
            " is absent while higher slots are present, and the fold cursor "@,
            folded,
            " is below it: nothing folded that commit, so no truncation could have removed it"@,
        ),
    )
}

/// The head that a replay through a fresh reader gave, after a first replay
/// met a hole: the reader was behind, or the slot was destroyed.
pub fn retried_head(retried: Replayed) -> (r: Result<SlotHead, Error>)
    ensures
        match retried {
            Replayed::Head(head) => r == Ok::<SlotHead, Error>(head),
            Replayed::Hole { gap_at, folded } => refused(r, destroyed_slot(gap_at, folded)),
        },
{
    match retried {
        Replayed::Head(head) => Ok(head),
        Replayed::Hole { gap_at, folded } => Err(
            Error::Corruption(
                text_around_two(
                    "slot ",
                    gap_at,
                    " is absent while higher slots are present, and the fold cursor ",
                    folded,
                    " is below it: nothing folded that commit, so no truncation could have removed it",
                ),
            ),
        ),
    }
}

/// Where a view of a snapshot comes from.
#[derive(Debug, Clone, Copy, PartialEq, Eq, Structural)]
pub enum ViewSource {
    /// The store holds it.
    Store,
    /// The replay that was made.
    Replay,
}

/// Where a view of a snapshot is looked for first: in the store up to the head
/// that was folded into it, and in a replay above.
pub fn view_route(folded: &Option<HeadValue>, snapshot: u64) -> (r: Result<ViewSource, Error>)
    ensures
        match folded {
            None => refused(r, no_head()),
            Some(h) => r == Ok::<ViewSource, Error>(
                if snapshot <= h@.snapshot_id {
                    ViewSource::Store
                } else {
                    ViewSource::Replay
                },
            ),
        },
{
    match folded {
        None => Err(no_head_error()),
        Some(h) => {
            if snapshot <= h.snapshot_id {
                Ok(ViewSource::Store)
            } else {
                Ok(ViewSource::Replay)
            }
        },
    }
}

/// Where a view of a snapshot comes from once a replay went as far as it could:
/// the replay where it reached the snapshot, the store where it went past.
pub fn view_source(reached: u64, snapshot: u64) -> (r: Result<ViewSource, Error>)
    ensures
        if reached == snapshot {
            r == Ok::<ViewSource, Error>(ViewSource::Replay)
        } else if reached > snapshot {
            r == Ok::<ViewSource, Error>(ViewSource::Store)
        } else {
            refused(
                r,
                Fault::NotFound(around_two("snapshot "@, snapshot, " (head is "@, reached, ")"@)),
            )
        },
{
    if reached == snapshot {
        Ok(ViewSource::Replay)
    } else if reached > snapshot {
        Ok(ViewSource::Store)
    } else {
        Err(Error::NotFound(text_around_two("snapshot ", snapshot, " (head is ", reached, ")")))
    }
}

// ---------------------------------------------------------------------------
// Lost races
// ---------------------------------------------------------------------------

/// What a lost race means.
#[derive(Debug, Clone, Copy, PartialEq, Eq, Structural)]
pub enum Race {
    Benign,
    Conflict,
}

/// Whether a change conflicts with a commit of a slot.
pub open spec fn clashes(ours: ChangeModel, commits: Seq<CommitModel>) -> bool {
    exists|i: int|
        0 <= i < commits.len() && conflicting(ours, parsed((#[trigger] commits[i]).changes_made))
}

/// Judges a lost race by every commit of the slot that won. Changes that are
/// not known, on either side, are never benign.
pub fn classify_lost_race(ours: Option<&ChangeSet>, winner: &Envelope) -> (race: Race)
    ensures
        race == (match ours {
            None => Race::Conflict,
            Some(c) => if clashes(c@, winner.deep_view()) {
                Race::Conflict
            } else {
                Race::Benign
            },
        }),
{
    let own = match ours {
        None => return Race::Conflict,
        Some(own) => own,
    };
    let ghost q = winner.commits.deep_view();
    let mut i: usize = 0;
    while i < winner.commits.len()
        invariant
            i <= winner.commits@.len(),
            q == winner.commits.deep_view(),
            ours == Some(own),
            forall|j: int|
                0 <= j < i ==> !conflicting(own@, parsed((#[trigger] q[j]).changes_made)),
        decreases winner.commits.len() - i,
    {
        assert(q[i as int] == winner.commits@[i as int].deep_view());
        let theirs = ChangeSet::parse(winner.commits[i].payload.changes_made.as_str());
        if conflicts(own, &theirs) {
            assert(conflicting(own@, parsed(q[i as int].changes_made)));
            return Race::Conflict;
        }
        i = i + 1;
    }
    Race::Benign
}

} // verus!
