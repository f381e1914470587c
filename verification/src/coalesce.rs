//! Group commit: the commits that wait in one process share one slot. Each
//! member of a batch is assembled against the head that the members before it
//! leave, and the batch is written, and settled, as a whole.
use crate::api::SnapshotId;
use crate::catalog::{CatalogModel, CatalogSnapshot};
use crate::commit::{Prepared, PreparedModel};
use crate::error::{
    around, around_two, message, refused, text_around, text_around_two, Error, Fault,
};
use crate::fold::{fold_batch, with_writes, with_writes_until};
use crate::keys::WriteModel;
use crate::operations::{changes_text, ChangeModel, ChangeSet};
use crate::ordered::Record;
use crate::slots::{
    admission, admission_of, apply, clashes, classify_lost_race, commit_applied, commit_from,
    replayed_slot, writes_in, Admission, Commit, CommitModel, Envelope, Overlay, Race, ReplayModel,
};
use crate::text::{decimal, push_decimal, push_text};
use vstd::prelude::*;

verus! {

// ---------------------------------------------------------------------------
// Members
// ---------------------------------------------------------------------------

/// What one assembly of a member gave.
pub enum Product {
    /// A commit, by the snapshot that it leads to and what it changes.
    Staged { minted: u64, ours: ChangeSet },
    /// There is nothing to commit.
    Nothing,
    /// The member cannot commit.
    Failed(Error),
}

/// The model of [`Product`].
pub enum ProductModel {
    Staged { minted: u64, ours: ChangeModel },
    Nothing,
    Failed(Fault),
}

impl View for Product {
    type V = ProductModel;

    open spec fn view(&self) -> ProductModel {
        match *self {
            Product::Staged { minted, ours } => ProductModel::Staged { minted, ours: ours@ },
            Product::Nothing => ProductModel::Nothing,
            Product::Failed(e) => ProductModel::Failed(e@),
        }
    }
}

/// A result's model.
pub open spec fn outcome_model(r: Result<SnapshotId, Error>) -> Result<u64, Fault> {
    match r {
        Ok(id) => Ok(id.id),
        Err(e) => Err(e@),
    }
}

/// What a batch knows of one member.
pub struct MemberSlot {
    pub txid: [u8; 16],
    /// The snapshot that the member's last assembly leads to.
    pub minted: u64,
    /// Whether the member has a commit in the last round's envelope.
    pub staged: bool,
    /// The member's result, once it is out of the envelope for good.
    pub terminal: Option<Result<SnapshotId, Error>>,
}

/// The model of [`MemberSlot`].
pub struct SlotModel {
    pub txid: [u8; 16],
    pub minted: u64,
    pub staged: bool,
    pub terminal: Option<Result<u64, Fault>>,
}

impl View for MemberSlot {
    type V = SlotModel;

    open spec fn view(&self) -> SlotModel {
        SlotModel {
            txid: self.txid,
            minted: self.minted,
            staged: self.staged,
            terminal: match self.terminal {
                None => None,
                Some(r) => Some(outcome_model(r)),
            },
        }
    }
}

impl DeepView for MemberSlot {
    type V = SlotModel;

    open spec fn deep_view(&self) -> SlotModel {
        self.view()
    }
}

/// A member that has assembled nothing yet.
pub open spec fn fresh_slot(txid: [u8; 16]) -> SlotModel {
    SlotModel { txid, minted: 0, staged: false, terminal: None }
}

impl MemberSlot {
    pub fn new(txid: [u8; 16]) -> (s: Self)
        ensures
            s@ == fresh_slot(txid),
    {
        MemberSlot { txid, minted: 0, staged: false, terminal: None }
    }
}

/// A member with the product of one assembly.
pub open spec fn recorded(s: SlotModel, product: ProductModel, original_head: u64) -> SlotModel {
    match product {
        ProductModel::Staged { minted, ours } => SlotModel { minted, staged: true, ..s },
        ProductModel::Nothing => SlotModel {
            staged: false,
            terminal: Some(Ok(original_head)),
            ..s
        },
        ProductModel::Failed(f) => SlotModel { staged: false, terminal: Some(Err(f)), ..s },
    }
}

/// The changes of a round with the product of one assembly.
pub open spec fn with_changes(changes: Seq<ChangeModel>, product: ProductModel) -> Seq<ChangeModel> {
    match product {
        ProductModel::Staged { minted, ours } => changes.push(ours),
        _ => changes,
    }
}

/// Enters the product of one assembly into a member's slot and the round's
/// changes.
pub fn record(
    slot: &mut MemberSlot,
    product: Product,
    changes: &mut Vec<ChangeSet>,
    original_head: u64,
)
    ensures
        final(slot)@ == recorded(old(slot)@, product@, original_head),
        final(changes).deep_view() == with_changes(old(changes).deep_view(), product@),
{
    match product {
        Product::Staged { minted, ours } => {
            slot.minted = minted;
            slot.staged = true;
            let ghost before = changes.deep_view();
            changes.push(ours);
            assert(changes.deep_view() =~= before.push(ours@));
        },
        Product::Nothing => {
            slot.staged = false;
            slot.terminal = Some(Ok(SnapshotId::new(original_head)));
        },
        Product::Failed(err) => {
            slot.staged = false;
            slot.terminal = Some(Err(err));
        },
    }
}

// ---------------------------------------------------------------------------
// Settling
// ---------------------------------------------------------------------------

/// How the race of a batch for its slot ended.
#[derive(Debug, PartialEq, Eq)]
pub enum CommitDrive {
    Committed { sequence: u64 },
    Nothing,
    Conflict { sequence: u64 },
    Exhausted { attempts: usize, last_sequence: u64 },
    Unavailable { attempts: usize, last_sequence: u64, last_error: String },
}

/// What a batch came to.
#[derive(Debug, PartialEq, Eq)]
pub enum Verdict {
    Committed,
    Nothing,
    Conflict { sequence: u64 },
    Exhausted { attempts: usize, last_sequence: u64 },
    Unavailable { attempts: usize, last_sequence: u64, last_error: String },
    Failed(String),
}

/// The model of [`Verdict`].
pub enum VerdictModel {
    Committed,
    Nothing,
    Conflict { sequence: u64 },
    Exhausted { attempts: usize, last_sequence: u64 },
    Unavailable { attempts: usize, last_sequence: u64, last_error: Seq<char> },
    Failed(Seq<char>),
}

impl View for Verdict {
    type V = VerdictModel;

    open spec fn view(&self) -> VerdictModel {
        match *self {
            Verdict::Committed => VerdictModel::Committed,
            Verdict::Nothing => VerdictModel::Nothing,
            Verdict::Conflict { sequence } => VerdictModel::Conflict { sequence },
            Verdict::Exhausted { attempts, last_sequence } => VerdictModel::Exhausted {
                attempts,
                last_sequence,
            },
            Verdict::Unavailable { attempts, last_sequence, last_error } => VerdictModel::Unavailable {
                attempts,
                last_sequence,
                last_error: last_error@,
            },
            Verdict::Failed(text) => VerdictModel::Failed(text@),
        }
    }
}

/// The verdict on a drive.
pub open spec fn verdict_of(drive: Result<CommitDrive, Error>) -> VerdictModel {
    match drive {
        Ok(CommitDrive::Committed { sequence }) => VerdictModel::Committed,
        Ok(CommitDrive::Nothing) => VerdictModel::Nothing,
        Ok(CommitDrive::Conflict { sequence }) => VerdictModel::Conflict { sequence },
        Ok(CommitDrive::Exhausted { attempts, last_sequence }) => VerdictModel::Exhausted {
            attempts,
            last_sequence,
        },
        Ok(CommitDrive::Unavailable { attempts, last_sequence, last_error }) => {
            VerdictModel::Unavailable { attempts, last_sequence, last_error: last_error@ }
        },
        Err(e) => VerdictModel::Failed(message(e@)),
    }
}

impl Verdict {
    pub fn of(drive: &Result<CommitDrive, Error>) -> (v: Self)
        ensures
            v@ == verdict_of(*drive),
    {
        match drive {
            Ok(CommitDrive::Committed { .. }) => Verdict::Committed,
            Ok(CommitDrive::Nothing) => Verdict::Nothing,
            Ok(CommitDrive::Conflict { sequence }) => Verdict::Conflict { sequence: *sequence },
            Ok(CommitDrive::Exhausted { attempts, last_sequence }) => Verdict::Exhausted {
                attempts: *attempts,
                last_sequence: *last_sequence,
            },
            Ok(CommitDrive::Unavailable { attempts, last_sequence, last_error }) => {
                Verdict::Unavailable {
                    attempts: *attempts,
                    last_sequence: *last_sequence,
                    last_error: last_error.dup(),
                }
            },
            Err(err) => Verdict::Failed(err.message()),
        }
    }
}

/// An error as it is handed to a second member: the kinds that a member's own
/// work gives stay what they are, and any other is a corruption that says what
/// the error says.
pub open spec fn shared_fault(f: Fault) -> Fault {
    match f {
        Fault::CommitConflict(t) => f,
        Fault::RetryBudgetExhausted(t) => f,
        Fault::NotFound(t) => f,
        Fault::AlreadyExists(t) => f,
        Fault::Constraint(t) => f,
        Fault::IndexBuilding(t) => f,
        Fault::SlotLog(t) => f,
        Fault::Corruption(t) => Fault::Corruption(message(f)),
        Fault::SnapshotExpired(t) => Fault::Corruption(message(f)),
        Fault::Migration(t) => Fault::Corruption(message(f)),
        Fault::Fenced(t) => Fault::Corruption(message(f)),
        Fault::Store(t) => Fault::Corruption(message(f)),
    }
}

/// Makes an error again, to hand it to a second member.
pub fn clone_error(err: &Error) -> (e: Error)
    ensures
        e@ == shared_fault(err@),
{
    match err {
        Error::CommitConflict(text) => Error::CommitConflict(text.dup()),
        Error::RetryBudgetExhausted(text) => Error::RetryBudgetExhausted(text.dup()),
        Error::NotFound(text) => Error::NotFound(text.dup()),
        Error::AlreadyExists(text) => Error::AlreadyExists(text.dup()),
        Error::Constraint(text) => Error::Constraint(text.dup()),
        Error::IndexBuilding(text) => Error::IndexBuilding(text.dup()),
        Error::SlotLog(text) => Error::SlotLog(text.dup()),
        other => Error::Corruption(other.message()),
    }
}

/// A member's outcome: its own result where it left the envelope, else what
/// the batch came to.
pub open spec fn outcome(s: SlotModel, verdict: VerdictModel, original_head: u64) -> Result<
    u64,
    Fault,
> {
    match s.terminal {
        Some(Ok(id)) => Ok(id),
        Some(Err(f)) => Err(shared_fault(f)),
        None => match verdict {
            VerdictModel::Committed => Ok(s.minted),
            VerdictModel::Nothing => Ok(original_head),
            VerdictModel::Conflict { sequence } => Err(
                Fault::CommitConflict(
                    around_two(
                        "a concurrent commit won slot "@,
                        sequence,
                        " from head snapshot "@,
                        original_head,
                        " and conflicts with this transaction"@,
                    ),
                ),
            ),
            VerdictModel::Exhausted { attempts, last_sequence } => Err(
                Fault::RetryBudgetExhausted(
                    around_two(
                        "spent "@,
                        attempts as u64,
                        " attempts from head snapshot "@,
                        original_head,
                        " without settling; last raced slot "@,
                    ) + decimal(last_sequence as nat),
                ),
            ),
            VerdictModel::Unavailable { attempts, last_sequence, last_error } => Err(
                Fault::SlotLog(
                    around_two(
                        "commit-slot log unreachable after "@,
                        attempts as u64,
                        " attempts from head snapshot "@,
                        original_head,
                        " (last raced slot "@,
                    ) + around(""@, last_sequence, "): "@) + last_error,
                ),
            ),
            VerdictModel::Failed(text) => Err(Fault::Corruption(text)),
        },
    }
}

/// Gives a member's outcome.
pub fn outcome_for(slot: &MemberSlot, verdict: &Verdict, original_head: u64) -> (r: Result<
    SnapshotId,
    Error,
>)
    ensures
        outcome_model(r) == outcome(slot@, verdict@, original_head),
{
    match &slot.terminal {
        Some(Ok(id)) => return Ok(*id),
        Some(Err(err)) => return Err(clone_error(err)),
        None => {},
    }
    match verdict {
        Verdict::Committed => Ok(SnapshotId::new(slot.minted)),
        Verdict::Nothing => Ok(SnapshotId::new(original_head)),
        Verdict::Conflict { sequence } => Err(
            Error::CommitConflict(
                text_around_two(
                    "a concurrent commit won slot ",
                    *sequence,
                    " from head snapshot ",
                    original_head,
                    " and conflicts with this transaction",
                ),
            ),
        ),
        Verdict::Exhausted { attempts, last_sequence } => {
            let mut t = text_around_two(
                "spent ",
                *attempts as u64,
                " attempts from head snapshot ",
                original_head,
                " without settling; last raced slot ",
            );
            push_decimal(&mut t, *last_sequence);
            Err(Error::RetryBudgetExhausted(t))
        },
        Verdict::Unavailable { attempts, last_sequence, last_error } => {
            let mut t = text_around_two(
                "commit-slot log unreachable after ",
                *attempts as u64,
                " attempts from head snapshot ",
                original_head,
                " (last raced slot ",
            );
            push_text(&mut t, &text_around("", *last_sequence, "): "));
            push_text(&mut t, last_error);
            Err(Error::SlotLog(t))
        },
        Verdict::Failed(text) => Err(Error::Corruption(text.dup())),
    }
}

// ---------------------------------------------------------------------------
// Chaining
// ---------------------------------------------------------------------------

/// The head that the members of a round chain onto: each member's batch is
/// applied before the next is assembled.
pub struct Accum {
    pub view: CatalogSnapshot,
    pub overlay: Overlay,
    pub commits: Vec<Commit>,
}

/// The model of [`Accum`].
#[verifier::ext_equal]
pub struct AccumModel {
    pub view: CatalogModel,
    pub overlay: Seq<WriteModel>,
    pub commits: Seq<CommitModel>,
}

impl View for Accum {
    type V = AccumModel;

    open spec fn view(&self) -> AccumModel {
        AccumModel {
            view: self.view@,
            overlay: self.overlay@,
            commits: self.commits.deep_view(),
        }
    }
}

/// The commit of an attempt.
pub open spec fn commit_of(
    txid: [u8; 16],
    ours: ChangeModel,
    head_before: u64,
    writes: Seq<WriteModel>,
) -> CommitModel {
    CommitModel {
        transaction_id: txid,
        validated_head: head_before,
        changes_made: changes_text(ours),
        writes,
    }
}

/// The round with an attempt chained on. One whose batch is refused adds no
/// commit, and leaves in the view what its writes before the refused one did.
pub open spec fn chained(a: AccumModel, txid: [u8; 16], prepared: Result<PreparedModel, Fault>) -> (
    AccumModel,
    ProductModel,
) {
    match prepared {
        Err(f) => (a, ProductModel::Failed(f)),
        Ok(PreparedModel::Nothing { head }) => (a, ProductModel::Nothing),
        Ok(PreparedModel::Staged { ours, head_before, commits, writes }) => match with_writes(
            a.view,
            writes,
        ) {
            Err(f) => (
                AccumModel { view: with_writes_until(a.view, writes), ..a },
                ProductModel::Failed(
                    Fault::Corruption(
                        "a coalesced commit could not chain onto its batch: "@ + message(f),
                    ),
                ),
            ),
            Ok(view) => (
                AccumModel {
                    view,
                    overlay: a.overlay + writes,
                    commits: a.commits.push(commit_of(txid, ours, head_before, writes)),
                },
                ProductModel::Staged { minted: commits, ours },
            ),
        },
    }
}

/// The model of an attempt's result.
pub open spec fn prepared_model(r: Result<Prepared, Error>) -> Result<PreparedModel, Fault> {
    match r {
        Ok(p) => Ok(p@),
        Err(e) => Err(e@),
    }
}

/// Chains a member's attempt onto the round.
pub fn chain(accum: &mut Accum, txid: [u8; 16], prepared: Result<Prepared, Error>) -> (product: Product)
    ensures
        (final(accum)@, product@) == chained(old(accum)@, txid, prepared_model(prepared)),
{
    match prepared {
        Err(err) => Product::Failed(err),
        Ok(Prepared::Nothing { .. }) => Product::Nothing,
        Ok(Prepared::Staged { ours, head_before, commits, writes }) => {
            match fold_batch(&mut accum.view, &writes) {
                Err(err) => {
                    let mut t = String::new();
                    push_text(&mut t, "a coalesced commit could not chain onto its batch: ");
                    push_text(&mut t, &err.message());
                    assert(t@ =~= "a coalesced commit could not chain onto its batch: "@ + message(
                        err@,
                    ));
                    return Product::Failed(Error::Corruption(t));
                },
                Ok(()) => {},
            }
            let commit = commit_from(txid, head_before, ours.to_changes_made(), &writes);
            let ghost made = commit@;
            let mut one: Vec<Commit> = Vec::new();
            one.push(commit.dup());
            let folded = Envelope { commits: one };
            proof {
                let q = folded.deep_view();
                assert(q =~= seq![made]);
                assert(q.drop_last() =~= Seq::<CommitModel>::empty());
                reveal_with_fuel(writes_in, 2);
                assert(writes_in(q) =~= writes.deep_view());
            }
            accum.overlay.absorb(&folded);
            let ghost before = accum.commits.deep_view();
            accum.commits.push(commit);
            assert(accum.commits.deep_view() =~= before.push(made));
            Product::Staged { minted: commits, ours }
        },
    }
}

/// Whether a round replays: a reader who meets the round's commits in one slot
/// on top of `base` applies every one of them, and reaches the round's own view.
pub open spec fn replays(base: CatalogModel, a: AccumModel, sequence: u64) -> bool {
    replayed_slot(
        ReplayModel { view: base, applied: false, stopped: false },
        a.commits,
        sequence,
        None,
    ) == Ok::<ReplayModel, Fault>(
        ReplayModel { view: a.view, applied: a.commits.len() > 0, stopped: false },
    )
}

/// A round without members replays.
pub proof fn empty_round_replays(base: CatalogModel, overlay: Seq<WriteModel>, sequence: u64)
    ensures
        replays(base, (AccumModel { view: base, overlay, commits: Seq::empty() }), sequence),
{
}

/// A round that replays still does with one more member chained on, where the
/// member was assembled against the round's view.
pub proof fn chained_round_replays(
    base: CatalogModel,
    a: AccumModel,
    sequence: u64,
    txid: [u8; 16],
    prepared: Result<PreparedModel, Fault>,
)
    requires
        replays(base, a, sequence),
        prepared matches Ok(PreparedModel::Staged { head_before, .. }) ==> head_before
            == a.view.snapshot.snapshot_id,
        prepared matches Ok(PreparedModel::Staged { writes, .. }) ==> with_writes(
            a.view,
            writes,
        ) is Ok,
    ensures
        replays(base, chained(a, txid, prepared).0, sequence),
{
    match prepared {
        Ok(PreparedModel::Staged { ours, head_before, commits, writes }) => {
            let next = chained(a, txid, prepared).0;
            assert(next.commits.drop_last() =~= a.commits);
            assert(next.commits.last() == commit_of(txid, ours, head_before, writes));
        },
        _ => {},
    }
}

// ---------------------------------------------------------------------------
// Batches
// ---------------------------------------------------------------------------

/// A batch: its members, and the head that they are assembled against.
pub struct Batch {
    pub leader: MemberSlot,
    pub followers: Vec<MemberSlot>,
    pub view: CatalogSnapshot,
    pub overlay: Overlay,
    /// The head that the batch started from.
    pub original_head: u64,
    /// What the members of the last round change.
    pub last_changes: Vec<ChangeSet>,
}

/// Slots for members that join.
pub open spec fn fresh_slots(txids: Seq<[u8; 16]>) -> Seq<SlotModel> {
    Seq::new(txids.len(), |i: int| fresh_slot(txids[i]))
}

/// Whether some change of a round conflicts with a slot.
pub open spec fn round_clashes(changes: Seq<ChangeModel>, commits: Seq<CommitModel>) -> bool {
    exists|i: int| 0 <= i < changes.len() && clashes(#[trigger] changes[i], commits)
}

/// A view with the commits of a slot that won.
pub open spec fn absorbed(m: CatalogModel, commits: Seq<CommitModel>, sequence: u64) -> Result<
    CatalogModel,
    Fault,
>
    decreases commits.len(),
{
    if commits.len() == 0 {
        Ok(m)
    } else {
        match absorbed(m, commits.drop_last(), sequence) {
            Err(f) => Err(f),
            Ok(view) => match admission(
                view.snapshot.snapshot_id,
                commits.last().validated_head,
                sequence,
            ) {
                Err(f) => Err(f),
                Ok(Admission::Apply) => commit_applied(view, commits.last(), sequence),
                Ok(Admission::Skip) => Ok(view),
            },
        }
    }
}

/// The view that a slot leaves behind where it is refused: with the commits
/// before the refused one, and of that one the writes before the refused one.
pub open spec fn absorbed_until(m: CatalogModel, commits: Seq<CommitModel>, sequence: u64) -> CatalogModel
    decreases commits.len(),
{
    if commits.len() == 0 {
        m
    } else {
        match absorbed(m, commits.drop_last(), sequence) {
            Err(_) => absorbed_until(m, commits.drop_last(), sequence),
            Ok(view) => match admission(
                view.snapshot.snapshot_id,
                commits.last().validated_head,
                sequence,
            ) {
                Ok(Admission::Apply) => with_writes_until(view, commits.last().writes),
                _ => view,
            },
        }
    }
}

proof fn absorbed_refusal_stays(m: CatalogModel, commits: Seq<CommitModel>, sequence: u64, n: int)
    requires
        0 <= n <= commits.len(),
        absorbed(m, commits.take(n), sequence) is Err,
    ensures
        absorbed(m, commits, sequence) == absorbed(m, commits.take(n), sequence),
        absorbed_until(m, commits, sequence) == absorbed_until(m, commits.take(n), sequence),
    decreases commits.len(),
{
    if n == commits.len() {
        assert(commits.take(n) =~= commits);
    } else {
        assert(commits.drop_last().take(n) =~= commits.take(n));
        absorbed_refusal_stays(m, commits.drop_last(), sequence, n);
    }
}

impl Batch {
    /// Starts a batch at a head, with its leader alone.
    pub fn new(leader: [u8; 16], view: CatalogSnapshot, overlay: Overlay) -> (b: Self)
        ensures
            b.leader@ == fresh_slot(leader),
            b.followers@.len() == 0,
            b.view@ == view@,
            b.overlay@ == overlay@,
            b.original_head == view@.snapshot.snapshot_id,
            b.last_changes@.len() == 0,
    {
        let original_head = view.snapshot.snapshot_id;
        Batch {
            leader: MemberSlot::new(leader),
            followers: Vec::new(),
            view,
            overlay,
            original_head,
            last_changes: Vec::new(),
        }
    }

    /// Starts a round: takes in who has joined, and gives the head to chain
    /// onto.
    pub fn begin_round(&mut self, joiners: &Vec<[u8; 16]>) -> (accum: Accum)
        ensures
            final(self).followers.deep_view() == old(self).followers.deep_view() + fresh_slots(
                joiners@,
            ),
            final(self).last_changes@.len() == 0,
            final(self).leader@ == old(self).leader@,
            final(self).view@ == old(self).view@,
            final(self).overlay@ == old(self).overlay@,
            final(self).original_head == old(self).original_head,
            accum@ == (AccumModel {
                view: old(self).view@,
                overlay: old(self).overlay@,
                commits: Seq::empty(),
            }),
    {
        let ghost before = self.followers.deep_view();
        let mut i: usize = 0;
        assert(before + fresh_slots(joiners@.take(0)) =~= before);
        while i < joiners.len()
            invariant
                i <= joiners@.len(),
                self.followers.deep_view() == before + fresh_slots(joiners@.take(i as int)),
                self.leader@ == old(self).leader@,
                self.view@ == old(self).view@,
                self.overlay@ == old(self).overlay@,
                self.original_head == old(self).original_head,
            decreases joiners.len() - i,
        {
            let ghost held = self.followers.deep_view();
            self.followers.push(MemberSlot::new(joiners[i]));
            proof {
                assert(self.followers.deep_view() =~= held.push(fresh_slot(joiners@[i as int])));
                assert(fresh_slots(joiners@.take(i + 1)) =~= fresh_slots(
                    joiners@.take(i as int),
                ).push(fresh_slot(joiners@[i as int])));
                assert(self.followers.deep_view() =~= before + fresh_slots(joiners@.take(i + 1)));
            }
            i = i + 1;
        }
        assert(joiners@.take(joiners@.len() as int) =~= joiners@);
        self.last_changes = Vec::new();
        let accum = Accum {
            view: self.view.clone(),
            overlay: self.overlay.clone(),
            commits: Vec::new(),
        };
        assert(accum@.commits =~= Seq::<CommitModel>::empty());
        accum
    }

    /// Enters the leader's product.
    pub fn record_leader(&mut self, product: Product)
        ensures
            final(self).leader@ == recorded(old(self).leader@, product@, old(self).original_head),
            final(self).last_changes.deep_view() == with_changes(
                old(self).last_changes.deep_view(),
                product@,
            ),
            final(self).followers == old(self).followers,
            final(self).view == old(self).view,
            final(self).overlay == old(self).overlay,
            final(self).original_head == old(self).original_head,
    {
        let original_head = self.original_head;
        record(&mut self.leader, product, &mut self.last_changes, original_head);
    }

    /// Enters a follower's product.
    pub fn record_follower(&mut self, index: usize, product: Product)
        requires
            index < old(self).followers@.len(),
        ensures
            final(self).followers.deep_view() == old(self).followers.deep_view().update(
                index as int,
                recorded(old(self).followers@[index as int]@, product@, old(self).original_head),
            ),
            final(self).last_changes.deep_view() == with_changes(
                old(self).last_changes.deep_view(),
                product@,
            ),
            final(self).leader == old(self).leader,
            final(self).view == old(self).view,
            final(self).overlay == old(self).overlay,
            final(self).original_head == old(self).original_head,
    {
        let original_head = self.original_head;
        let ghost before = self.followers.deep_view();
        let ghost changed = recorded(self.followers@[index as int]@, product@, original_head);
        record(&mut self.followers[index], product, &mut self.last_changes, original_head);
        assert(self.followers.deep_view() =~= before.update(index as int, changed));
    }

    /// Judges a lost race by what any member of the round changes.
    pub fn classify(&self, winner: &Envelope) -> (race: Race)
        ensures
            race == (if round_clashes(self.last_changes.deep_view(), winner.deep_view()) {
                Race::Conflict
            } else {
                Race::Benign
            }),
    {
        let ghost q = self.last_changes.deep_view();
        let mut i: usize = 0;
        while i < self.last_changes.len()
            invariant
                i <= self.last_changes@.len(),
                q == self.last_changes.deep_view(),
                forall|j: int| 0 <= j < i ==> !clashes(#[trigger] q[j], winner.deep_view()),
            decreases self.last_changes.len() - i,
        {
            assert(q[i as int] == self.last_changes@[i as int].deep_view());
            match classify_lost_race(Some(&self.last_changes[i]), winner) {
                Race::Conflict => {
                    return Race::Conflict;
                },
                Race::Benign => {},
            }
            i = i + 1;
        }
        Race::Benign
    }

    /// Takes in the slot that won a benign race. Where it is refused, the view
    /// has taken in what came before the refusal, and the overlay nothing.
    pub fn absorb(&mut self, sequence: u64, winner: &Envelope) -> (r: Result<(), Error>)
        ensures
            match absorbed(old(self).view@, winner.deep_view(), sequence) {
                Err(f) => refused(r, f) && final(self).view@ == absorbed_until(
                    old(self).view@,
                    winner.deep_view(),
                    sequence,
                ) && final(self).overlay == old(self).overlay,
                Ok(m) => r is Ok && final(self).view@ == m && final(self).overlay@ == old(
                    self,
                ).overlay@ + writes_in(winner.deep_view()),
            },
            final(self).leader == old(self).leader,
            final(self).followers == old(self).followers,
            final(self).last_changes == old(self).last_changes,
            final(self).original_head == old(self).original_head,
    {
        let ghost start = self.view@;
        let ghost q = winner.commits.deep_view();
        let mut i: usize = 0;
        assert(q.take(0) =~= Seq::<CommitModel>::empty());
        while i < winner.commits.len()
            invariant
                i <= winner.commits@.len(),
                q == winner.commits.deep_view(),
                start == old(self).view@,
                absorbed(start, q.take(i as int), sequence) == Ok::<CatalogModel, Fault>(self.view@),
                self.overlay == old(self).overlay,
                self.leader == old(self).leader,
                self.followers == old(self).followers,
                self.last_changes == old(self).last_changes,
                self.original_head == old(self).original_head,
            decreases winner.commits.len() - i,
        {
            proof {
                let next = q.take(i + 1);
                assert(next.drop_last() =~= q.take(i as int));
                assert(next.last() == winner.commits@[i as int].deep_view());
            }
            match admission_of(&self.view, &winner.commits[i], sequence) {
                Err(e) => {
                    proof {
                        absorbed_refusal_stays(start, q, sequence, i + 1);
                    }
                    return Err(e);
                },
                Ok(Admission::Apply) => {
                    match apply(&mut self.view, &winner.commits[i], sequence) {
                        Err(e) => {
                            proof {
                                absorbed_refusal_stays(start, q, sequence, i + 1);
                            }
                            return Err(e);
                        },
                        Ok(()) => {},
                    }
                },
                Ok(Admission::Skip) => {},
            }
            i = i + 1;
        }
        assert(q.take(q.len() as int) =~= q);
        self.overlay.absorb(winner);
        Ok(())
    }

    /// Gives the outcome of the leader and those of the followers, in the order
    /// in which they joined.
    pub fn settle(&self, drive: &Result<CommitDrive, Error>) -> (r: (
        Result<SnapshotId, Error>,
        Vec<Result<SnapshotId, Error>>,
    ))
        ensures
            outcome_model(r.0) == outcome(self.leader@, verdict_of(*drive), self.original_head),
            r.1@.len() == self.followers@.len(),
            forall|i: int|
                0 <= i < r.1@.len() ==> outcome_model(#[trigger] r.1@[i]) == outcome(
                    self.followers@[i]@,
                    verdict_of(*drive),
                    self.original_head,
                ),
    {
        let verdict = Verdict::of(drive);
        let leader = outcome_for(&self.leader, &verdict, self.original_head);
        let mut outcomes: Vec<Result<SnapshotId, Error>> = Vec::new();
        let mut i: usize = 0;
        while i < self.followers.len()
            invariant
                i <= self.followers@.len(),
                outcomes@.len() == i,
                verdict@ == verdict_of(*drive),
                forall|j: int|
                    0 <= j < i ==> outcome_model(#[trigger] outcomes@[j]) == outcome(
                        self.followers@[j]@,
                        verdict_of(*drive),
                        self.original_head,
                    ),
            decreases self.followers.len() - i,
        {
            outcomes.push(outcome_for(&self.followers[i], &verdict, self.original_head));
            i = i + 1;
        }
        (leader, outcomes)
    }
}

/// The envelope of a round, if any member has a commit in it.
pub fn round_envelope(accum: Accum) -> (e: Option<Envelope>)
    ensures
        match e {
            None => accum@.commits.len() == 0,
            Some(envelope) => accum@.commits.len() > 0 && envelope.deep_view() == accum@.commits,
        },
{
    if accum.commits.len() == 0 {
        None
    } else {
        Some(Envelope { commits: accum.commits })
    }
}

/// Refuses to commit through a catalog that is attached for reading.
pub fn check_writable(read_only: bool) -> (r: Result<(), Error>)
    ensures
        if read_only {
            refused(
                r,
                Fault::Constraint("catalog attached read-only; writes are unavailable"@),
            )
        } else {
            r is Ok
        },
{
    if read_only {
        let mut t = String::new();
        push_text(&mut t, "catalog attached read-only; writes are unavailable");
        assert(t@ =~= "catalog attached read-only; writes are unavailable"@);
        Err(Error::Constraint(t))
    } else {
        Ok(())
    }
}

// ---------------------------------------------------------------------------
// The queue
// ---------------------------------------------------------------------------

/// Who waits for a batch, and whether one is being driven.
pub struct Queue {
    pub waiting: Vec<u64>,
    pub driving: bool,
}

/// The model of [`Queue`].
#[verifier::ext_equal]
pub struct QueueModel {
    pub waiting: Seq<u64>,
    pub driving: bool,
}

impl View for Queue {
    type V = QueueModel;

    open spec fn view(&self) -> QueueModel {
        QueueModel { waiting: self.waiting@, driving: self.driving }
    }
}

/// Whether someone leads wherever someone waits.
pub open spec fn is_led(q: QueueModel) -> bool {
    q.waiting.len() > 0 ==> q.driving
}

/// A queue that a member has joined.
pub open spec fn joined(q: QueueModel, member: u64) -> QueueModel {
    QueueModel { waiting: q.waiting.push(member), driving: true }
}

/// Everyone but one member.
pub open spec fn others(leader: u64) -> spec_fn(u64) -> bool {
    |m: u64| m != leader
}

/// A queue that its leader has left.
pub open spec fn left(q: QueueModel, leader: u64) -> QueueModel {
    QueueModel { waiting: q.waiting.filter(others(leader)), ..q }
}

/// A queue whose members have all been taken into a batch.
pub open spec fn drained(q: QueueModel) -> QueueModel {
    QueueModel { waiting: Seq::empty(), ..q }
}

/// A queue whose batch is done: the first who waits leads the next.
pub open spec fn handed_on(q: QueueModel) -> QueueModel {
    if q.waiting.len() == 0 {
        QueueModel { driving: false, ..q }
    } else {
        QueueModel { waiting: q.waiting.skip(1), ..q }
    }
}

/// Nobody ever waits without a leader: joining, leaving, being taken in and
/// handing on all keep one wherever someone waits.
pub proof fn waiting_members_are_led(q: QueueModel, member: u64)
    requires
        is_led(q),
    ensures
        is_led(joined(q, member)),
        is_led(left(q, member)),
        is_led(drained(q)),
        is_led(handed_on(q)),
{
    q.waiting.lemma_filter_len(others(member));
}

impl Queue {
    pub fn new() -> (q: Self)
        ensures
            q@ == (QueueModel { waiting: Seq::empty(), driving: false }),
    {
        let q = Queue { waiting: Vec::new(), driving: false };
        assert(q@ =~= (QueueModel { waiting: Seq::empty(), driving: false }));
        q
    }

    /// Joins, and says whether to lead a new batch.
    pub fn join(&mut self, member: u64) -> (lead: bool)
        ensures
            lead == !old(self)@.driving,
            final(self)@ == joined(old(self)@, member),
    {
        self.waiting.push(member);
        let lead = !self.driving;
        self.driving = true;
        lead
    }

    /// Takes the leader out, who is no follower of its own batch.
    pub fn leave(&mut self, leader: u64)
        ensures
            final(self)@ == left(old(self)@, leader),
    {
        let ghost q = self.waiting@;
        let mut kept: Vec<u64> = Vec::new();
        let mut i: usize = 0;
        proof {
            assert(q.take(0) =~= Seq::<u64>::empty());
            reveal(Seq::filter);
        }
        while i < self.waiting.len()
            invariant
                i <= self.waiting@.len(),
                q == self.waiting@,
                self.driving == old(self).driving,
                kept@ == q.take(i as int).filter(others(leader)),
            decreases self.waiting.len() - i,
        {
            let member = self.waiting[i];
            proof {
                let next = q.take(i + 1);
                assert(next.drop_last() =~= q.take(i as int));
                assert(next.last() == member);
                reveal(Seq::filter);
            }
            if member != leader {
                kept.push(member);
            }
            i = i + 1;
        }
        assert(q.take(q.len() as int) =~= q);
        self.waiting = kept;
    }

    /// Takes everyone who waits into the batch, in the order in which they came.
    pub fn drain(&mut self) -> (members: Vec<u64>)
        ensures
            members@ == old(self)@.waiting,
            final(self)@ == drained(old(self)@),
    {
        let mut members: Vec<u64> = Vec::new();
        std::mem::swap(&mut members, &mut self.waiting);
        assert(self@.waiting =~= Seq::<u64>::empty());
        members
    }

    /// Ends a batch: gives the member who leads the next one, or stops driving.
    pub fn hand_on(&mut self) -> (next: Option<u64>)
        ensures
            next == (if old(self)@.waiting.len() == 0 {
                None
            } else {
                Some(old(self)@.waiting[0])
            }),
            final(self)@ == handed_on(old(self)@),
    {
        if self.waiting.len() == 0 {
            self.driving = false;
            None
        } else {
            let first = self.waiting.remove(0);
            assert(self@.waiting =~= old(self)@.waiting.skip(1));
            Some(first)
        }
    }
}

/// What a member was last told.
#[derive(Debug, Clone, Copy, PartialEq, Eq, Structural)]
pub enum Directive {
    Idle,
    Lead,
    Assemble,
    Settle,
}

/// What a member and its batch hand each other.
pub struct MemberCell {
    pub directive: Directive,
    pub product: Option<Product>,
    pub outcome: Option<Result<SnapshotId, Error>>,
}

impl MemberCell {
    pub fn new() -> (c: Self)
        ensures
            c.directive == Directive::Idle,
            c.product is None,
            c.outcome is None,
    {
        MemberCell { directive: Directive::Idle, product: None, outcome: None }
    }

    /// Tells the member what to do. A product of an earlier round is dropped.
    pub fn direct(&mut self, directive: Directive)
        ensures
            final(self).directive == directive,
            final(self).product is None,
            final(self).outcome == old(self).outcome,
    {
        self.product = None;
        self.directive = directive;
    }

    /// Takes what the member was told; it is idle then.
    pub fn take_directive(&mut self) -> (d: Directive)
        ensures
            d == old(self).directive,
            final(self).directive == Directive::Idle,
            final(self).product == old(self).product,
            final(self).outcome == old(self).outcome,
    {
        let d = self.directive;
        self.directive = Directive::Idle;
        d
    }

    /// Hands in what the member assembled.
    pub fn produce(&mut self, product: Product)
        ensures
            final(self).product == Some(product),
            final(self).directive == old(self).directive,
            final(self).outcome == old(self).outcome,
    {
        self.product = Some(product);
    }

    /// Takes what the member assembled.
    pub fn take_product(&mut self) -> (product: Option<Product>)
        ensures
            product == old(self).product,
            final(self).product is None,
            final(self).directive == old(self).directive,
            final(self).outcome == old(self).outcome,
    {
        self.product.take()
    }

    /// Hands the member its outcome.
    pub fn settle(&mut self, outcome: Result<SnapshotId, Error>)
        ensures
            final(self).outcome == Some(outcome),
            final(self).directive == Directive::Settle,
            final(self).product == old(self).product,
    {
        self.outcome = Some(outcome);
        self.directive = Directive::Settle;
    }

    /// Takes the outcome that the member was handed.
    pub fn take_outcome(&mut self) -> (r: Result<SnapshotId, Error>)
        ensures
            match old(self).outcome {
                Some(given) => r == given,
                None => refused(
                    r,
                    Fault::Corruption("a coalesced commit was settled with no outcome"@),
                ),
            },
            final(self).outcome is None,
            final(self).directive == old(self).directive,
            final(self).product == old(self).product,
    {
        match self.outcome.take() {
            Some(given) => given,
            None => {
                let mut t = String::new();
                push_text(&mut t, "a coalesced commit was settled with no outcome");
                assert(t@ =~= "a coalesced commit was settled with no outcome"@);
                Err(Error::Corruption(t))
            },
        }
    }
}

/// Where a slot that won cannot be absorbed, what is folded is the commits before
/// the one that breaks it, and the writes of that one up to the refused one.
pub proof fn broken_slots_leave_those_before(
    m: CatalogModel,
    commits: Seq<CommitModel>,
    sequence: u64,
) -> (n: int)
    ensures
        0 <= n <= commits.len(),
        absorbed(m, commits.take(n), sequence) is Ok,
        n == commits.len() ==> absorbed_until(m, commits, sequence) == absorbed(
            m,
            commits,
            sequence,
        )->Ok_0,
        n < commits.len() ==> absorbed(m, commits.take(n + 1), sequence) is Err && ({
            let view = absorbed(m, commits.take(n), sequence)->Ok_0;
            absorbed_until(m, commits, sequence) == (if commits[n].validated_head
                == view.snapshot.snapshot_id {
                with_writes_until(view, commits[n].writes)
            } else {
                view
            })
        }),
    decreases commits.len(),
{
    if commits.len() == 0 {
        assert(commits.take(0) =~= commits);
        0
    } else {
        let front = commits.drop_last();
        let n = broken_slots_leave_those_before(m, front, sequence);
        assert(front.take(n) =~= commits.take(n));
        if n < front.len() {
            assert(front.take(n + 1) =~= commits.take(n + 1));
            assert(front[n] == commits[n]);
            absorbed_refusal_stays(m, front, sequence, n + 1);
            n
        } else {
            assert(front.take(n) =~= front);
            assert(commits.take(n + 1) =~= commits);
            assert(commits[n] == commits.last());
            if absorbed(m, commits, sequence) is Ok {
                let view = absorbed(m, front, sequence)->Ok_0;
                folded_writes_leave_all(view, commits.last().writes);
                n + 1
            } else {
                n
            }
        }
    }
}

proof fn folded_writes_leave_all(m: CatalogModel, writes: Seq<WriteModel>)
    ensures
        with_writes(m, writes) is Ok ==> with_writes_until(m, writes) == with_writes(m, writes)->Ok_0,
    decreases writes.len(),
{
    if writes.len() > 0 {
        folded_writes_leave_all(m, writes.drop_last());
    }
}

} // verus!
