//! Advancing a catalog that is held in memory to the head, at a cost that goes
//! with what changed.
//!
//! The catalog differs from the head only in what the commits in between wrote,
//! and each of them recorded the live keys it wrote. Those keys are read again;
//! what they hold now is all that matters, not what each commit did.
use crate::catalog::{capped, record_total, CatalogModel, CatalogSnapshot};
use crate::commit::{no_head, no_head_error};
use crate::diff_laws::live_value;
use crate::error::{around, refused, text_around, text_wrapped, wrapped, Error, Fault};
use crate::fold::{apply_current, folded_records_are_found, with_live};
use crate::key_text::{key_name, key_text};
use crate::keys::{
    CommitDeltaValue, CurrentKey, Key, KeyModel, StagedWrite, StoredModel, WriteModel,
};
use crate::ordered::Record;
use crate::records::{HeadModel, HeadValue, MigrationValue, SnapshotModel, SnapshotValue};
use vstd::prelude::*;

verus! {

/// Past this share of the live records, reading changed keys costs more than
/// reading everything.
pub const CHURN_BUDGET_NUMERATOR: usize = 2;

pub const CHURN_BUDGET_DENOMINATOR: usize = 5;

/// What a refresh takes.
#[derive(Debug, Clone, Copy, PartialEq, Eq, Structural)]
pub enum RefreshPlan {
    /// Nothing: the head has not moved.
    Unchanged,
    /// Reading everything: the catalog is not of this store's past.
    Rescan,
    /// Reading what the commits from `first` to `last` changed, unless that is
    /// more than `budget` keys.
    Replay { first: u64, last: u64, budget: usize },
}

/// How many changed keys are worth reading.
pub open spec fn churn_budget(m: CatalogModel) -> usize {
    (capped(record_total(m)) * 2 / 5) as usize
}

/// What a refresh takes, or why it is refused.
pub open spec fn refresh_plan(m: CatalogModel, migrating: bool, head: Option<HeadModel>) -> Result<
    RefreshPlan,
    Fault,
> {
    let from = m.snapshot.snapshot_id;
    if migrating {
        Err(Fault::Corruption("store is mid-migration; refusing to open"@))
    } else {
        match head {
            None => Err(no_head()),
            Some(h) => if h.snapshot_id == from {
                Ok(RefreshPlan::Unchanged)
            } else if h.snapshot_id < from {
                Ok(RefreshPlan::Rescan)
            } else {
                Ok(
                    RefreshPlan::Replay {
                        first: (from + 1) as u64,
                        last: h.snapshot_id,
                        budget: churn_budget(m),
                    },
                )
            },
        }
    }
}

/// What a refresh takes, given what the store says of a migration and of the
/// head.
pub fn plan_refresh(
    base: &CatalogSnapshot,
    migration: &Option<MigrationValue>,
    head: &Option<HeadValue>,
) -> (r: Result<RefreshPlan, Error>)
    ensures
        match refresh_plan(base@, migration is Some, head.deep_view()) {
            Err(f) => refused(r, f),
            Ok(plan) => r == Ok::<RefreshPlan, Error>(plan),
        },
{
    if migration.is_some() {
        return Err(Error::Corruption("store is mid-migration; refusing to open".to_owned()));
    }
    let last = match head {
        None => return Err(no_head_error()),
        Some(h) => h.snapshot_id,
    };
    let from = base.snapshot.snapshot_id;
    if last == from {
        return Ok(RefreshPlan::Unchanged);
    }
    if last < from {
        return Ok(RefreshPlan::Rescan);
    }
    let count = base.live_record_count();
    let budget = (count as u128 * CHURN_BUDGET_NUMERATOR as u128
        / CHURN_BUDGET_DENOMINATOR as u128) as usize;
    Ok(RefreshPlan::Replay { first: from + 1, last, budget })
}

// ---------------------------------------------------------------------------
// Changed keys
// ---------------------------------------------------------------------------

/// Keys with one more, unless it is there already.
pub open spec fn with_key(keys: Seq<KeyModel>, key: KeyModel) -> Seq<KeyModel> {
    if keys.contains(key) {
        keys
    } else {
        keys.push(key)
    }
}

/// Keys with more, none twice.
pub open spec fn with_keys(keys: Seq<KeyModel>, more: Seq<KeyModel>) -> Seq<KeyModel>
    decreases more.len(),
{
    if more.len() == 0 {
        keys
    } else {
        with_key(with_keys(keys, more.drop_last()), more.last())
    }
}

/// The keys that commits changed, none twice, or nothing where that cannot be
/// known or is not worth reading.
pub open spec fn changed(deltas: Seq<Option<Seq<KeyModel>>>, budget: usize) -> Option<Seq<KeyModel>>
    decreases deltas.len(),
{
    if deltas.len() == 0 {
        Some(Seq::empty())
    } else {
        match changed(deltas.drop_last(), budget) {
            None => None,
            Some(keys) => match deltas.last() {
                None => None,
                Some(more) => {
                    let all = with_keys(keys, more);
                    if all.len() > budget {
                        None
                    } else {
                        Some(all)
                    }
                },
            },
        }
    }
}

/// The model of commits' records.
pub open spec fn delta_models(deltas: Seq<Option<CommitDeltaValue>>) -> Seq<Option<Seq<KeyModel>>> {
    Seq::new(
        deltas.len(),
        |i: int|
            match deltas[i] {
                Some(d) => Some(d.current_keys.deep_view()),
                None => None,
            },
    )
}

proof fn unknown_stays(deltas: Seq<Option<Seq<KeyModel>>>, budget: usize, n: int)
    requires
        0 <= n <= deltas.len(),
        changed(deltas.take(n), budget) is None,
    ensures
        changed(deltas, budget) is None,
    decreases deltas.len(),
{
    if n == deltas.len() {
        assert(deltas.take(n) =~= deltas);
    } else {
        assert(deltas.drop_last().take(n) =~= deltas.take(n));
        unknown_stays(deltas.drop_last(), budget, n);
    }
}

fn holds_key(keys: &Vec<Key>, key: &Key) -> (b: bool)
    ensures
        b == keys.deep_view().contains(key@),
{
    let ghost q = keys.deep_view();
    let mut i: usize = 0;
    while i < keys.len()
        invariant
            i <= keys@.len(),
            q == keys.deep_view(),
            forall|j: int| 0 <= j < i ==> #[trigger] q[j] != key@,
        decreases keys.len() - i,
    {
        assert(q[i as int] == keys@[i as int].deep_view());
        if keys[i].same(key) {
            assert(q[i as int] == key@);
            return true;
        }
        i = i + 1;
    }
    false
}

fn add_keys(keys: &mut Vec<Key>, more: &Vec<Key>)
    ensures
        final(keys).deep_view() == with_keys(old(keys).deep_view(), more.deep_view()),
{
    let ghost q = more.deep_view();
    let mut i: usize = 0;
    assert(q.take(0) =~= Seq::<KeyModel>::empty());
    while i < more.len()
        invariant
            i <= more@.len(),
            q == more.deep_view(),
            keys.deep_view() == with_keys(old(keys).deep_view(), q.take(i as int)),
        decreases more.len() - i,
    {
        proof {
            let next = q.take(i + 1);
            assert(next.drop_last() =~= q.take(i as int));
            assert(next.last() == more@[i as int].deep_view());
        }
        if !holds_key(keys, &more[i]) {
            let ghost was = keys.deep_view();
            let key = more[i].dup();
            keys.push(key);
            assert(keys.deep_view() =~= was.push(key.deep_view()));
        }
        i = i + 1;
    }
    assert(q.take(q.len() as int) =~= q);
}

/// Takes in the record of one more commit. Says whether to go on: not without a
/// record, nor with more keys than are worth reading.
pub fn add_changes(keys: &mut Vec<Key>, delta: &Option<CommitDeltaValue>, budget: usize) -> (on:
    bool)
    ensures
        match delta {
            None => !on && *final(keys) == *old(keys),
            Some(d) => final(keys).deep_view() == with_keys(
                old(keys).deep_view(),
                d.current_keys.deep_view(),
            ) && on == (final(keys).deep_view().len() <= budget),
        },
{
    match delta {
        None => false,
        Some(d) => {
            add_keys(keys, &d.current_keys);
            assert(keys.deep_view().len() == keys@.len());
            keys.len() <= budget
        },
    }
}

/// The keys that commits changed, given their records in order. A commit
/// without a record, or more keys than are worth reading, leaves nothing.
pub fn changed_keys(deltas: &Vec<Option<CommitDeltaValue>>, budget: usize) -> (r: Option<Vec<Key>>)
    ensures
        match changed(delta_models(deltas@), budget) {
            None => r is None,
            Some(keys) => r is Some && r->0.deep_view() == keys,
        },
{
    let ghost q = delta_models(deltas@);
    let mut keys: Vec<Key> = Vec::new();
    let mut i: usize = 0;
    proof {
        assert(q.take(0) =~= Seq::<Option<Seq<KeyModel>>>::empty());
        assert(keys.deep_view() =~= Seq::<KeyModel>::empty());
    }
    while i < deltas.len()
        invariant
            i <= deltas@.len(),
            q == delta_models(deltas@),
            changed(q.take(i as int), budget) == Some(keys.deep_view()),
        decreases deltas.len() - i,
    {
        proof {
            let next = q.take(i + 1);
            assert(next.drop_last() =~= q.take(i as int));
            assert(next.last() == q[i as int]);
        }
        if !add_changes(&mut keys, &deltas[i], budget) {
            proof {
                unknown_stays(q, budget, i + 1);
            }
            return None;
        }
        i = i + 1;
    }
    assert(q.take(q.len() as int) =~= q);
    Some(keys)
}

/// The changed keys of commits are those that some commit recorded, each once.
pub proof fn changed_keys_are_complete(deltas: Seq<Option<Seq<KeyModel>>>, budget: usize, key: KeyModel)
    requires
        changed(deltas, budget) is Some,
    ensures
        changed(deltas, budget)->0.no_duplicates(),
        changed(deltas, budget)->0.contains(key) <==> exists|i: int|
            0 <= i < deltas.len() && (#[trigger] deltas[i]) is Some && deltas[i]->0.contains(key),
    decreases deltas.len(),
{
    if deltas.len() > 0 {
        let front = deltas.drop_last();
        changed_keys_are_complete(front, budget, key);
        let before = changed(front, budget)->0;
        added_keys_are_there(before, deltas.last()->0, key);
        if before.contains(key) {
            let i = choose|i: int|
                0 <= i < front.len() && (#[trigger] front[i]) is Some && front[i]->0.contains(key);
            assert(deltas[i]->0.contains(key));
        }
        if deltas.last()->0.contains(key) {
            assert(deltas[deltas.len() - 1]->0.contains(key));
        }
        if exists|i: int|
            0 <= i < deltas.len() && (#[trigger] deltas[i]) is Some && deltas[i]->0.contains(key) {
            let i = choose|i: int|
                0 <= i < deltas.len() && (#[trigger] deltas[i]) is Some && deltas[i]->0.contains(
                    key,
                );
            if i < front.len() {
                assert(front[i] is Some && front[i]->0.contains(key));
            }
        }
    }
}

proof fn added_keys_are_there(keys: Seq<KeyModel>, more: Seq<KeyModel>, key: KeyModel)
    requires
        keys.no_duplicates(),
    ensures
        with_keys(keys, more).no_duplicates(),
        with_keys(keys, more).contains(key) <==> keys.contains(key) || more.contains(key),
    decreases more.len(),
{
    if more.len() > 0 {
        let front = more.drop_last();
        added_keys_are_there(keys, front, key);
        let before = with_keys(keys, front);
        let now = with_keys(keys, more);
        if !before.contains(more.last()) {
            assert forall|i: int, j: int|
                0 <= i < now.len() && 0 <= j < now.len() && i != j implies now[i] != now[j] by {
                if i < before.len() && j < before.len() {
                    assert(before[i] != before[j]);
                } else if i < before.len() {
                    assert(before.contains(before[i]));
                } else if j < before.len() {
                    assert(before.contains(before[j]));
                }
            }
        }
        if before.contains(key) {
            let i = choose|i: int| 0 <= i < before.len() && before[i] == key;
            assert(now[i] == key);
        }
        if front.contains(key) {
            let i = choose|i: int| 0 <= i < front.len() && front[i] == key;
            assert(more[i] == key);
        }
        if key == more.last() {
            assert(more[more.len() - 1] == key);
            if !before.contains(key) {
                assert(now[now.len() - 1] == key);
            }
        }
        if more.contains(key) && key != more.last() {
            let i = choose|i: int| 0 <= i < more.len() && more[i] == key;
            assert(front[i] == key);
        }
        if now.contains(key) && !before.contains(key) {
            let i = choose|i: int| 0 <= i < now.len() && now[i] == key;
            if i < before.len() {
                assert(before[i] == key);
            }
        }
    }
}

// ---------------------------------------------------------------------------
// The refreshed catalog
// ---------------------------------------------------------------------------

/// The catalog with what changed keys hold now, or why that is refused.
pub open spec fn with_values(m: CatalogModel, values: Seq<WriteModel>) -> Result<CatalogModel, Fault>
    decreases values.len(),
{
    if values.len() == 0 {
        Ok(m)
    } else {
        match with_values(m, values.drop_last()) {
            Err(f) => Err(f),
            Ok(next) => match values.last().0 {
                KeyModel::Current(key) => with_live(next, key, values.last().1),
                other => Err(
                    Fault::Corruption(
                        wrapped("commit delta names a non-current key: "@, key_name(other), ""@),
                    ),
                ),
            },
        }
    }
}

proof fn value_refusal_stays(m: CatalogModel, values: Seq<WriteModel>, n: int)
    requires
        0 <= n <= values.len(),
        with_values(m, values.take(n)) is Err,
    ensures
        with_values(m, values) == with_values(m, values.take(n)),
    decreases values.len(),
{
    if n == values.len() {
        assert(values.take(n) =~= values);
    } else {
        assert(values.drop_last().take(n) =~= values.take(n));
        value_refusal_stays(m, values.drop_last(), n);
    }
}

/// The catalog at the head, given the head's snapshot and what the changed
/// keys hold now.
pub open spec fn refreshed(
    m: CatalogModel,
    head: u64,
    snapshot: Option<SnapshotModel>,
    values: Seq<WriteModel>,
) -> Result<CatalogModel, Fault> {
    match snapshot {
        None => Err(
            Fault::SnapshotExpired(around("snapshot "@, head, " (expired or never minted)"@)),
        ),
        Some(s) => with_values(CatalogModel { snapshot: s, ..m }, values),
    }
}

/// The catalog at the head.
pub fn finish_refresh(
    base: &CatalogSnapshot,
    head: u64,
    snapshot: Option<SnapshotValue>,
    values: &Vec<StagedWrite>,
) -> (r: Result<CatalogSnapshot, Error>)
    ensures
        match refreshed(base@, head, snapshot.deep_view(), values.deep_view()) {
            Err(f) => refused(r, f),
            Ok(m) => r is Ok && r->Ok_0@ == m,
        },
{
    let mut view = base.dup();
    match snapshot {
        None => return Err(
            Error::SnapshotExpired(text_around("snapshot ", head, " (expired or never minted)")),
        ),
        Some(s) => {
            view.snapshot = s;
        },
    }
    let ghost start = view@;
    let ghost q = values.deep_view();
    let mut i: usize = 0;
    assert(q.take(0) =~= Seq::<WriteModel>::empty());
    while i < values.len()
        invariant
            i <= values@.len(),
            q == values.deep_view(),
            refreshed(base@, head, snapshot.deep_view(), q) == with_values(start, q),
            with_values(start, q.take(i as int)) == Ok::<CatalogModel, Fault>(view@),
        decreases values.len() - i,
    {
        proof {
            let next = q.take(i + 1);
            assert(next.drop_last() =~= q.take(i as int));
            assert(next.last() == values@[i as int].deep_view());
        }
        match &values[i].0 {
            Key::Current(key) => {
                match apply_current(&mut view, *key, values[i].1.dup()) {
                    Err(e) => {
                        proof {
                            value_refusal_stays(start, q, i + 1);
                        }
                        return Err(e);
                    },
                    Ok(()) => {},
                }
            },
            other => {
                proof {
                    value_refusal_stays(start, q, i + 1);
                }
                return Err(
                    Error::Corruption(
                        text_wrapped(
                            "commit delta names a non-current key: ",
                            &key_text(other),
                            "",
                        ),
                    ),
                );
            },
        }
        i = i + 1;
    }
    assert(q.take(q.len() as int) =~= q);
    Ok(view)
}

/// What a live key holds among some values: the last one under it.
pub open spec fn value_now(values: Seq<WriteModel>, key: CurrentKey, before: Option<StoredModel>) -> Option<
    StoredModel,
> {
    crate::keys::after(values, KeyModel::Current(key), before)
}

/// A refreshed catalog holds, under every key that changed, what the store
/// holds, and under every other key what it held before. So where the store
/// agrees with the catalog on the keys that did not change, it agrees with the
/// refreshed catalog on all of them.
pub proof fn refreshed_catalog_is_the_head(
    m: CatalogModel,
    head: u64,
    snapshot: Option<SnapshotModel>,
    values: Seq<WriteModel>,
    store: spec_fn(CurrentKey) -> Option<StoredModel>,
)
    requires
        refreshed(m, head, snapshot, values) is Ok,
        forall|i: int|
            0 <= i < values.len() ==> ((#[trigger] values[i]).0 matches KeyModel::Current(k)
                ==> values[i].1 == store(k)),
        forall|k: CurrentKey|
            (forall|i: int| 0 <= i < values.len() ==> (#[trigger] values[i]).0 != KeyModel::Current(k))
                ==> #[trigger] live_value(m, k) == store(k),
    ensures
        forall|k: CurrentKey| #[trigger]
            live_value(refreshed(m, head, snapshot, values)->Ok_0, k) == store(k),
        refreshed(m, head, snapshot, values)->Ok_0.snapshot == snapshot->0,
{
    let start = CatalogModel { snapshot: snapshot->0, ..m };
    assert forall|k: CurrentKey| #[trigger]
        live_value(refreshed(m, head, snapshot, values)->Ok_0, k) == store(k) by {
        values_are_found(start, values, k);
        assert(live_value(start, k) == live_value(m, k));
        value_is_last(values, k, live_value(m, k), store);
    }
    snapshot_stays(start, values);
}

proof fn values_are_found(m: CatalogModel, values: Seq<WriteModel>, key: CurrentKey)
    requires
        with_values(m, values) is Ok,
    ensures
        live_value(with_values(m, values)->Ok_0, key) == value_now(values, key, live_value(m, key)),
    decreases values.len(),
{
    if values.len() > 0 {
        values_are_found(m, values.drop_last(), key);
        let before = with_values(m, values.drop_last())->Ok_0;
        match values.last().0 {
            KeyModel::Current(k) => {
                folded_records_are_found(before, k, values.last().1, key);
            },
            _ => {},
        }
    }
}

proof fn snapshot_stays(m: CatalogModel, values: Seq<WriteModel>)
    requires
        with_values(m, values) is Ok,
    ensures
        with_values(m, values)->Ok_0.snapshot == m.snapshot,
    decreases values.len(),
{
    if values.len() > 0 {
        snapshot_stays(m, values.drop_last());
        let before = with_values(m, values.drop_last())->Ok_0;
        match values.last().0 {
            KeyModel::Current(k) => {
                folded_records_are_found(before, k, values.last().1, k);
            },
            _ => {},
        }
    }
}

proof fn value_is_last(
    values: Seq<WriteModel>,
    key: CurrentKey,
    before: Option<StoredModel>,
    store: spec_fn(CurrentKey) -> Option<StoredModel>,
)
    requires
        forall|i: int|
            0 <= i < values.len() ==> ((#[trigger] values[i]).0 matches KeyModel::Current(k)
                ==> values[i].1 == store(k)),
        (forall|i: int| 0 <= i < values.len() ==> (#[trigger] values[i]).0 != KeyModel::Current(key))
            ==> before == store(key),
    ensures
        value_now(values, key, before) == store(key),
    decreases values.len(),
{
    if values.len() > 0 {
        assert(values.last() == values[values.len() - 1]);
        if values.last().0 != KeyModel::Current(key) {
            let front = values.drop_last();
            assert forall|i: int| 0 <= i < front.len() implies ((
            #[trigger] front[i]).0 matches KeyModel::Current(k) ==> front[i].1 == store(k)) by {
                assert(front[i] == values[i]);
            }
            if forall|i: int|
                0 <= i < front.len() ==> (#[trigger] front[i]).0 != KeyModel::Current(key) {
                assert forall|i: int| 0 <= i < values.len() implies (#[trigger] values[i]).0
                    != KeyModel::Current(key) by {
                    if i < front.len() {
                        assert(front[i] == values[i]);
                    }
                }
            }
            value_is_last(front, key, before, store);
        }
    }
}

} // verus!
