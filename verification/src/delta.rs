//! The live keys that a commit wrote, recorded for readers that hold an older
//! catalog: they read those keys again instead of everything. Only keys are
//! recorded; what they hold is for the store to say.
use crate::catalog::CatalogModel;
use crate::fold::with_writes;
use crate::keys::{CommitDeltaValue, Key, KeyModel, StagedWrite, Stored, StoredModel, WriteModel};
use vstd::prelude::*;

verus! {

/// The most keys that a commit records.
pub const MAX_DELTA_KEYS: usize = 4096;

/// The live keys among the keys that a commit wrote, in order.
pub open spec fn live_keys(keys: Seq<KeyModel>) -> Seq<KeyModel>
    decreases keys.len(),
{
    if keys.len() == 0 {
        Seq::empty()
    } else if keys.last() is Current {
        live_keys(keys.drop_last()).push(keys.last())
    } else {
        live_keys(keys.drop_last())
    }
}

/// The keys of writes.
pub open spec fn keys_written<V>(writes: Seq<(Key, Option<V>)>) -> Seq<KeyModel> {
    Seq::new(writes.len(), |i: int| writes[i].0@)
}

/// The record of a commit's live keys. A commit of too many has none: a reader
/// then reads everything, where a part of the keys would lead it to a state
/// that never was. A commit of no live key has an empty record.
pub fn write_for<V>(snapshot_id: u64, writes: &[(Key, Option<V>)]) -> (r: Option<StagedWrite>)
    ensures
        ({
            let keys = live_keys(keys_written(writes@));
            if keys.len() > MAX_DELTA_KEYS {
                r is None
            } else {
                r is Some && r->0.deep_view() == (
                    KeyModel::CommitDelta { snapshot_id },
                    Some(StoredModel::CommitDelta(keys)),
                )
            }
        }),
{
    let ghost q = keys_written(writes@);
    let mut keys: Vec<Key> = Vec::new();
    let mut i: usize = 0;
    proof {
        assert(q.take(0) =~= Seq::<KeyModel>::empty());
        assert(keys.deep_view() =~= Seq::<KeyModel>::empty());
    }
    while i < writes.len()
        invariant
            i <= writes@.len(),
            q == keys_written(writes@),
            keys.deep_view() == live_keys(q.take(i as int)),
        decreases writes.len() - i,
    {
        proof {
            let next = q.take(i + 1);
            assert(next.drop_last() =~= q.take(i as int));
            assert(next.last() == writes@[i as int].0@);
        }
        match &writes[i].0 {
            Key::Current(k) => {
                let ghost was = keys.deep_view();
                let key = Key::Current(*k);
                keys.push(key);
                assert(keys.deep_view() =~= was.push(key.deep_view()));
            },
            _ => {},
        }
        i = i + 1;
    }
    assert(q.take(q.len() as int) =~= q);
    assert(keys.deep_view().len() == keys@.len());
    if keys.len() > MAX_DELTA_KEYS {
        return None;
    }
    Some(
        (
            Key::CommitDelta { snapshot_id },
            Some(Stored::CommitDelta(CommitDeltaValue { current_keys: keys })),
        ),
    )
}

/// The batch of a commit with the record of its live keys behind it. A commit
/// that leads to no new snapshot leaves none.
pub open spec fn recorded(head_before: u64, commits: u64, writes: Seq<WriteModel>) -> Seq<WriteModel> {
    let keys = live_keys(Seq::new(writes.len(), |i: int| writes[i].0));
    if commits == head_before || keys.len() > MAX_DELTA_KEYS {
        writes
    } else {
        writes.push(
            (
                KeyModel::CommitDelta { snapshot_id: commits },
                Some(StoredModel::CommitDelta(keys)),
            ),
        )
    }
}

/// Puts the record of a commit's live keys behind its batch.
pub fn record_commit(head_before: u64, commits: u64, writes: &mut Vec<StagedWrite>)
    ensures
        final(writes).deep_view() == recorded(head_before, commits, old(writes).deep_view()),
{
    let ghost was = writes.deep_view();
    if commits != head_before {
        proof {
            assert(keys_written(writes@) =~= Seq::new(was.len(), |i: int| was[i].0));
        }
        match write_for(commits, writes.as_slice()) {
            Some(write) => {
                writes.push(write);
                assert(writes.deep_view() =~= was.push(write.deep_view()));
            },
            None => {},
        }
    }
}

/// A record changes no catalog: whoever folds the batch in sees the same with
/// it and without.
pub proof fn records_change_no_catalog(
    m: CatalogModel,
    head_before: u64,
    commits: u64,
    writes: Seq<WriteModel>,
)
    ensures
        with_writes(m, recorded(head_before, commits, writes)) == with_writes(m, writes),
{
    let with = recorded(head_before, commits, writes);
    if with.len() > writes.len() {
        assert(with.drop_last() =~= writes);
    }
}

/// A record names every live key that the commit wrote, and none besides.
pub proof fn records_are_complete(keys: Seq<KeyModel>, key: KeyModel)
    ensures
        live_keys(keys).contains(key) <==> keys.contains(key) && key is Current,
    decreases keys.len(),
{
    let live = live_keys(keys);
    if keys.len() > 0 {
        let front = keys.drop_last();
        records_are_complete(front, key);
        if live_keys(front).contains(key) {
            let j = choose|j: int| 0 <= j < live_keys(front).len() && live_keys(front)[j] == key;
            assert(live[j] == key);
        }
        if front.contains(key) {
            let j = choose|j: int| 0 <= j < front.len() && front[j] == key;
            assert(keys[j] == key);
        }
        if keys.contains(key) && key is Current {
            let j = choose|j: int| 0 <= j < keys.len() && keys[j] == key;
            if j < front.len() {
                assert(front[j] == key);
            } else {
                assert(live[live.len() - 1] == key);
            }
        }
        if live.contains(key) {
            let j = choose|j: int| 0 <= j < live.len() && live[j] == key;
            if j < live_keys(front).len() {
                assert(live_keys(front)[j] == key);
            } else {
                assert(keys[keys.len() - 1] == key);
            }
        }
    }
}

} // verus!
