//! Entries of equality indexes: staging them with a commit, and finding rows
//! through them.
//!
//! The key of a unique entry is its value, so that two commits that insert the
//! same value write the same key.
use crate::bytes::{
    all_top, begins_with, bytes_below, decode_row_id, encode_row_id, ends_extensions,
    increment_prefix, row_id_bytes, row_id_refusal, spelled,
};
use crate::deletes::deletion;
use crate::error::{around, refused, text_around, text_wrapped, wrapped, Error, Fault};
use crate::key_text::{key_name, key_text};
use crate::keys::{
    IndexKey, IndexKeyModel, Key, KeyModel, StagedWrite, Stored, StoredModel, WriteModel,
};
use crate::ordered::{OrdMap, OrdSet, Record};
use crate::text::{decimal, holds_word, numeral_reads_decimal};
use vstd::prelude::*;

verus! {

/// A change of one index entry.
#[derive(Debug, PartialEq, Eq)]
pub struct StagedIndexEntry {
    /// The index of the entry.
    pub index_id: u64,
    /// Whether the entry's value must be one row's alone.
    pub unique: bool,
    /// The indexed value, in its canonical bytes.
    pub key: Vec<u8>,
    /// The row of the entry.
    pub row_id: u64,
    /// Whether the entry is removed rather than added.
    pub delete: bool,
}

/// The model of [`StagedIndexEntry`].
#[verifier::ext_equal]
pub struct IndexEntryModel {
    pub index_id: u64,
    pub unique: bool,
    pub key: Seq<u8>,
    pub row_id: u64,
    pub delete: bool,
}

impl View for StagedIndexEntry {
    type V = IndexEntryModel;

    open spec fn view(&self) -> IndexEntryModel {
        IndexEntryModel {
            index_id: self.index_id,
            unique: self.unique,
            key: self.key.deep_view(),
            row_id: self.row_id,
            delete: self.delete,
        }
    }
}

impl DeepView for StagedIndexEntry {
    type V = IndexEntryModel;

    open spec fn deep_view(&self) -> IndexEntryModel {
        self.view()
    }
}

impl Clone for StagedIndexEntry {
    fn clone(&self) -> (r: Self)
        ensures
            r@ == self@,
    {
        StagedIndexEntry {
            index_id: self.index_id,
            unique: self.unique,
            key: self.key.dup(),
            row_id: self.row_id,
            delete: self.delete,
        }
    }
}

/// The key of an entry.
pub open spec fn key_of_entry(e: IndexEntryModel) -> KeyModel {
    if e.unique {
        KeyModel::Index(IndexKeyModel::Unique { index_id: e.index_id, key: e.key })
    } else {
        KeyModel::Index(
            IndexKeyModel::Multi { index_id: e.index_id, key: e.key, row_id: e.row_id },
        )
    }
}

/// The key of an entry: a unique one's is its value, another one's also holds
/// its row.
pub fn entry_key(entry: &StagedIndexEntry) -> (k: Key)
    ensures
        k@ == key_of_entry(entry@),
{
    if entry.unique {
        Key::Index(IndexKey::Unique { index_id: entry.index_id, key: entry.key.dup() })
    } else {
        Key::Index(
            IndexKey::Multi {
                index_id: entry.index_id,
                key: entry.key.dup(),
                row_id: entry.row_id,
            },
        )
    }
}

pub open spec fn violation(index_id: u64) -> Fault {
    Fault::Constraint(around("duplicate value violates equality index "@, index_id, ""@))
}

/// The error of a value that two rows share. Its text has none of the words
/// that make a writer try again: trying again would not help.
pub fn unique_violation(index_id: u64) -> (e: Error)
    ensures
        e@ == violation(index_id),
{
    Error::Constraint(text_around("duplicate value violates equality index ", index_id, ""))
}

/// A text holds no word with a character that the text lacks.
proof fn lacking_a_character(t: Seq<char>, word: Seq<char>, at: int)
    requires
        0 <= at < word.len(),
        !t.contains(word[at]),
    ensures
        !holds_word(t, word),
{
    if holds_word(t, word) {
        let i = choose|i: int|
            0 <= i <= t.len() - word.len() && #[trigger] t.subrange(i, i + word.len()) == word;
        assert(t.subrange(i, i + word.len())[at] == t[i + at]);
    }
}

/// The error of a value that two rows share says none of the four words by
/// which a writer decides to try again.
pub proof fn violations_are_not_retried(index_id: u64)
    ensures
        violation(index_id) matches Fault::Constraint(t) && !holds_word(t, "conflict"@)
            && !holds_word(t, "concurrent"@) && !holds_word(t, "unique"@) && !holds_word(
            t,
            "primary key"@,
        ),
{
    let head = "duplicate value violates equality index "@;
    let digits = decimal(index_id as nat);
    let t = around(head, index_id, ""@);
    reveal_strlit("duplicate value violates equality index ");
    reveal_strlit("");
    reveal_strlit("conflict");
    reveal_strlit("concurrent");
    reveal_strlit("unique");
    reveal_strlit("primary key");
    numeral_reads_decimal(index_id);
    assert forall|j: int| 0 <= j < t.len() implies (#[trigger] t[j]) != 'f' && t[j] != 'r' by {
        if j < head.len() {
            assert(t[j] == head[j]);
        } else {
            assert(t[j] == digits[j - head.len()]);
        }
    }
    lacking_a_character(t, "conflict"@, 3);
    lacking_a_character(t, "concurrent"@, 5);
    lacking_a_character(t, "primary key"@, 1);
    if holds_word(t, "unique"@) {
        let i = choose|i: int| 0 <= i <= t.len() - 6 && #[trigger] t.subrange(i, i + 6) == "unique"@;
        assert(t.subrange(i, i + 6)[0] == t[i]);
        assert(t.subrange(i, i + 6)[1] == t[i + 1]);
        if i + 1 < head.len() {
            assert(t[i] == head[i] && t[i + 1] == head[i + 1]);
        } else {
            assert(t[i + 1] == digits[i + 1 - head.len()]);
        }
    }
}

// ---------------------------------------------------------------------------
// Staging
// ---------------------------------------------------------------------------

/// A value of a unique index.
pub type UniquePlace = (u64, Vec<u8>);

/// What the store holds under values of unique indexes.
pub type HeldEntries = OrdMap<UniquePlace, Vec<u8>>;

/// The values that entries remove from unique indexes.
pub open spec fn freed(entries: Seq<IndexEntryModel>) -> Set<(u64, Seq<u8>)> {
    Set::new(
        |p: (u64, Seq<u8>)|
            exists|i: int|
                0 <= i < entries.len() && (#[trigger] entries[i]).delete && entries[i].unique && p
                    == (entries[i].index_id, entries[i].key),
    )
}

/// The writes of the entries that are removed.
pub open spec fn removals(entries: Seq<IndexEntryModel>) -> Seq<WriteModel>
    decreases entries.len(),
{
    if entries.len() == 0 {
        Seq::empty()
    } else if entries.last().delete {
        removals(entries.drop_last()).push(deletion(key_of_entry(entries.last())))
    } else {
        removals(entries.drop_last())
    }
}

/// Additions in progress.
#[verifier::ext_equal]
pub struct AddingModel {
    /// The writes so far.
    pub writes: Seq<WriteModel>,
    /// The unique values that were added, and their rows.
    pub taken: Map<(u64, Seq<u8>), u64>,
}

/// The additions with one more entry, or why it is refused. A unique value
/// that another row has is refused; one that the same row has is there
/// already.
pub open spec fn with_entry(
    a: AddingModel,
    e: IndexEntryModel,
    freed: Set<(u64, Seq<u8>)>,
    held: Map<(u64, Seq<u8>), Seq<u8>>,
) -> Result<AddingModel, Fault> {
    let place = (e.index_id, e.key);
    if e.delete {
        Ok(a)
    } else if !e.unique {
        Ok(
            AddingModel {
                writes: a.writes.push((key_of_entry(e), Some(StoredModel::Raw(Seq::empty())))),
                ..a
            },
        )
    } else if a.taken.contains_key(place) {
        if a.taken[place] != e.row_id {
            Err(violation(e.index_id))
        } else {
            Ok(a)
        }
    } else if held.contains_key(place) && !freed.contains(place) {
        match row_id_refusal(held[place]) {
            Some(f) => Err(f),
            None => if spelled(held[place]) != e.row_id {
                Err(violation(e.index_id))
            } else {
                Ok(a)
            },
        }
    } else {
        Ok(
            AddingModel {
                writes: a.writes.push(
                    (key_of_entry(e), Some(StoredModel::Raw(row_id_bytes(e.row_id)))),
                ),
                taken: a.taken.insert(place, e.row_id),
            },
        )
    }
}

/// The additions of entries, or why the first bad one is refused.
pub open spec fn additions(
    entries: Seq<IndexEntryModel>,
    freed: Set<(u64, Seq<u8>)>,
    held: Map<(u64, Seq<u8>), Seq<u8>>,
) -> Result<AddingModel, Fault>
    decreases entries.len(),
{
    if entries.len() == 0 {
        Ok(AddingModel { writes: Seq::empty(), taken: Map::empty() })
    } else {
        match additions(entries.drop_last(), freed, held) {
            Err(f) => Err(f),
            Ok(a) => with_entry(a, entries.last(), freed, held),
        }
    }
}

/// The writes of index entries: removals first, so that a value that is
/// removed and added again in one commit counts as absent.
pub open spec fn entry_writes(
    entries: Seq<IndexEntryModel>,
    held: Map<(u64, Seq<u8>), Seq<u8>>,
) -> Result<Seq<WriteModel>, Fault> {
    match additions(entries, freed(entries), held) {
        Err(f) => Err(f),
        Ok(a) => Ok(removals(entries) + a.writes),
    }
}

/// The additions before the first entry that is refused; all of them where none
/// is.
pub open spec fn accepted(
    entries: Seq<IndexEntryModel>,
    freed: Set<(u64, Seq<u8>)>,
    held: Map<(u64, Seq<u8>), Seq<u8>>,
) -> AddingModel
    decreases entries.len(),
{
    if entries.len() == 0 {
        AddingModel { writes: Seq::empty(), taken: Map::empty() }
    } else {
        match additions(entries.drop_last(), freed, held) {
            Err(_) => accepted(entries.drop_last(), freed, held),
            Ok(a) => match with_entry(a, entries.last(), freed, held) {
                Err(_) => a,
                Ok(next) => next,
            },
        }
    }
}

/// The writes that entries leave behind where one of them is refused: the
/// removals, and the additions before it.
pub open spec fn writes_left(
    entries: Seq<IndexEntryModel>,
    held: Map<(u64, Seq<u8>), Seq<u8>>,
) -> Seq<WriteModel> {
    removals(entries) + accepted(entries, freed(entries), held).writes
}

proof fn addition_refusal_stays(
    entries: Seq<IndexEntryModel>,
    freed: Set<(u64, Seq<u8>)>,
    held: Map<(u64, Seq<u8>), Seq<u8>>,
    n: int,
)
    requires
        0 <= n <= entries.len(),
        additions(entries.take(n), freed, held) is Err,
    ensures
        additions(entries, freed, held) == additions(entries.take(n), freed, held),
        accepted(entries, freed, held) == accepted(entries.take(n), freed, held),
    decreases entries.len(),
{
    if n == entries.len() {
        assert(entries.take(n) =~= entries);
    } else {
        assert(entries.drop_last().take(n) =~= entries.take(n));
        addition_refusal_stays(entries.drop_last(), freed, held, n);
    }
}

/// Entries that are staged together give no value of a unique index to two
/// rows, and none that another row has in the store and keeps.
pub proof fn staged_values_are_unique(
    entries: Seq<IndexEntryModel>,
    freed: Set<(u64, Seq<u8>)>,
    held: Map<(u64, Seq<u8>), Seq<u8>>,
)
    requires
        additions(entries, freed, held) is Ok,
    ensures
        forall|i: int, j: int|
            0 <= i < entries.len() && 0 <= j < entries.len() && adds_unique(
                #[trigger] entries[i],
            ) && adds_unique(#[trigger] entries[j]) && entries[i].index_id == entries[j].index_id
                && entries[i].key == entries[j].key ==> entries[i].row_id == entries[j].row_id,
        forall|i: int|
            0 <= i < entries.len() && adds_unique(#[trigger] entries[i]) && held.contains_key(
                (entries[i].index_id, entries[i].key),
            ) && !freed.contains((entries[i].index_id, entries[i].key)) ==> spelled(
                held[(entries[i].index_id, entries[i].key)],
            ) == entries[i].row_id,
{
    let a = additions(entries, freed, held)->Ok_0;
    assert forall|i: int| 0 <= i < entries.len() && adds_unique(#[trigger] entries[i]) implies owner(
        a,
        freed,
        held,
        (entries[i].index_id, entries[i].key),
    ) == Some(entries[i].row_id as nat) by {
        added_values_have_owners(entries, freed, held, i);
    }
    taken_is_not_held(entries, freed, held);
}

/// Whether an entry adds a value to a unique index.
pub open spec fn adds_unique(e: IndexEntryModel) -> bool {
    e.unique && !e.delete
}

/// The row of a unique value, after the additions.
spec fn owner(
    a: AddingModel,
    freed: Set<(u64, Seq<u8>)>,
    held: Map<(u64, Seq<u8>), Seq<u8>>,
    place: (u64, Seq<u8>),
) -> Option<nat> {
    if a.taken.contains_key(place) {
        Some(a.taken[place] as nat)
    } else if held.contains_key(place) && !freed.contains(place) {
        Some(spelled(held[place]))
    } else {
        None
    }
}

proof fn added_values_have_owners(
    entries: Seq<IndexEntryModel>,
    freed: Set<(u64, Seq<u8>)>,
    held: Map<(u64, Seq<u8>), Seq<u8>>,
    i: int,
)
    requires
        additions(entries, freed, held) is Ok,
        0 <= i < entries.len(),
        adds_unique(entries[i]),
    ensures
        owner(
            additions(entries, freed, held)->Ok_0,
            freed,
            held,
            (entries[i].index_id, entries[i].key),
        ) == Some(entries[i].row_id as nat),
    decreases entries.len(),
{
    let front = entries.drop_last();
    if i < entries.len() - 1 {
        added_values_have_owners(front, freed, held, i);
        assert(front[i] == entries[i]);
        taken_is_not_held(front, freed, held);
    }
}

/// A value that is added is not one that the store holds and keeps.
proof fn taken_is_not_held(
    entries: Seq<IndexEntryModel>,
    freed: Set<(u64, Seq<u8>)>,
    held: Map<(u64, Seq<u8>), Seq<u8>>,
)
    requires
        additions(entries, freed, held) is Ok,
    ensures
        forall|p: (u64, Seq<u8>)| #[trigger]
            additions(entries, freed, held)->Ok_0.taken.contains_key(p) ==> !(held.contains_key(p)
                && !freed.contains(p)),
    decreases entries.len(),
{
    if entries.len() > 0 {
        taken_is_not_held(entries.drop_last(), freed, held);
    }
}

fn collect_freed(entries: &Vec<StagedIndexEntry>, writes: &mut Vec<StagedWrite>) -> (out: OrdSet<
    UniquePlace,
>)
    ensures
        out@ == freed(entries.deep_view()),
        final(writes).deep_view() == old(writes).deep_view() + removals(entries.deep_view()),
{
    let ghost q = entries.deep_view();
    let mut out: OrdSet<UniquePlace> = OrdSet::new();
    let mut i: usize = 0;
    assert(q.take(0) =~= Seq::<IndexEntryModel>::empty());
    assert(writes.deep_view() + removals(q.take(0)) =~= writes.deep_view());
    while i < entries.len()
        invariant
            i <= entries@.len(),
            q == entries.deep_view(),
            writes.deep_view() == old(writes).deep_view() + removals(q.take(i as int)),
            forall|p: (u64, Seq<u8>)| #[trigger]
                out@.contains(p) <==> exists|j: int|
                    0 <= j < i && (#[trigger] q[j]).delete && q[j].unique && p == (
                        q[j].index_id,
                        q[j].key,
                    ),
        decreases entries.len() - i,
    {
        let ghost was = out@;
        let ghost before = writes.deep_view();
        proof {
            let next = q.take(i + 1);
            assert(next.drop_last() =~= q.take(i as int));
            assert(next.last() == entries@[i as int].deep_view());
            assert(q[i as int] == entries@[i as int].deep_view());
        }
        if entries[i].delete {
            if entries[i].unique {
                out.insert((entries[i].index_id, entries[i].key.dup()));
            }
            let key = entry_key(&entries[i]);
            writes.push((key, None));
            assert(writes.deep_view() =~= before.push(deletion(key@)));
        }
        proof {
            assert(writes.deep_view() =~= old(writes).deep_view() + removals(q.take(i + 1)));
            assert forall|p: (u64, Seq<u8>)| #[trigger] out@.contains(p) <==> exists|j: int|
                0 <= j < i + 1 && (#[trigger] q[j]).delete && q[j].unique && p == (
                    q[j].index_id,
                    q[j].key,
                ) by {
                if was.contains(p) {
                    let j = choose|j: int|
                        0 <= j < i && (#[trigger] q[j]).delete && q[j].unique && p == (
                            q[j].index_id,
                            q[j].key,
                        );
                    assert(q[j].delete);
                }
                if out@.contains(p) && !was.contains(p) {
                    assert(q[i as int].delete);
                }
            }
        }
        i = i + 1;
    }
    assert(q.take(q.len() as int) =~= q);
    assert(out@ =~= freed(q));
    out
}

/// Stages the changes of index entries, given what the store holds under the
/// values of unique indexes. Where an entry is refused, what was staged before it
/// stays.
pub fn stage_index_entries(
    held: &HeldEntries,
    entries: &Vec<StagedIndexEntry>,
    writes: &mut Vec<StagedWrite>,
) -> (r: Result<(), Error>)
    ensures
        match entry_writes(entries.deep_view(), held@) {
            Err(f) => refused(r, f) && final(writes).deep_view() == old(writes).deep_view()
                + writes_left(entries.deep_view(), held@),
            Ok(more) => r is Ok && final(writes).deep_view() == old(writes).deep_view() + more,
        },
{
    let freed_places = collect_freed(entries, writes);
    let ghost q = entries.deep_view();
    let ghost start = writes.deep_view();
    let mut taken: OrdMap<UniquePlace, u64> = OrdMap::new();
    let mut i: usize = 0;
    proof {
        assert(q.take(0) =~= Seq::<IndexEntryModel>::empty());
        assert(start + Seq::<WriteModel>::empty() =~= start);
    }
    let ghost mut a = AddingModel { writes: Seq::empty(), taken: Map::empty() };
    while i < entries.len()
        invariant
            i <= entries@.len(),
            q == entries.deep_view(),
            start == old(writes).deep_view() + removals(q),
            freed_places@ == freed(q),
            additions(q.take(i as int), freed(q), held@) == Ok::<AddingModel, Fault>(a),
            taken@ == a.taken,
            writes.deep_view() == start + a.writes,
        decreases entries.len() - i,
    {
        let entry = &entries[i];
        let ghost e = entry@;
        proof {
            let next = q.take(i + 1);
            assert(next.drop_last() =~= q.take(i as int));
            assert(next.last() == entries@[i as int].deep_view());
        }
        let ghost next = with_entry(a, e, freed(q), held@);
        let ghost before = writes.deep_view();
        if !entry.delete {
            let key = entry_key(entry);
            if !entry.unique {
                let empty: Vec<u8> = Vec::new();
                assert(empty.deep_view() =~= Seq::<u8>::empty());
                writes.push((key, Some(Stored::Raw(empty))));
                assert(writes.deep_view() =~= before.push(next->Ok_0.writes.last()));
            } else {
                let place: UniquePlace = (entry.index_id, entry.key.dup());
                let mine = match taken.get(&place) {
                    Some(row_id) => Some(*row_id),
                    None => None,
                };
                match mine {
                    Some(row_id) => {
                        if row_id != entry.row_id {
                            proof {
                                addition_refusal_stays(q, freed(q), held@, i + 1);
                                assert(start + a.writes =~= old(writes).deep_view() + writes_left(
                                    q,
                                    held@,
                                ));
                            }
                            return Err(unique_violation(entry.index_id));
                        }
                    },
                    None => {
                        let present = if freed_places.contains(&place) {
                            None
                        } else {
                            held.get(&place)
                        };
                        match present {
                            Some(bytes) => {
                                match decode_row_id(bytes) {
                                    Err(e) => {
                                        proof {
                                            addition_refusal_stays(q, freed(q), held@, i + 1);
                                            assert(start + a.writes =~= old(writes).deep_view() + writes_left(
                                                q,
                                                held@,
                                            ));
                                        }
                                        return Err(e);
                                    },
                                    Ok(row_id) => {
                                        if row_id != entry.row_id {
                                            proof {
                                                addition_refusal_stays(q, freed(q), held@, i + 1);
                                                assert(start + a.writes =~= old(writes).deep_view() + writes_left(
                                                    q,
                                                    held@,
                                                ));
                                            }
                                            return Err(unique_violation(entry.index_id));
                                        }
                                    },
                                }
                            },
                            None => {
                                writes.push((key, Some(Stored::Raw(encode_row_id(entry.row_id)))));
                                taken.insert(place, entry.row_id);
                                assert(writes.deep_view() =~= before.push(
                                    next->Ok_0.writes.last(),
                                ));
                            },
                        }
                    },
                }
            }
        }
        proof {
            a = next->Ok_0;
            assert(writes.deep_view() =~= start + a.writes);
        }
        i = i + 1;
    }
    proof {
        assert(q.take(q.len() as int) =~= q);
        assert(writes.deep_view() =~= old(writes).deep_view() + (removals(q) + a.writes));
    }
    Ok(())
}

/// The values of unique indexes that a commit adds, which it must read first.
pub fn places_to_read(entries: &Vec<StagedIndexEntry>) -> (out: OrdSet<UniquePlace>)
    ensures
        forall|p: (u64, Seq<u8>)| #[trigger]
            out@.contains(p) <==> exists|j: int|
                0 <= j < entries@.len() && adds_unique(#[trigger] entries.deep_view()[j]) && p == (
                    entries.deep_view()[j].index_id,
                    entries.deep_view()[j].key,
                ),
{
    let ghost q = entries.deep_view();
    let mut out: OrdSet<UniquePlace> = OrdSet::new();
    let mut i: usize = 0;
    while i < entries.len()
        invariant
            i <= entries@.len(),
            q == entries.deep_view(),
            forall|p: (u64, Seq<u8>)| #[trigger]
                out@.contains(p) <==> exists|j: int|
                    0 <= j < i && adds_unique(#[trigger] q[j]) && p == (q[j].index_id, q[j].key),
        decreases entries.len() - i,
    {
        let ghost was = out@;
        assert(q[i as int] == entries@[i as int].deep_view());
        if entries[i].unique && !entries[i].delete {
            out.insert((entries[i].index_id, entries[i].key.dup()));
        }
        proof {
            assert forall|p: (u64, Seq<u8>)| #[trigger] out@.contains(p) <==> exists|j: int|
                0 <= j < i + 1 && adds_unique(#[trigger] q[j]) && p == (q[j].index_id, q[j].key) by {
                if was.contains(p) {
                    let j = choose|j: int|
                        0 <= j < i && adds_unique(#[trigger] q[j]) && p == (
                            q[j].index_id,
                            q[j].key,
                        );
                    assert(adds_unique(q[j]));
                }
                if out@.contains(p) && !was.contains(p) {
                    assert(adds_unique(q[i as int]));
                }
            }
        }
        i = i + 1;
    }
    out
}

// ---------------------------------------------------------------------------
// Finding rows
// ---------------------------------------------------------------------------

/// Why a scanned key is refused: it is not one of a non-unique entry.
pub open spec fn not_multi(what: Seq<char>, key: KeyModel) -> Fault {
    Fault::Corruption(wrapped("non-multi key in "@, what, ": "@) + key_name(key))
}

/// The row of a non-unique entry's key.
pub open spec fn row_in_key(key: KeyModel) -> Option<u64> {
    match key {
        KeyModel::Index(IndexKeyModel::Multi { row_id, .. }) => Some(row_id),
        _ => None,
    }
}

/// The rows of the keys of non-unique entries, in order.
pub open spec fn rows_in_keys(what: Seq<char>, keys: Seq<KeyModel>) -> Result<Seq<u64>, Fault>
    decreases keys.len(),
{
    if keys.len() == 0 {
        Ok(Seq::empty())
    } else {
        match rows_in_keys(what, keys.drop_last()) {
            Err(f) => Err(f),
            Ok(rows) => match row_in_key(keys.last()) {
                Some(row_id) => Ok(rows.push(row_id)),
                None => Err(not_multi(what, keys.last())),
            },
        }
    }
}

proof fn key_refusal_stays(what: Seq<char>, keys: Seq<KeyModel>, n: int)
    requires
        0 <= n <= keys.len(),
        rows_in_keys(what, keys.take(n)) is Err,
    ensures
        rows_in_keys(what, keys) == rows_in_keys(what, keys.take(n)),
    decreases keys.len(),
{
    if n == keys.len() {
        assert(keys.take(n) =~= keys);
    } else {
        assert(keys.drop_last().take(n) =~= keys.take(n));
        key_refusal_stays(what, keys.drop_last(), n);
    }
}

fn read_keys(what: &str, keys: &Vec<Key>) -> (r: Result<Vec<u64>, Error>)
    ensures
        match rows_in_keys(what@, keys.deep_view()) {
            Err(f) => refused(r, f),
            Ok(rows) => r is Ok && r->Ok_0.deep_view() == rows,
        },
{
    let ghost q = keys.deep_view();
    let mut rows: Vec<u64> = Vec::new();
    let mut i: usize = 0;
    proof {
        assert(q.take(0) =~= Seq::<KeyModel>::empty());
        assert(rows.deep_view() =~= Seq::<u64>::empty());
    }
    while i < keys.len()
        invariant
            i <= keys@.len(),
            q == keys.deep_view(),
            rows_in_keys(what@, q.take(i as int)) == Ok::<Seq<u64>, Fault>(rows.deep_view()),
        decreases keys.len() - i,
    {
        proof {
            let next = q.take(i + 1);
            assert(next.drop_last() =~= q.take(i as int));
            assert(next.last() == keys@[i as int].deep_view());
        }
        match &keys[i] {
            Key::Index(IndexKey::Multi { row_id, .. }) => {
                let ghost was = rows.deep_view();
                rows.push(*row_id);
                assert(rows.deep_view() =~= was.push(*row_id));
            },
            other => {
                proof {
                    key_refusal_stays(what@, q, i + 1);
                }
                let mut t = text_wrapped("non-multi key in ", what, ": ");
                crate::text::push_text(&mut t, &key_text(other));
                return Err(Error::Corruption(t));
            },
        }
        i = i + 1;
    }
    assert(q.take(q.len() as int) =~= q);
    Ok(rows)
}

/// The row that holds a value of a unique index, given what the store holds
/// under its key.
pub fn lookup_unique(present: &Option<Vec<u8>>) -> (r: Result<Vec<u64>, Error>)
    ensures
        match present.deep_view() {
            None => r is Ok && r->Ok_0@ == Seq::<u64>::empty(),
            Some(bytes) => match row_id_refusal(bytes) {
                Some(f) => refused(r, f),
                None => r is Ok && r->Ok_0@ == seq![spelled(bytes) as u64] && spelled(bytes)
                    <= u64::MAX,
            },
        },
{
    match present {
        None => {
            let rows: Vec<u64> = Vec::new();
            Ok(rows)
        },
        Some(bytes) => match decode_row_id(bytes) {
            Err(e) => Err(e),
            Ok(row_id) => {
                let rows: Vec<u64> = vec![row_id];
                assert(rows@ =~= seq![row_id]);
                Ok(rows)
            },
        },
    }
}

/// The rows that hold a value of a non-unique index, given the keys under the
/// value.
pub fn lookup_row_ids(keys: &Vec<Key>) -> (r: Result<Vec<u64>, Error>)
    ensures
        match rows_in_keys("index scan"@, keys.deep_view()) {
            Err(f) => refused(r, f),
            Ok(rows) => r is Ok && r->Ok_0.deep_view() == rows,
        },
{
    read_keys("index scan", keys)
}

/// The rows whose leading columns match a run of values and NULLs, given the
/// keys that begin with the run. A row with a NULL is stored with its row id in
/// the key, whatever the index.
pub fn null_prefix_row_ids(keys: &Vec<Key>) -> (r: Result<Vec<u64>, Error>)
    ensures
        match rows_in_keys("null-prefix scan"@, keys.deep_view()) {
            Err(f) => refused(r, f),
            Ok(rows) => r is Ok && r->Ok_0.deep_view() == rows,
        },
{
    read_keys("null-prefix scan", keys)
}

/// The bytes that the keys of a run of values begin with: the framed run
/// without its terminator.
pub fn null_scan_prefix(framed: &Vec<u8>) -> (prefix: Vec<u8>)
    ensures
        prefix.deep_view() == unframed(framed.deep_view()),
{
    let mut prefix = framed.dup();
    let _ = prefix.pop();
    assert(prefix.deep_view() =~= unframed(framed.deep_view()));
    prefix
}

/// Framed bytes without their terminator.
pub open spec fn unframed(framed: Seq<u8>) -> Seq<u8> {
    if framed.len() == 0 {
        framed
    } else {
        framed.drop_last()
    }
}

/// One side of a range.
#[derive(Debug, PartialEq, Eq)]
pub enum Edge {
    Included(Vec<u8>),
    Excluded(Vec<u8>),
    Unbounded,
}

/// The model of [`Edge`].
pub enum EdgeModel {
    Included(Seq<u8>),
    Excluded(Seq<u8>),
    Unbounded,
}

impl View for Edge {
    type V = EdgeModel;

    open spec fn view(&self) -> EdgeModel {
        match *self {
            Edge::Included(b) => EdgeModel::Included(b.deep_view()),
            Edge::Excluded(b) => EdgeModel::Excluded(b.deep_view()),
            Edge::Unbounded => EdgeModel::Unbounded,
        }
    }
}

/// Whether bytes are on the inner side of a lower edge.
pub open spec fn from_edge(s: Seq<u8>, edge: EdgeModel) -> bool {
    match edge {
        EdgeModel::Included(b) => !bytes_below(s, b),
        EdgeModel::Excluded(b) => bytes_below(b, s),
        EdgeModel::Unbounded => true,
    }
}

/// Whether bytes are on the inner side of an upper edge.
pub open spec fn to_edge(s: Seq<u8>, edge: EdgeModel) -> bool {
    match edge {
        EdgeModel::Included(b) => !bytes_below(b, s),
        EdgeModel::Excluded(b) => bytes_below(s, b),
        EdgeModel::Unbounded => true,
    }
}

/// Whether the key of an entry, after the index's prefix, is on the inner side
/// of a lower bound. An entry shares a bound's value where its key begins with
/// the unframed bound.
pub open spec fn above_lower(s: Seq<u8>, lower: EdgeModel) -> bool {
    match lower {
        EdgeModel::Included(framed) => !bytes_below(s, framed),
        EdgeModel::Excluded(framed) => !bytes_below(s, unframed(framed)) && !begins_with(
            s,
            unframed(framed),
        ),
        EdgeModel::Unbounded => true,
    }
}

/// Whether the key of an entry, after the index's prefix, is on the inner side
/// of an upper bound.
pub open spec fn below_upper(s: Seq<u8>, upper: EdgeModel) -> bool {
    match upper {
        EdgeModel::Included(framed) => bytes_below(s, unframed(framed)) || begins_with(
            s,
            unframed(framed),
        ),
        EdgeModel::Excluded(framed) => bytes_below(s, framed),
        EdgeModel::Unbounded => true,
    }
}

/// The least bytes above every entry that shares a bound's value, or a value
/// that extends it.
fn above_value(framed: &Vec<u8>) -> (above: Option<Vec<u8>>)
    ensures
        match above {
            Some(b) => ends_extensions(b.deep_view(), unframed(framed.deep_view())),
            None => all_top(unframed(framed.deep_view())),
        },
{
    let body = null_scan_prefix(framed);
    increment_prefix(&body)
}

/// Where a scan of a range starts. An excluded bound leaves out every entry
/// that shares its value. Where nothing lies above those entries, the scan
/// starts after the bound itself.
pub fn range_start(lower: Edge) -> (start: Edge)
    ensures
        lower@ is Excluded && all_top(unframed(lower@->Excluded_0)) ==> start@ == lower@,
        !(lower@ is Excluded && all_top(unframed(lower@->Excluded_0))) ==> forall|s: Seq<u8>|
            #[trigger] from_edge(s, start@) == above_lower(s, lower@),
{
    match lower {
        Edge::Included(framed) => Edge::Included(framed),
        Edge::Excluded(framed) => match above_value(&framed) {
            Some(above) => {
                let ghost b = above.deep_view();
                let ghost p = unframed(framed.deep_view());
                proof {
                    top_has_no_end(b, p);
                    assert forall|s: Seq<u8>| #[trigger]
                        from_edge(s, EdgeModel::Included(b)) == above_lower(
                            s,
                            EdgeModel::Excluded(framed.deep_view()),
                        ) by {
                        assert(bytes_below(s, b) <==> bytes_below(s, p) || begins_with(s, p));
                    }
                }
                Edge::Included(above)
            },
            None => Edge::Excluded(framed),
        },
        Edge::Unbounded => Edge::Unbounded,
    }
}

/// No bytes end the extensions of a prefix of largest bytes.
proof fn top_has_no_end(above: Seq<u8>, prefix: Seq<u8>)
    requires
        ends_extensions(above, prefix),
    ensures
        !all_top(prefix),
{
    if all_top(prefix) {
        crate::bytes::at_top(above, prefix);
        assert(bytes_below(above, above));
        crate::bytes::bytes_below_strict(above, above);
    }
}

/// Where a scan of a range ends: every entry that shares an included bound's
/// value is in the range.
pub fn range_end(upper: Edge) -> (end: Edge)
    ensures
        forall|s: Seq<u8>| #[trigger] to_edge(s, end@) == below_upper(s, upper@),
{
    match upper {
        Edge::Included(framed) => match above_value(&framed) {
            Some(above) => {
                let ghost b = above.deep_view();
                let ghost p = unframed(framed.deep_view());
                proof {
                    assert forall|s: Seq<u8>| #[trigger]
                        to_edge(s, EdgeModel::Excluded(b)) == below_upper(
                            s,
                            EdgeModel::Included(framed.deep_view()),
                        ) by {
                        assert(bytes_below(s, b) <==> bytes_below(s, p) || begins_with(s, p));
                    }
                }
                Edge::Excluded(above)
            },
            None => {
                proof {
                    assert forall|s: Seq<u8>| #[trigger]
                        to_edge(s, EdgeModel::Unbounded) == below_upper(
                            s,
                            EdgeModel::Included(framed.deep_view()),
                        ) by {
                        crate::bytes::at_top(s, unframed(framed.deep_view()));
                    }
                }
                Edge::Unbounded
            },
        },
        Edge::Excluded(framed) => Edge::Excluded(framed),
        Edge::Unbounded => Edge::Unbounded,
    }
}

/// The rows of scanned entries, in order.
pub open spec fn rows_in_range(unique: bool, entries: Seq<(KeyModel, Seq<u8>)>) -> Result<
    Seq<u64>,
    Fault,
>
    decreases entries.len(),
{
    if entries.len() == 0 {
        Ok(Seq::empty())
    } else {
        let (key, value) = entries.last();
        match rows_in_range(unique, entries.drop_last()) {
            Err(f) => Err(f),
            Ok(rows) => if unique {
                match row_id_refusal(value) {
                    Some(f) => Err(f),
                    None => Ok(rows.push(spelled(value) as u64)),
                }
            } else {
                match row_in_key(key) {
                    Some(row_id) => Ok(rows.push(row_id)),
                    None => Err(not_multi("index range scan"@, key)),
                }
            },
        }
    }
}

proof fn range_refusal_stays(unique: bool, entries: Seq<(KeyModel, Seq<u8>)>, n: int)
    requires
        0 <= n <= entries.len(),
        rows_in_range(unique, entries.take(n)) is Err,
    ensures
        rows_in_range(unique, entries) == rows_in_range(unique, entries.take(n)),
    decreases entries.len(),
{
    if n == entries.len() {
        assert(entries.take(n) =~= entries);
    } else {
        assert(entries.drop_last().take(n) =~= entries.take(n));
        range_refusal_stays(unique, entries.drop_last(), n);
    }
}

/// The rows of the entries that a scan of a range gave. A unique entry's row is
/// its value, another one's is in its key.
pub fn range_row_ids(unique: bool, entries: &Vec<(Key, Vec<u8>)>) -> (r: Result<Vec<u64>, Error>)
    ensures
        match rows_in_range(unique, entries.deep_view()) {
            Err(f) => refused(r, f),
            Ok(rows) => r is Ok && r->Ok_0.deep_view() == rows,
        },
{
    let ghost q = entries.deep_view();
    let mut rows: Vec<u64> = Vec::new();
    let mut i: usize = 0;
    proof {
        assert(q.take(0) =~= Seq::<(KeyModel, Seq<u8>)>::empty());
        assert(rows.deep_view() =~= Seq::<u64>::empty());
    }
    while i < entries.len()
        invariant
            i <= entries@.len(),
            q == entries.deep_view(),
            rows_in_range(unique, q.take(i as int)) == Ok::<Seq<u64>, Fault>(rows.deep_view()),
        decreases entries.len() - i,
    {
        proof {
            let next = q.take(i + 1);
            assert(next.drop_last() =~= q.take(i as int));
            assert(next.last() == entries@[i as int].deep_view());
        }
        let ghost was = rows.deep_view();
        if unique {
            match decode_row_id(&entries[i].1) {
                Err(e) => {
                    proof {
                        range_refusal_stays(unique, q, i + 1);
                    }
                    return Err(e);
                },
                Ok(row_id) => {
                    rows.push(row_id);
                    assert(rows.deep_view() =~= was.push(row_id));
                },
            }
        } else {
            match &entries[i].0 {
                Key::Index(IndexKey::Multi { row_id, .. }) => {
                    rows.push(*row_id);
                    assert(rows.deep_view() =~= was.push(*row_id));
                },
                other => {
                    proof {
                        range_refusal_stays(unique, q, i + 1);
                    }
                    let mut t = text_wrapped("non-multi key in ", "index range scan", ": ");
                    crate::text::push_text(&mut t, &key_text(other));
                    return Err(Error::Corruption(t));
                },
            }
        }
        i = i + 1;
    }
    assert(q.take(q.len() as int) =~= q);
    Ok(rows)
}

// ---------------------------------------------------------------------------
// Reclaiming
// ---------------------------------------------------------------------------

/// Where a scan of an index's entries resumes, as bytes after the index's
/// prefix: at the key that was reached, or at the start.
pub open spec fn resumed(prefix: Seq<u8>, reached: Option<Seq<u8>>) -> Seq<u8> {
    match reached {
        Some(key) => if key.len() >= prefix.len() {
            key.skip(prefix.len() as int)
        } else {
            Seq::empty()
        },
        None => Seq::empty(),
    }
}

/// Where a scan of an index's entries resumes.
pub fn resume_suffix(prefix: &Vec<u8>, reached: &Option<Vec<u8>>) -> (suffix: Vec<u8>)
    ensures
        suffix.deep_view() == resumed(prefix.deep_view(), reached.deep_view()),
{
    let mut suffix: Vec<u8> = Vec::new();
    assert(suffix.deep_view() =~= Seq::<u8>::empty());
    match reached {
        Some(key) => {
            if key.len() >= prefix.len() {
                let ghost q = key.deep_view();
                let ghost tail = q.skip(prefix@.len() as int);
                let mut i: usize = prefix.len();
                assert(tail.take(0) =~= Seq::<u8>::empty());
                while i < key.len()
                    invariant
                        prefix@.len() <= i <= key@.len(),
                        q == key.deep_view(),
                        tail == q.skip(prefix@.len() as int),
                        suffix.deep_view() == tail.take(i - prefix@.len()),
                    decreases key.len() - i,
                {
                    let ghost was = suffix.deep_view();
                    suffix.push(key[i]);
                    assert(suffix.deep_view() =~= was.push(q[i as int]));
                    i = i + 1;
                    assert(suffix.deep_view() =~= tail.take(i - prefix@.len()));
                }
                assert(tail.take(tail.len() as int) =~= tail);
            }
        },
        None => {},
    }
    suffix
}

/// The first keys of a scan, at most so many.
pub open spec fn batch(keys: Seq<Seq<u8>>, limit: nat) -> Seq<Seq<u8>> {
    if keys.len() <= limit {
        keys
    } else {
        keys.take(limit as int)
    }
}

/// The last of some keys.
pub open spec fn last_key(keys: Seq<Seq<u8>>) -> Option<Seq<u8>> {
    if keys.len() == 0 {
        None
    } else {
        Some(keys.last())
    }
}

/// The keys that one batch deletes of the entries of a dropped index, and the
/// last of them, where the next batch resumes.
pub fn reclaim_entries_from(scanned: &Vec<Vec<u8>>, limit: usize) -> (r: (
    Vec<Vec<u8>>,
    Option<Vec<u8>>,
))
    ensures
        r.0.deep_view() == batch(scanned.deep_view(), limit as nat),
        r.1.deep_view() == last_key(r.0.deep_view()),
{
    let ghost q = scanned.deep_view();
    let mut keys: Vec<Vec<u8>> = Vec::new();
    let mut last: Option<Vec<u8>> = None;
    let mut i: usize = 0;
    assert(keys.deep_view() =~= q.take(0));
    while i < scanned.len() && i < limit
        invariant
            i <= scanned@.len(),
            i <= limit,
            q == scanned.deep_view(),
            keys.deep_view() == q.take(i as int),
            last.deep_view() == last_key(q.take(i as int)),
        decreases scanned.len() - i,
    {
        let ghost was = keys.deep_view();
        let key = scanned[i].dup();
        last = Some(scanned[i].dup());
        keys.push(key);
        proof {
            assert(q[i as int] == scanned@[i as int].deep_view());
            assert(keys.deep_view() =~= was.push(key.deep_view()));
            assert(q.take(i + 1) =~= q.take(i as int).push(q[i as int]));
        }
        i = i + 1;
    }
    assert(q.take(q.len() as int) =~= q);
    (keys, last)
}

/// The keys that one batch deletes of a dropped index: of its unique entries,
/// and of its other entries as far as the limit allows.
pub fn reclaim_entries(unique: &Vec<Vec<u8>>, multi: &Vec<Vec<u8>>, limit: usize) -> (keys: Vec<
    Vec<u8>,
>)
    ensures
        keys.deep_view() == batch(unique.deep_view() + multi.deep_view(), limit as nat),
{
    let (mut keys, _) = reclaim_entries_from(unique, limit);
    let ghost first = keys.deep_view();
    let (more, _) = reclaim_entries_from(multi, limit - keys.len());
    let ghost q = more.deep_view();
    let mut i: usize = 0;
    assert(first + q.take(0) =~= first);
    while i < more.len()
        invariant
            i <= more@.len(),
            q == more.deep_view(),
            keys.deep_view() == first + q.take(i as int),
        decreases more.len() - i,
    {
        let ghost was = keys.deep_view();
        let key = more[i].dup();
        keys.push(key);
        proof {
            assert(q[i as int] == more@[i as int].deep_view());
            assert(keys.deep_view() =~= was.push(key.deep_view()));
            assert(q.take(i + 1) =~= q.take(i as int).push(q[i as int]));
        }
        i = i + 1;
        assert(keys.deep_view() =~= first + q.take(i as int));
    }
    assert(keys.deep_view() =~= batch(unique.deep_view() + multi.deep_view(), limit as nat));
    keys
}

/// Where an addition of index entries is refused, what is staged is the removals
/// and the additions before it.
pub proof fn refused_entries_leave_those_before(
    entries: Seq<IndexEntryModel>,
    out: Set<(u64, Seq<u8>)>,
    held: Map<(u64, Seq<u8>), Seq<u8>>,
) -> (n: int)
    ensures
        0 <= n <= entries.len(),
        additions(entries.take(n), out, held) == Ok::<AddingModel, Fault>(
            accepted(entries, out, held),
        ),
        n == entries.len() || additions(entries.take(n + 1), out, held) is Err,
        writes_left(entries, held) == removals(entries) + accepted(
            entries,
            freed(entries),
            held,
        ).writes,
    decreases entries.len(),
{
    if entries.len() == 0 {
        assert(entries.take(0) =~= entries);
        0
    } else {
        let front = entries.drop_last();
        let n = refused_entries_leave_those_before(front, out, held);
        assert(front.take(n) =~= entries.take(n));
        if n < front.len() {
            assert(front.take(n + 1) =~= entries.take(n + 1));
            addition_refusal_stays(front, out, held, n + 1);
            n
        } else {
            assert(front.take(n) =~= front);
            assert(entries.take(n + 1) =~= entries);
            if additions(entries, out, held) is Ok {
                n + 1
            } else {
                n
            }
        }
    }
}

} // verus!
