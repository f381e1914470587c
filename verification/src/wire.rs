//! What the text of a change set gives back when it is read.
use crate::grammar::{
    entries_of, joined_splits, name_payload_reads_back, pair_payload_reads_back, passes, passes_both,
    passes_plain, passes_quoted, quoted, whole,
};
use crate::operations::{
    changes_text, finite, first_colon, id_entries, id_entry, id_word, ids, kind_named, no_changes,
    noted_entries, noted_entry, noted_payload, pair_entries, pair_entry, pair_word, pairs, parsed,
    schema_entries, schema_entry, wire_entries, wire_part, with_ids, with_pairs, ChangeModel,
    EntryKind, IdKind, PairKind,
};
use crate::ordered::{ascending, finite_sets_ascend, pushed_elements};
use crate::text::{decimal, folded, numeral, numeral_reads_decimal, same_folded};
use vstd::prelude::*;

verus! {

/// A word of small letters and underscores.
pub open spec fn plain_word(t: Seq<char>) -> bool {
    t.len() > 0 && forall|i: int| 0 <= i < t.len() ==> 'a' <= #[trigger] t[i] <= 'z' || t[i] == '_'
}

proof fn word_created_schema()
    ensures
        plain_word("created_schema"@),
        "created_schema"@.len() == 14,
        "created_schema"@[0] == 'c',
{
    reveal_strlit("created_schema");
    let s = seq!['c', 'r', 'e', 'a', 't', 'e', 'd', '_', 's', 'c', 'h', 'e', 'm', 'a'];
    assert("created_schema"@ =~= s);
    assert forall|i: int| 0 <= i < s.len() implies 'a' <= #[trigger] s[i] <= 'z' || s[i] == '_' by {}
}

proof fn word_created_table()
    ensures
        plain_word("created_table"@),
        "created_table"@.len() == 13,
        "created_table"@[0] == 'c',
{
    reveal_strlit("created_table");
    let s = seq!['c', 'r', 'e', 'a', 't', 'e', 'd', '_', 't', 'a', 'b', 'l', 'e'];
    assert("created_table"@ =~= s);
    assert forall|i: int| 0 <= i < s.len() implies 'a' <= #[trigger] s[i] <= 'z' || s[i] == '_' by {}
}

proof fn word_created_view()
    ensures
        plain_word("created_view"@),
        "created_view"@.len() == 12,
        "created_view"@[0] == 'c',
{
    reveal_strlit("created_view");
    let s = seq!['c', 'r', 'e', 'a', 't', 'e', 'd', '_', 'v', 'i', 'e', 'w'];
    assert("created_view"@ =~= s);
    assert forall|i: int| 0 <= i < s.len() implies 'a' <= #[trigger] s[i] <= 'z' || s[i] == '_' by {}
}

proof fn word_created_scalar_macro()
    ensures
        plain_word("created_scalar_macro"@),
        "created_scalar_macro"@.len() == 20,
        "created_scalar_macro"@[0] == 'c',
{
    reveal_strlit("created_scalar_macro");
    let s = seq!['c', 'r', 'e', 'a', 't', 'e', 'd', '_', 's', 'c', 'a', 'l', 'a', 'r', '_', 'm', 'a', 'c', 'r', 'o'];
    assert("created_scalar_macro"@ =~= s);
    assert forall|i: int| 0 <= i < s.len() implies 'a' <= #[trigger] s[i] <= 'z' || s[i] == '_' by {}
}

proof fn word_created_table_macro()
    ensures
        plain_word("created_table_macro"@),
        "created_table_macro"@.len() == 19,
        "created_table_macro"@[0] == 'c',
{
    reveal_strlit("created_table_macro");
    let s = seq!['c', 'r', 'e', 'a', 't', 'e', 'd', '_', 't', 'a', 'b', 'l', 'e', '_', 'm', 'a', 'c', 'r', 'o'];
    assert("created_table_macro"@ =~= s);
    assert forall|i: int| 0 <= i < s.len() implies 'a' <= #[trigger] s[i] <= 'z' || s[i] == '_' by {}
}

proof fn word_dropped_schema()
    ensures
        plain_word("dropped_schema"@),
        "dropped_schema"@.len() == 14,
        "dropped_schema"@[0] == 'd',
{
    reveal_strlit("dropped_schema");
    let s = seq!['d', 'r', 'o', 'p', 'p', 'e', 'd', '_', 's', 'c', 'h', 'e', 'm', 'a'];
    assert("dropped_schema"@ =~= s);
    assert forall|i: int| 0 <= i < s.len() implies 'a' <= #[trigger] s[i] <= 'z' || s[i] == '_' by {}
}

proof fn word_dropped_table()
    ensures
        plain_word("dropped_table"@),
        "dropped_table"@.len() == 13,
        "dropped_table"@[0] == 'd',
{
    reveal_strlit("dropped_table");
    let s = seq!['d', 'r', 'o', 'p', 'p', 'e', 'd', '_', 't', 'a', 'b', 'l', 'e'];
    assert("dropped_table"@ =~= s);
    assert forall|i: int| 0 <= i < s.len() implies 'a' <= #[trigger] s[i] <= 'z' || s[i] == '_' by {}
}

proof fn word_dropped_view()
    ensures
        plain_word("dropped_view"@),
        "dropped_view"@.len() == 12,
        "dropped_view"@[0] == 'd',
{
    reveal_strlit("dropped_view");
    let s = seq!['d', 'r', 'o', 'p', 'p', 'e', 'd', '_', 'v', 'i', 'e', 'w'];
    assert("dropped_view"@ =~= s);
    assert forall|i: int| 0 <= i < s.len() implies 'a' <= #[trigger] s[i] <= 'z' || s[i] == '_' by {}
}

proof fn word_dropped_scalar_macro()
    ensures
        plain_word("dropped_scalar_macro"@),
        "dropped_scalar_macro"@.len() == 20,
        "dropped_scalar_macro"@[0] == 'd',
{
    reveal_strlit("dropped_scalar_macro");
    let s = seq!['d', 'r', 'o', 'p', 'p', 'e', 'd', '_', 's', 'c', 'a', 'l', 'a', 'r', '_', 'm', 'a', 'c', 'r', 'o'];
    assert("dropped_scalar_macro"@ =~= s);
    assert forall|i: int| 0 <= i < s.len() implies 'a' <= #[trigger] s[i] <= 'z' || s[i] == '_' by {}
}

proof fn word_dropped_table_macro()
    ensures
        plain_word("dropped_table_macro"@),
        "dropped_table_macro"@.len() == 19,
        "dropped_table_macro"@[0] == 'd',
{
    reveal_strlit("dropped_table_macro");
    let s = seq!['d', 'r', 'o', 'p', 'p', 'e', 'd', '_', 't', 'a', 'b', 'l', 'e', '_', 'm', 'a', 'c', 'r', 'o'];
    assert("dropped_table_macro"@ =~= s);
    assert forall|i: int| 0 <= i < s.len() implies 'a' <= #[trigger] s[i] <= 'z' || s[i] == '_' by {}
}

proof fn word_inserted_into_table()
    ensures
        plain_word("inserted_into_table"@),
        "inserted_into_table"@.len() == 19,
        "inserted_into_table"@[0] == 'i',
{
    reveal_strlit("inserted_into_table");
    let s = seq!['i', 'n', 's', 'e', 'r', 't', 'e', 'd', '_', 'i', 'n', 't', 'o', '_', 't', 'a', 'b', 'l', 'e'];
    assert("inserted_into_table"@ =~= s);
    assert forall|i: int| 0 <= i < s.len() implies 'a' <= #[trigger] s[i] <= 'z' || s[i] == '_' by {}
}

proof fn word_deleted_from_table()
    ensures
        plain_word("deleted_from_table"@),
        "deleted_from_table"@.len() == 18,
        "deleted_from_table"@[0] == 'd',
{
    reveal_strlit("deleted_from_table");
    let s = seq!['d', 'e', 'l', 'e', 't', 'e', 'd', '_', 'f', 'r', 'o', 'm', '_', 't', 'a', 'b', 'l', 'e'];
    assert("deleted_from_table"@ =~= s);
    assert forall|i: int| 0 <= i < s.len() implies 'a' <= #[trigger] s[i] <= 'z' || s[i] == '_' by {}
}

proof fn word_altered_table()
    ensures
        plain_word("altered_table"@),
        "altered_table"@.len() == 13,
        "altered_table"@[0] == 'a',
{
    reveal_strlit("altered_table");
    let s = seq!['a', 'l', 't', 'e', 'r', 'e', 'd', '_', 't', 'a', 'b', 'l', 'e'];
    assert("altered_table"@ =~= s);
    assert forall|i: int| 0 <= i < s.len() implies 'a' <= #[trigger] s[i] <= 'z' || s[i] == '_' by {}
}

proof fn word_altered_view()
    ensures
        plain_word("altered_view"@),
        "altered_view"@.len() == 12,
        "altered_view"@[0] == 'a',
{
    reveal_strlit("altered_view");
    let s = seq!['a', 'l', 't', 'e', 'r', 'e', 'd', '_', 'v', 'i', 'e', 'w'];
    assert("altered_view"@ =~= s);
    assert forall|i: int| 0 <= i < s.len() implies 'a' <= #[trigger] s[i] <= 'z' || s[i] == '_' by {}
}

proof fn word_merge_adjacent()
    ensures
        plain_word("merge_adjacent"@),
        "merge_adjacent"@.len() == 14,
        "merge_adjacent"@[0] == 'm',
{
    reveal_strlit("merge_adjacent");
    let s = seq!['m', 'e', 'r', 'g', 'e', '_', 'a', 'd', 'j', 'a', 'c', 'e', 'n', 't'];
    assert("merge_adjacent"@ =~= s);
    assert forall|i: int| 0 <= i < s.len() implies 'a' <= #[trigger] s[i] <= 'z' || s[i] == '_' by {}
}

proof fn word_rewrite_delete()
    ensures
        plain_word("rewrite_delete"@),
        "rewrite_delete"@.len() == 14,
        "rewrite_delete"@[0] == 'r',
{
    reveal_strlit("rewrite_delete");
    let s = seq!['r', 'e', 'w', 'r', 'i', 't', 'e', '_', 'd', 'e', 'l', 'e', 't', 'e'];
    assert("rewrite_delete"@ =~= s);
    assert forall|i: int| 0 <= i < s.len() implies 'a' <= #[trigger] s[i] <= 'z' || s[i] == '_' by {}
}

proof fn word_compacted_table()
    ensures
        plain_word("compacted_table"@),
        "compacted_table"@.len() == 15,
        "compacted_table"@[0] == 'c',
{
    reveal_strlit("compacted_table");
    let s = seq!['c', 'o', 'm', 'p', 'a', 'c', 't', 'e', 'd', '_', 't', 'a', 'b', 'l', 'e'];
    assert("compacted_table"@ =~= s);
    assert forall|i: int| 0 <= i < s.len() implies 'a' <= #[trigger] s[i] <= 'z' || s[i] == '_' by {}
}

/// Every word differs from every other in its length or its first letter.
proof fn words()
    ensures
        plain_word("created_schema"@),
        "created_schema"@.len() == 14,
        "created_schema"@[0] == 'c',
        plain_word("created_table"@),
        "created_table"@.len() == 13,
        "created_table"@[0] == 'c',
        plain_word("created_view"@),
        "created_view"@.len() == 12,
        "created_view"@[0] == 'c',
        plain_word("created_scalar_macro"@),
        "created_scalar_macro"@.len() == 20,
        "created_scalar_macro"@[0] == 'c',
        plain_word("created_table_macro"@),
        "created_table_macro"@.len() == 19,
        "created_table_macro"@[0] == 'c',
        plain_word("dropped_schema"@),
        "dropped_schema"@.len() == 14,
        "dropped_schema"@[0] == 'd',
        plain_word("dropped_table"@),
        "dropped_table"@.len() == 13,
        "dropped_table"@[0] == 'd',
        plain_word("dropped_view"@),
        "dropped_view"@.len() == 12,
        "dropped_view"@[0] == 'd',
        plain_word("dropped_scalar_macro"@),
        "dropped_scalar_macro"@.len() == 20,
        "dropped_scalar_macro"@[0] == 'd',
        plain_word("dropped_table_macro"@),
        "dropped_table_macro"@.len() == 19,
        "dropped_table_macro"@[0] == 'd',
        plain_word("inserted_into_table"@),
        "inserted_into_table"@.len() == 19,
        "inserted_into_table"@[0] == 'i',
        plain_word("deleted_from_table"@),
        "deleted_from_table"@.len() == 18,
        "deleted_from_table"@[0] == 'd',
        plain_word("altered_table"@),
        "altered_table"@.len() == 13,
        "altered_table"@[0] == 'a',
        plain_word("altered_view"@),
        "altered_view"@.len() == 12,
        "altered_view"@[0] == 'a',
        plain_word("merge_adjacent"@),
        "merge_adjacent"@.len() == 14,
        "merge_adjacent"@[0] == 'm',
        plain_word("rewrite_delete"@),
        "rewrite_delete"@.len() == 14,
        "rewrite_delete"@[0] == 'r',
        plain_word("compacted_table"@),
        "compacted_table"@.len() == 15,
        "compacted_table"@[0] == 'c',
{
    word_created_schema();
    word_created_table();
    word_created_view();
    word_created_scalar_macro();
    word_created_table_macro();
    word_dropped_schema();
    word_dropped_table();
    word_dropped_view();
    word_dropped_scalar_macro();
    word_dropped_table_macro();
    word_inserted_into_table();
    word_deleted_from_table();
    word_altered_table();
    word_altered_view();
    word_merge_adjacent();
    word_rewrite_delete();
    word_compacted_table();
}

proof fn differs(a: Seq<char>, b: Seq<char>)
    requires
        plain_word(a),
        plain_word(b),
        a.len() != b.len() || a[0] != b[0],
    ensures
        !same_folded(a, b),
{
    if a.len() == b.len() {
        assert(folded(a[0]) != folded(b[0]));
    }
}

/// Each word names its own kind.
proof fn words_name_their_kinds()
    ensures
        kind_named("created_schema"@) == Some(EntryKind::CreatedSchema),
        kind_named("dropped_schema"@) == Some(EntryKind::Id(IdKind::DroppedSchema)),
        kind_named("created_table"@) == Some(EntryKind::Pair(PairKind::CreatedTable)),
        kind_named("altered_table"@) == Some(EntryKind::Id(IdKind::AlteredTable)),
        kind_named("dropped_table"@) == Some(EntryKind::Id(IdKind::DroppedTable)),
        kind_named("created_view"@) == Some(EntryKind::Pair(PairKind::CreatedView)),
        kind_named("altered_view"@) == Some(EntryKind::Id(IdKind::AlteredView)),
        kind_named("dropped_view"@) == Some(EntryKind::Id(IdKind::DroppedView)),
        kind_named("created_scalar_macro"@) == Some(EntryKind::Pair(PairKind::CreatedScalarMacro)),
        kind_named("created_table_macro"@) == Some(EntryKind::Pair(PairKind::CreatedTableMacro)),
        kind_named("dropped_scalar_macro"@) == Some(EntryKind::Id(IdKind::DroppedScalarMacro)),
        kind_named("dropped_table_macro"@) == Some(EntryKind::Id(IdKind::DroppedTableMacro)),
        kind_named("inserted_into_table"@) == Some(EntryKind::Id(IdKind::InsertedIntoTable)),
        kind_named("deleted_from_table"@) == Some(EntryKind::Id(IdKind::DeletedFromTable)),
        kind_named("merge_adjacent"@) == Some(EntryKind::Id(IdKind::MergeAdjacent)),
        kind_named("rewrite_delete"@) == Some(EntryKind::Id(IdKind::RewriteDelete)),
        kind_named("compacted_table"@) == Some(EntryKind::Id(IdKind::CompactedTable)),
{
    words();
    assert forall|a: Seq<char>, b: Seq<char>|
        plain_word(a) && plain_word(b) && (a.len() != b.len() || a[0]
            != b[0]) implies !#[trigger] same_folded(a, b) by {
        differs(a, b);
    }
}

proof fn id_words(k: IdKind)
    ensures
        plain_word(id_word(k)),
        kind_named(id_word(k)) == Some(EntryKind::Id(k)),
{
    words();
    words_name_their_kinds();
}

proof fn pair_words(k: PairKind)
    ensures
        plain_word(pair_word(k)),
        kind_named(pair_word(k)) == Some(EntryKind::Pair(k)),
{
    words();
    words_name_their_kinds();
}

/// Behind a word, a colon is the first colon.
proof fn colon_after_word(word: Seq<char>, rest: Seq<char>)
    requires
        forall|i: int| 0 <= i < word.len() ==> word[i] != ':',
    ensures
        first_colon(word + seq![':'] + rest) == word.len(),
    decreases word.len(),
{
    let t = word + seq![':'] + rest;
    if word.len() > 0 {
        assert(t[0] == word[0]);
        assert(t.skip(1) =~= word.skip(1) + seq![':'] + rest);
        colon_after_word(word.skip(1), rest);
    }
}

/// An entry with a plain word is taken apart into word and payload.
proof fn entry_parts(m: ChangeModel, word: Seq<char>, k: EntryKind, payload: Seq<char>)
    requires
        plain_word(word),
        kind_named(word) == Some(k),
    ensures
        noted_entry(m, word + seq![':'] + payload) == noted_payload(m, k, payload),
{
    let t = word + seq![':'] + payload;
    colon_after_word(word, payload);
    assert(t.take(word.len() as int) =~= word);
    assert(t.skip(word.len() as int + 1) =~= payload);
}

proof fn word_passes(word: Seq<char>)
    requires
        plain_word(word),
    ensures
        passes(word + seq![':'], false, false),
{
    let t = word + seq![':'];
    assert forall|i: int| 0 <= i < t.len() implies t[i] != ',' && t[i] != '"' by {
        if i < word.len() {
            assert(t[i] == word[i]);
        }
    }
    passes_plain(t, false);
}

proof fn id_entry_is_whole(k: IdKind, id: u64)
    ensures
        whole(id_entry(k, id)),
{
    id_words(k);
    word_passes(id_word(k));
    numeral_reads_decimal(id);
    let d = decimal(id as nat);
    assert forall|i: int| 0 <= i < d.len() implies d[i] != ',' && d[i] != '"' by {
        assert(crate::text::is_digit(d[i]));
    }
    passes_plain(d, false);
    passes_both(id_word(k) + seq![':'], d, false, false, false);
}

proof fn pair_entry_is_whole(k: PairKind, pair: (Seq<char>, Seq<char>))
    ensures
        whole(pair_entry(k, pair)),
{
    pair_words(k);
    word_passes(pair_word(k));
    passes_quoted(pair.0);
    passes_quoted(pair.1);
    passes_plain(seq!['.'], false);
    passes_both(quoted(pair.0), seq!['.'], false, false, false);
    passes_both(quoted(pair.0) + seq!['.'], quoted(pair.1), false, false, false);
    passes_both(
        pair_word(k) + seq![':'],
        quoted(pair.0) + seq!['.'] + quoted(pair.1),
        false,
        false,
        false,
    );
}

proof fn schema_entry_is_whole(name: Seq<char>)
    ensures
        whole(schema_entry(name)),
{
    words();
    word_passes("created_schema"@);
    passes_quoted(name);
    passes_both("created_schema"@ + seq![':'], quoted(name), false, false, false);
}

proof fn noted_both(m: ChangeModel, a: Seq<Seq<char>>, b: Seq<Seq<char>>)
    ensures
        noted_entries(m, a + b) == noted_entries(noted_entries(m, a), b),
    decreases b.len(),
{
    if b.len() == 0 {
        assert(a + b =~= a);
    } else {
        noted_both(m, a, b.drop_last());
        assert((a + b).drop_last() =~= a + b.drop_last());
        assert((a + b).last() == b.last());
    }
}

proof fn noted_ids(m: ChangeModel, k: IdKind, q: Seq<u64>)
    ensures
        noted_entries(m, id_entries(k, q)) == with_ids(m, k, ids(m, k).union(q.to_set())),
    decreases q.len(),
{
    let es = id_entries(k, q);
    if q.len() == 0 {
        assert(ids(m, k).union(q.to_set()) =~= ids(m, k));
    } else {
        let front = q.drop_last();
        let id = q.last();
        noted_ids(m, k, front);
        assert(es.drop_last() =~= id_entries(k, front));
        assert(es.last() == id_entry(k, id));
        let n = with_ids(m, k, ids(m, k).union(front.to_set()));
        id_words(k);
        numeral_reads_decimal(id);
        entry_parts(n, id_word(k), EntryKind::Id(k), decimal(id as nat));
        pushed_elements(front, id);
        assert(front.push(id) =~= q);
        assert(ids(n, k).insert(id) =~= ids(m, k).union(q.to_set()));
    }
}

proof fn noted_pairs(m: ChangeModel, k: PairKind, q: Seq<(Seq<char>, Seq<char>)>)
    ensures
        noted_entries(m, pair_entries(k, q)) == with_pairs(m, k, pairs(m, k).union(q.to_set())),
    decreases q.len(),
{
    let es = pair_entries(k, q);
    if q.len() == 0 {
        assert(pairs(m, k).union(q.to_set()) =~= pairs(m, k));
    } else {
        let front = q.drop_last();
        let pair = q.last();
        noted_pairs(m, k, front);
        assert(es.drop_last() =~= pair_entries(k, front));
        assert(es.last() == pair_entry(k, pair));
        let n = with_pairs(m, k, pairs(m, k).union(front.to_set()));
        pair_words(k);
        pair_payload_reads_back(pair.0, pair.1);
        entry_parts(
            n,
            pair_word(k),
            EntryKind::Pair(k),
            quoted(pair.0) + seq!['.'] + quoted(pair.1),
        );
        pushed_elements(front, pair);
        assert(front.push(pair) =~= q);
        assert(pairs(n, k).insert(pair) =~= pairs(m, k).union(q.to_set()));
    }
}

proof fn noted_schemas(m: ChangeModel, q: Seq<Seq<char>>)
    ensures
        noted_entries(m, schema_entries(q)) == (ChangeModel {
            created_schemas: m.created_schemas.union(q.to_set()),
            ..m
        }),
    decreases q.len(),
{
    let es = schema_entries(q);
    if q.len() == 0 {
        assert(m.created_schemas.union(q.to_set()) =~= m.created_schemas);
    } else {
        let front = q.drop_last();
        let name = q.last();
        noted_schemas(m, front);
        assert(es.drop_last() =~= schema_entries(front));
        assert(es.last() == schema_entry(name));
        let n = ChangeModel { created_schemas: m.created_schemas.union(front.to_set()), ..m };
        words();
        words_name_their_kinds();
        name_payload_reads_back(name);
        entry_parts(n, "created_schema"@, EntryKind::CreatedSchema, quoted(name));
        pushed_elements(front, name);
        assert(front.push(name) =~= q);
        assert(n.created_schemas.insert(name) =~= m.created_schemas.union(q.to_set()));
    }
}

proof fn id_group_is_whole(m: ChangeModel, k: IdKind)
    ensures
        forall|i: int|
            0 <= i < crate::operations::id_group(m, k).len() ==> whole(
                #[trigger] crate::operations::id_group(m, k)[i],
            ),
{
    let q = ascending::<u64>(ids(m, k));
    assert forall|i: int| 0 <= i < crate::operations::id_group(m, k).len() implies whole(
        #[trigger] crate::operations::id_group(m, k)[i],
    ) by {
        id_entry_is_whole(k, q[i]);
    }
}

proof fn pair_group_is_whole(m: ChangeModel, k: PairKind)
    ensures
        forall|i: int|
            0 <= i < crate::operations::pair_group(m, k).len() ==> whole(
                #[trigger] crate::operations::pair_group(m, k)[i],
            ),
{
    let q = ascending::<(String, String)>(pairs(m, k));
    assert forall|i: int| 0 <= i < crate::operations::pair_group(m, k).len() implies whole(
        #[trigger] crate::operations::pair_group(m, k)[i],
    ) by {
        pair_entry_is_whole(k, q[i]);
    }
}

proof fn schema_group_is_whole(q: Seq<Seq<char>>)
    ensures
        forall|i: int| 0 <= i < schema_entries(q).len() ==> whole(#[trigger] schema_entries(q)[i]),
{
    assert forall|i: int| 0 <= i < schema_entries(q).len() implies whole(
        #[trigger] schema_entries(q)[i],
    ) by {
        schema_entry_is_whole(q[i]);
    }
}

spec fn all_whole(es: Seq<Seq<char>>) -> bool {
    forall|i: int| 0 <= i < es.len() ==> whole(#[trigger] es[i])
}

proof fn whole_both(a: Seq<Seq<char>>, b: Seq<Seq<char>>)
    requires
        all_whole(a),
        all_whole(b),
    ensures
        all_whole(a + b),
{
    assert forall|i: int| 0 <= i < (a + b).len() implies whole(#[trigger] (a + b)[i]) by {
        if i < a.len() {
            assert((a + b)[i] == a[i]);
        } else {
            assert((a + b)[i] == b[i - a.len()]);
        }
    }
}

/// What has been read so far, and that it comes apart as it was joined.
#[verifier::opaque]
spec fn reads(es: Seq<Seq<char>>, n: ChangeModel) -> bool {
    all_whole(es) && noted_entries(no_changes(), es) == n
}

proof fn step_ids(m: ChangeModel, k: IdKind, es: Seq<Seq<char>>, n: ChangeModel)
    requires
        finite(m),
        reads(es, n),
        ids(n, k) == Set::<u64>::empty(),
    ensures
        reads(es + crate::operations::id_group(m, k), with_ids(n, k, ids(m, k))),
{
    let g = crate::operations::id_group(m, k);
    reveal(reads);
    id_group_is_whole(m, k);
    whole_both(es, g);
    finite_sets_ascend::<u64>(ids(m, k));
    noted_ids(n, k, ascending::<u64>(ids(m, k)));
    noted_both(no_changes(), es, g);
    assert(ids(n, k).union(ids(m, k)) =~= ids(m, k));
}

proof fn step_pairs(m: ChangeModel, k: PairKind, es: Seq<Seq<char>>, n: ChangeModel)
    requires
        finite(m),
        reads(es, n),
        pairs(n, k) == Set::<(Seq<char>, Seq<char>)>::empty(),
    ensures
        reads(es + crate::operations::pair_group(m, k), with_pairs(n, k, pairs(m, k))),
{
    let g = crate::operations::pair_group(m, k);
    reveal(reads);
    pair_group_is_whole(m, k);
    whole_both(es, g);
    finite_sets_ascend::<(String, String)>(pairs(m, k));
    noted_pairs(n, k, ascending::<(String, String)>(pairs(m, k)));
    noted_both(no_changes(), es, g);
    assert(pairs(n, k).union(pairs(m, k)) =~= pairs(m, k));
}

proof fn step_schemas(m: ChangeModel, es: Seq<Seq<char>>, n: ChangeModel)
    requires
        finite(m),
        reads(es, n),
        n.created_schemas == Set::<Seq<char>>::empty(),
    ensures
        reads(
            es + schema_entries(ascending::<String>(m.created_schemas)),
            (ChangeModel { created_schemas: m.created_schemas, ..n }),
        ),
{
    let q = ascending::<String>(m.created_schemas);
    reveal(reads);
    schema_group_is_whole(q);
    whole_both(es, schema_entries(q));
    finite_sets_ascend::<String>(m.created_schemas);
    noted_schemas(n, q);
    noted_both(no_changes(), es, schema_entries(q));
    assert(n.created_schemas.union(m.created_schemas) =~= m.created_schemas);
}

/// Reading the text of a change set gives the set back, but for what the wire
/// grammar does not carry: the schema ids of created objects, the older
/// compaction entries, and whether something was not understood.
pub proof fn text_reads_back(m: ChangeModel)
    requires
        finite(m),
    ensures
        parsed(changes_text(m)) == wire_part(m),
{
    let n0 = no_changes();
    let e0 = Seq::<Seq<char>>::empty();
    assert(reads(e0, n0)) by {
        reveal(reads);
    }

    step_ids(m, IdKind::DroppedSchema, e0, n0);
    let e1 = e0 + crate::operations::id_group(m, IdKind::DroppedSchema);
    let n1 = ChangeModel { dropped_schemas: m.dropped_schemas, ..n0 };
    step_ids(m, IdKind::DroppedTable, e1, n1);
    let e2 = e1 + crate::operations::id_group(m, IdKind::DroppedTable);
    let n2 = ChangeModel { dropped_tables: m.dropped_tables, ..n1 };
    step_ids(m, IdKind::DroppedView, e2, n2);
    let e3 = e2 + crate::operations::id_group(m, IdKind::DroppedView);
    let n3 = ChangeModel { dropped_views: m.dropped_views, ..n2 };
    step_schemas(m, e3, n3);
    let e4 = e3 + schema_entries(ascending::<String>(m.created_schemas));
    let n4 = ChangeModel { created_schemas: m.created_schemas, ..n3 };
    step_pairs(m, PairKind::CreatedTable, e4, n4);
    let e5 = e4 + crate::operations::pair_group(m, PairKind::CreatedTable);
    let n5 = ChangeModel { created_tables: m.created_tables, ..n4 };
    step_pairs(m, PairKind::CreatedView, e5, n5);
    let e6 = e5 + crate::operations::pair_group(m, PairKind::CreatedView);
    let n6 = ChangeModel { created_views: m.created_views, ..n5 };
    step_pairs(m, PairKind::CreatedScalarMacro, e6, n6);
    let e7 = e6 + crate::operations::pair_group(m, PairKind::CreatedScalarMacro);
    let n7 = ChangeModel { created_scalar_macros: m.created_scalar_macros, ..n6 };
    step_pairs(m, PairKind::CreatedTableMacro, e7, n7);
    let e8 = e7 + crate::operations::pair_group(m, PairKind::CreatedTableMacro);
    let n8 = ChangeModel { created_table_macros: m.created_table_macros, ..n7 };
    step_ids(m, IdKind::DroppedScalarMacro, e8, n8);
    let e9 = e8 + crate::operations::id_group(m, IdKind::DroppedScalarMacro);
    let n9 = ChangeModel { dropped_scalar_macros: m.dropped_scalar_macros, ..n8 };
    step_ids(m, IdKind::DroppedTableMacro, e9, n9);
    let e10 = e9 + crate::operations::id_group(m, IdKind::DroppedTableMacro);
    let n10 = ChangeModel { dropped_table_macros: m.dropped_table_macros, ..n9 };
    step_ids(m, IdKind::InsertedIntoTable, e10, n10);
    let e11 = e10 + crate::operations::id_group(m, IdKind::InsertedIntoTable);
    let n11 = ChangeModel { inserted_tables: m.inserted_tables, ..n10 };
    step_ids(m, IdKind::DeletedFromTable, e11, n11);
    let e12 = e11 + crate::operations::id_group(m, IdKind::DeletedFromTable);
    let n12 = ChangeModel { deleted_from_tables: m.deleted_from_tables, ..n11 };
    step_ids(m, IdKind::AlteredTable, e12, n12);
    let e13 = e12 + crate::operations::id_group(m, IdKind::AlteredTable);
    let n13 = ChangeModel { altered_tables: m.altered_tables, ..n12 };
    step_ids(m, IdKind::AlteredView, e13, n13);
    let e14 = e13 + crate::operations::id_group(m, IdKind::AlteredView);
    let n14 = ChangeModel { altered_views: m.altered_views, ..n13 };
    step_ids(m, IdKind::MergeAdjacent, e14, n14);
    let e15 = e14 + crate::operations::id_group(m, IdKind::MergeAdjacent);
    let n15 = ChangeModel { merge_adjacent_tables: m.merge_adjacent_tables, ..n14 };
    step_ids(m, IdKind::RewriteDelete, e15, n15);
    let e16 = e15 + crate::operations::id_group(m, IdKind::RewriteDelete);
    let n16 = ChangeModel { rewrite_delete_tables: m.rewrite_delete_tables, ..n15 };
    assert(e0 + crate::operations::id_group(m, IdKind::DroppedSchema)
        =~= crate::operations::id_group(m, IdKind::DroppedSchema));
    assert(wire_entries(m) == e16);
    assert(n16 == wire_part(m));
    assert(parsed(changes_text(m)) == n16) by {
        reveal(reads);
        joined_splits(e16);
    }
}

/// Empty text is the set without changes.
pub proof fn empty_text_reads_as_no_changes()
    ensures
        parsed(Seq::empty()) == no_changes(),
{
    assert(entries_of(Seq::empty()) =~= Seq::<Seq<char>>::empty());
}

/// Whether a word is one of those that entries start with, in letters of any
/// case.
pub open spec fn known_word(word: Seq<char>) -> bool {
    ||| same_folded(word, "created_schema"@)
    ||| same_folded(word, "dropped_schema"@)
    ||| same_folded(word, "created_table"@)
    ||| same_folded(word, "altered_table"@)
    ||| same_folded(word, "dropped_table"@)
    ||| same_folded(word, "created_view"@)
    ||| same_folded(word, "altered_view"@)
    ||| same_folded(word, "dropped_view"@)
    ||| same_folded(word, "created_scalar_macro"@)
    ||| same_folded(word, "created_table_macro"@)
    ||| same_folded(word, "dropped_scalar_macro"@)
    ||| same_folded(word, "dropped_table_macro"@)
    ||| same_folded(word, "inserted_into_table"@)
    ||| same_folded(word, "deleted_from_table"@)
    ||| same_folded(word, "merge_adjacent"@)
    ||| same_folded(word, "rewrite_delete"@)
    ||| same_folded(word, "compacted_table"@)
}

proof fn colons_part_words(word: Seq<char>, rest: Seq<char>)
    requires
        !word.contains(':'),
    ensures
        first_colon(word + seq![':'] + rest) == word.len(),
        first_colon(word) == word.len(),
    decreases word.len(),
{
    let t = word + seq![':'] + rest;
    if word.len() > 0 {
        assert(word[0] != ':') by {
            assert(word.contains(word[0]));
        }
        assert forall|i: int| 0 <= i < word.skip(1).len() implies word.skip(1)[i] != ':' by {
            assert(word.contains(word[i + 1]));
        }
        colons_part_words(word.skip(1), rest);
        assert(t.skip(1) =~= word.skip(1) + seq![':'] + rest);
    }
}

/// An entry that is not understood is told of: one without a colon, one of an
/// unknown word, and one of a known word with an id that is no number. What was
/// recorded before it stays.
pub proof fn entries_that_are_not_understood_are_told_of(
    m: ChangeModel,
    word: Seq<char>,
    payload: Seq<char>,
)
    requires
        !word.contains(':'),
    ensures
        noted_entry(m, word) == (ChangeModel { has_unknown: true, ..m }),
        !known_word(word) ==> noted_entry(m, word + seq![':'] + payload) == (ChangeModel {
            has_unknown: true,
            ..m
        }),
        numeral(payload) is None && (word == "dropped_table"@ || word == "altered_table"@ || word
            == "inserted_into_table"@ || word == "deleted_from_table"@ || word
            == "merge_adjacent"@ || word == "rewrite_delete"@ || word == "compacted_table"@)
            ==> noted_entry(m, word + seq![':'] + payload).has_unknown,
{
    colons_part_words(word, payload);
    let entry = word + seq![':'] + payload;
    assert(entry.take(word.len() as int) =~= word);
    assert(entry.skip(word.len() as int + 1) =~= payload);
    words_name_their_kinds();
}

proof fn unknown_stays_told(m: ChangeModel, es: Seq<Seq<char>>, n: int)
    requires
        0 <= n <= es.len(),
        noted_entries(m, es.take(n)).has_unknown,
    ensures
        noted_entries(m, es).has_unknown,
    decreases es.len(),
{
    if n == es.len() {
        assert(es.take(n) =~= es);
    } else {
        assert(es.drop_last().take(n) =~= es.take(n));
        unknown_stays_told(m, es.drop_last(), n);
    }
}

/// A record with an entry that is not understood is taken for one that may have
/// changed anything.
pub proof fn one_unknown_entry_is_enough(t: Seq<char>, i: int)
    requires
        0 <= i < entries_of(t).len(),
        !entries_of(t)[i].contains(':'),
    ensures
        parsed(t).has_unknown,
{
    let es = entries_of(t);
    let front = es.take(i + 1);
    assert(front.drop_last() =~= es.take(i));
    entries_that_are_not_understood_are_told_of(
        noted_entries(no_changes(), es.take(i)),
        es[i],
        Seq::empty(),
    );
    unknown_stays_told(no_changes(), es, i + 1);
}

} // verus!
