//! What the changes of rows do to equality indexes: each index gets the entries
//! of its own rows, in their order, and the store holds them.
use crate::api::{IndexId, IndexInfoSpec};
use crate::bytes::{row_id_bytes, row_id_reads_back, spelled};
use crate::catalog::{column_list, CatalogModel};
use crate::error::Fault;
use crate::index_changes::{
    all_changes, changes, chunk_entries, chunks_of, ended_entries, file_entries, first_uncovered,
    held_in, kept, killed_entries, pending_schemas, removed_inline, ChunkModel, KeepModel,
    ReadsModel,
};
use crate::index_entries::{additions, entry_writes, freed, removals, IndexEntryModel};
use crate::index_upkeep::{
    entries_for, file_read, indexes_listed, inserted_delete_read, inserted_file_read,
    killed_file_read, read_plan, registered_path, FileReadModel, KeyedModel,
};
use crate::keys::{after, after_both, IndexKeyModel, KeyModel, StoredModel};
use crate::ordered::{ascending, ascending_is_unique, finite_sets_ascend};
use crate::records::{DataFileModel, DeleteFileModel};
use crate::row_laws::{
    data_file_cells, data_file_cells_fit, delete_file_cells, delete_file_cells_fit,
};
use crate::rows::{RowModel, TableKind};
use crate::scoped::scope;
use crate::upkeep::{
    changed_entries, gathered, with_file_removals, with_inline_removals, GatheredModel,
};
use vstd::prelude::*;

verus! {

// ---------------------------------------------------------------------------
// Entries by index
// ---------------------------------------------------------------------------

/// Whether an entry is that of a row in an index. A row with a NULL is in no
/// one's way.
pub open spec fn is_entry_of(
    e: IndexEntryModel,
    index: IndexInfoSpec,
    row: KeyedModel,
    delete: bool,
) -> bool {
    &&& e.index_id == index.id.id
    &&& e.key == row.1
    &&& e.row_id == row.0.row_id
    &&& e.delete == delete
    &&& e.unique <==> index.unique && forall|i: int|
        0 <= i < row.0.values.len() ==> (#[trigger] row.0.values[i]) is Some
}

/// Whether a row is one of those that are wanted.
pub open spec fn wanted(keep: KeepModel, row: KeyedModel, position: int) -> bool {
    match keep {
        KeepModel::All => true,
        KeepModel::Ids(ids) => ids.contains(row.0.row_id),
        KeepModel::Positions(killed) => killed.contains(position as u64),
    }
}

/// Whether positions are those of the wanted rows, in order.
pub open spec fn picks(rows: Seq<KeyedModel>, keep: KeepModel, at: Seq<int>) -> bool {
    &&& forall|a: int, b: int| 0 <= a < b < at.len() ==> (#[trigger] at[a]) < (#[trigger] at[b])
    &&& forall|p: int| #[trigger]
        at.contains(p) <==> 0 <= p < rows.len() && wanted(keep, rows[p], p)
}

/// Whether entries are, in order, those of the wanted rows in an index.
pub open spec fn entries_are(
    entries: Seq<IndexEntryModel>,
    index: IndexInfoSpec,
    rows: Seq<KeyedModel>,
    keep: KeepModel,
    delete: bool,
) -> bool {
    exists|at: Seq<int>|
        {
            &&& #[trigger] picks(rows, keep, at)
            &&& entries.len() == at.len()
            &&& forall|j: int|
                0 <= j < at.len() ==> is_entry_of(
                    #[trigger] entries[j],
                    index,
                    rows[at[j]],
                    delete,
                )
        }
}

/// The entries of one index.
pub open spec fn entries_in(entries: Seq<IndexEntryModel>, index_id: u64) -> Seq<IndexEntryModel> {
    entries.filter(|e: IndexEntryModel| e.index_id == index_id)
}

proof fn kept_are_picked(rows: Seq<KeyedModel>, keep: KeepModel) -> (at: Seq<int>)
    ensures
        picks(rows, keep, at),
        kept(rows, keep).len() == at.len(),
        forall|j: int| 0 <= j < at.len() ==> #[trigger] kept(rows, keep)[j] == rows[at[j]],
    decreases rows.len(),
{
    if rows.len() == 0 {
        let at = Seq::<int>::empty();
        assert forall|p: int| #[trigger] at.contains(p) implies false by {}
        at
    } else {
        let front = rows.drop_last();
        let n = rows.len() - 1;
        let before = kept_are_picked(front, keep);
        assert forall|j: int| 0 <= j < before.len() implies 0 <= (#[trigger] before[j]) < n by {
            assert(before.contains(before[j]));
        }
        assert forall|j: int| 0 <= j < before.len() implies front[#[trigger] before[j]]
            == rows[before[j]] by {
            assert(before.contains(before[j]));
        }
        if wanted(keep, rows.last(), n) {
            let at = before.push(n);
            assert forall|p: int| #[trigger] at.contains(p) <==> 0 <= p < rows.len() && wanted(
                keep,
                rows[p],
                p,
            ) by {
                if at.contains(p) {
                    let j = choose|j: int| 0 <= j < at.len() && at[j] == p;
                    if j < before.len() {
                        assert(before[j] == p);
                        assert(before.contains(p));
                    }
                }
                if 0 <= p < rows.len() && wanted(keep, rows[p], p) {
                    if p < n {
                        assert(front[p] == rows[p]);
                        assert(before.contains(p));
                        let j = choose|j: int| 0 <= j < before.len() && before[j] == p;
                        assert(at[j] == p);
                    } else {
                        assert(at[before.len() as int] == p);
                    }
                }
            }
            at
        } else {
            assert forall|p: int| #[trigger] before.contains(p) <==> 0 <= p < rows.len() && wanted(
                keep,
                rows[p],
                p,
            ) by {
                if 0 <= p < n {
                    assert(front[p] == rows[p]);
                }
            }
            before
        }
    }
}

proof fn entries_of_kept(index: IndexInfoSpec, rows: Seq<KeyedModel>, keep: KeepModel, delete: bool)
    ensures
        entries_are(entries_for(index, kept(rows, keep), delete), index, rows, keep, delete),
{
    let at = kept_are_picked(rows, keep);
    let entries = entries_for(index, kept(rows, keep), delete);
    assert forall|j: int| 0 <= j < at.len() implies is_entry_of(
        #[trigger] entries[j],
        index,
        rows[at[j]],
        delete,
    ) by {
        assert(kept(rows, keep)[j] == rows[at[j]]);
        let row = rows[at[j]];
        if crate::index_upkeep::has_null(row.0) {
            let i = choose|i: int|
                0 <= i < row.0.values.len() && (#[trigger] row.0.values[i]) is None;
            assert(!(row.0.values[i] is Some));
        }
    }
}

proof fn filters_of_both<A>(a: Seq<A>, b: Seq<A>, p: spec_fn(A) -> bool)
    ensures
        (a + b).filter(p) == a.filter(p) + b.filter(p),
    decreases b.len(),
{
    reveal(Seq::filter);
    if b.len() == 0 {
        assert(a + b =~= a);
        assert(a.filter(p) + b.filter(p) =~= a.filter(p));
    } else {
        assert((a + b).drop_last() =~= a + b.drop_last());
        filters_of_both(a, b.drop_last(), p);
        assert((a + b).filter(p) =~= a.filter(p) + b.filter(p));
    }
}

proof fn filters_keep_all<A>(s: Seq<A>, p: spec_fn(A) -> bool)
    requires
        forall|i: int| 0 <= i < s.len() ==> p(#[trigger] s[i]),
    ensures
        s.filter(p) == s,
    decreases s.len(),
{
    reveal(Seq::filter);
    if s.len() > 0 {
        assert forall|i: int| 0 <= i < s.drop_last().len() implies p(
            #[trigger] s.drop_last()[i],
        ) by {
            assert(s.drop_last()[i] == s[i]);
        }
        filters_keep_all(s.drop_last(), p);
        assert(p(s[s.len() - 1]));
        assert(s.filter(p) =~= s);
    }
}

proof fn filters_keep_none<A>(s: Seq<A>, p: spec_fn(A) -> bool)
    requires
        forall|i: int| 0 <= i < s.len() ==> !p(#[trigger] s[i]),
    ensures
        s.filter(p) == Seq::<A>::empty(),
    decreases s.len(),
{
    reveal(Seq::filter);
    if s.len() > 0 {
        assert forall|i: int| 0 <= i < s.drop_last().len() implies !p(
            #[trigger] s.drop_last()[i],
        ) by {
            assert(s.drop_last()[i] == s[i]);
        }
        filters_keep_none(s.drop_last(), p);
        assert(!p(s[s.len() - 1]));
    }
}

proof fn changes_of_one_index(
    indexes: Seq<IndexInfoSpec>,
    rows: Seq<Seq<KeyedModel>>,
    keep: KeepModel,
    delete: bool,
    n: nat,
    i: int,
)
    requires
        n <= indexes.len(),
        n <= rows.len(),
        0 <= i < indexes.len(),
        forall|a: int, b: int|
            0 <= a < b < indexes.len() ==> (#[trigger] indexes[a]).id.id != (
            #[trigger] indexes[b]).id.id,
    ensures
        entries_in(changes(indexes, rows, keep, delete, n), indexes[i].id.id) == (if i < n {
            entries_for(indexes[i], kept(rows[i], keep), delete)
        } else {
            Seq::empty()
        }),
    decreases n,
{
    let p = |e: IndexEntryModel| e.index_id == indexes[i].id.id;
    if n == 0 {
        reveal(Seq::filter);
        assert(Seq::<IndexEntryModel>::empty().filter(p) =~= Seq::empty());
    } else {
        let m = (n - 1) as nat;
        changes_of_one_index(indexes, rows, keep, delete, m, i);
        let a = changes(indexes, rows, keep, delete, m);
        let b = entries_for(indexes[n - 1], kept(rows[n - 1], keep), delete);
        filters_of_both(a, b, p);
        if i == n - 1 {
            filters_keep_all(b, p);
            assert(a.filter(p) + b.filter(p) =~= b);
        } else {
            assert(indexes[n - 1].id.id != indexes[i].id.id) by {
                if i < n - 1 {
                    assert(indexes[i].id.id != indexes[n - 1].id.id);
                } else {
                    assert(indexes[n - 1].id.id != indexes[i].id.id);
                }
            }
            filters_keep_none(b, p);
            assert(a.filter(p) + b.filter(p) =~= a.filter(p));
        }
    }
}

proof fn changes_are_of_indexes(
    indexes: Seq<IndexInfoSpec>,
    rows: Seq<Seq<KeyedModel>>,
    keep: KeepModel,
    delete: bool,
    n: nat,
)
    requires
        n <= indexes.len(),
    ensures
        forall|k: int|
            0 <= k < changes(indexes, rows, keep, delete, n).len() ==> exists|i: int|
                0 <= i < n && (#[trigger] indexes[i]).id.id == (#[trigger] changes(
                    indexes,
                    rows,
                    keep,
                    delete,
                    n,
                )[k]).index_id,
    decreases n,
{
    if n > 0 {
        let m = (n - 1) as nat;
        changes_are_of_indexes(indexes, rows, keep, delete, m);
        let a = changes(indexes, rows, keep, delete, m);
        let all = changes(indexes, rows, keep, delete, n);
        assert forall|k: int| 0 <= k < all.len() implies exists|i: int|
            0 <= i < n && (#[trigger] indexes[i]).id.id == (#[trigger] all[k]).index_id by {
            if k < a.len() {
                assert(all[k] == a[k]);
                let i = choose|i: int|
                    0 <= i < m && (#[trigger] indexes[i]).id.id == a[k].index_id;
                assert(indexes[i].id.id == all[k].index_id);
            } else {
                assert(indexes[n - 1].id.id == all[k].index_id);
            }
        }
    }
}

/// Whether entries are those of rows by index: each index has the entries of its
/// own wanted rows, in their order, and no entry is of another index.
pub open spec fn spread(
    entries: Seq<IndexEntryModel>,
    indexes: Seq<IndexInfoSpec>,
    rows: Seq<Seq<KeyedModel>>,
    keep: KeepModel,
    delete: bool,
) -> bool {
    &&& forall|i: int|
        0 <= i < indexes.len() ==> entries_are(
            entries_in(entries, (#[trigger] indexes[i]).id.id),
            indexes[i],
            rows[i],
            keep,
            delete,
        )
    &&& forall|k: int|
        0 <= k < entries.len() ==> exists|i: int|
            0 <= i < indexes.len() && (#[trigger] indexes[i]).id.id == (
            #[trigger] entries[k]).index_id
}

/// Rows that were read for each index become the entries of that index, and of
/// no other.
pub proof fn changes_go_by_index(
    indexes: Seq<IndexInfoSpec>,
    rows: Seq<Seq<KeyedModel>>,
    keep: KeepModel,
    delete: bool,
)
    requires
        indexes.len() <= rows.len(),
        forall|a: int, b: int|
            0 <= a < b < indexes.len() ==> (#[trigger] indexes[a]).id.id != (
            #[trigger] indexes[b]).id.id,
    ensures
        spread(all_changes(indexes, rows, keep, delete), indexes, rows, keep, delete),
{
    let all = all_changes(indexes, rows, keep, delete);
    assert forall|i: int| 0 <= i < indexes.len() implies entries_are(
        entries_in(all, (#[trigger] indexes[i]).id.id),
        indexes[i],
        rows[i],
        keep,
        delete,
    ) by {
        changes_of_one_index(indexes, rows, keep, delete, indexes.len(), i);
        entries_of_kept(indexes[i], rows[i], keep, delete);
    }
    changes_are_of_indexes(indexes, rows, keep, delete, indexes.len());
}

// ---------------------------------------------------------------------------
// The indexes of a table
// ---------------------------------------------------------------------------

/// Whether ids are those of a table's live indexes, in ascending order.
pub open spec fn indexes_are(m: CatalogModel, table_id: u64, ids: Seq<u64>) -> bool {
    &&& forall|a: int, b: int| 0 <= a < b < ids.len() ==> (#[trigger] ids[a]) < (#[trigger] ids[b])
    &&& forall|id: u64| #[trigger] ids.contains(id) <==> m.indexes.contains_key((table_id, id))
    &&& forall|id: u64| #[trigger]
        m.indexes.contains_key((table_id, id)) ==> m.indexes[(table_id, id)].index_id == id
}

/// A table's indexes are listed by their ids, each as the catalog has it.
pub proof fn indexes_are_listed(m: CatalogModel, table_id: u64, ids: Seq<u64>)
    requires
        indexes_are(m, table_id, ids),
    ensures
        indexes_listed(m, table_id).len() == ids.len(),
        forall|i: int|
            0 <= i < ids.len() ==> #[trigger] indexes_listed(m, table_id)[i] == (IndexInfoSpec {
                id: IndexId { id: ids[i] },
                columns: m.indexes[(table_id, ids[i])].columns,
                unique: m.indexes[(table_id, ids[i])].unique,
                directions: m.indexes[(table_id, ids[i])].directions,
                nulls: m.indexes[(table_id, ids[i])].nulls,
            }),
{
    assert(ids.to_set() =~= scope(m.indexes, table_id)) by {
        assert forall|id: u64| ids.to_set().contains(id) <==> scope(m.indexes, table_id).contains(
            id,
        ) by {
            assert(ids.contains(id) <==> m.indexes.contains_key((table_id, id)));
        }
    }
    ascending_is_unique::<u64>(ids);
    assert forall|i: int| 0 <= i < ids.len() implies #[trigger] indexes_listed(m, table_id)[i] == (
    IndexInfoSpec {
        id: IndexId { id: ids[i] },
        columns: m.indexes[(table_id, ids[i])].columns,
        unique: m.indexes[(table_id, ids[i])].unique,
        directions: m.indexes[(table_id, ids[i])].directions,
        nulls: m.indexes[(table_id, ids[i])].nulls,
    }) by {
        assert(ids.contains(ids[i]));
    }
}

/// What a table's indexes list.
pub open spec fn listing(m: CatalogModel, table_id: u64, ids: Seq<u64>) -> Seq<IndexInfoSpec> {
    Seq::new(
        ids.len(),
        |i: int|
            IndexInfoSpec {
                id: IndexId { id: ids[i] },
                columns: m.indexes[(table_id, ids[i])].columns,
                unique: m.indexes[(table_id, ids[i])].unique,
                directions: m.indexes[(table_id, ids[i])].directions,
                nulls: m.indexes[(table_id, ids[i])].nulls,
            },
    )
}

proof fn listings_are_apart(m: CatalogModel, table_id: u64, ids: Seq<u64>)
    requires
        indexes_are(m, table_id, ids),
    ensures
        indexes_listed(m, table_id) == listing(m, table_id, ids),
        forall|a: int, b: int|
            0 <= a < b < indexes_listed(m, table_id).len() ==> (#[trigger] indexes_listed(
                m,
                table_id,
            )[a]).id.id != (#[trigger] indexes_listed(m, table_id)[b]).id.id,
{
    indexes_are_listed(m, table_id, ids);
    assert(indexes_listed(m, table_id) =~= listing(m, table_id, ids));
}

// ---------------------------------------------------------------------------
// What each change of rows stages
// ---------------------------------------------------------------------------

/// A data file that is inserted adds the entries of its rows to the indexes of
/// its table, each index its own. A table without an index needs none.
pub proof fn inserted_files_are_indexed(
    m: CatalogModel,
    v: DataFileModel,
    reads: ReadsModel,
    data_prefix: Seq<char>,
    ids: Seq<u64>,
)
    requires
        indexes_are(m, v.table_id, ids),
    ensures
        match file_entries(m, data_file_cells(v), reads, data_prefix) {
            Ok(entries) => if ids.len() == 0 {
                entries.len() == 0
            } else {
                let file = (v.table_id, v.data_file_id);
                &&& reads.store
                &&& reads.inserted_files.contains_key(file)
                &&& ids.len() <= reads.inserted_files[file].len() ==> spread(
                    entries,
                    listing(m, v.table_id, ids),
                    reads.inserted_files[file],
                    KeepModel::All,
                    false,
                )
            },
            Err(_) => ids.len() > 0 && {
                ||| !reads.store
                ||| !reads.inserted_files.contains_key((v.table_id, v.data_file_id))
                ||| file_read(m, v, data_prefix) is Err
            },
        },
{
    data_file_cells_fit(v);
    listings_are_apart(m, v.table_id, ids);
    let file = (v.table_id, v.data_file_id);
    if reads.inserted_files.contains_key(file) && ids.len() <= reads.inserted_files[file].len() {
        changes_go_by_index(
            indexes_listed(m, v.table_id),
            reads.inserted_files[file],
            KeepModel::All,
            false,
        );
    }
}

/// The rows of a data file at positions that are killed lose their entries in
/// the indexes of its table, and no other row does.
pub proof fn killed_rows_leave_indexes(
    m: CatalogModel,
    file: (u64, u64),
    killed: Set<u64>,
    reads: ReadsModel,
    data_prefix: Seq<char>,
    ids: Seq<u64>,
)
    requires
        indexes_are(m, file.0, ids),
    ensures
        match killed_entries(m, file, killed, reads, data_prefix) {
            Ok(entries) => if ids.len() == 0 {
                entries.len() == 0
            } else {
                &&& reads.store
                &&& m.data_files.contains_key(file)
                &&& killed.finite() ==> forall|p: u64| #[trigger]
                    killed.contains(p) ==> p < m.data_files[file].record_count
                &&& reads.live_files.contains_key(file)
                &&& ids.len() <= reads.live_files[file].len() ==> spread(
                    entries,
                    listing(m, file.0, ids),
                    reads.live_files[file],
                    KeepModel::Positions(killed),
                    true,
                )
            },
            Err(_) => ids.len() > 0 && {
                ||| !reads.store
                ||| !m.data_files.contains_key(file)
                ||| !reads.live_files.contains_key(file)
                ||| file_read(m, m.data_files[file], data_prefix) is Err
                ||| killed.finite() ==> exists|p: u64| #[trigger]
                    killed.contains(p) && p >= m.data_files[file].record_count
            },
        },
{
    listings_are_apart(m, file.0, ids);
    if reads.live_files.contains_key(file) && ids.len() <= reads.live_files[file].len() {
        changes_go_by_index(
            indexes_listed(m, file.0),
            reads.live_files[file],
            KeepModel::Positions(killed),
            true,
        );
    }
    if killed_entries(m, file, killed, reads, data_prefix) is Err && ids.len() > 0
        && m.data_files.contains_key(file) && killed.finite() {
        finite_sets_ascend::<u64>(killed);
        let at = ascending::<u64>(killed);
        let count = m.data_files[file].record_count;
        if crate::index_upkeep::first_outside(at, count, 0) is Some {
            some_outside(at, count, 0);
            let i = choose|i: int| 0 <= i < at.len() && (#[trigger] at[i]) >= count;
            assert(at.to_set().contains(at[i]));
        }
    }
    if killed_entries(m, file, killed, reads, data_prefix) is Ok && ids.len() > 0
        && killed.finite() {
        finite_sets_ascend::<u64>(killed);
        let at = ascending::<u64>(killed);
        none_outside(at, m.data_files[file].record_count, 0);
        assert forall|p: u64| #[trigger] killed.contains(p) implies p
            < m.data_files[file].record_count by {
            assert(at.to_set().contains(p));
            let i = choose|i: int| 0 <= i < at.len() && at[i] == p;
            assert(at[i] < m.data_files[file].record_count);
        }
    }
}

proof fn none_outside(positions: Seq<u64>, record_count: u64, from: int)
    requires
        0 <= from,
        crate::index_upkeep::first_outside(positions, record_count, from) is None,
    ensures
        forall|i: int| from <= i < positions.len() ==> (#[trigger] positions[i]) < record_count,
    decreases positions.len() - from,
{
    if from < positions.len() {
        none_outside(positions, record_count, from + 1);
    }
}

proof fn some_outside(positions: Seq<u64>, record_count: u64, from: int)
    requires
        0 <= from,
        crate::index_upkeep::first_outside(positions, record_count, from) is Some,
    ensures
        exists|i: int| from <= i < positions.len() && (#[trigger] positions[i]) >= record_count,
    decreases positions.len() - from,
{
    if from < positions.len() && positions[from] < record_count {
        some_outside(positions, record_count, from + 1);
    }
}

/// A chunk of inlined rows that is added adds the entries of its rows to the
/// indexes of its table; one that rows of end loses those of the ended rows.
pub proof fn chunks_are_indexed(
    m: CatalogModel,
    pending: Map<(u64, u64), Seq<u8>>,
    stored: Map<(u64, u64), Seq<u8>>,
    table_id: u64,
    chunk: ChunkModel,
    ended: Set<u64>,
    ids: Seq<u64>,
)
    requires
        indexes_are(m, table_id, ids),
        ids.len() <= chunk.rows.len(),
    ensures
        match chunk_entries(m, pending, stored, table_id, chunk, None) {
            Ok(entries) => spread(
                entries,
                listing(m, table_id, ids),
                chunk.rows,
                KeepModel::All,
                false,
            ),
            Err(_) => ids.len() > 0 && {
                ||| !pending.contains_key((table_id, chunk.schema_version)) && !stored.contains_key(
                    (table_id, chunk.schema_version),
                )
                ||| read_plan(column_list(m, table_id), indexes_listed(m, table_id), table_id) is Err
            },
        },
        match chunk_entries(m, pending, stored, table_id, chunk, Some(ended)) {
            Ok(entries) => spread(
                entries,
                listing(m, table_id, ids),
                chunk.rows,
                KeepModel::Ids(ended),
                true,
            ),
            Err(_) => ids.len() > 0 && {
                ||| !pending.contains_key((table_id, chunk.schema_version)) && !stored.contains_key(
                    (table_id, chunk.schema_version),
                )
                ||| read_plan(column_list(m, table_id), indexes_listed(m, table_id), table_id) is Err
            },
        },
        ids.len() > 0 ==> (chunk_entries(m, pending, stored, table_id, chunk, None) is Ok ==> {
            ||| pending.contains_key((table_id, chunk.schema_version))
            ||| stored.contains_key((table_id, chunk.schema_version))
        }),
{
    listings_are_apart(m, table_id, ids);
    let indexes = indexes_listed(m, table_id);
    changes_go_by_index(indexes, chunk.rows, KeepModel::All, false);
    changes_go_by_index(indexes, chunk.rows, KeepModel::Ids(ended), true);
}

// ---------------------------------------------------------------------------
// What a commit's rows add up to
// ---------------------------------------------------------------------------

/// The positions of a data file that are killed so far.
pub open spec fn killed_so_far(g: GatheredModel, file: (u64, u64)) -> Set<u64> {
    if g.file_deletes.contains_key(file) {
        g.file_deletes[file]
    } else {
        Set::empty()
    }
}

/// The inlined rows of a table that end so far.
pub open spec fn ending_so_far(g: GatheredModel, table_id: u64) -> Seq<u64> {
    if g.inline_deletes.contains_key(table_id) {
        g.inline_deletes[table_id]
    } else {
        Seq::empty()
    }
}

/// What is gathered of a commit's rows starts with nothing.
pub proof fn gathering_starts_empty(
    m: CatalogModel,
    pending: Map<(u64, u64), Seq<u8>>,
    reads: ReadsModel,
    data_prefix: Seq<char>,
    file: (u64, u64),
    table_id: u64,
)
    ensures
        gathered(m, pending, reads, data_prefix, Seq::empty()) is Ok,
        gathered(m, pending, reads, data_prefix, Seq::empty())->Ok_0.entries.len() == 0,
        !gathered(
            m,
            pending,
            reads,
            data_prefix,
            Seq::empty(),
        )->Ok_0.inline_deletes.contains_key(table_id),
        !gathered(
            m,
            pending,
            reads,
            data_prefix,
            Seq::empty(),
        )->Ok_0.file_deletes.contains_key(file),
{
}

/// Each row of a commit adds to what is gathered: the entries of data files and
/// chunks, the ended rows of tables, and the killed positions of data files. A
/// refusal stays.
pub proof fn rows_are_gathered(
    m: CatalogModel,
    pending: Map<(u64, u64), Seq<u8>>,
    reads: ReadsModel,
    data_prefix: Seq<char>,
    ops: Seq<RowModel>,
    op: RowModel,
)
    ensures
        match (
            gathered(m, pending, reads, data_prefix, ops),
            gathered(m, pending, reads, data_prefix, ops.push(op)),
        ) {
            (Err(f), r) => r == Err::<GatheredModel, Fault>(f),
            (Ok(g), Ok(n)) => match op {
                RowModel::InlineInlineDelete { table_id, row_id, .. } => n == (GatheredModel {
                    inline_deletes: g.inline_deletes.insert(
                        table_id,
                        ending_so_far(g, table_id).push(row_id),
                    ),
                    ..g
                }),
                RowModel::InlineFileDelete { table_id, data_file_id, row_id, .. } => n == (
                GatheredModel {
                    file_deletes: g.file_deletes.insert(
                        (table_id, data_file_id),
                        killed_so_far(g, (table_id, data_file_id)).insert(row_id),
                    ),
                    ..g
                }),
                RowModel::InlineInsert { table_id, schema_version, row_id_start, row_count, .. } => {
                    let number = ops.len() as u64;
                    let chunk = ChunkModel {
                        schema_version,
                        row_id_start,
                        row_count,
                        rows: reads.staged_chunks[number],
                    };
                    let more = chunk_entries(m, pending, reads.schemas, table_id, chunk, None);
                    if indexes_listed(m, table_id).len() == 0 {
                        n == g
                    } else {
                        reads.staged_chunks.contains_key(number) && more is Ok && n == (
                        GatheredModel { entries: g.entries + more->Ok_0, ..g })
                    }
                },
                RowModel::Insert { table, cells } => if table == TableKind::DataFile {
                    let more = file_entries(m, cells, reads, data_prefix);
                    more is Ok && n == (GatheredModel { entries: g.entries + more->Ok_0, ..g })
                } else if table == TableKind::DeleteFile {
                    n == (GatheredModel { file_deletes: n.file_deletes, ..g })
                } else {
                    n == g
                },
                _ => n == g,
            },
            (Ok(g), Err(_)) => match op {
                RowModel::Insert { table, cells } => {
                    ||| table == TableKind::DataFile && file_entries(
                        m,
                        cells,
                        reads,
                        data_prefix,
                    ) is Err
                    ||| table == TableKind::DeleteFile
                },
                RowModel::InlineInsert { table_id, schema_version, row_id_start, row_count, .. } => {
                    let number = ops.len() as u64;
                    let chunk = ChunkModel {
                        schema_version,
                        row_id_start,
                        row_count,
                        rows: reads.staged_chunks[number],
                    };
                    indexes_listed(m, table_id).len() > 0 && (!reads.staged_chunks.contains_key(
                        number,
                    ) || chunk_entries(m, pending, reads.schemas, table_id, chunk, None) is Err)
                },
                _ => false,
            },
        },
{
    assert(ops.push(op).drop_last() =~= ops);
}

/// A delete file that is inserted kills, in the data file that it is for, the
/// positions that it names. One of a table without an index needs no reading.
pub proof fn delete_files_kill_positions(
    m: CatalogModel,
    pending: Map<(u64, u64), Seq<u8>>,
    reads: ReadsModel,
    data_prefix: Seq<char>,
    ops: Seq<RowModel>,
    v: DeleteFileModel,
    ids: Seq<u64>,
)
    requires
        indexes_are(m, v.table_id, ids),
        gathered(m, pending, reads, data_prefix, ops) is Ok,
    ensures
        match gathered(
            m,
            pending,
            reads,
            data_prefix,
            ops.push(
                RowModel::Insert { table: TableKind::DeleteFile, cells: delete_file_cells(v) },
            ),
        ) {
            Ok(n) => {
                let g = gathered(m, pending, reads, data_prefix, ops)->Ok_0;
                let file = (v.table_id, v.data_file_id);
                let named = reads.delete_files[(v.table_id, v.delete_file_id)];
                if ids.len() == 0 {
                    n == g
                } else {
                    &&& reads.store
                    &&& reads.delete_files.contains_key((v.table_id, v.delete_file_id))
                    &&& forall|p: u64| #[trigger]
                        killed_so_far(n, file).contains(p) <==> killed_so_far(g, file).contains(p)
                            || named.contains(p)
                    &&& n == (GatheredModel {
                        file_deletes: g.file_deletes.insert(file, killed_so_far(n, file)),
                        ..g
                    })
                }
            },
            Err(_) => ids.len() > 0 && {
                ||| !reads.store
                ||| !reads.delete_files.contains_key((v.table_id, v.delete_file_id))
                ||| !m.tables.contains_key(v.table_id)
                ||| !m.schemas.contains_key(m.tables[v.table_id].schema_id)
            },
        },
{
    delete_file_cells_fit(v);
    indexes_are_listed(m, v.table_id, ids);
    let op = RowModel::Insert { table: TableKind::DeleteFile, cells: delete_file_cells(v) };
    assert(ops.push(op).drop_last() =~= ops);
}

/// What has to be read for the indexes of a table: the file that is inserted, the
/// delete file that is inserted, the data file of which rows are killed. A table
/// without an index asks for nothing.
pub proof fn reads_are_asked_for(
    m: CatalogModel,
    v: DataFileModel,
    d: DeleteFileModel,
    file: (u64, u64),
    killed: Set<u64>,
    store: bool,
    data_prefix: Seq<char>,
)
    ensures
        match inserted_file_read(m, data_file_cells(v), store, data_prefix) {
            Ok(None) => indexes_listed(m, v.table_id).len() == 0,
            Ok(Some(read)) => indexes_listed(m, v.table_id).len() > 0 && store && file_read(
                m,
                v,
                data_prefix,
            ) == Ok::<FileReadModel, Fault>(read),
            Err(_) => indexes_listed(m, v.table_id).len() > 0 && (!store || file_read(
                m,
                v,
                data_prefix,
            ) is Err),
        },
        match inserted_delete_read(m, delete_file_cells(d), store, data_prefix) {
            Ok(None) => indexes_listed(m, d.table_id).len() == 0,
            Ok(Some(read)) => {
                &&& indexes_listed(m, d.table_id).len() > 0
                &&& store
                &&& read.table_id == d.table_id
                &&& read.delete_file_id == d.delete_file_id
                &&& read.data_file_id == d.data_file_id
                &&& registered_path(m, d.table_id, d.path, d.path_is_relative, data_prefix) == Ok::<
                    Seq<char>,
                    Fault,
                >(read.path)
            },
            Err(_) => indexes_listed(m, d.table_id).len() > 0 && (!store || registered_path(
                m,
                d.table_id,
                d.path,
                d.path_is_relative,
                data_prefix,
            ) is Err),
        },
        match killed_file_read(m, file.0, file.1, killed, store, data_prefix) {
            Ok(None) => indexes_listed(m, file.0).len() == 0,
            Ok(Some(read)) => {
                &&& indexes_listed(m, file.0).len() > 0
                &&& store
                &&& m.data_files.contains_key(file)
                &&& file_read(m, m.data_files[file], data_prefix) == Ok::<FileReadModel, Fault>(read)
            },
            Err(_) => indexes_listed(m, file.0).len() > 0,
        },
{
    data_file_cells_fit(v);
    delete_file_cells_fit(d);
}

/// The schemas that a commit registers are those of its operations, the last one
/// of a table and version in the end.
pub proof fn registered_schemas_are_pending(ops: Seq<RowModel>, op: RowModel)
    ensures
        pending_schemas(Seq::empty()) == Map::<(u64, u64), Seq<u8>>::empty(),
        pending_schemas(ops.push(op)) == (match op {
            RowModel::InlineSchema { table_id, schema_version, arrow_schema } => pending_schemas(
                ops,
            ).insert((table_id, schema_version), arrow_schema),
            _ => pending_schemas(ops),
        }),
{
    assert(ops.push(op).drop_last() =~= ops);
}

/// The chunks of a table are those that were there, followed by those that the
/// commit adds, each with the rows that were read for it.
pub proof fn chunks_come_in_order(
    ops: Seq<RowModel>,
    op: RowModel,
    table_id: u64,
    reads: ReadsModel,
)
    ensures
        chunks_of(Seq::empty(), table_id, reads) == (if reads.committed_chunks.contains_key(
            table_id,
        ) {
            reads.committed_chunks[table_id]
        } else {
            Seq::empty()
        }),
        chunks_of(ops.push(op), table_id, reads) == (match op {
            RowModel::InlineInsert { table_id: t, schema_version, row_id_start, row_count, .. } => {
                if t == table_id {
                    chunks_of(ops, table_id, reads).push(
                        ChunkModel {
                            schema_version,
                            row_id_start,
                            row_count,
                            rows: if reads.staged_chunks.contains_key(ops.len() as u64) {
                                reads.staged_chunks[ops.len() as u64]
                            } else {
                                Seq::empty()
                            },
                        },
                    )
                } else {
                    chunks_of(ops, table_id, reads)
                }
            },
            _ => chunks_of(ops, table_id, reads),
        }),
{
    assert(ops.push(op).drop_last() =~= ops);
}

/// Whether a chunk holds a row, by its range.
pub open spec fn ranges_over(chunk: ChunkModel, row_id: u64) -> bool {
    chunk.row_id_start <= row_id < chunk.row_id_start + chunk.row_count
}

/// Whether every chunk's rows have ids.
pub open spec fn chunks_have_ids(chunks: Seq<ChunkModel>) -> bool {
    forall|i: int|
        0 <= i < chunks.len() ==> (#[trigger] chunks[i]).row_id_start + chunks[i].row_count
            <= u64::MAX
}

/// The rows among some that a chunk holds.
pub open spec fn rows_in_chunk(chunk: ChunkModel, row_ids: Seq<u64>) -> Set<u64> {
    Set::new(|r: u64| row_ids.contains(r) && ranges_over(chunk, r))
}

/// Rows that end lose their entries chunk by chunk: each chunk that holds some of
/// them loses the entries of those, and the others lose none.
pub proof fn ended_rows_leave_indexes(
    m: CatalogModel,
    pending: Map<(u64, u64), Seq<u8>>,
    stored: Map<(u64, u64), Seq<u8>>,
    table_id: u64,
    chunks: Seq<ChunkModel>,
    chunk: ChunkModel,
    row_ids: Seq<u64>,
)
    requires
        chunk.row_id_start + chunk.row_count <= u64::MAX,
    ensures
        ended_entries(m, pending, stored, table_id, Seq::empty(), row_ids) == Ok::<
            Seq<IndexEntryModel>,
            Fault,
        >(Seq::empty()),
        match (
            ended_entries(m, pending, stored, table_id, chunks, row_ids),
            ended_entries(m, pending, stored, table_id, chunks.push(chunk), row_ids),
        ) {
            (Err(f), r) => r == Err::<Seq<IndexEntryModel>, Fault>(f),
            (Ok(before), r) => {
                let held = rows_in_chunk(chunk, row_ids);
                let more = chunk_entries(m, pending, stored, table_id, chunk, Some(held));
                if held == Set::<u64>::empty() {
                    r == Ok::<Seq<IndexEntryModel>, Fault>(before)
                } else {
                    match more {
                        Err(f) => r == Err::<Seq<IndexEntryModel>, Fault>(f),
                        Ok(gone) => r == Ok::<Seq<IndexEntryModel>, Fault>(before + gone),
                    }
                }
            },
        },
{
    assert(chunks.push(chunk).drop_last() =~= chunks);
    assert(held_in(chunk, row_ids) =~= rows_in_chunk(chunk, row_ids));
}

proof fn uncovered_is_first(chunks: Seq<ChunkModel>, row_ids: Seq<u64>, from: int)
    requires
        0 <= from <= row_ids.len(),
        chunks_have_ids(chunks),
    ensures
        match first_uncovered(chunks, row_ids, from) {
            Some(r) => exists|i: int|
                from <= i < row_ids.len() && (#[trigger] row_ids[i]) == r && forall|c: int|
                    0 <= c < chunks.len() ==> !ranges_over(#[trigger] chunks[c], r),
            None => forall|i: int|
                from <= i < row_ids.len() ==> exists|c: int|
                    0 <= c < chunks.len() && ranges_over(
                        #[trigger] chunks[c],
                        #[trigger] row_ids[i],
                    ),
        },
    decreases row_ids.len() - from,
{
    if from < row_ids.len() {
        uncovered_is_first(chunks, row_ids, from + 1);
        let r = row_ids[from];
        if crate::index_changes::covered(chunks, r) {
            let c = choose|c: int|
                0 <= c < chunks.len() && crate::index_changes::holds_row(#[trigger] chunks[c], r);
            assert(ranges_over(chunks[c], r));
            if first_uncovered(chunks, row_ids, from) is None {
                assert forall|i: int| from <= i < row_ids.len() implies exists|c: int|
                    0 <= c < chunks.len() && ranges_over(
                        #[trigger] chunks[c],
                        #[trigger] row_ids[i],
                    ) by {
                    if i == from {
                        assert(ranges_over(chunks[c], row_ids[i]));
                    }
                }
            }
        } else {
            assert forall|c: int| 0 <= c < chunks.len() implies !ranges_over(
                #[trigger] chunks[c],
                r,
            ) by {
                assert(!crate::index_changes::holds_row(chunks[c], r));
            }
            assert(row_ids[from] == r);
        }
    }
}

/// Rows of an indexed table can end if and only if each is in a chunk, and what
/// they lose is what they lose in the chunks of the table.
pub proof fn ended_rows_are_in_chunks(
    m: CatalogModel,
    ops: Seq<RowModel>,
    reads: ReadsModel,
    table_id: u64,
    row_ids: Seq<u64>,
    ids: Seq<u64>,
)
    requires
        indexes_are(m, table_id, ids),
        chunks_have_ids(chunks_of(ops, table_id, reads)),
    ensures
        ({
            let chunks = chunks_of(ops, table_id, reads);
            let gone = ended_entries(
                m,
                pending_schemas(ops),
                reads.schemas,
                table_id,
                chunks,
                row_ids,
            );
            let all_held = forall|i: int|
                0 <= i < row_ids.len() ==> exists|c: int|
                    0 <= c < chunks.len() && ranges_over(
                        #[trigger] chunks[c],
                        #[trigger] row_ids[i],
                    );
            match removed_inline(m, ops, reads, table_id, row_ids) {
                Ok(entries) => if ids.len() == 0 {
                    entries.len() == 0
                } else {
                    all_held && gone == Ok::<Seq<IndexEntryModel>, Fault>(entries)
                },
                Err(_) => ids.len() > 0 && (gone is Err || !all_held),
            }
        }),
{
    indexes_are_listed(m, table_id, ids);
    let chunks = chunks_of(ops, table_id, reads);
    uncovered_is_first(chunks, row_ids, 0);
    if first_uncovered(chunks, row_ids, 0) is Some {
        let r = first_uncovered(chunks, row_ids, 0)->0;
        let i = choose|i: int|
            0 <= i < row_ids.len() && (#[trigger] row_ids[i]) == r && forall|c: int|
                0 <= c < chunks.len() ==> !ranges_over(#[trigger] chunks[c], r);
        assert(!exists|c: int|
            0 <= c < chunks.len() && ranges_over(#[trigger] chunks[c], row_ids[i]));
    }
}

proof fn inline_removals_add_up(
    m: CatalogModel,
    ops: Seq<RowModel>,
    reads: ReadsModel,
    ending: Map<u64, Seq<u64>>,
    tables: Seq<u64>,
    entries: Seq<IndexEntryModel>,
    e: IndexEntryModel,
)
    requires
        with_inline_removals(m, ops, reads, ending, tables, entries) is Ok,
    ensures
        with_inline_removals(m, ops, reads, ending, tables, entries)->Ok_0.contains(e)
            <==> entries.contains(e) || exists|k: int|
            0 <= k < tables.len() && removed_inline(
                m,
                ops,
                reads,
                #[trigger] tables[k],
                ending[tables[k]],
            )->Ok_0.contains(e),
        forall|k: int|
            0 <= k < tables.len() ==> removed_inline(
                m,
                ops,
                reads,
                #[trigger] tables[k],
                ending[tables[k]],
            ) is Ok,
    decreases tables.len(),
{
    if tables.len() > 0 {
        let front = tables.drop_last();
        let last = tables.len() - 1;
        inline_removals_add_up(m, ops, reads, ending, front, entries, e);
        let a = with_inline_removals(m, ops, reads, ending, front, entries)->Ok_0;
        let b = removed_inline(m, ops, reads, tables.last(), ending[tables.last()])->Ok_0;
        assert(tables[last] == tables.last());
        in_both(a, b, e);
        assert forall|k: int| 0 <= k < tables.len() implies removed_inline(
            m,
            ops,
            reads,
            #[trigger] tables[k],
            ending[tables[k]],
        ) is Ok by {
            if k < last {
                assert(front[k] == tables[k]);
            }
        }
        if exists|k: int|
            0 <= k < front.len() && removed_inline(
                m,
                ops,
                reads,
                #[trigger] front[k],
                ending[front[k]],
            )->Ok_0.contains(e) {
            let k = choose|k: int|
                0 <= k < front.len() && removed_inline(
                    m,
                    ops,
                    reads,
                    #[trigger] front[k],
                    ending[front[k]],
                )->Ok_0.contains(e);
            assert(tables[k] == front[k]);
        }
        if exists|k: int|
            0 <= k < tables.len() && removed_inline(
                m,
                ops,
                reads,
                #[trigger] tables[k],
                ending[tables[k]],
            )->Ok_0.contains(e) {
            let k = choose|k: int|
                0 <= k < tables.len() && removed_inline(
                    m,
                    ops,
                    reads,
                    #[trigger] tables[k],
                    ending[tables[k]],
                )->Ok_0.contains(e);
            if k < last {
                assert(front[k] == tables[k]);
            }
        }
    }
}

proof fn in_both<A>(a: Seq<A>, b: Seq<A>, x: A)
    ensures
        (a + b).contains(x) <==> a.contains(x) || b.contains(x),
{
    if a.contains(x) {
        let i = choose|i: int| 0 <= i < a.len() && a[i] == x;
        assert((a + b)[i] == x);
    }
    if b.contains(x) {
        let i = choose|i: int| 0 <= i < b.len() && b[i] == x;
        assert((a + b)[a.len() + i] == x);
    }
    if (a + b).contains(x) {
        let i = choose|i: int| 0 <= i < (a + b).len() && (a + b)[i] == x;
        if i < a.len() {
            assert(a[i] == x);
        } else {
            assert(b[i - a.len()] == x);
        }
    }
}

proof fn file_removals_add_up(
    m: CatalogModel,
    reads: ReadsModel,
    data_prefix: Seq<char>,
    killed: Map<(u64, u64), Set<u64>>,
    files: Seq<(u64, u64)>,
    entries: Seq<IndexEntryModel>,
    e: IndexEntryModel,
)
    requires
        with_file_removals(m, reads, data_prefix, killed, files, entries) is Ok,
    ensures
        with_file_removals(m, reads, data_prefix, killed, files, entries)->Ok_0.contains(e)
            <==> entries.contains(e) || exists|k: int|
            0 <= k < files.len() && killed_entries(
                m,
                #[trigger] files[k],
                killed[files[k]],
                reads,
                data_prefix,
            )->Ok_0.contains(e),
        forall|k: int|
            0 <= k < files.len() ==> killed_entries(
                m,
                #[trigger] files[k],
                killed[files[k]],
                reads,
                data_prefix,
            ) is Ok,
    decreases files.len(),
{
    if files.len() > 0 {
        let front = files.drop_last();
        let last = files.len() - 1;
        file_removals_add_up(m, reads, data_prefix, killed, front, entries, e);
        let a = with_file_removals(m, reads, data_prefix, killed, front, entries)->Ok_0;
        let b = killed_entries(m, files.last(), killed[files.last()], reads, data_prefix)->Ok_0;
        assert(files[last] == files.last());
        in_both(a, b, e);
        assert forall|k: int| 0 <= k < files.len() implies killed_entries(
            m,
            #[trigger] files[k],
            killed[files[k]],
            reads,
            data_prefix,
        ) is Ok by {
            if k < last {
                assert(front[k] == files[k]);
            }
        }
        if exists|k: int|
            0 <= k < front.len() && killed_entries(
                m,
                #[trigger] front[k],
                killed[front[k]],
                reads,
                data_prefix,
            )->Ok_0.contains(e) {
            let k = choose|k: int|
                0 <= k < front.len() && killed_entries(
                    m,
                    #[trigger] front[k],
                    killed[front[k]],
                    reads,
                    data_prefix,
                )->Ok_0.contains(e);
            assert(files[k] == front[k]);
        }
        if exists|k: int|
            0 <= k < files.len() && killed_entries(
                m,
                #[trigger] files[k],
                killed[files[k]],
                reads,
                data_prefix,
            )->Ok_0.contains(e) {
            let k = choose|k: int|
                0 <= k < files.len() && killed_entries(
                    m,
                    #[trigger] files[k],
                    killed[files[k]],
                    reads,
                    data_prefix,
                )->Ok_0.contains(e);
            if k < last {
                assert(front[k] == files[k]);
            }
        }
    }
}

/// The entries that a commit changes are those that its rows add, those that the
/// ended rows of each table lose, and those that the killed rows of each data
/// file lose; no table and no file is left out.
pub proof fn changed_entries_add_up(
    m: CatalogModel,
    ops: Seq<RowModel>,
    reads: ReadsModel,
    data_prefix: Seq<char>,
    e: IndexEntryModel,
)
    requires
        changed_entries(m, ops, reads, data_prefix) is Ok,
        ({
            let g = gathered(m, pending_schemas(ops), reads, data_prefix, ops)->Ok_0;
            g.inline_deletes.dom().finite() && g.file_deletes.dom().finite()
        }),
    ensures
        gathered(m, pending_schemas(ops), reads, data_prefix, ops) is Ok,
        ({
            let g = gathered(m, pending_schemas(ops), reads, data_prefix, ops)->Ok_0;
            changed_entries(m, ops, reads, data_prefix)->Ok_0.contains(e) <==> {
                ||| g.entries.contains(e)
                ||| exists|t: u64| #[trigger]
                    g.inline_deletes.contains_key(t) && removed_inline(
                        m,
                        ops,
                        reads,
                        t,
                        g.inline_deletes[t],
                    )->Ok_0.contains(e)
                ||| exists|f: (u64, u64)| #[trigger]
                    g.file_deletes.contains_key(f) && killed_entries(
                        m,
                        f,
                        g.file_deletes[f],
                        reads,
                        data_prefix,
                    )->Ok_0.contains(e)
            }
        }),
{
    let g = gathered(m, pending_schemas(ops), reads, data_prefix, ops)->Ok_0;
    let tables = ascending::<u64>(g.inline_deletes.dom());
    let files = ascending::<(u64, u64)>(g.file_deletes.dom());
    finite_sets_ascend::<u64>(g.inline_deletes.dom());
    finite_sets_ascend::<(u64, u64)>(g.file_deletes.dom());
    let mid = with_inline_removals(m, ops, reads, g.inline_deletes, tables, g.entries)->Ok_0;
    inline_removals_add_up(m, ops, reads, g.inline_deletes, tables, g.entries, e);
    file_removals_add_up(m, reads, data_prefix, g.file_deletes, files, mid, e);
    if exists|k: int|
        0 <= k < tables.len() && removed_inline(
            m,
            ops,
            reads,
            #[trigger] tables[k],
            g.inline_deletes[tables[k]],
        )->Ok_0.contains(e) {
        let k = choose|k: int|
            0 <= k < tables.len() && removed_inline(
                m,
                ops,
                reads,
                #[trigger] tables[k],
                g.inline_deletes[tables[k]],
            )->Ok_0.contains(e);
        assert(tables.to_set().contains(tables[k]));
        assert(g.inline_deletes.contains_key(tables[k]));
    }
    if exists|t: u64| #[trigger]
        g.inline_deletes.contains_key(t) && removed_inline(m, ops, reads, t, g.inline_deletes[t])->Ok_0.contains(
            e,
        ) {
        let t = choose|t: u64| #[trigger]
            g.inline_deletes.contains_key(t) && removed_inline(
                m,
                ops,
                reads,
                t,
                g.inline_deletes[t],
            )->Ok_0.contains(e);
        assert(tables.to_set().contains(t));
        let k = choose|k: int| 0 <= k < tables.len() && tables[k] == t;
        assert(tables[k] == t);
    }
    if exists|k: int|
        0 <= k < files.len() && killed_entries(
            m,
            #[trigger] files[k],
            g.file_deletes[files[k]],
            reads,
            data_prefix,
        )->Ok_0.contains(e) {
        let k = choose|k: int|
            0 <= k < files.len() && killed_entries(
                m,
                #[trigger] files[k],
                g.file_deletes[files[k]],
                reads,
                data_prefix,
            )->Ok_0.contains(e);
        assert(files.to_set().contains(files[k]));
        assert(g.file_deletes.contains_key(files[k]));
    }
    if exists|f: (u64, u64)| #[trigger]
        g.file_deletes.contains_key(f) && killed_entries(
            m,
            f,
            g.file_deletes[f],
            reads,
            data_prefix,
        )->Ok_0.contains(e) {
        let f = choose|f: (u64, u64)| #[trigger]
            g.file_deletes.contains_key(f) && killed_entries(
                m,
                f,
                g.file_deletes[f],
                reads,
                data_prefix,
            )->Ok_0.contains(e);
        assert(files.to_set().contains(f));
        let k = choose|k: int| 0 <= k < files.len() && files[k] == f;
        assert(files[k] == f);
    }
}

// ---------------------------------------------------------------------------
// What the store holds
// ---------------------------------------------------------------------------

/// Whether some entry adds a row to a value of an index that many rows may have.
pub open spec fn adds_row(
    entries: Seq<IndexEntryModel>,
    index_id: u64,
    key: Seq<u8>,
    row_id: u64,
) -> bool {
    exists|i: int|
        {
            &&& 0 <= i < entries.len()
            &&& !(#[trigger] entries[i]).delete && !entries[i].unique
            &&& entries[i].index_id == index_id && entries[i].key == key && entries[i].row_id
                == row_id
        }
}

/// Whether some entry removes a row from a value of an index that many rows may
/// have.
pub open spec fn removes_row(
    entries: Seq<IndexEntryModel>,
    index_id: u64,
    key: Seq<u8>,
    row_id: u64,
) -> bool {
    exists|i: int|
        {
            &&& 0 <= i < entries.len()
            &&& (#[trigger] entries[i]).delete && !entries[i].unique
            &&& entries[i].index_id == index_id && entries[i].key == key && entries[i].row_id
                == row_id
        }
}

/// Whether some entry gives a value of an index to a row alone.
pub open spec fn gives_value(
    entries: Seq<IndexEntryModel>,
    index_id: u64,
    key: Seq<u8>,
    row_id: u64,
) -> bool {
    exists|i: int|
        {
            &&& 0 <= i < entries.len()
            &&& !(#[trigger] entries[i]).delete && entries[i].unique
            &&& entries[i].index_id == index_id && entries[i].key == key && entries[i].row_id
                == row_id
        }
}

/// Whether some entry frees a value of an index that one row has alone.
pub open spec fn frees_value(entries: Seq<IndexEntryModel>, index_id: u64, key: Seq<u8>) -> bool {
    exists|i: int|
        {
            &&& 0 <= i < entries.len()
            &&& (#[trigger] entries[i]).delete && entries[i].unique
            &&& entries[i].index_id == index_id && entries[i].key == key
        }
}

proof fn front_and_last(entries: Seq<IndexEntryModel>, index_id: u64, key: Seq<u8>, row_id: u64)
    requires
        entries.len() > 0,
    ensures
        ({
            let front = entries.drop_last();
            let e = entries.last();
            let here = e.index_id == index_id && e.key == key;
            &&& adds_row(entries, index_id, key, row_id) <==> adds_row(
                front,
                index_id,
                key,
                row_id,
            ) || !e.delete && !e.unique && here && e.row_id == row_id
            &&& removes_row(entries, index_id, key, row_id) <==> removes_row(
                front,
                index_id,
                key,
                row_id,
            ) || e.delete && !e.unique && here && e.row_id == row_id
            &&& gives_value(entries, index_id, key, row_id) <==> gives_value(
                front,
                index_id,
                key,
                row_id,
            ) || !e.delete && e.unique && here && e.row_id == row_id
            &&& frees_value(entries, index_id, key) <==> frees_value(front, index_id, key)
                || e.delete && e.unique && here
        }),
{
    let front = entries.drop_last();
    let e = entries.last();
    let n = entries.len() - 1;
    assert(entries[n] == e);
    assert forall|i: int| 0 <= i < front.len() implies #[trigger] entries[i] == front[i] by {}
    if adds_row(front, index_id, key, row_id) {
        let i = choose|i: int|
            0 <= i < front.len() && !(#[trigger] front[i]).delete && !front[i].unique
                && front[i].index_id == index_id && front[i].key == key && front[i].row_id
                == row_id;
        assert(entries[i] == front[i]);
    }
    if removes_row(front, index_id, key, row_id) {
        let i = choose|i: int|
            0 <= i < front.len() && (#[trigger] front[i]).delete && !front[i].unique
                && front[i].index_id == index_id && front[i].key == key && front[i].row_id
                == row_id;
        assert(entries[i] == front[i]);
    }
    if gives_value(front, index_id, key, row_id) {
        let i = choose|i: int|
            0 <= i < front.len() && !(#[trigger] front[i]).delete && front[i].unique
                && front[i].index_id == index_id && front[i].key == key && front[i].row_id
                == row_id;
        assert(entries[i] == front[i]);
    }
    if frees_value(front, index_id, key) {
        let i = choose|i: int|
            0 <= i < front.len() && (#[trigger] front[i]).delete && front[i].unique
                && front[i].index_id == index_id && front[i].key == key;
        assert(entries[i] == front[i]);
    }
    if adds_row(entries, index_id, key, row_id) {
        let i = choose|i: int|
            0 <= i < entries.len() && !(#[trigger] entries[i]).delete && !entries[i].unique
                && entries[i].index_id == index_id && entries[i].key == key && entries[i].row_id
                == row_id;
        if i < n {
            assert(front[i] == entries[i]);
        }
    }
    if removes_row(entries, index_id, key, row_id) {
        let i = choose|i: int|
            0 <= i < entries.len() && (#[trigger] entries[i]).delete && !entries[i].unique
                && entries[i].index_id == index_id && entries[i].key == key && entries[i].row_id
                == row_id;
        if i < n {
            assert(front[i] == entries[i]);
        }
    }
    if gives_value(entries, index_id, key, row_id) {
        let i = choose|i: int|
            0 <= i < entries.len() && !(#[trigger] entries[i]).delete && entries[i].unique
                && entries[i].index_id == index_id && entries[i].key == key && entries[i].row_id
                == row_id;
        if i < n {
            assert(front[i] == entries[i]);
        }
    }
    if frees_value(entries, index_id, key) {
        let i = choose|i: int|
            0 <= i < entries.len() && (#[trigger] entries[i]).delete && entries[i].unique
                && entries[i].index_id == index_id && entries[i].key == key;
        if i < n {
            assert(front[i] == entries[i]);
        }
    }
}

/// The key of a row under a value that many rows may have.
pub open spec fn row_key(index_id: u64, key: Seq<u8>, row_id: u64) -> KeyModel {
    KeyModel::Index(IndexKeyModel::Multi { index_id, key, row_id })
}

/// The key of a value that one row has alone.
pub open spec fn value_key(index_id: u64, key: Seq<u8>) -> KeyModel {
    KeyModel::Index(IndexKeyModel::Unique { index_id, key })
}

proof fn removals_store_nothing(
    entries: Seq<IndexEntryModel>,
    index_id: u64,
    key: Seq<u8>,
    row_id: u64,
    before: Option<StoredModel>,
)
    ensures
        after(removals(entries), row_key(index_id, key, row_id), before) == (if removes_row(
            entries,
            index_id,
            key,
            row_id,
        ) {
            None
        } else {
            before
        }),
        after(removals(entries), value_key(index_id, key), before) == (if frees_value(
            entries,
            index_id,
            key,
        ) {
            None
        } else {
            before
        }),
        forall|k: KeyModel|
            !(k is Index) ==> #[trigger] after(removals(entries), k, before) == before,
    decreases entries.len(),
{
    if entries.len() > 0 {
        removals_store_nothing(entries.drop_last(), index_id, key, row_id, before);
        front_and_last(entries, index_id, key, row_id);
        let w = removals(entries.drop_last());
        if entries.last().delete {
            assert(removals(entries).drop_last() =~= w);
            assert forall|k: KeyModel| !(k is Index) implies #[trigger] after(
                removals(entries),
                k,
                before,
            ) == before by {
                assert(after(w, k, before) == before);
            }
        }
    }
}

proof fn additions_store_rows(
    entries: Seq<IndexEntryModel>,
    out: Set<(u64, Seq<u8>)>,
    held: Map<(u64, Seq<u8>), Seq<u8>>,
    index_id: u64,
    key: Seq<u8>,
    row_id: u64,
    before: Option<StoredModel>,
)
    requires
        additions(entries, out, held) is Ok,
    ensures
        ({
            let a = additions(entries, out, held)->Ok_0;
            let place = (index_id, key);
            &&& after(a.writes, row_key(index_id, key, row_id), before) == (if adds_row(
                entries,
                index_id,
                key,
                row_id,
            ) {
                Some(StoredModel::Raw(Seq::empty()))
            } else {
                before
            })
            &&& after(a.writes, value_key(index_id, key), before) == (if a.taken.contains_key(
                place,
            ) {
                Some(StoredModel::Raw(row_id_bytes(a.taken[place])))
            } else {
                before
            })
            &&& gives_value(entries, index_id, key, row_id) ==> {
                ||| a.taken.contains_key(place) && a.taken[place] == row_id
                ||| !a.taken.contains_key(place) && held.contains_key(place) && !out.contains(place)
                    && spelled(held[place]) == row_id
            }
            &&& a.taken.contains_key(place) ==> gives_value(
                entries,
                index_id,
                key,
                a.taken[place],
            ) && !(held.contains_key(place) && !out.contains(place))
            &&& forall|k: KeyModel|
                !(k is Index) ==> #[trigger] after(a.writes, k, before) == before
        }),
    decreases entries.len(),
{
    if entries.len() > 0 {
        let front = entries.drop_last();
        let e = entries.last();
        let place = (index_id, key);
        additions_store_rows(front, out, held, index_id, key, row_id, before);
        front_and_last(entries, index_id, key, row_id);
        let was = additions(front, out, held)->Ok_0;
        let a = additions(entries, out, held)->Ok_0;
        if a.taken.contains_key(place) {
            front_and_last(entries, index_id, key, a.taken[place]);
        }
        if was.taken.contains_key(place) {
            front_and_last(entries, index_id, key, was.taken[place]);
        }
        if a.writes != was.writes {
            assert(a.writes.drop_last() =~= was.writes);
            assert forall|k: KeyModel| !(k is Index) implies #[trigger] after(a.writes, k, before)
                == before by {
                assert(after(was.writes, k, before) == before);
            }
        }
    }
}

/// What a commit of index entries leaves in the store: a row is under a value
/// that many may have if it was added, or was there and was not removed; a value
/// that one row has alone is that row's in eight bytes that spell its id, unless
/// the row had it before; and nothing else is touched.
pub proof fn entries_are_stored(
    entries: Seq<IndexEntryModel>,
    held: Map<(u64, Seq<u8>), Seq<u8>>,
    index_id: u64,
    key: Seq<u8>,
    row_id: u64,
    before: Option<StoredModel>,
)
    requires
        entry_writes(entries, held) is Ok,
    ensures
        ({
            let writes = entry_writes(entries, held)->Ok_0;
            let place = (index_id, key);
            let kept_value = held.contains_key(place) && !frees_value(entries, index_id, key);
            &&& after(writes, row_key(index_id, key, row_id), before) == (if adds_row(
                entries,
                index_id,
                key,
                row_id,
            ) {
                Some(StoredModel::Raw(Seq::empty()))
            } else if removes_row(entries, index_id, key, row_id) {
                None
            } else {
                before
            })
            &&& gives_value(entries, index_id, key, row_id) ==> if kept_value {
                spelled(held[place]) == row_id && after(writes, value_key(index_id, key), before)
                    == before
            } else {
                after(writes, value_key(index_id, key), before) matches Some(StoredModel::Raw(b))
                    && b.len() == 8 && spelled(b) == row_id
            }
            &&& (forall|r: u64| !#[trigger] gives_value(entries, index_id, key, r)) ==> after(
                writes,
                value_key(index_id, key),
                before,
            ) == (if frees_value(entries, index_id, key) {
                None
            } else {
                before
            })
            &&& forall|k: KeyModel| !(k is Index) ==> #[trigger] after(writes, k, before) == before
        }),
{
    let out = freed(entries);
    let place = (index_id, key);
    assert(out.contains(place) == frees_value(entries, index_id, key)) by {
        if out.contains(place) {
            let i = choose|i: int|
                0 <= i < entries.len() && (#[trigger] entries[i]).delete && entries[i].unique
                    && place == (entries[i].index_id, entries[i].key);
            assert(entries[i].delete);
        }
        if frees_value(entries, index_id, key) {
            let i = choose|i: int|
                0 <= i < entries.len() && (#[trigger] entries[i]).delete && entries[i].unique
                    && entries[i].index_id == index_id && entries[i].key == key;
            assert(entries[i].delete);
        }
    }
    let a = additions(entries, out, held)->Ok_0;
    let w = removals(entries);
    let writes = w + a.writes;
    removals_store_nothing(entries, index_id, key, row_id, before);
    let k1 = row_key(index_id, key, row_id);
    let k2 = value_key(index_id, key);
    after_both(w, a.writes, k1, before);
    after_both(w, a.writes, k2, before);
    additions_store_rows(entries, out, held, index_id, key, row_id, after(w, k1, before));
    additions_store_rows(entries, out, held, index_id, key, row_id, after(w, k2, before));
    if a.taken.contains_key(place) {
        row_id_reads_back(a.taken[place]);
        assert(gives_value(entries, index_id, key, a.taken[place]));
    }
    assert forall|k: KeyModel| !(k is Index) implies #[trigger] after(writes, k, before)
        == before by {
        after_both(w, a.writes, k, before);
        additions_store_rows(entries, out, held, index_id, key, row_id, after(w, k, before));
    }
}

/// Whether a value is given to two rows, or is another row's already and is not
/// freed, or what the store holds under it is no row id.
spec fn contested(
    entries: Seq<IndexEntryModel>,
    held: Map<(u64, Seq<u8>), Seq<u8>>,
    out: Set<(u64, Seq<u8>)>,
    index_id: u64,
    key: Seq<u8>,
) -> bool {
    ||| exists|r: u64, q: u64|
        r != q && #[trigger] gives_value(entries, index_id, key, r) && #[trigger] gives_value(
            entries,
            index_id,
            key,
            q,
        )
    ||| held.contains_key((index_id, key)) && !out.contains((index_id, key)) && exists|r: u64|
        #[trigger] gives_value(entries, index_id, key, r) && (held[(index_id, key)].len() != 8
            || spelled(held[(index_id, key)]) != r)
}

proof fn additions_stand(
    entries: Seq<IndexEntryModel>,
    out: Set<(u64, Seq<u8>)>,
    held: Map<(u64, Seq<u8>), Seq<u8>>,
)
    requires
        forall|index_id: u64, key: Seq<u8>|
            !#[trigger] contested(entries, held, out, index_id, key),
    ensures
        additions(entries, out, held) is Ok,
    decreases entries.len(),
{
    if entries.len() > 0 {
        let front = entries.drop_last();
        let e = entries.last();
        assert forall|index_id: u64, key: Seq<u8>|
            !#[trigger] contested(front, held, out, index_id, key) by {
            if contested(front, held, out, index_id, key) {
                assert forall|r: u64| gives_value(front, index_id, key, r) implies #[trigger] gives_value(
                    entries,
                    index_id,
                    key,
                    r,
                ) by {
                    front_and_last(entries, index_id, key, r);
                }
                if exists|r: u64, q: u64|
                    r != q && #[trigger] gives_value(front, index_id, key, r)
                        && #[trigger] gives_value(front, index_id, key, q) {
                    let (r, q) = choose|r: u64, q: u64|
                        r != q && #[trigger] gives_value(front, index_id, key, r)
                            && #[trigger] gives_value(front, index_id, key, q);
                    assert(gives_value(entries, index_id, key, r));
                    assert(gives_value(entries, index_id, key, q));
                } else {
                    let r = choose|r: u64| #[trigger]
                        gives_value(front, index_id, key, r) && (held[(index_id, key)].len() != 8
                            || spelled(held[(index_id, key)]) != r);
                    assert(gives_value(entries, index_id, key, r));
                }
                assert(contested(entries, held, out, index_id, key));
            }
        }
        additions_stand(front, out, held);
        let a = additions(front, out, held)->Ok_0;
        let place = (e.index_id, e.key);
        if !e.delete && e.unique {
            front_and_last(entries, e.index_id, e.key, e.row_id);
            assert(gives_value(entries, e.index_id, e.key, e.row_id));
            assert(!contested(entries, held, out, e.index_id, e.key));
            additions_store_rows(front, out, held, e.index_id, e.key, e.row_id, None);
            if a.taken.contains_key(place) {
                front_and_last(entries, e.index_id, e.key, a.taken[place]);
                assert(gives_value(entries, e.index_id, e.key, a.taken[place]));
            }
        }
    }
}

/// Whether a value is given to two rows, or is another row's already and is not
/// freed.
pub open spec fn disputed(
    entries: Seq<IndexEntryModel>,
    held: Map<(u64, Seq<u8>), Seq<u8>>,
    index_id: u64,
    key: Seq<u8>,
) -> bool {
    ||| exists|r: u64, q: u64|
        r != q && #[trigger] gives_value(entries, index_id, key, r) && #[trigger] gives_value(
            entries,
            index_id,
            key,
            q,
        )
    ||| held.contains_key((index_id, key)) && !frees_value(entries, index_id, key) && exists|r: u64|
        #[trigger] gives_value(entries, index_id, key, r) && spelled(held[(index_id, key)]) != r
}

/// A commit of index entries is refused if and only if some value is disputed.
pub proof fn disputed_values_are_refused(
    entries: Seq<IndexEntryModel>,
    held: Map<(u64, Seq<u8>), Seq<u8>>,
)
    requires
        forall|p: (u64, Seq<u8>)| #[trigger] held.contains_key(p) ==> held[p].len() == 8,
    ensures
        entry_writes(entries, held) is Err <==> exists|index_id: u64, key: Seq<u8>| #[trigger]
            disputed(entries, held, index_id, key),
{
    let out = freed(entries);
    assert forall|index_id: u64, key: Seq<u8>|
        out.contains((index_id, key)) == #[trigger] frees_value(entries, index_id, key) by {
        let place = (index_id, key);
        if out.contains(place) {
            let i = choose|i: int|
                0 <= i < entries.len() && (#[trigger] entries[i]).delete && entries[i].unique
                    && place == (entries[i].index_id, entries[i].key);
            assert(entries[i].delete);
        }
        if frees_value(entries, index_id, key) {
            let i = choose|i: int|
                0 <= i < entries.len() && (#[trigger] entries[i]).delete && entries[i].unique
                    && entries[i].index_id == index_id && entries[i].key == key;
            assert(entries[i].delete);
        }
    }
    if entry_writes(entries, held) is Err {
        if forall|index_id: u64, key: Seq<u8>|
            !#[trigger] contested(entries, held, out, index_id, key) {
            additions_stand(entries, out, held);
        } else {
            let (index_id, key) = choose|index_id: u64, key: Seq<u8>| #[trigger]
                contested(entries, held, out, index_id, key);
            assert(out.contains((index_id, key)) == frees_value(entries, index_id, key));
            assert(disputed(entries, held, index_id, key));
        }
    } else {
        assert forall|index_id: u64, key: Seq<u8>|
            !#[trigger] disputed(entries, held, index_id, key) by {
            let a = additions(entries, out, held)->Ok_0;
            let place = (index_id, key);
            assert(out.contains(place) == frees_value(entries, index_id, key));
            assert forall|r: u64| #[trigger] gives_value(entries, index_id, key, r) implies {
                ||| a.taken.contains_key(place) && a.taken[place] == r
                ||| !a.taken.contains_key(place) && held.contains_key(place) && !out.contains(place)
                    && spelled(held[place]) == r
            } by {
                additions_store_rows(entries, out, held, index_id, key, r, None);
            }
            additions_store_rows(entries, out, held, index_id, key, 0, None);
        }
    }
}

} // verus!
