//! What index scans find: rows by value and by range, batches of keys, and where
//! an index read finds its columns.
use crate::api::{ColumnInfoSpec, IndexInfoSpec};
use crate::bytes::{begins_with, bytes_below, bytes_below_strict, bytes_below_total, spelled};
use crate::catalog::{column_list, CatalogModel};
use crate::error::Fault;
use crate::index_entries::{
    above_lower, batch, below_upper, from_edge, last_key, resumed, rows_in_keys, rows_in_range,
    to_edge, unframed, EdgeModel,
};
use crate::index_upkeep::{
    file_read, indexes_listed, normalized_path, positions_in, read_plan, registered_path, row_part,
    ScopedModel,
};
use crate::keys::{IndexKeyModel, KeyModel};
use crate::records::DataFileModel;
use vstd::prelude::*;

verus! {

// ---------------------------------------------------------------------------
// Rows
// ---------------------------------------------------------------------------

/// Whether a key is of a row under a value that many rows may have.
pub open spec fn key_has_row(key: KeyModel, row_id: u64) -> bool {
    match key {
        KeyModel::Index(IndexKeyModel::Multi { row_id: r, .. }) => r == row_id,
        _ => false,
    }
}

/// A scan finds the rows of its keys, in their order; a key without a row breaks
/// it.
pub proof fn scans_find_rows(what: Seq<char>, keys: Seq<KeyModel>)
    ensures
        match rows_in_keys(what, keys) {
            Ok(rows) => rows.len() == keys.len() && forall|i: int|
                0 <= i < keys.len() ==> key_has_row(#[trigger] keys[i], rows[i]),
            Err(f) => f is Corruption && exists|i: int|
                0 <= i < keys.len() && !(#[trigger] keys[i] matches KeyModel::Index(
                    IndexKeyModel::Multi { .. },
                )),
        },
    decreases keys.len(),
{
    if keys.len() > 0 {
        let front = keys.drop_last();
        let n = keys.len() - 1;
        scans_find_rows(what, front);
        assert(keys[n] == keys.last());
        assert forall|i: int| 0 <= i < front.len() implies #[trigger] front[i] == keys[i] by {}
        match rows_in_keys(what, keys) {
            Ok(rows) => {
                let before = rows_in_keys(what, front)->Ok_0;
                assert forall|i: int| 0 <= i < keys.len() implies key_has_row(
                    #[trigger] keys[i],
                    rows[i],
                ) by {
                    if i < n {
                        assert(front[i] == keys[i]);
                        assert(rows[i] == before[i]);
                    }
                }
            },
            Err(_) => {
                if rows_in_keys(what, front) is Err {
                    let i = choose|i: int|
                        0 <= i < front.len() && !(#[trigger] front[i] matches KeyModel::Index(
                            IndexKeyModel::Multi { .. },
                        ));
                    assert(keys[i] == front[i]);
                }
            },
        }
    }
}

/// Whether an entry is of a row: by its value where one row has it alone, by its
/// key where many may.
pub open spec fn entry_has_row(unique: bool, entry: (KeyModel, Seq<u8>), row_id: u64) -> bool {
    if unique {
        entry.1.len() == 8 && spelled(entry.1) as u64 == row_id
    } else {
        key_has_row(entry.0, row_id)
    }
}

/// Whether an entry is of no row: its value is no row id, or its key has none.
pub open spec fn rowless(unique: bool, entry: (KeyModel, Seq<u8>)) -> bool {
    if unique {
        entry.1.len() != 8
    } else {
        !(entry.0 matches KeyModel::Index(IndexKeyModel::Multi { .. }))
    }
}

/// A scan of a range finds the rows of its entries, in their order; an entry
/// without a row breaks it.
pub proof fn range_scans_find_rows(unique: bool, entries: Seq<(KeyModel, Seq<u8>)>)
    ensures
        match rows_in_range(unique, entries) {
            Ok(rows) => rows.len() == entries.len() && forall|i: int|
                0 <= i < entries.len() ==> entry_has_row(unique, #[trigger] entries[i], rows[i]),
            Err(f) => f is Corruption && exists|i: int|
                0 <= i < entries.len() && rowless(unique, #[trigger] entries[i]),
        },
    decreases entries.len(),
{
    if entries.len() > 0 {
        let front = entries.drop_last();
        let n = entries.len() - 1;
        range_scans_find_rows(unique, front);
        assert(entries[n] == entries.last());
        assert forall|i: int| 0 <= i < front.len() implies #[trigger] front[i] == entries[i] by {}
        match rows_in_range(unique, entries) {
            Ok(rows) => {
                let before = rows_in_range(unique, front)->Ok_0;
                assert forall|i: int| 0 <= i < entries.len() implies entry_has_row(
                    unique,
                    #[trigger] entries[i],
                    rows[i],
                ) by {
                    if i < n {
                        assert(front[i] == entries[i]);
                        assert(rows[i] == before[i]);
                    }
                }
            },
            Err(_) => {
                if rows_in_range(unique, front) is Err {
                    let i = choose|i: int|
                        0 <= i < front.len() && rowless(unique, #[trigger] front[i]);
                    assert(entries[i] == front[i]);
                } else {
                    assert(rowless(unique, entries[n]));
                }
            },
        }
    }
}

// ---------------------------------------------------------------------------
// Order and ranges
// ---------------------------------------------------------------------------

/// Whether byte strings agree up to a position.
pub open spec fn agree(a: Seq<u8>, b: Seq<u8>, n: int) -> bool {
    0 <= n <= a.len() && n <= b.len() && forall|i: int| 0 <= i < n ==> #[trigger] a[i] == b[i]
}

/// Whether a byte string is below another from the position on where they part.
pub open spec fn parts_below(a: Seq<u8>, b: Seq<u8>, n: int) -> bool {
    agree(a, b, n) && n < b.len() && (n == a.len() || a[n] < b[n])
}

/// Byte strings are ordered by the first byte in which they part; one that ends
/// where the other goes on is below it.
pub proof fn bytes_are_ordered_from_the_left(a: Seq<u8>, b: Seq<u8>)
    ensures
        bytes_below(a, b) <==> exists|n: int| #[trigger] parts_below(a, b, n),
    decreases a.len(),
{
    if b.len() > 0 {
        if a.len() == 0 {
            assert(parts_below(a, b, 0));
        } else {
            let x = a.skip(1);
            let y = b.skip(1);
            bytes_are_ordered_from_the_left(x, y);
            if a[0] < b[0] {
                assert(parts_below(a, b, 0));
            } else if a[0] == b[0] {
                if exists|n: int| #[trigger] parts_below(x, y, n) {
                    let n = choose|n: int| #[trigger] parts_below(x, y, n);
                    assert forall|i: int| 0 <= i < n + 1 implies #[trigger] a[i] == b[i] by {
                        if i > 0 {
                            assert(x[i - 1] == y[i - 1]);
                        }
                    }
                    if n < a.len() - 1 {
                        assert(x[n] < y[n]);
                    }
                    assert(parts_below(a, b, n + 1));
                }
                if exists|n: int| #[trigger] parts_below(a, b, n) {
                    let n = choose|n: int| #[trigger] parts_below(a, b, n);
                    assert(n > 0);
                    assert forall|i: int| 0 <= i < n - 1 implies #[trigger] x[i] == y[i] by {
                        assert(a[i + 1] == b[i + 1]);
                    }
                    if n < a.len() {
                        assert(a[n] < b[n]);
                        assert(x[n - 1] < y[n - 1]);
                    }
                    assert(parts_below(x, y, n - 1));
                }
            } else {
                if exists|n: int| #[trigger] parts_below(a, b, n) {
                    let n = choose|n: int| #[trigger] parts_below(a, b, n);
                    if n > 0 {
                        assert(a[0] == b[0]);
                    }
                }
            }
        }
    }
}

/// An edge of a scan lets through what is on its side of it; the edge itself where
/// it is included alone.
pub proof fn edges_divide(s: Seq<u8>, b: Seq<u8>)
    ensures
        from_edge(s, EdgeModel::Included(b)) <==> s == b || bytes_below(b, s),
        from_edge(s, EdgeModel::Excluded(b)) <==> bytes_below(b, s),
        to_edge(s, EdgeModel::Included(b)) <==> s == b || bytes_below(s, b),
        to_edge(s, EdgeModel::Excluded(b)) <==> bytes_below(s, b),
        from_edge(s, EdgeModel::Unbounded),
        to_edge(s, EdgeModel::Unbounded),
{
    bytes_below_strict(s, b);
    bytes_below_strict(b, s);
    bytes_below_total(s, b);
    bytes_below_strict(s, s);
}

proof fn parts_before(s: Seq<u8>, p: Seq<u8>, x: u8)
    requires
        !begins_with(s, p),
    ensures
        bytes_below(s, p.push(x)) == bytes_below(s, p),
    decreases p.len(),
{
    let q = p.push(x);
    if p.len() == 0 {
        assert(s.take(0) =~= p);
    } else if s.len() > 0 {
        assert(q.skip(1) =~= p.skip(1).push(x));
        if s[0] == p[0] {
            if begins_with(s.skip(1), p.skip(1)) {
                assert(s.take(p.len() as int) =~= p) by {
                    assert forall|i: int| 0 <= i < p.len() implies #[trigger] s.take(
                        p.len() as int,
                    )[i] == p[i] by {
                        if i > 0 {
                            assert(s.skip(1).take(p.len() - 1)[i - 1] == p.skip(1)[i - 1]);
                        }
                    }
                }
            }
            parts_before(s.skip(1), p.skip(1), x);
        }
    }
}

/// The edges of a range of values, each framed by a byte at its end, let through
/// the keys on their side; of the keys of the edge's own value they let through
/// all where it is included, and none where it is excluded.
pub proof fn ranges_hold_whole_values(s: Seq<u8>, value: Seq<u8>, frame: u8)
    ensures
        begins_with(s, value.push(frame)) ==> above_lower(
            s,
            EdgeModel::Included(value.push(frame)),
        ) && below_upper(s, EdgeModel::Included(value.push(frame))),
        begins_with(s, value.push(frame)) ==> !above_lower(
            s,
            EdgeModel::Excluded(value.push(frame)),
        ) && !below_upper(s, EdgeModel::Excluded(value.push(frame))),
        !begins_with(s, value) ==> (above_lower(s, EdgeModel::Included(value.push(frame)))
            <==> bytes_below(value, s)) && (above_lower(s, EdgeModel::Excluded(value.push(frame)))
            <==> bytes_below(value, s)) && (below_upper(s, EdgeModel::Included(value.push(frame)))
            <==> bytes_below(s, value)) && (below_upper(s, EdgeModel::Excluded(value.push(frame)))
            <==> bytes_below(s, value)),
        above_lower(s, EdgeModel::Unbounded) && below_upper(s, EdgeModel::Unbounded),
{
    let framed = value.push(frame);
    assert(unframed(framed) =~= value);
    bytes_below_strict(s, value);
    bytes_below_total(s, value);
    if begins_with(s, framed) {
        extensions_are_not_below(s, framed);
        assert(s.take(value.len() as int) =~= value) by {
            assert forall|i: int| 0 <= i < value.len() implies #[trigger] s.take(
                value.len() as int,
            )[i] == value[i] by {
                assert(s.take(framed.len() as int)[i] == framed[i]);
            }
        }
    }
    if !begins_with(s, value) {
        parts_before(s, value, frame);
        if s == value {
            assert(s.take(value.len() as int) =~= value);
        }
    }
}

proof fn extensions_are_not_below(s: Seq<u8>, p: Seq<u8>)
    requires
        begins_with(s, p),
    ensures
        !bytes_below(s, p),
    decreases p.len(),
{
    if p.len() > 0 {
        assert(s[0] == p[0]) by {
            assert(s.take(p.len() as int)[0] == p[0]);
        }
        assert(s.skip(1).take(p.len() - 1) =~= p.skip(1)) by {
            assert forall|i: int| 0 <= i < p.len() - 1 implies #[trigger] s.skip(1).take(
                p.len() - 1,
            )[i] == p.skip(1)[i] by {
                assert(s.take(p.len() as int)[i + 1] == p[i + 1]);
            }
        }
        extensions_are_not_below(s.skip(1), p.skip(1));
    }
}

// ---------------------------------------------------------------------------
// Batches
// ---------------------------------------------------------------------------

/// A scan that goes on starts behind the key that it reached: the prefix and what
/// it resumes from are that key. One that has reached nothing starts at the
/// prefix.
pub proof fn scans_resume_where_they_stopped(prefix: Seq<u8>, key: Seq<u8>)
    requires
        begins_with(key, prefix),
    ensures
        prefix + resumed(prefix, Some(key)) == key,
        prefix + resumed(prefix, None) == prefix,
{
    assert(prefix + key.skip(prefix.len() as int) =~= key) by {
        assert forall|i: int| 0 <= i < key.len() implies #[trigger] (prefix + key.skip(
            prefix.len() as int,
        ))[i] == key[i] by {
            if i < prefix.len() {
                assert(key.take(prefix.len() as int)[i] == prefix[i]);
            }
        }
    }
    assert(prefix + Seq::<u8>::empty() =~= prefix);
}

/// A batch holds the first keys, as many as there may be, and is resumed from its
/// last.
pub proof fn batches_hold_the_first_keys(keys: Seq<Seq<u8>>, limit: nat, i: int)
    ensures
        batch(keys, limit).len() <= limit,
        batch(keys, limit).len() <= keys.len(),
        batch(keys, limit).len() == limit || batch(keys, limit).len() == keys.len(),
        0 <= i < batch(keys, limit).len() ==> batch(keys, limit)[i] == keys[i],
        match last_key(batch(keys, limit)) {
            Some(key) => batch(keys, limit).len() > 0 && key == keys[batch(keys, limit).len() - 1],
            None => batch(keys, limit).len() == 0,
        },
{
}

// ---------------------------------------------------------------------------
// Reads for indexes
// ---------------------------------------------------------------------------

/// Whether a position is that of a column among some, the first of its id.
pub open spec fn position_is(columns: Seq<ColumnInfoSpec>, position: usize, id: u64) -> bool {
    &&& position < columns.len()
    &&& columns[position as int].id.id == id
    &&& forall|i: int| 0 <= i < position ==> (#[trigger] columns[i]).id.id != id
}

/// Whether a column is among some.
pub open spec fn has_column(columns: Seq<ColumnInfoSpec>, id: u64) -> bool {
    exists|i: int| 0 <= i < columns.len() && (#[trigger] columns[i]).id.id == id
}

proof fn first_is_first(columns: Seq<ColumnInfoSpec>, id: u64, from: int)
    requires
        0 <= from <= columns.len(),
    ensures
        ({
            let at = crate::index_upkeep::first_position(columns, id, from);
            &&& from <= at <= columns.len()
            &&& at < columns.len() ==> columns[at].id.id == id
            &&& forall|i: int| from <= i < at ==> (#[trigger] columns[i]).id.id != id
        }),
    decreases columns.len() - from,
{
    if from < columns.len() && columns[from].id.id != id {
        first_is_first(columns, id, from + 1);
    }
}

/// The columns of an index are found by their ids, in the index's order; one that
/// the table does not have is refused.
pub proof fn index_columns_are_found(columns: Seq<ColumnInfoSpec>, wanted: Seq<u64>, table_id: u64)
    requires
        columns.len() <= usize::MAX,
    ensures
        match positions_in(columns, wanted, table_id) {
            Ok(positions) => positions.len() == wanted.len() && forall|j: int|
                0 <= j < wanted.len() ==> position_is(columns, positions[j], #[trigger] wanted[j]),
            Err(f) => f is NotFound && exists|j: int|
                0 <= j < wanted.len() && !has_column(columns, #[trigger] wanted[j]),
        },
    decreases wanted.len(),
{
    if wanted.len() > 0 {
        let front = wanted.drop_last();
        let n = wanted.len() - 1;
        index_columns_are_found(columns, front, table_id);
        first_is_first(columns, wanted.last(), 0);
        assert(wanted[n] == wanted.last());
        assert forall|j: int| 0 <= j < front.len() implies #[trigger] front[j] == wanted[j] by {}
        match positions_in(columns, wanted, table_id) {
            Ok(positions) => {
                let before = positions_in(columns, front, table_id)->Ok_0;
                assert forall|j: int| 0 <= j < wanted.len() implies position_is(
                    columns,
                    positions[j],
                    #[trigger] wanted[j],
                ) by {
                    if j < n {
                        assert(front[j] == wanted[j]);
                        assert(positions[j] == before[j]);
                    }
                }
            },
            Err(_) => {
                if positions_in(columns, front, table_id) is Err {
                    let j = choose|j: int|
                        0 <= j < front.len() && !has_column(columns, #[trigger] front[j]);
                    assert(wanted[j] == front[j]);
                } else {
                    assert(!has_column(columns, wanted[n]));
                }
            },
        }
    }
}

/// Whether a span of positions is that of an index's columns.
pub open spec fn span_is(
    columns: Seq<ColumnInfoSpec>,
    positions: Seq<usize>,
    span: (usize, usize),
    index: IndexInfoSpec,
) -> bool {
    &&& span.0 + span.1 <= positions.len()
    &&& span.1 == index.columns.len()
    &&& forall|j: int|
        0 <= j < index.columns.len() ==> position_is(
            columns,
            positions[span.0 + j],
            #[trigger] index.columns[j],
        )
}

/// How many columns indexes have together.
pub open spec fn columns_wanted(indexes: Seq<IndexInfoSpec>) -> nat
    decreases indexes.len(),
{
    if indexes.len() == 0 {
        0
    } else {
        columns_wanted(indexes.drop_last()) + indexes.last().columns.len()
    }
}

/// A read for the indexes of a table has for each index a span of the positions
/// of its columns, in the index's order; a column that the table does not have is
/// refused.
pub proof fn reads_are_planned_by_index(
    columns: Seq<ColumnInfoSpec>,
    indexes: Seq<IndexInfoSpec>,
    table_id: u64,
)
    requires
        columns.len() <= usize::MAX,
        columns_wanted(indexes) <= usize::MAX,
    ensures
        read_plan(columns, indexes, table_id) is Ok ==> read_plan(
            columns,
            indexes,
            table_id,
        )->Ok_0.0.len() == columns_wanted(indexes),
        match read_plan(columns, indexes, table_id) {
            Ok((positions, spans)) => spans.len() == indexes.len() && forall|k: int|
                0 <= k < indexes.len() ==> span_is(
                    columns,
                    positions,
                    spans[k],
                    #[trigger] indexes[k],
                ),
            Err(f) => f is NotFound && exists|k: int, j: int|
                0 <= k < indexes.len() && 0 <= j < indexes[k].columns.len() && !has_column(
                    columns,
                    #[trigger] indexes[k].columns[j],
                ),
        },
    decreases indexes.len(),
{
    if indexes.len() > 0 {
        let front = indexes.drop_last();
        let n = indexes.len() - 1;
        assert(indexes[n] == indexes.last());
        assert forall|k: int| 0 <= k < front.len() implies #[trigger] front[k] == indexes[k] by {}
        index_columns_are_found(columns, indexes.last().columns, table_id);
        reads_are_planned_by_index(columns, front, table_id);
        match read_plan(columns, indexes, table_id) {
            Ok((positions, spans)) => {
                let (was, parts) = read_plan(columns, front, table_id)->Ok_0;
                let more = positions_in(columns, indexes.last().columns, table_id)->Ok_0;
                assert forall|k: int| 0 <= k < indexes.len() implies span_is(
                    columns,
                    positions,
                    spans[k],
                    #[trigger] indexes[k],
                ) by {
                    if k < n {
                        assert(front[k] == indexes[k]);
                        assert(span_is(columns, was, parts[k], front[k]));
                        assert forall|j: int| 0 <= j < indexes[k].columns.len() implies position_is(
                            columns,
                            positions[spans[k].0 + j],
                            #[trigger] indexes[k].columns[j],
                        ) by {
                            assert(position_is(columns, was[parts[k].0 + j], front[k].columns[j]));
                        }
                    } else {
                        assert forall|j: int| 0 <= j < indexes[k].columns.len() implies position_is(
                            columns,
                            positions[spans[k].0 + j],
                            #[trigger] indexes[k].columns[j],
                        ) by {
                            assert(positions[was.len() + j] == more[j]);
                        }
                    }
                }
            },
            Err(_) => {
                if read_plan(columns, front, table_id) is Err {
                    let (k, j) = choose|k: int, j: int|
                        0 <= k < front.len() && 0 <= j < front[k].columns.len() && !has_column(
                            columns,
                            #[trigger] front[k].columns[j],
                        );
                    assert(!has_column(columns, indexes[k].columns[j]));
                } else {
                    let wanted = indexes.last().columns;
                    let j = choose|j: int|
                        0 <= j < wanted.len() && !has_column(columns, #[trigger] wanted[j]);
                    assert(!has_column(columns, indexes[n].columns[j]));
                }
            },
        }
    }
}

/// The read of a data file for its table's indexes is at the file's place, and of
/// its size and rows.
pub proof fn file_reads_are_of_the_file(
    m: CatalogModel,
    file: DataFileModel,
    data_prefix: Seq<char>,
)
    ensures
        match file_read(m, file, data_prefix) {
            Ok(read) => {
                let table = m.tables[file.table_id];
                let directory = m.schemas[table.schema_id].path + table.path;
                &&& m.tables.contains_key(file.table_id)
                &&& m.schemas.contains_key(table.schema_id)
                &&& read.table_id == file.table_id && read.data_file_id == file.data_file_id
                &&& read.row_id_start == file.row_id_start
                &&& read.file_size_bytes == file.file_size_bytes
                &&& read_plan(
                    column_list(m, file.table_id),
                    indexes_listed(m, file.table_id),
                    file.table_id,
                ) == Ok::<(Seq<usize>, Seq<(usize, usize)>), Fault>((read.positions, read.spans))
                &&& !file.path_is_relative ==> read.path == normalized_path(file.path)
                &&& file.path_is_relative && data_prefix.len() == 0 ==> read.path
                    == normalized_path(directory + file.path)
                &&& file.path_is_relative && data_prefix.len() > 0 ==> read.path
                    == normalized_path(data_prefix.push('/') + directory + file.path)
            },
            Err(_) => {
                ||| !m.tables.contains_key(file.table_id)
                ||| !m.schemas.contains_key(m.tables[file.table_id].schema_id)
                ||| read_plan(
                    column_list(m, file.table_id),
                    indexes_listed(m, file.table_id),
                    file.table_id,
                ) is Err
            },
        },
        registered_path(m, file.table_id, file.path, file.path_is_relative, data_prefix) is Ok
            <==> m.tables.contains_key(file.table_id) && m.schemas.contains_key(
            m.tables[file.table_id].schema_id,
        ),
{
    reveal_strlit("/");
    assert(data_prefix + "/"@ =~= data_prefix.push('/'));
}

/// The part of a row that is an index's is the values of its span, and keeps the
/// row's id.
pub proof fn parts_of_rows_keep_their_id(row: ScopedModel, span: (usize, usize), j: int)
    requires
        span.0 + span.1 <= row.values.len(),
        0 <= j < span.1,
    ensures
        row_part(row, span).row_id == row.row_id,
        row_part(row, span).values.len() == span.1,
        row_part(row, span).values[j] == row.values[span.0 + j],
{
}

} // verus!
