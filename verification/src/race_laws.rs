//! Which operations of two commits exclude each other.
use crate::commit::{changes_above, first_conflict};
use crate::conflicts::{
    conflicting, creates_in, creates_in_dropped, kinds_at, kinds_clash, lists_schemas,
    touched,
};
use crate::operations::{
    changes_of, changes_text, finite, parsed, wire_part, ChangeModel, OperationModel,
};
use crate::records::SnapshotModel;
use crate::wire::text_reads_back;
use vstd::prelude::*;

verus! {

// ---------------------------------------------------------------------------
// Operations
// ---------------------------------------------------------------------------

/// Whether an operation appends rows to a table.
pub open spec fn appends_to(op: OperationModel, id: u64) -> bool {
    op == (OperationModel::RegisterDataFile { table_id: id })
}

/// Whether an operation deletes rows of a table.
pub open spec fn deletes_from(op: OperationModel, id: u64) -> bool {
    op == (OperationModel::RegisterDeleteFile { table_id: id })
}

/// Whether an operation redefines a table or view.
pub open spec fn redefines(op: OperationModel, id: u64) -> bool {
    op == (OperationModel::AlterTable { table_id: id }) || op == (OperationModel::AlterView {
        view_id: id,
    })
}

/// Whether an operation drops a table or view.
pub open spec fn drops(op: OperationModel, id: u64) -> bool {
    op == (OperationModel::DropTable { table_id: id }) || op == (OperationModel::DropView {
        view_id: id,
    })
}

/// Whether an operation replaces files of a table: by merging data files, or by
/// rewriting deletions.
pub open spec fn compacts(op: OperationModel, id: u64) -> bool {
    op == (OperationModel::ExpireDataFile { table_id: id }) || op == (
    OperationModel::ExpireDeleteFile { table_id: id })
}

/// Whether an operation creates or drops a schema.
pub open spec fn edits_schemas(op: OperationModel) -> bool {
    op is CreateSchema || op is DropSchema
}

/// Whether an operation creates a table, view or macro in a schema.
pub open spec fn creates_under(op: OperationModel, schema_id: u64) -> bool {
    match op {
        OperationModel::CreateTable { schema_id: s, .. } => s == schema_id,
        OperationModel::CreateView { schema_id: s, .. } => s == schema_id,
        OperationModel::CreateMacro { schema_id: s, .. } => s == schema_id,
        _ => false,
    }
}

/// Whether two operations on one table or view exclude each other. Appending
/// agrees with appending and compacting; redefining with compacting; dropping
/// with dropping; nothing else agrees.
pub open spec fn excludes(x: OperationModel, y: OperationModel, id: u64) -> bool {
    let touch = |op: OperationModel|
        appends_to(op, id) || deletes_from(op, id) || redefines(op, id) || drops(op, id) || compacts(
            op,
            id,
        );
    &&& touch(x)
    &&& touch(y)
    &&& !(appends_to(x, id) && appends_to(y, id))
    &&& !(appends_to(x, id) && compacts(y, id))
    &&& !(compacts(x, id) && appends_to(y, id))
    &&& !(redefines(x, id) && compacts(y, id))
    &&& !(compacts(x, id) && redefines(y, id))
    &&& !(drops(x, id) && drops(y, id))
}

/// Whether an operation creates something in a schema that another drops.
pub open spec fn orphans(x: OperationModel, y: OperationModel) -> bool {
    exists|s: u64| #[trigger] creates_under(x, s) && y == (OperationModel::DropSchema { schema_id: s })
}

/// Whether two operations exclude each other.
pub open spec fn rivals(x: OperationModel, y: OperationModel) -> bool {
    ||| edits_schemas(x) && edits_schemas(y)
    ||| exists|id: u64| #[trigger] excludes(x, y, id)
    ||| orphans(x, y)
    ||| orphans(y, x)
}

// ---------------------------------------------------------------------------
// What a run of operations leaves
// ---------------------------------------------------------------------------

/// Whether some operation is as asked.
spec fn some(ops: Seq<OperationModel>, p: spec_fn(OperationModel) -> bool) -> bool {
    exists|i: int| 0 <= i < ops.len() && p(#[trigger] ops[i])
}

proof fn some_last(ops: Seq<OperationModel>, p: spec_fn(OperationModel) -> bool)
    requires
        ops.len() > 0,
    ensures
        some(ops, p) == (some(ops.drop_last(), p) || p(ops.last())),
{
    let front = ops.drop_last();
    if some(front, p) {
        let i = choose|i: int| 0 <= i < front.len() && p(#[trigger] front[i]);
        assert(p(ops[i]));
    }
    if some(ops, p) {
        let i = choose|i: int| 0 <= i < ops.len() && p(#[trigger] ops[i]);
        if i < front.len() {
            assert(p(front[i]));
        }
    }
    assert(ops.last() == ops[ops.len() - 1]);
}

/// The changes of a run of operations, table by table.
proof fn tables_touched(ops: Seq<OperationModel>, id: u64)
    ensures
        kinds_at(changes_of(ops), id).inserted == some(ops, |op: OperationModel| appends_to(op, id)),
        kinds_at(changes_of(ops), id).deleted == some(ops, |op: OperationModel| deletes_from(op, id)),
        kinds_at(changes_of(ops), id).altered == some(ops, |op: OperationModel| redefines(op, id)),
        kinds_at(changes_of(ops), id).dropped == some(ops, |op: OperationModel| drops(op, id)),
        kinds_at(changes_of(ops), id).compacted == some(ops, |op: OperationModel| compacts(op, id)),
        changes_of(ops).compacted_tables == Set::<u64>::empty(),
        !changes_of(ops).has_unknown,
    decreases ops.len(),
{
    if ops.len() > 0 {
        tables_touched(ops.drop_last(), id);
        some_last(ops, |op: OperationModel| appends_to(op, id));
        some_last(ops, |op: OperationModel| deletes_from(op, id));
        some_last(ops, |op: OperationModel| redefines(op, id));
        some_last(ops, |op: OperationModel| drops(op, id));
        some_last(ops, |op: OperationModel| compacts(op, id));
    }
}

/// The changes of a run of operations, schema by schema.
proof fn schemas_touched(ops: Seq<OperationModel>, id: u64)
    ensures
        creates_in(changes_of(ops), id) == some(ops, |op: OperationModel| creates_under(op, id)),
        changes_of(ops).dropped_schemas.contains(id) == some(
            ops,
            |op: OperationModel| op == (OperationModel::DropSchema { schema_id: id }),
        ),
    decreases ops.len(),
{
    if ops.len() > 0 {
        schemas_touched(ops.drop_last(), id);
        some_last(ops, |op: OperationModel| creates_under(op, id));
        some_last(ops, |op: OperationModel| op == (OperationModel::DropSchema { schema_id: id }));
    }
}

proof fn schemas_edited(ops: Seq<OperationModel>)
    ensures
        lists_schemas(changes_of(ops)) == some(ops, |op: OperationModel| edits_schemas(op)),
    decreases ops.len(),
{
    let m = changes_of(ops);
    if ops.len() > 0 {
        let front = changes_of(ops.drop_last());
        schemas_edited(ops.drop_last());
        some_last(ops, |op: OperationModel| edits_schemas(op));
        match ops.last() {
            OperationModel::CreateSchema { name, .. } => {
                assert(m.created_schemas.contains(name));
            },
            OperationModel::DropSchema { schema_id } => {
                assert(m.dropped_schemas.contains(schema_id));
            },
            _ => {
                assert(m.created_schemas == front.created_schemas);
                assert(m.dropped_schemas == front.dropped_schemas);
            },
        }
    }
}

// ---------------------------------------------------------------------------
// The law
// ---------------------------------------------------------------------------

/// Two operations of kinds that exclude each other meet.
proof fn meet(
    a: Seq<OperationModel>,
    b: Seq<OperationModel>,
    p: spec_fn(OperationModel) -> bool,
    q: spec_fn(OperationModel) -> bool,
    id: u64,
)
    requires
        some(a, p),
        some(b, q),
        forall|x: OperationModel, y: OperationModel| #[trigger] p(x) && #[trigger] q(y) ==> excludes(x, y, id),
    ensures
        exists|i: int, j: int|
            0 <= i < a.len() && 0 <= j < b.len() && excludes(#[trigger] a[i], #[trigger] b[j], id),
{
    let i = choose|i: int| 0 <= i < a.len() && p(#[trigger] a[i]);
    let j = choose|j: int| 0 <= j < b.len() && q(#[trigger] b[j]);
    assert(p(a[i]) && q(b[j]));
    assert(excludes(a[i], b[j], id));
}

/// A clash on a table comes from two operations that exclude each other on it.
proof fn clashes_come_from_operations(a: Seq<OperationModel>, b: Seq<OperationModel>, id: u64)
    ensures
        kinds_clash(kinds_at(changes_of(a), id), kinds_at(changes_of(b), id)) == exists|i: int, j: int|
            0 <= i < a.len() && 0 <= j < b.len() && excludes(#[trigger] a[i], #[trigger] b[j], id),
{
    tables_touched(a, id);
    tables_touched(b, id);
    let x = kinds_at(changes_of(a), id);
    let y = kinds_at(changes_of(b), id);
    let p = |op: OperationModel| appends_to(op, id);
    let q = |op: OperationModel| deletes_from(op, id);
    let r = |op: OperationModel| redefines(op, id);
    let s = |op: OperationModel| drops(op, id);
    let t = |op: OperationModel| compacts(op, id);
    if exists|i: int, j: int|
        0 <= i < a.len() && 0 <= j < b.len() && excludes(#[trigger] a[i], #[trigger] b[j], id) {
        let (i, j) = choose|i: int, j: int|
            0 <= i < a.len() && 0 <= j < b.len() && excludes(#[trigger] a[i], #[trigger] b[j], id);
        assert(p(a[i]) || q(a[i]) || r(a[i]) || s(a[i]) || t(a[i]));
        assert(p(b[j]) || q(b[j]) || r(b[j]) || s(b[j]) || t(b[j]));
        assert(p(a[i]) ==> some(a, p));
        assert(q(a[i]) ==> some(a, q));
        assert(r(a[i]) ==> some(a, r));
        assert(s(a[i]) ==> some(a, s));
        assert(t(a[i]) ==> some(a, t));
        assert(p(b[j]) ==> some(b, p));
        assert(q(b[j]) ==> some(b, q));
        assert(r(b[j]) ==> some(b, r));
        assert(s(b[j]) ==> some(b, s));
        assert(t(b[j]) ==> some(b, t));
    }
    if x.inserted && y.deleted {
        meet(a, b, p, q, id);
    } else if x.inserted && y.altered {
        meet(a, b, p, r, id);
    } else if x.inserted && y.dropped {
        meet(a, b, p, s, id);
    } else if x.deleted && y.inserted {
        meet(a, b, q, p, id);
    } else if x.deleted && y.deleted {
        meet(a, b, q, q, id);
    } else if x.deleted && y.altered {
        meet(a, b, q, r, id);
    } else if x.deleted && y.dropped {
        meet(a, b, q, s, id);
    } else if x.deleted && y.compacted {
        meet(a, b, q, t, id);
    } else if x.altered && y.inserted {
        meet(a, b, r, p, id);
    } else if x.altered && y.deleted {
        meet(a, b, r, q, id);
    } else if x.altered && y.altered {
        meet(a, b, r, r, id);
    } else if x.altered && y.dropped {
        meet(a, b, r, s, id);
    } else if x.dropped && y.inserted {
        meet(a, b, s, p, id);
    } else if x.dropped && y.deleted {
        meet(a, b, s, q, id);
    } else if x.dropped && y.altered {
        meet(a, b, s, r, id);
    } else if x.dropped && y.compacted {
        meet(a, b, s, t, id);
    } else if x.compacted && y.deleted {
        meet(a, b, t, q, id);
    } else if x.compacted && y.dropped {
        meet(a, b, t, s, id);
    } else if x.compacted && y.compacted {
        meet(a, b, t, t, id);
    }
}

/// Something in a dropped schema comes from two operations.
proof fn orphans_come_from_operations(a: Seq<OperationModel>, b: Seq<OperationModel>)
    ensures
        creates_in_dropped(changes_of(a), changes_of(b)) == exists|i: int, j: int|
            0 <= i < a.len() && 0 <= j < b.len() && orphans(#[trigger] a[i], #[trigger] b[j]),
{
    if creates_in_dropped(changes_of(a), changes_of(b)) {
        let s = choose|s: u64| #[trigger]
            changes_of(b).dropped_schemas.contains(s) && creates_in(changes_of(a), s);
        schemas_touched(a, s);
        schemas_touched(b, s);
        let p = |op: OperationModel| creates_under(op, s);
        let q = |op: OperationModel| op == (OperationModel::DropSchema { schema_id: s });
        let i = choose|i: int| 0 <= i < a.len() && p(#[trigger] a[i]);
        let j = choose|j: int| 0 <= j < b.len() && q(#[trigger] b[j]);
        assert(creates_under(a[i], s));
        assert(orphans(a[i], b[j]));
    }
    if exists|i: int, j: int|
        0 <= i < a.len() && 0 <= j < b.len() && orphans(#[trigger] a[i], #[trigger] b[j]) {
        let (i, j) = choose|i: int, j: int|
            0 <= i < a.len() && 0 <= j < b.len() && orphans(#[trigger] a[i], #[trigger] b[j]);
        let s = choose|s: u64| #[trigger]
            creates_under(a[i], s) && b[j] == (OperationModel::DropSchema { schema_id: s });
        schemas_touched(a, s);
        schemas_touched(b, s);
        let p = |op: OperationModel| creates_under(op, s);
        let q = |op: OperationModel| op == (OperationModel::DropSchema { schema_id: s });
        assert(p(a[i]) && q(b[j]));
        assert(some(a, p) && some(b, q));
    }
}

proof fn edits_come_from_operations(a: Seq<OperationModel>, b: Seq<OperationModel>)
    ensures
        (lists_schemas(changes_of(a)) && lists_schemas(changes_of(b))) == exists|i: int, j: int|
            0 <= i < a.len() && 0 <= j < b.len() && edits_schemas(#[trigger] a[i]) && edits_schemas(
                #[trigger] b[j],
            ),
{
    schemas_edited(a);
    schemas_edited(b);
    let p = |op: OperationModel| edits_schemas(op);
    if some(a, p) && some(b, p) {
        let i = choose|i: int| 0 <= i < a.len() && p(#[trigger] a[i]);
        let j = choose|j: int| 0 <= j < b.len() && p(#[trigger] b[j]);
        assert(edits_schemas(a[i]) && edits_schemas(b[j]));
    }
    if exists|i: int, j: int|
        0 <= i < a.len() && 0 <= j < b.len() && edits_schemas(#[trigger] a[i]) && edits_schemas(
            #[trigger] b[j],
        ) {
        let (i, j) = choose|i: int, j: int|
            0 <= i < a.len() && 0 <= j < b.len() && edits_schemas(#[trigger] a[i]) && edits_schemas(
                #[trigger] b[j],
            );
        assert(p(a[i]) && p(b[j]));
    }
}

/// Two commits conflict if and only if an operation of one and an operation of
/// the other exclude each other.
pub proof fn conflicts_come_from_rivals(a: Seq<OperationModel>, b: Seq<OperationModel>)
    ensures
        conflicting(changes_of(a), changes_of(b)) <==> exists|i: int, j: int|
            0 <= i < a.len() && 0 <= j < b.len() && rivals(#[trigger] a[i], #[trigger] b[j]),
{
    tables_touched(a, 0);
    tables_touched(b, 0);
    edits_come_from_operations(a, b);
    orphans_come_from_operations(a, b);
    orphans_come_from_operations(b, a);
    let x = changes_of(a);
    let y = changes_of(b);
    if exists|id: u64| kinds_clash(#[trigger] kinds_at(x, id), kinds_at(y, id)) {
        let id = choose|id: u64| kinds_clash(#[trigger] kinds_at(x, id), kinds_at(y, id));
        clashes_come_from_operations(a, b, id);
        let (i, j) = choose|i: int, j: int|
            0 <= i < a.len() && 0 <= j < b.len() && excludes(#[trigger] a[i], #[trigger] b[j], id);
        assert(rivals(a[i], b[j]));
    }
    if creates_in_dropped(x, y) {
        let (i, j) = choose|i: int, j: int|
            0 <= i < a.len() && 0 <= j < b.len() && orphans(#[trigger] a[i], #[trigger] b[j]);
        assert(rivals(a[i], b[j]));
    }
    if creates_in_dropped(y, x) {
        let (j, i) = choose|j: int, i: int|
            0 <= j < b.len() && 0 <= i < a.len() && orphans(#[trigger] b[j], #[trigger] a[i]);
        assert(rivals(a[i], b[j]));
    }
    if lists_schemas(x) && lists_schemas(y) {
        let (i, j) = choose|i: int, j: int|
            0 <= i < a.len() && 0 <= j < b.len() && edits_schemas(#[trigger] a[i]) && edits_schemas(
                #[trigger] b[j],
            );
        assert(rivals(a[i], b[j]));
    }
    if exists|i: int, j: int|
        0 <= i < a.len() && 0 <= j < b.len() && rivals(#[trigger] a[i], #[trigger] b[j]) {
        let (i, j) = choose|i: int, j: int|
            0 <= i < a.len() && 0 <= j < b.len() && rivals(#[trigger] a[i], #[trigger] b[j]);
        if exists|id: u64| #[trigger] excludes(a[i], b[j], id) {
            let id = choose|id: u64| #[trigger] excludes(a[i], b[j], id);
            clashes_come_from_operations(a, b, id);
            assert(kinds_clash(kinds_at(x, id), kinds_at(y, id)));
        } else if orphans(a[i], b[j]) {
        } else if orphans(b[j], a[i]) {
        }
    }
}

// ---------------------------------------------------------------------------
// Winners that are known by their records
// ---------------------------------------------------------------------------

/// Whether an operation excludes one that is known by its commit's record. The
/// record does not say in which schema something was created.
pub open spec fn rivals_on_record(x: OperationModel, y: OperationModel) -> bool {
    ||| edits_schemas(x) && edits_schemas(y)
    ||| exists|id: u64| #[trigger] excludes(x, y, id)
    ||| orphans(x, y)
}

proof fn changes_are_finite(ops: Seq<OperationModel>)
    ensures
        finite(changes_of(ops)),
    decreases ops.len(),
{
    if ops.len() > 0 {
        changes_are_finite(ops.drop_last());
    }
}

/// A commit conflicts with one that is known by its record if and only if an
/// operation of the first excludes an operation of the second.
pub proof fn records_tell_of_rivals(a: Seq<OperationModel>, b: Seq<OperationModel>)
    ensures
        conflicting(changes_of(a), parsed(changes_text(changes_of(b)))) <==> exists|i: int, j: int|
            0 <= i < a.len() && 0 <= j < b.len() && rivals_on_record(
                #[trigger] a[i],
                #[trigger] b[j],
            ),
{
    changes_are_finite(b);
    text_reads_back(changes_of(b));
    tables_touched(a, 0);
    edits_come_from_operations(a, b);
    orphans_come_from_operations(a, b);
    let x = changes_of(a);
    let y = changes_of(b);
    let z = wire_part(y);
    assert forall|id: u64| #[trigger] kinds_at(z, id) == kinds_at(y, id) by {
        tables_touched(b, id);
    }
    assert(creates_in_dropped(x, z) == creates_in_dropped(x, y)) by {
        assert(z.dropped_schemas == y.dropped_schemas);
    }
    assert(!creates_in_dropped(z, x));
    if exists|id: u64| kinds_clash(#[trigger] kinds_at(x, id), kinds_at(z, id)) {
        let id = choose|id: u64| kinds_clash(#[trigger] kinds_at(x, id), kinds_at(z, id));
        assert(kinds_at(z, id) == kinds_at(y, id));
        clashes_come_from_operations(a, b, id);
        let (i, j) = choose|i: int, j: int|
            0 <= i < a.len() && 0 <= j < b.len() && excludes(#[trigger] a[i], #[trigger] b[j], id);
        assert(rivals_on_record(a[i], b[j]));
    }
    if creates_in_dropped(x, z) {
        let (i, j) = choose|i: int, j: int|
            0 <= i < a.len() && 0 <= j < b.len() && orphans(#[trigger] a[i], #[trigger] b[j]);
        assert(rivals_on_record(a[i], b[j]));
    }
    if lists_schemas(x) && lists_schemas(z) {
        let (i, j) = choose|i: int, j: int|
            0 <= i < a.len() && 0 <= j < b.len() && edits_schemas(#[trigger] a[i]) && edits_schemas(
                #[trigger] b[j],
            );
        assert(rivals_on_record(a[i], b[j]));
    }
    if exists|i: int, j: int|
        0 <= i < a.len() && 0 <= j < b.len() && rivals_on_record(#[trigger] a[i], #[trigger] b[j]) {
        let (i, j) = choose|i: int, j: int|
            0 <= i < a.len() && 0 <= j < b.len() && rivals_on_record(#[trigger] a[i], #[trigger] b[j]);
        if exists|id: u64| #[trigger] excludes(a[i], b[j], id) {
            let id = choose|id: u64| #[trigger] excludes(a[i], b[j], id);
            clashes_come_from_operations(a, b, id);
            assert(kinds_at(z, id) == kinds_at(y, id));
            assert(kinds_clash(kinds_at(x, id), kinds_at(z, id)));
        } else if orphans(a[i], b[j]) {
        }
    }
}

/// The first conflict is the first one: what comes before it is benign, and
/// without one everything is.
proof fn first_conflict_is_first(ours: ChangeModel, theirs: Seq<(u64, ChangeModel)>, from: int)
    requires
        0 <= from <= theirs.len(),
    ensures
        match first_conflict(ours, theirs, from) {
            None => forall|i: int|
                from <= i < theirs.len() ==> !conflicting(ours, (#[trigger] theirs[i]).1),
            Some(id) => exists|i: int|
                from <= i < theirs.len() && (#[trigger] theirs[i]).0 == id && conflicting(
                    ours,
                    theirs[i].1,
                ) && (forall|k: int|
                    from <= k < i ==> !conflicting(ours, (#[trigger] theirs[k]).1)),
        },
    decreases theirs.len() - from,
{
    if from < theirs.len() {
        if conflicting(ours, theirs[from].1) {
            assert(theirs[from].0 == theirs[from].0);
        } else {
            first_conflict_is_first(ours, theirs, from + 1);
        }
    }
}

/// A commit that lost a race may run again if and only if none of its operations
/// excludes one of a commit that came first; otherwise the first such commit is
/// named. `winners` are the operations of the commits above the head that the
/// loser was based on, as their records tell them.
pub proof fn losers_run_again_unless_excluded(
    ours: Seq<OperationModel>,
    head_before: u64,
    head: u64,
    records: Map<u64, SnapshotModel>,
    winners: Map<u64, Seq<OperationModel>>,
)
    requires
        forall|id: u64|
            head_before < id <= head ==> #[trigger] records.contains_key(id)
                && records[id].changes_made == changes_text(changes_of(winners[id])),
    ensures
        match first_conflict(changes_of(ours), changes_above(head_before, head, records), 0) {
            None => forall|id: u64, i: int, j: int|
                head_before < id <= head && 0 <= i < ours.len() && 0 <= j < winners[id].len()
                    ==> !rivals_on_record(#[trigger] ours[i], #[trigger] winners[id][j]),
            Some(id) => {
                &&& head_before < id <= head
                &&& exists|i: int, j: int|
                    0 <= i < ours.len() && 0 <= j < winners[id].len() && rivals_on_record(
                        #[trigger] ours[i],
                        #[trigger] winners[id][j],
                    )
                &&& forall|k: u64, i: int, j: int|
                    head_before < k < id && 0 <= i < ours.len() && 0 <= j < winners[k].len()
                        ==> !rivals_on_record(#[trigger] ours[i], #[trigger] winners[k][j])
            },
        },
{
    let theirs = changes_above(head_before, head, records);
    let m = changes_of(ours);
    first_conflict_is_first(m, theirs, 0);
    assert forall|id: u64| head_before < id <= head implies theirs[id - head_before - 1] == (
        id,
        parsed(changes_text(changes_of(#[trigger] winners[id]))),
    ) by {
        assert(records.contains_key(id));
    }
    match first_conflict(m, theirs, 0) {
        None => {
            assert forall|id: u64, i: int, j: int|
                head_before < id <= head && 0 <= i < ours.len() && 0 <= j < winners[id].len() implies
                !rivals_on_record(#[trigger] ours[i], #[trigger] winners[id][j]) by {
                records_tell_of_rivals(ours, winners[id]);
                assert(!conflicting(m, theirs[id - head_before - 1].1));
            }
        },
        Some(id) => {
            let n = choose|i: int|
                0 <= i < theirs.len() && (#[trigger] theirs[i]).0 == id && conflicting(
                    m,
                    theirs[i].1,
                ) && (forall|k: int| 0 <= k < i ==> !conflicting(m, (#[trigger] theirs[k]).1));
            assert(id == head_before + 1 + n);
            records_tell_of_rivals(ours, winners[id]);
            assert(theirs[id - head_before - 1].1 == parsed(changes_text(changes_of(winners[id]))));
            assert forall|k: u64, i: int, j: int|
                head_before < k < id && 0 <= i < ours.len() && 0 <= j < winners[k].len() implies
                !rivals_on_record(#[trigger] ours[i], #[trigger] winners[k][j]) by {
                records_tell_of_rivals(ours, winners[k]);
                assert(!conflicting(m, theirs[k - head_before - 1].1));
            }
        },
    }
}

/// A commit whose record is gone may have changed anything: nobody who lost to
/// it runs again, unless they set options alone.
pub proof fn lost_records_stop_losers(
    ours: ChangeModel,
    head_before: u64,
    head: u64,
    records: Map<u64, SnapshotModel>,
    id: u64,
)
    requires
        head_before < id <= head,
        !records.contains_key(id),
    ensures
        first_conflict(ours, changes_above(head_before, head, records), 0) is Some,
{
    let theirs = changes_above(head_before, head, records);
    first_conflict_is_first(ours, theirs, 0);
    assert(conflicting(ours, theirs[id - head_before - 1].1));
}

/// A compaction that an older record tells of excludes just what a merge of files
/// excludes, and touches what it touches.
pub proof fn older_compactions_count_as_merges(a: ChangeModel, b: ChangeModel, ids: Set<u64>)
    requires
        b.compacted_tables == Set::<u64>::empty(),
    ensures
        ({
            let older = ChangeModel { compacted_tables: ids, ..b };
            let merged = ChangeModel {
                merge_adjacent_tables: b.merge_adjacent_tables.union(ids),
                ..b
            };
            &&& conflicting(a, older) == conflicting(a, merged)
            &&& touched(older) == touched(merged)
        }),
{
    let older = ChangeModel { compacted_tables: ids, ..b };
    let merged = ChangeModel { merge_adjacent_tables: b.merge_adjacent_tables.union(ids), ..b };
    assert forall|id: u64| #[trigger] kinds_at(older, id) == kinds_at(merged, id) by {}
    assert(touched(older) =~= touched(merged));
    assert(lists_schemas(older) == lists_schemas(merged));
    if creates_in_dropped(a, older) {
        let s = choose|s: u64| #[trigger] older.dropped_schemas.contains(s) && creates_in(a, s);
        assert(merged.dropped_schemas.contains(s) && creates_in(a, s));
    }
    if creates_in_dropped(a, merged) {
        let s = choose|s: u64| #[trigger] merged.dropped_schemas.contains(s) && creates_in(a, s);
        assert(older.dropped_schemas.contains(s) && creates_in(a, s));
    }
    assert(creates_in_dropped(older, a) == creates_in_dropped(merged, a)) by {
        assert forall|s: u64| creates_in(older, s) == #[trigger] creates_in(merged, s) by {}
        if creates_in_dropped(older, a) {
            let s = choose|s: u64| #[trigger] a.dropped_schemas.contains(s) && creates_in(older, s);
            assert(a.dropped_schemas.contains(s) && creates_in(merged, s));
        }
        if creates_in_dropped(merged, a) {
            let s = choose|s: u64| #[trigger]
                a.dropped_schemas.contains(s) && creates_in(merged, s);
            assert(a.dropped_schemas.contains(s) && creates_in(older, s));
        }
    }
    if exists|id: u64| kinds_clash(#[trigger] kinds_at(a, id), kinds_at(older, id)) {
        let id = choose|id: u64| kinds_clash(#[trigger] kinds_at(a, id), kinds_at(older, id));
        assert(kinds_clash(kinds_at(a, id), kinds_at(merged, id)));
    }
    if exists|id: u64| kinds_clash(#[trigger] kinds_at(a, id), kinds_at(merged, id)) {
        let id = choose|id: u64| kinds_clash(#[trigger] kinds_at(a, id), kinds_at(merged, id));
        assert(kinds_at(older, id) == kinds_at(merged, id));
        assert(kinds_clash(kinds_at(a, id), kinds_at(older, id)));
    }
}

/// What a commit touched is what it recorded something of.
pub proof fn touched_is_what_is_recorded(ops: Seq<OperationModel>, id: u64)
    ensures
        touched(changes_of(ops)).contains(id) <==> exists|i: int|
            0 <= i < ops.len() && {
                ||| appends_to(#[trigger] ops[i], id)
                ||| deletes_from(ops[i], id)
                ||| redefines(ops[i], id)
                ||| drops(ops[i], id)
                ||| compacts(ops[i], id)
            },
    decreases ops.len(),
{
    if ops.len() > 0 {
        let front = ops.drop_last();
        let n = ops.len() - 1;
        touched_is_what_is_recorded(front, id);
        assert(ops[n] == ops.last());
        let told = |op: OperationModel|
            appends_to(op, id) || deletes_from(op, id) || redefines(op, id) || drops(op, id)
                || compacts(op, id);
        if some(front, told) {
            let i = choose|i: int| 0 <= i < front.len() && told(#[trigger] front[i]);
            assert(ops[i] == front[i]);
        }
        if some(ops, told) {
            let i = choose|i: int| 0 <= i < ops.len() && told(#[trigger] ops[i]);
            if i < n {
                assert(front[i] == ops[i]);
            }
        }
        assert(touched(changes_of(ops)).contains(id) <==> touched(changes_of(front)).contains(id)
            || told(ops.last()));
        assert(told(ops[n]) == told(ops.last()));
        assert(some(front, told) <==> exists|i: int|
            0 <= i < front.len() && {
                ||| appends_to(#[trigger] front[i], id)
                ||| deletes_from(front[i], id)
                ||| redefines(front[i], id)
                ||| drops(front[i], id)
                ||| compacts(front[i], id)
            }) by {
            if some(front, told) {
                let i = choose|i: int| 0 <= i < front.len() && told(#[trigger] front[i]);
                assert(told(front[i]));
            }
            if exists|i: int|
                0 <= i < front.len() && {
                    ||| appends_to(#[trigger] front[i], id)
                    ||| deletes_from(front[i], id)
                    ||| redefines(front[i], id)
                    ||| drops(front[i], id)
                    ||| compacts(front[i], id)
                } {
                let i = choose|i: int|
                    0 <= i < front.len() && {
                        ||| appends_to(#[trigger] front[i], id)
                        ||| deletes_from(front[i], id)
                        ||| redefines(front[i], id)
                        ||| drops(front[i], id)
                        ||| compacts(front[i], id)
                    };
                assert(told(front[i]));
            }
        }
    }
}

} // verus!
