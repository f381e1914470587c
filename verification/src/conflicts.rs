//! Classification of concurrent commits: which pairs of change sets are a
//! true conflict, and which are benign.
use crate::operations::{
    changes_of, no_changes, noted, wire_part, ChangeModel, ChangeSet, OperationModel,
};
use crate::ordered::{OrdMap, OrdSet, Record};
use vstd::prelude::*;

verus! {

/// What a commit did to one table or view.
#[derive(Clone, Copy, PartialEq, Eq, Structural, Debug)]
pub struct TableKinds {
    pub inserted: bool,
    pub deleted: bool,
    pub altered: bool,
    pub dropped: bool,
    pub compacted: bool,
}

impl DeepView for TableKinds {
    type V = TableKinds;

    open spec fn deep_view(&self) -> TableKinds {
        *self
    }
}

impl Record for TableKinds {
    fn dup(&self) -> (r: Self) {
        *self
    }

    fn same(&self, other: &Self) -> (b: bool) {
        *self == *other
    }
}

/// What a change set did to the table or view `id`.
pub open spec fn kinds_at(m: ChangeModel, id: u64) -> TableKinds {
    TableKinds {
        inserted: m.inserted_tables.contains(id),
        deleted: m.deleted_from_tables.contains(id),
        altered: m.altered_tables.contains(id) || m.altered_views.contains(id),
        dropped: m.dropped_tables.contains(id) || m.dropped_views.contains(id),
        compacted: m.merge_adjacent_tables.contains(id) || m.rewrite_delete_tables.contains(id)
            || m.compacted_tables.contains(id),
    }
}

/// The tables and views that a change set touched.
pub open spec fn touched(m: ChangeModel) -> Set<u64> {
    m.inserted_tables.union(m.deleted_from_tables).union(m.altered_tables).union(m.altered_views)
        .union(m.dropped_tables).union(m.dropped_views).union(m.merge_adjacent_tables)
        .union(m.rewrite_delete_tables).union(m.compacted_tables)
}

/// One direction of the conflict matrix.
pub open spec fn clashes(x: TableKinds, y: TableKinds) -> bool {
    ||| x.inserted && (y.altered || y.deleted || y.dropped)
    ||| x.deleted && (y.altered || y.deleted || y.compacted || y.dropped || y.inserted)
    ||| x.altered && (y.altered || y.dropped)
    ||| x.compacted && (y.deleted || y.dropped || y.compacted)
}

/// The conflict matrix, closed under exchanging the sides.
pub open spec fn kinds_clash(x: TableKinds, y: TableKinds) -> bool {
    clashes(x, y) || clashes(y, x)
}

/// Whether a set creates or drops schemas.
pub open spec fn lists_schemas(m: ChangeModel) -> bool {
    m.created_schemas != Set::<Seq<char>>::empty() || m.dropped_schemas != Set::<u64>::empty()
}

/// Whether a set creates a table, view or macro in a schema.
pub open spec fn creates_in(m: ChangeModel, schema_id: u64) -> bool {
    m.created_table_schema_ids.contains(schema_id) || m.created_view_schema_ids.contains(schema_id)
        || m.created_macro_schema_ids.contains(schema_id)
}

/// Whether `a` creates something in a schema that `b` drops.
pub open spec fn creates_in_dropped(a: ChangeModel, b: ChangeModel) -> bool {
    exists|s: u64| #[trigger] b.dropped_schemas.contains(s) && creates_in(a, s)
}

/// Whether two concurrent commits truly conflict: either side is not fully
/// understood; both touch the schema list; some table was changed in
/// incompatible ways; or one side created something in a schema that the other
/// dropped.
pub open spec fn conflicting(a: ChangeModel, b: ChangeModel) -> bool {
    ||| a.has_unknown
    ||| b.has_unknown
    ||| lists_schemas(a) && lists_schemas(b)
    ||| exists|id: u64| kinds_clash(#[trigger] kinds_at(a, id), kinds_at(b, id))
    ||| creates_in_dropped(a, b)
    ||| creates_in_dropped(b, a)
}

fn no_kinds() -> (k: TableKinds)
    ensures
        k == kinds_at(no_changes(), 0),
{
    TableKinds { inserted: false, deleted: false, altered: false, dropped: false, compacted: false }
}

/// Marks every table of `ids` in one respect.
spec fn marked(k: TableKinds, respect: Respect) -> TableKinds {
    match respect {
        Respect::Inserted => TableKinds { inserted: true, ..k },
        Respect::Deleted => TableKinds { deleted: true, ..k },
        Respect::Altered => TableKinds { altered: true, ..k },
        Respect::Dropped => TableKinds { dropped: true, ..k },
        Respect::Compacted => TableKinds { compacted: true, ..k },
    }
}

#[derive(Clone, Copy)]
enum Respect {
    Inserted,
    Deleted,
    Altered,
    Dropped,
    Compacted,
}

/// The kinds recorded for a table, none if it is absent.
spec fn recorded(m: Map<u64, TableKinds>, id: u64) -> TableKinds {
    if m.contains_key(id) {
        m[id]
    } else {
        TableKinds {
            inserted: false,
            deleted: false,
            altered: false,
            dropped: false,
            compacted: false,
        }
    }
}

fn mark(kinds: &mut OrdMap<u64, TableKinds>, ids: &OrdSet<u64>, respect: Respect)
    ensures
        final(kinds)@.dom() == old(kinds)@.dom().union(ids@),
        forall|id: u64|
            #![trigger recorded(final(kinds)@, id)]
            recorded(final(kinds)@, id) == if ids@.contains(id) {
                marked(recorded(old(kinds)@, id), respect)
            } else {
                recorded(old(kinds)@, id)
            },
{
    let items = ids.items();
    let ghost q = items.deep_view();
    let mut i: usize = 0;
    assert(kinds@.dom() =~= old(kinds)@.dom().union(q.take(0).to_set()));
    while i < items.len()
        invariant
            i <= items@.len(),
            q == items.deep_view(),
            q.to_set() == ids@,
            kinds@.dom() == old(kinds)@.dom().union(q.take(i as int).to_set()),
            forall|id: u64|
                #![trigger recorded(kinds@, id)]
                recorded(kinds@, id) == if q.take(i as int).to_set().contains(id) {
                    marked(recorded(old(kinds)@, id), respect)
                } else {
                    recorded(old(kinds)@, id)
                },
        decreases items.len() - i,
    {
        let id: u64 = items[i];
        let ghost before = kinds@;
        let mut k: TableKinds = match kinds.get(&id) {
            Some(k) => *k,
            None => no_kinds(),
        };
        assert(k == recorded(before, id));
        match respect {
            Respect::Inserted => {
                k.inserted = true;
            },
            Respect::Deleted => {
                k.deleted = true;
            },
            Respect::Altered => {
                k.altered = true;
            },
            Respect::Dropped => {
                k.dropped = true;
            },
            Respect::Compacted => {
                k.compacted = true;
            },
        }
        kinds.insert(id, k);
        proof {
            let next = q.take(i + 1);
            assert(next =~= q.take(i as int).push(id));
            crate::ordered::pushed_elements(q.take(i as int), id);
            assert(kinds@ == before.insert(id, k));
            assert(kinds@.dom() =~= old(kinds)@.dom().union(next.to_set()));
            assert forall|x: u64|
                #![trigger recorded(kinds@, x)]
                recorded(kinds@, x) == if next.to_set().contains(x) {
                    marked(recorded(old(kinds)@, x), respect)
                } else {
                    recorded(old(kinds)@, x)
                } by {
                assert(recorded(before, x) == if q.take(i as int).to_set().contains(x) {
                    marked(recorded(old(kinds)@, x), respect)
                } else {
                    recorded(old(kinds)@, x)
                });
                if x == id {
                    assert(k == marked(recorded(before, id), respect));
                }
            }
        }
        i = i + 1;
    }
    assert(q.take(q.len() as int) =~= q);
}

impl ChangeSet {
    /// Whether the set records no changes at all.
    pub fn is_empty(&self) -> (empty: bool)
        ensures
            empty == (self@ == no_changes()),
    {
        let empty = self.created_schemas.is_empty() && self.dropped_schemas.is_empty()
            && self.created_tables.is_empty() && self.created_table_schema_ids.is_empty()
            && self.altered_tables.is_empty() && self.dropped_tables.is_empty()
            && self.created_views.is_empty() && self.created_view_schema_ids.is_empty()
            && self.altered_views.is_empty() && self.dropped_views.is_empty()
            && self.created_scalar_macros.is_empty() && self.created_table_macros.is_empty()
            && self.created_macro_schema_ids.is_empty() && self.dropped_scalar_macros.is_empty()
            && self.dropped_table_macros.is_empty() && self.inserted_tables.is_empty()
            && self.deleted_from_tables.is_empty() && self.merge_adjacent_tables.is_empty()
            && self.rewrite_delete_tables.is_empty() && self.compacted_tables.is_empty()
            && !self.has_unknown;
        empty
    }

    /// Whether the set creates or drops schemas.
    pub fn touches_schema_list(&self) -> (r: bool)
        ensures
            r == lists_schemas(self@),
    {
        !self.created_schemas.is_empty() || !self.dropped_schemas.is_empty()
    }

    /// Whether the set creates a table, view or macro in a schema.
    pub fn creates_table_in(&self, schema_id: u64) -> (r: bool)
        ensures
            r == creates_in(self@, schema_id),
    {
        self.created_table_schema_ids.contains(&schema_id) || self.created_view_schema_ids.contains(
            &schema_id,
        ) || self.created_macro_schema_ids.contains(&schema_id)
    }

    /// What the set did to each table and view that it touched.
    pub fn table_kinds(&self) -> (kinds: OrdMap<u64, TableKinds>)
        ensures
            kinds@.dom() == touched(self@),
            forall|id: u64| #[trigger]
                kinds@.contains_key(id) ==> kinds@[id] == kinds_at(self@, id),
    {
        let mut kinds: OrdMap<u64, TableKinds> = OrdMap::new();
        let ghost m0 = kinds@;
        mark(&mut kinds, &self.inserted_tables, Respect::Inserted);
        let ghost m1 = kinds@;
        mark(&mut kinds, &self.deleted_from_tables, Respect::Deleted);
        let ghost m2 = kinds@;
        mark(&mut kinds, &self.altered_tables, Respect::Altered);
        let ghost m3 = kinds@;
        mark(&mut kinds, &self.altered_views, Respect::Altered);
        let ghost m4 = kinds@;
        mark(&mut kinds, &self.dropped_tables, Respect::Dropped);
        let ghost m5 = kinds@;
        mark(&mut kinds, &self.dropped_views, Respect::Dropped);
        let ghost m6 = kinds@;
        mark(&mut kinds, &self.merge_adjacent_tables, Respect::Compacted);
        let ghost m7 = kinds@;
        mark(&mut kinds, &self.rewrite_delete_tables, Respect::Compacted);
        let ghost m8 = kinds@;
        mark(&mut kinds, &self.compacted_tables, Respect::Compacted);
        proof {
            assert(kinds@.dom() =~= touched(self@));
            assert forall|id: u64| #[trigger] kinds@.contains_key(id) implies kinds@[id] == kinds_at(
                self@,
                id,
            ) by {
                assert(recorded(kinds@, id) == kinds@[id]);
                assert(recorded(m8, id) == recorded(m8, id));
                assert(recorded(m7, id) == recorded(m7, id));
                assert(recorded(m6, id) == recorded(m6, id));
                assert(recorded(m5, id) == recorded(m5, id));
                assert(recorded(m4, id) == recorded(m4, id));
                assert(recorded(m3, id) == recorded(m3, id));
                assert(recorded(m2, id) == recorded(m2, id));
                assert(recorded(m1, id) == recorded(m1, id));
                assert(recorded(m0, id) == recorded(m0, id));
            }
        }
        kinds
    }
}

/// The per-table conflict matrix, closed under exchanging the sides.
pub fn kinds_conflict(a: TableKinds, b: TableKinds) -> (r: bool)
    ensures
        r == kinds_clash(a, b),
{
    one_way(a, b) || one_way(b, a)
}

fn one_way(x: TableKinds, y: TableKinds) -> (r: bool)
    ensures
        r == clashes(x, y),
{
    (x.inserted && (y.altered || y.deleted || y.dropped)) || (x.deleted && (y.altered || y.deleted
        || y.compacted || y.dropped || y.inserted)) || (x.altered && (y.altered || y.dropped)) || (
    x.compacted && (y.deleted || y.dropped || y.compacted))
}

/// Whether `a` creates something in a schema that `b` drops.
fn created_in_dropped(a: &ChangeSet, b: &ChangeSet) -> (r: bool)
    ensures
        r == creates_in_dropped(a@, b@),
{
    let items = b.dropped_schemas.items();
    let ghost q = items.deep_view();
    let mut i: usize = 0;
    while i < items.len()
        invariant
            i <= items@.len(),
            q == items.deep_view(),
            q.to_set() == b@.dropped_schemas,
            forall|j: int| 0 <= j < i ==> !creates_in(a@, #[trigger] q[j]),
        decreases items.len() - i,
    {
        if a.creates_table_in(items[i]) {
            proof {
                assert(q.to_set().contains(q[i as int]));
                assert(b@.dropped_schemas.contains(q[i as int]));
            }
            return true;
        }
        i = i + 1;
    }
    proof {
        assert forall|s: u64| #[trigger] b@.dropped_schemas.contains(s) implies !creates_in(
            a@,
            s,
        ) by {
            assert(q.to_set().contains(s));
            let j = choose|j: int| 0 <= j < q.len() && q[j] == s;
            assert(!creates_in(a@, q[j]));
        }
    }
    false
}

/// Whether two concurrent commits are a true conflict. Names are not compared:
/// their uniqueness is checked again when the losing commit is run anew.
pub fn conflicts(ours: &ChangeSet, theirs: &ChangeSet) -> (r: bool)
    ensures
        r == conflicting(ours@, theirs@),
{
    if ours.has_unknown || theirs.has_unknown {
        return true;
    }
    if ours.touches_schema_list() && theirs.touches_schema_list() {
        return true;
    }
    let our_kinds = ours.table_kinds();
    let their_kinds = theirs.table_kinds();
    let tables = our_kinds.keys();
    let ghost q = tables.deep_view();
    let mut i: usize = 0;
    while i < tables.len()
        invariant
            i <= tables@.len(),
            q == tables.deep_view(),
            q.to_set() == touched(ours@),
            our_kinds@.dom() == touched(ours@),
            their_kinds@.dom() == touched(theirs@),
            forall|id: u64| #[trigger]
                our_kinds@.contains_key(id) ==> our_kinds@[id] == kinds_at(ours@, id),
            forall|id: u64| #[trigger]
                their_kinds@.contains_key(id) ==> their_kinds@[id] == kinds_at(theirs@, id),
            forall|j: int|
                0 <= j < i ==> !kinds_clash(kinds_at(ours@, #[trigger] q[j]), kinds_at(theirs@, q[j])),
        decreases tables.len() - i,
    {
        let id: u64 = tables[i];
        assert(q[i as int] == id);
        assert(q.to_set().contains(id));
        if let (Some(a), Some(b)) = (our_kinds.get(&id), their_kinds.get(&id)) {
            if kinds_conflict(*a, *b) {
                return true;
            }
        }
        i = i + 1;
    }
    proof {
        assert forall|id: u64| !kinds_clash(#[trigger] kinds_at(ours@, id), kinds_at(theirs@, id)) by {
            if touched(ours@).contains(id) {
                assert(q.to_set().contains(id));
                let j = choose|j: int| 0 <= j < q.len() && q[j] == id;
                assert(!kinds_clash(kinds_at(ours@, q[j]), kinds_at(theirs@, q[j])));
            }
        }
    }
    created_in_dropped(ours, theirs) || created_in_dropped(theirs, ours)
}

// ---------------------------------------------------------------------------
// Laws
// ---------------------------------------------------------------------------

/// Which side asks does not matter.
pub proof fn conflicts_are_symmetric(a: ChangeModel, b: ChangeModel)
    ensures
        conflicting(a, b) == conflicting(b, a),
{
    if exists|id: u64| kinds_clash(#[trigger] kinds_at(a, id), kinds_at(b, id)) {
        let id = choose|id: u64| kinds_clash(#[trigger] kinds_at(a, id), kinds_at(b, id));
        assert(kinds_clash(kinds_at(b, id), kinds_at(a, id)));
    }
    if exists|id: u64| kinds_clash(#[trigger] kinds_at(b, id), kinds_at(a, id)) {
        let id = choose|id: u64| kinds_clash(#[trigger] kinds_at(b, id), kinds_at(a, id));
        assert(kinds_clash(kinds_at(a, id), kinds_at(b, id)));
    }
}

/// A set with changes that are not understood conflicts with every set.
pub proof fn unknown_changes_conflict(a: ChangeModel, b: ChangeModel)
    requires
        a.has_unknown,
    ensures
        conflicting(a, b),
        conflicting(b, a),
{
}

/// A set without changes conflicts with no set that is fully understood.
pub proof fn no_changes_are_benign(b: ChangeModel)
    requires
        !b.has_unknown,
    ensures
        !conflicting(no_changes(), b),
{
    assert forall|id: u64| !kinds_clash(#[trigger] kinds_at(no_changes(), id), kinds_at(b, id)) by {}
}

/// Commits that touch no common table or view, not both the schema list, and
/// create nothing in each other's dropped schemas, are benign.
pub proof fn disjoint_commits_are_benign(a: ChangeModel, b: ChangeModel)
    requires
        !a.has_unknown,
        !b.has_unknown,
        touched(a).disjoint(touched(b)),
        !(lists_schemas(a) && lists_schemas(b)),
        !creates_in_dropped(a, b),
        !creates_in_dropped(b, a),
    ensures
        !conflicting(a, b),
{
    assert forall|id: u64| !kinds_clash(#[trigger] kinds_at(a, id), kinds_at(b, id)) by {
        assert(!(touched(a).contains(id) && touched(b).contains(id)));
    }
}

/// Concurrent appends to any tables are benign.
pub proof fn appends_are_benign(a: u64, b: u64)
    ensures
        !conflicting(
            changes_of(seq![OperationModel::RegisterDataFile { table_id: a }]),
            changes_of(seq![OperationModel::RegisterDataFile { table_id: b }]),
        ),
{
    let x = seq![OperationModel::RegisterDataFile { table_id: a }];
    let y = seq![OperationModel::RegisterDataFile { table_id: b }];
    assert(x.drop_last() =~= Seq::<OperationModel>::empty());
    assert(y.drop_last() =~= Seq::<OperationModel>::empty());
    assert(changes_of(x.drop_last()) == no_changes());
    assert(changes_of(y.drop_last()) == no_changes());
    assert forall|id: u64|
        !kinds_clash(#[trigger] kinds_at(changes_of(x), id), kinds_at(changes_of(y), id)) by {}
}

/// A set that was read back from its text conflicts with nothing that the set
/// itself does not conflict with.
pub proof fn reading_back_adds_no_conflict(a: ChangeModel, b: ChangeModel)
    requires
        conflicting(wire_part(a), b),
    ensures
        conflicting(a, b),
{
    if exists|id: u64| kinds_clash(#[trigger] kinds_at(wire_part(a), id), kinds_at(b, id)) {
        let id = choose|id: u64| kinds_clash(#[trigger] kinds_at(wire_part(a), id), kinds_at(b, id));
        assert(kinds_clash(kinds_at(a, id), kinds_at(b, id)));
    }
    if creates_in_dropped(b, wire_part(a)) {
        let s = choose|s: u64| #[trigger] wire_part(a).dropped_schemas.contains(s) && creates_in(b, s);
        assert(a.dropped_schemas.contains(s));
    }
}

/// The changes of either of two sets.
pub open spec fn either(a: ChangeModel, b: ChangeModel) -> ChangeModel {
    ChangeModel {
        created_schemas: a.created_schemas.union(b.created_schemas),
        dropped_schemas: a.dropped_schemas.union(b.dropped_schemas),
        created_tables: a.created_tables.union(b.created_tables),
        created_table_schema_ids: a.created_table_schema_ids.union(b.created_table_schema_ids),
        altered_tables: a.altered_tables.union(b.altered_tables),
        dropped_tables: a.dropped_tables.union(b.dropped_tables),
        created_views: a.created_views.union(b.created_views),
        created_view_schema_ids: a.created_view_schema_ids.union(b.created_view_schema_ids),
        altered_views: a.altered_views.union(b.altered_views),
        dropped_views: a.dropped_views.union(b.dropped_views),
        created_scalar_macros: a.created_scalar_macros.union(b.created_scalar_macros),
        created_table_macros: a.created_table_macros.union(b.created_table_macros),
        created_macro_schema_ids: a.created_macro_schema_ids.union(b.created_macro_schema_ids),
        dropped_scalar_macros: a.dropped_scalar_macros.union(b.dropped_scalar_macros),
        dropped_table_macros: a.dropped_table_macros.union(b.dropped_table_macros),
        inserted_tables: a.inserted_tables.union(b.inserted_tables),
        deleted_from_tables: a.deleted_from_tables.union(b.deleted_from_tables),
        merge_adjacent_tables: a.merge_adjacent_tables.union(b.merge_adjacent_tables),
        rewrite_delete_tables: a.rewrite_delete_tables.union(b.rewrite_delete_tables),
        compacted_tables: a.compacted_tables.union(b.compacted_tables),
        has_unknown: a.has_unknown || b.has_unknown,
    }
}

/// Two runs of operations, one behind the other, leave the changes of either,
/// so that their order does not matter.
pub proof fn runs_leave_the_changes_of_either(a: Seq<OperationModel>, b: Seq<OperationModel>)
    ensures
        changes_of(a + b) == either(changes_of(a), changes_of(b)),
        changes_of(a + b) == changes_of(b + a),
{
    joined(a, b);
    joined(b, a);
    assert(either(changes_of(a), changes_of(b)) =~= either(changes_of(b), changes_of(a)));
}

proof fn joined(a: Seq<OperationModel>, b: Seq<OperationModel>)
    ensures
        changes_of(a + b) == either(changes_of(a), changes_of(b)),
    decreases b.len(),
{
    if b.len() == 0 {
        assert(a + b =~= a);
        assert(either(changes_of(a), no_changes()) =~= changes_of(a));
    } else {
        let all = a + b;
        assert(all.drop_last() =~= a + b.drop_last());
        assert(all.last() == b.last());
        joined(a, b.drop_last());
        let x = changes_of(a);
        let y = changes_of(b.drop_last());
        assert(noted(either(x, y), b.last()) =~= either(x, noted(y, b.last())));
    }
}

/// A set that conflicts with another still does when it touches more.
pub proof fn more_changes_stay_in_conflict(a: ChangeModel, more: ChangeModel, b: ChangeModel)
    requires
        conflicting(a, b),
    ensures
        conflicting(either(a, more), b),
        conflicting(b, either(a, more)),
{
    let c = either(a, more);
    if lists_schemas(a) {
        if a.created_schemas != Set::<Seq<char>>::empty() {
            assert(exists|n: Seq<char>| a.created_schemas.contains(n)) by {
                if forall|n: Seq<char>| !a.created_schemas.contains(n) {
                    assert(a.created_schemas =~= Set::<Seq<char>>::empty());
                }
            }
            let n = choose|n: Seq<char>| a.created_schemas.contains(n);
            assert(c.created_schemas.contains(n));
        } else {
            assert(exists|s: u64| a.dropped_schemas.contains(s)) by {
                if forall|s: u64| !a.dropped_schemas.contains(s) {
                    assert(a.dropped_schemas =~= Set::<u64>::empty());
                }
            }
            let s = choose|s: u64| a.dropped_schemas.contains(s);
            assert(c.dropped_schemas.contains(s));
        }
        assert(lists_schemas(c));
    }
    if exists|id: u64| kinds_clash(#[trigger] kinds_at(a, id), kinds_at(b, id)) {
        let id = choose|id: u64| kinds_clash(#[trigger] kinds_at(a, id), kinds_at(b, id));
        assert(kinds_clash(kinds_at(c, id), kinds_at(b, id)));
    }
    if creates_in_dropped(a, b) {
        let s = choose|s: u64| #[trigger] b.dropped_schemas.contains(s) && creates_in(a, s);
        assert(creates_in(c, s));
    }
    if creates_in_dropped(b, a) {
        let s = choose|s: u64| #[trigger] a.dropped_schemas.contains(s) && creates_in(b, s);
        assert(c.dropped_schemas.contains(s));
    }
    conflicts_are_symmetric(c, b);
}

} // verus!
