//! Rows that belong inside another row's record: gathered before the rows
//! they belong to are inserted, and put in the order of their ordinals.
use crate::decode::{
    decode_file_partition_value, decode_macro_impl, decode_macro_parameter, decode_name_mapping,
    decode_partition_column, decode_sort_expression, file_partition_value_row, insert_refusal,
    macro_impl_row, macro_parameter_row, name_mapping_row, partition_column_row,
    sort_expression_row,
};
use crate::error::{refused, Error, Fault};
use crate::ordered::{OrdMap, Ordered, Record};
use crate::records::{
    FilePartitionValue, FilePartitionValueModel, MacroImplementation, MacroImplementationModel,
    MacroParameter, MacroParameterModel, NameMapping, NameMappingModel, PartitionColumn,
    PartitionColumnModel, SortExpression, SortExpressionModel,
};
use crate::rows::{number, RowModel, RowOperation, TableKind};
use vstd::prelude::*;

verus! {

/// A row that belongs inside another row's record, under an ordinal.
pub trait Child: Record {
    spec fn ordinal_of(row: Self::V) -> u64;

    fn ordinal(&self) -> (n: u64)
        ensures
            n == Self::ordinal_of(self.deep_view()),
    ;
}

impl Child for PartitionColumn {
    open spec fn ordinal_of(row: PartitionColumnModel) -> u64 {
        row.partition_key_index
    }

    fn ordinal(&self) -> (n: u64) {
        self.partition_key_index
    }
}

impl Child for SortExpression {
    open spec fn ordinal_of(row: SortExpressionModel) -> u64 {
        row.sort_key_index
    }

    fn ordinal(&self) -> (n: u64) {
        self.sort_key_index
    }
}

impl Child for FilePartitionValue {
    open spec fn ordinal_of(row: FilePartitionValueModel) -> u64 {
        row.partition_key_index
    }

    fn ordinal(&self) -> (n: u64) {
        self.partition_key_index
    }
}

impl Child for MacroImplementation {
    open spec fn ordinal_of(row: MacroImplementationModel) -> u64 {
        row.impl_id
    }

    fn ordinal(&self) -> (n: u64) {
        self.impl_id
    }
}

impl Child for MacroParameter {
    open spec fn ordinal_of(row: MacroParameterModel) -> u64 {
        row.column_id
    }

    fn ordinal(&self) -> (n: u64) {
        self.column_id
    }
}

impl Child for NameMapping {
    open spec fn ordinal_of(row: NameMappingModel) -> u64 {
        row.column_id
    }

    fn ordinal(&self) -> (n: u64) {
        self.column_id
    }
}

/// Rows with one more in its place: after every row whose ordinal is not
/// larger.
pub open spec fn placed<C: Child>(rows: Seq<C::V>, row: C::V) -> Seq<C::V>
    decreases rows.len(),
{
    if rows.len() == 0 || C::ordinal_of(rows.last()) <= C::ordinal_of(row) {
        rows.push(row)
    } else {
        placed::<C>(rows.drop_last(), row).push(rows.last())
    }
}

/// Whether rows are in the order of their ordinals.
pub open spec fn in_order<C: Child>(rows: Seq<C::V>) -> bool {
    forall|i: int, j: int|
        0 <= i <= j < rows.len() ==> C::ordinal_of(#[trigger] rows[i]) <= C::ordinal_of(
            #[trigger] rows[j],
        )
}

/// Placing a row keeps the order, adds that row, and loses none.
pub proof fn placing_keeps_order<C: Child>(rows: Seq<C::V>, row: C::V)
    requires
        in_order::<C>(rows),
    ensures
        in_order::<C>(placed::<C>(rows, row)),
        placed::<C>(rows, row).to_multiset() == rows.to_multiset().insert(row),
    decreases rows.len(),
{
    broadcast use vstd::seq_lib::group_to_multiset_ensures;

    let out = placed::<C>(rows, row);
    if rows.len() == 0 || C::ordinal_of(rows.last()) <= C::ordinal_of(row) {
        assert forall|i: int, j: int| 0 <= i <= j < out.len() implies C::ordinal_of(
            #[trigger] out[i],
        ) <= C::ordinal_of(#[trigger] out[j]) by {
            if j == rows.len() && i < j {
                assert(C::ordinal_of(rows[i]) <= C::ordinal_of(rows[rows.len() - 1]));
            }
        }
    } else {
        let front = rows.drop_last();
        assert(in_order::<C>(front)) by {
            assert forall|i: int, j: int| 0 <= i <= j < front.len() implies C::ordinal_of(
                #[trigger] front[i],
            ) <= C::ordinal_of(#[trigger] front[j]) by {
                assert(front[i] == rows[i] && front[j] == rows[j]);
            }
        }
        placing_keeps_order::<C>(front, row);
        let inner = placed::<C>(front, row);
        let last = rows.last();
        assert forall|i: int| 0 <= i < inner.len() implies C::ordinal_of(#[trigger] inner[i])
            <= C::ordinal_of(last) by {
            assert(inner.to_multiset().contains(inner[i]));
            if inner[i] != row {
                assert(front.to_multiset().contains(inner[i]));
                assert(front.contains(inner[i]));
                let k = choose|k: int| 0 <= k < front.len() && front[k] == inner[i];
                assert(rows[k] == inner[i]);
                assert(C::ordinal_of(rows[k]) <= C::ordinal_of(rows[rows.len() - 1]));
            }
        }
        assert forall|i: int, j: int| 0 <= i <= j < out.len() implies C::ordinal_of(
            #[trigger] out[i],
        ) <= C::ordinal_of(#[trigger] out[j]) by {
            if j < inner.len() {
                assert(out[i] == inner[i] && out[j] == inner[j]);
            } else if i < inner.len() {
                assert(out[i] == inner[i]);
            }
        }
        assert(rows =~= front.push(last));
        assert(out.to_multiset() =~= rows.to_multiset().insert(row));
    }
}

/// Puts a row in its place.
fn place<C: Child>(rows: &mut Vec<C>, row: C)
    ensures
        final(rows).deep_view() == placed::<C>(old(rows).deep_view(), row.deep_view()),
{
    let ghost s = rows.deep_view();
    let ghost r = row.deep_view();
    let n = row.ordinal();
    let mut i: usize = rows.len();
    assert(s.take(s.len() as int) =~= s);
    assert(placed::<C>(s, r) =~= placed::<C>(s.take(i as int), r) + s.skip(i as int));
    while i > 0 && rows[i - 1].ordinal() > n
        invariant
            i <= rows@.len(),
            s == rows.deep_view(),
            rows@ == old(rows)@,
            r == row.deep_view(),
            n == C::ordinal_of(r),
            placed::<C>(s, r) == placed::<C>(s.take(i as int), r) + s.skip(i as int),
        ensures
            i <= rows@.len(),
            i > 0 ==> C::ordinal_of(s[i - 1]) <= n,
            placed::<C>(s, r) == placed::<C>(s.take(i as int), r) + s.skip(i as int),
        decreases i,
    {
        proof {
            let t = s.take(i as int);
            assert(t.last() == s[i - 1]);
            assert(s[i - 1] == rows@[i - 1].deep_view());
            assert(t.drop_last() =~= s.take(i - 1));
            assert(placed::<C>(t, r) + s.skip(i as int) =~= placed::<C>(s.take(i - 1), r) + s.skip(
                i - 1,
            ));
        }
        i = i - 1;
    }
    proof {
        if i > 0 {
            assert(s.take(i as int).last() == s[i - 1]);
        }
        assert(placed::<C>(s.take(i as int), r) == s.take(i as int).push(r));
    }
    rows.insert(i, row);
    assert(rows.deep_view() =~= s.take(i as int).push(r) + s.skip(i as int));
}

/// The rows under a key.
pub open spec fn group<K, R>(m: Map<K, Seq<R>>, key: K) -> Seq<R> {
    if m.contains_key(key) {
        m[key]
    } else {
        Seq::empty()
    }
}

/// Groups with one more row.
pub open spec fn with_child<K, C: Child>(m: Map<K, Seq<C::V>>, key: K, row: C::V) -> Map<K, Seq<C::V>> {
    m.insert(key, placed::<C>(group(m, key), row))
}

fn add_child<K: Ordered, C: Child>(m: &mut OrdMap<K, Vec<C>>, key: K, row: C)
    ensures
        final(m)@ == with_child::<K::V, C>(old(m)@, key.deep_view(), row.deep_view()),
{
    let mut rows = match m.remove(&key) {
        Some(rows) => rows,
        None => {
            let rows: Vec<C> = Vec::new();
            assert(rows.deep_view() =~= Seq::empty());
            rows
        },
    };
    place(&mut rows, row);
    m.insert(key, rows);
    assert(m@ =~= with_child::<K::V, C>(old(m)@, key.deep_view(), row.deep_view()));
}

/// Takes the rows under a key.
pub fn take_group<K: Ordered, C: Child>(m: &mut OrdMap<K, Vec<C>>, key: &K) -> (rows: Vec<C>)
    ensures
        rows.deep_view() == group(old(m)@, key.deep_view()),
        final(m)@ == old(m)@.remove(key.deep_view()),
{
    match m.remove(key) {
        Some(rows) => rows,
        None => {
            let rows: Vec<C> = Vec::new();
            assert(rows.deep_view() =~= Seq::empty());
            rows
        },
    }
}

/// The child rows of a commit, by the ids of the rows they belong to. One that
/// is left over after the inserts belongs to a row that the commit does not
/// insert.
pub struct ChildRows {
    pub partition_columns: OrdMap<u64, Vec<PartitionColumn>>,
    pub sort_expressions: OrdMap<u64, Vec<SortExpression>>,
    pub file_partition_values: OrdMap<(u64, u64), Vec<FilePartitionValue>>,
    pub macro_implementations: OrdMap<u64, Vec<MacroImplementation>>,
    pub macro_parameters: OrdMap<(u64, u64), Vec<MacroParameter>>,
    pub name_mappings: OrdMap<u64, Vec<NameMapping>>,
}

/// The model of [`ChildRows`].
#[verifier::ext_equal]
pub struct ChildModel {
    pub partition_columns: Map<u64, Seq<PartitionColumnModel>>,
    pub sort_expressions: Map<u64, Seq<SortExpressionModel>>,
    pub file_partition_values: Map<(u64, u64), Seq<FilePartitionValueModel>>,
    pub macro_implementations: Map<u64, Seq<MacroImplementationModel>>,
    pub macro_parameters: Map<(u64, u64), Seq<MacroParameterModel>>,
    pub name_mappings: Map<u64, Seq<NameMappingModel>>,
}

impl View for ChildRows {
    type V = ChildModel;

    open spec fn view(&self) -> ChildModel {
        ChildModel {
            partition_columns: self.partition_columns@,
            sort_expressions: self.sort_expressions@,
            file_partition_values: self.file_partition_values@,
            macro_implementations: self.macro_implementations@,
            macro_parameters: self.macro_parameters@,
            name_mappings: self.name_mappings@,
        }
    }
}

pub open spec fn no_children() -> ChildModel {
    ChildModel {
        partition_columns: Map::empty(),
        sort_expressions: Map::empty(),
        file_partition_values: Map::empty(),
        macro_implementations: Map::empty(),
        macro_parameters: Map::empty(),
        name_mappings: Map::empty(),
    }
}

impl ChildRows {
    pub fn new() -> (c: Self)
        ensures
            c@ == no_children(),
    {
        ChildRows {
            partition_columns: OrdMap::new(),
            sort_expressions: OrdMap::new(),
            file_partition_values: OrdMap::new(),
            macro_implementations: OrdMap::new(),
            macro_parameters: OrdMap::new(),
            name_mappings: OrdMap::new(),
        }
    }
}

/// The child rows with those of one more operation, or why it is refused.
pub open spec fn with_children_of(m: ChildModel, op: RowModel) -> Result<ChildModel, Fault> {
    match op {
        RowModel::Insert { table, cells } => match table {
            TableKind::PartitionColumn => match insert_refusal(table, cells) {
                Some(f) => Err(f),
                None => Ok(
                    ChildModel {
                        partition_columns: with_child::<_, PartitionColumn>(
                            m.partition_columns,
                            number(cells[0]),
                            partition_column_row(cells),
                        ),
                        ..m
                    },
                ),
            },
            TableKind::SortExpression => match insert_refusal(table, cells) {
                Some(f) => Err(f),
                None => Ok(
                    ChildModel {
                        sort_expressions: with_child::<_, SortExpression>(
                            m.sort_expressions,
                            number(cells[0]),
                            sort_expression_row(cells),
                        ),
                        ..m
                    },
                ),
            },
            TableKind::FilePartitionValue => match insert_refusal(table, cells) {
                Some(f) => Err(f),
                None => Ok(
                    ChildModel {
                        file_partition_values: with_child::<_, FilePartitionValue>(
                            m.file_partition_values,
                            (number(cells[1]), number(cells[0])),
                            file_partition_value_row(cells),
                        ),
                        ..m
                    },
                ),
            },
            TableKind::MacroImpl => match insert_refusal(table, cells) {
                Some(f) => Err(f),
                None => Ok(
                    ChildModel {
                        macro_implementations: with_child::<_, MacroImplementation>(
                            m.macro_implementations,
                            number(cells[0]),
                            macro_impl_row(cells),
                        ),
                        ..m
                    },
                ),
            },
            TableKind::MacroParameters => match insert_refusal(table, cells) {
                Some(f) => Err(f),
                None => Ok(
                    ChildModel {
                        macro_parameters: with_child::<_, MacroParameter>(
                            m.macro_parameters,
                            (number(cells[0]), number(cells[1])),
                            macro_parameter_row(cells),
                        ),
                        ..m
                    },
                ),
            },
            TableKind::NameMapping => match insert_refusal(table, cells) {
                Some(f) => Err(f),
                None => Ok(
                    ChildModel {
                        name_mappings: with_child::<_, NameMapping>(
                            m.name_mappings,
                            number(cells[0]),
                            name_mapping_row(cells),
                        ),
                        ..m
                    },
                ),
            },
            _ => Ok(m),
        },
        _ => Ok(m),
    }
}

/// The child rows of a commit, or why the first bad one is refused.
pub open spec fn children_of(ops: Seq<RowModel>) -> Result<ChildModel, Fault>
    decreases ops.len(),
{
    if ops.len() == 0 {
        Ok(no_children())
    } else {
        match children_of(ops.drop_last()) {
            Err(f) => Err(f),
            Ok(m) => with_children_of(m, ops.last()),
        }
    }
}

/// A refusal among the first operations is the refusal of all of them.
proof fn children_refusal_stays(ops: Seq<RowModel>, n: int)
    requires
        0 <= n <= ops.len(),
        children_of(ops.take(n)) is Err,
    ensures
        children_of(ops) == children_of(ops.take(n)),
    decreases ops.len(),
{
    if n == ops.len() {
        assert(ops.take(n) =~= ops);
    } else {
        assert(ops.drop_last().take(n) =~= ops.take(n));
        children_refusal_stays(ops.drop_last(), n);
    }
}

/// Adds the child row of one operation, if it is one.
fn add_children_of(children: &mut ChildRows, op: &RowOperation) -> (r: Result<(), Error>)
    ensures
        match with_children_of(old(children)@, op.deep_view()) {
            Err(f) => refused(r, f) && final(children)@ == old(children)@,
            Ok(m) => r is Ok && final(children)@ == m,
        },
{
    match op {
        RowOperation::Insert { table, cells } => match table {
            TableKind::PartitionColumn => match decode_partition_column(cells) {
                Err(e) => Err(e),
                Ok((key, row)) => {
                    add_child(&mut children.partition_columns, key, row);
                    Ok(())
                },
            },
            TableKind::SortExpression => match decode_sort_expression(cells) {
                Err(e) => Err(e),
                Ok((key, row)) => {
                    add_child(&mut children.sort_expressions, key, row);
                    Ok(())
                },
            },
            TableKind::FilePartitionValue => match decode_file_partition_value(cells) {
                Err(e) => Err(e),
                Ok((key, row)) => {
                    add_child(&mut children.file_partition_values, key, row);
                    Ok(())
                },
            },
            TableKind::MacroImpl => match decode_macro_impl(cells) {
                Err(e) => Err(e),
                Ok((key, row)) => {
                    add_child(&mut children.macro_implementations, key, row);
                    Ok(())
                },
            },
            TableKind::MacroParameters => match decode_macro_parameter(cells) {
                Err(e) => Err(e),
                Ok((key, row)) => {
                    add_child(&mut children.macro_parameters, key, row);
                    Ok(())
                },
            },
            TableKind::NameMapping => match decode_name_mapping(cells) {
                Err(e) => Err(e),
                Ok((key, row)) => {
                    add_child(&mut children.name_mappings, key, row);
                    Ok(())
                },
            },
            _ => Ok(()),
        },
        _ => Ok(()),
    }
}

/// Gathers the child rows of a commit.
pub fn collect_child_rows(ops: &Vec<RowOperation>) -> (r: Result<ChildRows, Error>)
    ensures
        match children_of(ops.deep_view()) {
            Err(f) => refused(r, f),
            Ok(m) => r is Ok && r->Ok_0@ == m,
        },
{
    let ghost q = ops.deep_view();
    let mut children = ChildRows::new();
    let mut i: usize = 0;
    assert(q.take(0) =~= Seq::<RowModel>::empty());
    while i < ops.len()
        invariant
            i <= ops@.len(),
            q == ops.deep_view(),
            children_of(q.take(i as int)) == Ok::<ChildModel, Fault>(children@),
        decreases ops.len() - i,
    {
        proof {
            let next = q.take(i + 1);
            assert(next.drop_last() =~= q.take(i as int));
            assert(next.last() == ops@[i as int].deep_view());
        }
        match add_children_of(&mut children, &ops[i]) {
            Err(e) => {
                proof {
                    children_refusal_stays(q, i + 1);
                }
                return Err(e);
            },
            Ok(()) => {},
        }
        i = i + 1;
    }
    assert(q.take(q.len() as int) =~= q);
    Ok(children)
}

/// Whether every group of rows is in the order of its ordinals.
pub open spec fn groups_in_order<K, C: Child>(m: Map<K, Seq<C::V>>) -> bool {
    forall|k: K| #[trigger] m.contains_key(k) ==> in_order::<C>(m[k])
}

proof fn adding_keeps_groups_in_order<K, C: Child>(m: Map<K, Seq<C::V>>, key: K, row: C::V)
    requires
        groups_in_order::<K, C>(m),
    ensures
        groups_in_order::<K, C>(with_child::<K, C>(m, key, row)),
{
    let next = with_child::<K, C>(m, key, row);
    if m.contains_key(key) {
        assert(in_order::<C>(m[key]));
    }
    placing_keeps_order::<C>(group(m, key), row);
    assert forall|k: K| #[trigger] next.contains_key(k) implies in_order::<C>(next[k]) by {
        if k != key {
            assert(m.contains_key(k));
        }
    }
}

/// Whatever the order in which a commit stages them, child rows come out in
/// the order of their ordinals.
pub proof fn children_come_in_order(ops: Seq<RowModel>)
    requires
        children_of(ops) is Ok,
    ensures
        groups_in_order::<u64, PartitionColumn>(children_of(ops)->Ok_0.partition_columns),
        groups_in_order::<u64, SortExpression>(children_of(ops)->Ok_0.sort_expressions),
        groups_in_order::<(u64, u64), FilePartitionValue>(children_of(ops)->Ok_0.file_partition_values),
        groups_in_order::<u64, MacroImplementation>(children_of(ops)->Ok_0.macro_implementations),
        groups_in_order::<(u64, u64), MacroParameter>(children_of(ops)->Ok_0.macro_parameters),
        groups_in_order::<u64, NameMapping>(children_of(ops)->Ok_0.name_mappings),
    decreases ops.len(),
{
    if ops.len() > 0 {
        let front = ops.drop_last();
        children_come_in_order(front);
        let m = children_of(front)->Ok_0;
        match ops.last() {
            RowModel::Insert { table, cells } => match table {
                TableKind::PartitionColumn => {
                    adding_keeps_groups_in_order::<u64, PartitionColumn>(
                        m.partition_columns,
                        number(cells[0]),
                        partition_column_row(cells),
                    );
                },
                TableKind::SortExpression => {
                    adding_keeps_groups_in_order::<u64, SortExpression>(
                        m.sort_expressions,
                        number(cells[0]),
                        sort_expression_row(cells),
                    );
                },
                TableKind::FilePartitionValue => {
                    adding_keeps_groups_in_order::<(u64, u64), FilePartitionValue>(
                        m.file_partition_values,
                        (number(cells[1]), number(cells[0])),
                        file_partition_value_row(cells),
                    );
                },
                TableKind::MacroImpl => {
                    adding_keeps_groups_in_order::<u64, MacroImplementation>(
                        m.macro_implementations,
                        number(cells[0]),
                        macro_impl_row(cells),
                    );
                },
                TableKind::MacroParameters => {
                    adding_keeps_groups_in_order::<(u64, u64), MacroParameter>(
                        m.macro_parameters,
                        (number(cells[0]), number(cells[1])),
                        macro_parameter_row(cells),
                    );
                },
                TableKind::NameMapping => {
                    adding_keeps_groups_in_order::<u64, NameMapping>(
                        m.name_mappings,
                        number(cells[0]),
                        name_mapping_row(cells),
                    );
                },
                _ => {},
            },
            _ => {},
        }
    }
}

} // verus!
