//! Commits through the small mutation handle: a store that holds schemas,
//! tables and columns alone, in the one layout that it starts with.
use crate::catalog::{CatalogModel, CatalogSnapshot, EntityModel, EntityRecord};
use crate::clock::now_micros;
use crate::commit::{
    any_shape, change_models, changes_any_shape, materialize_target, no_head, no_head_error,
    read_target, Prepared, PreparedModel, FORMAT_VERSION,
};
use crate::diff::{diff_columns, diff_schemas, diff_tables, versioned_diff};
use crate::error::{around, around_two, refused, text_around, text_around_two, Error, Fault};
use crate::keys::{Key, KeyModel, StagedWrite, Stored, StoredModel, SysKey, WriteModel};
use crate::operations::{
    changes_of, changes_text, parsed, ChangeModel, ChangeSet, Operation, OperationModel,
};
use crate::ordered::{OrdMap, Record};
use crate::records::{
    ColumnValue, FormatModel, FormatValue, HeadModel, HeadValue, MigrationValue, SchemaValue,
    SnapshotModel, SnapshotValue, TableValue,
};
use vstd::prelude::*;

verus! {

/// Why a store is refused: it is being migrated, or its layout is another.
pub open spec fn format_refusal(migrating: bool, format: Option<FormatModel>) -> Option<Fault> {
    if migrating {
        Some(Fault::Corruption("store is mid-migration; refusing to open"@))
    } else {
        match format {
            Some(f) => if f.format_version == FORMAT_VERSION {
                None
            } else {
                Some(
                    Fault::Corruption(
                        around_two(
                            "store format "@,
                            f.format_version,
                            " is not the supported format "@,
                            FORMAT_VERSION,
                            ""@,
                        ),
                    ),
                )
            },
            None => None,
        }
    }
}

/// Refuses a store that must not be touched. A store without a format is empty
/// and has to be bootstrapped.
pub fn validate_format(migration: &Option<MigrationValue>, format: Option<FormatValue>) -> (r: Result<
    Option<FormatValue>,
    Error,
>)
    ensures
        match format_refusal(migration is Some, format.deep_view()) {
            Some(f) => refused(r, f),
            None => r is Ok && r->Ok_0.deep_view() == format.deep_view(),
        },
{
    if migration.is_some() {
        return Err(Error::Corruption("store is mid-migration; refusing to open".to_owned()));
    }
    match format {
        Some(f) => {
            if f.format_version == FORMAT_VERSION {
                Ok(Some(f))
            } else {
                Err(
                    Error::Corruption(
                        text_around_two(
                            "store format ",
                            f.format_version,
                            " is not the supported format ",
                            FORMAT_VERSION,
                            "",
                        ),
                    ),
                )
            }
        },
        None => Ok(None),
    }
}

/// The first state of a store: its format, an empty first snapshot with its
/// counters at zero, and the head.
pub open spec fn first_writes(time: i64, writer_version: Seq<char>) -> Seq<WriteModel> {
    seq![
        (
            KeyModel::Sys(SysKey::Format),
            Some(
                StoredModel::Format(
                    FormatModel { format_version: FORMAT_VERSION, writer_version },
                ),
            ),
        ),
        (
            KeyModel::Snapshot { snapshot_id: 0 },
            Some(
                StoredModel::Snapshot(
                    SnapshotModel {
                        snapshot_id: 0,
                        snapshot_time_micros: time,
                        schema_version: 0,
                        next_catalog_id: 0,
                        next_file_id: 0,
                        next_deletion_id: 0,
                        changes_made: Seq::empty(),
                        author: None,
                        commit_message: None,
                        commit_extra_info: None,
                        schema_changed_table_ids: Seq::empty(),
                    },
                ),
            ),
        ),
        (
            KeyModel::Sys(SysKey::Head),
            Some(StoredModel::Head(HeadModel { snapshot_id: 0 })),
        ),
    ]
}

/// The first state of a store, at a given time.
pub fn bootstrap_writes(time: i64, writer_version: &str) -> (writes: Vec<StagedWrite>)
    ensures
        writes.deep_view() == first_writes(time, writer_version@),
{
    let format = FormatValue {
        format_version: FORMAT_VERSION,
        writer_version: writer_version.to_owned(),
    };
    let snapshot = SnapshotValue {
        snapshot_id: 0,
        snapshot_time_micros: time,
        schema_version: 0,
        next_catalog_id: 0,
        next_file_id: 0,
        next_deletion_id: 0,
        changes_made: String::new(),
        author: None,
        commit_message: None,
        commit_extra_info: None,
        schema_changed_table_ids: Vec::new(),
    };
    assert(snapshot@.schema_changed_table_ids =~= Seq::<u64>::empty());
    assert(snapshot@.changes_made =~= Seq::<char>::empty());
    let mut writes: Vec<StagedWrite> = Vec::new();
    writes.push((Key::Sys(SysKey::Format), Some(Stored::Format(format))));
    writes.push((Key::Snapshot { snapshot_id: 0 }, Some(Stored::Snapshot(snapshot))));
    writes.push((Key::Sys(SysKey::Head), Some(Stored::Head(HeadValue { snapshot_id: 0 }))));
    assert(writes.deep_view() =~= first_writes(time, writer_version@));
    writes
}

/// The first state of a store, now.
pub fn stage_bootstrap(writer_version: &str) -> (writes: Vec<StagedWrite>)
    ensures
        exists|time: i64|
            0 <= time && writes.deep_view() == #[trigger] first_writes(time, writer_version@),
{
    let time = now_micros();
    bootstrap_writes(time, writer_version)
}

/// A snapshot up to the head whose record is gone: the store is damaged.
pub open spec fn missing_record(snapshot_id: u64) -> Fault {
    Fault::Corruption(around("snapshot record "@, snapshot_id, " missing"@))
}

fn missing_record_error(snapshot_id: u64) -> (e: Error)
    ensures
        e@ == missing_record(snapshot_id),
{
    Error::Corruption(text_around("snapshot record ", snapshot_id, " missing"))
}

/// The catalog that a read of the store gives. Snapshots are never expired, so
/// that one without a record is damage.
pub open spec fn materialized(
    head: Option<HeadModel>,
    at: Option<u64>,
    snapshot: Option<SnapshotModel>,
    current: Seq<EntityModel>,
    history: Seq<EntityModel>,
) -> Result<CatalogModel, Fault> {
    match read_target(head, at) {
        Err(f) => Err(f),
        Ok(target) => match snapshot {
            None => Err(missing_record(target)),
            Some(_) => crate::commit::materialized(head, at, snapshot, current, history),
        },
    }
}

/// Builds the catalog at the head, or at a snapshot that was asked for: the
/// live records, and for a snapshot of the past the ended ones that it still
/// sees.
pub fn materialize(
    head: &Option<HeadValue>,
    at: Option<u64>,
    snapshot: Option<SnapshotValue>,
    current: Vec<EntityRecord>,
    history: Vec<EntityRecord>,
) -> (r: Result<CatalogSnapshot, Error>)
    ensures
        match materialized(
            head.deep_view(),
            at,
            snapshot.deep_view(),
            current.deep_view(),
            history.deep_view(),
        ) {
            Err(f) => refused(r, f),
            Ok(m) => r is Ok && r->Ok_0@ == m,
        },
{
    let target = match materialize_target(head, at) {
        Err(e) => return Err(e),
        Ok(target) => target,
    };
    if snapshot.is_none() {
        return Err(missing_record_error(target));
    }
    crate::commit::materialize(head, at, snapshot, current, history)
}

/// The first snapshot above one, up to the head, without a record.
pub open spec fn first_missing(from: u64, head: u64, records: Map<u64, SnapshotModel>) -> Option<u64>
    decreases head - from,
{
    if from >= head {
        None
    } else if !records.contains_key((from + 1) as u64) {
        Some((from + 1) as u64)
    } else {
        first_missing((from + 1) as u64, head, records)
    }
}

/// What the commits above a head changed, in order, as their records say.
pub open spec fn changes_recorded(
    head_before: u64,
    head: u64,
    records: Map<u64, SnapshotModel>,
) -> Seq<(u64, ChangeModel)> {
    Seq::new(
        if head > head_before {
            (head - head_before) as nat
        } else {
            0
        },
        |i: int|
            (
                (head_before + 1 + i) as u64,
                parsed(records[(head_before + 1 + i) as u64].changes_made),
            ),
    )
}

/// What the commits above a head changed, given the head now and the records of
/// snapshots. A commit without a record is damage, and no race.
pub fn intervening_changes(
    head_before: u64,
    head: &Option<HeadValue>,
    records: &OrdMap<u64, SnapshotValue>,
) -> (r: Result<Vec<(u64, ChangeSet)>, Error>)
    ensures
        match head {
            None => refused(r, no_head()),
            Some(h) => match first_missing(head_before, h@.snapshot_id, records@) {
                Some(id) => refused(r, missing_record(id)),
                None => r is Ok && change_models(r->Ok_0@) == changes_recorded(
                    head_before,
                    h@.snapshot_id,
                    records@,
                ),
            },
        },
{
    let head_now = match head {
        None => return Err(no_head_error()),
        Some(h) => h.snapshot_id,
    };
    let ghost all = changes_recorded(head_before, head_now, records@);
    let mut changes: Vec<(u64, ChangeSet)> = Vec::new();
    let mut id: u64 = head_before;
    while id < head_now
        invariant
            head_before <= id,
            head_before <= head_now ==> id <= head_now,
            head_before > head_now ==> id == head_before,
            head is Some && head->0@.snapshot_id == head_now,
            first_missing(head_before, head_now, records@) == first_missing(id, head_now, records@),
            all == changes_recorded(head_before, head_now, records@),
            changes@.len() == id - head_before,
            forall|i: int|
                0 <= i < changes@.len() ==> ((#[trigger] changes@[i]).0, changes@[i].1@) == all[i],
        decreases head_now - id,
    {
        id = id + 1;
        match records.get(&id) {
            Some(s) => changes.push((id, ChangeSet::parse(s.changes_made.as_str()))),
            None => return Err(missing_record_error(id)),
        }
    }
    assert(change_models(changes@) =~= all);
    Ok(changes)
}

/// The writes that turn `base` into `state` at `new_snapshot`.
pub open spec fn diff(base: CatalogModel, state: CatalogModel, new_snapshot: u64) -> Seq<WriteModel> {
    versioned_diff::<SchemaValue>(base.schemas, state.schemas, new_snapshot) + versioned_diff::<
        TableValue,
    >(base.tables, state.tables, new_snapshot) + versioned_diff::<ColumnValue>(
        base.columns,
        state.columns,
        new_snapshot,
    )
}

/// The writes that turn `base` into `state` at `new_snapshot`: chained changes
/// of one record collapse to a single transition.
pub fn diff_writes(base: &CatalogSnapshot, state: &CatalogSnapshot, new_snapshot: u64) -> (writes: Vec<
    StagedWrite,
>)
    ensures
        writes.deep_view() == diff(base@, state@, new_snapshot),
{
    let mut writes: Vec<StagedWrite> = Vec::new();
    assert(writes.deep_view() =~= Seq::<WriteModel>::empty());
    diff_schemas(&mut writes, base, state, new_snapshot);
    diff_tables(&mut writes, base, state, new_snapshot);
    diff_columns(&mut writes, base, state, new_snapshot);
    assert(writes.deep_view() =~= diff(base@, state@, new_snapshot));
    writes
}

/// The snapshot that operations mint.
pub open spec fn minted(
    base: CatalogModel,
    ops: Seq<OperationModel>,
    next_catalog_id: u64,
    time: i64,
) -> SnapshotModel {
    SnapshotModel {
        snapshot_id: (base.snapshot.snapshot_id + 1) as u64,
        snapshot_time_micros: time,
        schema_version: (base.snapshot.schema_version + (if any_shape(ops) {
            1int
        } else {
            0int
        })) as u64,
        next_catalog_id,
        next_file_id: base.snapshot.next_file_id,
        next_deletion_id: base.snapshot.next_deletion_id,
        changes_made: changes_text(changes_of(ops)),
        author: None,
        commit_message: None,
        commit_extra_info: None,
        schema_changed_table_ids: Seq::empty(),
    }
}

/// What a handle has to commit: the diff of its working state, the snapshot and
/// the head; without operations there is nothing, since no snapshot is empty.
pub open spec fn prepared(
    base: CatalogModel,
    ops: Seq<OperationModel>,
    state: CatalogModel,
    next_catalog_id: u64,
    time: i64,
) -> PreparedModel {
    let head = base.snapshot.snapshot_id;
    let new_id = (head + 1) as u64;
    if ops.len() == 0 {
        PreparedModel::Nothing { head }
    } else {
        PreparedModel::Staged {
            ours: changes_of(ops),
            head_before: head,
            commits: new_id,
            writes: diff(base, state, new_id) + seq![
                (
                    KeyModel::Snapshot { snapshot_id: new_id },
                    Some(StoredModel::Snapshot(minted(base, ops, next_catalog_id, time))),
                ),
                (
                    KeyModel::Sys(SysKey::Head),
                    Some(StoredModel::Head(HeadModel { snapshot_id: new_id })),
                ),
            ],
        }
    }
}

/// Prepares the batch of a handle: given the catalog it was based on, and its
/// parts.
pub fn prepare(
    base: &CatalogSnapshot,
    ops: &Vec<Operation>,
    state: &CatalogSnapshot,
    next_catalog_id: u64,
    time: i64,
) -> (p: Prepared)
    requires
        ops@.len() > 0 ==> base@.snapshot.snapshot_id < u64::MAX,
        any_shape(ops.deep_view()) ==> base@.snapshot.schema_version < u64::MAX,
    ensures
        p@ == prepared(base@, ops.deep_view(), state@, next_catalog_id, time),
{
    let head = base.snapshot.snapshot_id;
    assert(ops.deep_view().len() == ops@.len());
    if ops.len() == 0 {
        return Prepared::Nothing { head };
    }
    let new_id = head + 1;
    let mut writes = diff_writes(base, state, new_id);
    let ghost w = writes.deep_view();
    let shape = changes_any_shape(ops);
    let ours = ChangeSet::from_operations(ops.as_slice());
    let schema_version = if shape {
        base.snapshot.schema_version + 1
    } else {
        base.snapshot.schema_version
    };
    let snapshot = SnapshotValue {
        snapshot_id: new_id,
        snapshot_time_micros: time,
        schema_version,
        next_catalog_id,
        next_file_id: base.snapshot.next_file_id,
        next_deletion_id: base.snapshot.next_deletion_id,
        changes_made: ours.to_changes_made(),
        author: None,
        commit_message: None,
        commit_extra_info: None,
        schema_changed_table_ids: Vec::new(),
    };
    let ghost s = snapshot@;
    assert(s =~= minted(base@, ops.deep_view(), next_catalog_id, time));
    writes.push((Key::Snapshot { snapshot_id: new_id }, Some(Stored::Snapshot(snapshot))));
    writes.push((Key::Sys(SysKey::Head), Some(Stored::Head(HeadValue { snapshot_id: new_id }))));
    assert(writes.deep_view() =~= w + seq![
        (KeyModel::Snapshot { snapshot_id: new_id }, Some(StoredModel::Snapshot(s))),
        (
            KeyModel::Sys(SysKey::Head),
            Some(StoredModel::Head(HeadModel { snapshot_id: new_id })),
        ),
    ]);
    Prepared::Staged { ours, head_before: head, commits: new_id, writes }
}

/// A small transaction reads the same catalog as any other. A snapshot that the
/// head names and that is missing breaks the store.
pub proof fn small_reads_are_the_same(
    head: Option<HeadModel>,
    at: Option<u64>,
    snapshot: Option<SnapshotModel>,
    current: Seq<EntityModel>,
    history: Seq<EntityModel>,
)
    ensures
        snapshot is Some ==> materialized(head, at, snapshot, current, history)
            == crate::commit::materialized(head, at, snapshot, current, history),
        snapshot is None ==> materialized(head, at, snapshot, current, history) is Err,
        snapshot is None && read_target(head, at) is Ok ==> materialized(
            head,
            at,
            snapshot,
            current,
            history,
        )->Err_0 is Corruption,
        read_target(head, at) is Err ==> materialized(head, at, snapshot, current, history) == Err::<
            CatalogModel,
            Fault,
        >(read_target(head, at)->Err_0),
{
}

} // verus!
