//! Commits through verbs: opening and bootstrapping a store, turning a
//! transaction into one batch of writes, and deciding lost races.
use crate::catalog::{
    empty_catalog, with_records, CatalogModel, CatalogSnapshot, EntityModel, EntityRecord,
};
use crate::clock::now_micros;
use crate::conflicts::{conflicting, conflicts};
use crate::diff::{diff, diff_options, diff_writes, overwrite_diff};
use crate::error::{
    around, around_two, refused, text_around, text_around_two, Error, Fault,
};
use crate::index_entries::{
    entry_writes, stage_index_entries, HeldEntries, IndexEntryModel, StagedIndexEntry,
};
use crate::keys::{
    current_key, EntityKey, Key, KeyModel, StagedWrite, Stored, StoredModel, SysKey, WriteModel,
};
use crate::names::{new_uuid, uuid_text};
use crate::operations::{
    changes_of, changes_shape, changes_text, no_changes, parsed, reshaped, ChangeModel, ChangeSet,
    Operation, OperationModel,
};
use crate::ordered::{ascending, selected, OrdMap, OrdSet, Record};
use crate::records::{
    FormatModel, FormatValue, HeadModel, HeadValue, IndexModel, IndexValue, MigrationValue,
    OptionScopeModel, OptionScopeValue, SchemaModel, SchemaValue, SnapshotModel, SnapshotValue,
};
use vstd::prelude::*;

verus! {

/// The layout that a fresh store starts with.
pub const FORMAT_VERSION: u64 = 1;

/// The layout of a store that has, or had, an equality index.
pub const FORMAT_WITH_INDEX: u64 = 2;

/// The layout of a store that has, or had, an index that was built over several
/// commits.
pub const FORMAT_WITH_STAGED_INDEX: u64 = 3;

/// The newest layout that is understood.
pub const MAX_FORMAT_VERSION: u64 = FORMAT_WITH_STAGED_INDEX;

/// How often a commit is tried before a race is reported.
pub const MAX_COMMIT_ATTEMPTS: usize = 10;

// ---------------------------------------------------------------------------
// Opening
// ---------------------------------------------------------------------------

/// Why a store is refused: it is being migrated, or its layout is not
/// understood.
pub open spec fn format_refusal(migrating: bool, format: Option<FormatModel>) -> Option<Fault> {
    if migrating {
        Some(Fault::Corruption("store is mid-migration; refusing to open"@))
    } else {
        match format {
            Some(f) => if FORMAT_VERSION <= f.format_version <= MAX_FORMAT_VERSION {
                None
            } else {
                Some(
                    Fault::Corruption(
                        around(
                            "store format "@,
                            f.format_version,
                            " is outside the supported range "@,
                        ) + around_two(
                            ""@,
                            FORMAT_VERSION,
                            "..="@,
                            MAX_FORMAT_VERSION,
                            ""@,
                        ),
                    ),
                )
            },
            None => None,
        }
    }
}

/// Refuses a store that must not be touched. A store without a format is empty
/// and has to be bootstrapped.
pub fn validate_format(migration: &Option<MigrationValue>, format: Option<FormatValue>) -> (r: Result<
    Option<FormatValue>,
    Error,
>)
    ensures
        match format_refusal(migration is Some, format.deep_view()) {
            Some(f) => refused(r, f),
            None => r is Ok && r->Ok_0.deep_view() == format.deep_view(),
        },
{
    if migration.is_some() {
        return Err(Error::Corruption("store is mid-migration; refusing to open".to_owned()));
    }
    match format {
        Some(f) => {
            if FORMAT_VERSION <= f.format_version && f.format_version <= MAX_FORMAT_VERSION {
                Ok(Some(f))
            } else {
                let mut t = text_around(
                    "store format ",
                    f.format_version,
                    " is outside the supported range ",
                );
                crate::text::push_text(
                    &mut t,
                    &text_around_two("", FORMAT_VERSION, "..=", MAX_FORMAT_VERSION, ""),
                );
                Err(Error::Corruption(t))
            }
        },
        None => Ok(None),
    }
}

/// A store to open for writing, as it was found.
#[derive(Debug, Clone, Copy, PartialEq, Eq, Structural)]
pub enum Opening {
    /// It is initialized.
    Ready,
    /// It is empty.
    Bootstrap,
}

/// What opening a store for writing takes.
pub fn opening(migration: &Option<MigrationValue>, format: Option<FormatValue>) -> (r: Result<
    Opening,
    Error,
>)
    ensures
        match format_refusal(migration is Some, format.deep_view()) {
            Some(f) => refused(r, f),
            None => r == Ok::<Opening, Error>(
                if format is Some {
                    Opening::Ready
                } else {
                    Opening::Bootstrap
                },
            ),
        },
{
    match validate_format(migration, format) {
        Err(e) => Err(e),
        Ok(Some(_)) => Ok(Opening::Ready),
        Ok(None) => Ok(Opening::Bootstrap),
    }
}

/// Whether a store is ready after another writer won the race to bootstrap it.
pub fn lost_bootstrap(migration: &Option<MigrationValue>, format: Option<FormatValue>) -> (r: Result<
    (),
    Error,
>)
    ensures
        match format_refusal(migration is Some, format.deep_view()) {
            Some(f) => refused(r, f),
            None => if format is Some {
                r is Ok
            } else {
                refused(
                    r,
                    Fault::Corruption("bootstrap race left the store uninitialized"@),
                )
            },
        },
{
    match opening(migration, format) {
        Err(e) => Err(e),
        Ok(Opening::Ready) => Ok(()),
        Ok(Opening::Bootstrap) => Err(
            Error::Corruption("bootstrap race left the store uninitialized".to_owned()),
        ),
    }
}

/// Whether a store can be opened for reading: nothing is bootstrapped then.
pub fn opening_reader(migration: &Option<MigrationValue>, format: Option<FormatValue>) -> (r: Result<
    (),
    Error,
>)
    ensures
        match format_refusal(migration is Some, format.deep_view()) {
            Some(f) => refused(r, f),
            None => if format is Some {
                r is Ok
            } else {
                refused(r, uninitialized())
            },
        },
{
    match opening(migration, format) {
        Err(e) => Err(e),
        Ok(Opening::Ready) => Ok(()),
        Ok(Opening::Bootstrap) => Err(
            Error::Corruption(
                "store is not an initialized moraine catalog; a read-only attach needs a writer to have created it first".to_owned(),
            ),
        ),
    }
}

pub open spec fn uninitialized() -> Fault {
    Fault::Corruption(
        "store is not an initialized moraine catalog; a read-only attach needs a writer to have created it first"@,
    )
}

// ---------------------------------------------------------------------------
// Bootstrap
// ---------------------------------------------------------------------------

/// The change of a fresh store's first snapshot: the schema `main`.
pub open spec fn first_changes() -> ChangeModel {
    ChangeModel { created_schemas: set!["main"@], ..no_changes() }
}

/// The options that a fresh store starts with.
pub open spec fn first_options(encrypted: bool, data_path: Option<Seq<char>>) -> Map<
    Seq<char>,
    Seq<char>,
> {
    let base = Map::<Seq<char>, Seq<char>>::empty().insert(
        "encrypted"@,
        if encrypted {
            "true"@
        } else {
            "false"@
        },
    );
    match data_path {
        Some(path) => base.insert("data_path"@, path),
        None => base,
    }
}

/// The first state of a store: its format, its first snapshot, the schema
/// `main`, the global options and the head.
pub open spec fn first_writes(
    encrypted: bool,
    data_path: Option<Seq<char>>,
    time: i64,
    uuid: Seq<char>,
    writer_version: Seq<char>,
) -> Seq<WriteModel> {
    seq![
        (
            KeyModel::Sys(SysKey::Format),
            Some(
                StoredModel::Format(
                    FormatModel { format_version: FORMAT_VERSION, writer_version },
                ),
            ),
        ),
        (
            KeyModel::Snapshot { snapshot_id: 0 },
            Some(
                StoredModel::Snapshot(
                    SnapshotModel {
                        snapshot_id: 0,
                        snapshot_time_micros: time,
                        schema_version: 0,
                        next_catalog_id: 1,
                        next_file_id: 0,
                        next_deletion_id: 0,
                        changes_made: changes_text(first_changes()),
                        author: None,
                        commit_message: None,
                        commit_extra_info: None,
                        schema_changed_table_ids: Seq::empty(),
                    },
                ),
            ),
        ),
        (
            current_key(EntityKey::Schema { schema_id: 0 }),
            Some(
                StoredModel::Schema(
                    SchemaModel {
                        schema_id: 0,
                        schema_uuid: uuid,
                        begin_snapshot: 0,
                        end_snapshot: None,
                        schema_name: "main"@,
                        path: "main/"@,
                        path_is_relative: true,
                    },
                ),
            ),
        ),
        (
            current_key(EntityKey::OptionScope { scope_kind: 0, scope_id: 0 }),
            Some(
                StoredModel::OptionScope(
                    OptionScopeModel { options: first_options(encrypted, data_path) },
                ),
            ),
        ),
        (
            KeyModel::Sys(SysKey::Head),
            Some(StoredModel::Head(HeadModel { snapshot_id: 0 })),
        ),
    ]
}

/// The first state of a store, at a given time and under a given unique id of
/// its schema.
pub fn bootstrap_writes(
    encrypted: bool,
    data_path: Option<String>,
    time: i64,
    uuid: String,
    writer_version: &str,
) -> (writes: Vec<StagedWrite>)
    ensures
        writes.deep_view() == first_writes(
            encrypted,
            data_path.deep_view(),
            time,
            uuid@,
            writer_version@,
        ),
{
    let mut changes = ChangeSet::default();
    changes.created_schemas.insert("main".to_owned());
    assert(changes@ =~= first_changes());
    let mut options: OrdMap<String, String> = OrdMap::new();
    let choice = if encrypted {
        "true".to_owned()
    } else {
        "false".to_owned()
    };
    options.insert("encrypted".to_owned(), choice);
    let ghost path = data_path.deep_view();
    match data_path {
        Some(path) => {
            options.insert("data_path".to_owned(), path);
        },
        None => {},
    }
    assert(options@ =~= first_options(encrypted, path));
    let format = FormatValue {
        format_version: FORMAT_VERSION,
        writer_version: writer_version.to_owned(),
    };
    let snapshot = SnapshotValue {
        snapshot_id: 0,
        snapshot_time_micros: time,
        schema_version: 0,
        next_catalog_id: 1,
        next_file_id: 0,
        next_deletion_id: 0,
        changes_made: changes.to_changes_made(),
        author: None,
        commit_message: None,
        commit_extra_info: None,
        schema_changed_table_ids: Vec::new(),
    };
    assert(snapshot@.schema_changed_table_ids =~= Seq::<u64>::empty());
    let schema = SchemaValue {
        schema_id: 0,
        schema_uuid: uuid,
        begin_snapshot: 0,
        end_snapshot: None,
        schema_name: "main".to_owned(),
        path: "main/".to_owned(),
        path_is_relative: true,
    };
    let mut writes: Vec<StagedWrite> = Vec::new();
    writes.push((Key::Sys(SysKey::Format), Some(Stored::Format(format))));
    writes.push((Key::Snapshot { snapshot_id: 0 }, Some(Stored::Snapshot(snapshot))));
    writes.push(
        (Key::current(EntityKey::Schema { schema_id: 0 }), Some(Stored::Schema(schema))),
    );
    writes.push(
        (
            Key::current(EntityKey::OptionScope { scope_kind: 0, scope_id: 0 }),
            Some(Stored::OptionScope(OptionScopeValue { options })),
        ),
    );
    writes.push((Key::Sys(SysKey::Head), Some(Stored::Head(HeadValue { snapshot_id: 0 }))));
    assert(writes.deep_view() =~= first_writes(encrypted, path, time, uuid@, writer_version@));
    writes
}

/// The first state of a store, now and under a fresh random unique id.
pub fn stage_bootstrap(encrypted: bool, data_path: Option<String>, writer_version: &str) -> (writes: Vec<
    StagedWrite,
>)
    ensures
        exists|time: i64, uuid: Seq<char>|
            0 <= time && #[trigger] uuid_text(uuid) && writes.deep_view()
                == #[trigger] first_writes(
                encrypted,
                data_path.deep_view(),
                time,
                uuid,
                writer_version@,
            ),
{
    let time = now_micros();
    let uuid = new_uuid();
    bootstrap_writes(encrypted, data_path, time, uuid, writer_version)
}

// ---------------------------------------------------------------------------
// Materializing
// ---------------------------------------------------------------------------

pub open spec fn no_head() -> Fault {
    Fault::Corruption("store has no head pointer"@)
}

pub fn no_head_error() -> (e: Error)
    ensures
        e@ == no_head(),
{
    Error::Corruption("store has no head pointer".to_owned())
}

/// The snapshot that a read is of: the head, or one that was asked for at or
/// before it.
pub open spec fn read_target(head: Option<HeadModel>, at: Option<u64>) -> Result<u64, Fault> {
    match head {
        None => Err(no_head()),
        Some(h) => match at {
            Some(requested) => if requested > h.snapshot_id {
                Err(
                    Fault::NotFound(
                        around_two("snapshot "@, requested, " (head is "@, h.snapshot_id, ")"@),
                    ),
                )
            } else {
                Ok(requested)
            },
            None => Ok(h.snapshot_id),
        },
    }
}

/// The snapshot that a read is of.
pub fn materialize_target(head: &Option<HeadValue>, at: Option<u64>) -> (r: Result<u64, Error>)
    ensures
        match read_target(head.deep_view(), at) {
            Err(f) => refused(r, f),
            Ok(target) => r == Ok::<u64, Error>(target),
        },
{
    match head {
        None => Err(no_head_error()),
        Some(h) => match at {
            Some(requested) => {
                if requested > h.snapshot_id {
                    Err(
                        Error::NotFound(
                            text_around_two(
                                "snapshot ",
                                requested,
                                " (head is ",
                                h.snapshot_id,
                                ")",
                            ),
                        ),
                    )
                } else {
                    Ok(requested)
                }
            },
            None => Ok(h.snapshot_id),
        },
    }
}

/// The catalog that a read of the store gives. A snapshot without a record was
/// expired.
pub open spec fn materialized(
    head: Option<HeadModel>,
    at: Option<u64>,
    snapshot: Option<SnapshotModel>,
    current: Seq<EntityModel>,
    history: Seq<EntityModel>,
) -> Result<CatalogModel, Fault> {
    match read_target(head, at) {
        Err(f) => Err(f),
        Ok(target) => match snapshot {
            None => Err(
                Fault::NotFound(around("snapshot "@, target, " (expired or never minted)"@)),
            ),
            Some(s) => Ok(
                with_records(
                    with_records(empty_catalog(s), current, at),
                    if at is Some {
                        history
                    } else {
                        Seq::empty()
                    },
                    at,
                ),
            ),
        },
    }
}

/// Builds the catalog at the head, or at a snapshot that was asked for: the
/// live records, and for a snapshot of the past the ended ones that it still
/// sees.
pub fn materialize(
    head: &Option<HeadValue>,
    at: Option<u64>,
    snapshot: Option<SnapshotValue>,
    current: Vec<EntityRecord>,
    history: Vec<EntityRecord>,
) -> (r: Result<CatalogSnapshot, Error>)
    ensures
        match materialized(
            head.deep_view(),
            at,
            snapshot.deep_view(),
            current.deep_view(),
            history.deep_view(),
        ) {
            Err(f) => refused(r, f),
            Ok(m) => r is Ok && r->Ok_0@ == m,
        },
{
    let target = match materialize_target(head, at) {
        Err(e) => return Err(e),
        Ok(target) => target,
    };
    match snapshot {
        None => Err(
            Error::NotFound(text_around("snapshot ", target, " (expired or never minted)")),
        ),
        Some(s) => {
            let past = match at {
                Some(_) => history,
                None => {
                    let none: Vec<EntityRecord> = Vec::new();
                    assert(none.deep_view() =~= Seq::<EntityModel>::empty());
                    none
                },
            };
            Ok(CatalogSnapshot::build(s, current, past, at))
        },
    }
}

// ---------------------------------------------------------------------------
// Preparing
// ---------------------------------------------------------------------------

/// Whether some index is still being built over several commits.
pub open spec fn building(m: CatalogModel) -> bool {
    exists|k: (u64, u64)|
        #[trigger] m.indexes.contains_key(k) && m.indexes[k].build_state is Some
}

/// The layout that a state needs.
pub open spec fn format_for(m: CatalogModel) -> u64 {
    if building(m) {
        FORMAT_WITH_STAGED_INDEX
    } else if m.indexes != Map::<(u64, u64), IndexModel>::empty() {
        FORMAT_WITH_INDEX
    } else {
        FORMAT_VERSION
    }
}

/// The layout that a state needs.
pub fn target_format(state: &CatalogSnapshot) -> (format: u64)
    ensures
        format == format_for(state@),
{
    let test = |id: &(u64, u64), v: &IndexValue| -> (b: bool)
        ensures
            b == (v@.build_state is Some),
    {
        v.build_state.is_some()
    };
    let ghost p = |id: (u64, u64), v: IndexModel| v.build_state is Some;
    let found = state.indexes.select(test, Ghost(p));
    proof {
        let s = selected(state@.indexes, p);
        if building(state@) {
            let k = choose|k: (u64, u64)|
                #[trigger] state@.indexes.contains_key(k) && state@.indexes[k].build_state is Some;
            assert(s.contains(k));
        } else {
            assert(s =~= Set::empty());
        }
    }
    if !found.is_empty() {
        FORMAT_WITH_STAGED_INDEX
    } else if !state.indexes.is_empty() {
        FORMAT_WITH_INDEX
    } else {
        FORMAT_VERSION
    }
}

/// The writes of a layout that a state needs: the stamp only ever goes up.
pub open spec fn format_writes(
    m: CatalogModel,
    stored: Option<FormatModel>,
    writer_version: Seq<char>,
) -> Seq<WriteModel> {
    let current = match stored {
        Some(f) => f.format_version,
        None => FORMAT_VERSION,
    };
    if format_for(m) > FORMAT_VERSION && current < format_for(m) {
        seq![
            (
                KeyModel::Sys(SysKey::Format),
                Some(
                    StoredModel::Format(
                        FormatModel { format_version: format_for(m), writer_version },
                    ),
                ),
            ),
        ]
    } else {
        Seq::empty()
    }
}

/// Whether some operation changes a shape.
pub open spec fn any_shape(ops: Seq<OperationModel>) -> bool {
    exists|i: int| 0 <= i < ops.len() && changes_shape(#[trigger] ops[i])
}

/// The tables and views whose shape operations change.
pub open spec fn reshaped_by(ops: Seq<OperationModel>) -> Set<u64> {
    Set::new(|id: u64| exists|i: int| 0 <= i < ops.len() && reshaped(#[trigger] ops[i]) == Some(id))
}

pub fn changes_any_shape(ops: &Vec<Operation>) -> (b: bool)
    ensures
        b == any_shape(ops.deep_view()),
{
    let ghost q = ops.deep_view();
    let mut i: usize = 0;
    while i < ops.len()
        invariant
            i <= ops@.len(),
            q == ops.deep_view(),
            forall|j: int| 0 <= j < i ==> !changes_shape(#[trigger] q[j]),
        decreases ops.len() - i,
    {
        assert(q[i as int] == ops@[i as int].deep_view());
        if ops[i].is_schema_changing() {
            assert(changes_shape(q[i as int]));
            return true;
        }
        i = i + 1;
    }
    false
}

fn collect_reshaped(ops: &Vec<Operation>) -> (ids: OrdSet<u64>)
    ensures
        ids@ == reshaped_by(ops.deep_view()),
{
    let ghost q = ops.deep_view();
    let mut ids: OrdSet<u64> = OrdSet::new();
    let mut i: usize = 0;
    while i < ops.len()
        invariant
            i <= ops@.len(),
            q == ops.deep_view(),
            forall|id: u64| #[trigger]
                ids@.contains(id) <==> exists|j: int|
                    0 <= j < i && reshaped(#[trigger] q[j]) == Some(id),
        decreases ops.len() - i,
    {
        let ghost was = ids@;
        assert(q[i as int] == ops@[i as int].deep_view());
        match ops[i].schema_changed_table_id() {
            Some(id) => ids.insert(id),
            None => {},
        }
        proof {
            assert forall|id: u64| #[trigger] ids@.contains(id) <==> exists|j: int|
                0 <= j < i + 1 && reshaped(#[trigger] q[j]) == Some(id) by {
                if was.contains(id) {
                    let j = choose|j: int| 0 <= j < i && reshaped(#[trigger] q[j]) == Some(id);
                    assert(reshaped(q[j]) == Some(id));
                }
                if ids@.contains(id) && !was.contains(id) {
                    assert(reshaped(q[i as int]) == Some(id));
                }
            }
        }
        i = i + 1;
    }
    assert(ids@ =~= reshaped_by(q));
    ids
}

/// The snapshot that operations mint.
pub open spec fn minted(
    base: CatalogModel,
    ops: Seq<OperationModel>,
    next_catalog_id: u64,
    next_file_id: u64,
    time: i64,
) -> SnapshotModel {
    SnapshotModel {
        snapshot_id: (base.snapshot.snapshot_id + 1) as u64,
        snapshot_time_micros: time,
        schema_version: (base.snapshot.schema_version + (if any_shape(ops) {
            1int
        } else {
            0int
        })) as u64,
        next_catalog_id,
        next_file_id,
        next_deletion_id: 0,
        changes_made: changes_text(changes_of(ops)),
        author: None,
        commit_message: None,
        commit_extra_info: None,
        schema_changed_table_ids: ascending::<u64>(reshaped_by(ops)),
    }
}

/// What one attempt has to commit.
pub enum Prepared {
    /// Nothing: the head stays.
    Nothing { head: u64 },
    /// Writes.
    Staged {
        /// What the attempt changes, nothing where it sets options alone.
        ours: ChangeSet,
        /// The head that the attempt was based on.
        head_before: u64,
        /// The snapshot that a commit leads to.
        commits: u64,
        /// The batch.
        writes: Vec<StagedWrite>,
    },
}

/// The model of [`Prepared`].
pub enum PreparedModel {
    Nothing { head: u64 },
    Staged { ours: ChangeModel, head_before: u64, commits: u64, writes: Seq<WriteModel> },
}

impl View for Prepared {
    type V = PreparedModel;

    open spec fn view(&self) -> PreparedModel {
        match *self {
            Prepared::Nothing { head } => PreparedModel::Nothing { head },
            Prepared::Staged { ours, head_before, commits, writes } => PreparedModel::Staged {
                ours: ours@,
                head_before,
                commits,
                writes: writes.deep_view(),
            },
        }
    }
}

/// What a transaction without operations has to commit: options, if any. The
/// head is written again as it is, so that a commit which drops an option's
/// scope meanwhile is noticed.
pub open spec fn options_prepared(base: CatalogModel, state: CatalogModel) -> PreparedModel {
    let head = base.snapshot.snapshot_id;
    let writes = overwrite_diff::<OptionScopeValue>(base.options, state.options);
    if writes.len() == 0 {
        PreparedModel::Nothing { head }
    } else {
        PreparedModel::Staged {
            ours: no_changes(),
            head_before: head,
            commits: head,
            writes: writes.push(
                (
                    KeyModel::Sys(SysKey::Head),
                    Some(StoredModel::Head(HeadModel { snapshot_id: head })),
                ),
            ),
        }
    }
}

/// What a transaction has to commit: the diff of its working state, the layout
/// where it must go up, the index entries, the snapshot and the head.
pub open spec fn prepared(
    base: CatalogModel,
    ops: Seq<OperationModel>,
    entries: Seq<IndexEntryModel>,
    state: CatalogModel,
    next_catalog_id: u64,
    next_file_id: u64,
    stored: Option<FormatModel>,
    held: Map<(u64, Seq<u8>), Seq<u8>>,
    time: i64,
    writer_version: Seq<char>,
) -> Result<PreparedModel, Fault> {
    let head = base.snapshot.snapshot_id;
    let new_id = (head + 1) as u64;
    if ops.len() == 0 {
        Ok(options_prepared(base, state))
    } else {
        match entry_writes(entries, held) {
            Err(f) => Err(f),
            Ok(index) => Ok(
                PreparedModel::Staged {
                    ours: changes_of(ops),
                    head_before: head,
                    commits: new_id,
                    writes: diff(base, state, new_id) + format_writes(
                        state,
                        stored,
                        writer_version,
                    ) + index + seq![
                        (
                            KeyModel::Snapshot { snapshot_id: new_id },
                            Some(
                                StoredModel::Snapshot(
                                    minted(base, ops, next_catalog_id, next_file_id, time),
                                ),
                            ),
                        ),
                        (
                            KeyModel::Sys(SysKey::Head),
                            Some(StoredModel::Head(HeadModel { snapshot_id: new_id })),
                        ),
                    ],
                },
            ),
        }
    }
}

fn prepare_options(base: &CatalogSnapshot, state: &CatalogSnapshot) -> (p: Prepared)
    ensures
        p@ == options_prepared(base@, state@),
{
    let head = base.snapshot.snapshot_id;
    let mut writes: Vec<StagedWrite> = Vec::new();
    let ghost all = overwrite_diff::<OptionScopeValue>(base@.options, state@.options);
    diff_options(&mut writes, base, state);
    assert(writes.deep_view() =~= all);
    assert(writes.deep_view().len() == writes@.len());
    if writes.len() == 0 {
        return Prepared::Nothing { head };
    }
    writes.push((Key::Sys(SysKey::Head), Some(Stored::Head(HeadValue { snapshot_id: head }))));
    assert(writes.deep_view() =~= all.push(
        (
            KeyModel::Sys(SysKey::Head),
            Some(StoredModel::Head(HeadModel { snapshot_id: head })),
        ),
    ));
    Prepared::Staged { ours: ChangeSet::default(), head_before: head, commits: head, writes }
}

/// Prepares the batch of a transaction: given the catalog it was based on, its
/// parts, and what the store holds of the format and of unique index values.
pub fn prepare(
    base: &CatalogSnapshot,
    ops: &Vec<Operation>,
    entries: &Vec<StagedIndexEntry>,
    state: &CatalogSnapshot,
    next_catalog_id: u64,
    next_file_id: u64,
    stored: &Option<FormatValue>,
    held: &HeldEntries,
    time: i64,
    writer_version: &str,
) -> (r: Result<Prepared, Error>)
    requires
        ops@.len() > 0 ==> base@.snapshot.snapshot_id < u64::MAX,
        any_shape(ops.deep_view()) ==> base@.snapshot.schema_version < u64::MAX,
    ensures
        match prepared(
            base@,
            ops.deep_view(),
            entries.deep_view(),
            state@,
            next_catalog_id,
            next_file_id,
            stored.deep_view(),
            held@,
            time,
            writer_version@,
        ) {
            Err(f) => refused(r, f),
            Ok(p) => r is Ok && r->Ok_0@ == p,
        },
{
    let head = base.snapshot.snapshot_id;
    assert(ops.deep_view().len() == ops@.len());
    if ops.len() == 0 {
        return Ok(prepare_options(base, state));
    }
    let new_id = head + 1;
    let mut writes = diff_writes(base, state, new_id);
    let ghost w0 = writes.deep_view();
    let format = target_format(state);
    let current = match stored {
        Some(f) => f.format_version,
        None => FORMAT_VERSION,
    };
    if format > FORMAT_VERSION && current < format {
        writes.push(
            (
                Key::Sys(SysKey::Format),
                Some(
                    Stored::Format(
                        FormatValue {
                            format_version: format,
                            writer_version: writer_version.to_owned(),
                        },
                    ),
                ),
            ),
        );
    }
    let ghost fw = format_writes(state@, stored.deep_view(), writer_version@);
    assert(writes.deep_view() =~= w0 + fw);
    match stage_index_entries(held, entries, &mut writes) {
        Err(e) => return Err(e),
        Ok(()) => {},
    }
    let ghost w1 = writes.deep_view();
    let shape = changes_any_shape(ops);
    let ids = collect_reshaped(ops);
    let ours = ChangeSet::from_operations(ops.as_slice());
    let schema_version = if shape {
        base.snapshot.schema_version + 1
    } else {
        base.snapshot.schema_version
    };
    let snapshot = SnapshotValue {
        snapshot_id: new_id,
        snapshot_time_micros: time,
        schema_version,
        next_catalog_id,
        next_file_id,
        next_deletion_id: 0,
        changes_made: ours.to_changes_made(),
        author: None,
        commit_message: None,
        commit_extra_info: None,
        schema_changed_table_ids: ids.items().dup(),
    };
    let ghost s = snapshot@;
    assert(s =~= minted(base@, ops.deep_view(), next_catalog_id, next_file_id, time));
    writes.push((Key::Snapshot { snapshot_id: new_id }, Some(Stored::Snapshot(snapshot))));
    writes.push((Key::Sys(SysKey::Head), Some(Stored::Head(HeadValue { snapshot_id: new_id }))));
    assert(writes.deep_view() =~= w1 + seq![
        (KeyModel::Snapshot { snapshot_id: new_id }, Some(StoredModel::Snapshot(s))),
        (
            KeyModel::Sys(SysKey::Head),
            Some(StoredModel::Head(HeadModel { snapshot_id: new_id })),
        ),
    ]);
    Ok(Prepared::Staged { ours, head_before: head, commits: new_id, writes })
}

/// A commit never lowers the layout of a store: where it writes one, it is the
/// layout that its state needs, and above the one before.
pub proof fn formats_only_go_up(
    m: CatalogModel,
    stored: Option<FormatModel>,
    writer_version: Seq<char>,
)
    ensures
        format_writes(m, stored, writer_version).len() <= 1,
        format_writes(m, stored, writer_version).len() == 1 ==> {
            &&& format_writes(m, stored, writer_version)[0] == (
                KeyModel::Sys(SysKey::Format),
                Some(
                    StoredModel::Format(
                        FormatModel { format_version: format_for(m), writer_version },
                    ),
                ),
            )
            &&& stored is Some ==> stored->0.format_version < format_for(m)
        },
        FORMAT_VERSION <= format_for(m) <= MAX_FORMAT_VERSION,
{
}

// ---------------------------------------------------------------------------
// Lost races
// ---------------------------------------------------------------------------

/// What a commit changed, by its snapshot's record. One whose record is gone
/// may have changed anything.
pub open spec fn changes_by(snapshot: Option<SnapshotModel>) -> ChangeModel {
    match snapshot {
        Some(s) => parsed(s.changes_made),
        None => ChangeModel { has_unknown: true, ..no_changes() },
    }
}

/// What the commits above a head changed, in order.
pub open spec fn changes_above(
    head_before: u64,
    head: u64,
    records: Map<u64, SnapshotModel>,
) -> Seq<(u64, ChangeModel)> {
    Seq::new(
        if head > head_before {
            (head - head_before) as nat
        } else {
            0
        },
        |i: int|
            (
                (head_before + 1 + i) as u64,
                changes_by(
                    if records.contains_key((head_before + 1 + i) as u64) {
                        Some(records[(head_before + 1 + i) as u64])
                    } else {
                        None
                    },
                ),
            ),
    )
}

fn read_changes(snapshot: Option<&SnapshotValue>) -> (c: ChangeSet)
    ensures
        c@ == changes_by(
            match snapshot {
                Some(s) => Some(s@),
                None => None,
            },
        ),
{
    match snapshot {
        Some(s) => ChangeSet::parse(s.changes_made.as_str()),
        None => {
            let mut c = ChangeSet::default();
            c.has_unknown = true;
            c
        },
    }
}

/// What the commits above a head changed, given the head now and the records
/// of the snapshots that are still there.
pub fn intervening_changes(
    head_before: u64,
    head: &Option<HeadValue>,
    records: &OrdMap<u64, SnapshotValue>,
) -> (r: Result<Vec<(u64, ChangeSet)>, Error>)
    ensures
        match head {
            None => refused(r, no_head()),
            Some(h) => r is Ok && r->Ok_0@.len() == changes_above(
                head_before,
                h@.snapshot_id,
                records@,
            ).len() && forall|i: int|
                0 <= i < r->Ok_0@.len() ==> ((#[trigger] r->Ok_0@[i]).0, r->Ok_0@[i].1@)
                    == changes_above(head_before, h@.snapshot_id, records@)[i],
        },
{
    let head_now = match head {
        None => return Err(no_head_error()),
        Some(h) => h.snapshot_id,
    };
    let ghost all = changes_above(head_before, head_now, records@);
    let mut changes: Vec<(u64, ChangeSet)> = Vec::new();
    let mut id: u64 = head_before;
    while id < head_now
        invariant
            head_before <= id,
            head_before <= head_now ==> id <= head_now,
            head_before > head_now ==> id == head_before,
            all == changes_above(head_before, head_now, records@),
            changes@.len() == id - head_before,
            forall|i: int|
                0 <= i < changes@.len() ==> ((#[trigger] changes@[i]).0, changes@[i].1@) == all[i],
        decreases head_now - id,
    {
        id = id + 1;
        let change = read_changes(records.get(&id));
        changes.push((id, change));
    }
    Ok(changes)
}

/// The first of some commits that conflicts with ours.
pub open spec fn first_conflict(
    ours: ChangeModel,
    theirs: Seq<(u64, ChangeModel)>,
    from: int,
) -> Option<u64>
    decreases theirs.len() - from,
{
    if from >= theirs.len() {
        None
    } else if conflicting(ours, theirs[from].1) {
        Some(theirs[from].0)
    } else {
        first_conflict(ours, theirs, from + 1)
    }
}

/// The model of the commits above a head.
pub open spec fn change_models(theirs: Seq<(u64, ChangeSet)>) -> Seq<(u64, ChangeModel)> {
    Seq::new(theirs.len(), |i: int| (theirs[i].0, theirs[i].1@))
}

/// Whether a commit that lost a race has to be held against those that came
/// first: one that sets options alone has not, since the last one counts.
pub fn must_compare(ours: &ChangeSet) -> (b: bool)
    ensures
        b == (ours@ != no_changes()),
{
    !ours.is_empty()
}

/// Whether a commit that lost a race may be tried again: one that sets options
/// alone always, another unless a commit that came first conflicts with it.
pub fn resolve_lost_race(ours: &ChangeSet, theirs: &Vec<(u64, ChangeSet)>) -> (r: Result<(), Error>)
    ensures
        if ours@ == no_changes() {
            r is Ok
        } else {
            match first_conflict(ours@, change_models(theirs@), 0) {
                Some(id) => refused(
                    r,
                    Fault::CommitConflict(
                        around("concurrent commit "@, id, " touched the same state"@),
                    ),
                ),
                None => r is Ok,
            }
        },
{
    if !must_compare(ours) {
        return Ok(());
    }
    let ghost q = change_models(theirs@);
    let mut i: usize = 0;
    while i < theirs.len()
        invariant
            i <= theirs@.len(),
            q == change_models(theirs@),
            ours@ != no_changes(),
            first_conflict(ours@, q, 0) == first_conflict(ours@, q, i as int),
        decreases theirs.len() - i,
    {
        if conflicts(ours, &theirs[i].1) {
            return Err(
                Error::CommitConflict(
                    text_around("concurrent commit ", theirs[i].0, " touched the same state"),
                ),
            );
        }
        i = i + 1;
    }
    Ok(())
}

/// The attempts of one commit.
#[derive(Debug, Clone, Copy, PartialEq, Eq, Structural)]
pub struct CommitCycle {
    /// How many attempts were made.
    pub attempts: usize,
}

pub open spec fn attempts_spent() -> Fault {
    Fault::CommitConflict(
        around("retry budget exhausted after "@, MAX_COMMIT_ATTEMPTS as u64, " attempts"@),
    )
}

impl CommitCycle {
    pub fn new() -> (c: Self)
        ensures
            c.attempts == 0,
    {
        CommitCycle { attempts: 0 }
    }

    /// Takes one more attempt, unless they are spent.
    pub fn next_attempt(&mut self) -> (r: Result<(), Error>)
        ensures
            if old(self).attempts < MAX_COMMIT_ATTEMPTS {
                r is Ok && final(self).attempts == old(self).attempts + 1
            } else {
                refused(r, attempts_spent()) && *final(self) == *old(self)
            },
    {
        if self.attempts < MAX_COMMIT_ATTEMPTS {
            self.attempts = self.attempts + 1;
            Ok(())
        } else {
            Err(
                Error::CommitConflict(
                    text_around(
                        "retry budget exhausted after ",
                        MAX_COMMIT_ATTEMPTS as u64,
                        " attempts",
                    ),
                ),
            )
        }
    }
}

} // verus!
