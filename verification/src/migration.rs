//! Structural migrations: which units carry a store from its layout to a newer
//! one, and the batches by which one unit runs. A unit starts by planting a
//! marker, moves its records in resumable steps, and ends with one batch that
//! stamps the new layout and takes the marker away.
use crate::bytes::{decode_row_id, encode_row_id, row_id_bytes, row_id_reads_back, spelled};
use crate::catalog::{CatalogModel, CatalogSnapshot};
use crate::commit::{FORMAT_VERSION, MAX_FORMAT_VERSION};
use crate::error::{around_two, refused, text_around_two, Error, Fault};
use crate::fold::with_writes;
use crate::keys::{
    after, current_key, EntityKey, Key, KeyModel, StagedWrite, Stored, StoredModel, SysKey,
    WriteModel,
};
use crate::ordered::Record;
use crate::records::{
    FormatModel, FormatValue, MigrationModel, MigrationValue, OptionScopeModel,
};
use crate::scoped::scope;
use vstd::prelude::*;

verus! {

/// The oldest layout that is read without a migration.
pub const MIN_FORMAT_VERSION: u64 = FORMAT_VERSION;

/// The scope kind that records move from: the options of schemas.
pub const SOURCE_SCOPE: u64 = 1;

/// The scope kind that records move to: the options of tables.
pub const TARGET_SCOPE: u64 = 2;

/// What a unit does to the records of a store.
#[derive(Debug, Clone, Copy, PartialEq, Eq, Structural)]
pub enum Rewrite {
    /// Moves the option records of one scope kind to another.
    MoveOptionScope,
    /// Nothing.
    NoWork,
}

/// One link of a migration.
#[derive(Debug, Clone, Copy)]
pub struct MigrationUnit {
    pub name: &'static str,
    pub from_format: u64,
    pub to_format: u64,
    pub rewrite: Rewrite,
}

/// The units that carry a store to the newest layout. Every layout so far only
/// adds to the one before it, so there are none.
pub const MIGRATIONS: [MigrationUnit; 0] = [];

/// The unit that moves option records between scope kinds.
pub fn move_scope_unit() -> (u: MigrationUnit)
    ensures
        u == (MigrationUnit {
            name: "move-option-scope",
            from_format: FORMAT_VERSION,
            to_format: MAX_FORMAT_VERSION,
            rewrite: Rewrite::MoveOptionScope,
        }),
{
    MigrationUnit {
        name: "move-option-scope",
        from_format: FORMAT_VERSION,
        to_format: MAX_FORMAT_VERSION,
        rewrite: Rewrite::MoveOptionScope,
    }
}

/// A unit without work, past the newest layout that is read.
pub fn second_link_unit() -> (u: MigrationUnit)
    ensures
        u == (MigrationUnit {
            name: "second-link",
            from_format: MAX_FORMAT_VERSION,
            to_format: (MAX_FORMAT_VERSION + 1) as u64,
            rewrite: Rewrite::NoWork,
        }),
{
    MigrationUnit {
        name: "second-link",
        from_format: MAX_FORMAT_VERSION,
        to_format: MAX_FORMAT_VERSION + 1,
        rewrite: Rewrite::NoWork,
    }
}

// ---------------------------------------------------------------------------
// Planning
// ---------------------------------------------------------------------------

/// Whether every unit moves a store forward.
pub open spec fn go_forward(units: Seq<MigrationUnit>) -> bool {
    forall|i: int| 0 <= i < units.len() ==> (#[trigger] units[i]).from_format < units[i].to_format
}

/// The first unit from `i` on that reads a layout.
pub open spec fn unit_from(units: Seq<MigrationUnit>, format: u64, i: int) -> Option<MigrationUnit>
    decreases units.len() - i,
{
    if i < 0 || i >= units.len() {
        None
    } else if units[i].from_format == format {
        Some(units[i])
    } else {
        unit_from(units, format, i + 1)
    }
}

proof fn unit_goes_forward(units: Seq<MigrationUnit>, format: u64, i: int)
    requires
        go_forward(units),
        unit_from(units, format, i) is Some,
    ensures
        format < unit_from(units, format, i)->0.to_format,
    decreases units.len() - i,
{
    if units[i].from_format != format {
        unit_goes_forward(units, format, i + 1);
    }
}

/// The units that carry a store on from a layout, each from where the one
/// before it ends.
pub open spec fn chain(units: Seq<MigrationUnit>, format: u64) -> Seq<MigrationUnit>
    decreases u64::MAX - format,
{
    match unit_from(units, format, 0) {
        None => Seq::empty(),
        Some(u) => if u.to_format > format {
            seq![u] + chain(units, u.to_format)
        } else {
            Seq::empty()
        },
    }
}

fn find_unit(units: &[MigrationUnit], format: u64) -> (u: Option<MigrationUnit>)
    ensures
        u == unit_from(units@, format, 0),
{
    let mut i: usize = 0;
    while i < units.len()
        invariant
            i <= units@.len(),
            unit_from(units@, format, 0) == unit_from(units@, format, i as int),
        decreases units.len() - i,
    {
        if units[i].from_format == format {
            return Some(units[i]);
        }
        i = i + 1;
    }
    None
}

/// Gives the units that carry a store on from a layout.
pub fn chain_from(units: &[MigrationUnit], format: u64) -> (c: Vec<MigrationUnit>)
    requires
        go_forward(units@),
    ensures
        c@ == chain(units@, format),
{
    let mut c: Vec<MigrationUnit> = Vec::new();
    let mut at: u64 = format;
    let mut next = find_unit(units, at);
    proof {
        assert(c@ + chain(units@, at) =~= chain(units@, format));
    }
    while next.is_some()
        invariant
            go_forward(units@),
            next == unit_from(units@, at, 0),
            c@ + chain(units@, at) == chain(units@, format),
        decreases u64::MAX - at,
    {
        match next {
            Some(u) => {
                proof {
                    unit_goes_forward(units@, at, 0);
                    assert(c@.push(u) + chain(units@, u.to_format) =~= c@ + chain(units@, at));
                }
                c.push(u);
                at = u.to_format;
                next = find_unit(units, at);
            },
            None => {},
        }
    }
    assert(c@ =~= chain(units@, format));
    c
}

/// What is left of a migration.
pub struct Plan {
    pub units: Vec<MigrationUnit>,
    /// Where the first unit goes on, if it has been started.
    pub resume: Option<Vec<u8>>,
}

/// A marker that the stamp contradicts: no batch of a migration leaves one.
pub open spec fn contradicted(format: u64, marker: MigrationModel) -> Fault {
    Fault::Corruption(
        around_two(
            "migration marker starts at format "@,
            marker.from_format,
            " but the store is stamped "@,
            format,
            ""@,
        ),
    )
}

/// A migration in flight that no unit carries on.
pub open spec fn unknown_migration(marker: MigrationModel) -> Fault {
    Fault::Migration(
        around_two(
            "no unit carries on a migration from format "@,
            marker.from_format,
            " to format "@,
            marker.to_format,
            ""@,
        ),
    )
}

/// The plan for a store, by its stamp and the marker it holds.
pub open spec fn planned(
    units: Seq<MigrationUnit>,
    format: u64,
    marker: Option<MigrationModel>,
) -> Result<(Seq<MigrationUnit>, Option<Seq<u8>>), Fault> {
    let left = chain(units, format);
    match marker {
        None => Ok((left, None)),
        Some(m) => if m.from_format != format {
            Err(contradicted(format, m))
        } else if left.len() == 0 || left[0].to_format != m.to_format {
            Err(unknown_migration(m))
        } else {
            Ok((left, Some(m.cursor)))
        },
    }
}

/// Plans what is left of a migration. A unit that was started must be carried
/// on by the same unit.
pub fn plan(units: &[MigrationUnit], format: u64, marker: Option<&MigrationValue>) -> (r: Result<
    Plan,
    Error,
>)
    requires
        go_forward(units@),
    ensures
        match planned(
            units@,
            format,
            match marker {
                None => None,
                Some(m) => Some(m@),
            },
        ) {
            Err(f) => refused(r, f),
            Ok(p) => r is Ok && r->Ok_0.units@ == p.0 && r->Ok_0.resume.deep_view() == p.1,
        },
{
    let left = chain_from(units, format);
    match marker {
        None => Ok(Plan { units: left, resume: None }),
        Some(m) => {
            if m.from_format != format {
                return Err(
                    Error::Corruption(
                        text_around_two(
                            "migration marker starts at format ",
                            m.from_format,
                            " but the store is stamped ",
                            format,
                            "",
                        ),
                    ),
                );
            }
            if left.len() == 0 || left[0].to_format != m.to_format {
                return Err(
                    Error::Migration(
                        text_around_two(
                            "no unit carries on a migration from format ",
                            m.from_format,
                            " to format ",
                            m.to_format,
                            "",
                        ),
                    ),
                );
            }
            Ok(Plan { units: left, resume: Some(m.cursor.dup()) })
        },
    }
}

/// A store at the last layout of its units has nothing left to do, and says so
/// again however often it is asked.
pub proof fn migrated_store_needs_no_plan(units: Seq<MigrationUnit>, format: u64)
    requires
        unit_from(units, format, 0) is None,
    ensures
        planned(units, format, None) == Ok::<(Seq<MigrationUnit>, Option<Seq<u8>>), Fault>(
            (Seq::empty(), None),
        ),
{
}

/// The units of a plan are links of one chain: the first reads the layout of
/// the store, and each other one the layout that the one before it writes.
pub proof fn plans_are_chains(units: Seq<MigrationUnit>, format: u64, i: int)
    requires
        go_forward(units),
        0 <= i < chain(units, format).len(),
    ensures
        chain(units, format)[i].from_format == (if i == 0 {
            format
        } else {
            chain(units, format)[i - 1].to_format
        }),
    decreases u64::MAX - format,
{
    unit_goes_forward(units, format, 0);
    let u = unit_from(units, format, 0)->0;
    unit_reads(units, format, 0);
    if i > 0 {
        plans_are_chains(units, u.to_format, i - 1);
        assert(chain(units, format)[i] == chain(units, u.to_format)[i - 1]);
        if i > 1 {
            assert(chain(units, format)[i - 1] == chain(units, u.to_format)[i - 2]);
        }
    }
}

proof fn unit_reads(units: Seq<MigrationUnit>, format: u64, i: int)
    requires
        unit_from(units, format, i) is Some,
    ensures
        unit_from(units, format, i)->0.from_format == format,
    decreases units.len() - i,
{
    if units[i].from_format != format {
        unit_reads(units, format, i + 1);
    }
}

// ---------------------------------------------------------------------------
// Steps
// ---------------------------------------------------------------------------

/// The scope id that a cursor names: none at the start of a walk.
pub open spec fn cursor_target(cursor: Seq<u8>) -> Result<Option<u64>, Fault> {
    if cursor.len() == 0 {
        Ok(None)
    } else if cursor.len() == 8 {
        Ok(Some(spelled(cursor) as u64))
    } else {
        Err(Fault::Corruption("migration cursor is not a scope id"@))
    }
}

/// Reads a cursor.
pub fn decode_cursor(cursor: &Vec<u8>) -> (r: Result<Option<u64>, Error>)
    ensures
        match cursor_target(cursor.deep_view()) {
            Err(f) => refused(r, f),
            Ok(target) => r == Ok::<Option<u64>, Error>(target),
        },
{
    assert(cursor.deep_view().len() == cursor@.len());
    if cursor.len() == 0 {
        return Ok(None);
    }
    if cursor.len() != 8 {
        return Err(Error::Corruption("migration cursor is not a scope id".to_owned()));
    }
    match decode_row_id(cursor) {
        Err(e) => Err(e),
        Ok(id) => Ok(Some(id)),
    }
}

/// A cursor that was written is read back.
pub proof fn cursor_reads_back(scope_id: u64)
    ensures
        cursor_target(row_id_bytes(scope_id)) == Ok::<Option<u64>, Fault>(Some(scope_id)),
{
    row_id_reads_back(scope_id);
}

/// Whether a scope id lies past a cursor.
pub open spec fn is_past(start: Option<u64>, id: u64) -> bool {
    start is None || id > start->0
}

/// Whether `found` is the first record under the source scope past a cursor.
pub open spec fn is_next_source(
    options: Map<(u64, u64), OptionScopeModel>,
    start: Option<u64>,
    found: Option<u64>,
) -> bool {
    match found {
        None => forall|id: u64|
            is_past(start, id) ==> !#[trigger] options.contains_key((SOURCE_SCOPE, id)),
        Some(id) => options.contains_key((SOURCE_SCOPE, id)) && is_past(start, id) && forall|
            other: u64,
        |
            is_past(start, other) && #[trigger] options.contains_key((SOURCE_SCOPE, other)) ==> id
                <= other,
    }
}

/// The first record under the source scope past a cursor. Records that were
/// moved are not under it, so that a step which was applied does nothing when
/// it runs again.
pub fn next_source_record(state: &CatalogSnapshot, start: Option<u64>) -> (found: Option<u64>)
    ensures
        is_next_source(state@.options, start, found),
{
    let ids = state.options.in_scope(SOURCE_SCOPE);
    let items = ids.items();
    let ghost q = items.deep_view();
    let ghost s = scope(state@.options, SOURCE_SCOPE);
    let mut i: usize = 0;
    while i < items.len()
        invariant
            i <= items@.len(),
            q == items.deep_view(),
            s == scope(state@.options, SOURCE_SCOPE),
            q.to_set() == s,
            crate::ordered::ascends::<u64>(q),
            forall|j: int| 0 <= j < i ==> !is_past(start, #[trigger] q[j]),
        decreases items.len() - i,
    {
        let id: u64 = items[i];
        let past = match start {
            None => true,
            Some(at) => id > at,
        };
        if past {
            proof {
                assert(q.to_set().contains(q[i as int]));
                assert forall|other: u64|
                    is_past(start, other) && #[trigger] state@.options.contains_key(
                        (SOURCE_SCOPE, other),
                    ) implies id <= other by {
                    assert(s.contains(other));
                    let j = choose|j: int| 0 <= j < q.len() && q[j] == other;
                    if j < i {
                        assert(!is_past(start, q[j]));
                    }
                }
            }
            return Some(id);
        }
        i = i + 1;
    }
    proof {
        assert forall|id: u64| is_past(start, id) implies !#[trigger] state@.options.contains_key(
            (SOURCE_SCOPE, id),
        ) by {
            if state@.options.contains_key((SOURCE_SCOPE, id)) {
                assert(s.contains(id));
                let j = choose|j: int| 0 <= j < q.len() && q[j] == id;
                assert(!is_past(start, q[j]));
            }
        }
    }
    None
}

/// The options with one record moved.
pub open spec fn moved(options: Map<(u64, u64), OptionScopeModel>, id: u64) -> Map<
    (u64, u64),
    OptionScopeModel,
> {
    options.insert((TARGET_SCOPE, id), options[(SOURCE_SCOPE, id)]).remove((SOURCE_SCOPE, id))
}

/// The batch that moves one record: the new key, then the old one.
pub open spec fn move_writes(options: Map<(u64, u64), OptionScopeModel>, id: u64) -> Seq<WriteModel> {
    seq![
        (
            current_key(EntityKey::OptionScope { scope_kind: TARGET_SCOPE, scope_id: id }),
            Some(StoredModel::OptionScope(options[(SOURCE_SCOPE, id)])),
        ),
        (
            current_key(EntityKey::OptionScope { scope_kind: SOURCE_SCOPE, scope_id: id }),
            None,
        ),
    ]
}

/// A step: its batch, and the cursor behind it.
pub struct Step {
    pub writes: Vec<StagedWrite>,
    pub cursor: Vec<u8>,
}

/// Runs one step of a unit from a cursor: moves the next record, if one is
/// left.
pub fn run_step(unit: &MigrationUnit, state: &CatalogSnapshot, cursor: &Vec<u8>) -> (r: Result<
    Option<Step>,
    Error,
>)
    ensures
        match unit.rewrite {
            Rewrite::NoWork => r is Ok && r->Ok_0 is None,
            Rewrite::MoveOptionScope => match cursor_target(cursor.deep_view()) {
                Err(f) => refused(r, f),
                Ok(start) => r is Ok && match r->Ok_0 {
                    None => is_next_source(state@.options, start, None),
                    Some(step) => exists|id: u64| #[trigger]
                        is_next_source(state@.options, start, Some(id)) && step.writes.deep_view()
                            == move_writes(state@.options, id) && step.cursor.deep_view()
                            == row_id_bytes(id),
                },
            },
        },
{
    match unit.rewrite {
        Rewrite::NoWork => Ok(None),
        Rewrite::MoveOptionScope => move_scope_step(state, cursor),
    }
}

/// Moves the next option record past a cursor.
pub fn move_scope_step(state: &CatalogSnapshot, cursor: &Vec<u8>) -> (r: Result<Option<Step>, Error>)
    ensures
        match cursor_target(cursor.deep_view()) {
            Err(f) => refused(r, f),
            Ok(start) => r is Ok && match r->Ok_0 {
                None => is_next_source(state@.options, start, None),
                Some(step) => exists|id: u64| #[trigger]
                    is_next_source(state@.options, start, Some(id)) && step.writes.deep_view()
                        == move_writes(state@.options, id) && step.cursor.deep_view()
                        == row_id_bytes(id),
            },
        },
{
    let start = match decode_cursor(cursor) {
        Err(e) => return Err(e),
        Ok(start) => start,
    };
    let id = match next_source_record(state, start) {
        None => return Ok(None),
        Some(id) => id,
    };
    let mut writes: Vec<StagedWrite> = Vec::new();
    match state.options.get(&(SOURCE_SCOPE, id)) {
        None => {},
        Some(v) => {
            writes.push(
                (
                    Key::current(
                        EntityKey::OptionScope { scope_kind: TARGET_SCOPE, scope_id: id },
                    ),
                    Some(Stored::OptionScope(v.dup())),
                ),
            );
        },
    }
    writes.push(
        (Key::current(EntityKey::OptionScope { scope_kind: SOURCE_SCOPE, scope_id: id }), None),
    );
    assert(writes.deep_view() =~= move_writes(state@.options, id));
    Ok(Some(Step { writes, cursor: encode_row_id(id) }))
}

/// A step's batch moves its record and leaves everything else as it is.
pub proof fn steps_move_one_record(m: CatalogModel, id: u64)
    requires
        m.options.contains_key((SOURCE_SCOPE, id)),
    ensures
        with_writes(m, move_writes(m.options, id)) == Ok::<CatalogModel, Fault>(
            CatalogModel { options: moved(m.options, id), ..m },
        ),
        moved(m.options, id)[(TARGET_SCOPE, id)] == m.options[(SOURCE_SCOPE, id)],
        !moved(m.options, id).contains_key((SOURCE_SCOPE, id)),
        forall|key: (u64, u64)|
            key != (TARGET_SCOPE, id) && key != (SOURCE_SCOPE, id) ==> (#[trigger] moved(
                m.options,
                id,
            ).contains_key(key) <==> m.options.contains_key(key)) && moved(m.options, id)[key]
                == m.options[key],
{
    let w = move_writes(m.options, id);
    reveal_with_fuel(with_writes, 3);
    assert(w.drop_last() =~= seq![w[0]]);
    assert(w.drop_last().drop_last() =~= Seq::<WriteModel>::empty());
}

/// A walk ends with no record left under the source scope: where none lies at
/// or below the cursor, none does below the next one either, and the walk stops
/// only where none is left at all.
pub proof fn walks_leave_no_source(
    options: Map<(u64, u64), OptionScopeModel>,
    start: Option<u64>,
    found: Option<u64>,
)
    requires
        forall|id: u64| #[trigger] options.contains_key((SOURCE_SCOPE, id)) ==> is_past(start, id),
        is_next_source(options, start, found),
    ensures
        match found {
            None => forall|id: u64| !#[trigger] options.contains_key((SOURCE_SCOPE, id)),
            Some(at) => forall|id: u64| #[trigger]
                moved(options, at).contains_key((SOURCE_SCOPE, id)) ==> is_past(Some(at), id),
        },
{
    match found {
        None => {},
        Some(at) => {
            assert forall|id: u64| #[trigger]
                moved(options, at).contains_key((SOURCE_SCOPE, id)) implies is_past(Some(at), id) by {
                assert(options.contains_key((SOURCE_SCOPE, id)));
            }
        },
    }
}

// ---------------------------------------------------------------------------
// Batches
// ---------------------------------------------------------------------------

/// The marker of a unit at a cursor.
pub open spec fn marker_write(unit: MigrationUnit, cursor: Seq<u8>) -> WriteModel {
    (
        KeyModel::Sys(SysKey::Migration),
        Some(
            StoredModel::Migration(
                MigrationModel {
                    from_format: unit.from_format,
                    to_format: unit.to_format,
                    cursor,
                },
            ),
        ),
    )
}

/// Plants a unit's marker, or moves it to another cursor.
pub fn mark(unit: &MigrationUnit, cursor: &Vec<u8>) -> (write: StagedWrite)
    ensures
        write.deep_view() == marker_write(*unit, cursor.deep_view()),
{
    (
        Key::Sys(SysKey::Migration),
        Some(
            Stored::Migration(
                MigrationValue {
                    from_format: unit.from_format,
                    to_format: unit.to_format,
                    cursor: cursor.dup(),
                },
            ),
        ),
    )
}

/// The last batch of a unit: the new stamp, and no marker.
pub open spec fn finish_writes(unit: MigrationUnit, writer_version: Seq<char>) -> Seq<WriteModel> {
    seq![
        (
            KeyModel::Sys(SysKey::Format),
            Some(
                StoredModel::Format(
                    FormatModel { format_version: unit.to_format, writer_version },
                ),
            ),
        ),
        (KeyModel::Sys(SysKey::Migration), None),
    ]
}

/// Ends a unit.
pub fn finish(unit: &MigrationUnit, writer_version: &str) -> (writes: Vec<StagedWrite>)
    ensures
        writes.deep_view() == finish_writes(*unit, writer_version@),
{
    let mut writes: Vec<StagedWrite> = Vec::new();
    writes.push(
        (
            Key::Sys(SysKey::Format),
            Some(
                Stored::Format(
                    FormatValue {
                        format_version: unit.to_format,
                        writer_version: writer_version.to_owned(),
                    },
                ),
            ),
        ),
    );
    writes.push((Key::Sys(SysKey::Migration), None));
    assert(writes.deep_view() =~= finish_writes(*unit, writer_version@));
    writes
}

/// The stamp and the marker behind a batch.
pub open spec fn stamp_after(writes: Seq<WriteModel>, format: Option<StoredModel>) -> Option<
    StoredModel,
> {
    after(writes, KeyModel::Sys(SysKey::Format), format)
}

pub open spec fn marker_after(writes: Seq<WriteModel>, marker: Option<StoredModel>) -> Option<
    StoredModel,
> {
    after(writes, KeyModel::Sys(SysKey::Migration), marker)
}

/// The new layout never stands beside a marker: a batch that plants or moves
/// the marker leaves the stamp, and the one that changes the stamp takes the
/// marker away.
pub proof fn stamp_and_marker_change_together(
    unit: MigrationUnit,
    cursor: Seq<u8>,
    writer_version: Seq<char>,
    format: Option<StoredModel>,
    marker: Option<StoredModel>,
)
    ensures
        stamp_after(seq![marker_write(unit, cursor)], format) == format,
        marker_after(seq![marker_write(unit, cursor)], marker) == marker_write(unit, cursor).1,
        stamp_after(finish_writes(unit, writer_version), format) == Some(
            StoredModel::Format(FormatModel { format_version: unit.to_format, writer_version }),
        ),
        marker_after(finish_writes(unit, writer_version), marker) is None,
{
    reveal_with_fuel(after, 3);
    let a = seq![marker_write(unit, cursor)];
    assert(a.drop_last() =~= Seq::<WriteModel>::empty());
    let b = finish_writes(unit, writer_version);
    assert(b.drop_last() =~= seq![b[0]]);
    assert(b.drop_last().drop_last() =~= Seq::<WriteModel>::empty());
}

/// A migration that stopped between batches is carried on: the marker that a
/// unit of a chain plants is one that the plan takes up, at its cursor.
pub proof fn stopped_migrations_resume(units: Seq<MigrationUnit>, format: u64, cursor: Seq<u8>)
    requires
        chain(units, format).len() > 0,
    ensures
        ({
            let unit = chain(units, format)[0];
            planned(
                units,
                format,
                Some(
                    MigrationModel {
                        from_format: unit.from_format,
                        to_format: unit.to_format,
                        cursor,
                    },
                ),
            ) == Ok::<(Seq<MigrationUnit>, Option<Seq<u8>>), Fault>(
                (chain(units, format), Some(cursor)),
            )
        }),
{
    unit_reads(units, format, 0);
}

/// The marker of a migration tells what it goes from and to, and how far it is.
pub proof fn markers_tell_how_far(unit: MigrationUnit, cursor: Seq<u8>)
    ensures
        marker_write(unit, cursor).0 == KeyModel::Sys(SysKey::Migration),
        marker_write(unit, cursor).1 == Some(
            StoredModel::Migration(
                MigrationModel {
                    from_format: unit.from_format,
                    to_format: unit.to_format,
                    cursor,
                },
            ),
        ),
{
}

proof fn units_are_found(units: Seq<MigrationUnit>, format: u64, i: int)
    requires
        0 <= i,
    ensures
        match unit_from(units, format, i) {
            Some(u) => exists|k: int|
                i <= k < units.len() && (#[trigger] units[k]) == u && u.from_format == format
                    && forall|j: int| i <= j < k ==> (#[trigger] units[j]).from_format != format,
            None => forall|k: int|
                i <= k < units.len() ==> (#[trigger] units[k]).from_format != format,
        },
    decreases units.len() - i,
{
    if i < units.len() && units[i].from_format != format {
        units_are_found(units, format, i + 1);
    } else if i < units.len() {
        assert(units[i].from_format == format);
    }
}

/// A store of a format is migrated if and only if some unit goes from it, and by
/// the first that does; a marker must be of that unit, and is carried on from its
/// cursor.
pub proof fn plans_go_from_the_format(
    units: Seq<MigrationUnit>,
    format: u64,
    marker: Option<MigrationModel>,
)
    requires
        go_forward(units),
    ensures
        match planned(units, format, marker) {
            Ok((left, resume)) => {
                &&& left.len() == 0 <==> forall|k: int|
                    0 <= k < units.len() ==> (#[trigger] units[k]).from_format != format
                &&& left.len() > 0 ==> exists|k: int|
                    0 <= k < units.len() && (#[trigger] units[k]) == left[0] && left[0].from_format
                        == format && forall|j: int|
                        0 <= j < k ==> (#[trigger] units[j]).from_format != format
                &&& marker is None ==> resume is None
                &&& marker is Some ==> resume == Some(marker->0.cursor) && marker->0.from_format
                    == format && left.len() > 0 && left[0].to_format == marker->0.to_format
            },
            Err(Fault::Corruption(_)) => marker is Some && marker->0.from_format != format,
            Err(Fault::Migration(_)) => marker is Some && marker->0.from_format == format,
            Err(_) => false,
        },
{
    units_are_found(units, format, 0);
    if unit_from(units, format, 0) is Some {
        unit_goes_forward(units, format, 0);
    }
}

} // verus!
