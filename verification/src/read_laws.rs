//! What readers find: the records that live at a snapshot, the catalog that the
//! head leads to, and what is listed and looked up in it.
use crate::api::{
    ColumnId, ColumnInfoSpec, ColumnStatsSpec, DataFileId, DataFileInfoSpec, DeleteFileId,
    DeleteFileInfoSpec, OptionScope, SchemaId, TableId, TableInfoSpec, ViewId, ViewInfoSpec,
};
use crate::catalog::{
    capped, column_list, column_ranks, column_stats_found, data_files_listed, delete_files_listed,
    empty_catalog, lowest, option_for, record_total, schema_found, schemas_named, table_directory,
    tables_listed, tables_under, view_at, view_found, views_named, with_records, CatalogModel,
    EntityModel,
};
use crate::commit::{format_refusal, format_writes, materialized, read_target};
use crate::delta::recorded;
use crate::diff_laws::finite_state;
use crate::effect_laws::options_of;
use crate::error::Fault;
use crate::keys::{after, KeyModel, StoredModel, SysKey, WriteModel};
use crate::ordered::{ascending, ascending_is_unique, ascends, finite_sets_ascend};
use crate::records::{FormatModel, HeadModel, SnapshotModel};
use crate::refresh::{refresh_plan, RefreshPlan};
use crate::scoped::scope;
use vstd::prelude::*;

verus! {

// ---------------------------------------------------------------------------
// Records at a snapshot
// ---------------------------------------------------------------------------

/// Whether a version is there at a snapshot: from its begin on, up to but not at
/// its end. At no snapshot in particular every version is.
pub open spec fn there(begin: u64, end: Option<u64>, at: Option<u64>) -> bool {
    match at {
        None => true,
        Some(s) => begin <= s && (end is None || s < end->0),
    }
}

/// Whether a record shows a schema under a key.
pub open spec fn shows_schema(r: EntityModel, key: u64, at: Option<u64>) -> bool {
    match r {
        EntityModel::Schema(v) => v.schema_id == key && there(v.begin_snapshot, v.end_snapshot, at),
        _ => false,
    }
}

proof fn schema_records_show(
    m: CatalogModel,
    records: Seq<EntityModel>,
    at: Option<u64>,
    key: u64,
)
    ensures
        ({
            let all = with_records(m, records, at).schemas;
            let shown = exists|i: int|
                0 <= i < records.len() && shows_schema(#[trigger] records[i], key, at);
            &&& all.contains_key(key) <==> shown || m.schemas.contains_key(key)
            &&& shown ==> exists|i: int|
                0 <= i < records.len() && shows_schema(#[trigger] records[i], key, at) && all[key]
                    == records[i]->Schema_0
            &&& !shown && m.schemas.contains_key(key) ==> all[key] == m.schemas[key]
        }),
    decreases records.len(),
{
    if records.len() > 0 {
        let front = records.drop_last();
        let n = records.len() - 1;
        schema_records_show(m, front, at, key);
        assert(records[n] == records.last());
        assert forall|i: int| 0 <= i < front.len() implies #[trigger] front[i] == records[i] by {}
        if exists|i: int| 0 <= i < front.len() && shows_schema(#[trigger] front[i], key, at) {
            let i = choose|i: int|
                0 <= i < front.len() && shows_schema(#[trigger] front[i], key, at) && with_records(
                    m,
                    front,
                    at,
                ).schemas[key] == front[i]->Schema_0;
            assert(records[i] == front[i]);
        }
        if exists|i: int| 0 <= i < records.len() && shows_schema(#[trigger] records[i], key, at) {
            let i = choose|i: int|
                0 <= i < records.len() && shows_schema(#[trigger] records[i], key, at);
            if i < n {
                assert(front[i] == records[i]);
            }
        }
    }
}

/// A catalog that is read has a schema under a key if and only if a live record,
/// or at a snapshot a past one, shows it there; and has one that a record shows.
pub proof fn schemas_are_read(
    head: Option<HeadModel>,
    at: Option<u64>,
    snapshot: Option<SnapshotModel>,
    current: Seq<EntityModel>,
    history: Seq<EntityModel>,
    key: u64,
)
    requires
        materialized(head, at, snapshot, current, history) is Ok,
    ensures
        ({
            let m = materialized(head, at, snapshot, current, history)->Ok_0;
            let live = exists|i: int|
                0 <= i < current.len() && shows_schema(#[trigger] current[i], key, at);
            let past = at is Some && exists|i: int|
                0 <= i < history.len() && shows_schema(#[trigger] history[i], key, at);
            &&& m.schemas.contains_key(key) <==> live || past
            &&& live && !past ==> exists|i: int|
                0 <= i < current.len() && shows_schema(#[trigger] current[i], key, at) && m.schemas[key]
                    == current[i]->Schema_0
            &&& past ==> exists|i: int|
                0 <= i < history.len() && shows_schema(#[trigger] history[i], key, at) && m.schemas[key]
                    == history[i]->Schema_0
        }),
{
    let start = empty_catalog(snapshot->0);
    schema_records_show(start, current, at, key);
    let first = with_records(start, current, at);
    let none = Seq::<EntityModel>::empty();
    schema_records_show(first, history, at, key);
    schema_records_show(first, none, at, key);
}

/// Whether a record shows a table under a key.
pub open spec fn shows_table(r: EntityModel, key: u64, at: Option<u64>) -> bool {
    match r {
        EntityModel::Table(v) => v.table_id == key && there(v.begin_snapshot, v.end_snapshot, at),
        _ => false,
    }
}

proof fn table_records_show(
    m: CatalogModel,
    records: Seq<EntityModel>,
    at: Option<u64>,
    key: u64,
)
    ensures
        ({
            let all = with_records(m, records, at).tables;
            let shown = exists|i: int|
                0 <= i < records.len() && shows_table(#[trigger] records[i], key, at);
            &&& all.contains_key(key) <==> shown || m.tables.contains_key(key)
            &&& shown ==> exists|i: int|
                0 <= i < records.len() && shows_table(#[trigger] records[i], key, at) && all[key]
                    == records[i]->Table_0
            &&& !shown && m.tables.contains_key(key) ==> all[key] == m.tables[key]
        }),
    decreases records.len(),
{
    if records.len() > 0 {
        let front = records.drop_last();
        let n = records.len() - 1;
        table_records_show(m, front, at, key);
        assert(records[n] == records.last());
        assert forall|i: int| 0 <= i < front.len() implies #[trigger] front[i] == records[i] by {}
        if exists|i: int| 0 <= i < front.len() && shows_table(#[trigger] front[i], key, at) {
            let i = choose|i: int|
                0 <= i < front.len() && shows_table(#[trigger] front[i], key, at) && with_records(
                    m,
                    front,
                    at,
                ).tables[key] == front[i]->Table_0;
            assert(records[i] == front[i]);
        }
        if exists|i: int| 0 <= i < records.len() && shows_table(#[trigger] records[i], key, at) {
            let i = choose|i: int|
                0 <= i < records.len() && shows_table(#[trigger] records[i], key, at);
            if i < n {
                assert(front[i] == records[i]);
            }
        }
    }
}

/// A catalog that is read has a table under a key if and only if a live record,
/// or at a snapshot a past one, shows it there; and has one that a record shows.
pub proof fn tables_are_read(
    head: Option<HeadModel>,
    at: Option<u64>,
    snapshot: Option<SnapshotModel>,
    current: Seq<EntityModel>,
    history: Seq<EntityModel>,
    key: u64,
)
    requires
        materialized(head, at, snapshot, current, history) is Ok,
    ensures
        ({
            let m = materialized(head, at, snapshot, current, history)->Ok_0;
            let live = exists|i: int|
                0 <= i < current.len() && shows_table(#[trigger] current[i], key, at);
            let past = at is Some && exists|i: int|
                0 <= i < history.len() && shows_table(#[trigger] history[i], key, at);
            &&& m.tables.contains_key(key) <==> live || past
            &&& live && !past ==> exists|i: int|
                0 <= i < current.len() && shows_table(#[trigger] current[i], key, at) && m.tables[key]
                    == current[i]->Table_0
            &&& past ==> exists|i: int|
                0 <= i < history.len() && shows_table(#[trigger] history[i], key, at) && m.tables[key]
                    == history[i]->Table_0
        }),
{
    let start = empty_catalog(snapshot->0);
    table_records_show(start, current, at, key);
    let first = with_records(start, current, at);
    let none = Seq::<EntityModel>::empty();
    table_records_show(first, history, at, key);
    table_records_show(first, none, at, key);
}

/// Whether a record shows a view under a key.
pub open spec fn shows_view(r: EntityModel, key: u64, at: Option<u64>) -> bool {
    match r {
        EntityModel::View(v) => v.view_id == key && there(v.begin_snapshot, v.end_snapshot, at),
        _ => false,
    }
}

proof fn view_records_show(
    m: CatalogModel,
    records: Seq<EntityModel>,
    at: Option<u64>,
    key: u64,
)
    ensures
        ({
            let all = with_records(m, records, at).views;
            let shown = exists|i: int|
                0 <= i < records.len() && shows_view(#[trigger] records[i], key, at);
            &&& all.contains_key(key) <==> shown || m.views.contains_key(key)
            &&& shown ==> exists|i: int|
                0 <= i < records.len() && shows_view(#[trigger] records[i], key, at) && all[key]
                    == records[i]->View_0
            &&& !shown && m.views.contains_key(key) ==> all[key] == m.views[key]
        }),
    decreases records.len(),
{
    if records.len() > 0 {
        let front = records.drop_last();
        let n = records.len() - 1;
        view_records_show(m, front, at, key);
        assert(records[n] == records.last());
        assert forall|i: int| 0 <= i < front.len() implies #[trigger] front[i] == records[i] by {}
        if exists|i: int| 0 <= i < front.len() && shows_view(#[trigger] front[i], key, at) {
            let i = choose|i: int|
                0 <= i < front.len() && shows_view(#[trigger] front[i], key, at) && with_records(
                    m,
                    front,
                    at,
                ).views[key] == front[i]->View_0;
            assert(records[i] == front[i]);
        }
        if exists|i: int| 0 <= i < records.len() && shows_view(#[trigger] records[i], key, at) {
            let i = choose|i: int|
                0 <= i < records.len() && shows_view(#[trigger] records[i], key, at);
            if i < n {
                assert(front[i] == records[i]);
            }
        }
    }
}

/// A catalog that is read has a view under a key if and only if a live record,
/// or at a snapshot a past one, shows it there; and has one that a record shows.
pub proof fn views_are_read(
    head: Option<HeadModel>,
    at: Option<u64>,
    snapshot: Option<SnapshotModel>,
    current: Seq<EntityModel>,
    history: Seq<EntityModel>,
    key: u64,
)
    requires
        materialized(head, at, snapshot, current, history) is Ok,
    ensures
        ({
            let m = materialized(head, at, snapshot, current, history)->Ok_0;
            let live = exists|i: int|
                0 <= i < current.len() && shows_view(#[trigger] current[i], key, at);
            let past = at is Some && exists|i: int|
                0 <= i < history.len() && shows_view(#[trigger] history[i], key, at);
            &&& m.views.contains_key(key) <==> live || past
            &&& live && !past ==> exists|i: int|
                0 <= i < current.len() && shows_view(#[trigger] current[i], key, at) && m.views[key]
                    == current[i]->View_0
            &&& past ==> exists|i: int|
                0 <= i < history.len() && shows_view(#[trigger] history[i], key, at) && m.views[key]
                    == history[i]->View_0
        }),
{
    let start = empty_catalog(snapshot->0);
    view_records_show(start, current, at, key);
    let first = with_records(start, current, at);
    let none = Seq::<EntityModel>::empty();
    view_records_show(first, history, at, key);
    view_records_show(first, none, at, key);
}

/// Whether a record shows a column under a key.
pub open spec fn shows_column(r: EntityModel, key: (u64, u64), at: Option<u64>) -> bool {
    match r {
        EntityModel::Column(v) => (v.table_id, v.column_id) == key && there(v.begin_snapshot, v.end_snapshot, at),
        _ => false,
    }
}

proof fn column_records_show(
    m: CatalogModel,
    records: Seq<EntityModel>,
    at: Option<u64>,
    key: (u64, u64),
)
    ensures
        ({
            let all = with_records(m, records, at).columns;
            let shown = exists|i: int|
                0 <= i < records.len() && shows_column(#[trigger] records[i], key, at);
            &&& all.contains_key(key) <==> shown || m.columns.contains_key(key)
            &&& shown ==> exists|i: int|
                0 <= i < records.len() && shows_column(#[trigger] records[i], key, at) && all[key]
                    == records[i]->Column_0
            &&& !shown && m.columns.contains_key(key) ==> all[key] == m.columns[key]
        }),
    decreases records.len(),
{
    if records.len() > 0 {
        let front = records.drop_last();
        let n = records.len() - 1;
        column_records_show(m, front, at, key);
        assert(records[n] == records.last());
        assert forall|i: int| 0 <= i < front.len() implies #[trigger] front[i] == records[i] by {}
        if exists|i: int| 0 <= i < front.len() && shows_column(#[trigger] front[i], key, at) {
            let i = choose|i: int|
                0 <= i < front.len() && shows_column(#[trigger] front[i], key, at) && with_records(
                    m,
                    front,
                    at,
                ).columns[key] == front[i]->Column_0;
            assert(records[i] == front[i]);
        }
        if exists|i: int| 0 <= i < records.len() && shows_column(#[trigger] records[i], key, at) {
            let i = choose|i: int|
                0 <= i < records.len() && shows_column(#[trigger] records[i], key, at);
            if i < n {
                assert(front[i] == records[i]);
            }
        }
    }
}

/// A catalog that is read has a column under a key if and only if a live record,
/// or at a snapshot a past one, shows it there; and has one that a record shows.
pub proof fn columns_are_read(
    head: Option<HeadModel>,
    at: Option<u64>,
    snapshot: Option<SnapshotModel>,
    current: Seq<EntityModel>,
    history: Seq<EntityModel>,
    key: (u64, u64),
)
    requires
        materialized(head, at, snapshot, current, history) is Ok,
    ensures
        ({
            let m = materialized(head, at, snapshot, current, history)->Ok_0;
            let live = exists|i: int|
                0 <= i < current.len() && shows_column(#[trigger] current[i], key, at);
            let past = at is Some && exists|i: int|
                0 <= i < history.len() && shows_column(#[trigger] history[i], key, at);
            &&& m.columns.contains_key(key) <==> live || past
            &&& live && !past ==> exists|i: int|
                0 <= i < current.len() && shows_column(#[trigger] current[i], key, at) && m.columns[key]
                    == current[i]->Column_0
            &&& past ==> exists|i: int|
                0 <= i < history.len() && shows_column(#[trigger] history[i], key, at) && m.columns[key]
                    == history[i]->Column_0
        }),
{
    let start = empty_catalog(snapshot->0);
    column_records_show(start, current, at, key);
    let first = with_records(start, current, at);
    let none = Seq::<EntityModel>::empty();
    column_records_show(first, history, at, key);
    column_records_show(first, none, at, key);
}

/// Whether a record shows a data file under a key.
pub open spec fn shows_data_file(r: EntityModel, key: (u64, u64), at: Option<u64>) -> bool {
    match r {
        EntityModel::DataFile(v) => (v.table_id, v.data_file_id) == key && there(v.begin_snapshot, v.end_snapshot, at),
        _ => false,
    }
}

proof fn data_file_records_show(
    m: CatalogModel,
    records: Seq<EntityModel>,
    at: Option<u64>,
    key: (u64, u64),
)
    ensures
        ({
            let all = with_records(m, records, at).data_files;
            let shown = exists|i: int|
                0 <= i < records.len() && shows_data_file(#[trigger] records[i], key, at);
            &&& all.contains_key(key) <==> shown || m.data_files.contains_key(key)
            &&& shown ==> exists|i: int|
                0 <= i < records.len() && shows_data_file(#[trigger] records[i], key, at) && all[key]
                    == records[i]->DataFile_0
            &&& !shown && m.data_files.contains_key(key) ==> all[key] == m.data_files[key]
        }),
    decreases records.len(),
{
    if records.len() > 0 {
        let front = records.drop_last();
        let n = records.len() - 1;
        data_file_records_show(m, front, at, key);
        assert(records[n] == records.last());
        assert forall|i: int| 0 <= i < front.len() implies #[trigger] front[i] == records[i] by {}
        if exists|i: int| 0 <= i < front.len() && shows_data_file(#[trigger] front[i], key, at) {
            let i = choose|i: int|
                0 <= i < front.len() && shows_data_file(#[trigger] front[i], key, at) && with_records(
                    m,
                    front,
                    at,
                ).data_files[key] == front[i]->DataFile_0;
            assert(records[i] == front[i]);
        }
        if exists|i: int| 0 <= i < records.len() && shows_data_file(#[trigger] records[i], key, at) {
            let i = choose|i: int|
                0 <= i < records.len() && shows_data_file(#[trigger] records[i], key, at);
            if i < n {
                assert(front[i] == records[i]);
            }
        }
    }
}

/// A catalog that is read has a data file under a key if and only if a live record,
/// or at a snapshot a past one, shows it there; and has one that a record shows.
pub proof fn data_files_are_read(
    head: Option<HeadModel>,
    at: Option<u64>,
    snapshot: Option<SnapshotModel>,
    current: Seq<EntityModel>,
    history: Seq<EntityModel>,
    key: (u64, u64),
)
    requires
        materialized(head, at, snapshot, current, history) is Ok,
    ensures
        ({
            let m = materialized(head, at, snapshot, current, history)->Ok_0;
            let live = exists|i: int|
                0 <= i < current.len() && shows_data_file(#[trigger] current[i], key, at);
            let past = at is Some && exists|i: int|
                0 <= i < history.len() && shows_data_file(#[trigger] history[i], key, at);
            &&& m.data_files.contains_key(key) <==> live || past
            &&& live && !past ==> exists|i: int|
                0 <= i < current.len() && shows_data_file(#[trigger] current[i], key, at) && m.data_files[key]
                    == current[i]->DataFile_0
            &&& past ==> exists|i: int|
                0 <= i < history.len() && shows_data_file(#[trigger] history[i], key, at) && m.data_files[key]
                    == history[i]->DataFile_0
        }),
{
    let start = empty_catalog(snapshot->0);
    data_file_records_show(start, current, at, key);
    let first = with_records(start, current, at);
    let none = Seq::<EntityModel>::empty();
    data_file_records_show(first, history, at, key);
    data_file_records_show(first, none, at, key);
}

/// Whether a record shows a delete file under a key.
pub open spec fn shows_delete_file(r: EntityModel, key: (u64, u64), at: Option<u64>) -> bool {
    match r {
        EntityModel::DeleteFile(v) => (v.table_id, v.delete_file_id) == key && there(v.begin_snapshot, v.end_snapshot, at),
        _ => false,
    }
}

proof fn delete_file_records_show(
    m: CatalogModel,
    records: Seq<EntityModel>,
    at: Option<u64>,
    key: (u64, u64),
)
    ensures
        ({
            let all = with_records(m, records, at).delete_files;
            let shown = exists|i: int|
                0 <= i < records.len() && shows_delete_file(#[trigger] records[i], key, at);
            &&& all.contains_key(key) <==> shown || m.delete_files.contains_key(key)
            &&& shown ==> exists|i: int|
                0 <= i < records.len() && shows_delete_file(#[trigger] records[i], key, at) && all[key]
                    == records[i]->DeleteFile_0
            &&& !shown && m.delete_files.contains_key(key) ==> all[key] == m.delete_files[key]
        }),
    decreases records.len(),
{
    if records.len() > 0 {
        let front = records.drop_last();
        let n = records.len() - 1;
        delete_file_records_show(m, front, at, key);
        assert(records[n] == records.last());
        assert forall|i: int| 0 <= i < front.len() implies #[trigger] front[i] == records[i] by {}
        if exists|i: int| 0 <= i < front.len() && shows_delete_file(#[trigger] front[i], key, at) {
            let i = choose|i: int|
                0 <= i < front.len() && shows_delete_file(#[trigger] front[i], key, at) && with_records(
                    m,
                    front,
                    at,
                ).delete_files[key] == front[i]->DeleteFile_0;
            assert(records[i] == front[i]);
        }
        if exists|i: int| 0 <= i < records.len() && shows_delete_file(#[trigger] records[i], key, at) {
            let i = choose|i: int|
                0 <= i < records.len() && shows_delete_file(#[trigger] records[i], key, at);
            if i < n {
                assert(front[i] == records[i]);
            }
        }
    }
}

/// A catalog that is read has a delete file under a key if and only if a live record,
/// or at a snapshot a past one, shows it there; and has one that a record shows.
pub proof fn delete_files_are_read(
    head: Option<HeadModel>,
    at: Option<u64>,
    snapshot: Option<SnapshotModel>,
    current: Seq<EntityModel>,
    history: Seq<EntityModel>,
    key: (u64, u64),
)
    requires
        materialized(head, at, snapshot, current, history) is Ok,
    ensures
        ({
            let m = materialized(head, at, snapshot, current, history)->Ok_0;
            let live = exists|i: int|
                0 <= i < current.len() && shows_delete_file(#[trigger] current[i], key, at);
            let past = at is Some && exists|i: int|
                0 <= i < history.len() && shows_delete_file(#[trigger] history[i], key, at);
            &&& m.delete_files.contains_key(key) <==> live || past
            &&& live && !past ==> exists|i: int|
                0 <= i < current.len() && shows_delete_file(#[trigger] current[i], key, at) && m.delete_files[key]
                    == current[i]->DeleteFile_0
            &&& past ==> exists|i: int|
                0 <= i < history.len() && shows_delete_file(#[trigger] history[i], key, at) && m.delete_files[key]
                    == history[i]->DeleteFile_0
        }),
{
    let start = empty_catalog(snapshot->0);
    delete_file_records_show(start, current, at, key);
    let first = with_records(start, current, at);
    let none = Seq::<EntityModel>::empty();
    delete_file_records_show(first, history, at, key);
    delete_file_records_show(first, none, at, key);
}

/// Whether a record shows a partition under a key.
pub open spec fn shows_partition(r: EntityModel, key: (u64, u64), at: Option<u64>) -> bool {
    match r {
        EntityModel::Partition(v) => (v.table_id, v.partition_id) == key && there(v.begin_snapshot, v.end_snapshot, at),
        _ => false,
    }
}

proof fn partition_records_show(
    m: CatalogModel,
    records: Seq<EntityModel>,
    at: Option<u64>,
    key: (u64, u64),
)
    ensures
        ({
            let all = with_records(m, records, at).partitions;
            let shown = exists|i: int|
                0 <= i < records.len() && shows_partition(#[trigger] records[i], key, at);
            &&& all.contains_key(key) <==> shown || m.partitions.contains_key(key)
            &&& shown ==> exists|i: int|
                0 <= i < records.len() && shows_partition(#[trigger] records[i], key, at) && all[key]
                    == records[i]->Partition_0
            &&& !shown && m.partitions.contains_key(key) ==> all[key] == m.partitions[key]
        }),
    decreases records.len(),
{
    if records.len() > 0 {
        let front = records.drop_last();
        let n = records.len() - 1;
        partition_records_show(m, front, at, key);
        assert(records[n] == records.last());
        assert forall|i: int| 0 <= i < front.len() implies #[trigger] front[i] == records[i] by {}
        if exists|i: int| 0 <= i < front.len() && shows_partition(#[trigger] front[i], key, at) {
            let i = choose|i: int|
                0 <= i < front.len() && shows_partition(#[trigger] front[i], key, at) && with_records(
                    m,
                    front,
                    at,
                ).partitions[key] == front[i]->Partition_0;
            assert(records[i] == front[i]);
        }
        if exists|i: int| 0 <= i < records.len() && shows_partition(#[trigger] records[i], key, at) {
            let i = choose|i: int|
                0 <= i < records.len() && shows_partition(#[trigger] records[i], key, at);
            if i < n {
                assert(front[i] == records[i]);
            }
        }
    }
}

/// A catalog that is read has a partition under a key if and only if a live record,
/// or at a snapshot a past one, shows it there; and has one that a record shows.
pub proof fn partitions_are_read(
    head: Option<HeadModel>,
    at: Option<u64>,
    snapshot: Option<SnapshotModel>,
    current: Seq<EntityModel>,
    history: Seq<EntityModel>,
    key: (u64, u64),
)
    requires
        materialized(head, at, snapshot, current, history) is Ok,
    ensures
        ({
            let m = materialized(head, at, snapshot, current, history)->Ok_0;
            let live = exists|i: int|
                0 <= i < current.len() && shows_partition(#[trigger] current[i], key, at);
            let past = at is Some && exists|i: int|
                0 <= i < history.len() && shows_partition(#[trigger] history[i], key, at);
            &&& m.partitions.contains_key(key) <==> live || past
            &&& live && !past ==> exists|i: int|
                0 <= i < current.len() && shows_partition(#[trigger] current[i], key, at) && m.partitions[key]
                    == current[i]->Partition_0
            &&& past ==> exists|i: int|
                0 <= i < history.len() && shows_partition(#[trigger] history[i], key, at) && m.partitions[key]
                    == history[i]->Partition_0
        }),
{
    let start = empty_catalog(snapshot->0);
    partition_records_show(start, current, at, key);
    let first = with_records(start, current, at);
    let none = Seq::<EntityModel>::empty();
    partition_records_show(first, history, at, key);
    partition_records_show(first, none, at, key);
}

/// Whether a record shows a sort under a key.
pub open spec fn shows_sort(r: EntityModel, key: (u64, u64), at: Option<u64>) -> bool {
    match r {
        EntityModel::Sort(v) => (v.table_id, v.sort_id) == key && there(v.begin_snapshot, v.end_snapshot, at),
        _ => false,
    }
}

proof fn sort_records_show(
    m: CatalogModel,
    records: Seq<EntityModel>,
    at: Option<u64>,
    key: (u64, u64),
)
    ensures
        ({
            let all = with_records(m, records, at).sorts;
            let shown = exists|i: int|
                0 <= i < records.len() && shows_sort(#[trigger] records[i], key, at);
            &&& all.contains_key(key) <==> shown || m.sorts.contains_key(key)
            &&& shown ==> exists|i: int|
                0 <= i < records.len() && shows_sort(#[trigger] records[i], key, at) && all[key]
                    == records[i]->Sort_0
            &&& !shown && m.sorts.contains_key(key) ==> all[key] == m.sorts[key]
        }),
    decreases records.len(),
{
    if records.len() > 0 {
        let front = records.drop_last();
        let n = records.len() - 1;
        sort_records_show(m, front, at, key);
        assert(records[n] == records.last());
        assert forall|i: int| 0 <= i < front.len() implies #[trigger] front[i] == records[i] by {}
        if exists|i: int| 0 <= i < front.len() && shows_sort(#[trigger] front[i], key, at) {
            let i = choose|i: int|
                0 <= i < front.len() && shows_sort(#[trigger] front[i], key, at) && with_records(
                    m,
                    front,
                    at,
                ).sorts[key] == front[i]->Sort_0;
            assert(records[i] == front[i]);
        }
        if exists|i: int| 0 <= i < records.len() && shows_sort(#[trigger] records[i], key, at) {
            let i = choose|i: int|
                0 <= i < records.len() && shows_sort(#[trigger] records[i], key, at);
            if i < n {
                assert(front[i] == records[i]);
            }
        }
    }
}

/// A catalog that is read has a sort under a key if and only if a live record,
/// or at a snapshot a past one, shows it there; and has one that a record shows.
pub proof fn sorts_are_read(
    head: Option<HeadModel>,
    at: Option<u64>,
    snapshot: Option<SnapshotModel>,
    current: Seq<EntityModel>,
    history: Seq<EntityModel>,
    key: (u64, u64),
)
    requires
        materialized(head, at, snapshot, current, history) is Ok,
    ensures
        ({
            let m = materialized(head, at, snapshot, current, history)->Ok_0;
            let live = exists|i: int|
                0 <= i < current.len() && shows_sort(#[trigger] current[i], key, at);
            let past = at is Some && exists|i: int|
                0 <= i < history.len() && shows_sort(#[trigger] history[i], key, at);
            &&& m.sorts.contains_key(key) <==> live || past
            &&& live && !past ==> exists|i: int|
                0 <= i < current.len() && shows_sort(#[trigger] current[i], key, at) && m.sorts[key]
                    == current[i]->Sort_0
            &&& past ==> exists|i: int|
                0 <= i < history.len() && shows_sort(#[trigger] history[i], key, at) && m.sorts[key]
                    == history[i]->Sort_0
        }),
{
    let start = empty_catalog(snapshot->0);
    sort_records_show(start, current, at, key);
    let first = with_records(start, current, at);
    let none = Seq::<EntityModel>::empty();
    sort_records_show(first, history, at, key);
    sort_records_show(first, none, at, key);
}

/// Whether a record shows a index under a key.
pub open spec fn shows_index(r: EntityModel, key: (u64, u64), at: Option<u64>) -> bool {
    match r {
        EntityModel::Index(v) => (v.table_id, v.index_id) == key && there(v.begin_snapshot, v.end_snapshot, at),
        _ => false,
    }
}

proof fn index_records_show(
    m: CatalogModel,
    records: Seq<EntityModel>,
    at: Option<u64>,
    key: (u64, u64),
)
    ensures
        ({
            let all = with_records(m, records, at).indexes;
            let shown = exists|i: int|
                0 <= i < records.len() && shows_index(#[trigger] records[i], key, at);
            &&& all.contains_key(key) <==> shown || m.indexes.contains_key(key)
            &&& shown ==> exists|i: int|
                0 <= i < records.len() && shows_index(#[trigger] records[i], key, at) && all[key]
                    == records[i]->Index_0
            &&& !shown && m.indexes.contains_key(key) ==> all[key] == m.indexes[key]
        }),
    decreases records.len(),
{
    if records.len() > 0 {
        let front = records.drop_last();
        let n = records.len() - 1;
        index_records_show(m, front, at, key);
        assert(records[n] == records.last());
        assert forall|i: int| 0 <= i < front.len() implies #[trigger] front[i] == records[i] by {}
        if exists|i: int| 0 <= i < front.len() && shows_index(#[trigger] front[i], key, at) {
            let i = choose|i: int|
                0 <= i < front.len() && shows_index(#[trigger] front[i], key, at) && with_records(
                    m,
                    front,
                    at,
                ).indexes[key] == front[i]->Index_0;
            assert(records[i] == front[i]);
        }
        if exists|i: int| 0 <= i < records.len() && shows_index(#[trigger] records[i], key, at) {
            let i = choose|i: int|
                0 <= i < records.len() && shows_index(#[trigger] records[i], key, at);
            if i < n {
                assert(front[i] == records[i]);
            }
        }
    }
}

/// A catalog that is read has a index under a key if and only if a live record,
/// or at a snapshot a past one, shows it there; and has one that a record shows.
pub proof fn indexes_are_read(
    head: Option<HeadModel>,
    at: Option<u64>,
    snapshot: Option<SnapshotModel>,
    current: Seq<EntityModel>,
    history: Seq<EntityModel>,
    key: (u64, u64),
)
    requires
        materialized(head, at, snapshot, current, history) is Ok,
    ensures
        ({
            let m = materialized(head, at, snapshot, current, history)->Ok_0;
            let live = exists|i: int|
                0 <= i < current.len() && shows_index(#[trigger] current[i], key, at);
            let past = at is Some && exists|i: int|
                0 <= i < history.len() && shows_index(#[trigger] history[i], key, at);
            &&& m.indexes.contains_key(key) <==> live || past
            &&& live && !past ==> exists|i: int|
                0 <= i < current.len() && shows_index(#[trigger] current[i], key, at) && m.indexes[key]
                    == current[i]->Index_0
            &&& past ==> exists|i: int|
                0 <= i < history.len() && shows_index(#[trigger] history[i], key, at) && m.indexes[key]
                    == history[i]->Index_0
        }),
{
    let start = empty_catalog(snapshot->0);
    index_records_show(start, current, at, key);
    let first = with_records(start, current, at);
    let none = Seq::<EntityModel>::empty();
    index_records_show(first, history, at, key);
    index_records_show(first, none, at, key);
}

/// Whether a record shows a macro under a key.
pub open spec fn shows_macro(r: EntityModel, key: u64, at: Option<u64>) -> bool {
    match r {
        EntityModel::Macro(v) => v.macro_id == key && there(v.begin_snapshot, v.end_snapshot, at),
        _ => false,
    }
}

proof fn macro_records_show(
    m: CatalogModel,
    records: Seq<EntityModel>,
    at: Option<u64>,
    key: u64,
)
    ensures
        ({
            let all = with_records(m, records, at).macros;
            let shown = exists|i: int|
                0 <= i < records.len() && shows_macro(#[trigger] records[i], key, at);
            &&& all.contains_key(key) <==> shown || m.macros.contains_key(key)
            &&& shown ==> exists|i: int|
                0 <= i < records.len() && shows_macro(#[trigger] records[i], key, at) && all[key]
                    == records[i]->Macro_0
            &&& !shown && m.macros.contains_key(key) ==> all[key] == m.macros[key]
        }),
    decreases records.len(),
{
    if records.len() > 0 {
        let front = records.drop_last();
        let n = records.len() - 1;
        macro_records_show(m, front, at, key);
        assert(records[n] == records.last());
        assert forall|i: int| 0 <= i < front.len() implies #[trigger] front[i] == records[i] by {}
        if exists|i: int| 0 <= i < front.len() && shows_macro(#[trigger] front[i], key, at) {
            let i = choose|i: int|
                0 <= i < front.len() && shows_macro(#[trigger] front[i], key, at) && with_records(
                    m,
                    front,
                    at,
                ).macros[key] == front[i]->Macro_0;
            assert(records[i] == front[i]);
        }
        if exists|i: int| 0 <= i < records.len() && shows_macro(#[trigger] records[i], key, at) {
            let i = choose|i: int|
                0 <= i < records.len() && shows_macro(#[trigger] records[i], key, at);
            if i < n {
                assert(front[i] == records[i]);
            }
        }
    }
}

/// A catalog that is read has a macro under a key if and only if a live record,
/// or at a snapshot a past one, shows it there; and has one that a record shows.
pub proof fn macros_are_read(
    head: Option<HeadModel>,
    at: Option<u64>,
    snapshot: Option<SnapshotModel>,
    current: Seq<EntityModel>,
    history: Seq<EntityModel>,
    key: u64,
)
    requires
        materialized(head, at, snapshot, current, history) is Ok,
    ensures
        ({
            let m = materialized(head, at, snapshot, current, history)->Ok_0;
            let live = exists|i: int|
                0 <= i < current.len() && shows_macro(#[trigger] current[i], key, at);
            let past = at is Some && exists|i: int|
                0 <= i < history.len() && shows_macro(#[trigger] history[i], key, at);
            &&& m.macros.contains_key(key) <==> live || past
            &&& live && !past ==> exists|i: int|
                0 <= i < current.len() && shows_macro(#[trigger] current[i], key, at) && m.macros[key]
                    == current[i]->Macro_0
            &&& past ==> exists|i: int|
                0 <= i < history.len() && shows_macro(#[trigger] history[i], key, at) && m.macros[key]
                    == history[i]->Macro_0
        }),
{
    let start = empty_catalog(snapshot->0);
    macro_records_show(start, current, at, key);
    let first = with_records(start, current, at);
    let none = Seq::<EntityModel>::empty();
    macro_records_show(first, history, at, key);
    macro_records_show(first, none, at, key);
}

/// Whether a record shows a mapping under a key.
pub open spec fn shows_mapping(r: EntityModel, key: (u64, u64), at: Option<u64>) -> bool {
    match r {
        EntityModel::Mapping(v) => (v.table_id, v.mapping_id) == key ,
        _ => false,
    }
}

proof fn mapping_records_show(
    m: CatalogModel,
    records: Seq<EntityModel>,
    at: Option<u64>,
    key: (u64, u64),
)
    ensures
        ({
            let all = with_records(m, records, at).mappings;
            let shown = exists|i: int|
                0 <= i < records.len() && shows_mapping(#[trigger] records[i], key, at);
            &&& all.contains_key(key) <==> shown || m.mappings.contains_key(key)
            &&& shown ==> exists|i: int|
                0 <= i < records.len() && shows_mapping(#[trigger] records[i], key, at) && all[key]
                    == records[i]->Mapping_0
            &&& !shown && m.mappings.contains_key(key) ==> all[key] == m.mappings[key]
        }),
    decreases records.len(),
{
    if records.len() > 0 {
        let front = records.drop_last();
        let n = records.len() - 1;
        mapping_records_show(m, front, at, key);
        assert(records[n] == records.last());
        assert forall|i: int| 0 <= i < front.len() implies #[trigger] front[i] == records[i] by {}
        if exists|i: int| 0 <= i < front.len() && shows_mapping(#[trigger] front[i], key, at) {
            let i = choose|i: int|
                0 <= i < front.len() && shows_mapping(#[trigger] front[i], key, at) && with_records(
                    m,
                    front,
                    at,
                ).mappings[key] == front[i]->Mapping_0;
            assert(records[i] == front[i]);
        }
        if exists|i: int| 0 <= i < records.len() && shows_mapping(#[trigger] records[i], key, at) {
            let i = choose|i: int|
                0 <= i < records.len() && shows_mapping(#[trigger] records[i], key, at);
            if i < n {
                assert(front[i] == records[i]);
            }
        }
    }
}

/// A catalog that is read has a mapping under a key if and only if a live record,
/// or at a snapshot a past one, shows it there; and has one that a record shows.
pub proof fn mappings_are_read(
    head: Option<HeadModel>,
    at: Option<u64>,
    snapshot: Option<SnapshotModel>,
    current: Seq<EntityModel>,
    history: Seq<EntityModel>,
    key: (u64, u64),
)
    requires
        materialized(head, at, snapshot, current, history) is Ok,
    ensures
        ({
            let m = materialized(head, at, snapshot, current, history)->Ok_0;
            let live = exists|i: int|
                0 <= i < current.len() && shows_mapping(#[trigger] current[i], key, at);
            let past = at is Some && exists|i: int|
                0 <= i < history.len() && shows_mapping(#[trigger] history[i], key, at);
            &&& m.mappings.contains_key(key) <==> live || past
            &&& live && !past ==> exists|i: int|
                0 <= i < current.len() && shows_mapping(#[trigger] current[i], key, at) && m.mappings[key]
                    == current[i]->Mapping_0
            &&& past ==> exists|i: int|
                0 <= i < history.len() && shows_mapping(#[trigger] history[i], key, at) && m.mappings[key]
                    == history[i]->Mapping_0
        }),
{
    let start = empty_catalog(snapshot->0);
    mapping_records_show(start, current, at, key);
    let first = with_records(start, current, at);
    let none = Seq::<EntityModel>::empty();
    mapping_records_show(first, history, at, key);
    mapping_records_show(first, none, at, key);
}

/// Whether a record shows a table stats under a key.
pub open spec fn shows_table_stats(r: EntityModel, key: u64, at: Option<u64>) -> bool {
    match r {
        EntityModel::TableStats(v) => v.table_id == key ,
        _ => false,
    }
}

proof fn table_stats_records_show(
    m: CatalogModel,
    records: Seq<EntityModel>,
    at: Option<u64>,
    key: u64,
)
    ensures
        ({
            let all = with_records(m, records, at).table_stats;
            let shown = exists|i: int|
                0 <= i < records.len() && shows_table_stats(#[trigger] records[i], key, at);
            &&& all.contains_key(key) <==> shown || m.table_stats.contains_key(key)
            &&& shown ==> exists|i: int|
                0 <= i < records.len() && shows_table_stats(#[trigger] records[i], key, at) && all[key]
                    == records[i]->TableStats_0
            &&& !shown && m.table_stats.contains_key(key) ==> all[key] == m.table_stats[key]
        }),
    decreases records.len(),
{
    if records.len() > 0 {
        let front = records.drop_last();
        let n = records.len() - 1;
        table_stats_records_show(m, front, at, key);
        assert(records[n] == records.last());
        assert forall|i: int| 0 <= i < front.len() implies #[trigger] front[i] == records[i] by {}
        if exists|i: int| 0 <= i < front.len() && shows_table_stats(#[trigger] front[i], key, at) {
            let i = choose|i: int|
                0 <= i < front.len() && shows_table_stats(#[trigger] front[i], key, at) && with_records(
                    m,
                    front,
                    at,
                ).table_stats[key] == front[i]->TableStats_0;
            assert(records[i] == front[i]);
        }
        if exists|i: int| 0 <= i < records.len() && shows_table_stats(#[trigger] records[i], key, at) {
            let i = choose|i: int|
                0 <= i < records.len() && shows_table_stats(#[trigger] records[i], key, at);
            if i < n {
                assert(front[i] == records[i]);
            }
        }
    }
}

/// A catalog that is read has a table stats under a key if and only if a live record,
/// or at a snapshot a past one, shows it there; and has one that a record shows.
pub proof fn table_stats_are_read(
    head: Option<HeadModel>,
    at: Option<u64>,
    snapshot: Option<SnapshotModel>,
    current: Seq<EntityModel>,
    history: Seq<EntityModel>,
    key: u64,
)
    requires
        materialized(head, at, snapshot, current, history) is Ok,
    ensures
        ({
            let m = materialized(head, at, snapshot, current, history)->Ok_0;
            let live = exists|i: int|
                0 <= i < current.len() && shows_table_stats(#[trigger] current[i], key, at);
            let past = at is Some && exists|i: int|
                0 <= i < history.len() && shows_table_stats(#[trigger] history[i], key, at);
            &&& m.table_stats.contains_key(key) <==> live || past
            &&& live && !past ==> exists|i: int|
                0 <= i < current.len() && shows_table_stats(#[trigger] current[i], key, at) && m.table_stats[key]
                    == current[i]->TableStats_0
            &&& past ==> exists|i: int|
                0 <= i < history.len() && shows_table_stats(#[trigger] history[i], key, at) && m.table_stats[key]
                    == history[i]->TableStats_0
        }),
{
    let start = empty_catalog(snapshot->0);
    table_stats_records_show(start, current, at, key);
    let first = with_records(start, current, at);
    let none = Seq::<EntityModel>::empty();
    table_stats_records_show(first, history, at, key);
    table_stats_records_show(first, none, at, key);
}

/// Whether a record shows a table column stats under a key.
pub open spec fn shows_table_column_stats(r: EntityModel, key: (u64, u64), at: Option<u64>) -> bool {
    match r {
        EntityModel::TableColumnStats(v) => (v.table_id, v.column_id) == key ,
        _ => false,
    }
}

proof fn table_column_stats_records_show(
    m: CatalogModel,
    records: Seq<EntityModel>,
    at: Option<u64>,
    key: (u64, u64),
)
    ensures
        ({
            let all = with_records(m, records, at).table_column_stats;
            let shown = exists|i: int|
                0 <= i < records.len() && shows_table_column_stats(#[trigger] records[i], key, at);
            &&& all.contains_key(key) <==> shown || m.table_column_stats.contains_key(key)
            &&& shown ==> exists|i: int|
                0 <= i < records.len() && shows_table_column_stats(#[trigger] records[i], key, at) && all[key]
                    == records[i]->TableColumnStats_0
            &&& !shown && m.table_column_stats.contains_key(key) ==> all[key] == m.table_column_stats[key]
        }),
    decreases records.len(),
{
    if records.len() > 0 {
        let front = records.drop_last();
        let n = records.len() - 1;
        table_column_stats_records_show(m, front, at, key);
        assert(records[n] == records.last());
        assert forall|i: int| 0 <= i < front.len() implies #[trigger] front[i] == records[i] by {}
        if exists|i: int| 0 <= i < front.len() && shows_table_column_stats(#[trigger] front[i], key, at) {
            let i = choose|i: int|
                0 <= i < front.len() && shows_table_column_stats(#[trigger] front[i], key, at) && with_records(
                    m,
                    front,
                    at,
                ).table_column_stats[key] == front[i]->TableColumnStats_0;
            assert(records[i] == front[i]);
        }
        if exists|i: int| 0 <= i < records.len() && shows_table_column_stats(#[trigger] records[i], key, at) {
            let i = choose|i: int|
                0 <= i < records.len() && shows_table_column_stats(#[trigger] records[i], key, at);
            if i < n {
                assert(front[i] == records[i]);
            }
        }
    }
}

/// A catalog that is read has a table column stats under a key if and only if a live record,
/// or at a snapshot a past one, shows it there; and has one that a record shows.
pub proof fn table_column_stats_are_read(
    head: Option<HeadModel>,
    at: Option<u64>,
    snapshot: Option<SnapshotModel>,
    current: Seq<EntityModel>,
    history: Seq<EntityModel>,
    key: (u64, u64),
)
    requires
        materialized(head, at, snapshot, current, history) is Ok,
    ensures
        ({
            let m = materialized(head, at, snapshot, current, history)->Ok_0;
            let live = exists|i: int|
                0 <= i < current.len() && shows_table_column_stats(#[trigger] current[i], key, at);
            let past = at is Some && exists|i: int|
                0 <= i < history.len() && shows_table_column_stats(#[trigger] history[i], key, at);
            &&& m.table_column_stats.contains_key(key) <==> live || past
            &&& live && !past ==> exists|i: int|
                0 <= i < current.len() && shows_table_column_stats(#[trigger] current[i], key, at) && m.table_column_stats[key]
                    == current[i]->TableColumnStats_0
            &&& past ==> exists|i: int|
                0 <= i < history.len() && shows_table_column_stats(#[trigger] history[i], key, at) && m.table_column_stats[key]
                    == history[i]->TableColumnStats_0
        }),
{
    let start = empty_catalog(snapshot->0);
    table_column_stats_records_show(start, current, at, key);
    let first = with_records(start, current, at);
    let none = Seq::<EntityModel>::empty();
    table_column_stats_records_show(first, history, at, key);
    table_column_stats_records_show(first, none, at, key);
}

/// Whether a record shows a file column stats under a key.
pub open spec fn shows_file_column_stats(r: EntityModel, key: (u64, (u64, u64)), at: Option<u64>) -> bool {
    match r {
        EntityModel::FileColumnStats(v) => (v.table_id, (v.data_file_id, v.column_id)) == key ,
        _ => false,
    }
}

proof fn file_column_stats_records_show(
    m: CatalogModel,
    records: Seq<EntityModel>,
    at: Option<u64>,
    key: (u64, (u64, u64)),
)
    ensures
        ({
            let all = with_records(m, records, at).file_column_stats;
            let shown = exists|i: int|
                0 <= i < records.len() && shows_file_column_stats(#[trigger] records[i], key, at);
            &&& all.contains_key(key) <==> shown || m.file_column_stats.contains_key(key)
            &&& shown ==> exists|i: int|
                0 <= i < records.len() && shows_file_column_stats(#[trigger] records[i], key, at) && all[key]
                    == records[i]->FileColumnStats_0
            &&& !shown && m.file_column_stats.contains_key(key) ==> all[key] == m.file_column_stats[key]
        }),
    decreases records.len(),
{
    if records.len() > 0 {
        let front = records.drop_last();
        let n = records.len() - 1;
        file_column_stats_records_show(m, front, at, key);
        assert(records[n] == records.last());
        assert forall|i: int| 0 <= i < front.len() implies #[trigger] front[i] == records[i] by {}
        if exists|i: int| 0 <= i < front.len() && shows_file_column_stats(#[trigger] front[i], key, at) {
            let i = choose|i: int|
                0 <= i < front.len() && shows_file_column_stats(#[trigger] front[i], key, at) && with_records(
                    m,
                    front,
                    at,
                ).file_column_stats[key] == front[i]->FileColumnStats_0;
            assert(records[i] == front[i]);
        }
        if exists|i: int| 0 <= i < records.len() && shows_file_column_stats(#[trigger] records[i], key, at) {
            let i = choose|i: int|
                0 <= i < records.len() && shows_file_column_stats(#[trigger] records[i], key, at);
            if i < n {
                assert(front[i] == records[i]);
            }
        }
    }
}

/// A catalog that is read has a file column stats under a key if and only if a live record,
/// or at a snapshot a past one, shows it there; and has one that a record shows.
pub proof fn file_column_stats_are_read(
    head: Option<HeadModel>,
    at: Option<u64>,
    snapshot: Option<SnapshotModel>,
    current: Seq<EntityModel>,
    history: Seq<EntityModel>,
    key: (u64, (u64, u64)),
)
    requires
        materialized(head, at, snapshot, current, history) is Ok,
    ensures
        ({
            let m = materialized(head, at, snapshot, current, history)->Ok_0;
            let live = exists|i: int|
                0 <= i < current.len() && shows_file_column_stats(#[trigger] current[i], key, at);
            let past = at is Some && exists|i: int|
                0 <= i < history.len() && shows_file_column_stats(#[trigger] history[i], key, at);
            &&& m.file_column_stats.contains_key(key) <==> live || past
            &&& live && !past ==> exists|i: int|
                0 <= i < current.len() && shows_file_column_stats(#[trigger] current[i], key, at) && m.file_column_stats[key]
                    == current[i]->FileColumnStats_0
            &&& past ==> exists|i: int|
                0 <= i < history.len() && shows_file_column_stats(#[trigger] history[i], key, at) && m.file_column_stats[key]
                    == history[i]->FileColumnStats_0
        }),
{
    let start = empty_catalog(snapshot->0);
    file_column_stats_records_show(start, current, at, key);
    let first = with_records(start, current, at);
    let none = Seq::<EntityModel>::empty();
    file_column_stats_records_show(first, history, at, key);
    file_column_stats_records_show(first, none, at, key);
}

/// Whether a record shows a tag under a key.
pub open spec fn shows_tag(r: EntityModel, key: u64, at: Option<u64>) -> bool {
    match r {
        EntityModel::Tag(v) => v.object_id == key ,
        _ => false,
    }
}

proof fn tag_records_show(
    m: CatalogModel,
    records: Seq<EntityModel>,
    at: Option<u64>,
    key: u64,
)
    ensures
        ({
            let all = with_records(m, records, at).tags;
            let shown = exists|i: int|
                0 <= i < records.len() && shows_tag(#[trigger] records[i], key, at);
            &&& all.contains_key(key) <==> shown || m.tags.contains_key(key)
            &&& shown ==> exists|i: int|
                0 <= i < records.len() && shows_tag(#[trigger] records[i], key, at) && all[key]
                    == records[i]->Tag_0
            &&& !shown && m.tags.contains_key(key) ==> all[key] == m.tags[key]
        }),
    decreases records.len(),
{
    if records.len() > 0 {
        let front = records.drop_last();
        let n = records.len() - 1;
        tag_records_show(m, front, at, key);
        assert(records[n] == records.last());
        assert forall|i: int| 0 <= i < front.len() implies #[trigger] front[i] == records[i] by {}
        if exists|i: int| 0 <= i < front.len() && shows_tag(#[trigger] front[i], key, at) {
            let i = choose|i: int|
                0 <= i < front.len() && shows_tag(#[trigger] front[i], key, at) && with_records(
                    m,
                    front,
                    at,
                ).tags[key] == front[i]->Tag_0;
            assert(records[i] == front[i]);
        }
        if exists|i: int| 0 <= i < records.len() && shows_tag(#[trigger] records[i], key, at) {
            let i = choose|i: int|
                0 <= i < records.len() && shows_tag(#[trigger] records[i], key, at);
            if i < n {
                assert(front[i] == records[i]);
            }
        }
    }
}

/// A catalog that is read has a tag under a key if and only if a live record,
/// or at a snapshot a past one, shows it there; and has one that a record shows.
pub proof fn tags_are_read(
    head: Option<HeadModel>,
    at: Option<u64>,
    snapshot: Option<SnapshotModel>,
    current: Seq<EntityModel>,
    history: Seq<EntityModel>,
    key: u64,
)
    requires
        materialized(head, at, snapshot, current, history) is Ok,
    ensures
        ({
            let m = materialized(head, at, snapshot, current, history)->Ok_0;
            let live = exists|i: int|
                0 <= i < current.len() && shows_tag(#[trigger] current[i], key, at);
            let past = at is Some && exists|i: int|
                0 <= i < history.len() && shows_tag(#[trigger] history[i], key, at);
            &&& m.tags.contains_key(key) <==> live || past
            &&& live && !past ==> exists|i: int|
                0 <= i < current.len() && shows_tag(#[trigger] current[i], key, at) && m.tags[key]
                    == current[i]->Tag_0
            &&& past ==> exists|i: int|
                0 <= i < history.len() && shows_tag(#[trigger] history[i], key, at) && m.tags[key]
                    == history[i]->Tag_0
        }),
{
    let start = empty_catalog(snapshot->0);
    tag_records_show(start, current, at, key);
    let first = with_records(start, current, at);
    let none = Seq::<EntityModel>::empty();
    tag_records_show(first, history, at, key);
    tag_records_show(first, none, at, key);
}

/// Whether a record shows a gc file under a key.
pub open spec fn shows_gc_file(r: EntityModel, key: u64, at: Option<u64>) -> bool {
    match r {
        EntityModel::GcFile(v) => v.data_file_id == key ,
        _ => false,
    }
}

proof fn gc_file_records_show(
    m: CatalogModel,
    records: Seq<EntityModel>,
    at: Option<u64>,
    key: u64,
)
    ensures
        ({
            let all = with_records(m, records, at).gc_files;
            let shown = exists|i: int|
                0 <= i < records.len() && shows_gc_file(#[trigger] records[i], key, at);
            &&& all.contains_key(key) <==> shown || m.gc_files.contains_key(key)
            &&& shown ==> exists|i: int|
                0 <= i < records.len() && shows_gc_file(#[trigger] records[i], key, at) && all[key]
                    == records[i]->GcFile_0
            &&& !shown && m.gc_files.contains_key(key) ==> all[key] == m.gc_files[key]
        }),
    decreases records.len(),
{
    if records.len() > 0 {
        let front = records.drop_last();
        let n = records.len() - 1;
        gc_file_records_show(m, front, at, key);
        assert(records[n] == records.last());
        assert forall|i: int| 0 <= i < front.len() implies #[trigger] front[i] == records[i] by {}
        if exists|i: int| 0 <= i < front.len() && shows_gc_file(#[trigger] front[i], key, at) {
            let i = choose|i: int|
                0 <= i < front.len() && shows_gc_file(#[trigger] front[i], key, at) && with_records(
                    m,
                    front,
                    at,
                ).gc_files[key] == front[i]->GcFile_0;
            assert(records[i] == front[i]);
        }
        if exists|i: int| 0 <= i < records.len() && shows_gc_file(#[trigger] records[i], key, at) {
            let i = choose|i: int|
                0 <= i < records.len() && shows_gc_file(#[trigger] records[i], key, at);
            if i < n {
                assert(front[i] == records[i]);
            }
        }
    }
}

/// A catalog that is read has a gc file under a key if and only if a live record,
/// or at a snapshot a past one, shows it there; and has one that a record shows.
pub proof fn gc_files_are_read(
    head: Option<HeadModel>,
    at: Option<u64>,
    snapshot: Option<SnapshotModel>,
    current: Seq<EntityModel>,
    history: Seq<EntityModel>,
    key: u64,
)
    requires
        materialized(head, at, snapshot, current, history) is Ok,
    ensures
        ({
            let m = materialized(head, at, snapshot, current, history)->Ok_0;
            let live = exists|i: int|
                0 <= i < current.len() && shows_gc_file(#[trigger] current[i], key, at);
            let past = at is Some && exists|i: int|
                0 <= i < history.len() && shows_gc_file(#[trigger] history[i], key, at);
            &&& m.gc_files.contains_key(key) <==> live || past
            &&& live && !past ==> exists|i: int|
                0 <= i < current.len() && shows_gc_file(#[trigger] current[i], key, at) && m.gc_files[key]
                    == current[i]->GcFile_0
            &&& past ==> exists|i: int|
                0 <= i < history.len() && shows_gc_file(#[trigger] history[i], key, at) && m.gc_files[key]
                    == history[i]->GcFile_0
        }),
{
    let start = empty_catalog(snapshot->0);
    gc_file_records_show(start, current, at, key);
    let first = with_records(start, current, at);
    let none = Seq::<EntityModel>::empty();
    gc_file_records_show(first, history, at, key);
    gc_file_records_show(first, none, at, key);
}

/// A read is at the head, or at a snapshot up to it that has a record; and has
/// that record's snapshot.
pub proof fn reads_are_at_a_snapshot(
    head: Option<HeadModel>,
    at: Option<u64>,
    snapshot: Option<SnapshotModel>,
    current: Seq<EntityModel>,
    history: Seq<EntityModel>,
)
    ensures
        match read_target(head, at) {
            Ok(target) => head is Some && target <= head->0.snapshot_id && (match at {
                Some(s) => target == s,
                None => target == head->0.snapshot_id,
            }),
            Err(Fault::Corruption(_)) => head is None,
            Err(Fault::NotFound(_)) => head is Some && at is Some && at->0 > head->0.snapshot_id,
            Err(_) => false,
        },
        match materialized(head, at, snapshot, current, history) {
            Ok(m) => read_target(head, at) is Ok && snapshot == Some(m.snapshot),
            Err(Fault::Corruption(_)) => head is None,
            Err(Fault::NotFound(_)) => head is Some && (read_target(head, at) is Err
                || snapshot is None),
            Err(_) => false,
        },
{
    if read_target(head, at) is Ok && snapshot is Some {
        snapshots_stay(empty_catalog(snapshot->0), current, at);
        let first = with_records(empty_catalog(snapshot->0), current, at);
        snapshots_stay(first, history, at);
        snapshots_stay(first, Seq::empty(), at);
    }
}

proof fn snapshots_stay(m: CatalogModel, records: Seq<EntityModel>, at: Option<u64>)
    ensures
        with_records(m, records, at).snapshot == m.snapshot,
    decreases records.len(),
{
    if records.len() > 0 {
        snapshots_stay(m, records.drop_last(), at);
    }
}

/// The option records that are read are those of the last record of each scope.
pub proof fn option_records_are_read(
    m: CatalogModel,
    records: Seq<EntityModel>,
    at: Option<u64>,
    scope_kind: u64,
    scope_id: u64,
    value: crate::records::OptionScopeModel,
)
    ensures
        with_records(
            m,
            records.push(EntityModel::OptionScope { scope_kind, scope_id, value }),
            at,
        ) == (CatalogModel {
            options: with_records(m, records, at).options.insert((scope_kind, scope_id), value),
            ..with_records(m, records, at)
        }),
{
    let r = EntityModel::OptionScope { scope_kind, scope_id, value };
    assert(records.push(r).drop_last() =~= records);
}

// ---------------------------------------------------------------------------
// Formats
// ---------------------------------------------------------------------------

/// A store can be opened if no migration is under way and its format is one of
/// those that are known, or it has none yet; the small handle knows the first
/// alone.
pub proof fn formats_are_known(migrating: bool, format: Option<FormatModel>)
    ensures
        format_refusal(migrating, format) is None <==> !migrating && (format is None || 1
            <= format->0.format_version <= 3),
        format_refusal(migrating, format) is Some ==> format_refusal(
            migrating,
            format,
        )->0 is Corruption,
        crate::txn_commit::format_refusal(migrating, format) is None <==> !migrating && (
        format is None || format->0.format_version == 1),
        crate::txn_commit::format_refusal(migrating, format) is Some
            ==> crate::txn_commit::format_refusal(migrating, format)->0 is Corruption,
{
}

/// A commit leaves a format that is at least what its indexes need, and never a
/// lower one than there was: the second for an index, the third for one that is
/// being built.
pub proof fn formats_suffice(
    m: CatalogModel,
    stored: FormatModel,
    writer_version: Seq<char>,
    key: (u64, u64),
)
    ensures
        ({
            let writes = format_writes(m, Some(stored), writer_version);
            let left = after(
                writes,
                KeyModel::Sys(SysKey::Format),
                Some(StoredModel::Format(stored)),
            );
            &&& left is Some && left->0 is Format
            &&& ({
                let now = left->0->Format_0;
                &&& now.format_version >= stored.format_version
                &&& m.indexes.contains_key(key) ==> now.format_version >= 2
                &&& m.indexes.contains_key(key) && m.indexes[key].build_state is Some
                    ==> now.format_version >= 3
                &&& now.format_version == stored.format_version ==> now == stored
                &&& now.format_version > stored.format_version ==> now.writer_version
                    == writer_version && now.format_version <= 3
                &&& now.format_version > stored.format_version ==> exists|k: (u64, u64)| #[trigger]
                    m.indexes.contains_key(k) && (now.format_version == 3
                        ==> m.indexes[k].build_state is Some)
            })
            &&& forall|k: KeyModel, before: Option<StoredModel>|
                k != KeyModel::Sys(SysKey::Format) ==> #[trigger] after(writes, k, before) == before
        }),
{
    let writes = format_writes(m, Some(stored), writer_version);
    reveal_with_fuel(after, 2);
    if m.indexes.contains_key(key) {
        if m.indexes == Map::<(u64, u64), crate::records::IndexModel>::empty() {
            assert(!m.indexes.contains_key(key));
        }
    }
    if m.indexes != Map::<(u64, u64), crate::records::IndexModel>::empty() {
        if forall|k: (u64, u64)| !m.indexes.contains_key(k) {
            assert(m.indexes =~= Map::empty());
        }
        let k = choose|k: (u64, u64)| m.indexes.contains_key(k);
        assert(m.indexes.contains_key(k));
    }
    if crate::commit::building(m) {
        let k = choose|k: (u64, u64)| #[trigger]
            m.indexes.contains_key(k) && m.indexes[k].build_state is Some;
        assert(m.indexes.contains_key(k));
    }
    assert forall|k: KeyModel, before: Option<StoredModel>|
        k != KeyModel::Sys(SysKey::Format) implies #[trigger] after(writes, k, before) == before by {
        if writes.len() > 0 {
            assert(writes.drop_last() =~= Seq::<WriteModel>::empty());
        }
    }
    if writes.len() > 0 {
        assert(writes.drop_last() =~= Seq::<WriteModel>::empty());
    }
}

// ---------------------------------------------------------------------------
// Refreshing
// ---------------------------------------------------------------------------

/// A view is brought to the head by the commits above it, all of them; it stays
/// where the head is its own, and is read anew where the head went back. A store
/// that is being migrated, or has no head, is refused.
pub proof fn views_are_brought_to_the_head(
    m: CatalogModel,
    migrating: bool,
    head: Option<HeadModel>,
)
    ensures
        match refresh_plan(m, migrating, head) {
            Ok(RefreshPlan::Unchanged) => !migrating && head is Some && head->0.snapshot_id
                == m.snapshot.snapshot_id,
            Ok(RefreshPlan::Rescan) => !migrating && head is Some && head->0.snapshot_id
                < m.snapshot.snapshot_id,
            Ok(RefreshPlan::Replay { first, last, budget }) => {
                &&& !migrating && head is Some && head->0.snapshot_id > m.snapshot.snapshot_id
                &&& first == m.snapshot.snapshot_id + 1
                &&& last == head->0.snapshot_id
                &&& 5 * budget <= 2 * capped(record_total(m)) < 5 * budget + 5
            },
            Err(Fault::Corruption(_)) => migrating || head is None,
            Err(_) => false,
        },
{
    let n = capped(record_total(m)) as int;
    assert(0 <= n * 2 / 5 <= usize::MAX);
}

/// A commit that moves the head records the live keys that it wrote, where they
/// are not too many; and nothing that it wrote is lost.
pub proof fn commits_record_their_keys(
    head_before: u64,
    commits: u64,
    writes: Seq<WriteModel>,
    i: int,
)
    requires
        0 <= i < writes.len(),
    ensures
        recorded(head_before, commits, writes).len() >= writes.len(),
        recorded(head_before, commits, writes)[i] == writes[i],
        commits == head_before ==> recorded(head_before, commits, writes) == writes,
        recorded(head_before, commits, writes).len() > writes.len() ==> {
            let last = recorded(head_before, commits, writes).last();
            &&& recorded(head_before, commits, writes).len() == writes.len() + 1
            &&& last.0 == KeyModel::CommitDelta { snapshot_id: commits }
            &&& last.1 is Some && last.1->0 is CommitDelta
            &&& writes[i].0 is Current ==> last.1->0->CommitDelta_0.contains(writes[i].0)
        },
        commits != head_before && writes.len() <= 4096 ==> recorded(
            head_before,
            commits,
            writes,
        ).len() == writes.len() + 1,
{
    let keys = Seq::new(writes.len(), |j: int| writes[j].0);
    crate::delta::records_are_complete(keys, writes[i].0);
    assert(keys[i] == writes[i].0);
    live_keys_are_fewer(keys);
}

proof fn live_keys_are_fewer(keys: Seq<KeyModel>)
    ensures
        crate::delta::live_keys(keys).len() <= keys.len(),
    decreases keys.len(),
{
    if keys.len() > 0 {
        live_keys_are_fewer(keys.drop_last());
    }
}

// ---------------------------------------------------------------------------
// Lookups and lists
// ---------------------------------------------------------------------------

proof fn lowest_is_least(s: Set<u64>)
    requires
        s.finite(),
    ensures
        match lowest(s) {
            Some(id) => s.contains(id) && forall|k: u64| #[trigger] s.contains(k) ==> id <= k,
            None => forall|k: u64| !#[trigger] s.contains(k),
        },
{
    finite_sets_ascend::<u64>(s);
    let q = ascending::<u64>(s);
    if s != Set::<u64>::empty() {
        if q.len() == 0 {
            assert(q.to_set() =~= Set::<u64>::empty());
        }
        assert(q.to_set().contains(q[0]));
        assert forall|k: u64| #[trigger] s.contains(k) implies q[0] <= k by {
            assert(q.to_set().contains(k));
            let i = choose|i: int| 0 <= i < q.len() && q[i] == k;
            if i > 0 {
                assert(q[0] < q[i]);
            }
        }
    }
}

/// A schema's name finds the live schema of that name, the one with the lowest id
/// where there are more; nothing where there is none.
pub proof fn schemas_are_found_by_name(m: CatalogModel, name: Seq<char>, id: u64)
    requires
        m.schemas.dom().finite(),
        forall|k: u64| #[trigger] m.schemas.contains_key(k) ==> m.schemas[k].schema_id == k,
    ensures
        match schema_found(m, name) {
            Some(info) => {
                &&& m.schemas.contains_key(info.id.id)
                &&& m.schemas[info.id.id].schema_name == name
                &&& info.name == name
                &&& m.schemas.contains_key(id) && m.schemas[id].schema_name == name ==> info.id.id
                    <= id
            },
            None => !(m.schemas.contains_key(id) && m.schemas[id].schema_name == name),
        },
{
    let s = schemas_named(m, name);
    assert(s.subset_of(m.schemas.dom()));
    vstd::set_lib::lemma_set_subset_finite(m.schemas.dom(), s);
    lowest_is_least(s);
    if m.schemas.contains_key(id) && m.schemas[id].schema_name == name {
        assert(s.contains(id));
    }
}

/// A view's name finds the live view of that name in its schema, the one with the
/// lowest id where there are more; and its id finds it.
pub proof fn views_are_found(m: CatalogModel, schema_id: u64, name: Seq<char>, id: u64)
    requires
        m.views.dom().finite(),
        forall|k: u64| #[trigger] m.views.contains_key(k) ==> m.views[k].view_id == k,
    ensures
        match view_found(m, schema_id, name) {
            Some(info) => {
                &&& m.views.contains_key(info.id.id)
                &&& view_at(m, info.id.id) == Some(info)
                &&& info.schema.id == schema_id && info.name == name
                &&& m.views.contains_key(id) && m.views[id].schema_id == schema_id
                    && m.views[id].view_name == name ==> info.id.id <= id
            },
            None => !(m.views.contains_key(id) && m.views[id].schema_id == schema_id
                && m.views[id].view_name == name),
        },
        match view_at(m, id) {
            Some(info) => {
                &&& m.views.contains_key(id)
                &&& info == (ViewInfoSpec {
                    id: ViewId { id },
                    schema: SchemaId { id: m.views[id].schema_id },
                    name: m.views[id].view_name,
                    dialect: m.views[id].dialect,
                    sql: m.views[id].sql,
                })
            },
            None => !m.views.contains_key(id),
        },
{
    let s = views_named(m, schema_id, name);
    assert(s.subset_of(m.views.dom()));
    vstd::set_lib::lemma_set_subset_finite(m.views.dom(), s);
    lowest_is_least(s);
    if m.views.contains_key(id) && m.views[id].schema_id == schema_id && m.views[id].view_name
        == name {
        assert(s.contains(id));
    }
}

/// Whether ids ascend and are those that are picked.
pub open spec fn ids_are(ids: Seq<u64>, picked: spec_fn(u64) -> bool) -> bool {
    &&& forall|a: int, b: int| 0 <= a < b < ids.len() ==> (#[trigger] ids[a]) < (#[trigger] ids[b])
    &&& forall|id: u64| #[trigger] ids.contains(id) <==> picked(id)
}

/// The tables of a schema are listed by their ids, all of them and no other, each
/// with its name.
pub proof fn tables_are_listed(m: CatalogModel, schema_id: u64, ids: Seq<u64>)
    requires
        ids_are(
            ids,
            |id: u64| m.tables.contains_key(id) && m.tables[id].schema_id == schema_id,
        ),
        forall|k: u64| #[trigger] m.tables.contains_key(k) ==> m.tables[k].table_id == k,
    ensures
        tables_listed(m, schema_id).len() == ids.len(),
        forall|i: int|
            0 <= i < ids.len() ==> #[trigger] tables_listed(m, schema_id)[i] == (TableInfoSpec {
                id: TableId { id: ids[i] },
                schema: SchemaId { id: schema_id },
                name: m.tables[ids[i]].table_name,
            }),
{
    let s = tables_under(m, schema_id);
    assert(ids.to_set() =~= s) by {
        assert forall|id: u64| ids.to_set().contains(id) <==> s.contains(id) by {
            assert(ids.contains(id) <==> m.tables.contains_key(id) && m.tables[id].schema_id
                == schema_id);
        }
    }
    ascending_is_unique::<u64>(ids);
    assert forall|i: int| 0 <= i < ids.len() implies #[trigger] tables_listed(m, schema_id)[i] == (
    TableInfoSpec {
        id: TableId { id: ids[i] },
        schema: SchemaId { id: schema_id },
        name: m.tables[ids[i]].table_name,
    }) by {
        assert(ids.contains(ids[i]));
    }
}

/// The data files of a table are listed by their ids, all of them and no other.
pub proof fn data_files_are_listed(m: CatalogModel, table_id: u64, ids: Seq<u64>)
    requires
        ids_are(ids, |id: u64| m.data_files.contains_key((table_id, id))),
        forall|k: u64| #[trigger]
            m.data_files.contains_key((table_id, k)) ==> m.data_files[(table_id, k)].data_file_id
                == k,
    ensures
        data_files_listed(m, table_id).len() == ids.len(),
        forall|i: int|
            0 <= i < ids.len() ==> #[trigger] data_files_listed(m, table_id)[i] == ({
                let file = m.data_files[(table_id, ids[i])];
                DataFileInfoSpec {
                    id: DataFileId { id: ids[i] },
                    path: file.path,
                    record_count: file.record_count,
                    file_size_bytes: file.file_size_bytes,
                    row_id_start: file.row_id_start,
                }
            }),
{
    let s = scope(m.data_files, table_id);
    assert(ids.to_set() =~= s) by {
        assert forall|id: u64| ids.to_set().contains(id) <==> s.contains(id) by {
            assert(ids.contains(id) <==> m.data_files.contains_key((table_id, id)));
        }
    }
    ascending_is_unique::<u64>(ids);
    assert forall|i: int| 0 <= i < ids.len() implies #[trigger] data_files_listed(m, table_id)[i]
        == ({
        let file = m.data_files[(table_id, ids[i])];
        DataFileInfoSpec {
            id: DataFileId { id: ids[i] },
            path: file.path,
            record_count: file.record_count,
            file_size_bytes: file.file_size_bytes,
            row_id_start: file.row_id_start,
        }
    }) by {
        assert(ids.contains(ids[i]));
    }
}

/// The delete files of a table are listed by their ids, all of them and no other.
pub proof fn delete_files_are_listed(m: CatalogModel, table_id: u64, ids: Seq<u64>)
    requires
        ids_are(ids, |id: u64| m.delete_files.contains_key((table_id, id))),
        forall|k: u64| #[trigger]
            m.delete_files.contains_key((table_id, k)) ==> m.delete_files[(
                table_id,
                k,
            )].delete_file_id == k,
    ensures
        delete_files_listed(m, table_id).len() == ids.len(),
        forall|i: int|
            0 <= i < ids.len() ==> #[trigger] delete_files_listed(m, table_id)[i] == ({
                let file = m.delete_files[(table_id, ids[i])];
                DeleteFileInfoSpec {
                    id: DeleteFileId { id: ids[i] },
                    data_file_id: DataFileId { id: file.data_file_id },
                    path: file.path,
                    delete_count: file.delete_count,
                }
            }),
{
    let s = scope(m.delete_files, table_id);
    assert(ids.to_set() =~= s) by {
        assert forall|id: u64| ids.to_set().contains(id) <==> s.contains(id) by {
            assert(ids.contains(id) <==> m.delete_files.contains_key((table_id, id)));
        }
    }
    ascending_is_unique::<u64>(ids);
    assert forall|i: int| 0 <= i < ids.len() implies #[trigger] delete_files_listed(m, table_id)[i]
        == ({
        let file = m.delete_files[(table_id, ids[i])];
        DeleteFileInfoSpec {
            id: DeleteFileId { id: ids[i] },
            data_file_id: DataFileId { id: file.data_file_id },
            path: file.path,
            delete_count: file.delete_count,
        }
    }) by {
        assert(ids.contains(ids[i]));
    }
}

/// The columns of a table are listed by their positions, and by their ids where
/// they share one; all of them and no other.
pub proof fn columns_are_listed(m: CatalogModel, table_id: u64, ids: Seq<u64>)
    requires
        forall|a: int, b: int|
            0 <= a < b < ids.len() ==> {
                let left = m.columns[(table_id, #[trigger] ids[a])].column_order;
                let right = m.columns[(table_id, #[trigger] ids[b])].column_order;
                left < right || left == right && ids[a] < ids[b]
            },
        forall|id: u64| #[trigger] ids.contains(id) <==> m.columns.contains_key((table_id, id)),
        forall|k: u64| #[trigger]
            m.columns.contains_key((table_id, k)) ==> m.columns[(table_id, k)].column_id == k,
    ensures
        column_list(m, table_id).len() == ids.len(),
        forall|i: int|
            0 <= i < ids.len() ==> #[trigger] column_list(m, table_id)[i] == ({
                let c = m.columns[(table_id, ids[i])];
                ColumnInfoSpec {
                    id: ColumnId { id: ids[i] },
                    position: c.column_order,
                    name: c.column_name,
                    column_type: c.column_type,
                    nulls_allowed: c.nulls_allowed,
                    default_value: c.default_value,
                }
            }),
{
    let ranks = Seq::new(
        ids.len(),
        |i: int| (m.columns[(table_id, ids[i])].column_order, ids[i]),
    );
    assert(ascends::<(u64, u64)>(ranks)) by {
        assert forall|a: int, b: int| 0 <= a < b < ranks.len() implies <(
            u64,
            u64,
        ) as crate::ordered::Ordered>::below(#[trigger] ranks[a], #[trigger] ranks[b]) by {
            assert(ids[a] == ranks[a].1 && ids[b] == ranks[b].1);
        }
    }
    assert(ranks.to_set() =~= column_ranks(m, table_id)) by {
        assert forall|r: (u64, u64)| ranks.to_set().contains(r) <==> column_ranks(
            m,
            table_id,
        ).contains(r) by {
            if ranks.to_set().contains(r) {
                let i = choose|i: int| 0 <= i < ranks.len() && ranks[i] == r;
                assert(ids.contains(ids[i]));
            }
            if column_ranks(m, table_id).contains(r) {
                assert(ids.contains(r.1));
                let i = choose|i: int| 0 <= i < ids.len() && ids[i] == r.1;
                assert(ranks[i] == r);
            }
        }
    }
    ascending_is_unique::<(u64, u64)>(ranks);
    assert forall|i: int| 0 <= i < ids.len() implies #[trigger] column_list(m, table_id)[i] == ({
        let c = m.columns[(table_id, ids[i])];
        ColumnInfoSpec {
            id: ColumnId { id: ids[i] },
            position: c.column_order,
            name: c.column_name,
            column_type: c.column_type,
            nulls_allowed: c.nulls_allowed,
            default_value: c.default_value,
        }
    }) by {
        assert(ids.contains(ids[i]));
        assert(ranks[i].1 == ids[i]);
    }
}

/// The statistics of a column are those that the catalog has of it.
pub proof fn column_stats_are_found(m: CatalogModel, table_id: u64, column_id: u64)
    ensures
        match column_stats_found(m, table_id, column_id) {
            Some(s) => {
                let found = m.table_column_stats[(table_id, column_id)];
                &&& m.table_column_stats.contains_key((table_id, column_id))
                &&& s == (ColumnStatsSpec {
                    contains_null: found.contains_null,
                    contains_nan: found.contains_nan,
                    min_value: found.min_value,
                    max_value: found.max_value,
                    extra_stats: found.extra_stats,
                })
            },
            None => !m.table_column_stats.contains_key((table_id, column_id)),
        },
{
}

/// An option is what the scope itself has, else what its schema has where it is a
/// table, else what the catalog has.
pub proof fn options_come_from_the_nearest_scope(m: CatalogModel, scope: OptionScope, key: Seq<char>)
    ensures
        options_of(m, scope).contains_key(key) ==> option_for(m, scope, key) == Some(
            options_of(m, scope)[key],
        ),
        !options_of(m, scope).contains_key(key) ==> option_for(m, scope, key) == (match scope {
            OptionScope::Table(t) if m.tables.contains_key(t.id) && options_of(
                m,
                OptionScope::Schema(SchemaId { id: m.tables[t.id].schema_id }),
            ).contains_key(key) => Some(
                options_of(
                    m,
                    OptionScope::Schema(SchemaId { id: m.tables[t.id].schema_id }),
                )[key],
            ),
            _ => if options_of(m, OptionScope::Global).contains_key(key) {
                Some(options_of(m, OptionScope::Global)[key])
            } else {
                None
            },
        }),
{
}

/// A table's directory is its own under that of its schema.
pub proof fn tables_are_under_their_schemas(m: CatalogModel, table_id: u64)
    ensures
        match table_directory(m, table_id) {
            Some(path) => {
                let table = m.tables[table_id];
                &&& m.tables.contains_key(table_id)
                &&& m.schemas.contains_key(table.schema_id)
                &&& path == m.schemas[table.schema_id].path + table.path
            },
            None => !m.tables.contains_key(table_id) || !m.schemas.contains_key(
                m.tables[table_id].schema_id,
            ),
        },
{
}

// ---------------------------------------------------------------------------
// Counting
// ---------------------------------------------------------------------------

proof fn one_more<K, V>(m: Map<K, V>, k: K, v: V)
    requires
        m.dom().finite(),
    ensures
        !m.contains_key(k) ==> m.insert(k, v).dom().len() == m.dom().len() + 1,
{
    assert(m.insert(k, v).dom() =~= m.dom().insert(k));
}

/// Every record of a catalog counts for one, of whatever kind it is, and an empty
/// catalog has none.
pub proof fn records_are_counted(m: CatalogModel, k: u64, pair: (u64, u64), v: CatalogModel)
    requires
        finite_state(m),
    ensures
        record_total(empty_catalog(m.snapshot)) == 0,
        !m.schemas.contains_key(k) ==> record_total(
            CatalogModel { schemas: m.schemas.insert(k, v.schemas[k]), ..m },
        ) == record_total(m) + 1,
        !m.tables.contains_key(k) ==> record_total(
            CatalogModel { tables: m.tables.insert(k, v.tables[k]), ..m },
        ) == record_total(m) + 1,
        !m.views.contains_key(k) ==> record_total(
            CatalogModel { views: m.views.insert(k, v.views[k]), ..m },
        ) == record_total(m) + 1,
        !m.columns.contains_key(pair) ==> record_total(
            CatalogModel { columns: m.columns.insert(pair, v.columns[pair]), ..m },
        ) == record_total(m) + 1,
        !m.data_files.contains_key(pair) ==> record_total(
            CatalogModel { data_files: m.data_files.insert(pair, v.data_files[pair]), ..m },
        ) == record_total(m) + 1,
        !m.delete_files.contains_key(pair) ==> record_total(
            CatalogModel { delete_files: m.delete_files.insert(pair, v.delete_files[pair]), ..m },
        ) == record_total(m) + 1,
        !m.partitions.contains_key(pair) ==> record_total(
            CatalogModel { partitions: m.partitions.insert(pair, v.partitions[pair]), ..m },
        ) == record_total(m) + 1,
        !m.sorts.contains_key(pair) ==> record_total(
            CatalogModel { sorts: m.sorts.insert(pair, v.sorts[pair]), ..m },
        ) == record_total(m) + 1,
        !m.indexes.contains_key(pair) ==> record_total(
            CatalogModel { indexes: m.indexes.insert(pair, v.indexes[pair]), ..m },
        ) == record_total(m) + 1,
        !m.macros.contains_key(k) ==> record_total(
            CatalogModel { macros: m.macros.insert(k, v.macros[k]), ..m },
        ) == record_total(m) + 1,
        !m.mappings.contains_key(pair) ==> record_total(
            CatalogModel { mappings: m.mappings.insert(pair, v.mappings[pair]), ..m },
        ) == record_total(m) + 1,
        !m.table_stats.contains_key(k) ==> record_total(
            CatalogModel { table_stats: m.table_stats.insert(k, v.table_stats[k]), ..m },
        ) == record_total(m) + 1,
        !m.table_column_stats.contains_key(pair) ==> record_total(
            CatalogModel { table_column_stats: m.table_column_stats.insert(pair, v.table_column_stats[pair]), ..m },
        ) == record_total(m) + 1,
        !m.file_column_stats.contains_key((k, pair)) ==> record_total(
            CatalogModel { file_column_stats: m.file_column_stats.insert((k, pair), v.file_column_stats[(k, pair)]), ..m },
        ) == record_total(m) + 1,
        !m.options.contains_key(pair) ==> record_total(
            CatalogModel { options: m.options.insert(pair, v.options[pair]), ..m },
        ) == record_total(m) + 1,
        !m.tags.contains_key(k) ==> record_total(
            CatalogModel { tags: m.tags.insert(k, v.tags[k]), ..m },
        ) == record_total(m) + 1,
        !m.gc_files.contains_key(k) ==> record_total(
            CatalogModel { gc_files: m.gc_files.insert(k, v.gc_files[k]), ..m },
        ) == record_total(m) + 1,
{
    one_more(m.schemas, k, v.schemas[k]);
    one_more(m.tables, k, v.tables[k]);
    one_more(m.views, k, v.views[k]);
    one_more(m.columns, pair, v.columns[pair]);
    one_more(m.data_files, pair, v.data_files[pair]);
    one_more(m.delete_files, pair, v.delete_files[pair]);
    one_more(m.partitions, pair, v.partitions[pair]);
    one_more(m.sorts, pair, v.sorts[pair]);
    one_more(m.indexes, pair, v.indexes[pair]);
    one_more(m.macros, k, v.macros[k]);
    one_more(m.mappings, pair, v.mappings[pair]);
    one_more(m.table_stats, k, v.table_stats[k]);
    one_more(m.table_column_stats, pair, v.table_column_stats[pair]);
    one_more(m.file_column_stats, (k, pair), v.file_column_stats[(k, pair)]);
    one_more(m.options, pair, v.options[pair]);
    one_more(m.tags, k, v.tags[k]);
    one_more(m.gc_files, k, v.gc_files[k]);
    nothing_counts(empty_catalog(m.snapshot));
}

proof fn nothing_counts(m: CatalogModel)
    requires
        m == empty_catalog(m.snapshot),
    ensures
        record_total(m) == 0,
{
    assert(m.schemas.dom() =~= Set::empty());
    assert(m.tables.dom() =~= Set::empty());
    assert(m.views.dom() =~= Set::empty());
    assert(m.columns.dom() =~= Set::empty());
    assert(m.data_files.dom() =~= Set::empty());
    assert(m.delete_files.dom() =~= Set::empty());
    assert(m.partitions.dom() =~= Set::empty());
    assert(m.sorts.dom() =~= Set::empty());
    assert(m.indexes.dom() =~= Set::empty());
    assert(m.macros.dom() =~= Set::empty());
    assert(m.mappings.dom() =~= Set::empty());
    assert(m.table_stats.dom() =~= Set::empty());
    assert(m.table_column_stats.dom() =~= Set::empty());
    assert(m.file_column_stats.dom() =~= Set::empty());
    assert(m.options.dom() =~= Set::empty());
    assert(m.tags.dom() =~= Set::empty());
    assert(m.gc_files.dom() =~= Set::empty());
}

} // verus!
