//! Stored records folded into a catalog that is held in memory.
use crate::catalog::{CatalogModel, CatalogSnapshot};
use crate::diff_laws::live_value;
use crate::error::{refused, text_wrapped, wrapped, Error, Fault};
use crate::key_text::{key_name, key_text};
use crate::keys::{
    CurrentKey, EntityKey, Key, KeyModel, StagedWrite, Stored, StoredModel, WriteModel,
};
use crate::ordered::Record;
use vstd::prelude::*;

verus! {

pub open spec fn misplaced(key: CurrentKey) -> Fault {
    Fault::Corruption(
        wrapped("value of another kind under "@, key_name(KeyModel::Current(key)), ""@),
    )
}

fn misplaced_error(key: CurrentKey) -> (e: Error)
    ensures
        e@ == misplaced(key),
{
    Error::Corruption(
        text_wrapped("value of another kind under ", &key_text(&Key::Current(key)), ""),
    )
}

/// Whether a value is of the kind that lives under a key.
pub open spec fn belongs(key: CurrentKey, value: StoredModel) -> bool {
    match key {
        CurrentKey::Entity(EntityKey::Schema { .. }) => value is Schema,
        CurrentKey::Entity(EntityKey::Table { .. }) => value is Table,
        CurrentKey::Entity(EntityKey::View { .. }) => value is View,
        CurrentKey::Entity(EntityKey::Column { .. }) => value is Column,
        CurrentKey::Entity(EntityKey::File { .. }) => value is DataFile,
        CurrentKey::Entity(EntityKey::DeleteFile { .. }) => value is DeleteFile,
        CurrentKey::Entity(EntityKey::Partition { .. }) => value is Partition,
        CurrentKey::Entity(EntityKey::Sort { .. }) => value is Sort,
        CurrentKey::Entity(EntityKey::Index { .. }) => value is Index,
        CurrentKey::Entity(EntityKey::Macro { .. }) => value is Macro,
        CurrentKey::Entity(EntityKey::Mapping { .. }) => value is Mapping,
        CurrentKey::Entity(EntityKey::TableStats { .. }) => value is TableStats,
        CurrentKey::Entity(EntityKey::TableColumnStats { .. }) => value is TableColumnStats,
        CurrentKey::Entity(EntityKey::FileColumnStats { .. }) => value is FileColumnStats,
        CurrentKey::Entity(EntityKey::OptionScope { .. }) => value is OptionScope,
        CurrentKey::Entity(EntityKey::Tag { .. }) => value is Tag,
        CurrentKey::GcFile { .. } => value is GcFile,
    }
}

/// The catalog with a live record put, or removed where there is none.
pub open spec fn with_live(m: CatalogModel, key: CurrentKey, value: Option<StoredModel>) -> Result<
    CatalogModel,
    Fault,
> {
    if value is Some && !belongs(key, value->0) {
        Err(misplaced(key))
    } else {
        match key {
            CurrentKey::Entity(EntityKey::Schema { schema_id }) => Ok(
                CatalogModel {
                    schemas: match value {
                        Some(v) => m.schemas.insert(schema_id, v->Schema_0),
                        None => m.schemas.remove(schema_id),
                    },
                    ..m
                },
            ),
            CurrentKey::Entity(EntityKey::Table { table_id }) => Ok(
                CatalogModel {
                    tables: match value {
                        Some(v) => m.tables.insert(table_id, v->Table_0),
                        None => m.tables.remove(table_id),
                    },
                    ..m
                },
            ),
            CurrentKey::Entity(EntityKey::View { view_id }) => Ok(
                CatalogModel {
                    views: match value {
                        Some(v) => m.views.insert(view_id, v->View_0),
                        None => m.views.remove(view_id),
                    },
                    ..m
                },
            ),
            CurrentKey::Entity(EntityKey::Column { table_id, column_id }) => Ok(
                CatalogModel {
                    columns: match value {
                        Some(v) => m.columns.insert((table_id, column_id), v->Column_0),
                        None => m.columns.remove((table_id, column_id)),
                    },
                    ..m
                },
            ),
            CurrentKey::Entity(EntityKey::File { table_id, data_file_id }) => Ok(
                CatalogModel {
                    data_files: match value {
                        Some(v) => m.data_files.insert((table_id, data_file_id), v->DataFile_0),
                        None => m.data_files.remove((table_id, data_file_id)),
                    },
                    ..m
                },
            ),
            CurrentKey::Entity(EntityKey::DeleteFile { table_id, delete_file_id }) => Ok(
                CatalogModel {
                    delete_files: match value {
                        Some(v) => m.delete_files.insert((table_id, delete_file_id), v->DeleteFile_0),
                        None => m.delete_files.remove((table_id, delete_file_id)),
                    },
                    ..m
                },
            ),
            CurrentKey::Entity(EntityKey::Partition { table_id, partition_id }) => Ok(
                CatalogModel {
                    partitions: match value {
                        Some(v) => m.partitions.insert((table_id, partition_id), v->Partition_0),
                        None => m.partitions.remove((table_id, partition_id)),
                    },
                    ..m
                },
            ),
            CurrentKey::Entity(EntityKey::Sort { table_id, sort_id }) => Ok(
                CatalogModel {
                    sorts: match value {
                        Some(v) => m.sorts.insert((table_id, sort_id), v->Sort_0),
                        None => m.sorts.remove((table_id, sort_id)),
                    },
                    ..m
                },
            ),
            CurrentKey::Entity(EntityKey::Index { table_id, index_id }) => Ok(
                CatalogModel {
                    indexes: match value {
                        Some(v) => m.indexes.insert((table_id, index_id), v->Index_0),
                        None => m.indexes.remove((table_id, index_id)),
                    },
                    ..m
                },
            ),
            CurrentKey::Entity(EntityKey::Macro { macro_id }) => Ok(
                CatalogModel {
                    macros: match value {
                        Some(v) => m.macros.insert(macro_id, v->Macro_0),
                        None => m.macros.remove(macro_id),
                    },
                    ..m
                },
            ),
            CurrentKey::Entity(EntityKey::Mapping { table_id, mapping_id }) => Ok(
                CatalogModel {
                    mappings: match value {
                        Some(v) => m.mappings.insert((table_id, mapping_id), v->Mapping_0),
                        None => m.mappings.remove((table_id, mapping_id)),
                    },
                    ..m
                },
            ),
            CurrentKey::Entity(EntityKey::TableStats { table_id }) => Ok(
                CatalogModel {
                    table_stats: match value {
                        Some(v) => m.table_stats.insert(table_id, v->TableStats_0),
                        None => m.table_stats.remove(table_id),
                    },
                    ..m
                },
            ),
            CurrentKey::Entity(EntityKey::TableColumnStats { table_id, column_id }) => Ok(
                CatalogModel {
                    table_column_stats: match value {
                        Some(v) => m.table_column_stats.insert((table_id, column_id), v->TableColumnStats_0),
                        None => m.table_column_stats.remove((table_id, column_id)),
                    },
                    ..m
                },
            ),
            CurrentKey::Entity(EntityKey::FileColumnStats { table_id, data_file_id, column_id }) => Ok(
                CatalogModel {
                    file_column_stats: match value {
                        Some(v) => m.file_column_stats.insert((table_id, (data_file_id, column_id)), v->FileColumnStats_0),
                        None => m.file_column_stats.remove((table_id, (data_file_id, column_id))),
                    },
                    ..m
                },
            ),
            CurrentKey::Entity(EntityKey::OptionScope { scope_kind, scope_id }) => Ok(
                CatalogModel {
                    options: match value {
                        Some(v) => m.options.insert((scope_kind, scope_id), v->OptionScope_0),
                        None => m.options.remove((scope_kind, scope_id)),
                    },
                    ..m
                },
            ),
            CurrentKey::Entity(EntityKey::Tag { object_id }) => Ok(
                CatalogModel {
                    tags: match value {
                        Some(v) => m.tags.insert(object_id, v->Tag_0),
                        None => m.tags.remove(object_id),
                    },
                    ..m
                },
            ),
            CurrentKey::GcFile { data_file_id } => Ok(
                CatalogModel {
                    gc_files: match value {
                        Some(v) => m.gc_files.insert(data_file_id, v->GcFile_0),
                        None => m.gc_files.remove(data_file_id),
                    },
                    ..m
                },
            ),
        }
    }
}

/// Puts a live record into the catalog, or removes it where there is none.
pub fn apply_current(view: &mut CatalogSnapshot, key: CurrentKey, value: Option<Stored>) -> (r: Result<
    (),
    Error,
>)
    ensures
        match with_live(old(view)@, key, value.deep_view()) {
            Err(f) => refused(r, f) && final(view)@ == old(view)@,
            Ok(m) => r is Ok && final(view)@ == m,
        },
{
    match key {
        CurrentKey::Entity(EntityKey::Schema { schema_id }) => match value {
            Some(Stored::Schema(v)) => {
                view.schemas.insert(schema_id, v);
            },
            Some(_) => return Err(misplaced_error(key)),
            None => {
                let _ = view.schemas.remove(&schema_id);
            },
        },
        CurrentKey::Entity(EntityKey::Table { table_id }) => match value {
            Some(Stored::Table(v)) => {
                view.tables.insert(table_id, v);
            },
            Some(_) => return Err(misplaced_error(key)),
            None => {
                let _ = view.tables.remove(&table_id);
            },
        },
        CurrentKey::Entity(EntityKey::View { view_id }) => match value {
            Some(Stored::View(v)) => {
                view.views.insert(view_id, v);
            },
            Some(_) => return Err(misplaced_error(key)),
            None => {
                let _ = view.views.remove(&view_id);
            },
        },
        CurrentKey::Entity(EntityKey::Column { table_id, column_id }) => match value {
            Some(Stored::Column(v)) => {
                view.columns.insert((table_id, column_id), v);
            },
            Some(_) => return Err(misplaced_error(key)),
            None => {
                let _ = view.columns.remove(&(table_id, column_id));
            },
        },
        CurrentKey::Entity(EntityKey::File { table_id, data_file_id }) => match value {
            Some(Stored::DataFile(v)) => {
                view.data_files.insert((table_id, data_file_id), v);
            },
            Some(_) => return Err(misplaced_error(key)),
            None => {
                let _ = view.data_files.remove(&(table_id, data_file_id));
            },
        },
        CurrentKey::Entity(EntityKey::DeleteFile { table_id, delete_file_id }) => match value {
            Some(Stored::DeleteFile(v)) => {
                view.delete_files.insert((table_id, delete_file_id), v);
            },
            Some(_) => return Err(misplaced_error(key)),
            None => {
                let _ = view.delete_files.remove(&(table_id, delete_file_id));
            },
        },
        CurrentKey::Entity(EntityKey::Partition { table_id, partition_id }) => match value {
            Some(Stored::Partition(v)) => {
                view.partitions.insert((table_id, partition_id), v);
            },
            Some(_) => return Err(misplaced_error(key)),
            None => {
                let _ = view.partitions.remove(&(table_id, partition_id));
            },
        },
        CurrentKey::Entity(EntityKey::Sort { table_id, sort_id }) => match value {
            Some(Stored::Sort(v)) => {
                view.sorts.insert((table_id, sort_id), v);
            },
            Some(_) => return Err(misplaced_error(key)),
            None => {
                let _ = view.sorts.remove(&(table_id, sort_id));
            },
        },
        CurrentKey::Entity(EntityKey::Index { table_id, index_id }) => match value {
            Some(Stored::Index(v)) => {
                view.indexes.insert((table_id, index_id), v);
            },
            Some(_) => return Err(misplaced_error(key)),
            None => {
                let _ = view.indexes.remove(&(table_id, index_id));
            },
        },
        CurrentKey::Entity(EntityKey::Macro { macro_id }) => match value {
            Some(Stored::Macro(v)) => {
                view.macros.insert(macro_id, v);
            },
            Some(_) => return Err(misplaced_error(key)),
            None => {
                let _ = view.macros.remove(&macro_id);
            },
        },
        CurrentKey::Entity(EntityKey::Mapping { table_id, mapping_id }) => match value {
            Some(Stored::Mapping(v)) => {
                view.mappings.insert((table_id, mapping_id), v);
            },
            Some(_) => return Err(misplaced_error(key)),
            None => {
                let _ = view.mappings.remove(&(table_id, mapping_id));
            },
        },
        CurrentKey::Entity(EntityKey::TableStats { table_id }) => match value {
            Some(Stored::TableStats(v)) => {
                view.table_stats.insert(table_id, v);
            },
            Some(_) => return Err(misplaced_error(key)),
            None => {
                let _ = view.table_stats.remove(&table_id);
            },
        },
        CurrentKey::Entity(EntityKey::TableColumnStats { table_id, column_id }) => match value {
            Some(Stored::TableColumnStats(v)) => {
                view.table_column_stats.insert((table_id, column_id), v);
            },
            Some(_) => return Err(misplaced_error(key)),
            None => {
                let _ = view.table_column_stats.remove(&(table_id, column_id));
            },
        },
        CurrentKey::Entity(EntityKey::FileColumnStats { table_id, data_file_id, column_id }) => match value {
            Some(Stored::FileColumnStats(v)) => {
                view.file_column_stats.insert((table_id, (data_file_id, column_id)), v);
            },
            Some(_) => return Err(misplaced_error(key)),
            None => {
                let _ = view.file_column_stats.remove(&(table_id, (data_file_id, column_id)));
            },
        },
        CurrentKey::Entity(EntityKey::OptionScope { scope_kind, scope_id }) => match value {
            Some(Stored::OptionScope(v)) => {
                view.options.insert((scope_kind, scope_id), v);
            },
            Some(_) => return Err(misplaced_error(key)),
            None => {
                let _ = view.options.remove(&(scope_kind, scope_id));
            },
        },
        CurrentKey::Entity(EntityKey::Tag { object_id }) => match value {
            Some(Stored::Tag(v)) => {
                view.tags.insert(object_id, v);
            },
            Some(_) => return Err(misplaced_error(key)),
            None => {
                let _ = view.tags.remove(&object_id);
            },
        },
        CurrentKey::GcFile { data_file_id } => match value {
            Some(Stored::GcFile(v)) => {
                view.gc_files.insert(data_file_id, v);
            },
            Some(_) => return Err(misplaced_error(key)),
            None => {
                let _ = view.gc_files.remove(&data_file_id);
            },
        },
    }
    Ok(())
}

/// A record that is put is found under its key, and every other key keeps what
/// it held.
pub proof fn folded_records_are_found(m: CatalogModel, key: CurrentKey, value: Option<StoredModel>, other: CurrentKey)
    requires
        with_live(m, key, value) is Ok,
    ensures
        live_value(with_live(m, key, value)->Ok_0, key) == value,
        other != key ==> live_value(with_live(m, key, value)->Ok_0, other) == live_value(m, other),
        with_live(m, key, value)->Ok_0.snapshot == m.snapshot,
{
}

/// The catalog with one write of a commit folded in: a live record, or the
/// snapshot. Other writes are not part of a catalog.
pub open spec fn with_write(m: CatalogModel, write: WriteModel) -> Result<CatalogModel, Fault> {
    match write {
        (KeyModel::Current(key), value) => with_live(m, key, value),
        (KeyModel::Snapshot { .. }, Some(StoredModel::Snapshot(s))) => Ok(
            CatalogModel { snapshot: s, ..m },
        ),
        _ => Ok(m),
    }
}

/// The catalog with the writes of a commit folded in, in order.
pub open spec fn with_writes(m: CatalogModel, writes: Seq<WriteModel>) -> Result<CatalogModel, Fault>
    decreases writes.len(),
{
    if writes.len() == 0 {
        Ok(m)
    } else {
        match with_writes(m, writes.drop_last()) {
            Err(f) => Err(f),
            Ok(next) => with_write(next, writes.last()),
        }
    }
}

/// The catalog with the writes folded in that come before the first one that is
/// refused; all of them where none is.
pub open spec fn with_writes_until(m: CatalogModel, writes: Seq<WriteModel>) -> CatalogModel
    decreases writes.len(),
{
    if writes.len() == 0 {
        m
    } else {
        match with_writes(m, writes.drop_last()) {
            Err(_) => with_writes_until(m, writes.drop_last()),
            Ok(before) => match with_write(before, writes.last()) {
                Err(_) => before,
                Ok(next) => next,
            },
        }
    }
}

proof fn write_refusal_stays(m: CatalogModel, writes: Seq<WriteModel>, n: int)
    requires
        0 <= n <= writes.len(),
        with_writes(m, writes.take(n)) is Err,
    ensures
        with_writes(m, writes) == with_writes(m, writes.take(n)),
        with_writes_until(m, writes) == with_writes_until(m, writes.take(n)),
    decreases writes.len(),
{
    if n == writes.len() {
        assert(writes.take(n) =~= writes);
    } else {
        assert(writes.drop_last().take(n) =~= writes.take(n));
        write_refusal_stays(m, writes.drop_last(), n);
    }
}

fn apply_write(view: &mut CatalogSnapshot, write: &StagedWrite) -> (r: Result<(), Error>)
    ensures
        match with_write(old(view)@, write.deep_view()) {
            Err(f) => refused(r, f) && final(view)@ == old(view)@,
            Ok(m) => r is Ok && final(view)@ == m,
        },
{
    match &write.0 {
        Key::Current(key) => apply_current(view, *key, write.1.dup()),
        Key::Snapshot { .. } => {
            match &write.1 {
                Some(Stored::Snapshot(s)) => {
                    view.snapshot = s.dup();
                },
                _ => {},
            }
            Ok(())
        },
        _ => Ok(()),
    }
}

/// Folds the writes of a commit into the catalog. Where one is refused, those
/// before it stay folded in.
pub fn fold_batch(view: &mut CatalogSnapshot, writes: &Vec<StagedWrite>) -> (r: Result<(), Error>)
    ensures
        match with_writes(old(view)@, writes.deep_view()) {
            Err(f) => refused(r, f) && final(view)@ == with_writes_until(
                old(view)@,
                writes.deep_view(),
            ),
            Ok(m) => r is Ok && final(view)@ == m,
        },
{
    let ghost q = writes.deep_view();
    let mut i: usize = 0;
    assert(q.take(0) =~= Seq::<WriteModel>::empty());
    while i < writes.len()
        invariant
            i <= writes@.len(),
            q == writes.deep_view(),
            with_writes(old(view)@, q.take(i as int)) == Ok::<CatalogModel, Fault>(view@),
        decreases writes.len() - i,
    {
        proof {
            let next = q.take(i + 1);
            assert(next.drop_last() =~= q.take(i as int));
            assert(next.last() == writes@[i as int].deep_view());
        }
        match apply_write(view, &writes[i]) {
            Err(e) => {
                proof {
                    write_refusal_stays(old(view)@, q, i + 1);
                }
                return Err(e);
            },
            Ok(()) => {},
        }
        i = i + 1;
    }
    assert(q.take(q.len() as int) =~= q);
    Ok(())
}

/// Folding the writes of a commit leaves under every live key what the writes
/// leave in the store.
pub proof fn folding_follows_the_store(m: CatalogModel, writes: Seq<WriteModel>, key: CurrentKey)
    requires
        with_writes(m, writes) is Ok,
    ensures
        live_value(with_writes(m, writes)->Ok_0, key) == crate::keys::after(
            writes,
            KeyModel::Current(key),
            live_value(m, key),
        ),
    decreases writes.len(),
{
    if writes.len() > 0 {
        let front = writes.drop_last();
        folding_follows_the_store(m, front, key);
        let before = with_writes(m, front)->Ok_0;
        match writes.last() {
            (KeyModel::Current(k), value) => {
                folded_records_are_found(before, k, value, key);
            },
            _ => {},
        }
    }
}

/// Where a run of writes is refused, what is folded is the longest run of the
/// first ones that is not.
pub proof fn refused_writes_leave_those_before(m: CatalogModel, writes: Seq<WriteModel>) -> (n: int)
    ensures
        0 <= n <= writes.len(),
        with_writes(m, writes.take(n)) == Ok::<CatalogModel, Fault>(with_writes_until(m, writes)),
        n == writes.len() || with_writes(m, writes.take(n + 1)) is Err,
    decreases writes.len(),
{
    if writes.len() == 0 {
        assert(writes.take(0) =~= writes);
        0
    } else {
        let front = writes.drop_last();
        let n = refused_writes_leave_those_before(m, front);
        assert(front.take(n) =~= writes.take(n));
        if n < front.len() {
            assert(front.take(n + 1) =~= writes.take(n + 1));
            write_refusal_stays(m, front, n + 1);
            n
        } else {
            assert(front.take(n) =~= front);
            assert(writes.take(n + 1) =~= writes);
            if with_writes(m, writes) is Ok {
                n + 1
            } else {
                n
            }
        }
    }
}

} // verus!
