//! Transaction layer of a table-format catalog kept in a key-value store.
pub mod api;
pub mod apply;
pub mod bytes;
pub mod catalog;
pub mod change_laws;
pub mod children;
pub mod clock;
pub mod coalesce;
pub mod commit;
pub mod commit_laws;
pub mod conflicts;
pub mod counter_laws;
pub mod decode;
pub mod deletes;
pub mod delta;
pub mod diff;
pub mod diff_laws;
pub mod effect_laws;
pub mod ends;
pub mod entities;
pub mod error;
pub mod fold;
pub mod folder;
pub mod grammar;
pub mod history_laws;
pub mod index_changes;
pub mod index_entries;
pub mod index_laws;
pub mod index_upkeep;
pub mod inline;
pub mod inline_laws;
pub mod key_text;
pub mod keys;
pub mod log_laws;
pub mod lookup_laws;
pub mod migration;
pub mod names;
pub mod operations;
pub mod ordered;
pub mod race_laws;
pub mod read_laws;
pub mod reading;
pub mod record_laws;
pub mod records;
pub mod refresh;
pub mod row_laws;
pub mod rows;
pub mod scoped;
pub mod slot_laws;
pub mod slots;
pub mod staged;
pub mod staged_laws;
pub mod staging_laws;
pub mod text;
pub mod txn;
pub mod txn_commit;
pub mod upkeep;
pub mod verb_laws;
pub mod verbs;
pub mod wire;
pub mod write_laws;
