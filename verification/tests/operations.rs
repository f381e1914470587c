use moraine::conflicts::conflicts;
use moraine::operations::{ChangeSet, Operation};
use moraine::ordered::OrdSet;

fn create_schema(schema_id: u64, name: &str) -> Operation {
    Operation::CreateSchema {
        schema_id,
        name: name.to_owned(),
    }
}

fn create_table(
    schema_id: u64,
    table_id: u64,
    schema_name: &str,
    table_name: &str,
) -> Operation {
    Operation::CreateTable {
        schema_id,
        table_id,
        schema_name: schema_name.to_owned(),
        table_name: table_name.to_owned(),
    }
}

#[test]
fn data_plane_ops_serialize_in_ducklake_order() {
    let ops = [
        create_schema(1, "s1"),
        Operation::RegisterDataFile { table_id: 7 },
        Operation::RegisterDeleteFile { table_id: 8 },
        Operation::ExpireDataFile { table_id: 9 },
        Operation::ExpireDeleteFile { table_id: 9 },
        Operation::AlterTable { table_id: 3 },
        Operation::UpdateStats { table_id: 7 },
    ];
    let set = ChangeSet::from_operations(&ops);
    assert_eq!(
        set.to_changes_made(),
        r#"created_schema:"s1",inserted_into_table:7,deleted_from_table:8,altered_table:3,merge_adjacent:9,rewrite_delete:9"#
    );
    assert_eq!(ChangeSet::parse(&set.to_changes_made()), {
        let mut expect = set.clone();
        expect.created_table_schema_ids.clear();
        expect
    });
}

#[test]
fn stats_ops_emit_nothing_but_are_ops() {
    let ops = [Operation::UpdateStats { table_id: 7 }];
    let set = ChangeSet::from_operations(&ops);
    assert_eq!(set.to_changes_made(), "");
    assert!(!ops[0].is_schema_changing());
    // An empty change set conflicts with nothing.
    let drop = ChangeSet::from_operations(&[Operation::DropTable { table_id: 7 }]);
    assert!(!conflicts(&set, &drop));
}

#[test]
fn append_append_is_benign() {
    let a = ChangeSet::from_operations(&[Operation::RegisterDataFile { table_id: 1 }]);
    let b = ChangeSet::from_operations(&[Operation::RegisterDataFile { table_id: 1 }]);
    assert!(!conflicts(&a, &b));
    // Appends are also benign against compactions of the same table.
    let c = ChangeSet::from_operations(&[Operation::ExpireDataFile { table_id: 1 }]);
    assert!(!conflicts(&a, &c));
}

#[test]
fn the_conflict_matrix() {
    let insert = |t| ChangeSet::from_operations(&[Operation::RegisterDataFile { table_id: t }]);
    let delete =
        |t| ChangeSet::from_operations(&[Operation::RegisterDeleteFile { table_id: t }]);
    let alter = |t| ChangeSet::from_operations(&[Operation::AlterTable { table_id: t }]);
    let drop = |t| ChangeSet::from_operations(&[Operation::DropTable { table_id: t }]);
    let compact =
        |t| ChangeSet::from_operations(&[Operation::ExpireDeleteFile { table_id: t }]);

    // Conflicting pairs.
    assert!(conflicts(&insert(1), &alter(1)));
    assert!(conflicts(&insert(1), &delete(1)));
    assert!(conflicts(&insert(1), &drop(1)));
    assert!(conflicts(&delete(1), &delete(1)));
    assert!(conflicts(&delete(1), &compact(1)));
    assert!(conflicts(&delete(1), &alter(1)));
    assert!(conflicts(&delete(1), &drop(1)));
    assert!(conflicts(&alter(1), &alter(1)));
    assert!(conflicts(&alter(1), &drop(1)));
    assert!(conflicts(&compact(1), &compact(1)));
    assert!(conflicts(&compact(1), &drop(1)));
    // Benign pairs.
    assert!(!conflicts(&insert(1), &insert(1)));
    assert!(!conflicts(&insert(1), &compact(1)));
    assert!(!conflicts(&alter(1), &compact(1)));
    assert!(!conflicts(&drop(1), &drop(1)));
    // Different tables never conflict.
    assert!(!conflicts(&delete(1), &delete(2)));
}

#[test]
fn parsed_compaction_kinds_classify_as_compaction() {
    let theirs = ChangeSet::parse("compacted_table:1");
    assert!(!theirs.has_unknown);
    let ours = ChangeSet::from_operations(&[Operation::RegisterDeleteFile { table_id: 1 }]);
    assert!(conflicts(&ours, &theirs));
    let benign = ChangeSet::from_operations(&[Operation::RegisterDataFile { table_id: 1 }]);
    assert!(!conflicts(&benign, &theirs));
}

#[test]
fn changes_made_exact_serialization() {
    let ops = [
        create_schema(1, "s1"),
        create_table(1, 2, "s1", "orders"),
        Operation::AlterTable { table_id: 3 },
        Operation::DropTable { table_id: 4 },
        Operation::DropSchema { schema_id: 5 },
    ];
    let set = ChangeSet::from_operations(&ops);
    let text = set.to_changes_made();
    assert_eq!(
        text,
        r#"dropped_schema:5,dropped_table:4,created_schema:"s1",created_table:"s1"."orders",altered_table:3"#
    );
}

#[test]
fn round_trip_clears_created_table_schema_ids() {
    let ops = [
        create_schema(1, "s1"),
        create_table(1, 2, "s1", "orders"),
        Operation::AlterTable { table_id: 3 },
        Operation::DropTable { table_id: 4 },
        Operation::DropSchema { schema_id: 5 },
    ];
    let set = ChangeSet::from_operations(&ops);
    let text = set.to_changes_made();
    let parsed = ChangeSet::parse(&text);
    let expected = ChangeSet {
        created_table_schema_ids: OrdSet::new(),
        ..set
    };
    assert_eq!(parsed, expected);
    assert_eq!(ChangeSet::parse(""), ChangeSet::default());
}

#[test]
fn quoting_edges_round_trip() {
    // Names containing a comma, a dot, and an embedded quote must all
    // round-trip through the quoted grammar unchanged.
    let ops = [create_schema(1, "s,1"), create_table(2, 3, "a.b", r#"c"d"#)];
    let set = ChangeSet::from_operations(&ops);
    let text = set.to_changes_made();
    assert_eq!(text, r#"created_schema:"s,1",created_table:"a.b"."c""d""#);
    let parsed = ChangeSet::parse(&text);
    assert_eq!(parsed.created_schemas, set.created_schemas);
    assert_eq!(parsed.created_tables, set.created_tables);
    assert!(!parsed.has_unknown);
}

#[test]
fn kind_matching_is_case_insensitive() {
    let parsed = ChangeSet::parse(r#"CREATED_SCHEMA:"x""#);
    assert!(!parsed.has_unknown);
    assert!(parsed.created_schemas.contains(&"x".to_owned()));
}

#[test]
fn known_ducklake_kind_moraine_does_not_model_is_unknown() {
    let parsed = ChangeSet::parse("inline_flush:7");
    assert!(parsed.has_unknown);
    assert!(conflicts(&ChangeSet::default(), &parsed));
}

#[test]
fn unknown_entries_are_conservative() {
    let parsed = ChangeSet::parse("flushed_inline:7");
    assert!(parsed.has_unknown);
    assert!(conflicts(&ChangeSet::default(), &parsed));
}

#[test]
fn malformed_payload_is_unknown() {
    // A created_schema payload missing the closing quote is malformed.
    let parsed = ChangeSet::parse(r#"created_schema:"unterminated"#);
    assert!(parsed.has_unknown);
    // A dropped_table payload that is not numeric is malformed.
    let parsed = ChangeSet::parse("dropped_table:not_a_number");
    assert!(parsed.has_unknown);
}

#[test]
fn disjoint_tables_are_benign() {
    let ours = ChangeSet::from_operations(&[Operation::AlterTable { table_id: 1 }]);
    let theirs = ChangeSet::from_operations(&[Operation::AlterTable { table_id: 2 }]);
    assert!(!conflicts(&ours, &theirs));
}

#[test]
fn overlapping_tables_conflict() {
    let ours = ChangeSet::from_operations(&[Operation::AlterTable { table_id: 1 }]);
    let dropped = ChangeSet::from_operations(&[Operation::DropTable { table_id: 1 }]);
    assert!(conflicts(&ours, &dropped));
    assert!(conflicts(&dropped, &ours));
}

#[test]
fn schema_list_is_coarse_grained() {
    let create = ChangeSet::from_operations(&[create_schema(1, "s1")]);
    let drop = ChangeSet::from_operations(&[Operation::DropSchema { schema_id: 9 }]);
    assert!(conflicts(&create, &drop));
    // A table-only commit does not touch the schema list.
    let alter = ChangeSet::from_operations(&[Operation::AlterTable { table_id: 1 }]);
    assert!(!conflicts(&alter, &drop));
}

#[test]
fn create_inside_dropped_schema_conflicts() {
    let ours = ChangeSet::from_operations(&[create_table(3, 8, "s3", "t8")]);
    let theirs = ChangeSet::from_operations(&[Operation::DropSchema { schema_id: 3 }]);
    assert!(conflicts(&ours, &theirs));
    assert!(conflicts(&theirs, &ours));
    // Creation in a surviving schema is benign.
    let elsewhere = ChangeSet::from_operations(&[create_table(4, 9, "s4", "t9")]);
    assert!(!conflicts(&elsewhere, &theirs));
}

#[test]
fn parsed_created_table_schema_ids_stay_empty() {
    // The wire grammar carries names, not schema ids, for created
    // entries, so a parsed ChangeSet can never populate
    // created_table_schema_ids — the create-inside-dropped-schema
    // check is a from_ops-only capability for our own side.
    let ours = ChangeSet::from_operations(&[create_table(3, 8, "s3", "t8")]);
    let parsed = ChangeSet::parse(&ours.to_changes_made());
    assert!(parsed.created_table_schema_ids.is_empty());
    let theirs = ChangeSet::from_operations(&[Operation::DropSchema { schema_id: 3 }]);
    // The parsed side can no longer detect its own creation inside
    // the dropped schema by this mechanism; the closure re-run on
    // retry covers that risk instead (see the field's doc comment).
    assert!(!conflicts(&parsed, &theirs));
}

#[test]
fn fresh_created_tables_never_conflict_by_id() {
    let a = ChangeSet::from_operations(&[create_table(1, 7, "s1", "t7")]);
    let b = ChangeSet::from_operations(&[create_table(1, 7, "s1", "t7")]);
    // Same ids cannot happen for real (ids are allocated above head),
    // but creation is not a mutation of existing state either way.
    assert!(!conflicts(&a, &b));
}

#[test]
fn view_ops_serialize_and_round_trip() {
    let ops = [
        Operation::CreateView {
            schema_id: 1,
            view_id: 4,
            schema_name: "s".into(),
            view_name: "v".into(),
        },
        Operation::DropView { view_id: 5 },
        Operation::AlterView { view_id: 6 },
    ];
    let set = ChangeSet::from_operations(&ops);
    assert_eq!(
        set.to_changes_made(),
        r#"dropped_view:5,created_view:"s"."v",altered_view:6"#
    );
    assert_eq!(ChangeSet::parse(&set.to_changes_made()), {
        let mut e = set.clone();
        e.created_view_schema_ids.clear();
        e.created_table_schema_ids.clear();
        e
    });
    assert!(ops.iter().all(Operation::is_schema_changing));
}

#[test]
fn macro_ops_serialize_and_round_trip() {
    let ops = [
        Operation::CreateMacro {
            schema_id: 1,
            macro_id: 4,
            schema_name: "s".into(),
            macro_name: "m".into(),
            macro_type: "scalar".into(),
        },
        Operation::CreateMacro {
            schema_id: 1,
            macro_id: 5,
            schema_name: "s".into(),
            macro_name: "tm".into(),
            macro_type: "table".into(),
        },
        Operation::DropMacro {
            macro_id: 6,
            macro_type: "scalar".into(),
        },
        Operation::DropMacro {
            macro_id: 7,
            macro_type: "table".into(),
        },
    ];
    let set = ChangeSet::from_operations(&ops);
    assert_eq!(
        set.to_changes_made(),
        r#"created_scalar_macro:"s"."m",created_table_macro:"s"."tm",dropped_scalar_macro:6,dropped_table_macro:7"#
    );
    assert_eq!(ChangeSet::parse(&set.to_changes_made()), {
        let mut e = set.clone();
        e.created_macro_schema_ids.clear();
        e
    });
    assert!(ops.iter().all(Operation::is_schema_changing));
}

#[test]
fn macro_conflicts_classify_like_views() {
    // Two drops of one macro classify benign: like tables and views,
    // the loser's closure re-run sees the macro gone and surfaces
    // NotFound — set comparison never has to catch it.
    let drop = ChangeSet::from_operations(&[Operation::DropMacro {
        macro_id: 9,
        macro_type: "scalar".into(),
    }]);
    assert!(!conflicts(&drop, &drop));
    // Creating a macro inside a schema another commit dropped conflicts.
    let create = ChangeSet::from_operations(&[Operation::CreateMacro {
        schema_id: 3,
        macro_id: 7,
        schema_name: "s".into(),
        macro_name: "m".into(),
        macro_type: "scalar".into(),
    }]);
    let drop_schema = ChangeSet::from_operations(&[Operation::DropSchema { schema_id: 3 }]);
    assert!(conflicts(&create, &drop_schema));
    assert!(conflicts(&drop_schema, &create));
}

#[test]
fn view_conflicts_classify_at_id_grain() {
    let alter = ChangeSet::from_operations(&[Operation::AlterView { view_id: 9 }]);
    let drop = ChangeSet::from_operations(&[Operation::DropView { view_id: 9 }]);
    assert!(conflicts(&alter, &drop));
    assert!(conflicts(&alter, &alter));
    let other = ChangeSet::from_operations(&[Operation::AlterView { view_id: 8 }]);
    assert!(!conflicts(&alter, &other));
    // Creating a view inside a schema another commit dropped conflicts.
    let create = ChangeSet::from_operations(&[Operation::CreateView {
        schema_id: 3,
        view_id: 7,
        schema_name: "s".into(),
        view_name: "v".into(),
    }]);
    let drop_schema = ChangeSet::from_operations(&[Operation::DropSchema { schema_id: 3 }]);
    assert!(conflicts(&create, &drop_schema));
}

#[test]
fn ddl_ops_are_schema_changing() {
    assert!(create_schema(0, "s").is_schema_changing());
    assert!(Operation::AlterTable { table_id: 0 }.is_schema_changing());
    assert!(Operation::DropTable { table_id: 0 }.is_schema_changing());
}

#[test]
fn data_plane_ops_are_not_schema_changing() {
    assert!(!Operation::RegisterDataFile { table_id: 0 }.is_schema_changing());
    assert!(!Operation::RegisterDeleteFile { table_id: 0 }.is_schema_changing());
    assert!(!Operation::ExpireDataFile { table_id: 0 }.is_schema_changing());
    assert!(!Operation::ExpireDeleteFile { table_id: 0 }.is_schema_changing());
    assert!(!Operation::UpdateStats { table_id: 0 }.is_schema_changing());
}

#[test]
fn runs_of_operations_join() {
    let a = || create_schema(1, "s");
    let b = || Operation::AlterTable { table_id: 4 };
    let joined = ChangeSet::from_operations(&[a(), b()]);
    assert_eq!(joined, ChangeSet::from_operations(&[b(), a()]));
    let mut either = ChangeSet::from_operations(&[a()]);
    either.altered_tables.insert(4);
    assert_eq!(joined, either);
    // Touching more never turns a conflict benign.
    let dropped = ChangeSet::from_operations(&[Operation::DropTable { table_id: 4 }]);
    assert!(conflicts(&ChangeSet::from_operations(&[b()]), &dropped));
    assert!(conflicts(&joined, &dropped));
    assert!(conflicts(&dropped, &joined));
}
