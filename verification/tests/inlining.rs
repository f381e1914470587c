use moraine::inline::{
    inline_schema_write, tables_to_scan, translate_inline, ChunkSeqAllocator, InlineScans, InlineTable,
};
use moraine::keys::{InlineKey, InlineOperation, Key, Stored};
use moraine::records::{
    InlineChunkValue, InlineFileDeleteValue, InlineInlineDeleteValue, InlineSchemaValue,
};
use moraine::rows::RowOperation;

fn chunk_key(begin_snapshot: u64, chunk_seq: u64) -> InlineOperation {
    InlineOperation::Insert {
        table_id: 2,
        schema_version: 1,
        begin_snapshot,
        chunk_seq,
    }
}

fn chunk(row_id_start: u64, row_count: u64) -> InlineChunkValue {
    InlineChunkValue {
        body: vec![1],
        row_id_start,
        row_count,
        data_file_id: None,
    }
}

fn insert(begin_snapshot: u64, row_id_start: u64) -> RowOperation {
    RowOperation::InlineInsert {
        table_id: 2,
        schema_version: 1,
        begin_snapshot,
        row_id_start,
        row_count: 2,
        arrow_body: vec![9],
    }
}

#[test]
fn chunks_of_one_snapshot_are_numbered() {
    let mut numbers = ChunkSeqAllocator::new();
    assert_eq!(numbers.next(2, 1, 5), 0);
    assert_eq!(numbers.next(2, 1, 5), 1);
    assert_eq!(numbers.next(2, 1, 6), 0);
    assert_eq!(numbers.next(3, 1, 5), 0);

    let writes = translate_inline(&vec![insert(5, 0), insert(5, 2)], &InlineScans::new());
    assert_eq!(writes.len(), 2);
    assert_eq!(writes[0].0, Key::Inline(InlineKey::Live(chunk_key(5, 0))));
    assert_eq!(writes[1].0, Key::Inline(InlineKey::Live(chunk_key(5, 1))));
}

#[test]
fn inline_records_are_written_and_dropped() {
    let (key, value) = inline_schema_write(2, 1, &vec![7]);
    assert_eq!(
        key,
        Key::Inline(InlineKey::Schema {
            table_id: 2,
            schema_version: 1
        })
    );
    assert!(matches!(value, Some(Stored::InlineSchema(_))));

    let mut scans = InlineScans::new();
    scans.insert(
        2,
        InlineTable {
            chunks: vec![(chunk_key(3, 0), chunk(0, 2)), (chunk_key(9, 0), chunk(2, 2))],
            inline_deletes: vec![
                (1, InlineInlineDeleteValue { end_snapshot: 4 }),
                (3, InlineInlineDeleteValue { end_snapshot: 9 }),
            ],
            file_deletes: vec![((6, 0), InlineFileDeleteValue { begin_snapshot: 4 })],
            schemas: vec![(
                1,
                InlineSchemaValue {
                    arrow_schema: vec![7],
                },
            )],
        },
    );
    // Flushing through snapshot five takes the first chunk and the end of its
    // row, and leaves the second.
    let flush = RowOperation::InlineFlushDelete {
        table_id: 2,
        schema_version: 1,
        flush_snapshot: 5,
    };
    let keys: Vec<Key> = translate_inline(&vec![flush], &scans)
        .into_iter()
        .map(|write| {
            assert_eq!(write.1, None);
            write.0
        })
        .collect();
    assert_eq!(
        keys,
        vec![
            Key::Inline(InlineKey::Live(chunk_key(3, 0))),
            Key::Inline(InlineKey::Live(InlineOperation::InlineDelete {
                table_id: 2,
                row_id: 1
            })),
        ]
    );
    // Dropping takes everything.
    let drop = RowOperation::InlineDrop { table_id: 2 };
    assert_eq!(translate_inline(&vec![drop], &scans).len(), 6);
}

#[test]
fn only_emptied_tables_are_scanned() {
    let ops = vec![
        RowOperation::InlineDrop { table_id: 9 },
        RowOperation::InlineSchemaDrop {
            table_id: 4,
            schema_version: 1,
        },
        RowOperation::InlineFlushDelete {
            table_id: 3,
            schema_version: 1,
            flush_snapshot: 7,
        },
        RowOperation::InlineDrop { table_id: 3 },
    ];
    assert_eq!(*tables_to_scan(&ops).items(), vec![3, 9]);
}
