use moraine::bytes::{decode_row_id, encode_row_id, increment_prefix};
use moraine::error::Error;
use moraine::index_entries::{
    entry_key, lookup_row_ids, lookup_unique, null_prefix_row_ids, null_scan_prefix,
    places_to_read, range_end, range_row_ids, range_start, reclaim_entries, reclaim_entries_from,
    resume_suffix, stage_index_entries, Edge, HeldEntries, StagedIndexEntry,
};
use moraine::keys::{IndexKey, Key, StagedWrite, Stored, SysKey};

fn entry(unique: bool, key: &[u8], row_id: u64, delete: bool) -> StagedIndexEntry {
    StagedIndexEntry {
        index_id: 5,
        unique,
        key: key.to_vec(),
        row_id,
        delete,
    }
}

fn stage(held: &HeldEntries, entries: Vec<StagedIndexEntry>) -> Result<Vec<StagedWrite>, Error> {
    let mut writes = Vec::new();
    stage_index_entries(held, &entries, &mut writes).map(|()| writes)
}

#[test]
fn entries_are_keyed_by_value_and_row() {
    assert_eq!(
        entry_key(&entry(true, &[1], 9, false)),
        Key::Index(IndexKey::Unique {
            index_id: 5,
            key: vec![1]
        })
    );
    assert_eq!(
        entry_key(&entry(false, &[1], 9, false)),
        Key::Index(IndexKey::Multi {
            index_id: 5,
            key: vec![1],
            row_id: 9
        })
    );
}

#[test]
fn unique_values_are_checked_against_the_store() {
    let mut held = HeldEntries::new();
    held.insert((5, vec![1]), encode_row_id(4));
    // Another row has the value.
    assert!(matches!(
        stage(&held, vec![entry(true, &[1], 9, false)]),
        Err(Error::Constraint(_))
    ));
    // The same row has it: there is nothing to write.
    assert_eq!(stage(&held, vec![entry(true, &[1], 4, false)]), Ok(vec![]));
    // A value that the commit removes is free again.
    let writes = stage(
        &held,
        vec![entry(true, &[1], 9, false), entry(true, &[1], 4, true)],
    )
    .unwrap();
    assert_eq!(writes.len(), 2);
    assert_eq!(writes[0].1, None);
    assert_eq!(writes[1].1, Some(Stored::Raw(encode_row_id(9))));
    // A damaged value is reported.
    held.insert((5, vec![2]), vec![1, 2, 3]);
    assert_eq!(
        stage(&held, vec![entry(true, &[2], 9, false)]),
        Err(Error::Corruption(
            "index entry value is 3 bytes, expected 8".to_owned()
        ))
    );
}

#[test]
fn non_unique_values_may_repeat() {
    let writes = stage(
        &HeldEntries::new(),
        vec![entry(false, &[1], 4, false), entry(false, &[1], 5, false)],
    )
    .unwrap();
    assert_eq!(writes.len(), 2);
    assert_eq!(writes[0].1, Some(Stored::Raw(vec![])));
}

#[test]
fn only_unique_values_that_are_added_are_read() {
    let places = places_to_read(&vec![
        entry(true, &[3], 1, false),
        entry(true, &[2], 1, false),
        entry(false, &[1], 1, false),
        entry(true, &[4], 1, true),
    ]);
    assert_eq!(places.items().clone(), vec![(5, vec![2]), (5, vec![3])]);
}

#[test]
fn lookups_read_rows_back() {
    assert_eq!(lookup_unique(&None), Ok(vec![]));
    assert_eq!(lookup_unique(&Some(encode_row_id(258))), Ok(vec![258]));
    assert!(lookup_unique(&Some(vec![1])).is_err());
    let keys = vec![
        entry_key(&entry(false, &[1], 4, false)),
        entry_key(&entry(false, &[1], 9, false)),
    ];
    assert_eq!(lookup_row_ids(&keys), Ok(vec![4, 9]));
    assert_eq!(null_prefix_row_ids(&keys), Ok(vec![4, 9]));
    assert!(matches!(
        lookup_row_ids(&vec![Key::Sys(SysKey::Head)]),
        Err(Error::Corruption(_))
    ));
}

#[test]
fn ranges_read_rows_in_key_order() {
    let unique = vec![
        (entry_key(&entry(true, &[1], 0, false)), encode_row_id(7)),
        (entry_key(&entry(true, &[2], 0, false)), encode_row_id(3)),
    ];
    assert_eq!(range_row_ids(true, &unique), Ok(vec![7, 3]));
    let multi = vec![
        (entry_key(&entry(false, &[1], 8, false)), vec![]),
        (entry_key(&entry(false, &[2], 2, false)), vec![]),
    ];
    assert_eq!(range_row_ids(false, &multi), Ok(vec![8, 2]));
}

/// Bounds are framed values: they end in a terminator that extensions lack.
#[test]
fn range_edges_cover_the_keys_of_a_value() {
    assert!(matches!(
        range_start(Edge::Included(vec![1, 0])),
        Edge::Included(key) if key == vec![1, 0]
    ));
    assert!(matches!(
        range_start(Edge::Excluded(vec![1, 0])),
        Edge::Included(key) if key == vec![2]
    ));
    // Nothing lies above the entries of the largest value.
    assert!(matches!(
        range_start(Edge::Excluded(vec![255, 0])),
        Edge::Excluded(key) if key == vec![255, 0]
    ));
    assert!(matches!(range_start(Edge::Unbounded), Edge::Unbounded));
    assert!(matches!(
        range_end(Edge::Included(vec![1, 0])),
        Edge::Excluded(key) if key == vec![2]
    ));
    assert!(matches!(
        range_end(Edge::Included(vec![255, 0])),
        Edge::Unbounded
    ));
    assert!(matches!(
        range_end(Edge::Excluded(vec![1, 0])),
        Edge::Excluded(key) if key == vec![1, 0]
    ));
}

#[test]
fn the_least_key_above_a_prefix() {
    assert_eq!(increment_prefix(&vec![1, 2]), Some(vec![1, 3]));
    assert_eq!(increment_prefix(&vec![1, 255]), Some(vec![2]));
    assert_eq!(increment_prefix(&vec![255, 255]), None);
    assert_eq!(increment_prefix(&vec![]), None);
}

#[test]
fn row_ids_read_back() {
    for id in [0, 1, 255, 256, u64::MAX] {
        assert_eq!(encode_row_id(id), id.to_be_bytes().to_vec());
        assert_eq!(decode_row_id(&encode_row_id(id)), Ok(id));
    }
    assert!(decode_row_id(&vec![0; 9]).is_err());
}

#[test]
fn reclaiming_goes_in_batches_and_resumes() {
    let keys = vec![vec![1], vec![2], vec![3]];
    assert_eq!(
        reclaim_entries_from(&keys, 2),
        (vec![vec![1], vec![2]], Some(vec![2]))
    );
    let (all, _) = reclaim_entries_from(&keys, 5);
    assert_eq!(all, keys);
    assert_eq!(
        reclaim_entries(&vec![vec![1]], &vec![vec![8], vec![9]], 2),
        vec![vec![1], vec![8]]
    );
    assert_eq!(resume_suffix(&vec![7], &None), Vec::<u8>::new());
    assert_eq!(resume_suffix(&vec![7], &Some(vec![7, 4, 5])), vec![4, 5]);
    assert_eq!(resume_suffix(&vec![7, 8], &Some(vec![7])), Vec::<u8>::new());
}

#[test]
fn null_scans_use_the_framed_prefix() {
    let framed = vec![1, 2, 3, 4];
    let prefix = null_scan_prefix(&framed);
    assert!(framed.starts_with(&prefix));
    assert!(prefix.len() < framed.len());
}

#[test]
fn a_refused_entry_leaves_those_before_it() {
    let mut held = HeldEntries::new();
    held.insert((5, vec![2]), encode_row_id(4));
    let entries = vec![
        entry(true, &[1], 8, false),
        entry(true, &[2], 9, false),
        entry(true, &[3], 7, true),
    ];
    let mut writes = Vec::new();
    assert!(stage_index_entries(&held, &entries, &mut writes).is_err());
    // The removals come first, then the additions up to the refused one.
    assert_eq!(
        writes,
        vec![
            (entry_key(&entries[2]), None),
            (entry_key(&entries[0]), Some(Stored::Raw(encode_row_id(8)))),
        ]
    );
}
