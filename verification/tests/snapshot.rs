use risotto::addr::IpAddress;
use risotto::snapshot::{
    corrupted_path, dump_state, dumped, load, load_decoded, load_state, restored,
    snapshot_entries, temp_path, LoadAction, ReadOutcome, SnapshotError,
};
use risotto::state_store::memory::MemoryStore;
use risotto::state_store::store::StateStore;

fn sample() -> MemoryStore {
    MemoryStore::from_entries(&vec![
        (
            0xffff_0a00_0001,
            0xffff_c000_0201,
            vec![
                (0xffff_0a00_0100, 24, false, false, 1000),
                (0xffff_0a00_0200, 24, true, false, 2000),
                (0x2001_0db8 << 96, 32, false, true, -5),
            ],
        ),
        (0xffff_0a00_0001, 0xffff_c000_0202, vec![]),
        (0x2001_0db8 << 96, 1, vec![(0, 0, false, false, i64::MAX)]),
    ])
}

fn listing(store: &MemoryStore) -> Vec<(u128, u128, Vec<(u128, u8, bool, bool, i64)>)> {
    let mut entries = snapshot_entries(store);
    for e in entries.iter_mut() {
        e.2.sort();
    }
    entries.sort();
    entries
}

#[test]
fn entries_list_every_peer_and_prefix_once() {
    let entries = listing(&sample());
    assert_eq!(
        entries,
        vec![
            (
                0xffff_0a00_0001,
                0xffff_c000_0201,
                vec![
                    (0xffff_0a00_0100, 24, false, false, 1000),
                    (0xffff_0a00_0200, 24, true, false, 2000),
                    (0x2001_0db8 << 96, 32, false, true, -5),
                ]
            ),
            (0xffff_0a00_0001, 0xffff_c000_0202, vec![]),
            (0x2001_0db8 << 96, 1, vec![(0, 0, false, false, i64::MAX)]),
        ]
    );
}

#[test]
fn later_entries_count_where_a_snapshot_repeats_itself() {
    let store = MemoryStore::from_entries(&vec![
        (1, 2, vec![(10, 8, false, false, 1), (10, 8, false, false, 2)]),
        (1, 3, vec![(11, 8, false, false, 1)]),
        (1, 3, vec![(12, 8, false, false, 9)]),
    ]);
    assert_eq!(
        listing(&store),
        vec![(1, 2, vec![(10, 8, false, false, 2)]), (1, 3, vec![(12, 8, false, false, 9)])]
    );
}

#[test]
fn dump_then_load_gives_the_same_view() {
    let store = sample();
    let octets = dump_state(&store).unwrap();
    let loaded = load_state(&octets).unwrap();
    assert_eq!(listing(&loaded), listing(&store));
    let again = dump_state(&loaded).unwrap();
    assert_eq!(listing(&load_state(&again).unwrap()), listing(&store));
}

#[test]
fn empty_view_round_trips() {
    let octets = dump_state(&MemoryStore::new()).unwrap();
    assert_eq!(octets, vec![0; 8]);
    let loaded = load_state(&octets).unwrap();
    assert!(loaded.get_peers().is_empty());
}

#[test]
fn dump_is_length_prefixed_little_endian() {
    let store = MemoryStore::from_entries(&vec![(1, 2, vec![(3, 24, true, false, 5)])]);
    let octets = dump_state(&store).unwrap();
    let mut expected: Vec<u8> = Vec::new();
    expected.extend_from_slice(&1u64.to_le_bytes());
    expected.extend_from_slice(&1u128.to_le_bytes());
    expected.extend_from_slice(&2u128.to_le_bytes());
    expected.extend_from_slice(&1u64.to_le_bytes());
    expected.extend_from_slice(&3u128.to_le_bytes());
    expected.push(24);
    expected.push(1);
    expected.push(0);
    expected.extend_from_slice(&5i64.to_le_bytes());
    assert_eq!(octets, expected);
}

#[test]
fn malformed_octets_are_refused() {
    assert_eq!(load_state(&[1, 2, 3]).err(), Some(SnapshotError::Malformed));
    assert_eq!(load_state(&[]).err(), Some(SnapshotError::Malformed));
    let mut octets = dump_state(&sample()).unwrap();
    octets.truncate(octets.len() - 1);
    assert_eq!(load_state(&octets).err(), Some(SnapshotError::Malformed));
}

#[test]
fn paths_are_derived_from_the_snapshot_path() {
    assert_eq!(temp_path("state.bin"), "state.bin.tmp");
    assert_eq!(corrupted_path("state.bin", 1_700_000_000), "state.bin.corrupted-1700000000");
    assert_eq!(corrupted_path("/var/lib/risotto/state", 0), "/var/lib/risotto/state.corrupted-0");
}

#[test]
fn missing_or_unreadable_file_starts_empty() {
    assert!(matches!(load("state.bin", ReadOutcome::Missing, 1), LoadAction::StartEmpty));
    assert!(matches!(load("state.bin", ReadOutcome::Unreadable, 1), LoadAction::StartEmpty));
}

#[test]
fn corrupt_file_is_set_aside() {
    match load("state.bin", ReadOutcome::Octets(vec![9, 9, 9]), 1234) {
        LoadAction::SetAside(to) => assert_eq!(to, "state.bin.corrupted-1234"),
        _ => panic!("expected the file to be set aside"),
    }
}

#[test]
fn good_file_is_installed() {
    let octets = dump_state(&sample()).unwrap();
    match load("state.bin", ReadOutcome::Octets(octets), 1234) {
        LoadAction::Install(store) => {
            assert_eq!(listing(&store), listing(&sample()));
            let prefixes = store.get_updates_by_peer(
                &IpAddress::v4(10, 0, 0, 1),
                &IpAddress::v4(192, 0, 2, 1),
            );
            assert_eq!(prefixes.len(), 3);
        }
        _ => panic!("expected the view to be installed"),
    }
}

#[test]
fn decoded_snapshot_is_installed() {
    let entries = vec![(7u128, 8u128, vec![(9u128, 24u8, true, false, 11i64)])];
    match load_decoded("state.bin", Ok(entries.clone()), 1234) {
        LoadAction::Install(store) => assert_eq!(listing(&store), entries),
        _ => panic!("expected the view to be installed"),
    }
}

#[test]
fn octets_that_did_not_decode_are_set_aside() {
    let refused = bincode::error::DecodeError::UnexpectedEnd { additional: 1 };
    match load_decoded("/var/lib/state.bin", Err(refused), -7) {
        LoadAction::SetAside(to) => assert_eq!(to, "/var/lib/state.bin.corrupted--7"),
        _ => panic!("expected the file to be set aside"),
    }
}

#[test]
fn dump_of_any_view_succeeds() {
    assert!(dump_state(&MemoryStore::new()).is_ok());
    assert!(dump_state(&sample()).is_ok());
    let octets = dump_state(&sample()).unwrap();
    assert_ne!(octets, dump_state(&MemoryStore::new()).unwrap());
}

#[test]
fn each_failure_has_its_error() {
    let refused = bincode::error::EncodeError::Other("refused");
    assert_eq!(dumped(Err(refused)), Err(SnapshotError::Encode));
    assert_eq!(dumped(Ok(vec![1, 2, 3])), Ok(vec![1, 2, 3]));
    let refused = bincode::error::DecodeError::LimitExceeded;
    match restored(Err(refused)) {
        Err(e) => assert_eq!(e, SnapshotError::Malformed),
        Ok(_) => panic!("expected the octets to be refused"),
    }
    match load_state(&[1, 2, 3]) {
        Err(e) => assert_eq!(e, SnapshotError::Malformed),
        Ok(_) => panic!("expected the octets to be refused"),
    }
}
