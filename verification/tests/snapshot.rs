use messenger::dht_snapshot::{load, save, SnapshotAddr, SnapshotRecord, SNAPSHOT_INTERVAL};

#[test]
fn load_missing_file_returns_empty_not_an_error() {
    let records = load(None);
    assert!(records.is_empty());
}

#[test]
fn load_corrupt_file_returns_empty_not_an_error() {
    let records = load(Some(b"not a valid bincode snapshot"));
    assert!(records.is_empty());
}

#[test]
fn save_then_load_empty_table_round_trips_to_empty_vec() {
    let bytes = save(&Vec::new()).unwrap();
    assert_eq!(bytes, vec![0; 8]);
    let loaded = load(Some(&bytes));
    assert!(loaded.is_empty());
}

#[test]
fn saved_records_come_back_in_order() {
    let records = vec![
        SnapshotRecord {
            public_key: vec![1, 2],
            addr: SnapshotAddr::V4 {
                ip: [127, 0, 0, 1],
                port: 9000,
            },
            signature: vec![3],
        },
        SnapshotRecord {
            public_key: vec![],
            addr: SnapshotAddr::V6 {
                ip: [9; 16],
                port: 1,
            },
            signature: vec![4, 5],
        },
    ];
    let bytes = save(&records).unwrap();
    assert_eq!(
        &bytes[..30],
        &[
            2, 0, 0, 0, 0, 0, 0, 0, 2, 0, 0, 0, 0, 0, 0, 0, 1, 2, 0, 0, 0, 0, 127, 0, 0, 1, 0x28,
            0x23, 1, 0
        ]
    );
    let loaded = load(Some(&bytes));
    assert_eq!(loaded.len(), 2);
    assert_eq!(loaded[0].public_key, vec![1, 2]);
    assert!(matches!(
        loaded[0].addr,
        SnapshotAddr::V4 {
            ip: [127, 0, 0, 1],
            port: 9000
        }
    ));
    assert_eq!(loaded[0].signature, vec![3]);
    assert!(matches!(loaded[1].addr, SnapshotAddr::V6 { port: 1, .. }));
    assert_eq!(loaded[1].signature, vec![4, 5]);
    for n in 0..bytes.len() {
        assert!(load(Some(&bytes[..n])).is_empty());
    }
    assert_eq!(SNAPSHOT_INTERVAL, 5 * 60);
}

#[test]
fn snapshot_addresses_have_the_bytes_of_socket_addresses() {
    let addr: ([u8; 4], u16) = ([10, 0, 0, 7], 9001);
    let expected = bincode::serialize(&vec![(vec![1u8], 0u32, addr, vec![2u8])]).unwrap();
    let records = vec![SnapshotRecord {
        public_key: vec![1],
        addr: SnapshotAddr::V4 {
            ip: [10, 0, 0, 7],
            port: 9001,
        },
        signature: vec![2],
    }];
    assert_eq!(save(&records).unwrap(), expected);
}
