use export_findmy::accessory::{BeaconNamingRecord, KeyAlignmentRecord, MasterBeaconRecord};
use export_findmy::store::{
    record_kind, shortens, unknown_name, BeaconStore, RecordKind, RecordTable, RecordTypes,
    StoredRecord,
};

fn beacon(stable_identifier: &str) -> StoredRecord {
    StoredRecord::Beacon(MasterBeaconRecord {
        product_id: 1,
        stable_identifier: stable_identifier.to_string(),
        pairing_date: None,
        battery_level: 1,
        shared_secret_2: None,
        secure_locations_shared_secret: None,
        private_key: vec![1],
        system_version: "1".to_string(),
        shared_secret: vec![2],
        public_key: vec![3],
        model: format!("model of {}", stable_identifier),
        vendor_id: 1,
        is_zeus: 0,
        group_identifier: None,
    })
}

fn naming(beacon: &str, name: &str) -> StoredRecord {
    StoredRecord::Naming(BeaconNamingRecord {
        emoji: "E".to_string(),
        name: name.to_string(),
        associated_beacon: beacon.to_string(),
        role_id: 3,
    })
}

fn alignment(beacon: &str, index: i64) -> StoredRecord {
    StoredRecord::Alignment(KeyAlignmentRecord {
        beacon_identifier: beacon.to_string(),
        last_index_observed: index,
        last_index_observation_date: None,
    })
}

#[test]
fn accessories_are_assembled_from_matching_records() {
    let mut store = BeaconStore::new();
    store.add("B1".to_string(), beacon("0123456789"));
    store.add("B2".to_string(), beacon("short"));
    store.add("N1".to_string(), naming("B1", "Keys"));
    store.add("A2".to_string(), alignment("B2", 7));
    store.add("N9".to_string(), naming("B9", "Lost"));
    store.add("A9".to_string(), alignment("B9", 9));
    store.add("A8".to_string(), alignment("B8", 8));
    assert!(store.can_name());
    let assembly = store.assemble();

    assert_eq!(assembly.accessories.len(), 2);
    let first = &assembly.accessories.iter().find(|entry| entry.0 == "B1").unwrap().1;
    assert_eq!(first.naming.name, "Keys");
    assert_eq!(first.naming_id, "N1");
    assert_eq!(first.naming.role_id, 3);
    assert_eq!(first.alignment_id, "");
    assert_eq!(first.alignment.beacon_identifier, "");
    assert_eq!(first.alignment.last_index_observed, 0);
    let second = &assembly.accessories.iter().find(|entry| entry.0 == "B2").unwrap().1;
    assert_eq!(second.master_record.stable_identifier, "short");
    assert_eq!(second.naming.name, "Unknown-short");
    assert_eq!(second.naming.emoji, "");
    assert_eq!(second.naming.associated_beacon, "B2");
    assert_eq!(second.naming.role_id, 0);
    assert_eq!(second.naming_id, "");
    assert_eq!(second.alignment_id, "A2");
    assert_eq!(second.alignment.last_index_observed, 7);

    assert_eq!(assembly.matched_naming_records, 1);
    assert_eq!(assembly.matched_alignment_records, 1);
    assert_eq!(
        assembly.missing_naming_records,
        vec![("short".to_string(), "model of short".to_string())]
    );
    assert_eq!(
        assembly.missing_alignment_records,
        vec![("0123456789".to_string(), "model of 0123456789".to_string())]
    );
    assert_eq!(assembly.unmatched_naming_records, 1);
    assert_eq!(assembly.unmatched_alignment_records, 2);
}

#[test]
fn later_records_replace_earlier_ones() {
    let mut store = BeaconStore::new();
    store.add("B".to_string(), beacon("first"));
    store.add("N1".to_string(), naming("B", "old"));
    store.add("B".to_string(), beacon("second"));
    store.add("N2".to_string(), naming("B", "new"));
    let assembly = store.assemble();
    assert_eq!(assembly.accessories.len(), 1);
    assert_eq!(assembly.accessories[0].1.master_record.stable_identifier, "second");
    assert_eq!(assembly.accessories[0].1.naming.name, "new");
    assert_eq!(assembly.accessories[0].1.naming_id, "N2");
    assert_eq!(assembly.unmatched_naming_records, 0);
}

#[test]
fn an_empty_store_has_no_accessories() {
    let assembly = BeaconStore::new().assemble();
    assert!(assembly.accessories.is_empty());
    assert_eq!(assembly.matched_naming_records, 0);
    assert!(assembly.missing_naming_records.is_empty());
}

#[test]
fn unnamed_accessories_go_by_the_start_of_their_identifier() {
    assert_eq!(unknown_name("0123456789"), "Unknown-01234567");
    assert_eq!(unknown_name("a:/x¶éé"), "Unknown-a:/x¶é");
    assert_eq!(unknown_name("abcdefü"), "Unknown-abcdefü");
    assert_eq!(unknown_name(""), "Unknown-");
    assert!(shortens("abcdefü"));
    assert!(!shortens("abcdefgü"));
    let mut store = BeaconStore::new();
    store.add("B".to_string(), beacon("abcdefgü"));
    assert!(!store.can_name());
    store.add("N".to_string(), naming("B", "named"));
    assert!(store.can_name());
}

#[test]
fn record_kinds_go_by_name() {
    let types = RecordTypes {
        beacon: "MasterBeaconRecord".to_string(),
        naming: "BeaconNamingRecord".to_string(),
        alignment: "KeyAlignmentRecord".to_string(),
    };
    assert_eq!(record_kind("MasterBeaconRecord", &types), Some(RecordKind::Beacon));
    assert_eq!(record_kind("BeaconNamingRecord", &types), Some(RecordKind::Naming));
    assert_eq!(record_kind("KeyAlignmentRecord", &types), Some(RecordKind::Alignment));
    assert_eq!(record_kind("Other", &types), None);
}

#[test]
fn tables_hold_one_record_per_identifier() {
    let mut table: RecordTable<u8> = RecordTable::new();
    table.insert("a".to_string(), 1);
    table.insert("b".to_string(), 2);
    table.insert("a".to_string(), 3);
    assert_eq!(table.len(), 2);
    assert_eq!(table.remove("a"), Some(3));
    assert_eq!(table.remove("a"), None);
    assert_eq!(table.remove("b"), Some(2));
    assert_eq!(table.len(), 0);
}
