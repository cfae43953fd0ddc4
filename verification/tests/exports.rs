use export_findmy::accessory::{
    BeaconAccessory, BeaconNamingRecord, KeyAlignmentRecord, MasterBeaconRecord,
};
use export_findmy::export::{
    accessory_json_file, accessory_to_json, accessory_to_plist, as_file, json_with_dates,
};
use export_findmy::filename::OutputNames;
use export_findmy::timestamp::{Timestamp, FIRST_SECOND, LAST_SECOND};

fn keys() -> BeaconAccessory {
    let master = MasterBeaconRecord {
        product_id: 1,
        stable_identifier: "2006~#HWID~#ABC123".to_string(),
        pairing_date: Some(Timestamp { secs: 1700000000, nanos: 0 }),
        battery_level: 100,
        shared_secret_2: Some(vec![0xAB, 0xCD]),
        secure_locations_shared_secret: None,
        private_key: vec![0u8; 28],
        system_version: "17.0".to_string(),
        shared_secret: vec![0xEF, 0x01],
        public_key: vec![0x02, 0x03],
        model: "AirTag".to_string(),
        vendor_id: 1,
        is_zeus: 0,
        group_identifier: None,
    };

    let naming = BeaconNamingRecord {
        emoji: "🔑".to_string(),
        name: "Keys".to_string(),
        associated_beacon: "beacon-id".to_string(),
        role_id: 0,
    };

    let alignment = KeyAlignmentRecord {
        beacon_identifier: "beacon-id".to_string(),
        last_index_observed: 42,
        last_index_observation_date: Some(Timestamp { secs: 1700003600, nanos: 0 }),
    };

    BeaconAccessory {
        master_record: master,
        naming,
        naming_id: "naming-id".to_string(),
        alignment,
        alignment_id: "alignment-id".to_string(),
    }
}

#[test]
fn json_output_has_expected_schema() {
    let acc = keys();

    let json = accessory_to_json(&acc);
    let obj = json.as_object().unwrap();

    assert_eq!(obj.get("type").unwrap().as_str().unwrap(), "accessory");
    assert_eq!(obj.get("master_key").unwrap().as_str().unwrap(), "00000000000000000000000000000000000000000000000000000000");
    assert_eq!(obj.get("skn").unwrap().as_str().unwrap(), "ef01");
    assert_eq!(obj.get("sks").unwrap().as_str().unwrap(), "abcd");
    assert_eq!(obj.get("name").unwrap().as_str().unwrap(), "Keys");
    assert_eq!(obj.get("model").unwrap().as_str().unwrap(), "AirTag");
    assert_eq!(obj.get("identifier").unwrap().as_str().unwrap(), "2006~#HWID~#ABC123");
    assert_eq!(obj.get("serial_number").unwrap().as_str().unwrap(), "ABC123");
    assert_eq!(obj.get("alignment_index").unwrap().as_i64().unwrap(), 42);
    assert!(obj.get("group_identifier").unwrap().is_null());
    assert!(obj.get("alignment_date").unwrap().is_string());
}

#[test]
fn json_has_twelve_entries_and_rfc_3339_instants() {
    let json = accessory_to_json(&keys());
    let obj = json.as_object().unwrap();
    assert_eq!(obj.len(), 12);
    assert_eq!(obj.get("paired_at").unwrap().as_str().unwrap(), "2023-11-14T22:13:20+00:00");
    assert_eq!(obj.get("alignment_date").unwrap().as_str().unwrap(), "2023-11-14T23:13:20+00:00");
}

#[test]
fn unknown_instants_are_the_epoch_and_null() {
    let mut acc = keys();
    acc.master_record.pairing_date = None;
    acc.alignment.last_index_observation_date = None;
    let json = accessory_to_json(&acc);
    assert_eq!(json["paired_at"].as_str().unwrap(), "1970-01-01T00:00:00+00:00");
    assert!(json["alignment_date"].is_null());
}

#[test]
fn instants_before_the_epoch_and_fractions_are_written() {
    let mut acc = keys();
    acc.master_record.pairing_date = Some(Timestamp { secs: -1, nanos: 500_000_000 });
    acc.alignment.last_index_observation_date = Some(Timestamp { secs: 0, nanos: 1 });
    let json = accessory_to_json(&acc);
    assert_eq!(json["paired_at"].as_str().unwrap(), "1969-12-31T23:59:59.500+00:00");
    assert_eq!(json["alignment_date"].as_str().unwrap(), "1970-01-01T00:00:00.000000001+00:00");
}

#[test]
fn the_calendar_ends_where_the_first_and_the_last_second_say() {
    let mut acc = keys();
    acc.master_record.pairing_date = Some(Timestamp { secs: FIRST_SECOND, nanos: 0 });
    acc.alignment.last_index_observation_date =
        Some(Timestamp { secs: LAST_SECOND, nanos: 999_999_999 });
    assert!(acc.has_dates());
    let json = accessory_to_json(&acc);
    assert_eq!(json["paired_at"].as_str().unwrap(), "-262143-01-01T00:00:00+00:00");
    assert_eq!(json["alignment_date"].as_str().unwrap(), "+262142-12-31T23:59:59.999999999+00:00");
    assert!(accessory_to_plist(&acc).as_dictionary().unwrap().contains_key("pairingDate"));

    acc.master_record.pairing_date = Some(Timestamp { secs: FIRST_SECOND - 1, nanos: 0 });
    assert!(!acc.has_dates());
    acc.master_record.pairing_date = Some(Timestamp { secs: LAST_SECOND + 1, nanos: 0 });
    assert!(!acc.has_dates());
    acc.master_record.pairing_date = Some(Timestamp { secs: 0, nanos: 1_000_000_000 });
    assert!(!acc.has_dates());
}

#[test]
fn master_key_is_the_end_of_a_long_private_key() {
    let mut acc = keys();
    acc.master_record.private_key = (0u8..32).collect();
    let json = accessory_to_json(&acc);
    assert_eq!(
        json["master_key"].as_str().unwrap(),
        "0405060708090a0b0c0d0e0f101112131415161718191a1b1c1d1e1f"
    );
    acc.master_record.private_key = vec![0xff, 0x00];
    assert_eq!(accessory_to_json(&acc)["master_key"].as_str().unwrap(), "ff00");
}

#[test]
fn secure_locations_secret_stands_in_for_the_secondary_one() {
    let mut acc = keys();
    acc.master_record.secure_locations_shared_secret = Some(vec![0x12]);
    assert_eq!(accessory_to_json(&acc)["sks"].as_str().unwrap(), "abcd");
    acc.master_record.shared_secret_2 = None;
    assert_eq!(accessory_to_json(&acc)["sks"].as_str().unwrap(), "12");
    acc.master_record.secure_locations_shared_secret = None;
    assert!(accessory_to_json(&acc)["sks"].is_null());
}

#[test]
fn group_and_missing_serial_are_written() {
    let mut acc = keys();
    acc.master_record.group_identifier = Some("group".to_string());
    acc.master_record.stable_identifier = "plain".to_string();
    acc.alignment.last_index_observed = -7;
    let json = accessory_to_json(&acc);
    assert_eq!(json["group_identifier"].as_str().unwrap(), "group");
    assert!(json["serial_number"].is_null());
    assert_eq!(json["alignment_index"].as_i64().unwrap(), -7);
}

#[test]
fn given_instants_are_written_as_they_are() {
    let json = json_with_dates(&keys(), "then".to_string(), None);
    assert_eq!(json["paired_at"].as_str().unwrap(), "then");
    assert!(json["alignment_date"].is_null());
}

#[test]
fn plist_has_the_parts_that_the_accessory_has() {
    let value = accessory_to_plist(&keys());
    let dict = value.as_dictionary().unwrap();
    assert_eq!(dict.len(), 9);
    assert_eq!(dict.get("privateKey").unwrap().as_data().unwrap(), &[0u8; 28]);
    assert_eq!(dict.get("sharedSecret").unwrap().as_data().unwrap(), &[0xEF, 0x01]);
    assert_eq!(dict.get("secondarySharedSecret").unwrap().as_data().unwrap(), &[0xAB, 0xCD]);
    assert_eq!(dict.get("publicKey").unwrap().as_data().unwrap(), &[0x02, 0x03]);
    assert_eq!(dict.get("identifier").unwrap().as_string().unwrap(), "2006~#HWID~#ABC123");
    assert_eq!(dict.get("model").unwrap().as_string().unwrap(), "AirTag");
    assert_eq!(dict.get("name").unwrap().as_string().unwrap(), "Keys");
    assert_eq!(dict.get("emoji").unwrap().as_string().unwrap(), "🔑");
    let paired = dict.get("pairingDate").unwrap().as_date().unwrap();
    assert_eq!(paired.to_xml_format(), "2023-11-14T22:13:20Z");
    assert!(!dict.contains_key("groupIdentifier"));
    assert!(!dict.contains_key("secureLocationsSharedSecret"));
}

#[test]
fn plist_has_every_optional_part() {
    let mut acc = keys();
    acc.master_record.pairing_date = None;
    acc.master_record.shared_secret_2 = None;
    acc.master_record.secure_locations_shared_secret = Some(vec![9]);
    acc.master_record.group_identifier = Some("group".to_string());
    let value = accessory_to_plist(&acc);
    let dict = value.as_dictionary().unwrap();
    assert_eq!(dict.get("secureLocationsSharedSecret").unwrap().as_data().unwrap(), &[9]);
    assert_eq!(dict.get("groupIdentifier").unwrap().as_string().unwrap(), "group");
    assert!(!dict.contains_key("pairingDate"));
    assert!(!dict.contains_key("secondarySharedSecret"));
}

#[test]
fn both_files_hold_the_same_keys() {
    let acc = keys();
    let plist = accessory_to_plist(&acc);
    let json = accessory_to_json(&acc);
    let secret = plist.as_dictionary().unwrap().get("sharedSecret").unwrap().as_data().unwrap();
    let digits: String = secret.iter().map(|b| format!("{:02x}", b)).collect();
    assert_eq!(json["skn"].as_str().unwrap(), digits);
}

#[test]
fn json_file_is_pretty_and_ends_in_a_line_break() {
    let mut acc = keys();
    acc.master_record.stable_identifier = "id".to_string();
    acc.master_record.private_key = vec![1];
    let expected = "{
  \"alignment_date\": \"2023-11-14T23:13:20+00:00\",
  \"alignment_index\": 42,
  \"group_identifier\": null,
  \"identifier\": \"id\",
  \"master_key\": \"01\",
  \"model\": \"AirTag\",
  \"name\": \"Keys\",
  \"paired_at\": \"2023-11-14T22:13:20+00:00\",
  \"serial_number\": null,
  \"skn\": \"ef01\",
  \"sks\": \"abcd\",
  \"type\": \"accessory\"
}
";
    assert_eq!(accessory_json_file(&acc).unwrap(), expected);
    assert_eq!(as_file("x".to_string()), "x\n");
}

#[test]
fn accessories_claim_their_files_once() {
    let mut names = OutputNames::new();
    let mut acc = keys();
    let pair = names.claim_for(&acc).unwrap();
    assert_eq!(pair.plist, "Keys_AirTag_2006__HWID__ABC123.plist");
    assert_eq!(pair.json, "Keys_AirTag_2006__HWID__ABC123.json");
    assert_eq!(names.claim_for(&acc).unwrap_err(), pair.plist);
    acc.master_record.stable_identifier = "other".to_string();
    assert_eq!(names.claim_for(&acc).unwrap().json, "Keys_AirTag_other.json");
}
