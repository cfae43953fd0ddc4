//! Accessories as property lists and as JSON.
use vstd::prelude::*;

use crate::accessory;
use crate::accessory::BeaconAccessory;
use crate::hexadecimal;
use crate::json_tree;
use crate::plist_tree;
use crate::serial;
use crate::store;
use crate::text;
use crate::timestamp;
use crate::timestamp::Timestamp;

verus! {

/// The entries with one more under `key`, where there is something to put there.
pub open spec fn with_some<C>(
    entries: Map<Seq<char>, C>,
    key: Seq<char>,
    value: Option<C>,
) -> Map<Seq<char>, C> {
    match value {
        Some(found) => entries.insert(key, found),
        None => entries,
    }
}

/// Optional bytes as a property list.
pub open spec fn data_of(bytes: Option<Vec<u8>>) -> Option<plist_tree::PlistContents> {
    match bytes {
        Some(b) => Some(plist_tree::PlistContents::Data(b@)),
        None => None,
    }
}

/// An optional text as a property list.
pub open spec fn text_of(found: Option<String>) -> Option<plist_tree::PlistContents> {
    match found {
        Some(s) => Some(plist_tree::PlistContents::Text(s@)),
        None => None,
    }
}

/// An optional instant as a property list.
pub open spec fn date_of(time: Option<Timestamp>) -> Option<plist_tree::PlistContents> {
    match time {
        Some(t) => Some(
            plist_tree::PlistContents::Date { secs: t.secs as int, nanos: t.nanos as int },
        ),
        None => None,
    }
}

/// The entries of the property list of an accessory: its keys, secrets and identity as they are,
/// and each optional part only where the accessory has it.
pub open spec fn plist_entries(acc: &BeaconAccessory) -> Map<
    Seq<char>,
    plist_tree::PlistContents,
> {
    let master = acc.master_record;
    let entries = Map::empty().insert(
        "privateKey"@,
        plist_tree::PlistContents::Data(master.private_key@),
    ).insert("sharedSecret"@, plist_tree::PlistContents::Data(master.shared_secret@));
    let entries = with_some(entries, "secondarySharedSecret"@, data_of(master.shared_secret_2));
    let entries = with_some(
        entries,
        "secureLocationsSharedSecret"@,
        data_of(master.secure_locations_shared_secret),
    );
    let entries = entries.insert(
        "publicKey"@,
        plist_tree::PlistContents::Data(master.public_key@),
    ).insert(
        "identifier"@,
        plist_tree::PlistContents::Text(master.stable_identifier@),
    ).insert("model"@, plist_tree::PlistContents::Text(master.model@));
    let entries = with_some(entries, "pairingDate"@, date_of(master.pairing_date));
    let entries = entries.insert(
        "name"@,
        plist_tree::PlistContents::Text(acc.naming.name@),
    ).insert("emoji"@, plist_tree::PlistContents::Text(acc.naming.emoji@));
    with_some(entries, "groupIdentifier"@, text_of(master.group_identifier))
}

/// An accessory as a property list.
pub fn accessory_to_plist(acc: &BeaconAccessory) -> (value: plist::Value)
    requires
        accessory::dated(acc.master_record.pairing_date),
    ensures
        plist_tree::value_contents(value) == plist_tree::PlistContents::Entries(plist_entries(acc)),
{
    let master = &acc.master_record;
    let mut dict = plist_tree::new_dictionary();
    plist_tree::insert_entry(
        &mut dict,
        "privateKey",
        plist_tree::data_value(master.private_key.clone()),
    );
    plist_tree::insert_entry(
        &mut dict,
        "sharedSecret",
        plist_tree::data_value(master.shared_secret.clone()),
    );
    if let Some(secret) = &master.shared_secret_2 {
        plist_tree::insert_entry(
            &mut dict,
            "secondarySharedSecret",
            plist_tree::data_value(secret.clone()),
        );
    }
    if let Some(secret) = &master.secure_locations_shared_secret {
        plist_tree::insert_entry(
            &mut dict,
            "secureLocationsSharedSecret",
            plist_tree::data_value(secret.clone()),
        );
    }
    plist_tree::insert_entry(
        &mut dict,
        "publicKey",
        plist_tree::data_value(master.public_key.clone()),
    );
    plist_tree::insert_entry(
        &mut dict,
        "identifier",
        plist_tree::text_value(master.stable_identifier.clone()),
    );
    plist_tree::insert_entry(&mut dict, "model", plist_tree::text_value(master.model.clone()));
    if let Some(time) = master.pairing_date {
        plist_tree::insert_entry(&mut dict, "pairingDate", plist_tree::date_value(time));
    }
    plist_tree::insert_entry(&mut dict, "name", plist_tree::text_value(acc.naming.name.clone()));
    plist_tree::insert_entry(&mut dict, "emoji", plist_tree::text_value(acc.naming.emoji.clone()));
    if let Some(group) = &master.group_identifier {
        plist_tree::insert_entry(
            &mut dict,
            "groupIdentifier",
            plist_tree::text_value(group.clone()),
        );
    }
    plist_tree::dictionary_value(dict)
}

/// The part of a private key that is key material: its last twenty-eight bytes.
pub open spec fn key_material(private_key: Seq<u8>) -> Seq<u8> {
    if private_key.len() > 28 {
        private_key.skip(private_key.len() - 28)
    } else {
        private_key
    }
}

/// An optional text as JSON.
pub open spec fn json_text_of(found: Option<Seq<char>>) -> json_tree::JsonContents {
    match found {
        Some(s) => json_tree::JsonContents::Text(s),
        None => json_tree::JsonContents::Null,
    }
}

/// The secret that serves as the secondary one: the secondary shared secret, or else the one for
/// secure locations.
pub open spec fn secondary_secret(acc: &BeaconAccessory) -> Option<Seq<char>> {
    match acc.master_record.shared_secret_2 {
        Some(secret) => Some(hexadecimal::hex_of(secret@)),
        None => match acc.master_record.secure_locations_shared_secret {
            Some(secret) => Some(hexadecimal::hex_of(secret@)),
            None => None,
        },
    }
}

/// An optional instant, written out.
pub open spec fn written(time: Option<Timestamp>) -> Option<Seq<char>> {
    match time {
        Some(t) => Some(timestamp::rfc3339(t.secs as int, t.nanos as int)),
        None => None,
    }
}

/// When an accessory was paired, written out; the Unix epoch where that is not known.
pub open spec fn paired_at(acc: &BeaconAccessory) -> Seq<char> {
    match written(acc.master_record.pairing_date) {
        Some(s) => s,
        None => timestamp::rfc3339(0, 0),
    }
}

/// The entries of the JSON object of an accessory, with these two instants written in it.
pub open spec fn json_entries(
    acc: &BeaconAccessory,
    paired: Seq<char>,
    aligned: Option<Seq<char>>,
) -> Map<Seq<char>, json_tree::JsonContents> {
    let master = acc.master_record;
    Map::empty().insert("type"@, json_tree::JsonContents::Text("accessory"@)).insert(
        "master_key"@,
        json_tree::JsonContents::Text(hexadecimal::hex_of(key_material(master.private_key@))),
    ).insert(
        "skn"@,
        json_tree::JsonContents::Text(hexadecimal::hex_of(master.shared_secret@)),
    ).insert("sks"@, json_text_of(secondary_secret(acc))).insert(
        "paired_at"@,
        json_tree::JsonContents::Text(paired),
    ).insert("name"@, json_tree::JsonContents::Text(acc.naming.name@)).insert(
        "model"@,
        json_tree::JsonContents::Text(master.model@),
    ).insert("identifier"@, json_tree::JsonContents::Text(master.stable_identifier@)).insert(
        "group_identifier"@,
        json_text_of(text::text_view(master.group_identifier)),
    ).insert("serial_number"@, json_text_of(serial::serial_of(master.stable_identifier@))).insert(
        "alignment_date"@,
        json_text_of(aligned),
    ).insert(
        "alignment_index"@,
        json_tree::JsonContents::Integer(acc.alignment.last_index_observed as int),
    )
}

fn optional_text_json(found: Option<String>) -> (value: serde_json::Value)
    ensures
        json_tree::json_contents(value) == json_text_of(text::text_view(found)),
{
    match found {
        Some(s) => json_tree::text_json(s),
        None => json_tree::null_json(),
    }
}

fn written_text(time: Option<Timestamp>) -> (found: Option<String>)
    requires
        accessory::dated(time),
    ensures
        text::text_view(found) == written(time),
{
    match time {
        Some(t) => Some(timestamp::rfc3339_text(t)),
        None => None,
    }
}

/// The hexadecimal digits of the key material in a private key.
fn key_material_hex(private_key: &Vec<u8>) -> (digits: String)
    ensures
        digits@ == hexadecimal::hex_of(key_material(private_key@)),
{
    let start: usize = if private_key.len() > 28 {
        private_key.len() - 28
    } else {
        0
    };
    let (_, key) = private_key.as_slice().split_at(start);
    proof {
        assert(key@ =~= key_material(private_key@));
    }
    hexadecimal::bytes_to_hex(key)
}

/// An accessory as JSON, with these two instants written in it.
pub fn json_with_dates(acc: &BeaconAccessory, paired: String, aligned: Option<String>) -> (value:
    serde_json::Value)
    ensures
        json_tree::json_contents(value) == json_tree::JsonContents::Object(
            json_entries(acc, paired@, text::text_view(aligned)),
        ),
{
    let master = &acc.master_record;
    let secondary = match &master.shared_secret_2 {
        Some(secret) => Some(hexadecimal::bytes_to_hex(secret.as_slice())),
        None => match &master.secure_locations_shared_secret {
            Some(secret) => Some(hexadecimal::bytes_to_hex(secret.as_slice())),
            None => None,
        },
    };
    let mut object = json_tree::new_object();
    json_tree::insert_member(&mut object, "type", json_tree::text_json("accessory".to_owned()));
    json_tree::insert_member(
        &mut object,
        "master_key",
        json_tree::text_json(key_material_hex(&master.private_key)),
    );
    json_tree::insert_member(
        &mut object,
        "skn",
        json_tree::text_json(hexadecimal::bytes_to_hex(master.shared_secret.as_slice())),
    );
    json_tree::insert_member(&mut object, "sks", optional_text_json(secondary));
    json_tree::insert_member(&mut object, "paired_at", json_tree::text_json(paired));
    json_tree::insert_member(&mut object, "name", json_tree::text_json(acc.naming.name.clone()));
    json_tree::insert_member(&mut object, "model", json_tree::text_json(master.model.clone()));
    json_tree::insert_member(
        &mut object,
        "identifier",
        json_tree::text_json(master.stable_identifier.clone()),
    );
    json_tree::insert_member(
        &mut object,
        "group_identifier",
        optional_text_json(master.group_identifier.clone()),
    );
    json_tree::insert_member(
        &mut object,
        "serial_number",
        optional_text_json(serial::serial_from_identifier(master.stable_identifier.as_str())),
    );
    json_tree::insert_member(&mut object, "alignment_date", optional_text_json(aligned));
    json_tree::insert_member(
        &mut object,
        "alignment_index",
        json_tree::integer_json(acc.alignment.last_index_observed),
    );
    json_tree::object_json(object)
}

/// The JSON object of an accessory, with its instants as RFC 3339 prescribes.
pub open spec fn accessory_json(acc: &BeaconAccessory) -> json_tree::JsonContents {
    json_tree::JsonContents::Object(
        json_entries(acc, paired_at(acc), written(acc.alignment.last_index_observation_date)),
    )
}

/// An accessory as JSON.
pub fn accessory_to_json(acc: &BeaconAccessory) -> (value: serde_json::Value)
    requires
        acc.wf(),
    ensures
        json_tree::json_contents(value) == accessory_json(acc),
{
    let paired = match written_text(acc.master_record.pairing_date) {
        Some(s) => s,
        None => timestamp::rfc3339_text(Timestamp { secs: 0, nanos: 0 }),
    };
    let aligned = written_text(acc.alignment.last_index_observation_date);
    json_with_dates(acc, paired, aligned)
}

/// A file of its own for a text: the text and a line break.
pub fn as_file(written_out: String) -> (file: String)
    ensures
        file@ == written_out@ + "\n"@,
{
    written_out.concat("\n")
}

/// The text of the JSON file of an accessory: the object over several lines, and a line break. There
/// is one for every accessory.
pub fn accessory_json_file(acc: &BeaconAccessory) -> (file: Result<String, String>)
    requires
        acc.wf(),
    ensures
        file matches Ok(t) && t@ == json_tree::pretty_json(accessory_json(acc)) + "\n"@,
{
    let value = accessory_to_json(acc);
    match json_tree::pretty_text(&value) {
        Ok(written_out) => Ok(as_file(written_out)),
        Err(words) => Err(words),
    }
}

/// The key material is what a key of at most twenty-eight bytes is as a whole, and twenty-eight
/// bytes from the end of a longer one.
pub proof fn law_key_material(private_key: Seq<u8>)
    ensures
        private_key.len() <= 28 ==> key_material(private_key) == private_key,
        private_key.len() >= 28 ==> key_material(private_key).len() == 28,
        key_material(private_key).is_suffix_of(private_key),
{
    assert(key_material(private_key) =~= private_key.subrange(
        private_key.len() - key_material(private_key).len(),
        private_key.len() as int,
    ));
}

/// The keys that the property list of an accessory may have.
pub open spec fn is_plist_key(key: Seq<char>) -> bool {
    ||| key == "privateKey"@
    ||| key == "sharedSecret"@
    ||| key == "secondarySharedSecret"@
    ||| key == "secureLocationsSharedSecret"@
    ||| key == "publicKey"@
    ||| key == "identifier"@
    ||| key == "model"@
    ||| key == "pairingDate"@
    ||| key == "name"@
    ||| key == "emoji"@
    ||| key == "groupIdentifier"@
}

proof fn lemma_plist_keys_differ()
    ensures
        "privateKey"@.len() == 10,
        "sharedSecret"@.len() == 12,
        "secondarySharedSecret"@.len() == 21,
        "secureLocationsSharedSecret"@.len() == 27,
        "publicKey"@.len() == 9,
        "identifier"@.len() == 10,
        "model"@.len() == 5,
        "pairingDate"@.len() == 11,
        "name"@.len() == 4,
        "emoji"@.len() == 5,
        "groupIdentifier"@.len() == 15,
        "privateKey"@ != "identifier"@,
        "model"@ != "emoji"@,
{
    reveal_strlit("privateKey");
    reveal_strlit("sharedSecret");
    reveal_strlit("secondarySharedSecret");
    reveal_strlit("secureLocationsSharedSecret");
    reveal_strlit("publicKey");
    reveal_strlit("identifier");
    reveal_strlit("model");
    reveal_strlit("pairingDate");
    reveal_strlit("name");
    reveal_strlit("emoji");
    reveal_strlit("groupIdentifier");
    assert("privateKey"@[0] != "identifier"@[0]);
    assert("model"@[0] != "emoji"@[0]);
}

/// Each entry of the property list of an accessory: the seven that are always there, and the four
/// that are there exactly where the accessory has that part. There are no others.
pub proof fn law_plist_entries(acc: &BeaconAccessory)
    ensures
        store::lookup(plist_entries(acc), "privateKey"@) == Some(
            plist_tree::PlistContents::Data(acc.master_record.private_key@),
        ),
        store::lookup(plist_entries(acc), "sharedSecret"@) == Some(
            plist_tree::PlistContents::Data(acc.master_record.shared_secret@),
        ),
        store::lookup(plist_entries(acc), "secondarySharedSecret"@) == data_of(
            acc.master_record.shared_secret_2,
        ),
        store::lookup(plist_entries(acc), "secureLocationsSharedSecret"@) == data_of(
            acc.master_record.secure_locations_shared_secret,
        ),
        store::lookup(plist_entries(acc), "publicKey"@) == Some(
            plist_tree::PlistContents::Data(acc.master_record.public_key@),
        ),
        store::lookup(plist_entries(acc), "identifier"@) == Some(
            plist_tree::PlistContents::Text(acc.master_record.stable_identifier@),
        ),
        store::lookup(plist_entries(acc), "model"@) == Some(
            plist_tree::PlistContents::Text(acc.master_record.model@),
        ),
        store::lookup(plist_entries(acc), "pairingDate"@) == date_of(acc.master_record.pairing_date),
        store::lookup(plist_entries(acc), "name"@) == Some(
            plist_tree::PlistContents::Text(acc.naming.name@),
        ),
        store::lookup(plist_entries(acc), "emoji"@) == Some(
            plist_tree::PlistContents::Text(acc.naming.emoji@),
        ),
        store::lookup(plist_entries(acc), "groupIdentifier"@) == text_of(
            acc.master_record.group_identifier,
        ),
        forall|key: Seq<char>| #[trigger]
            plist_entries(acc).dom().contains(key) ==> is_plist_key(key),
{
    lemma_plist_keys_differ();
}

/// The keys of the JSON object of an accessory.
pub open spec fn is_json_key(key: Seq<char>) -> bool {
    ||| key == "type"@
    ||| key == "master_key"@
    ||| key == "skn"@
    ||| key == "sks"@
    ||| key == "paired_at"@
    ||| key == "name"@
    ||| key == "model"@
    ||| key == "identifier"@
    ||| key == "group_identifier"@
    ||| key == "serial_number"@
    ||| key == "alignment_date"@
    ||| key == "alignment_index"@
}

proof fn lemma_json_keys_differ()
    ensures
        "type"@.len() == 4,
        "master_key"@.len() == 10,
        "skn"@.len() == 3,
        "sks"@.len() == 3,
        "paired_at"@.len() == 9,
        "name"@.len() == 4,
        "model"@.len() == 5,
        "identifier"@.len() == 10,
        "group_identifier"@.len() == 16,
        "serial_number"@.len() == 13,
        "alignment_date"@.len() == 14,
        "alignment_index"@.len() == 15,
        "type"@ != "name"@,
        "master_key"@ != "identifier"@,
        "skn"@ != "sks"@,
{
    reveal_strlit("type");
    reveal_strlit("master_key");
    reveal_strlit("skn");
    reveal_strlit("sks");
    reveal_strlit("paired_at");
    reveal_strlit("name");
    reveal_strlit("model");
    reveal_strlit("identifier");
    reveal_strlit("group_identifier");
    reveal_strlit("serial_number");
    reveal_strlit("alignment_date");
    reveal_strlit("alignment_index");
    assert("type"@[0] != "name"@[0]);
    assert("master_key"@[0] != "identifier"@[0]);
    assert("skn"@[2] != "sks"@[2]);
}

/// Each entry of the JSON object of an accessory. All twelve are always there, and no others.
pub proof fn law_json_entries(acc: &BeaconAccessory, paired: Seq<char>, aligned: Option<Seq<char>>)
    ensures
        store::lookup(json_entries(acc, paired, aligned), "type"@) == Some(
            json_tree::JsonContents::Text("accessory"@),
        ),
        store::lookup(json_entries(acc, paired, aligned), "master_key"@) == Some(
            json_tree::JsonContents::Text(
                hexadecimal::hex_of(key_material(acc.master_record.private_key@)),
            ),
        ),
        store::lookup(json_entries(acc, paired, aligned), "skn"@) == Some(
            json_tree::JsonContents::Text(hexadecimal::hex_of(acc.master_record.shared_secret@)),
        ),
        store::lookup(json_entries(acc, paired, aligned), "sks"@) == Some(
            json_text_of(secondary_secret(acc)),
        ),
        store::lookup(json_entries(acc, paired, aligned), "paired_at"@) == Some(
            json_tree::JsonContents::Text(paired),
        ),
        store::lookup(json_entries(acc, paired, aligned), "name"@) == Some(
            json_tree::JsonContents::Text(acc.naming.name@),
        ),
        store::lookup(json_entries(acc, paired, aligned), "model"@) == Some(
            json_tree::JsonContents::Text(acc.master_record.model@),
        ),
        store::lookup(json_entries(acc, paired, aligned), "identifier"@) == Some(
            json_tree::JsonContents::Text(acc.master_record.stable_identifier@),
        ),
        store::lookup(json_entries(acc, paired, aligned), "group_identifier"@) == Some(
            json_text_of(text::text_view(acc.master_record.group_identifier)),
        ),
        store::lookup(json_entries(acc, paired, aligned), "serial_number"@) == Some(
            json_text_of(serial::serial_of(acc.master_record.stable_identifier@)),
        ),
        store::lookup(json_entries(acc, paired, aligned), "alignment_date"@) == Some(
            json_text_of(aligned),
        ),
        store::lookup(json_entries(acc, paired, aligned), "alignment_index"@) == Some(
            json_tree::JsonContents::Integer(acc.alignment.last_index_observed as int),
        ),
        forall|key: Seq<char>| #[trigger]
            json_entries(acc, paired, aligned).dom().contains(key) <==> is_json_key(key),
{
    lemma_json_keys_differ();
}

/// The two files of an accessory hold the same key material: the JSON spells out, in hexadecimal
/// digits, the end of the private key and the shared secret of the property list, and as the
/// secondary secret the one that the property list has.
pub proof fn law_files_hold_the_same_keys(
    acc: &BeaconAccessory,
    paired: Seq<char>,
    aligned: Option<Seq<char>>,
)
    ensures
        store::lookup(plist_entries(acc), "privateKey"@) matches Some(
            plist_tree::PlistContents::Data(private_key),
        ) && store::lookup(json_entries(acc, paired, aligned), "master_key"@) == Some(
            json_tree::JsonContents::Text(hexadecimal::hex_of(key_material(private_key))),
        ),
        store::lookup(plist_entries(acc), "sharedSecret"@) matches Some(
            plist_tree::PlistContents::Data(secret),
        ) && store::lookup(json_entries(acc, paired, aligned), "skn"@) == Some(
            json_tree::JsonContents::Text(hexadecimal::hex_of(secret)),
        ),
        store::lookup(plist_entries(acc), "secondarySharedSecret"@) matches Some(
            plist_tree::PlistContents::Data(secret),
        ) ==> store::lookup(json_entries(acc, paired, aligned), "sks"@) == Some(
            json_tree::JsonContents::Text(hexadecimal::hex_of(secret)),
        ),
        store::lookup(plist_entries(acc), "secondarySharedSecret"@) is None ==> (store::lookup(
            plist_entries(acc),
            "secureLocationsSharedSecret"@,
        ) matches Some(plist_tree::PlistContents::Data(secret)) ==> store::lookup(
            json_entries(acc, paired, aligned),
            "sks"@,
        ) == Some(json_tree::JsonContents::Text(hexadecimal::hex_of(secret)))),
{
    law_plist_entries(acc);
    law_json_entries(acc, paired, aligned);
}

/// The property list holds the very bytes and texts of the records, all of them: each optional part
/// exactly where the record has it, and then as it stands there.
pub proof fn law_plist_holds_the_record(acc: &BeaconAccessory)
    ensures
        plist_entries(acc).contains_pair(
            "privateKey"@,
            plist_tree::PlistContents::Data(acc.master_record.private_key@),
        ),
        plist_entries(acc).contains_pair(
            "sharedSecret"@,
            plist_tree::PlistContents::Data(acc.master_record.shared_secret@),
        ),
        plist_entries(acc).contains_pair(
            "publicKey"@,
            plist_tree::PlistContents::Data(acc.master_record.public_key@),
        ),
        plist_entries(acc).contains_pair(
            "identifier"@,
            plist_tree::PlistContents::Text(acc.master_record.stable_identifier@),
        ),
        plist_entries(acc).contains_pair(
            "model"@,
            plist_tree::PlistContents::Text(acc.master_record.model@),
        ),
        plist_entries(acc).contains_pair(
            "name"@,
            plist_tree::PlistContents::Text(acc.naming.name@),
        ),
        plist_entries(acc).contains_pair(
            "emoji"@,
            plist_tree::PlistContents::Text(acc.naming.emoji@),
        ),
        match acc.master_record.shared_secret_2 {
            Some(secret) => plist_entries(acc).contains_pair(
                "secondarySharedSecret"@,
                plist_tree::PlistContents::Data(secret@),
            ),
            None => !plist_entries(acc).dom().contains("secondarySharedSecret"@),
        },
        match acc.master_record.secure_locations_shared_secret {
            Some(secret) => plist_entries(acc).contains_pair(
                "secureLocationsSharedSecret"@,
                plist_tree::PlistContents::Data(secret@),
            ),
            None => !plist_entries(acc).dom().contains("secureLocationsSharedSecret"@),
        },
        match acc.master_record.pairing_date {
            Some(time) => plist_entries(acc).contains_pair(
                "pairingDate"@,
                plist_tree::PlistContents::Date {
                    secs: time.secs as int,
                    nanos: time.nanos as int,
                },
            ),
            None => !plist_entries(acc).dom().contains("pairingDate"@),
        },
        match acc.master_record.group_identifier {
            Some(group) => plist_entries(acc).contains_pair(
                "groupIdentifier"@,
                plist_tree::PlistContents::Text(group@),
            ),
            None => !plist_entries(acc).dom().contains("groupIdentifier"@),
        },
{
    lemma_plist_keys_differ();
}

/// Whether the entry under `key` is a text that spells out these bytes in hexadecimal digits.
pub open spec fn spells_out(
    entries: Map<Seq<char>, json_tree::JsonContents>,
    key: Seq<char>,
    bytes: Seq<u8>,
) -> bool {
    &&& entries.dom().contains(key)
    &&& entries[key] is Text
    &&& hexadecimal::hex_bytes(entries[key]->Text_0) == Some(bytes)
}

/// The secrets in the JSON, decoded, are the very bytes of the record: the whole shared secret, and
/// the whole secondary one, or, where the record has none, the whole one for secure locations. Of
/// the private key it is the last twenty-eight bytes, or all where there are fewer.
pub proof fn law_json_spells_out_the_secrets(
    acc: &BeaconAccessory,
    paired: Seq<char>,
    aligned: Option<Seq<char>>,
)
    ensures
        spells_out(
            json_entries(acc, paired, aligned),
            "skn"@,
            acc.master_record.shared_secret@,
        ),
        match (
            acc.master_record.shared_secret_2,
            acc.master_record.secure_locations_shared_secret,
        ) {
            (Some(secret), _) => spells_out(
                json_entries(acc, paired, aligned),
                "sks"@,
                secret@,
            ),
            (None, Some(secret)) => spells_out(
                json_entries(acc, paired, aligned),
                "sks"@,
                secret@,
            ),
            (None, None) => json_entries(acc, paired, aligned).contains_pair(
                "sks"@,
                json_tree::JsonContents::Null,
            ),
        },
        acc.master_record.private_key@.len() <= 28 ==> spells_out(
            json_entries(acc, paired, aligned),
            "master_key"@,
            acc.master_record.private_key@,
        ),
        acc.master_record.private_key@.len() > 28 ==> spells_out(
            json_entries(acc, paired, aligned),
            "master_key"@,
            acc.master_record.private_key@.subrange(
                acc.master_record.private_key@.len() - 28,
                acc.master_record.private_key@.len() as int,
            ),
        ),
{
    lemma_json_keys_differ();
    let master = acc.master_record;
    hexadecimal::law_hex_reads_back(master.shared_secret@);
    hexadecimal::law_hex_reads_back(key_material(master.private_key@));
    if let Some(secret) = master.shared_secret_2 {
        hexadecimal::law_hex_reads_back(secret@);
    }
    if let Some(secret) = master.secure_locations_shared_secret {
        hexadecimal::law_hex_reads_back(secret@);
    }
    if master.private_key@.len() > 28 {
        assert(key_material(master.private_key@) =~= master.private_key@.subrange(
            master.private_key@.len() - 28,
            master.private_key@.len() as int,
        ));
    }
}

/// The JSON holds the texts and the index of the records as they stand there, the instants that it
/// is given, and null for what is missing.
pub proof fn law_json_holds_the_record(
    acc: &BeaconAccessory,
    paired: Seq<char>,
    aligned: Option<Seq<char>>,
)
    ensures
        json_entries(acc, paired, aligned).contains_pair(
            "type"@,
            json_tree::JsonContents::Text("accessory"@),
        ),
        json_entries(acc, paired, aligned).contains_pair(
            "name"@,
            json_tree::JsonContents::Text(acc.naming.name@),
        ),
        json_entries(acc, paired, aligned).contains_pair(
            "model"@,
            json_tree::JsonContents::Text(acc.master_record.model@),
        ),
        json_entries(acc, paired, aligned).contains_pair(
            "identifier"@,
            json_tree::JsonContents::Text(acc.master_record.stable_identifier@),
        ),
        json_entries(acc, paired, aligned).contains_pair(
            "group_identifier"@,
            match acc.master_record.group_identifier {
                Some(group) => json_tree::JsonContents::Text(group@),
                None => json_tree::JsonContents::Null,
            },
        ),
        json_entries(acc, paired, aligned).contains_pair(
            "serial_number"@,
            match serial::serial_of(acc.master_record.stable_identifier@) {
                Some(number) => json_tree::JsonContents::Text(number),
                None => json_tree::JsonContents::Null,
            },
        ),
        json_entries(acc, paired, aligned).contains_pair(
            "paired_at"@,
            json_tree::JsonContents::Text(paired),
        ),
        json_entries(acc, paired, aligned).contains_pair(
            "alignment_date"@,
            match aligned {
                Some(date) => json_tree::JsonContents::Text(date),
                None => json_tree::JsonContents::Null,
            },
        ),
        json_entries(acc, paired, aligned).contains_pair(
            "alignment_index"@,
            json_tree::JsonContents::Integer(acc.alignment.last_index_observed as int),
        ),
{
    lemma_json_keys_differ();
}

/// The instants in the JSON of an accessory are those of its records, to the nanosecond. An unknown
/// pairing is the Unix epoch, and an unknown alignment is null. All else is as for any instants.
pub proof fn law_json_holds_the_instants(acc: &BeaconAccessory)
    ensures
        accessory_json(acc) is Object,
        accessory_json(acc)->Object_0.contains_pair(
            "paired_at"@,
            json_tree::JsonContents::Text(
                match acc.master_record.pairing_date {
                    Some(time) => timestamp::rfc3339(time.secs as int, time.nanos as int),
                    None => timestamp::rfc3339(0, 0),
                },
            ),
        ),
        accessory_json(acc)->Object_0.contains_pair(
            "alignment_date"@,
            match acc.alignment.last_index_observation_date {
                Some(time) => json_tree::JsonContents::Text(
                    timestamp::rfc3339(time.secs as int, time.nanos as int),
                ),
                None => json_tree::JsonContents::Null,
            },
        ),
        exists|paired: Seq<char>, aligned: Option<Seq<char>>|
            accessory_json(acc)->Object_0 == #[trigger] json_entries(acc, paired, aligned),
{
    lemma_json_keys_differ();
    let aligned = written(acc.alignment.last_index_observation_date);
    assert(accessory_json(acc)->Object_0 == json_entries(acc, paired_at(acc), aligned));
}

} // verus!
