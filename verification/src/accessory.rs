//! The records that make up an accessory.
use vstd::prelude::*;

use crate::timestamp::Timestamp;

verus! {

/// The keys and the identity of an accessory.
#[derive(Debug)]
pub struct MasterBeaconRecord {
    pub product_id: i64,
    pub stable_identifier: String,
    pub pairing_date: Option<Timestamp>,
    pub battery_level: i64,
    pub shared_secret_2: Option<Vec<u8>>,
    pub secure_locations_shared_secret: Option<Vec<u8>>,
    pub private_key: Vec<u8>,
    pub system_version: String,
    pub shared_secret: Vec<u8>,
    pub public_key: Vec<u8>,
    pub model: String,
    pub vendor_id: i64,
    pub is_zeus: i64,
    pub group_identifier: Option<String>,
}

/// The name that a user gave to an accessory.
#[derive(Debug)]
pub struct BeaconNamingRecord {
    pub emoji: String,
    pub name: String,
    pub associated_beacon: String,
    pub role_id: i64,
}

/// Where in its sequence of rolling keys an accessory was last seen.
#[derive(Debug)]
pub struct KeyAlignmentRecord {
    pub beacon_identifier: String,
    pub last_index_observed: i64,
    pub last_index_observation_date: Option<Timestamp>,
}

impl Default for KeyAlignmentRecord {
    fn default() -> (record: Self)
        ensures
            record.beacon_identifier@ == Seq::<char>::empty(),
            record.last_index_observed == 0,
            record.last_index_observation_date is None,
    {
        KeyAlignmentRecord {
            beacon_identifier: String::new(),
            last_index_observed: 0,
            last_index_observation_date: None,
        }
    }
}

/// An accessory: its keys, its name and its alignment, and the identifiers of the records that the
/// last two came from.
#[derive(Debug)]
pub struct BeaconAccessory {
    pub master_record: MasterBeaconRecord,
    pub naming: BeaconNamingRecord,
    pub naming_id: String,
    pub alignment: KeyAlignmentRecord,
    pub alignment_id: String,
}

/// Whether an instant, where there is one, has a date in the calendar.
pub open spec fn dated(time: Option<Timestamp>) -> bool {
    time matches Some(t) ==> t.wf()
}

impl BeaconAccessory {
    /// Each instant of the accessory has a date in the calendar.
    pub open spec fn wf(&self) -> bool {
        &&& dated(self.master_record.pairing_date)
        &&& dated(self.alignment.last_index_observation_date)
    }

    /// Whether each instant of the accessory has a date in the calendar.
    pub fn has_dates(&self) -> (yes: bool)
        ensures
            yes == self.wf(),
    {
        let paired = match self.master_record.pairing_date {
            Some(time) => time.has_date(),
            None => true,
        };
        let aligned = match self.alignment.last_index_observation_date {
            Some(time) => time.has_date(),
            None => true,
        };
        paired && aligned
    }
}

/// An accessory can be exported exactly where each of its two instants is missing, or is a second of
/// the calendar with less than a second on top of it.
pub proof fn law_exportable_instants(acc: &BeaconAccessory)
    ensures
        acc.wf() <==> {
            &&& acc.master_record.pairing_date matches Some(t) ==> -8334601228800 <= t.secs
                <= 8210266876799 && t.nanos <= 999_999_999
            &&& acc.alignment.last_index_observation_date matches Some(t) ==> -8334601228800
                <= t.secs <= 8210266876799 && t.nanos <= 999_999_999
        },
{
}

} // verus!
