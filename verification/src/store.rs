//! The records of a beacon store, and the accessories that they make up.
use vstd::prelude::*;
use vstd::utf8::*;

use crate::accessory::{
    BeaconAccessory, BeaconNamingRecord, KeyAlignmentRecord, MasterBeaconRecord,
};
use crate::text;

verus! {

/// Records by identifier. No identifier occurs twice; a record that is put under an identifier
/// takes the place of the one that was there.
#[derive(Debug)]
pub struct RecordTable<V> {
    entries: Vec<(String, V)>,
}

/// Where in `entries` the identifier occurs first.
pub open spec fn position<V>(entries: Seq<(String, V)>, identifier: Seq<char>) -> Option<int>
    decreases entries.len(),
{
    if entries.len() == 0 {
        None
    } else {
        match position(entries.drop_last(), identifier) {
            Some(i) => Some(i),
            None => if entries.last().0@ == identifier {
                Some(entries.len() - 1)
            } else {
                None
            },
        }
    }
}

/// What `position` finds holds the identifier, and nothing before it does.
pub proof fn lemma_position<V>(entries: Seq<(String, V)>, identifier: Seq<char>)
    ensures
        match position(entries, identifier) {
            Some(i) => 0 <= i < entries.len() && entries[i].0@ == identifier && (forall|j: int|
                0 <= j < i ==> (#[trigger] entries[j]).0@ != identifier),
            None => forall|j: int|
                0 <= j < entries.len() ==> (#[trigger] entries[j]).0@ != identifier,
        },
    decreases entries.len(),
{
    if entries.len() > 0 {
        let shorter = entries.drop_last();
        lemma_position(shorter, identifier);
        match position(shorter, identifier) {
            Some(i) => {
                assert forall|j: int| 0 <= j < i implies (#[trigger] entries[j]).0@
                    != identifier by {
                    assert(shorter[j] == entries[j]);
                }
            },
            None => {
                assert forall|j: int| 0 <= j < shorter.len() implies (#[trigger] entries[j]).0@
                    != identifier by {
                    assert(shorter[j] == entries[j]);
                }
            },
        }
    }
}

/// Whether no identifier occurs twice.
pub open spec fn distinct<V>(entries: Seq<(String, V)>) -> bool {
    forall|i: int, j: int|
        0 <= i < j < entries.len() ==> (#[trigger] entries[i]).0@ != (#[trigger] entries[j]).0@
}

/// Where no identifier occurs twice, an identifier is found wherever it stands.
pub proof fn lemma_found<V>(entries: Seq<(String, V)>, i: int)
    requires
        distinct(entries),
        0 <= i < entries.len(),
    ensures
        position(entries, entries[i].0@) == Some(i),
{
    lemma_position(entries, entries[i].0@);
    let p = position(entries, entries[i].0@);
    assert(entries[i].0@ == entries[i].0@);
    assert(p is Some);
    assert(entries[p->Some_0].0@ == entries[i].0@);
}

impl<V> RecordTable<V> {
    /// The records with their identifiers, in a row.
    pub closed spec fn listed(&self) -> Seq<(String, V)> {
        self.entries@
    }

    /// No identifier occurs twice.
    pub open spec fn wf(&self) -> bool {
        distinct(self.listed())
    }

    /// The records by identifier.
    pub open spec fn records(&self) -> Map<Seq<char>, V> {
        Map::new(
            |identifier: Seq<char>| position(self.listed(), identifier) is Some,
            |identifier: Seq<char>|
                self.listed()[position(self.listed(), identifier)->Some_0].1,
        )
    }

    /// A table without records.
    pub fn new() -> (table: Self)
        ensures
            table.wf(),
            table.records() == Map::<Seq<char>, V>::empty(),
            table.listed().len() == 0,
    {
        let table = RecordTable { entries: Vec::new() };
        proof {
            assert(table.records() =~= Map::<Seq<char>, V>::empty());
        }
        table
    }

    /// The number of records.
    pub fn len(&self) -> (count: usize)
        ensures
            count == self.listed().len(),
    {
        self.entries.len()
    }

    fn find(&self, identifier: &str) -> (found: Option<usize>)
        ensures
            match found {
                Some(i) => position(self.listed(), identifier@) == Some(i as int),
                None => position(self.listed(), identifier@) is None,
            },
    {
        let mut i: usize = 0;
        while i < self.entries.len()
            invariant
                i <= self.listed().len(),
                forall|j: int| 0 <= j < i ==> (#[trigger] self.listed()[j]).0@ != identifier@,
            decreases self.listed().len() - i,
        {
            if text::same_text(self.entries[i].0.as_str(), identifier) {
                proof {
                    lemma_position(self.listed(), identifier@);
                    let p = position(self.listed(), identifier@);
                    assert(self.listed()[i as int].0@ == identifier@);
                    assert(p is Some);
                    assert(self.listed()[p->Some_0].0@ == identifier@);
                }
                return Some(i);
            }
            i += 1;
        }
        proof {
            lemma_position(self.listed(), identifier@);
            if position(self.listed(), identifier@) is Some {
                let p = position(self.listed(), identifier@)->Some_0;
                assert(self.listed()[p].0@ == identifier@);
            }
        }
        None
    }

    /// Puts a record under an identifier.
    pub fn insert(&mut self, identifier: String, record: V)
        requires
            old(self).wf(),
        ensures
            final(self).wf(),
            final(self).records() == old(self).records().insert(identifier@, record),
            final(self).listed().len() == old(self).listed().len() + if old(
                self,
            ).records().dom().contains(identifier@) {
                0int
            } else {
                1int
            },
    {
        let ghost before = self.listed();
        let ghost key = identifier@;
        proof {
            lemma_position(before, key);
        }
        match self.find(identifier.as_str()) {
            Some(i) => {
                self.entries.set(i, (identifier, record));
            },
            None => {
                self.entries.push((identifier, record));
            },
        }
        proof {
            let after = self.listed();
            assert(distinct(after));
            assert forall|k: Seq<char>| k != key implies position(after, k) == #[trigger] position(
                before,
                k,
            ) && (position(before, k) matches Some(p) ==> after[p] == before[p]) by {
                lemma_position(before, k);
                lemma_position(after, k);
                if position(before, k) is Some {
                    let p = position(before, k)->Some_0;
                    assert(after[p] == before[p]);
                    lemma_found(after, p);
                } else if position(after, k) is Some {
                    let p = position(after, k)->Some_0;
                    assert(after[p].0@ == k);
                    assert(after[p] == before[p]);
                }
            }
            if position(before, key) is Some {
                lemma_found(after, position(before, key)->Some_0);
            } else {
                lemma_found(after, before.len() as int);
            }
            assert(self.records() =~= old(self).records().insert(key, record));
        }
    }

    /// Takes the record under an identifier out.
    pub fn remove(&mut self, identifier: &str) -> (record: Option<V>)
        requires
            old(self).wf(),
        ensures
            final(self).wf(),
            final(self).records() == old(self).records().remove(identifier@),
            match record {
                Some(r) => old(self).records().dom().contains(identifier@) && r == old(
                    self,
                ).records()[identifier@] && final(self).listed().len() + 1 == old(
                    self,
                ).listed().len(),
                None => !old(self).records().dom().contains(identifier@) && final(self).listed()
                    == old(self).listed(),
            },
    {
        let ghost before = self.listed();
        let ghost key = identifier@;
        proof {
            lemma_position(before, key);
        }
        match self.find(identifier) {
            Some(i) => {
                let (_, record) = self.entries.remove(i);
                proof {
                    assert(distinct(self.listed()));
                    assert forall|k: Seq<char>|
                        k != key && position(before, k) is None implies #[trigger] position(
                        self.listed(),
                        k,
                    ) is None by {
                        lemma_position(before, k);
                        lemma_position(self.listed(), k);
                    }
                    assert forall|k: Seq<char>|
                        k != key && position(before, k) is Some implies #[trigger] position(
                        self.listed(),
                        k,
                    ) is Some && self.listed()[position(self.listed(), k)->Some_0]
                        == before[position(before, k)->Some_0] by {
                        lemma_position(before, k);
                        lemma_position(self.listed(), k);
                        let p = position(before, k)->Some_0;
                        let q = if p < i {
                            p
                        } else {
                            p - 1
                        };
                        assert(self.listed()[q] == before[p]);
                        lemma_found(self.listed(), q);
                    }
                    lemma_position(self.listed(), key);
                    assert(position(self.listed(), key) is None);
                    assert(self.records() =~= old(self).records().remove(key));
                }
                Some(record)
            },
            None => {
                proof {
                    assert(self.records() =~= old(self).records().remove(key));
                }
                None
            },
        }
    }
}

/// The record under an identifier, where there is one.
pub open spec fn lookup<V>(records: Map<Seq<char>, V>, identifier: Seq<char>) -> Option<V> {
    if records.dom().contains(identifier) {
        Some(records[identifier])
    } else {
        None
    }
}

/// The names under which the three kinds of records are stored.
#[derive(Debug)]
pub struct RecordTypes {
    pub beacon: String,
    pub naming: String,
    pub alignment: String,
}

/// The kinds of records that make up accessories.
#[derive(Clone, Copy, Debug, PartialEq, Eq)]
pub enum RecordKind {
    Beacon,
    Naming,
    Alignment,
}

/// The kind of records that are stored under a name; none where the name is another one.
pub fn record_kind(record_type: &str, types: &RecordTypes) -> (kind: Option<RecordKind>)
    ensures
        kind == if record_type@ == types.beacon@ {
            Some(RecordKind::Beacon)
        } else if record_type@ == types.naming@ {
            Some(RecordKind::Naming)
        } else if record_type@ == types.alignment@ {
            Some(RecordKind::Alignment)
        } else {
            None
        },
{
    if text::same_text(record_type, types.beacon.as_str()) {
        Some(RecordKind::Beacon)
    } else if text::same_text(record_type, types.naming.as_str()) {
        Some(RecordKind::Naming)
    } else if text::same_text(record_type, types.alignment.as_str()) {
        Some(RecordKind::Alignment)
    } else {
        None
    }
}

/// How many bytes of a text its short form takes: eight, or all where there are fewer.
pub open spec fn head_length(s: Seq<char>) -> int {
    if encode_utf8(s).len() < 8 {
        encode_utf8(s).len() as int
    } else {
        8
    }
}

/// Whether no character of `s` straddles its eighth byte.
pub open spec fn has_short_form(s: Seq<char>) -> bool {
    is_char_boundary(encode_utf8(s), head_length(s))
}

/// The characters in the first eight bytes of `s`.
pub open spec fn short_form(s: Seq<char>) -> Seq<char> {
    decode_utf8(encode_utf8(s).take(head_length(s)))
}

/// Whether no character of the text straddles its eighth byte.
pub fn shortens(stable_identifier: &str) -> (yes: bool)
    ensures
        yes == has_short_form(stable_identifier@),
{
    let length: usize = stable_identifier.as_bytes().len();
    if length < 8 {
        stable_identifier.is_char_boundary(length)
    } else {
        stable_identifier.is_char_boundary(8)
    }
}

/// The name of an accessory that nobody named.
pub fn unknown_name(stable_identifier: &str) -> (name: String)
    requires
        has_short_form(stable_identifier@),
    ensures
        name@ == "Unknown-"@ + short_form(stable_identifier@),
{
    let length: usize = stable_identifier.as_bytes().len();
    let middle: usize = if length < 8 {
        length
    } else {
        8
    };
    let (head, _) = stable_identifier.split_at(middle);
    proof {
        encode_utf8_decode_utf8(head@);
        assert(encode_utf8(head@) =~= encode_utf8(stable_identifier@).take(middle as int));
    }
    "Unknown-".to_owned().concat(head)
}

/// A text in ASCII can always be shortened, to its first eight characters.
pub proof fn law_ascii_shortens(s: Seq<char>)
    requires
        is_ascii_chars(s),
    ensures
        has_short_form(s),
        short_form(s) == if s.len() < 8 {
            s
        } else {
            s.take(8)
        },
{
    is_ascii_chars_encode_utf8(s);
    encode_utf8_valid_utf8(s);
    let bytes = encode_utf8(s);
    let n = head_length(s);
    let head = s.take(n);
    assert(is_ascii_chars(head));
    is_ascii_chars_encode_utf8(head);
    assert(encode_utf8(head) =~= bytes.take(n));
    encode_utf8_decode_utf8(head);
    if n == bytes.len() {
        is_char_boundary_start_end_of_seq(bytes);
        assert(head =~= s);
    } else {
        is_char_boundary_iff_not_is_continuation_byte(bytes, n);
        assert(bytes[n] == s[n] as u8);
        assert(s[n] as u32 <= 127);
        let byte = bytes[n];
        assert(byte <= 127);
    }
}

/// A record that was stored.
#[derive(Debug)]
pub enum StoredRecord {
    Beacon(MasterBeaconRecord),
    Naming(BeaconNamingRecord),
    Alignment(KeyAlignmentRecord),
}

/// The records of a beacon store: the beacons by their own identifiers, and the other records, each
/// with its own identifier, by the identifier of the beacon that it is about.
#[derive(Debug)]
pub struct BeaconStore {
    beacons: RecordTable<MasterBeaconRecord>,
    namings: RecordTable<(String, BeaconNamingRecord)>,
    alignments: RecordTable<(String, KeyAlignmentRecord)>,
}

/// Accessories, and how the records that went into them matched.
#[derive(Debug)]
pub struct Assembly {
    /// The accessories, each with the identifier of its beacon.
    pub accessories: Vec<(String, BeaconAccessory)>,
    pub matched_naming_records: usize,
    pub matched_alignment_records: usize,
    /// The stable identifier and the model of each accessory without a name.
    pub missing_naming_records: Vec<(String, String)>,
    /// The stable identifier and the model of each accessory without an alignment.
    pub missing_alignment_records: Vec<(String, String)>,
    pub unmatched_naming_records: usize,
    pub unmatched_alignment_records: usize,
}

/// Whether an accessory has the name that was stored for its beacon, or, where none was, the one
/// that stands in for it.
pub open spec fn named_by(
    acc: &BeaconAccessory,
    beacon: Seq<char>,
    stored: Option<(String, BeaconNamingRecord)>,
) -> bool {
    match stored {
        Some((identifier, naming)) => acc.naming_id == identifier && acc.naming == naming,
        None => {
            &&& acc.naming_id@ == Seq::<char>::empty()
            &&& acc.naming.emoji@ == Seq::<char>::empty()
            &&& acc.naming.name@ == "Unknown-"@ + short_form(acc.master_record.stable_identifier@)
            &&& acc.naming.associated_beacon@ == beacon
            &&& acc.naming.role_id == 0
        },
    }
}

/// Whether an accessory has the alignment that was stored for its beacon, or, where none was, an
/// empty one.
pub open spec fn aligned_by(
    acc: &BeaconAccessory,
    stored: Option<(String, KeyAlignmentRecord)>,
) -> bool {
    match stored {
        Some((identifier, alignment)) => acc.alignment_id == identifier && acc.alignment
            == alignment,
        None => {
            &&& acc.alignment_id@ == Seq::<char>::empty()
            &&& acc.alignment.beacon_identifier@ == Seq::<char>::empty()
            &&& acc.alignment.last_index_observed == 0
            &&& acc.alignment.last_index_observation_date is None
        },
    }
}

/// The stable identifier and the model of each beacon that is not among the known ones.
pub open spec fn missing(
    beacons: Seq<(String, MasterBeaconRecord)>,
    known: Set<Seq<char>>,
) -> Seq<(Seq<char>, Seq<char>)>
    decreases beacons.len(),
{
    if beacons.len() == 0 {
        Seq::empty()
    } else {
        let before = missing(beacons.drop_last(), known);
        let (identifier, master) = beacons.last();
        if known.contains(identifier@) {
            before
        } else {
            before.push((master.stable_identifier@, master.model@))
        }
    }
}

/// A list of pairs of strings, as pairs of texts.
pub open spec fn pair_texts(pairs: Seq<(String, String)>) -> Seq<(Seq<char>, Seq<char>)> {
    pairs.map_values(|pair: (String, String)| (pair.0@, pair.1@))
}

/// Whether `assembly` is what the records of `store` make up: one accessory for each beacon, with
/// the name and the alignment that were stored for it, and a tally of what matched.
pub open spec fn assembled(store: &BeaconStore, assembly: &Assembly) -> bool {
    let beacons = store.beacon_table().listed();
    let namings = store.naming_table().records();
    let alignments = store.alignment_table().records();
    &&& assembly.accessories@.len() == beacons.len()
    &&& forall|i: int|
        #![trigger assembly.accessories@[i]]
        0 <= i < beacons.len() ==> {
            let (identifier, acc) = assembly.accessories@[i];
            &&& identifier == beacons[i].0
            &&& acc.master_record == beacons[i].1
            &&& named_by(&acc, identifier@, lookup(namings, identifier@))
            &&& aligned_by(&acc, lookup(alignments, identifier@))
        }
    &&& pair_texts(assembly.missing_naming_records@) == missing(beacons, namings.dom())
    &&& pair_texts(assembly.missing_alignment_records@) == missing(beacons, alignments.dom())
    &&& assembly.matched_naming_records + assembly.missing_naming_records@.len() == beacons.len()
    &&& assembly.matched_alignment_records + assembly.missing_alignment_records@.len()
        == beacons.len()
    &&& assembly.unmatched_naming_records + assembly.matched_naming_records
        == store.naming_table().listed().len()
    &&& assembly.unmatched_alignment_records + assembly.matched_alignment_records
        == store.alignment_table().listed().len()
}

/// Whether `after` is `before` with a record taken in that was stored under `identifier`.
pub open spec fn added(
    before: &BeaconStore,
    identifier: String,
    record: StoredRecord,
    after: &BeaconStore,
) -> bool {
    &&& after.wf()
    &&& match record {
        StoredRecord::Beacon(master) => {
            &&& after.beacon_table().records() == before.beacon_table().records().insert(
                identifier@,
                master,
            )
            &&& after.naming_table() == before.naming_table()
            &&& after.alignment_table() == before.alignment_table()
        },
        StoredRecord::Naming(naming) => {
            &&& after.naming_table().records() == before.naming_table().records().insert(
                naming.associated_beacon@,
                (identifier, naming),
            )
            &&& after.beacon_table() == before.beacon_table()
            &&& after.alignment_table() == before.alignment_table()
        },
        StoredRecord::Alignment(alignment) => {
            &&& after.alignment_table().records() == before.alignment_table().records().insert(
                alignment.beacon_identifier@,
                (identifier, alignment),
            )
            &&& after.beacon_table() == before.beacon_table()
            &&& after.naming_table() == before.naming_table()
        },
    }
}

impl BeaconStore {
    /// The beacons.
    pub closed spec fn beacon_table(&self) -> RecordTable<MasterBeaconRecord> {
        self.beacons
    }

    /// The names.
    pub closed spec fn naming_table(&self) -> RecordTable<(String, BeaconNamingRecord)> {
        self.namings
    }

    /// The alignments.
    pub closed spec fn alignment_table(&self) -> RecordTable<(String, KeyAlignmentRecord)> {
        self.alignments
    }

    /// In no table an identifier occurs twice.
    pub open spec fn wf(&self) -> bool {
        &&& self.beacon_table().wf()
        &&& self.naming_table().wf()
        &&& self.alignment_table().wf()
    }

    /// Each beacon without a name has an identifier that can be shortened.
    pub open spec fn nameable(&self) -> bool {
        forall|i: int|
            0 <= i < self.beacon_table().listed().len() ==> ({
                let (identifier, master) = #[trigger] self.beacon_table().listed()[i];
                self.naming_table().records().dom().contains(identifier@) || has_short_form(
                    master.stable_identifier@,
                )
            })
    }

    /// A store without records.
    pub fn new() -> (store: BeaconStore)
        ensures
            store.wf(),
            store.beacon_table().records() == Map::<Seq<char>, MasterBeaconRecord>::empty(),
            store.naming_table().records() == Map::<Seq<char>, (String, BeaconNamingRecord)>::empty(),
            store.alignment_table().records() == Map::<Seq<char>, (String, KeyAlignmentRecord)>::empty(),
            store.beacon_table().listed().len() == 0,
            store.naming_table().listed().len() == 0,
            store.alignment_table().listed().len() == 0,
    {
        BeaconStore {
            beacons: RecordTable::new(),
            namings: RecordTable::new(),
            alignments: RecordTable::new(),
        }
    }

    /// Takes in a record that was stored under `identifier`. A later record about the same beacon
    /// takes the place of an earlier one of its kind.
    pub fn add(&mut self, identifier: String, record: StoredRecord)
        requires
            old(self).wf(),
        ensures
            final(self).wf(),
            match record {
                StoredRecord::Beacon(master) => {
                    &&& final(self).beacon_table().records() == old(self).beacon_table().records().insert(
                        identifier@,
                        master,
                    )
                    &&& final(self).naming_table() == old(self).naming_table()
                    &&& final(self).alignment_table() == old(self).alignment_table()
                },
                StoredRecord::Naming(naming) => {
                    &&& final(self).naming_table().records() == old(self).naming_table().records().insert(
                        naming.associated_beacon@,
                        (identifier, naming),
                    )
                    &&& final(self).beacon_table() == old(self).beacon_table()
                    &&& final(self).alignment_table() == old(self).alignment_table()
                },
                StoredRecord::Alignment(alignment) => {
                    &&& final(self).alignment_table().records() == old(self).alignment_table().records().insert(
                        alignment.beacon_identifier@,
                        (identifier, alignment),
                    )
                    &&& final(self).beacon_table() == old(self).beacon_table()
                    &&& final(self).naming_table() == old(self).naming_table()
                },
            },
            added(old(self), identifier, record, final(self)),
    {
        match record {
            StoredRecord::Beacon(master) => {
                self.beacons.insert(identifier, master);
            },
            StoredRecord::Naming(naming) => {
                let beacon = naming.associated_beacon.clone();
                self.namings.insert(beacon, (identifier, naming));
            },
            StoredRecord::Alignment(alignment) => {
                let beacon = alignment.beacon_identifier.clone();
                self.alignments.insert(beacon, (identifier, alignment));
            },
        }
    }

    /// Whether each beacon without a name has an identifier that can be shortened.
    pub fn can_name(&self) -> (yes: bool)
        ensures
            yes == self.nameable(),
    {
        let mut i: usize = 0;
        while i < self.beacons.entries.len()
            invariant
                i <= self.beacon_table().listed().len(),
                forall|j: int|
                    0 <= j < i ==> ({
                        let (identifier, master) = #[trigger] self.beacon_table().listed()[j];
                        self.naming_table().records().dom().contains(identifier@) || has_short_form(
                            master.stable_identifier@,
                        )
                    }),
            decreases self.beacon_table().listed().len() - i,
        {
            let named = self.namings.find(self.beacons.entries[i].0.as_str()).is_some();
            if !named && !shortens(self.beacons.entries[i].1.stable_identifier.as_str()) {
                proof {
                    let (identifier, master) = self.beacon_table().listed()[i as int];
                    assert(!self.naming_table().records().dom().contains(identifier@));
                }
                return false;
            }
            i += 1;
        }
        true
    }

    /// Makes accessories of the records: one for each beacon.
    pub fn assemble(self) -> (assembly: Assembly)
        requires
            self.wf(),
            self.nameable(),
        ensures
            assembled(&self, &assembly),
    {
        let ghost all = self.beacon_table().listed();
        let ghost stored_namings = self.naming_table().records();
        let ghost stored_alignments = self.alignment_table().records();
        let ghost naming_count = self.naming_table().listed().len();
        let ghost alignment_count = self.alignment_table().listed().len();
        let mut rest = self.beacons.entries;
        let mut namings = self.namings;
        let mut alignments = self.alignments;
        let mut accessories: Vec<(String, BeaconAccessory)> = Vec::new();
        let mut matched_naming_records: usize = 0;
        let mut matched_alignment_records: usize = 0;
        let mut missing_naming_records: Vec<(String, String)> = Vec::new();
        let mut missing_alignment_records: Vec<(String, String)> = Vec::new();
        let total: usize = rest.len();
        let ghost mut done: int = 0;
        proof {
            assert(all.skip(0) =~= all);
            assert(pair_texts(missing_naming_records@) =~= missing(all.take(0), stored_namings.dom()));
            assert(pair_texts(missing_alignment_records@) =~= missing(
                all.take(0),
                stored_alignments.dom(),
            ));
        }
        while rest.len() > 0
            invariant
                0 <= done <= all.len(),
                total == all.len(),
                rest@ == all.skip(done),
                distinct(all),
                namings.wf(),
                alignments.wf(),
                forall|i: int|
                    0 <= i < all.len() ==> ({
                        let (identifier, master) = #[trigger] all[i];
                        stored_namings.dom().contains(identifier@) || has_short_form(
                            master.stable_identifier@,
                        )
                    }),
                forall|i: int|
                    done <= i < all.len() ==> lookup(
                        namings.records(),
                        (#[trigger] all[i]).0@,
                    ) == lookup(stored_namings, all[i].0@),
                forall|i: int|
                    done <= i < all.len() ==> lookup(
                        alignments.records(),
                        (#[trigger] all[i]).0@,
                    ) == lookup(stored_alignments, all[i].0@),
                accessories@.len() == done,
                forall|i: int|
                    #![trigger accessories@[i]]
                    0 <= i < done ==> {
                        let (identifier, acc) = accessories@[i];
                        &&& identifier == all[i].0
                        &&& acc.master_record == all[i].1
                        &&& named_by(&acc, identifier@, lookup(stored_namings, identifier@))
                        &&& aligned_by(&acc, lookup(stored_alignments, identifier@))
                    },
                pair_texts(missing_naming_records@) == missing(
                    all.take(done),
                    stored_namings.dom(),
                ),
                pair_texts(missing_alignment_records@) == missing(
                    all.take(done),
                    stored_alignments.dom(),
                ),
                matched_naming_records + missing_naming_records@.len() == done,
                matched_alignment_records + missing_alignment_records@.len() == done,
                namings.listed().len() + matched_naming_records == naming_count,
                alignments.listed().len() + matched_alignment_records == alignment_count,
            decreases rest@.len(),
        {
            let (id, master) = rest.remove(0);
            let ghost namings_before = namings.records();
            let ghost alignments_before = alignments.records();
            let ghost missing_before = missing_naming_records@;
            let ghost misaligned_before = missing_alignment_records@;
            proof {
                assert(all.skip(done)[0] == all[done]);
                assert(all[done] == (id, master));
                assert(rest@ =~= all.skip(done + 1));
                assert(all.take(done + 1).drop_last() =~= all.take(done));
                assert(all.take(done + 1).last() == all[done]);
            }
            let (naming_id, naming) = match namings.remove(id.as_str()) {
                Some(found) => {
                    matched_naming_records += 1;
                    found
                },
                None => {
                    missing_naming_records.push(
                        (master.stable_identifier.clone(), master.model.clone()),
                    );
                    proof {
                        assert(pair_texts(missing_naming_records@) =~= pair_texts(
                            missing_before,
                        ).push((master.stable_identifier@, master.model@)));
                    }
                    (
                        String::new(),
                        BeaconNamingRecord {
                            emoji: String::new(),
                            name: unknown_name(master.stable_identifier.as_str()),
                            associated_beacon: id.clone(),
                            role_id: 0,
                        },
                    )
                },
            };
            let (alignment_id, alignment) = match alignments.remove(id.as_str()) {
                Some(found) => {
                    matched_alignment_records += 1;
                    found
                },
                None => {
                    missing_alignment_records.push(
                        (master.stable_identifier.clone(), master.model.clone()),
                    );
                    proof {
                        assert(pair_texts(missing_alignment_records@) =~= pair_texts(
                            misaligned_before,
                        ).push((master.stable_identifier@, master.model@)));
                    }
                    (String::new(), KeyAlignmentRecord::default())
                },
            };
            proof {
                assert forall|i: int| done + 1 <= i < all.len() implies lookup(
                    namings.records(),
                    (#[trigger] all[i]).0@,
                ) == lookup(stored_namings, all[i].0@) && lookup(
                    alignments.records(),
                    all[i].0@,
                ) == lookup(stored_alignments, all[i].0@) by {
                    assert(all[done].0@ != all[i].0@);
                }
            }
            accessories.push(
                (
                    id,
                    BeaconAccessory {
                        master_record: master,
                        naming,
                        naming_id,
                        alignment,
                        alignment_id,
                    },
                ),
            );
            proof {
                done = done + 1;
            }
        }
        proof {
            assert(all.take(done) =~= all);
        }
        let unmatched_naming_records = namings.len();
        let unmatched_alignment_records = alignments.len();
        Assembly {
            accessories,
            matched_naming_records,
            matched_alignment_records,
            missing_naming_records,
            missing_alignment_records,
            unmatched_naming_records,
            unmatched_alignment_records,
        }
    }
}

/// The accessories are exactly those of the beacons that were stored, and none comes twice.
pub proof fn law_one_accessory_per_beacon(
    store: &BeaconStore,
    assembly: &Assembly,
    identifier: Seq<char>,
)
    requires
        store.wf(),
        assembled(store, assembly),
    ensures
        distinct(assembly.accessories@),
        position(assembly.accessories@, identifier) is Some
            <==> store.beacon_table().records().dom().contains(identifier),
        store.beacon_table().records().dom().contains(identifier) ==> ({
            let (_, acc) = assembly.accessories@[position(
                assembly.accessories@,
                identifier,
            )->Some_0];
            &&& acc.master_record == store.beacon_table().records()[identifier]
            &&& named_by(&acc, identifier, lookup(store.naming_table().records(), identifier))
            &&& aligned_by(&acc, lookup(store.alignment_table().records(), identifier))
        }),
{
    let beacons = store.beacon_table().listed();
    let accessories = assembly.accessories@;
    assert forall|i: int, j: int| 0 <= i < j < accessories.len() implies (
    #[trigger] accessories[i]).0@ != (#[trigger] accessories[j]).0@ by {
        assert(beacons[i].0@ != beacons[j].0@);
    }
    lemma_position(beacons, identifier);
    lemma_position(accessories, identifier);
    if position(beacons, identifier) is Some {
        let i = position(beacons, identifier)->Some_0;
        assert(accessories[i].0 == beacons[i].0);
        lemma_found(accessories, i);
    } else if position(accessories, identifier) is Some {
        let i = position(accessories, identifier)->Some_0;
        assert(accessories[i].0 == beacons[i].0);
    }
}

/// Whether a record that was stored under an identifier is of this kind and about this beacon.
pub open spec fn about(
    entry: (String, StoredRecord),
    kind: RecordKind,
    beacon: Seq<char>,
) -> bool {
    match (kind, entry.1) {
        (RecordKind::Beacon, StoredRecord::Beacon(_)) => entry.0@ == beacon,
        (RecordKind::Naming, StoredRecord::Naming(naming)) => naming.associated_beacon@ == beacon,
        (
            RecordKind::Alignment,
            StoredRecord::Alignment(alignment),
        ) => alignment.beacon_identifier@ == beacon,
        _ => false,
    }
}

/// Whether the last of the records of this kind about this beacon is the one at `m`.
pub open spec fn is_last(
    log: Seq<(String, StoredRecord)>,
    kind: RecordKind,
    beacon: Seq<char>,
    m: int,
) -> bool {
    &&& 0 <= m < log.len()
    &&& about(log[m], kind, beacon)
    &&& forall|n: int| m < n < log.len() ==> !about(#[trigger] log[n], kind, beacon)
}

/// Whether none of the records is of this kind and about this beacon.
pub open spec fn is_missing(
    log: Seq<(String, StoredRecord)>,
    kind: RecordKind,
    beacon: Seq<char>,
) -> bool {
    forall|n: int| 0 <= n < log.len() ==> !about(#[trigger] log[n], kind, beacon)
}

/// Whether the stores are those that adding the records one after the other gives, from an empty
/// one on.
pub open spec fn filled(stores: Seq<BeaconStore>, log: Seq<(String, StoredRecord)>) -> bool {
    &&& stores.len() == log.len() + 1
    &&& stores[0].wf()
    &&& stores[0].beacon_table().records() == Map::<Seq<char>, MasterBeaconRecord>::empty()
    &&& stores[0].naming_table().records() == Map::<
        Seq<char>,
        (String, BeaconNamingRecord),
    >::empty()
    &&& stores[0].alignment_table().records() == Map::<
        Seq<char>,
        (String, KeyAlignmentRecord),
    >::empty()
    &&& forall|i: int|
        0 <= i < log.len() ==> added(&stores[i], (#[trigger] log[i]).0, log[i].1, &stores[i + 1])
}

proof fn lemma_filled_before(stores: Seq<BeaconStore>, log: Seq<(String, StoredRecord)>)
    requires
        filled(stores, log),
        log.len() > 0,
    ensures
        filled(stores.drop_last(), log.drop_last()),
        stores.drop_last().last() == stores[log.len() - 1],
        added(&stores[log.len() - 1], log.last().0, log.last().1, &stores.last()),
{
    let shorter = log.drop_last();
    assert forall|i: int| 0 <= i < shorter.len() implies added(
        &stores.drop_last()[i],
        (#[trigger] shorter[i]).0,
        shorter[i].1,
        &stores.drop_last()[i + 1],
    ) by {
        assert(shorter[i] == log[i]);
    }
    assert(log[log.len() - 1] == log.last());
}

proof fn lemma_is_last_before(
    log: Seq<(String, StoredRecord)>,
    kind: RecordKind,
    beacon: Seq<char>,
    m: int,
)
    requires
        is_last(log, kind, beacon, m),
        m < log.len() - 1,
    ensures
        is_last(log.drop_last(), kind, beacon, m),
        !about(log.last(), kind, beacon),
{
    let shorter = log.drop_last();
    assert(shorter[m] == log[m]);
    assert forall|n: int| m < n < shorter.len() implies !about(#[trigger] shorter[n], kind, beacon) by {
        assert(shorter[n] == log[n]);
    }
    assert(log[log.len() - 1] == log.last());
}

proof fn lemma_is_missing_before(
    log: Seq<(String, StoredRecord)>,
    kind: RecordKind,
    beacon: Seq<char>,
)
    requires
        is_missing(log, kind, beacon),
        log.len() > 0,
    ensures
        is_missing(log.drop_last(), kind, beacon),
        !about(log.last(), kind, beacon),
{
    let shorter = log.drop_last();
    assert forall|n: int| 0 <= n < shorter.len() implies !about(#[trigger] shorter[n], kind, beacon) by {
        assert(shorter[n] == log[n]);
    }
    assert(log[log.len() - 1] == log.last());
}

proof fn lemma_last_is_held(
    stores: Seq<BeaconStore>,
    log: Seq<(String, StoredRecord)>,
    kind: RecordKind,
    beacon: Seq<char>,
    m: int,
)
    requires
        filled(stores, log),
        is_last(log, kind, beacon, m),
    ensures
        match log[m].1 {
            StoredRecord::Beacon(master) => stores.last().beacon_table().records().contains_pair(
                beacon,
                master,
            ),
            StoredRecord::Naming(naming) => stores.last().naming_table().records().contains_pair(
                beacon,
                (log[m].0, naming),
            ),
            StoredRecord::Alignment(
                alignment,
            ) => stores.last().alignment_table().records().contains_pair(
                beacon,
                (log[m].0, alignment),
            ),
        },
    decreases log.len(),
{
    lemma_filled_before(stores, log);
    if m < log.len() - 1 {
        lemma_is_last_before(log, kind, beacon, m);
        lemma_last_is_held(stores.drop_last(), log.drop_last(), kind, beacon, m);
    }
}

proof fn lemma_missing_is_not_held(
    stores: Seq<BeaconStore>,
    log: Seq<(String, StoredRecord)>,
    kind: RecordKind,
    beacon: Seq<char>,
)
    requires
        filled(stores, log),
        is_missing(log, kind, beacon),
    ensures
        match kind {
            RecordKind::Beacon => !stores.last().beacon_table().records().dom().contains(beacon),
            RecordKind::Naming => !stores.last().naming_table().records().dom().contains(beacon),
            RecordKind::Alignment => !stores.last().alignment_table().records().dom().contains(
                beacon,
            ),
        },
    decreases log.len(),
{
    if log.len() > 0 {
        lemma_filled_before(stores, log);
        lemma_is_missing_before(log, kind, beacon);
        lemma_missing_is_not_held(stores.drop_last(), log.drop_last(), kind, beacon);
    } else {
        assert(stores.last() == stores[0]);
    }
}

proof fn lemma_filled_is_wf(stores: Seq<BeaconStore>, log: Seq<(String, StoredRecord)>)
    requires
        filled(stores, log),
    ensures
        stores.last().wf(),
{
    if log.len() > 0 {
        lemma_filled_before(stores, log);
    } else {
        assert(stores.last() == stores[0]);
    }
}

/// The alignment that was added last for the beacon of an accessory is the one that the accessory
/// has: the same beacon, the same index and the same date, under the same identifier.
pub proof fn law_alignment_comes_through(
    stores: Seq<BeaconStore>,
    log: Seq<(String, StoredRecord)>,
    assembly: &Assembly,
    j: int,
    m: int,
)
    requires
        filled(stores, log),
        assembled(&stores.last(), assembly),
        0 <= j < assembly.accessories@.len(),
        is_last(log, RecordKind::Alignment, assembly.accessories@[j].0@, m),
    ensures
        ({
            let acc = assembly.accessories@[j].1;
            &&& log[m].1 matches StoredRecord::Alignment(added_last)
            &&& acc.alignment.beacon_identifier@ == added_last.beacon_identifier@
            &&& acc.alignment.last_index_observed == added_last.last_index_observed
            &&& acc.alignment.last_index_observation_date == added_last.last_index_observation_date
            &&& acc.alignment_id@ == log[m].0@
        }),
{
    let beacon = assembly.accessories@[j].0@;
    lemma_last_is_held(stores, log, RecordKind::Alignment, beacon, m);
}

/// An accessory for whose beacon no alignment was added has none: no beacon, index zero, no date
/// and no identifier.
pub proof fn law_no_alignment_is_invented(
    stores: Seq<BeaconStore>,
    log: Seq<(String, StoredRecord)>,
    assembly: &Assembly,
    j: int,
)
    requires
        filled(stores, log),
        assembled(&stores.last(), assembly),
        0 <= j < assembly.accessories@.len(),
        is_missing(log, RecordKind::Alignment, assembly.accessories@[j].0@),
    ensures
        ({
            let acc = assembly.accessories@[j].1;
            &&& acc.alignment.beacon_identifier@.len() == 0
            &&& acc.alignment.last_index_observed == 0
            &&& acc.alignment.last_index_observation_date is None
            &&& acc.alignment_id@.len() == 0
        }),
{
    lemma_missing_is_not_held(
        stores,
        log,
        RecordKind::Alignment,
        assembly.accessories@[j].0@,
    );
}

/// The name that was added last for the beacon of an accessory is the one that the accessory has:
/// the same name, emoji, beacon and role, under the same identifier.
pub proof fn law_name_comes_through(
    stores: Seq<BeaconStore>,
    log: Seq<(String, StoredRecord)>,
    assembly: &Assembly,
    j: int,
    m: int,
)
    requires
        filled(stores, log),
        assembled(&stores.last(), assembly),
        0 <= j < assembly.accessories@.len(),
        is_last(log, RecordKind::Naming, assembly.accessories@[j].0@, m),
    ensures
        ({
            let acc = assembly.accessories@[j].1;
            &&& log[m].1 matches StoredRecord::Naming(added_last)
            &&& acc.naming.name@ == added_last.name@
            &&& acc.naming.emoji@ == added_last.emoji@
            &&& acc.naming.associated_beacon@ == added_last.associated_beacon@
            &&& acc.naming.role_id == added_last.role_id
            &&& acc.naming_id@ == log[m].0@
        }),
{
    let beacon = assembly.accessories@[j].0@;
    lemma_last_is_held(stores, log, RecordKind::Naming, beacon, m);
}

/// An accessory for whose beacon no name was added is called by the first bytes of its stable
/// identifier, eight of them or all where there are fewer. It has no emoji, no role and no
/// identifier of a record.
pub proof fn law_nameless_accessory(
    stores: Seq<BeaconStore>,
    log: Seq<(String, StoredRecord)>,
    assembly: &Assembly,
    j: int,
)
    requires
        filled(stores, log),
        stores.last().nameable(),
        assembled(&stores.last(), assembly),
        0 <= j < assembly.accessories@.len(),
        is_missing(log, RecordKind::Naming, assembly.accessories@[j].0@),
    ensures
        ({
            let (beacon, acc) = assembly.accessories@[j];
            let bytes = encode_utf8(acc.master_record.stable_identifier@);
            &&& acc.naming.name@.take(8) == "Unknown-"@
            &&& encode_utf8(acc.naming.name@.skip(8)) == bytes.take(
                if bytes.len() < 8 {
                    bytes.len() as int
                } else {
                    8
                },
            )
            &&& acc.naming.emoji@.len() == 0
            &&& acc.naming.associated_beacon@ == beacon@
            &&& acc.naming.role_id == 0
            &&& acc.naming_id@.len() == 0
        }),
{
    let (beacon, acc) = assembly.accessories@[j];
    lemma_missing_is_not_held(stores, log, RecordKind::Naming, beacon@);
    let identifier = acc.master_record.stable_identifier@;
    assert(stores.last().beacon_table().listed()[j].1 == acc.master_record);
    assert(has_short_form(identifier));
    law_short_form(identifier);
    reveal_strlit("Unknown-");
    assert(acc.naming.name@.take(8) =~= "Unknown-"@);
    assert(acc.naming.name@.skip(8) =~= short_form(identifier));
}

/// A text has a short form exactly where its first eight bytes, or all where there are fewer, end
/// between two characters. The short form has these bytes.
pub proof fn law_short_form(s: Seq<char>)
    ensures
        has_short_form(s) <==> is_char_boundary(
            encode_utf8(s),
            if encode_utf8(s).len() < 8 {
                encode_utf8(s).len() as int
            } else {
                8
            },
        ),
        has_short_form(s) ==> encode_utf8(short_form(s)) == encode_utf8(s).take(
            if encode_utf8(s).len() < 8 {
                encode_utf8(s).len() as int
            } else {
                8
            },
        ),
{
    if has_short_form(s) {
        let bytes = encode_utf8(s);
        encode_utf8_valid_utf8(s);
        valid_utf8_split(bytes, head_length(s));
        decode_utf8_encode_utf8(bytes.take(head_length(s)));
    }
}

/// Each beacon that was added makes exactly one accessory, with every part of the record that was
/// added last under its identifier. Nothing else makes one.
pub proof fn law_beacon_comes_through(
    stores: Seq<BeaconStore>,
    log: Seq<(String, StoredRecord)>,
    assembly: &Assembly,
    beacon: Seq<char>,
    m: int,
)
    requires
        filled(stores, log),
        assembled(&stores.last(), assembly),
        is_last(log, RecordKind::Beacon, beacon, m),
    ensures
        log[m].1 is Beacon,
        exists|j: int| #![trigger assembly.accessories@[j]]
            {
                let master = log[m].1->Beacon_0;
                let acc = assembly.accessories@[j].1;
                &&& 0 <= j < assembly.accessories@.len()
                &&& assembly.accessories@[j].0@ == beacon
                &&& acc.master_record.product_id == master.product_id
                &&& acc.master_record.stable_identifier@ == master.stable_identifier@
                &&& acc.master_record.pairing_date == master.pairing_date
                &&& acc.master_record.battery_level == master.battery_level
                &&& acc.master_record.shared_secret_2 == master.shared_secret_2
                &&& acc.master_record.secure_locations_shared_secret
                    == master.secure_locations_shared_secret
                &&& acc.master_record.private_key@ == master.private_key@
                &&& acc.master_record.system_version@ == master.system_version@
                &&& acc.master_record.shared_secret@ == master.shared_secret@
                &&& acc.master_record.public_key@ == master.public_key@
                &&& acc.master_record.model@ == master.model@
                &&& acc.master_record.vendor_id == master.vendor_id
                &&& acc.master_record.is_zeus == master.is_zeus
                &&& acc.master_record.group_identifier == master.group_identifier
            },
        forall|i: int, j: int|
            0 <= i < j < assembly.accessories@.len() ==> (#[trigger] assembly.accessories@[i]).0@ != (
            #[trigger] assembly.accessories@[j]).0@,
{
    lemma_filled_is_wf(stores, log);
    lemma_last_is_held(stores, log, RecordKind::Beacon, beacon, m);
    law_one_accessory_per_beacon(&stores.last(), assembly, beacon);
    lemma_position(assembly.accessories@, beacon);
    let j = position(assembly.accessories@, beacon)->Some_0;
    assert(assembly.accessories@[j].0@ == beacon);
}

/// No accessory is made of a beacon that was not added.
pub proof fn law_no_accessory_is_invented(
    stores: Seq<BeaconStore>,
    log: Seq<(String, StoredRecord)>,
    assembly: &Assembly,
    j: int,
)
    requires
        filled(stores, log),
        assembled(&stores.last(), assembly),
        0 <= j < assembly.accessories@.len(),
    ensures
        !is_missing(log, RecordKind::Beacon, assembly.accessories@[j].0@),
{
    let beacon = assembly.accessories@[j].0@;
    lemma_filled_is_wf(stores, log);
    law_one_accessory_per_beacon(&stores.last(), assembly, beacon);
    lemma_found(assembly.accessories@, j);
    if is_missing(log, RecordKind::Beacon, beacon) {
        lemma_missing_is_not_held(stores, log, RecordKind::Beacon, beacon);
    }
}

proof fn lemma_missing_is_filtered(
    beacons: Seq<(String, MasterBeaconRecord)>,
    known: Set<Seq<char>>,
)
    ensures
        missing(beacons, known) == beacons.filter(
            |beacon: (String, MasterBeaconRecord)| !known.contains(beacon.0@),
        ).map_values(
            |beacon: (String, MasterBeaconRecord)|
                (beacon.1.stable_identifier@, beacon.1.model@),
        ),
    decreases beacons.len(),
{
    reveal(Seq::filter);
    let unknown = |beacon: (String, MasterBeaconRecord)| !known.contains(beacon.0@);
    let named = |beacon: (String, MasterBeaconRecord)|
        (beacon.1.stable_identifier@, beacon.1.model@);
    if beacons.len() > 0 {
        let shorter = beacons.drop_last();
        lemma_missing_is_filtered(shorter, known);
        if unknown(beacons.last()) {
            assert(beacons.filter(unknown) =~= shorter.filter(unknown).push(beacons.last()));
            assert(beacons.filter(unknown).map_values(named) =~= shorter.filter(
                unknown,
            ).map_values(named).push(named(beacons.last())));
        } else {
            assert(beacons.filter(unknown) =~= shorter.filter(unknown));
        }
        assert(missing(beacons, known) =~= beacons.filter(unknown).map_values(named));
    } else {
        assert(beacons.filter(unknown).map_values(named) =~= missing(beacons, known));
    }
}

/// The tally of an assembly: those without a name, and those without an alignment, are listed by
/// their stable identifiers and models, in the order of the beacons and no others. The rest of the
/// beacons matched, and the rest of the other records did not.
pub proof fn law_tally(store: &BeaconStore, assembly: &Assembly)
    requires
        assembled(store, assembly),
    ensures
        assembly.accessories@.len() == store.beacon_table().listed().len(),
        assembly.missing_naming_records@.map_values(
            |pair: (String, String)| (pair.0@, pair.1@),
        ) == store.beacon_table().listed().filter(
            |beacon: (String, MasterBeaconRecord)|
                !store.naming_table().records().dom().contains(beacon.0@),
        ).map_values(
            |beacon: (String, MasterBeaconRecord)|
                (beacon.1.stable_identifier@, beacon.1.model@),
        ),
        assembly.missing_alignment_records@.map_values(
            |pair: (String, String)| (pair.0@, pair.1@),
        ) == store.beacon_table().listed().filter(
            |beacon: (String, MasterBeaconRecord)|
                !store.alignment_table().records().dom().contains(beacon.0@),
        ).map_values(
            |beacon: (String, MasterBeaconRecord)|
                (beacon.1.stable_identifier@, beacon.1.model@),
        ),
        assembly.matched_naming_records == assembly.accessories@.len()
            - assembly.missing_naming_records@.len(),
        assembly.matched_alignment_records == assembly.accessories@.len()
            - assembly.missing_alignment_records@.len(),
        assembly.unmatched_naming_records == store.naming_table().listed().len()
            - assembly.matched_naming_records,
        assembly.unmatched_alignment_records == store.alignment_table().listed().len()
            - assembly.matched_alignment_records,
{
    let beacons = store.beacon_table().listed();
    let names = store.naming_table().records().dom();
    let alignments = store.alignment_table().records().dom();
    lemma_missing_is_filtered(beacons, names);
    lemma_missing_is_filtered(beacons, alignments);
    let unnamed = |beacon: (String, MasterBeaconRecord)|
        !store.naming_table().records().dom().contains(beacon.0@);
    let unaligned = |beacon: (String, MasterBeaconRecord)|
        !store.alignment_table().records().dom().contains(beacon.0@);
    assert(unnamed =~= |beacon: (String, MasterBeaconRecord)| !names.contains(beacon.0@));
    assert(unaligned =~= |beacon: (String, MasterBeaconRecord)| !alignments.contains(beacon.0@));
}

/// A table holds under an identifier what stands with it in the row, and nothing under any other.
/// It is sound exactly where no identifier stands in the row twice.
pub proof fn law_table<V>(table: &RecordTable<V>, identifier: Seq<char>)
    ensures
        table.wf() <==> forall|i: int, j: int|
            0 <= i < j < table.listed().len() ==> (#[trigger] table.listed()[i]).0@ != (
            #[trigger] table.listed()[j]).0@,
        table.wf() ==> forall|i: int|
            0 <= i < table.listed().len() ==> table.records().contains_pair(
                (#[trigger] table.listed()[i]).0@,
                table.listed()[i].1,
            ),
        table.records().dom().contains(identifier) <==> exists|i: int|
            0 <= i < table.listed().len() && (#[trigger] table.listed()[i]).0@ == identifier,
{
    let row = table.listed();
    lemma_position(row, identifier);
    if table.wf() {
        assert forall|i: int| 0 <= i < row.len() implies table.records().contains_pair(
            (#[trigger] row[i]).0@,
            row[i].1,
        ) by {
            lemma_found(row, i);
        }
    }
}

/// A store can be assembled exactly where each beacon has a name, or a stable identifier whose first
/// eight bytes, or all where there are fewer, end between two characters.
pub proof fn law_nameable(store: &BeaconStore)
    ensures
        store.wf() <==> store.beacon_table().wf() && store.naming_table().wf()
            && store.alignment_table().wf(),
        store.nameable() <==> forall|i: int|
            #![trigger store.beacon_table().listed()[i]]
            0 <= i < store.beacon_table().listed().len() ==> {
                let bytes = encode_utf8(
                    store.beacon_table().listed()[i].1.stable_identifier@,
                );
                store.naming_table().records().dom().contains(
                    store.beacon_table().listed()[i].0@,
                ) || is_char_boundary(
                    bytes,
                    if bytes.len() < 8 {
                        bytes.len() as int
                    } else {
                        8
                    },
                )
            },
{
    let beacons = store.beacon_table().listed();
    assert forall|i: int| 0 <= i < beacons.len() implies (has_short_form(
        (#[trigger] beacons[i]).1.stable_identifier@,
    ) <==> is_char_boundary(
        encode_utf8(beacons[i].1.stable_identifier@),
        if encode_utf8(beacons[i].1.stable_identifier@).len() < 8 {
            encode_utf8(beacons[i].1.stable_identifier@).len() as int
        } else {
            8
        },
    )) by {
        law_short_form(beacons[i].1.stable_identifier@);
    }
}

} // verus!
