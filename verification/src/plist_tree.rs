//! Property lists: building dictionaries, and reading texts out of them.
use plist::{Dictionary, Value};
use vstd::prelude::*;

use crate::timestamp::Timestamp;

verus! {

/// A property list, as `plist` holds it.
#[verifier::external_type_specification]
#[verifier::external_body]
pub struct ExPlistValue(plist::Value);

/// A dictionary of property lists, as `plist` holds it.
#[verifier::external_type_specification]
#[verifier::external_body]
pub struct ExPlistDictionary(plist::Dictionary);

/// What a property list holds.
pub enum PlistContents {
    Data(Seq<u8>),
    Text(Seq<char>),
    /// An instant: whole seconds since the Unix epoch, and nanoseconds on top of them.
    Date { secs: int, nanos: int },
    Entries(Map<Seq<char>, PlistContents>),
    /// A number, a boolean, an array or a reference.
    Other,
}

/// What a property list holds.
pub uninterp spec fn value_contents(value: Value) -> PlistContents;

/// What a dictionary holds, by key.
pub uninterp spec fn dictionary_entries(dictionary: Dictionary) -> Map<Seq<char>, PlistContents>;

/// `Dictionary::new` makes an empty dictionary.
#[verifier::external_body]
pub(crate) fn new_dictionary() -> (dictionary: Dictionary)
    ensures
        dictionary_entries(dictionary) == (Map::<Seq<char>, PlistContents>::empty()),
{
    Dictionary::new()
}

/// `Dictionary::insert` puts a value under a key, in place of any value that was there, and leaves
/// the other entries alone. The value that was there is dropped.
#[verifier::external_body]
pub(crate) fn insert_entry(dictionary: &mut Dictionary, key: &str, value: Value)
    ensures
        dictionary_entries(*final(dictionary)) == dictionary_entries(*old(dictionary)).insert(
            key@,
            value_contents(value),
        ),
{
    dictionary.insert(key.to_string(), value);
}

/// `Value::Data` is a property list of bytes.
#[verifier::external_body]
pub(crate) fn data_value(bytes: Vec<u8>) -> (value: Value)
    ensures
        value_contents(value) == PlistContents::Data(bytes@),
{
    Value::Data(bytes)
}

/// `Value::String` is a property list of text.
#[verifier::external_body]
pub(crate) fn text_value(text: String) -> (value: Value)
    ensures
        value_contents(value) == PlistContents::Text(text@),
{
    Value::String(text)
}

/// `Value::Date` is a property list of an instant. The instant is made by `plist::Date::from`, out
/// of the system time that `chrono` gives for the seconds and nanoseconds. System times have steps
/// of a nanosecond and reach that far on Unix; elsewhere, instants that come from a system time do.
#[verifier::external_body]
pub(crate) fn date_value(time: Timestamp) -> (value: Value)
    requires
        time.wf(),
    ensures
        value_contents(value) == (PlistContents::Date {
            secs: time.secs as int,
            nanos: time.nanos as int,
        }),
{
    let utc = chrono::DateTime::from_timestamp(time.secs, time.nanos).unwrap();
    Value::Date(std::time::SystemTime::from(utc).into())
}

/// `Value::Dictionary` is a property list of the entries of a dictionary.
#[verifier::external_body]
pub(crate) fn dictionary_value(dictionary: Dictionary) -> (value: Value)
    ensures
        value_contents(value) == PlistContents::Entries(dictionary_entries(dictionary)),
{
    Value::Dictionary(dictionary)
}

/// `Value::as_dictionary` gives the dictionary inside a property list that is one.
#[verifier::external_body]
pub(crate) fn as_dictionary(value: &Value) -> (dictionary: Option<&Dictionary>)
    ensures
        match dictionary {
            Some(d) => value_contents(*value) == PlistContents::Entries(dictionary_entries(*d)),
            None => !(value_contents(*value) is Entries),
        },
{
    value.as_dictionary()
}

/// `Dictionary::get` gives the value under a key.
#[verifier::external_body]
pub(crate) fn entry<'a>(dictionary: &'a Dictionary, key: &str) -> (value: Option<&'a Value>)
    ensures
        match value {
            Some(v) => dictionary_entries(*dictionary).dom().contains(key@)
                && dictionary_entries(*dictionary)[key@] == value_contents(*v),
            None => !dictionary_entries(*dictionary).dom().contains(key@),
        },
{
    dictionary.get(key)
}

/// `Value::as_string` gives the text inside a property list that is one.
#[verifier::external_body]
pub(crate) fn as_text(value: &Value) -> (text: Option<&str>)
    ensures
        match text {
            Some(s) => value_contents(*value) == PlistContents::Text(s@),
            None => !(value_contents(*value) is Text),
        },
{
    value.as_string()
}

} // verus!
