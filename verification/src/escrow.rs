//! Escrow bottles and their passwords: describing and choosing the ones, setting up the others.
use vstd::prelude::*;

use crate::identity;
use crate::plist_tree;
use crate::profile;
use crate::profile::{LoadedDeviceProfile, ProfileError, ProfileFault};
use crate::text;

verus! {

/// What is known of the device that an escrow bottle belongs to.
#[derive(Debug)]
pub struct EscrowMetadata {
    pub serial: String,
    pub build: String,
    pub timestamp: String,
    pub client_metadata: plist::Value,
}

/// The text under `key`, where the property list is a dictionary and has a text there.
pub open spec fn metadata_text(
    metadata: plist_tree::PlistContents,
    key: Seq<char>,
) -> Option<Seq<char>> {
    match metadata {
        plist_tree::PlistContents::Entries(entries) => if entries.dom().contains(key)
            && entries[key] is Text {
            Some(entries[key]->Text_0)
        } else {
            None
        },
        _ => None,
    }
}

/// The text under `key`, where the metadata is a dictionary and has a text there.
pub fn escrow_client_metadata_string<'a>(metadata: &'a plist::Value, key: &str) -> (found: Option<
    &'a str,
>)
    ensures
        text::str_view(found) == metadata_text(plist_tree::value_contents(*metadata), key@),
{
    match plist_tree::as_dictionary(metadata) {
        Some(dictionary) => match plist_tree::entry(dictionary, key) {
            Some(value) => plist_tree::as_text(value),
            None => None,
        },
        None => None,
    }
}

/// A device in words: its name, and its model class and its model in brackets, or as much of that
/// as is known.
pub open spec fn description(
    name: Option<Seq<char>>,
    model_class: Option<Seq<char>>,
    model: Option<Seq<char>>,
) -> Seq<char> {
    let details = match (model_class, model) {
        (Some(c), Some(m)) => Some(c + ", "@ + m),
        (Some(c), None) => Some(c),
        (None, Some(m)) => Some(m),
        (None, None) => None,
    };
    match (name, details) {
        (Some(n), Some(d)) => n + " ("@ + d + ")"@,
        (Some(n), None) => n,
        (None, Some(d)) => d,
        (None, None) => "unknown device"@,
    }
}

/// The device that an escrow bottle belongs to, in words.
pub fn escrow_device_description(metadata: &EscrowMetadata) -> (words: String)
    ensures
        words@ == ({
            let client = plist_tree::value_contents(metadata.client_metadata);
            description(
                metadata_text(client, "device_name"@),
                metadata_text(client, "device_model_class"@),
                metadata_text(client, "device_model"@),
            )
        }),
{
    let name = escrow_client_metadata_string(&metadata.client_metadata, "device_name");
    let model_class = escrow_client_metadata_string(
        &metadata.client_metadata,
        "device_model_class",
    );
    let model = escrow_client_metadata_string(&metadata.client_metadata, "device_model");
    describe_device(name, model_class, model)
}

/// A device in words.
pub fn describe_device(name: Option<&str>, model_class: Option<&str>, model: Option<&str>) -> (words:
    String)
    ensures
        words@ == description(text::str_view(name), text::str_view(model_class), text::str_view(model)),
{
    let details = match (model_class, model) {
        (Some(c), Some(m)) => Some(c.to_owned().concat(", ").concat(m)),
        (Some(c), None) => Some(c.to_owned()),
        (None, Some(m)) => Some(m.to_owned()),
        (None, None) => None,
    };
    match (name, details) {
        (Some(n), Some(d)) => n.to_owned().concat(" (").concat(d.as_str()).concat(")"),
        (Some(n), None) => n.to_owned(),
        (None, Some(d)) => d,
        (None, None) => "unknown device".to_owned(),
    }
}

/// What can be wrong with the choice of an item from a list.
#[derive(Debug, PartialEq, Eq)]
pub enum ChoiceFault<T> {
    /// The answer is no number.
    NotANumber(T),
    /// The number is not below the number of items.
    OutOfRange { index: usize, count: usize },
}

/// The words for a wrong choice; `what` names the items.
pub open spec fn choice_message(fault: ChoiceFault<Seq<char>>, what: Seq<char>) -> Seq<char> {
    match fault {
        ChoiceFault::NotANumber(answer) => "Invalid "@ + what + " index: "@ + answer,
        ChoiceFault::OutOfRange { index, count } => "Invalid "@ + what + " index "@ + text::decimal(
            index as nat,
        ) + ". Must be 0-"@ + text::decimal((count - 1) as nat) + "."@,
    }
}

/// A wrong choice with its text as a sequence of characters.
pub open spec fn choice_view(fault: ChoiceFault<String>) -> ChoiceFault<Seq<char>> {
    match fault {
        ChoiceFault::NotANumber(answer) => ChoiceFault::NotANumber(answer@),
        ChoiceFault::OutOfRange { index, count } => ChoiceFault::OutOfRange { index, count },
    }
}

impl ChoiceFault<String> {
    /// The words for this wrong choice; `what` names the items.
    pub fn message(&self, what: &str) -> (message: String)
        requires
            self matches ChoiceFault::OutOfRange { index, count } ==> count > 0,
        ensures
            message@ == choice_message(choice_view(*self), what@),
    {
        match self {
            ChoiceFault::NotANumber(answer) => "Invalid ".to_owned().concat(what).concat(
                " index: ",
            ).concat(answer.as_str()),
            ChoiceFault::OutOfRange { index, count } => "Invalid ".to_owned().concat(what).concat(
                " index ",
            ).concat(text::decimal_text(*index).as_str()).concat(". Must be 0-").concat(
                text::decimal_text(*count - 1).as_str(),
            ).concat("."),
        }
    }
}

/// The index that an answer asks for: the number it writes out, or the first where it writes none
/// out.
pub open spec fn asked_index(answer: Seq<char>) -> usize {
    match text::parsed_index(text::trimmed(answer)) {
        Some(index) => index,
        None => 0,
    }
}

/// The item of `count` that an answer asks for: the first where the answer is no number.
pub fn choose_or_first(answer: &str, count: usize) -> (choice: Result<usize, ChoiceFault<String>>)
    ensures
        match choice {
            Ok(index) => index == asked_index(answer@) && index < count,
            Err(fault) => asked_index(answer@) >= count && fault == (ChoiceFault::<
                String,
            >::OutOfRange { index: asked_index(answer@), count }),
        },
{
    let trimmed = text::trim_text(answer);
    let index: usize = match text::parse_index(trimmed.as_str()) {
        Some(index) => index,
        None => 0,
    };
    if index < count {
        Ok(index)
    } else {
        Err(ChoiceFault::OutOfRange { index, count })
    }
}

/// How to come by the bottle to join a trust circle with.
#[derive(Clone, Copy, Debug, PartialEq, Eq)]
pub enum BottlePlan {
    /// There is none: give up.
    GiveUp,
    /// Take the only one.
    TakeFirst,
    /// Ask which one.
    Ask,
}

/// How to come by a bottle, out of this many.
pub fn bottle_plan(count: usize) -> (plan: BottlePlan)
    ensures
        plan == if count == 0 {
            BottlePlan::GiveUp
        } else if count == 1 {
            BottlePlan::TakeFirst
        } else {
            BottlePlan::Ask
        },
{
    if count == 0 {
        BottlePlan::GiveUp
    } else if count == 1 {
        BottlePlan::TakeFirst
    } else {
        BottlePlan::Ask
    }
}

/// Whether `s` is sixteen ASCII letters and digits.
pub open spec fn is_generated_password(s: Seq<char>) -> bool {
    &&& s.len() == 16
    &&& forall|i: int| 0 <= i < s.len() ==> identity::is_ascii_alphanumeric(#[trigger] s[i])
}

/// A random escrow password of sixteen letters and digits.
pub fn generate_escrow_password() -> (password: String)
    ensures
        is_generated_password(password@),
{
    identity::random_alphanumeric(16)
}

/// Whether an answer says yes: `y` or `yes`, in either case, with white space around it or not.
pub open spec fn says_yes(answer: Seq<char>) -> bool {
    let word = text::ascii_lowered(text::trimmed(answer));
    word == "y"@ || word == "yes"@
}

/// Whether the answer to the question about an empty escrow password allows it.
pub fn confirm_empty_escrow_password(answer: &str) -> (yes: bool)
    ensures
        yes == says_yes(answer@),
{
    let trimmed = text::trim_text(answer);
    let word = text::lower_text(trimmed.as_str());
    text::same_text(word.as_str(), "y") || text::same_text(word.as_str(), "yes")
}

/// What the setting up of an escrow password waits for.
#[derive(Clone, Copy, Debug, PartialEq, Eq)]
pub enum SetupStage {
    /// How the password comes about.
    Choosing,
    /// A password, and the same again.
    Entering,
    /// Whether an empty password is meant.
    Consenting,
}

/// What was entered while an escrow password is set up.
#[derive(Debug, PartialEq, Eq)]
pub enum SetupEvent<T> {
    Line(T),
    Entry { password: T, confirmation: T },
}

/// What to do next while an escrow password is set up.
#[derive(Debug, PartialEq, Eq)]
pub enum SetupAction<T> {
    /// Generate a random password, and save it.
    Generate,
    /// Ask for a password, twice.
    AskEntry,
    /// Say that the two did not match, and ask again.
    AskEntryAgain,
    /// Ask whether an empty password is meant.
    AskConsent,
    /// Save this password.
    Save(T),
    /// Give up.
    Fail(ProfileFault<T>),
}

/// An event with its texts as sequences of characters.
pub open spec fn setup_event_view(event: SetupEvent<String>) -> SetupEvent<Seq<char>> {
    match event {
        SetupEvent::Line(line) => SetupEvent::Line(line@),
        SetupEvent::Entry { password, confirmation } => SetupEvent::Entry {
            password: password@,
            confirmation: confirmation@,
        },
    }
}

/// An action with its texts as sequences of characters.
pub open spec fn setup_action_view(action: SetupAction<String>) -> SetupAction<Seq<char>> {
    match action {
        SetupAction::Generate => SetupAction::Generate,
        SetupAction::AskEntry => SetupAction::AskEntry,
        SetupAction::AskEntryAgain => SetupAction::AskEntryAgain,
        SetupAction::AskConsent => SetupAction::AskConsent,
        SetupAction::Save(password) => SetupAction::Save(password@),
        SetupAction::Fail(fault) => SetupAction::Fail(profile::fault_view(fault)),
    }
}

/// Whether this is the kind of event that a stage waits for.
pub open spec fn setup_expects<T>(stage: SetupStage, event: SetupEvent<T>) -> bool {
    event is Entry <==> stage is Entering
}

/// What becomes of a stage on an event: the next stage, none where the setup ends, and the action.
pub open spec fn setup_next(stage: SetupStage, event: SetupEvent<Seq<char>>) -> (
    Option<SetupStage>,
    SetupAction<Seq<char>>,
) {
    match (stage, event) {
        (SetupStage::Choosing, SetupEvent::Line(line)) => {
            let choice = text::trimmed(line);
            if choice == ""@ || choice == "1"@ {
                (None, SetupAction::Generate)
            } else if choice == "2"@ {
                (Some(SetupStage::Entering), SetupAction::AskEntry)
            } else {
                (None, SetupAction::Fail(ProfileFault::BadChoice(choice)))
            }
        },
        (SetupStage::Entering, SetupEvent::Entry { password, confirmation }) => {
            if password != confirmation {
                (Some(SetupStage::Entering), SetupAction::AskEntryAgain)
            } else if password.len() == 0 {
                (Some(SetupStage::Consenting), SetupAction::AskConsent)
            } else {
                (None, SetupAction::Save(password))
            }
        },
        (SetupStage::Consenting, SetupEvent::Line(line)) => {
            if says_yes(line) {
                (None, SetupAction::Save(Seq::empty()))
            } else {
                (Some(SetupStage::Entering), SetupAction::AskEntry)
            }
        },
        _ => (Some(stage), SetupAction::AskEntry),
    }
}

/// One step in the setting up of an escrow password.
pub fn setup_step(stage: SetupStage, event: SetupEvent<String>) -> (next: (
    Option<SetupStage>,
    SetupAction<String>,
))
    requires
        setup_expects(stage, event),
    ensures
        (next.0, setup_action_view(next.1)) == setup_next(stage, setup_event_view(event)),
{
    match (stage, event) {
        (SetupStage::Choosing, SetupEvent::Line(line)) => {
            let choice = text::trim_text(line.as_str());
            if text::same_text(choice.as_str(), "") || text::same_text(choice.as_str(), "1") {
                (None, SetupAction::Generate)
            } else if text::same_text(choice.as_str(), "2") {
                (Some(SetupStage::Entering), SetupAction::AskEntry)
            } else {
                (None, SetupAction::Fail(ProfileFault::BadChoice(choice)))
            }
        },
        (SetupStage::Entering, SetupEvent::Entry { password, confirmation }) => {
            if !text::same_text(password.as_str(), confirmation.as_str()) {
                (Some(SetupStage::Entering), SetupAction::AskEntryAgain)
            } else if password.as_str().is_empty() {
                (Some(SetupStage::Consenting), SetupAction::AskConsent)
            } else {
                (None, SetupAction::Save(password))
            }
        },
        (SetupStage::Consenting, SetupEvent::Line(line)) => {
            if confirm_empty_escrow_password(line.as_str()) {
                (None, SetupAction::Save(String::new()))
            } else {
                (Some(SetupStage::Entering), SetupAction::AskEntry)
            }
        },
        (_, _) => (Some(stage), SetupAction::AskEntry),
    }
}

/// The stage after some events, none where the setup has ended by then.
pub open spec fn setup_stage_after(events: Seq<SetupEvent<Seq<char>>>) -> Option<SetupStage>
    decreases events.len(),
{
    if events.len() == 0 {
        Some(SetupStage::Choosing)
    } else {
        match setup_stage_after(events.drop_last()) {
            Some(stage) => setup_next(stage, events.last()).0,
            None => None,
        }
    }
}

/// Whether some events, each of the kind that was waited for, end the setup by saving `password`.
pub open spec fn setup_saves(events: Seq<SetupEvent<Seq<char>>>, password: Seq<char>) -> bool {
    &&& events.len() > 0
    &&& setup_stage_after(events.drop_last()) matches Some(stage) && setup_expects(
        stage,
        events.last(),
    ) && setup_next(stage, events.last()).1 == SetupAction::Save(password)
}

/// A password that is saved because it was entered was entered twice alike. If it is empty, the
/// last answer allowed that.
pub proof fn law_saved_password_was_confirmed(
    events: Seq<SetupEvent<Seq<char>>>,
    password: Seq<char>,
)
    requires
        setup_saves(events, password),
        forall|i: int|
            0 <= i < events.len() ==> (setup_stage_after(#[trigger] events.take(i)) matches Some(
                stage,
            ) ==> setup_expects(stage, events[i])),
    ensures
        if password.len() > 0 {
            events.last() == (SetupEvent::Entry { password, confirmation: password })
        } else {
            &&& events.len() > 1
            &&& events[events.len() - 2] == (SetupEvent::Entry { password, confirmation: password })
            &&& events.last() matches SetupEvent::Line(line) && says_yes(line)
        },
{
    let n = events.len() as int;
    let before = events.drop_last();
    assert(events.take(n - 1) =~= before);
    if setup_stage_after(before) == Some(SetupStage::Consenting) {
        let earlier = before.drop_last();
        assert(events.take(n - 2) =~= earlier);
        assert(before.last() == events[n - 2]);
        assert(password =~= Seq::<char>::empty());
        match setup_stage_after(earlier)->Some_0 {
            SetupStage::Entering => {
                match events[n - 2] {
                    SetupEvent::Entry { password: p, confirmation: c } => {
                        assert(p =~= password);
                    },
                    SetupEvent::Line(_) => {},
                }
            },
            _ => {},
        }
    }
}

/// The escrow password that is in force without asking: one given from outside, or else the one of
/// the profile.
pub open spec fn known_password(
    given: Option<Seq<char>>,
    configured: Option<Seq<char>>,
) -> Option<Seq<char>> {
    match given {
        Some(password) => Some(password),
        None => configured,
    }
}

/// The escrow password that is in force without asking. `given` is the one from the environment.
/// Where none comes back, one has to be set up before a trust circle can be joined.
pub fn load_existing_escrow_password(given: Option<String>, profile: &LoadedDeviceProfile) -> (password:
    Option<String>)
    ensures
        text::text_view(password) == known_password(
            text::text_view(given),
            text::text_view(profile.escrow_password),
        ),
{
    match given {
        Some(password) => Some(password),
        None => profile.escrow_password.clone(),
    }
}

/// The escrow password to join a trust circle with: the one that is in force, or none, where one
/// has to be set up first. Without anybody to ask, that is a fault.
pub fn load_or_configure_escrow_password(
    given: Option<String>,
    profile: &LoadedDeviceProfile,
    interactive: bool,
) -> (password: Result<Option<String>, ProfileError>)
    ensures
        match known_password(text::text_view(given), text::text_view(profile.escrow_password)) {
            Some(known) => password matches Ok(Some(p)) && p@ == known,
            None => password == if interactive {
                Ok::<Option<String>, ProfileError>(None)
            } else {
                Err(ProfileFault::SetupUnavailable)
            },
        },
{
    match load_existing_escrow_password(given, profile) {
        Some(password) => Ok(Some(password)),
        None => if interactive {
            Ok(None)
        } else {
            Err(ProfileFault::SetupUnavailable)
        },
    }
}

/// A password given from outside is the one in force, whatever the profile holds, none included.
/// Without one, that of the profile is, and there is none exactly where the profile has none.
pub proof fn law_given_password_comes_first(
    given: Seq<char>,
    configured: Option<Seq<char>>,
    saved: Seq<char>,
)
    ensures
        known_password(Some(given), configured) == Some(given),
        known_password(None, Some(saved)) == Some(saved),
        known_password(None, None) is None,
{
}

/// Two runs with the same password given from outside have the same one in force, whatever their
/// profiles hold, and two profiles with the same password give the same one where none is given.
pub proof fn law_password_in_force_has_one_source(
    given: Option<Seq<char>>,
    first: Option<Seq<char>>,
    second: Option<Seq<char>>,
)
    ensures
        given is Some ==> known_password(given, first) == given && known_password(given, first)
            == known_password(given, second),
        given is None ==> (known_password(given, first) == known_password(given, second) <==> first
            == second),
{
}

/// The text under a key of a property list is the one that its dictionary has there; there is none
/// where it is no dictionary, or has nothing or something else there.
pub proof fn law_metadata_text(
    entries: Map<Seq<char>, plist_tree::PlistContents>,
    other: plist_tree::PlistContents,
    key: Seq<char>,
)
    ensures
        metadata_text(plist_tree::PlistContents::Entries(entries), key) matches Some(found)
            ==> entries.contains_pair(key, plist_tree::PlistContents::Text(found)),
        metadata_text(plist_tree::PlistContents::Entries(entries), key) is None ==> !(
        entries.dom().contains(key) && entries[key] is Text),
        !(other is Entries) ==> metadata_text(other, key) is None,
{
}

/// What a device is called: with the name first and the details in brackets behind it, the class
/// before the model; with the details alone where there is no name; and as unknown where nothing is.
pub proof fn law_description(name: Seq<char>, model_class: Seq<char>, model: Seq<char>)
    ensures
        description(None, None, None) == "unknown device"@,
        description(Some(name), None, None) == name,
        description(None, Some(model_class), None) == model_class,
        description(None, None, Some(model)) == model,
        description(None, Some(model_class), Some(model)) == model_class + ", "@ + model,
        description(Some(name), Some(model_class), None) == name + " ("@ + model_class + ")"@,
        description(Some(name), None, Some(model)) == name + " ("@ + model + ")"@,
        description(Some(name), Some(model_class), Some(model)) == name + " ("@ + (model_class + ", "@
            + model) + ")"@,
{
}

/// The words for a wrong choice repeat the answer, or the index and the greatest index there is.
pub proof fn law_choice_message(answer: Seq<char>, index: usize, count: usize, what: Seq<char>)
    requires
        count > 0,
    ensures
        choice_message(ChoiceFault::NotANumber(answer), what) == "Invalid "@ + what + " index: "@
            + answer,
        choice_message(ChoiceFault::OutOfRange { index, count }, what) == "Invalid "@ + what
            + " index "@ + text::decimal(index as nat) + ". Must be 0-"@ + text::decimal(
            (count - 1) as nat,
        ) + "."@,
{
}

/// A wrong choice is seen as it is.
pub proof fn law_choice_is_seen_whole(answer: String, index: usize, count: usize)
    ensures
        choice_view(ChoiceFault::NotANumber(answer)) == ChoiceFault::NotANumber(answer@),
        choice_view(ChoiceFault::<String>::OutOfRange { index, count }) == (ChoiceFault::<
            Seq<char>,
        >::OutOfRange { index, count }),
{
}

/// An answer that is a number, with white space around it or not, asks for the item of that number.
pub proof fn law_answered_number(before: Seq<char>, number: usize, after: Seq<char>)
    requires
        forall|k: int| 0 <= k < before.len() ==> text::is_white_space(before[k]),
        forall|k: int| 0 <= k < after.len() ==> text::is_white_space(after[k]),
    ensures
        asked_index(before + text::decimal(number as nat) + after) == number,
{
    text::law_decimal_digits(number as nat);
    text::law_decimal_reads_back(number as nat);
    text::law_trimming_finds_the_core(before, text::decimal(number as nat), after);
}

/// An answer that is no number asks for the first item.
pub proof fn law_unanswered_number(answer: Seq<char>)
    requires
        text::parsed_index(text::trimmed(answer)) is None,
    ensures
        asked_index(answer) == 0,
{
}

/// A generated password has sixteen characters, each from a to z, from A to Z or from 0 to 9.
pub proof fn law_generated_password(s: Seq<char>)
    ensures
        is_generated_password(s) <==> s.len() == 16 && forall|i: int|
            0 <= i < s.len() ==> (97 <= #[trigger] s[i] as int <= 122 || 65 <= s[i] as int <= 90 || 48
                <= s[i] as int <= 57),
{
    if is_generated_password(s) {
        assert forall|i: int| 0 <= i < s.len() implies (97 <= #[trigger] s[i] as int <= 122 || 65
            <= s[i] as int <= 90 || 48 <= s[i] as int <= 57) by {
            assert(identity::is_ascii_alphanumeric(s[i]));
        }
    }
}

/// An answer says yes exactly where, without the white space around it, it is a y, or a y, an e and
/// an s, each in either case.
pub proof fn law_says_yes(answer: Seq<char>)
    ensures
        says_yes(answer) <==> ({
            let word = text::trimmed(answer);
            ||| word.len() == 1 && (word[0] == 'y' || word[0] == 'Y')
            ||| word.len() == 3 && (word[0] == 'y' || word[0] == 'Y') && (word[1] == 'e' || word[1]
                == 'E') && (word[2] == 's' || word[2] == 'S')
        }),
{
    reveal_strlit("y");
    reveal_strlit("yes");
    let word = text::trimmed(answer);
    let lowered = text::ascii_lowered(word);
    assert(lowered.len() == word.len());
    if word.len() == 1 {
        text::law_case_of_ascii_letters(word, 0);
        if word[0] == 'y' || word[0] == 'Y' {
            assert(lowered =~= "y"@);
        } else {
            assert(lowered[0] != "y"@[0]);
        }
    } else if word.len() == 3 {
        text::law_case_of_ascii_letters(word, 0);
        text::law_case_of_ascii_letters(word, 1);
        text::law_case_of_ascii_letters(word, 2);
        if (word[0] == 'y' || word[0] == 'Y') && (word[1] == 'e' || word[1] == 'E') && (word[2]
            == 's' || word[2] == 'S') {
            assert(lowered =~= "yes"@);
        } else {
            assert(lowered[0] != "yes"@[0] || lowered[1] != "yes"@[1] || lowered[2] != "yes"@[2]);
        }
    }
}

/// What was entered, and what is to be done, are seen as they are.
pub proof fn law_setup_is_seen_whole(line: String, password: String, confirmation: String)
    ensures
        setup_event_view(SetupEvent::Line(line)) == SetupEvent::Line(line@),
        setup_event_view(SetupEvent::Entry { password, confirmation }) == (SetupEvent::Entry {
            password: password@,
            confirmation: confirmation@,
        }),
        setup_action_view(SetupAction::Generate) is Generate,
        setup_action_view(SetupAction::AskEntry) is AskEntry,
        setup_action_view(SetupAction::AskEntryAgain) is AskEntryAgain,
        setup_action_view(SetupAction::AskConsent) is AskConsent,
        setup_action_view(SetupAction::Save(password)) == SetupAction::Save(password@),
        setup_action_view(SetupAction::Fail(ProfileFault::BadChoice(line))) == SetupAction::Fail(
            ProfileFault::BadChoice(line@),
        ),
{
}

/// A line is waited for at the choice and at the consent, and a password entered twice in between.
pub proof fn law_setup_waits_for<T>(stage: SetupStage, line: T, password: T, confirmation: T)
    ensures
        setup_expects(stage, SetupEvent::Line(line)) <==> stage is Choosing || stage is Consenting,
        setup_expects(stage, SetupEvent::Entry { password, confirmation }) <==> stage is Entering,
{
}

/// The choice how the password comes about: an empty line or a one has it generated, a two has it
/// entered, and any other answer ends the setup with a complaint that repeats it.
pub proof fn law_setup_choice(line: Seq<char>)
    ensures
        ({
            let choice = text::trimmed(line);
            let (stage, action) = setup_next(SetupStage::Choosing, SetupEvent::Line(line));
            &&& choice.len() == 0 || choice == seq!['1'] ==> stage is None && action is Generate
            &&& choice == seq!['2'] ==> stage == Some(SetupStage::Entering) && action is AskEntry
            &&& choice.len() > 0 && choice != seq!['1'] && choice != seq!['2'] ==> stage is None
                && action == SetupAction::Fail(ProfileFault::BadChoice(choice))
        }),
{
    reveal_strlit("");
    reveal_strlit("1");
    reveal_strlit("2");
    assert("1"@ =~= seq!['1']);
    assert("2"@ =~= seq!['2']);
    assert("1"@[0] != "2"@[0]);
    if text::trimmed(line).len() == 0 {
        assert(text::trimmed(line) =~= ""@);
    }
}

/// A password that was entered is saved as it was entered, and only where both entries are the
/// same. An empty one is saved only with consent, and otherwise asked for anew.
pub proof fn law_setup_entry(password: Seq<char>, confirmation: Seq<char>, line: Seq<char>)
    ensures
        ({
            let (stage, action) = setup_next(
                SetupStage::Entering,
                SetupEvent::Entry { password, confirmation },
            );
            &&& password != confirmation ==> stage == Some(SetupStage::Entering)
                && action is AskEntryAgain
            &&& password == confirmation && password.len() > 0 ==> stage is None && action
                == SetupAction::Save(password)
            &&& password == confirmation && password.len() == 0 ==> stage == Some(
                SetupStage::Consenting,
            ) && action is AskConsent
        }),
        ({
            let (stage, action) = setup_next(SetupStage::Consenting, SetupEvent::Line(line));
            &&& says_yes(line) ==> stage is None && action == SetupAction::Save(
                Seq::<char>::empty(),
            )
            &&& !says_yes(line) ==> stage == Some(SetupStage::Entering) && action is AskEntry
        }),
{
}

} // verus!
