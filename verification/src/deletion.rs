//! The dialogue that deletes an escrow bottle.
use vstd::prelude::*;

use crate::escrow;
use crate::escrow::ChoiceFault;
use crate::profile::LoadedDeviceProfile;
use crate::text;

verus! {

/// The terms of a deletion: the serial numbers of the devices that the bottles belong to, whether
/// a bottle has to be unlocked first, and the password that serves where none is entered.
#[derive(Debug)]
pub struct DeletionTerms {
    pub serials: Vec<String>,
    pub verify_password: bool,
    pub saved_password: Option<String>,
}

/// The terms of a deletion, with their texts as sequences of characters.
pub struct TermsView {
    pub serials: Seq<Seq<char>>,
    pub verify_password: bool,
    pub saved_password: Option<Seq<char>>,
}

impl View for DeletionTerms {
    type V = TermsView;

    open spec fn view(&self) -> TermsView {
        TermsView {
            serials: text::texts(self.serials@),
            verify_password: self.verify_password,
            saved_password: text::text_view(self.saved_password),
        }
    }
}

/// The terms of the deletion of one of the bottles of these devices. Where the password is skipped,
/// nothing is unlocked and no saved password is offered. Otherwise the saved one is the one given
/// from outside, or else that of the profile.
pub fn deletion_terms(
    serials: Vec<String>,
    skip_password: bool,
    given: Option<String>,
    profile: &LoadedDeviceProfile,
) -> (terms: DeletionTerms)
    ensures
        terms.serials == serials,
        terms.verify_password == !skip_password,
        text::text_view(terms.saved_password) == if skip_password {
            None
        } else {
            escrow::known_password(
                text::text_view(given),
                text::text_view(profile.escrow_password),
            )
        },
{
    let saved_password = if skip_password {
        None
    } else {
        escrow::load_existing_escrow_password(given, profile)
    };
    DeletionTerms { serials, verify_password: !skip_password, saved_password }
}

/// What a deletion waits for.
#[derive(Clone, Copy, Debug, PartialEq, Eq)]
pub enum DeletionStage {
    /// The index of a bottle.
    Selecting,
    /// The password of the bottle.
    Unlocking { index: usize },
    /// Whether the password unlocked the bottle.
    Recovering { index: usize },
    /// The words that confirm the deletion.
    Confirming { index: usize },
    /// The serial number of the device.
    Identifying { index: usize },
}

/// What happened during a deletion.
#[derive(Debug, PartialEq, Eq)]
pub enum DeletionEvent<T> {
    /// A line was entered.
    Line(T),
    /// A password was entered.
    Password(T),
    /// The bottle was unlocked.
    Recovered,
    /// The bottle was not unlocked, for this reason.
    Refused(T),
}

/// What to do next during a deletion.
#[derive(Debug, PartialEq, Eq)]
pub enum DeletionAction<T> {
    /// Ask for the password of this bottle.
    AskPassword { index: usize },
    /// Try to unlock this bottle with this password.
    Recover { index: usize, password: T },
    /// Ask for the confirmation.
    AskConfirmation { index: usize },
    /// Ask for the serial number of the device.
    AskSerial { index: usize },
    /// Delete this bottle.
    Delete { index: usize },
    /// Leave everything as it is.
    Cancel,
    /// Give up: the bottle was not chosen well.
    BadChoice(ChoiceFault<T>),
    /// Give up: the bottle could not be unlocked, for this reason.
    Locked(T),
}

/// An event with its texts as sequences of characters.
pub open spec fn event_view(event: DeletionEvent<String>) -> DeletionEvent<Seq<char>> {
    match event {
        DeletionEvent::Line(line) => DeletionEvent::Line(line@),
        DeletionEvent::Password(password) => DeletionEvent::Password(password@),
        DeletionEvent::Recovered => DeletionEvent::Recovered,
        DeletionEvent::Refused(reason) => DeletionEvent::Refused(reason@),
    }
}

/// An action with its texts as sequences of characters.
pub open spec fn action_view(action: DeletionAction<String>) -> DeletionAction<Seq<char>> {
    match action {
        DeletionAction::AskPassword { index } => DeletionAction::AskPassword { index },
        DeletionAction::Recover { index, password } => DeletionAction::Recover {
            index,
            password: password@,
        },
        DeletionAction::AskConfirmation { index } => DeletionAction::AskConfirmation { index },
        DeletionAction::AskSerial { index } => DeletionAction::AskSerial { index },
        DeletionAction::Delete { index } => DeletionAction::Delete { index },
        DeletionAction::Cancel => DeletionAction::Cancel,
        DeletionAction::BadChoice(fault) => DeletionAction::BadChoice(
            escrow::choice_view(fault),
        ),
        DeletionAction::Locked(reason) => DeletionAction::Locked(reason@),
    }
}

/// The words that confirm the deletion of a bottle.
pub open spec fn confirmation(index: usize) -> Seq<char> {
    "DELETE "@ + text::decimal(index as nat)
}

/// The password to unlock a bottle with: the saved one where there is one and none was entered.
pub open spec fn bottle_password(
    saved: Option<Seq<char>>,
    entered: Seq<char>,
) -> Seq<char> {
    match saved {
        Some(password) => if entered.len() == 0 {
            password
        } else {
            entered
        },
        None => entered,
    }
}

/// Whether this is the kind of event that a stage waits for.
pub open spec fn expects<T>(stage: DeletionStage, event: DeletionEvent<T>) -> bool {
    match stage {
        DeletionStage::Unlocking { .. } => event is Password,
        DeletionStage::Recovering { .. } => event is Recovered || event is Refused,
        _ => event is Line,
    }
}

/// The bottle that a stage is about is one of those on the list.
pub open spec fn in_range(stage: DeletionStage, count: nat) -> bool {
    match stage {
        DeletionStage::Selecting => true,
        DeletionStage::Unlocking { index } => index < count,
        DeletionStage::Recovering { index } => index < count,
        DeletionStage::Confirming { index } => index < count,
        DeletionStage::Identifying { index } => index < count,
    }
}

/// What becomes of the choice of a bottle.
pub open spec fn after_selection(terms: TermsView, line: Seq<char>) -> (
    Option<DeletionStage>,
    DeletionAction<Seq<char>>,
) {
    let selection = text::trimmed(line);
    if selection.len() == 0 {
        (None, DeletionAction::Cancel)
    } else {
        match text::parsed_index(selection) {
            None => (None, DeletionAction::BadChoice(ChoiceFault::NotANumber(selection))),
            Some(index) => if index >= terms.serials.len() {
                (
                    None,
                    DeletionAction::BadChoice(
                        ChoiceFault::OutOfRange { index, count: terms.serials.len() as usize },
                    ),
                )
            } else if terms.verify_password {
                (Some(DeletionStage::Unlocking { index }), DeletionAction::AskPassword { index })
            } else {
                (
                    Some(DeletionStage::Confirming { index }),
                    DeletionAction::AskConfirmation { index },
                )
            },
        }
    }
}

/// What becomes of a stage on an event: the next stage, none where the dialogue ends, and the
/// action.
pub open spec fn deletion_next(
    terms: TermsView,
    stage: DeletionStage,
    event: DeletionEvent<Seq<char>>,
) -> (Option<DeletionStage>, DeletionAction<Seq<char>>) {
    match (stage, event) {
        (DeletionStage::Selecting, DeletionEvent::Line(line)) => after_selection(terms, line),
        (DeletionStage::Unlocking { index }, DeletionEvent::Password(entered)) => (
            Some(DeletionStage::Recovering { index }),
            DeletionAction::Recover {
                index,
                password: bottle_password(terms.saved_password, entered),
            },
        ),
        (DeletionStage::Recovering { index }, DeletionEvent::Recovered) => (
            Some(DeletionStage::Confirming { index }),
            DeletionAction::AskConfirmation { index },
        ),
        (DeletionStage::Recovering { index }, DeletionEvent::Refused(reason)) => (
            None,
            DeletionAction::Locked(reason),
        ),
        (DeletionStage::Confirming { index }, DeletionEvent::Line(line)) => if text::trimmed(line)
            == confirmation(index) {
            (Some(DeletionStage::Identifying { index }), DeletionAction::AskSerial { index })
        } else {
            (None, DeletionAction::Cancel)
        },
        (DeletionStage::Identifying { index }, DeletionEvent::Line(line)) => if text::trimmed(line)
            == terms.serials[index as int] {
            (None, DeletionAction::Delete { index })
        } else {
            (None, DeletionAction::Cancel)
        },
        _ => (None, DeletionAction::Cancel),
    }
}

/// What becomes of the choice of a bottle.
fn select_bottle(terms: &DeletionTerms, line: &str) -> (next: (
    Option<DeletionStage>,
    DeletionAction<String>,
))
    ensures
        (next.0, action_view(next.1)) == after_selection(terms@, line@),
{
    let selection = text::trim_text(line);
    if selection.as_str().is_empty() {
        return (None, DeletionAction::Cancel);
    }
    proof {
        assert(text::texts(terms.serials@).len() == terms.serials@.len());
    }
    match text::parse_index(selection.as_str()) {
        None => (None, DeletionAction::BadChoice(ChoiceFault::NotANumber(selection))),
        Some(index) => if index >= terms.serials.len() {
            (
                None,
                DeletionAction::BadChoice(
                    ChoiceFault::OutOfRange { index, count: terms.serials.len() },
                ),
            )
        } else if terms.verify_password {
            (Some(DeletionStage::Unlocking { index }), DeletionAction::AskPassword { index })
        } else {
            (Some(DeletionStage::Confirming { index }), DeletionAction::AskConfirmation { index })
        },
    }
}

/// The password to unlock a bottle with: the saved one where there is one and none was entered.
fn choose_password(saved: &Option<String>, entered: String) -> (password: String)
    ensures
        password@ == bottle_password(text::text_view(*saved), entered@),
{
    match saved {
        Some(password) => if entered.as_str().is_empty() {
            password.clone()
        } else {
            entered
        },
        None => entered,
    }
}

/// Where a deletion starts: nowhere if there is no bottle to select.
pub fn deletion_start(terms: &DeletionTerms) -> (stage: Option<DeletionStage>)
    ensures
        stage == if terms@.serials.len() == 0 {
            None
        } else {
            Some(DeletionStage::Selecting)
        },
{
    if terms.serials.len() == 0 {
        None
    } else {
        Some(DeletionStage::Selecting)
    }
}

/// One step in the deletion of an escrow bottle.
pub fn deletion_step(
    terms: &DeletionTerms,
    stage: DeletionStage,
    event: DeletionEvent<String>,
) -> (next: (Option<DeletionStage>, DeletionAction<String>))
    requires
        in_range(stage, terms@.serials.len()),
        expects(stage, event),
    ensures
        (next.0, action_view(next.1)) == deletion_next(terms@, stage, event_view(event)),
        next.0 matches Some(later) ==> in_range(later, terms@.serials.len()),
{
    match (stage, event) {
        (DeletionStage::Selecting, DeletionEvent::Line(line)) => select_bottle(
            terms,
            line.as_str(),
        ),
        (DeletionStage::Unlocking { index }, DeletionEvent::Password(entered)) => (
            Some(DeletionStage::Recovering { index }),
            DeletionAction::Recover {
                index,
                password: choose_password(&terms.saved_password, entered),
            },
        ),
        (DeletionStage::Recovering { index }, DeletionEvent::Recovered) => (
            Some(DeletionStage::Confirming { index }),
            DeletionAction::AskConfirmation { index },
        ),
        (DeletionStage::Recovering { .. }, DeletionEvent::Refused(reason)) => (
            None,
            DeletionAction::Locked(reason),
        ),
        (DeletionStage::Confirming { index }, DeletionEvent::Line(line)) => {
            let words = text::trim_text(line.as_str());
            let wanted = "DELETE ".to_owned().concat(text::decimal_text(index).as_str());
            if text::same_text(words.as_str(), wanted.as_str()) {
                (Some(DeletionStage::Identifying { index }), DeletionAction::AskSerial { index })
            } else {
                (None, DeletionAction::Cancel)
            }
        },
        (DeletionStage::Identifying { index }, DeletionEvent::Line(line)) => {
            let serial = text::trim_text(line.as_str());
            proof {
                assert(text::texts(terms.serials@)[index as int] == terms.serials@[index as int]@);
            }
            if text::same_text(serial.as_str(), terms.serials[index].as_str()) {
                (None, DeletionAction::Delete { index })
            } else {
                (None, DeletionAction::Cancel)
            }
        },
        (_, _) => (None, DeletionAction::Cancel),
    }
}

/// The stage after some events, none where the dialogue has ended by then.
pub open spec fn stage_after(terms: TermsView, events: Seq<DeletionEvent<Seq<char>>>) -> Option<
    DeletionStage,
>
    decreases events.len(),
{
    if events.len() == 0 {
        Some(DeletionStage::Selecting)
    } else {
        match stage_after(terms, events.drop_last()) {
            Some(stage) => deletion_next(terms, stage, events.last()).0,
            None => None,
        }
    }
}

/// Whether some events end the dialogue with the deletion of a bottle.
pub open spec fn deletes(
    terms: TermsView,
    events: Seq<DeletionEvent<Seq<char>>>,
    index: usize,
) -> bool {
    &&& events.len() > 0
    &&& stage_after(terms, events.drop_last()) matches Some(stage) && deletion_next(
        terms,
        stage,
        events.last(),
    ).1 == (DeletionAction::<Seq<char>>::Delete { index })
}

/// Whether a line asks for a bottle.
pub open spec fn selects(event: DeletionEvent<Seq<char>>, index: usize) -> bool {
    event matches DeletionEvent::Line(line) && text::parsed_index(text::trimmed(line)) == Some(
        index,
    )
}

/// Whether a line, without the white space around it, is `words`.
pub open spec fn enters(event: DeletionEvent<Seq<char>>, words: Seq<char>) -> bool {
    event matches DeletionEvent::Line(line) && text::trimmed(line) == words
}

/// A bottle is deleted only after it was selected from the list, unlocked with its password (unless
/// the terms waive that), confirmed with its index, and identified by the serial number of its
/// device: each in its turn, and nothing else in between. The password that unlocked it is the one
/// that was entered, or, where that was empty, the saved one if there is one.
pub proof fn law_deletion_takes_every_confirmation(
    terms: TermsView,
    events: Seq<DeletionEvent<Seq<char>>>,
    index: usize,
)
    requires
        deletes(terms, events, index),
    ensures
        index < terms.serials.len(),
        if terms.verify_password {
            &&& events.len() == 5
            &&& selects(events[0], index)
            &&& events[1] is Password
            &&& stage_after(terms, events.take(1)) == Some(DeletionStage::Unlocking { index })
            &&& unlocks_with(
                deletion_next(terms, DeletionStage::Unlocking { index }, events[1]),
                index,
                if events[1]->Password_0.len() > 0 {
                    events[1]->Password_0
                } else if terms.saved_password is Some {
                    terms.saved_password->Some_0
                } else {
                    Seq::empty()
                },
            )
            &&& events[2] is Recovered
            &&& enters(events[3], confirmation(index))
            &&& enters(events[4], terms.serials[index as int])
        } else {
            &&& events.len() == 3
            &&& selects(events[0], index)
            &&& enters(events[1], confirmation(index))
            &&& enters(events[2], terms.serials[index as int])
        },
{
    let n = events.len() as int;
    let one = events.drop_last();
    assert(stage_after(terms, one) == Some(DeletionStage::Identifying { index }));
    let two = one.drop_last();
    assert(stage_after(terms, two) == Some(DeletionStage::Confirming { index }));
    let three = two.drop_last();
    if stage_after(terms, three) == Some(DeletionStage::Selecting) {
        lemma_selecting_is_the_start(terms, three);
    } else {
        assert(stage_after(terms, three) == Some(DeletionStage::Recovering { index }));
        let four = three.drop_last();
        assert(stage_after(terms, four) == Some(DeletionStage::Unlocking { index }));
        let five = four.drop_last();
        assert(stage_after(terms, five) == Some(DeletionStage::Selecting));
        lemma_selecting_is_the_start(terms, five);
        assert(events.take(1) =~= four);
        assert(four.last() == events[0]);
        assert(three.last() == events[1]);
        law_entered_password_unlocks(terms, index, events[1]->Password_0);
    }
}

/// Whether a step tries to unlock this bottle with this password, and waits for the outcome.
pub open spec fn unlocks_with(
    step: (Option<DeletionStage>, DeletionAction<Seq<char>>),
    index: usize,
    password: Seq<char>,
) -> bool {
    step == (
        Some(DeletionStage::Recovering { index }),
        (DeletionAction::Recover { index, password }),
    )
}

/// A password that was entered is the one with which the bottle is tried, whether one was saved or
/// not. Only where nothing was entered does the saved one serve.
pub proof fn law_entered_password_unlocks(terms: TermsView, index: usize, entered: Seq<char>)
    ensures
        ({
            let step = deletion_next(
                terms,
                DeletionStage::Unlocking { index },
                DeletionEvent::Password(entered),
            );
            &&& entered.len() > 0 ==> unlocks_with(step, index, entered)
            &&& entered.len() == 0 ==> unlocks_with(
                step,
                index,
                if terms.saved_password is Some {
                    terms.saved_password->Some_0
                } else {
                    Seq::empty()
                },
            )
        }),
{
    if entered.len() == 0 {
        assert(entered =~= Seq::<char>::empty());
    }
}

/// The words that confirm a deletion are DELETE, a space and the index in decimal digits.
pub proof fn law_confirmation_words(index: usize)
    ensures
        confirmation(index) == seq!['D', 'E', 'L', 'E', 'T', 'E', ' '] + text::decimal(
            index as nat,
        ),
{
    reveal_strlit("DELETE ");
    assert("DELETE "@ =~= seq!['D', 'E', 'L', 'E', 'T', 'E', ' ']);
}

/// What becomes of the choice of a bottle: an empty line cancels, a line that is no number is
/// repeated in the complaint, a number that is too great is refused, and any other number selects
/// that very bottle.
pub proof fn law_selection(terms: TermsView, line: Seq<char>)
    requires
        terms.serials.len() <= usize::MAX,
    ensures
        ({
            let selection = text::trimmed(line);
            let (stage, action) = deletion_next(
                terms,
                DeletionStage::Selecting,
                DeletionEvent::Line(line),
            );
            &&& selection.len() == 0 ==> stage is None && action is Cancel
            &&& selection.len() > 0 && text::parsed_index(selection) is None ==> stage is None
                && action == DeletionAction::BadChoice(
                ChoiceFault::NotANumber(selection),
            )
            &&& text::parsed_index(selection) matches Some(index) ==> {
                &&& index >= terms.serials.len() ==> stage is None && action
                    == DeletionAction::BadChoice(
                    (ChoiceFault::<Seq<char>>::OutOfRange {
                        index,
                        count: terms.serials.len() as usize,
                    }),
                )
                &&& index < terms.serials.len() && terms.verify_password ==> stage == Some(
                    DeletionStage::Unlocking { index },
                ) && action == (DeletionAction::<Seq<char>>::AskPassword { index })
                &&& index < terms.serials.len() && !terms.verify_password ==> stage == Some(
                    DeletionStage::Confirming { index },
                ) && action == (DeletionAction::<Seq<char>>::AskConfirmation { index })
            }
        }),
{
    if text::trimmed(line).len() == 0 {
        assert(text::without_plus(text::trimmed(line)).len() == 0);
    }
}

/// A bottle that could not be unlocked ends the dialogue with the reason, and one that was unlocked
/// has to be confirmed.
pub proof fn law_unlocking(terms: TermsView, index: usize, reason: Seq<char>)
    ensures
        deletion_next(terms, DeletionStage::Recovering { index }, DeletionEvent::Recovered) == (
            Some(DeletionStage::Confirming { index }),
            (DeletionAction::<Seq<char>>::AskConfirmation { index }),
        ),
        deletion_next(
            terms,
            DeletionStage::Recovering { index },
            DeletionEvent::Refused(reason),
        ) == (None::<DeletionStage>, DeletionAction::Locked(reason)),
{
}

/// The right words lead on to the serial number, and the right serial number to the deletion of that
/// very bottle. Anything else that is entered cancels.
pub proof fn law_right_words_only(terms: TermsView, index: usize, line: Seq<char>)
    ensures
        deletion_next(terms, DeletionStage::Confirming { index }, DeletionEvent::Line(line)) == if text::trimmed(
            line,
        ) == "DELETE "@ + text::decimal(index as nat) {
            (
                Some(DeletionStage::Identifying { index }),
                (DeletionAction::<Seq<char>>::AskSerial { index }),
            )
        } else {
            (None::<DeletionStage>, DeletionAction::<Seq<char>>::Cancel)
        },
        deletion_next(terms, DeletionStage::Identifying { index }, DeletionEvent::Line(line)) == if text::trimmed(
            line,
        ) == terms.serials[index as int] {
            (None::<DeletionStage>, (DeletionAction::<Seq<char>>::Delete { index }))
        } else {
            (None::<DeletionStage>, DeletionAction::<Seq<char>>::Cancel)
        },
{
}

/// The stages wait for the kinds of events that their questions bring, and are about bottles on the
/// list.
pub proof fn law_dialogue_waits_for<T>(
    stage: DeletionStage,
    line: T,
    password: T,
    reason: T,
    count: nat,
)
    ensures
        expects(stage, DeletionEvent::Line(line)) <==> stage is Selecting || stage is Confirming
            || stage is Identifying,
        expects(stage, DeletionEvent::Password(password)) <==> stage is Unlocking,
        expects(stage, DeletionEvent::<T>::Recovered) <==> stage is Recovering,
        expects(stage, DeletionEvent::Refused(reason)) <==> stage is Recovering,
        in_range(stage, count) <==> match stage {
            DeletionStage::Selecting => true,
            DeletionStage::Unlocking { index } => index < count,
            DeletionStage::Recovering { index } => index < count,
            DeletionStage::Confirming { index } => index < count,
            DeletionStage::Identifying { index } => index < count,
        },
{
}

/// The terms, what happened and what is to be done are seen as they are.
pub proof fn law_dialogue_is_seen_whole(
    terms: DeletionTerms,
    words: String,
    index: usize,
    count: usize,
)
    ensures
        terms@.serials.len() == terms.serials@.len(),
        forall|i: int|
            0 <= i < terms.serials@.len() ==> #[trigger] terms@.serials[i] == terms.serials@[i]@,
        terms@.verify_password == terms.verify_password,
        terms@.saved_password == match terms.saved_password {
            Some(password) => Some(password@),
            None => None,
        },
        event_view(DeletionEvent::Line(words)) == DeletionEvent::Line(words@),
        event_view(DeletionEvent::Password(words)) == DeletionEvent::Password(words@),
        event_view(DeletionEvent::Recovered) is Recovered,
        event_view(DeletionEvent::Refused(words)) == DeletionEvent::Refused(words@),
        action_view(DeletionAction::AskPassword { index }) == (DeletionAction::<
            Seq<char>,
        >::AskPassword { index }),
        action_view(DeletionAction::Recover { index, password: words }) == (
        DeletionAction::Recover { index, password: words@ }),
        action_view(DeletionAction::AskConfirmation { index }) == (DeletionAction::<
            Seq<char>,
        >::AskConfirmation { index }),
        action_view(DeletionAction::AskSerial { index }) == (DeletionAction::<
            Seq<char>,
        >::AskSerial { index }),
        action_view(DeletionAction::Delete { index }) == (DeletionAction::<Seq<char>>::Delete {
            index,
        }),
        action_view(DeletionAction::Cancel) is Cancel,
        action_view(DeletionAction::BadChoice(ChoiceFault::NotANumber(words)))
            == DeletionAction::BadChoice(ChoiceFault::NotANumber(words@)),
        action_view(DeletionAction::BadChoice(ChoiceFault::OutOfRange { index, count }))
            == DeletionAction::BadChoice(
            (ChoiceFault::<Seq<char>>::OutOfRange { index, count }),
        ),
        action_view(DeletionAction::Locked(words)) == DeletionAction::Locked(words@),
{
}

proof fn lemma_selecting_is_the_start(terms: TermsView, events: Seq<DeletionEvent<Seq<char>>>)
    requires
        stage_after(terms, events) == Some(DeletionStage::Selecting),
    ensures
        events.len() == 0,
{
}

/// Different bottles are confirmed with different words.
pub proof fn law_confirmations_differ(first: usize, second: usize)
    requires
        confirmation(first) == confirmation(second),
    ensures
        first == second,
{
    text::law_decimal_reads_back(first as nat);
    text::law_decimal_reads_back(second as nat);
    let start = "DELETE "@.len() as int;
    assert(confirmation(first).skip(start) =~= text::decimal(first as nat));
    assert(confirmation(second).skip(start) =~= text::decimal(second as nat));
}

/// Where every confirmation is given, the bottle is deleted.
pub proof fn law_confirmed_bottle_is_deleted(
    terms: TermsView,
    events: Seq<DeletionEvent<Seq<char>>>,
    index: usize,
)
    requires
        index < terms.serials.len(),
        if terms.verify_password {
            &&& events.len() == 5
            &&& selects(events[0], index)
            &&& events[1] is Password
            &&& events[2] is Recovered
            &&& enters(events[3], confirmation(index))
            &&& enters(events[4], terms.serials[index as int])
        } else {
            &&& events.len() == 3
            &&& selects(events[0], index)
            &&& enters(events[1], confirmation(index))
            &&& enters(events[2], terms.serials[index as int])
        },
    ensures
        deletes(terms, events, index),
{
    let line = events[0]->Line_0;
    assert(text::trimmed(line).len() > 0) by {
        if text::trimmed(line).len() == 0 {
            assert(text::without_plus(text::trimmed(line)).len() == 0);
        }
    }
    reveal_with_fuel(stage_after, 6);
    let last = events.drop_last();
    if terms.verify_password {
        assert(last.drop_last().drop_last().drop_last().drop_last() =~= Seq::<
            DeletionEvent<Seq<char>>,
        >::empty());
    } else {
        assert(last.drop_last().drop_last() =~= Seq::<DeletionEvent<Seq<char>>>::empty());
    }
}

} // verus!
