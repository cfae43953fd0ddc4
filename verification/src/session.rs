//! Decisions about stored state: which of it serves the account at hand, and what else to do.
use vstd::prelude::*;

use crate::escrow;
use crate::escrow::ChoiceFault;
use crate::text;

verus! {

/// What was found where the state of an account is stored.
#[derive(Debug, PartialEq, Eq)]
pub enum Stored<T> {
    Absent,
    Unreadable,
    /// The state of this account.
    Of(T),
}

/// What to do about stored state.
#[derive(Clone, Copy, Debug, PartialEq, Eq)]
pub enum StateChoice {
    /// Go on from it.
    Restore,
    /// Start afresh: it belongs to another account.
    Foreign,
    /// Start afresh: it cannot be read.
    Unreadable,
    /// Start afresh: there is none.
    Fresh,
}

/// What was found, with its text as a sequence of characters.
pub open spec fn stored_view(stored: Stored<String>) -> Stored<Seq<char>> {
    match stored {
        Stored::Absent => Stored::Absent,
        Stored::Unreadable => Stored::Unreadable,
        Stored::Of(account) => Stored::Of(account@),
    }
}

/// What to do about the stored state of the keychain: only that of the same account serves.
pub open spec fn keychain_choice(stored: Stored<Seq<char>>, dsid: Seq<char>) -> StateChoice {
    match stored {
        Stored::Absent => StateChoice::Fresh,
        Stored::Unreadable => StateChoice::Unreadable,
        Stored::Of(owner) => if owner == dsid {
            StateChoice::Restore
        } else {
            StateChoice::Foreign
        },
    }
}

/// What to do about the stored state of the keychain of the account `dsid`.
pub fn load_keychain_state(stored: &Stored<String>, dsid: &str) -> (choice: StateChoice)
    ensures
        choice == keychain_choice(stored_view(*stored), dsid@),
{
    match stored {
        Stored::Absent => StateChoice::Fresh,
        Stored::Unreadable => StateChoice::Unreadable,
        Stored::Of(owner) => if text::same_text(owner.as_str(), dsid) {
            StateChoice::Restore
        } else {
            StateChoice::Foreign
        },
    }
}

/// Whether two account names are the same but for the case of ASCII letters.
pub open spec fn same_account(a: Seq<char>, b: Seq<char>) -> bool {
    text::ascii_lowered(a) == text::ascii_lowered(b)
}

/// What to do about a stored authentication: only that of the same account serves, and none where
/// caching is off.
pub open spec fn cache_choice(
    use_cache: bool,
    stored: Stored<Seq<char>>,
    apple_id: Seq<char>,
) -> StateChoice {
    if !use_cache {
        StateChoice::Fresh
    } else {
        match stored {
            Stored::Absent => StateChoice::Fresh,
            Stored::Unreadable => StateChoice::Unreadable,
            Stored::Of(username) => if same_account(username, apple_id) {
                StateChoice::Restore
            } else {
                StateChoice::Foreign
            },
        }
    }
}

/// What to do about a stored authentication, for the account `apple_id`.
pub fn choose_auth_cache(use_cache: bool, stored: &Stored<String>, apple_id: &str) -> (choice:
    StateChoice)
    ensures
        choice == cache_choice(use_cache, stored_view(*stored), apple_id@),
{
    if !use_cache {
        return StateChoice::Fresh;
    }
    match stored {
        Stored::Absent => StateChoice::Fresh,
        Stored::Unreadable => StateChoice::Unreadable,
        Stored::Of(username) => {
            let left = text::lower_text(username.as_str());
            let right = text::lower_text(apple_id);
            if text::same_text(left.as_str(), right.as_str()) {
                StateChoice::Restore
            } else {
                StateChoice::Foreign
            }
        },
    }
}

/// Stored state of the keychain serves only the very account that it was stored for, and stored
/// authentication only that account but for the case of ASCII letters.
pub proof fn law_state_is_never_shared(
    stored: Stored<Seq<char>>,
    use_cache: bool,
    account: Seq<char>,
)
    ensures
        keychain_choice(stored, account) is Restore <==> stored == Stored::Of(account),
        cache_choice(use_cache, stored, account) is Restore <==> use_cache && stored is Of
            && same_account(stored->Of_0, account),
{
}

/// How to come by a place in the trust circle.
#[derive(Clone, Copy, Debug, PartialEq, Eq)]
pub enum TrustPlan {
    /// The restored identity is still in it.
    Reuse,
    /// The restored identity is no longer in it: join again.
    Rejoin,
    /// There is no restored identity: join.
    Join,
}

/// How to come by a place in the trust circle. `in_clique` says whether a restored identity is
/// still in it.
pub fn trust_plan(restored: bool, in_clique: bool) -> (plan: TrustPlan)
    ensures
        plan == if !restored {
            TrustPlan::Join
        } else if in_clique {
            TrustPlan::Reuse
        } else {
            TrustPlan::Rejoin
        },
{
    if !restored {
        TrustPlan::Join
    } else if in_clique {
        TrustPlan::Reuse
    } else {
        TrustPlan::Rejoin
    }
}

/// A way to prove an identity besides the password.
#[derive(Debug, PartialEq, Eq)]
pub enum SecondFactor<T> {
    TrustedDevice,
    Sms { display_number: T },
}

/// A second factor in words.
pub open spec fn second_factor_words(method: SecondFactor<Seq<char>>) -> Seq<char> {
    match method {
        SecondFactor::TrustedDevice => "Trusted Device"@,
        SecondFactor::Sms { display_number } => "SMS ("@ + display_number + ")"@,
    }
}

/// A second factor, with its text as a sequence of characters.
pub open spec fn second_factor_view(method: SecondFactor<String>) -> SecondFactor<Seq<char>> {
    match method {
        SecondFactor::TrustedDevice => SecondFactor::TrustedDevice,
        SecondFactor::Sms { display_number } => SecondFactor::Sms {
            display_number: display_number@,
        },
    }
}

/// The line that offers the second factor with this index.
pub open spec fn second_factor_offer(index: nat, method: SecondFactor<Seq<char>>) -> Seq<char> {
    "  "@ + text::decimal(index) + " - "@ + second_factor_words(method)
}

/// The line that offers the second factor with this index.
pub fn second_factor_line(index: usize, method: &SecondFactor<String>) -> (line: String)
    ensures
        line@ == second_factor_offer(index as nat, second_factor_view(*method)),
{
    let words = match method {
        SecondFactor::TrustedDevice => "Trusted Device".to_owned(),
        SecondFactor::Sms { display_number } => "SMS (".to_owned().concat(
            display_number.as_str(),
        ).concat(")"),
    };
    "  ".to_owned().concat(text::decimal_text(index).as_str()).concat(" - ").concat(words.as_str())
}

/// How far a login has come.
#[derive(Debug, PartialEq, Eq)]
pub enum LoginStage {
    /// The account is logged in.
    Complete,
    /// A second factor has to be chosen.
    ChooseSecondFactor(Vec<SecondFactor<String>>),
    /// The code of the second factor has to be entered.
    EnterCode,
}

/// What to do next during a login.
#[derive(Debug, PartialEq, Eq)]
pub enum LoginAction {
    /// Hand over the account.
    Finish,
    /// Show these offers, and ask for one.
    AskMethod(Vec<String>),
    /// Ask for the code.
    AskCode,
}

/// What to tell the account service.
#[derive(Debug, PartialEq, Eq)]
pub enum LoginReply {
    /// The second factor with this index is to be used.
    UseMethod(usize),
    /// This is the code.
    SubmitCode(String),
}

/// What to do next during a login.
pub fn login_action(stage: &LoginStage) -> (action: LoginAction)
    ensures
        match *stage {
            LoginStage::Complete => action is Finish,
            LoginStage::ChooseSecondFactor(methods) => {
                &&& action matches LoginAction::AskMethod(offers)
                &&& offers@.len() == methods@.len()
                &&& forall|i: int|
                    0 <= i < methods@.len() ==> (#[trigger] offers@[i])@ == second_factor_offer(
                        i as nat,
                        second_factor_view(methods@[i]),
                    )
            },
            LoginStage::EnterCode => action is AskCode,
        },
{
    match stage {
        LoginStage::Complete => LoginAction::Finish,
        LoginStage::ChooseSecondFactor(methods) => {
            let mut offers: Vec<String> = Vec::new();
            let mut i: usize = 0;
            while i < methods.len()
                invariant
                    i <= methods@.len(),
                    offers@.len() == i,
                    forall|j: int|
                        0 <= j < i ==> (#[trigger] offers@[j])@ == second_factor_offer(
                            j as nat,
                            second_factor_view(methods@[j]),
                        ),
                decreases methods@.len() - i,
            {
                offers.push(second_factor_line(i, &methods[i]));
                i += 1;
            }
            LoginAction::AskMethod(offers)
        },
        LoginStage::EnterCode => LoginAction::AskCode,
    }
}

/// What to tell the account service after `answer` was entered. A second factor that is asked for
/// without a number is the first one.
pub fn login_reply(stage: &LoginStage, answer: &str) -> (reply: Result<
    LoginReply,
    ChoiceFault<String>,
>)
    requires
        !(stage is Complete),
    ensures
        match *stage {
            LoginStage::ChooseSecondFactor(methods) => {
                let index = escrow::asked_index(answer@);
                if index < methods@.len() {
                    reply matches Ok(LoginReply::UseMethod(i)) && i == index
                } else {
                    reply matches Err(fault) && fault == (ChoiceFault::<String>::OutOfRange {
                        index,
                        count: methods@.len() as usize,
                    })
                }
            },
            _ => reply matches Ok(LoginReply::SubmitCode(code)) && code@ == text::trimmed(answer@),
        },
{
    match stage {
        LoginStage::ChooseSecondFactor(methods) => match escrow::choose_or_first(
            answer,
            methods.len(),
        ) {
            Ok(index) => Ok(LoginReply::UseMethod(index)),
            Err(fault) => Err(fault),
        },
        _ => Ok(LoginReply::SubmitCode(text::trim_text(answer))),
    }
}

/// What is done about stored state, in each case: that of the same account is restored, that of
/// another is left as foreign, what cannot be read is left as such, and where there is none, or none
/// may be used, a fresh start is made.
pub proof fn law_state_choices(
    owner: Seq<char>,
    account: Seq<char>,
    stored: Stored<Seq<char>>,
    use_cache: bool,
)
    ensures
        keychain_choice(Stored::Absent, account) == StateChoice::Fresh,
        keychain_choice(Stored::Unreadable, account) == StateChoice::Unreadable,
        owner == account ==> keychain_choice(Stored::Of(owner), account) == StateChoice::Restore,
        owner != account ==> keychain_choice(Stored::Of(owner), account) == StateChoice::Foreign,
        cache_choice(false, stored, account) == StateChoice::Fresh,
        cache_choice(true, Stored::Absent, account) == StateChoice::Fresh,
        cache_choice(true, Stored::Unreadable, account) == StateChoice::Unreadable,
        cache_choice(true, Stored::Of(account), account) == StateChoice::Restore,
        cache_choice(true, Stored::Of(owner), account) == if same_account(owner, account) {
            StateChoice::Restore
        } else {
            StateChoice::Foreign
        },
{
}

/// Two account names are the same exactly where they are equally long and differ, if at all, only in
/// the case of letters from A to Z.
pub proof fn law_same_account(a: Seq<char>, b: Seq<char>)
    ensures
        same_account(a, b) <==> a.len() == b.len() && forall|i: int|
            0 <= i < a.len() ==> {
                ||| #[trigger] a[i] == b[i]
                ||| 65 <= a[i] as int <= 90 && b[i] as int == a[i] as int + 32
                ||| 65 <= b[i] as int <= 90 && a[i] as int == b[i] as int + 32
            },
        same_account(a, b) <==> same_account(b, a),
{
    let x = text::ascii_lowered(a);
    let y = text::ascii_lowered(b);
    assert(x.len() == a.len() && y.len() == b.len());
    if a.len() == b.len() {
        if same_account(a, b) {
            assert forall|i: int| 0 <= i < a.len() implies {
                ||| #[trigger] a[i] == b[i]
                ||| 65 <= a[i] as int <= 90 && b[i] as int == a[i] as int + 32
                ||| 65 <= b[i] as int <= 90 && a[i] as int == b[i] as int + 32
            } by {
                text::law_case_of_ascii_letters(a, i);
                text::law_case_of_ascii_letters(b, i);
                assert(x[i] == y[i]);
            }
        } else if forall|i: int|
            0 <= i < a.len() ==> {
                ||| #[trigger] a[i] == b[i]
                ||| 65 <= a[i] as int <= 90 && b[i] as int == a[i] as int + 32
                ||| 65 <= b[i] as int <= 90 && a[i] as int == b[i] as int + 32
            } {
            assert forall|i: int| 0 <= i < x.len() implies x[i] == y[i] by {
                text::law_case_of_ascii_letters(a, i);
                text::law_case_of_ascii_letters(b, i);
                assert(a[i] == a[i]);
            }
            assert(x =~= y);
        }
    }
}

/// The line that offers a second factor holds its index and, for a message, the number it goes to.
pub proof fn law_second_factor_offer(index: nat, number: Seq<char>)
    ensures
        second_factor_offer(index, SecondFactor::TrustedDevice) == "  "@ + text::decimal(index)
            + " - "@ + "Trusted Device"@,
        second_factor_offer(index, SecondFactor::Sms { display_number: number }) == "  "@
            + text::decimal(index) + " - "@ + ("SMS ("@ + number + ")"@),
{
}

/// What was stored, and a second factor, are seen as they are.
pub proof fn law_session_is_seen_whole(words: String)
    ensures
        stored_view(Stored::Absent) is Absent,
        stored_view(Stored::Unreadable) is Unreadable,
        stored_view(Stored::Of(words)) == Stored::Of(words@),
        second_factor_view(SecondFactor::TrustedDevice) is TrustedDevice,
        second_factor_view(SecondFactor::Sms { display_number: words }) == (SecondFactor::Sms {
            display_number: words@,
        }),
{
}

} // verus!
