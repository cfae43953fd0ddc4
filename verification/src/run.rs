//! The course of a run: which piece of work follows which, and where the run ends.
use vstd::prelude::*;

use crate::session;
use crate::session::{StateChoice, TrustPlan};

verus! {

/// What a run is for, and whether it may keep an authentication.
#[derive(Clone, Copy, Debug, PartialEq, Eq)]
pub struct RunTerms {
    pub delete_bottle: bool,
    pub use_auth_cache: bool,
}

/// What a run waits for: the outcome of a piece of work.
#[derive(Clone, Copy, Debug, PartialEq, Eq)]
pub enum RunStage {
    Restoring,
    LoggingIn,
    /// `cached` tells whether the account was restored rather than logged in.
    FetchingDelegate { cached: bool },
    DiscardingAuth,
    SavingAuth,
    DeletingBottle,
    SettingUpKeychain,
    JoiningCircle,
    /// `again` tells whether this is the second attempt.
    FetchingRecords { again: bool },
    WritingFiles,
}

/// How a piece of work came out.
#[derive(Clone, Copy, Debug, PartialEq, Eq)]
pub enum RunEvent {
    Done,
    Failed,
    /// The keychain is set up. Its identity is a restored one or not, and, where it is, is still in
    /// the trust circle or not.
    KeychainReady { restored: bool, in_clique: bool },
    /// The records could not be fetched, and a second attempt may help.
    Stale,
}

/// A piece of work, or the end of the run.
#[derive(Clone, Copy, Debug, PartialEq, Eq)]
pub enum RunAction {
    /// Make an account of the cached authentication.
    RestoreAccount,
    /// Ask for the password, and log in.
    LogIn,
    FetchDelegate,
    /// Remove the cached authentication, which was rejected.
    DiscardAuth,
    /// Cache the authentication.
    SaveAuth,
    DeleteBottle,
    SetUpKeychain,
    /// Join the trust circle; `again` where a restored identity is no longer in it.
    JoinCircle { again: bool },
    FetchRecords,
    WriteFiles,
    /// All is done.
    Finish,
    /// End with the failure of the last piece of work.
    GiveUp,
}

/// Where a run starts, after the choice what to do about a cached authentication.
pub open spec fn first_work(choice: StateChoice) -> (RunStage, RunAction) {
    if choice is Restore {
        (RunStage::Restoring, RunAction::RestoreAccount)
    } else {
        (RunStage::LoggingIn, RunAction::LogIn)
    }
}

/// What follows a login: the bottle where one is to be deleted, and the delegate otherwise.
pub open spec fn after_login(terms: RunTerms, cached: bool) -> (Option<RunStage>, RunAction) {
    if !terms.delete_bottle {
        (Some(RunStage::FetchingDelegate { cached }), RunAction::FetchDelegate)
    } else if terms.use_auth_cache {
        (Some(RunStage::SavingAuth), RunAction::SaveAuth)
    } else {
        (Some(RunStage::DeletingBottle), RunAction::DeleteBottle)
    }
}

/// What follows once the keychain is set up: joining the trust circle, unless a restored identity
/// is still in it.
pub open spec fn after_setup(restored: bool, in_clique: bool) -> (Option<RunStage>, RunAction) {
    if restored && in_clique {
        (Some(RunStage::FetchingRecords { again: false }), RunAction::FetchRecords)
    } else {
        (Some(RunStage::JoiningCircle), RunAction::JoinCircle { again: restored })
    }
}

/// What becomes of a run on an event: the next stage, none where the run ends, and the action. A
/// failure ends the run, but for two: an authentication that cannot be restored gives way to a
/// login, and one that is rejected is discarded first.
pub open spec fn run_next(terms: RunTerms, stage: RunStage, event: RunEvent) -> (
    Option<RunStage>,
    RunAction,
) {
    match (stage, event) {
        (RunStage::Restoring, RunEvent::Done) => after_login(terms, true),
        (RunStage::Restoring, RunEvent::Failed) => (Some(RunStage::LoggingIn), RunAction::LogIn),
        (RunStage::LoggingIn, RunEvent::Done) => after_login(terms, false),
        (RunStage::FetchingDelegate { .. }, RunEvent::Done) => if terms.use_auth_cache {
            (Some(RunStage::SavingAuth), RunAction::SaveAuth)
        } else {
            (Some(RunStage::SettingUpKeychain), RunAction::SetUpKeychain)
        },
        (RunStage::FetchingDelegate { cached: true }, RunEvent::Failed) => (
            Some(RunStage::DiscardingAuth),
            RunAction::DiscardAuth,
        ),
        (RunStage::DiscardingAuth, RunEvent::Done) => (Some(RunStage::LoggingIn), RunAction::LogIn),
        (RunStage::SavingAuth, RunEvent::Done) => if terms.delete_bottle {
            (Some(RunStage::DeletingBottle), RunAction::DeleteBottle)
        } else {
            (Some(RunStage::SettingUpKeychain), RunAction::SetUpKeychain)
        },
        (RunStage::DeletingBottle, RunEvent::Done) => (None, RunAction::Finish),
        (
            RunStage::SettingUpKeychain,
            RunEvent::KeychainReady { restored, in_clique },
        ) => after_setup(restored, in_clique),
        (RunStage::JoiningCircle, RunEvent::Done) => (
            Some(RunStage::FetchingRecords { again: false }),
            RunAction::FetchRecords,
        ),
        (RunStage::FetchingRecords { .. }, RunEvent::Done) => (
            Some(RunStage::WritingFiles),
            RunAction::WriteFiles,
        ),
        (RunStage::FetchingRecords { again: false }, RunEvent::Stale) => (
            Some(RunStage::FetchingRecords { again: true }),
            RunAction::FetchRecords,
        ),
        (RunStage::WritingFiles, RunEvent::Done) => (None, RunAction::Finish),
        _ => (None, RunAction::GiveUp),
    }
}

/// The first piece of work of a run, after the choice what to do about a cached authentication.
pub fn run_start(choice: StateChoice) -> (first: (RunStage, RunAction))
    ensures
        first == first_work(choice),
{
    match choice {
        StateChoice::Restore => (RunStage::Restoring, RunAction::RestoreAccount),
        _ => (RunStage::LoggingIn, RunAction::LogIn),
    }
}

fn continue_after_login(terms: RunTerms, cached: bool) -> (next: (Option<RunStage>, RunAction))
    ensures
        next == after_login(terms, cached),
{
    if !terms.delete_bottle {
        (Some(RunStage::FetchingDelegate { cached }), RunAction::FetchDelegate)
    } else if terms.use_auth_cache {
        (Some(RunStage::SavingAuth), RunAction::SaveAuth)
    } else {
        (Some(RunStage::DeletingBottle), RunAction::DeleteBottle)
    }
}

fn continue_after_setup(restored: bool, in_clique: bool) -> (next: (Option<RunStage>, RunAction))
    ensures
        next == after_setup(restored, in_clique),
{
    match session::trust_plan(restored, in_clique) {
        TrustPlan::Reuse => (
            Some(RunStage::FetchingRecords { again: false }),
            RunAction::FetchRecords,
        ),
        TrustPlan::Rejoin => (Some(RunStage::JoiningCircle), RunAction::JoinCircle { again: true }),
        TrustPlan::Join => (Some(RunStage::JoiningCircle), RunAction::JoinCircle { again: false }),
    }
}

/// One step in the course of a run.
pub fn run_step(terms: RunTerms, stage: RunStage, event: RunEvent) -> (next: (
    Option<RunStage>,
    RunAction,
))
    ensures
        next == run_next(terms, stage, event),
{
    match (stage, event) {
        (RunStage::Restoring, RunEvent::Done) => continue_after_login(terms, true),
        (RunStage::Restoring, RunEvent::Failed) => (Some(RunStage::LoggingIn), RunAction::LogIn),
        (RunStage::LoggingIn, RunEvent::Done) => continue_after_login(terms, false),
        (RunStage::FetchingDelegate { .. }, RunEvent::Done) => if terms.use_auth_cache {
            (Some(RunStage::SavingAuth), RunAction::SaveAuth)
        } else {
            (Some(RunStage::SettingUpKeychain), RunAction::SetUpKeychain)
        },
        (RunStage::FetchingDelegate { cached: true }, RunEvent::Failed) => (
            Some(RunStage::DiscardingAuth),
            RunAction::DiscardAuth,
        ),
        (RunStage::DiscardingAuth, RunEvent::Done) => (Some(RunStage::LoggingIn), RunAction::LogIn),
        (RunStage::SavingAuth, RunEvent::Done) => if terms.delete_bottle {
            (Some(RunStage::DeletingBottle), RunAction::DeleteBottle)
        } else {
            (Some(RunStage::SettingUpKeychain), RunAction::SetUpKeychain)
        },
        (RunStage::DeletingBottle, RunEvent::Done) => (None, RunAction::Finish),
        (
            RunStage::SettingUpKeychain,
            RunEvent::KeychainReady { restored, in_clique },
        ) => continue_after_setup(restored, in_clique),
        (RunStage::JoiningCircle, RunEvent::Done) => (
            Some(RunStage::FetchingRecords { again: false }),
            RunAction::FetchRecords,
        ),
        (RunStage::FetchingRecords { .. }, RunEvent::Done) => (
            Some(RunStage::WritingFiles),
            RunAction::WriteFiles,
        ),
        (RunStage::FetchingRecords { again: false }, RunEvent::Stale) => (
            Some(RunStage::FetchingRecords { again: true }),
            RunAction::FetchRecords,
        ),
        (RunStage::WritingFiles, RunEvent::Done) => (None, RunAction::Finish),
        (_, _) => (None, RunAction::GiveUp),
    }
}

/// Where a run is after some events: the stage, none where it has ended by then, and the action of
/// the last of them.
pub open spec fn run_after(terms: RunTerms, choice: StateChoice, events: Seq<RunEvent>) -> (
    Option<RunStage>,
    RunAction,
)
    decreases events.len(),
{
    if events.len() == 0 {
        (Some(first_work(choice).0), first_work(choice).1)
    } else {
        match run_after(terms, choice, events.drop_last()).0 {
            Some(stage) => run_next(terms, stage, events.last()),
            None => run_after(terms, choice, events.drop_last()),
        }
    }
}

/// A bound on the pieces of work that are left from a stage on.
spec fn work_left(stage: RunStage) -> int {
    match stage {
        RunStage::Restoring => 11,
        RunStage::FetchingDelegate { cached: true } => 10,
        RunStage::DiscardingAuth => 9,
        RunStage::LoggingIn => 8,
        RunStage::FetchingDelegate { cached: false } => 7,
        RunStage::SavingAuth => 6,
        RunStage::SettingUpKeychain => 5,
        RunStage::JoiningCircle => 4,
        RunStage::FetchingRecords { again: false } => 3,
        RunStage::FetchingRecords { again: true } => 2,
        RunStage::WritingFiles => 1,
        RunStage::DeletingBottle => 1,
    }
}

proof fn lemma_work_left(terms: RunTerms, choice: StateChoice, events: Seq<RunEvent>, i: int)
    requires
        0 <= i <= events.len(),
        run_after(terms, choice, events).0 is Some,
    ensures
        run_after(terms, choice, events.take(i)).0 is Some,
        work_left(run_after(terms, choice, events).0->Some_0) <= work_left(
            run_after(terms, choice, events.take(i)).0->Some_0,
        ) - (events.len() - i),
    decreases events.len(),
{
    if i == events.len() {
        assert(events.take(i) =~= events);
    } else {
        lemma_work_left(terms, choice, events.drop_last(), i);
        assert(events.drop_last().take(i) =~= events.take(i));
    }
}

/// A run ends: after eleven events at the latest nothing is left to do.
pub proof fn law_run_ends(terms: RunTerms, choice: StateChoice, events: Seq<RunEvent>)
    requires
        events.len() >= 11,
    ensures
        run_after(terms, choice, events).0 is None,
{
    if run_after(terms, choice, events).0 is Some {
        lemma_work_left(terms, choice, events, 0);
        assert(events.take(0) =~= Seq::<RunEvent>::empty());
        assert(work_left(run_after(terms, choice, events).0->Some_0) >= 1);
    }
}

/// The password of the account is asked for at most once in a run.
pub proof fn law_one_login_at_most(
    terms: RunTerms,
    choice: StateChoice,
    events: Seq<RunEvent>,
    i: int,
)
    requires
        0 <= i < events.len(),
        run_after(terms, choice, events).0 is Some,
        run_after(terms, choice, events).1 is LogIn,
    ensures
        !(run_after(terms, choice, events.take(i)).1 is LogIn),
{
    lemma_work_left(terms, choice, events, i);
    lemma_stage_of_action(terms, choice, events);
    lemma_stage_of_action(terms, choice, events.take(i));
}

/// While a run lasts, its stage is the one that waits for its last action.
proof fn lemma_stage_of_action(terms: RunTerms, choice: StateChoice, events: Seq<RunEvent>)
    requires
        run_after(terms, choice, events).0 is Some,
    ensures
        run_after(terms, choice, events).1 is LogIn ==> run_after(terms, choice, events).0 == Some(
            RunStage::LoggingIn,
        ),
{
}

/// Whether a piece of work belongs to the deletion of a bottle.
pub open spec fn serves_deletion(action: RunAction) -> bool {
    ||| action is RestoreAccount
    ||| action is LogIn
    ||| action is SaveAuth
    ||| action is DeleteBottle
    ||| action is Finish
    ||| action is GiveUp
}

/// A run that deletes a bottle fetches no delegate, joins no trust circle and exports nothing.
pub proof fn law_deletion_does_nothing_else(
    terms: RunTerms,
    choice: StateChoice,
    events: Seq<RunEvent>,
)
    requires
        terms.delete_bottle,
    ensures
        serves_deletion(run_after(terms, choice, events).1),
        run_after(terms, choice, events).0 matches Some(stage) ==> (stage is Restoring
            || stage is LoggingIn || stage is SavingAuth || stage is DeletingBottle),
    decreases events.len(),
{
    if events.len() > 0 {
        law_deletion_does_nothing_else(terms, choice, events.drop_last());
    }
}

/// A run that exports accessories deletes no bottle.
pub proof fn law_export_deletes_nothing(
    terms: RunTerms,
    choice: StateChoice,
    events: Seq<RunEvent>,
)
    requires
        !terms.delete_bottle,
    ensures
        !(run_after(terms, choice, events).1 is DeleteBottle),
    decreases events.len(),
{
    if events.len() > 0 {
        law_export_deletes_nothing(terms, choice, events.drop_last());
    }
}

/// Without leave to use a cache, no authentication is restored, kept or removed.
pub proof fn law_auth_cache_is_left_alone(
    terms: RunTerms,
    stored: session::Stored<Seq<char>>,
    apple_id: Seq<char>,
    events: Seq<RunEvent>,
)
    requires
        !terms.use_auth_cache,
    ensures
        ({
            let choice = session::cache_choice(terms.use_auth_cache, stored, apple_id);
            let action = run_after(terms, choice, events).1;
            !(action is RestoreAccount) && !(action is SaveAuth) && !(action is DiscardAuth)
        }),
{
    lemma_never_cached(terms, session::cache_choice(terms.use_auth_cache, stored, apple_id), events);
}

proof fn lemma_never_cached(terms: RunTerms, choice: StateChoice, events: Seq<RunEvent>)
    requires
        !terms.use_auth_cache,
        !(choice is Restore),
    ensures
        ({
            let (stage, action) = run_after(terms, choice, events);
            &&& !(action is RestoreAccount) && !(action is SaveAuth) && !(action is DiscardAuth)
            &&& stage != Some(RunStage::Restoring)
            &&& stage != Some(RunStage::FetchingDelegate { cached: true })
            &&& stage != Some(RunStage::DiscardingAuth)
            &&& stage != Some(RunStage::SavingAuth)
        }),
    decreases events.len(),
{
    if events.len() > 0 {
        lemma_never_cached(terms, choice, events.drop_last());
    }
}

/// Whether by the end of these events the exporter is in the trust circle: a restored identity
/// turned out to be in it still, or joining it was done.
pub open spec fn trusted(terms: RunTerms, choice: StateChoice, events: Seq<RunEvent>) -> bool
    decreases events.len(),
{
    if events.len() == 0 {
        false
    } else {
        ||| trusted(terms, choice, events.drop_last())
        ||| run_after(terms, choice, events.drop_last()).0 == Some(RunStage::SettingUpKeychain)
            && events.last() == (RunEvent::KeychainReady { restored: true, in_clique: true })
        ||| run_after(terms, choice, events.drop_last()).0 == Some(RunStage::JoiningCircle)
            && events.last() is Done
    }
}

/// No records are fetched and no files are written before the exporter is in the trust circle.
pub proof fn law_export_takes_trust(terms: RunTerms, choice: StateChoice, events: Seq<RunEvent>)
    ensures
        run_after(terms, choice, events).1 is FetchRecords ==> trusted(terms, choice, events),
        run_after(terms, choice, events).1 is WriteFiles ==> trusted(terms, choice, events),
        run_after(terms, choice, events).0 matches Some(stage) && (stage is FetchingRecords
            || stage is WritingFiles) ==> trusted(terms, choice, events),
    decreases events.len(),
{
    if events.len() > 0 {
        law_export_takes_trust(terms, choice, events.drop_last());
    }
}

/// Files are written only right after the records were fetched.
pub proof fn law_files_follow_records(terms: RunTerms, choice: StateChoice, events: Seq<RunEvent>)
    requires
        events.len() > 0,
        run_after(terms, choice, events.drop_last()).0 is Some,
        run_after(terms, choice, events).1 is WriteFiles,
    ensures
        run_after(terms, choice, events.drop_last()).1 is FetchRecords,
        events.last() is Done,
{
    lemma_fetching(terms, choice, events.drop_last());
}

proof fn lemma_fetching(terms: RunTerms, choice: StateChoice, events: Seq<RunEvent>)
    requires
        run_after(terms, choice, events).0 matches Some(stage) && stage is FetchingRecords,
    ensures
        run_after(terms, choice, events).1 is FetchRecords,
{
}

/// A run ends as done only when its purpose is fulfilled: an export in answer to the files having
/// been written, and a deletion in answer to the dialogue about the bottle having been gone through.
pub proof fn law_finish_takes_the_purpose(
    terms: RunTerms,
    choice: StateChoice,
    events: Seq<RunEvent>,
)
    requires
        events.len() > 0,
        run_after(terms, choice, events.drop_last()).0 is Some,
        run_after(terms, choice, events).1 is Finish,
    ensures
        run_after(terms, choice, events).0 is None,
        events.last() is Done,
        !terms.delete_bottle ==> run_after(terms, choice, events.drop_last()).0 == Some(
            RunStage::WritingFiles,
        ) && run_after(terms, choice, events.drop_last()).1 is WriteFiles,
        terms.delete_bottle ==> run_after(terms, choice, events.drop_last()).0 == Some(
            RunStage::DeletingBottle,
        ) && run_after(terms, choice, events.drop_last()).1 is DeleteBottle,
{
    let before = events.drop_last();
    lemma_last_work(terms, choice, before);
    if terms.delete_bottle {
        law_deletion_does_nothing_else(terms, choice, before);
    } else {
        law_export_deletes_nothing(terms, choice, before);
    }
}

proof fn lemma_last_work(terms: RunTerms, choice: StateChoice, events: Seq<RunEvent>)
    ensures
        run_after(terms, choice, events).0 == Some(RunStage::WritingFiles) ==> run_after(
            terms,
            choice,
            events,
        ).1 is WriteFiles,
        run_after(terms, choice, events).0 == Some(RunStage::DeletingBottle) ==> run_after(
            terms,
            choice,
            events,
        ).1 is DeleteBottle,
{
}

/// Whether a piece of work came out well.
pub open spec fn is_success(stage: RunStage, event: RunEvent) -> bool {
    if stage is SettingUpKeychain {
        event is KeychainReady
    } else {
        event is Done
    }
}

/// Whether each piece of work came out well, up to the end of the run.
pub open spec fn succeeds(terms: RunTerms, choice: StateChoice, events: Seq<RunEvent>) -> bool {
    forall|i: int|
        0 <= i < events.len() ==> (run_after(terms, choice, #[trigger] events.take(i)).0 matches Some(
            stage,
        ) ==> is_success(stage, events[i]))
}

proof fn lemma_success_goes_on(terms: RunTerms, choice: StateChoice, events: Seq<RunEvent>) -> (at:
    int)
    requires
        succeeds(terms, choice, events),
    ensures
        ({
            let (stage, action) = run_after(terms, choice, events);
            &&& stage is None ==> action is Finish
            &&& stage is None ==> 0 < at <= events.len() && run_after(
                terms,
                choice,
                events.take(at - 1),
            ).0 is Some && run_after(terms, choice, events.take(at)).1 is Finish && events.take(
                at,
            ).drop_last() == events.take(at - 1)
        }),
    decreases events.len(),
{
    let n = events.len() as int;
    assert(events.take(n) =~= events);
    if n == 0 {
        0
    } else {
        let before = events.drop_last();
        assert(events.take(n - 1) =~= before);
        assert forall|i: int| 0 <= i < before.len() implies (run_after(
            terms,
            choice,
            #[trigger] before.take(i),
        ).0 matches Some(stage) ==> is_success(stage, before[i])) by {
            assert(before.take(i) =~= events.take(i));
        }
        let at = lemma_success_goes_on(terms, choice, before);
        match run_after(terms, choice, before).0 {
            Some(stage) => {
                assert(is_success(stage, events[n - 1]));
                n
            },
            None => {
                assert(before.take(at - 1) =~= events.take(at - 1));
                assert(before.take(at) =~= events.take(at));
                assert(events.take(at).drop_last() =~= events.take(at - 1));
                at
            },
        }
    }
}

/// Where each piece of work comes out well, an export gets to the files and ends as done, from a
/// restored account as from a login, and whether the trust circle has to be joined or not.
pub proof fn law_success_reaches_the_files(
    terms: RunTerms,
    choice: StateChoice,
    events: Seq<RunEvent>,
)
    requires
        !terms.delete_bottle,
        events.len() >= 11,
        succeeds(terms, choice, events),
    ensures
        run_after(terms, choice, events) == (None::<RunStage>, RunAction::Finish),
        exists|k: int|
            0 <= k < events.len() && run_after(
                terms,
                choice,
                #[trigger] events.take(k),
            ) == (Some(RunStage::WritingFiles), RunAction::WriteFiles),
{
    law_run_ends(terms, choice, events);
    let at = lemma_success_goes_on(terms, choice, events);
    law_finish_takes_the_purpose(terms, choice, events.take(at));
    assert(run_after(terms, choice, events.take(at - 1)).0 == Some(RunStage::WritingFiles));
}

/// Where each piece of work comes out well, a deletion gets to the bottle and ends as done.
pub proof fn law_success_reaches_the_bottle(
    terms: RunTerms,
    choice: StateChoice,
    events: Seq<RunEvent>,
)
    requires
        terms.delete_bottle,
        events.len() >= 11,
        succeeds(terms, choice, events),
    ensures
        run_after(terms, choice, events) == (None::<RunStage>, RunAction::Finish),
        exists|k: int|
            0 <= k < events.len() && run_after(
                terms,
                choice,
                #[trigger] events.take(k),
            ) == (Some(RunStage::DeletingBottle), RunAction::DeleteBottle),
{
    law_run_ends(terms, choice, events);
    let at = lemma_success_goes_on(terms, choice, events);
    law_finish_takes_the_purpose(terms, choice, events.take(at));
    assert(run_after(terms, choice, events.take(at - 1)).0 == Some(RunStage::DeletingBottle));
}

/// A run starts with the cached authentication exactly where that is to be restored, and with a
/// login otherwise.
pub proof fn law_first_work(choice: StateChoice)
    ensures
        choice == StateChoice::Restore ==> first_work(choice) == (
            RunStage::Restoring,
            RunAction::RestoreAccount,
        ),
        choice != StateChoice::Restore ==> first_work(choice) == (
            RunStage::LoggingIn,
            RunAction::LogIn,
        ),
{
}

/// Whether a stage of an export comes before another one where all goes well.
pub open spec fn place_in_export(stage: RunStage) -> int {
    match stage {
        RunStage::Restoring => 0,
        RunStage::LoggingIn => 0,
        RunStage::FetchingDelegate { .. } => 1,
        RunStage::SavingAuth => 2,
        RunStage::SettingUpKeychain => 3,
        RunStage::JoiningCircle => 4,
        RunStage::FetchingRecords { .. } => 5,
        RunStage::WritingFiles => 6,
        _ => 7,
    }
}

/// Where a piece of work of an export comes out well, the next one in the order follows: login,
/// delegate, saved authentication, keychain, trust circle, records, files. Only two are ever left
/// out: saving the authentication where no cache may be used, and joining the circle where a
/// restored identity is still in it.
pub proof fn law_export_goes_in_order(terms: RunTerms, stage: RunStage, event: RunEvent)
    requires
        !terms.delete_bottle,
        is_success(stage, event),
        place_in_export(stage) < 6,
    ensures
        run_next(terms, stage, event).0 matches Some(next) && place_in_export(next) <= 6 && {
            let skipped = place_in_export(next) - place_in_export(stage) - 1;
            &&& 0 <= skipped <= 1
            &&& skipped == 1 <==> {
                ||| stage is FetchingDelegate && !terms.use_auth_cache
                ||| event == (RunEvent::KeychainReady { restored: true, in_clique: true })
            }
            &&& next matches RunStage::FetchingDelegate { cached } ==> cached == (stage is Restoring)
            &&& next matches RunStage::FetchingRecords { again } ==> !again
        },
        run_next(terms, stage, event).1 == work_of(
            run_next(terms, stage, event).0->Some_0,
            event == (RunEvent::KeychainReady { restored: true, in_clique: false }),
        ),
{
}

/// The work whose outcome a stage waits for. `again` tells whether a restored identity has left the
/// trust circle.
pub open spec fn work_of(stage: RunStage, again: bool) -> RunAction {
    match stage {
        RunStage::Restoring => RunAction::RestoreAccount,
        RunStage::LoggingIn => RunAction::LogIn,
        RunStage::FetchingDelegate { .. } => RunAction::FetchDelegate,
        RunStage::DiscardingAuth => RunAction::DiscardAuth,
        RunStage::SavingAuth => RunAction::SaveAuth,
        RunStage::DeletingBottle => RunAction::DeleteBottle,
        RunStage::SettingUpKeychain => RunAction::SetUpKeychain,
        RunStage::JoiningCircle => RunAction::JoinCircle { again },
        RunStage::FetchingRecords { .. } => RunAction::FetchRecords,
        RunStage::WritingFiles => RunAction::WriteFiles,
    }
}

/// A stage always waits for the outcome of the action that comes with it.
pub proof fn law_stage_waits_for_its_action(terms: RunTerms, stage: RunStage, event: RunEvent)
    ensures
        run_next(terms, stage, event).0 matches Some(next) ==> run_next(terms, stage, event).1
            == work_of(
            next,
            event is KeychainReady && event->restored,
        ),
        run_next(terms, stage, event).0 is None ==> run_next(terms, stage, event).1 is Finish
            || run_next(terms, stage, event).1 is GiveUp,
{
}

/// A deletion goes from the login straight to the bottle, with the authentication saved in between
/// exactly where a cache may be used.
pub proof fn law_deletion_goes_straight(terms: RunTerms, login: RunStage)
    requires
        terms.delete_bottle,
        login is Restoring || login is LoggingIn,
    ensures
        run_next(terms, login, RunEvent::Done).0 == Some(
            if terms.use_auth_cache {
                RunStage::SavingAuth
            } else {
                RunStage::DeletingBottle
            },
        ),
        run_next(terms, RunStage::SavingAuth, RunEvent::Done).0 == Some(RunStage::DeletingBottle),
        run_next(terms, RunStage::DeletingBottle, RunEvent::Done) == (
            None::<RunStage>,
            RunAction::Finish,
        ),
{
}

/// What a failure leads to. One that cannot be helped ends the run. A cached authentication that
/// cannot be restored gives way to a login. One that is rejected is discarded, then a login follows,
/// and the delegate is asked for once more. Records that may come at a second attempt get one.
pub proof fn law_failures(terms: RunTerms, stage: RunStage)
    ensures
        !(stage is Restoring) && stage != (RunStage::FetchingDelegate { cached: true }) ==> run_next(
            terms,
            stage,
            RunEvent::Failed,
        ) == (None::<RunStage>, RunAction::GiveUp),
        run_next(terms, RunStage::Restoring, RunEvent::Failed) == (
            Some(RunStage::LoggingIn),
            RunAction::LogIn,
        ),
        run_next(terms, RunStage::FetchingDelegate { cached: true }, RunEvent::Failed) == (
            Some(RunStage::DiscardingAuth),
            RunAction::DiscardAuth,
        ),
        run_next(terms, RunStage::DiscardingAuth, RunEvent::Done) == (
            Some(RunStage::LoggingIn),
            RunAction::LogIn,
        ),
        run_next(terms, RunStage::FetchingRecords { again: false }, RunEvent::Stale) == (
            Some(RunStage::FetchingRecords { again: true }),
            RunAction::FetchRecords,
        ),
        run_next(terms, RunStage::FetchingRecords { again: true }, RunEvent::Stale) == (
            None::<RunStage>,
            RunAction::GiveUp,
        ),
{
}

/// A run is given up only after something went wrong: in no stage does an outcome that is good lead
/// to that.
pub proof fn law_success_is_never_given_up(terms: RunTerms, stage: RunStage, event: RunEvent)
    requires
        is_success(stage, event),
    ensures
        !(run_next(terms, stage, event).1 is GiveUp),
{
}

} // verus!
