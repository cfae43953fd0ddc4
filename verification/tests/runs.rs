use export_findmy::options::{CommandLine, Options, Place};
use export_findmy::run::{run_start, run_step, RunAction, RunEvent, RunStage, RunTerms};
use export_findmy::session::{choose_auth_cache, StateChoice, Stored};

/// The actions of a run on these events, up to its end.
fn actions(terms: RunTerms, choice: StateChoice, events: &[RunEvent]) -> Vec<RunAction> {
    let (first, action) = run_start(choice);
    let mut stage = Some(first);
    let mut all = vec![action];
    for event in events {
        if let Some(current) = stage {
            let (next, action) = run_step(terms, current, *event);
            stage = next;
            all.push(action);
        }
    }
    all
}

const EXPORT: RunTerms = RunTerms { delete_bottle: false, use_auth_cache: true };
const EXPORT_UNCACHED: RunTerms = RunTerms { delete_bottle: false, use_auth_cache: false };
const DELETE: RunTerms = RunTerms { delete_bottle: true, use_auth_cache: true };
const DELETE_UNCACHED: RunTerms = RunTerms { delete_bottle: true, use_auth_cache: false };

const JOINED: RunEvent = RunEvent::KeychainReady { restored: true, in_clique: true };
const LEFT: RunEvent = RunEvent::KeychainReady { restored: true, in_clique: false };
const NEW: RunEvent = RunEvent::KeychainReady { restored: false, in_clique: false };

const EVENTS: [RunEvent; 6] =
    [RunEvent::Done, RunEvent::Failed, RunEvent::Stale, JOINED, LEFT, NEW];

#[test]
fn a_fresh_export() {
    let done = RunEvent::Done;
    assert_eq!(
        actions(EXPORT, StateChoice::Fresh, &[done, done, done, NEW, done, done, done]),
        vec![
            RunAction::LogIn,
            RunAction::FetchDelegate,
            RunAction::SaveAuth,
            RunAction::SetUpKeychain,
            RunAction::JoinCircle { again: false },
            RunAction::FetchRecords,
            RunAction::WriteFiles,
            RunAction::Finish,
        ]
    );
}

#[test]
fn a_rejected_authentication_is_replaced() {
    let done = RunEvent::Done;
    let failed = RunEvent::Failed;
    assert_eq!(
        actions(
            EXPORT,
            StateChoice::Restore,
            &[done, failed, done, done, done, done, LEFT, done, RunEvent::Stale, done, done]
        ),
        vec![
            RunAction::RestoreAccount,
            RunAction::FetchDelegate,
            RunAction::DiscardAuth,
            RunAction::LogIn,
            RunAction::FetchDelegate,
            RunAction::SaveAuth,
            RunAction::SetUpKeychain,
            RunAction::JoinCircle { again: true },
            RunAction::FetchRecords,
            RunAction::FetchRecords,
            RunAction::WriteFiles,
            RunAction::Finish,
        ]
    );
    assert_eq!(
        actions(EXPORT, StateChoice::Fresh, &[done, failed]),
        vec![RunAction::LogIn, RunAction::FetchDelegate, RunAction::GiveUp]
    );
    assert_eq!(
        actions(EXPORT, StateChoice::Restore, &[failed, failed]),
        vec![RunAction::RestoreAccount, RunAction::LogIn, RunAction::GiveUp]
    );
}

#[test]
fn a_trusted_identity_joins_nothing() {
    let done = RunEvent::Done;
    assert_eq!(
        actions(EXPORT_UNCACHED, StateChoice::Fresh, &[done, done, JOINED]),
        vec![
            RunAction::LogIn,
            RunAction::FetchDelegate,
            RunAction::SetUpKeychain,
            RunAction::FetchRecords,
        ]
    );
}

#[test]
fn records_are_fetched_twice_at_most() {
    assert_eq!(
        run_step(EXPORT, RunStage::FetchingRecords { again: true }, RunEvent::Stale),
        (None, RunAction::GiveUp)
    );
}

#[test]
fn deletions_go_straight_to_the_bottle() {
    let done = RunEvent::Done;
    assert_eq!(
        actions(DELETE, StateChoice::Restore, &[done, done, done]),
        vec![
            RunAction::RestoreAccount,
            RunAction::SaveAuth,
            RunAction::DeleteBottle,
            RunAction::Finish,
        ]
    );
    assert_eq!(
        actions(DELETE_UNCACHED, StateChoice::Fresh, &[done, RunEvent::Failed]),
        vec![RunAction::LogIn, RunAction::DeleteBottle, RunAction::GiveUp]
    );
}

#[test]
fn every_course_of_six_events_keeps_to_the_rules() {
    let choices =
        [StateChoice::Restore, StateChoice::Foreign, StateChoice::Unreadable, StateChoice::Fresh];
    for terms in [EXPORT, EXPORT_UNCACHED, DELETE, DELETE_UNCACHED] {
        for choice in choices {
            if choice == StateChoice::Restore && !terms.use_auth_cache {
                continue;
            }
            for code in 0usize..46656 {
                let mut rest = code;
                let mut events = Vec::new();
                for _ in 0..6 {
                    events.push(EVENTS[rest % 6]);
                    rest /= 6;
                }
                let course = actions(terms, choice, &events);
                let logins = course.iter().filter(|a| **a == RunAction::LogIn).count();
                assert!(logins <= 1);
                for action in &course {
                    if terms.delete_bottle {
                        assert!(!matches!(
                            action,
                            RunAction::FetchDelegate
                                | RunAction::DiscardAuth
                                | RunAction::SetUpKeychain
                                | RunAction::JoinCircle { .. }
                                | RunAction::FetchRecords
                                | RunAction::WriteFiles
                        ));
                    } else {
                        assert_ne!(*action, RunAction::DeleteBottle);
                    }
                    if !terms.use_auth_cache {
                        assert!(!matches!(
                            action,
                            RunAction::RestoreAccount | RunAction::SaveAuth | RunAction::DiscardAuth
                        ));
                    }
                }
            }
        }
    }
}

#[test]
fn unused_caches_are_not_restored() {
    let stored = Stored::Of("me@example.com".to_string());
    let choice = choose_auth_cache(false, &stored, "me@example.com");
    assert_eq!(run_start(choice), (RunStage::LoggingIn, RunAction::LogIn));
    let choice = choose_auth_cache(true, &stored, "ME@example.com");
    assert_eq!(run_start(choice), (RunStage::Restoring, RunAction::RestoreAccount));
}

#[test]
fn everything_is_kept_beside_the_profile_unless_a_path_is_given() {
    let beside = |name: &str| Place::BesideProfile(name.to_string());
    let workspace = Options::default().workspace();
    assert_eq!(workspace.output_dir, beside("keys"));
    assert_eq!(workspace.auth_cache, beside("auth_cache.plist"));
    assert_eq!(workspace.keychain_state, beside("keychain_state.plist"));
    assert_eq!(workspace.keystore, beside("keystore.plist"));
    assert_eq!(workspace.anisette_state, beside("anisette_state"));

    let mut arguments = Vec::new();
    for argument in ["x", "--output-dir", "o", "--auth-cache", "a", "--keychain-state", "k"] {
        arguments.push(argument.to_string());
    }
    match Options::parse(&arguments) {
        CommandLine::Run(options) => {
            let workspace = options.workspace();
            assert_eq!(workspace.output_dir, Place::Given("o".to_string()));
            assert_eq!(workspace.auth_cache, Place::Given("a".to_string()));
            assert_eq!(workspace.keychain_state, Place::Given("k".to_string()));
        }
        _ => panic!("no run"),
    }
}
