use export_findmy::deletion::{
    deletion_start, deletion_step, deletion_terms, DeletionAction, DeletionEvent, DeletionStage, DeletionTerms,
};
use export_findmy::escrow::{
    bottle_plan, choose_or_first, confirm_empty_escrow_password, describe_device,
    escrow_client_metadata_string, escrow_device_description, generate_escrow_password,
    load_existing_escrow_password, load_or_configure_escrow_password, setup_step, BottlePlan,
    ChoiceFault, EscrowMetadata, SetupAction, SetupEvent, SetupStage,
};
use export_findmy::options::{CommandLine, Options};
use export_findmy::profile::{DeviceProfile, LoadedDeviceProfile, ProfileFault};
use export_findmy::session::{
    choose_auth_cache, load_keychain_state, login_action, login_reply, trust_plan, LoginAction,
    LoginReply, LoginStage, SecondFactor, StateChoice, Stored, TrustPlan,
};

fn line(text: &str) -> DeletionEvent<String> {
    DeletionEvent::Line(text.to_string())
}

fn terms(verify: bool, saved: Option<&str>) -> DeletionTerms {
    DeletionTerms {
        serials: vec!["SERIAL0".to_string(), "SERIAL1".to_string()],
        verify_password: verify,
        saved_password: saved.map(|s| s.to_string()),
    }
}

#[test]
fn deletion_takes_every_confirmation() {
    let terms = terms(true, Some("saved"));
    let stage = deletion_start(&terms).unwrap();
    let (stage, action) = deletion_step(&terms, stage, line(" 1\n"));
    assert_eq!(action, DeletionAction::AskPassword { index: 1 });
    let (stage, action) =
        deletion_step(&terms, stage.unwrap(), DeletionEvent::Password(String::new()));
    assert_eq!(action, DeletionAction::Recover { index: 1, password: "saved".to_string() });
    let (stage, action) = deletion_step(&terms, stage.unwrap(), DeletionEvent::Recovered);
    assert_eq!(action, DeletionAction::AskConfirmation { index: 1 });
    let (stage, action) = deletion_step(&terms, stage.unwrap(), line("DELETE 1\n"));
    assert_eq!(action, DeletionAction::AskSerial { index: 1 });
    let (stage, action) = deletion_step(&terms, stage.unwrap(), line("SERIAL1\n"));
    assert_eq!(action, DeletionAction::Delete { index: 1 });
    assert_eq!(stage, None);
}

#[test]
fn deletion_without_password_goes_straight_to_the_confirmation() {
    let terms = terms(false, None);
    let (stage, action) = deletion_step(&terms, DeletionStage::Selecting, line("0"));
    assert_eq!(stage, Some(DeletionStage::Confirming { index: 0 }));
    assert_eq!(action, DeletionAction::AskConfirmation { index: 0 });
}

#[test]
fn deletion_is_cancelled_by_anything_else() {
    let terms = terms(true, None);
    assert_eq!(
        deletion_step(&terms, DeletionStage::Selecting, line("\n")),
        (None, DeletionAction::Cancel)
    );
    for words in ["DELETE 0", "delete 1", "DELETE  1", "DELETE 01", "1", ""] {
        assert_eq!(
            deletion_step(&terms, DeletionStage::Confirming { index: 1 }, line(words)),
            (None, DeletionAction::Cancel)
        );
    }
    for serial in ["SERIAL0", "serial1", ""] {
        assert_eq!(
            deletion_step(&terms, DeletionStage::Identifying { index: 1 }, line(serial)),
            (None, DeletionAction::Cancel)
        );
    }
}

#[test]
fn deletion_refuses_bad_choices_and_locked_bottles() {
    let terms = terms(true, None);
    let (stage, action) = deletion_step(&terms, DeletionStage::Selecting, line("two"));
    assert_eq!(stage, None);
    match action {
        DeletionAction::BadChoice(fault) => {
            assert_eq!(fault, ChoiceFault::NotANumber("two".to_string()));
            assert_eq!(fault.message("bottle"), "Invalid bottle index: two");
        }
        _ => panic!("not a bad choice"),
    }
    let (_, action) = deletion_step(&terms, DeletionStage::Selecting, line("2"));
    match action {
        DeletionAction::BadChoice(fault) => {
            assert_eq!(fault.message("bottle"), "Invalid bottle index 2. Must be 0-1.");
        }
        _ => panic!("not a bad choice"),
    }
    let refused = DeletionEvent::Refused("wrong".to_string());
    assert_eq!(
        deletion_step(&terms, DeletionStage::Recovering { index: 0 }, refused),
        (None, DeletionAction::Locked("wrong".to_string()))
    );
}

#[test]
fn entered_passwords_win_over_saved_ones() {
    let entered = DeletionEvent::Password("mine".to_string());
    let (_, action) =
        deletion_step(&terms(true, Some("saved")), DeletionStage::Unlocking { index: 0 }, entered);
    assert_eq!(action, DeletionAction::Recover { index: 0, password: "mine".to_string() });
    let nothing = DeletionEvent::Password(String::new());
    let (_, action) =
        deletion_step(&terms(true, None), DeletionStage::Unlocking { index: 0 }, nothing);
    assert_eq!(action, DeletionAction::Recover { index: 0, password: String::new() });
}

#[test]
fn nothing_starts_without_bottles() {
    let terms = DeletionTerms { serials: vec![], verify_password: true, saved_password: None };
    assert_eq!(deletion_start(&terms), None);
}

fn said(text: &str) -> SetupEvent<String> {
    SetupEvent::Line(text.to_string())
}

fn entered(password: &str, confirmation: &str) -> SetupEvent<String> {
    SetupEvent::Entry { password: password.to_string(), confirmation: confirmation.to_string() }
}

#[test]
fn setup_choices() {
    for choice in ["", "\n", "1", " 1 "] {
        assert_eq!(setup_step(SetupStage::Choosing, said(choice)), (None, SetupAction::Generate));
    }
    assert_eq!(
        setup_step(SetupStage::Choosing, said("2\n")),
        (Some(SetupStage::Entering), SetupAction::AskEntry)
    );
    assert_eq!(
        setup_step(SetupStage::Choosing, said(" 3\n")),
        (None, SetupAction::Fail(ProfileFault::BadChoice("3".to_string())))
    );
}

#[test]
fn setup_entries_must_match_and_empty_ones_need_consent() {
    assert_eq!(
        setup_step(SetupStage::Entering, entered("a", "b")),
        (Some(SetupStage::Entering), SetupAction::AskEntryAgain)
    );
    assert_eq!(
        setup_step(SetupStage::Entering, entered("a", "a")),
        (None, SetupAction::Save("a".to_string()))
    );
    assert_eq!(
        setup_step(SetupStage::Entering, entered("", "")),
        (Some(SetupStage::Consenting), SetupAction::AskConsent)
    );
    assert_eq!(
        setup_step(SetupStage::Consenting, said("Yes\n")),
        (None, SetupAction::Save(String::new()))
    );
    assert_eq!(
        setup_step(SetupStage::Consenting, said("no")),
        (Some(SetupStage::Entering), SetupAction::AskEntry)
    );
}

#[test]
fn consent_is_y_or_yes() {
    for yes in ["y", "Y", "yes", " YES \n"] {
        assert!(confirm_empty_escrow_password(yes));
    }
    for no in ["", "n", "yess", "ye", "ja"] {
        assert!(!confirm_empty_escrow_password(no));
    }
}

#[test]
fn generated_passwords_are_sixteen_letters_and_digits() {
    let first = generate_escrow_password();
    assert_eq!(first.len(), 16);
    assert!(first.chars().all(|c| c.is_ascii_alphanumeric()));
    assert_ne!(first, generate_escrow_password());
}

const PROFILE: &str = "
[device]
name = 'n'
serial = 's'
device_uuid = '9240D5F0-5A1D-44D7-95CE-CA9D0ED90E9A'
udid = '0123456789ABCDEF0123456789ABCDEF'
[software]
model = 'm'
model_class = 'c'
os_version = 'o'
build = 'b'
cfnetwork_version = 'f'
darwin_version = 'd'
[escrow]
password = 'profile'
configured = CONFIGURED
";

fn profile(configured: bool) -> LoadedDeviceProfile {
    let source = PROFILE.replace("CONFIGURED", if configured { "true" } else { "false" });
    DeviceProfile::load(&source, None).unwrap().loaded
}

#[test]
fn environment_wins_over_the_profile() {
    let given = Some("environment".to_string());
    assert_eq!(load_existing_escrow_password(given.clone(), &profile(true)), given);
    assert_eq!(load_existing_escrow_password(None, &profile(true)), Some("profile".to_string()));
    assert_eq!(load_existing_escrow_password(None, &profile(false)), None);
}

#[test]
fn unknown_passwords_are_set_up_or_a_fault() {
    assert_eq!(
        load_or_configure_escrow_password(None, &profile(true), false),
        Ok(Some("profile".to_string()))
    );
    assert_eq!(load_or_configure_escrow_password(None, &profile(false), true), Ok(None));
    assert_eq!(
        load_or_configure_escrow_password(None, &profile(false), false),
        Err(ProfileFault::SetupUnavailable)
    );
}

fn metadata(entries: &[(&str, &str)]) -> EscrowMetadata {
    let mut dictionary = plist::Dictionary::new();
    for (key, value) in entries {
        dictionary.insert(key.to_string(), plist::Value::String(value.to_string()));
    }
    EscrowMetadata {
        serial: "L2MPKH342P".to_string(),
        build: "21E219".to_string(),
        timestamp: "2024-03-20 12:34:56".to_string(),
        client_metadata: plist::Value::Dictionary(dictionary),
    }
}

#[test]
fn devices_are_described_by_what_is_known() {
    assert_eq!(
        escrow_device_description(&metadata(&[
            ("device_name", "Wilbur's iPhone"),
            ("device_model_class", "iPhone"),
            ("device_model", "iPhone 14 Pro"),
        ])),
        "Wilbur's iPhone (iPhone, iPhone 14 Pro)"
    );
    assert_eq!(escrow_device_description(&metadata(&[("device_name", "n")])), "n");
    assert_eq!(
        escrow_device_description(&metadata(&[("device_name", "n"), ("device_model", "m")])),
        "n (m)"
    );
    assert_eq!(
        escrow_device_description(&metadata(&[("device_model_class", "c"), ("device_model", "m")])),
        "c, m"
    );
    assert_eq!(escrow_device_description(&metadata(&[])), "unknown device");
    assert_eq!(describe_device(None, Some("c"), None), "c");
}

#[test]
fn metadata_texts_come_only_from_dictionaries() {
    let text = plist::Value::String("x".to_string());
    assert_eq!(escrow_client_metadata_string(&text, "x"), None);
    let mut dictionary = plist::Dictionary::new();
    dictionary.insert("flag".to_string(), plist::Value::Boolean(true));
    dictionary.insert("text".to_string(), text);
    let value = plist::Value::Dictionary(dictionary);
    assert_eq!(escrow_client_metadata_string(&value, "flag"), None);
    assert_eq!(escrow_client_metadata_string(&value, "text"), Some("x"));
    assert_eq!(escrow_client_metadata_string(&value, "other"), None);
}

#[test]
fn choices_default_to_the_first() {
    assert_eq!(choose_or_first("\n", 2), Ok(0));
    assert_eq!(choose_or_first("x", 2), Ok(0));
    assert_eq!(choose_or_first(" 1 ", 2), Ok(1));
    assert_eq!(choose_or_first("2", 2), Err(ChoiceFault::OutOfRange { index: 2, count: 2 }));
    assert_eq!(bottle_plan(0), BottlePlan::GiveUp);
    assert_eq!(bottle_plan(1), BottlePlan::TakeFirst);
    assert_eq!(bottle_plan(2), BottlePlan::Ask);
}

fn arguments(list: &[&str]) -> CommandLine<Options, String> {
    let mut all = vec!["export-findmy".to_string()];
    for item in list {
        all.push(item.to_string());
    }
    Options::parse(&all)
}

#[test]
fn command_line_defaults() {
    match arguments(&[]) {
        CommandLine::Run(options) => {
            assert_eq!(options, Options::default());
            assert_eq!(options.apple_id, "");
            assert_eq!(options.anisette_url, "https://ani.sidestore.io");
            assert_eq!(options.device_profile_path, ".local/device-profile.toml");
            assert_eq!(options.output_dir, None);
            assert!(options.use_auth_cache);
            assert!(!options.delete_own_escrow_bottle);
        }
        _ => panic!("no run"),
    }
}

#[test]
fn command_line_flags() {
    match arguments(&[
        "--apple-id", "a@b", "--anisette-url", "u", "--device-profile", "p", "--output-dir", "o",
        "--auth-cache", "c", "--no-auth-cache", "--clear-auth-cache", "--keychain-state", "k",
        "--clear-keychain-state", "--delete-own-escrow-bottle",
    ]) {
        CommandLine::Run(options) => {
            assert_eq!(options.apple_id, "a@b");
            assert_eq!(options.anisette_url, "u");
            assert_eq!(options.device_profile_path, "p");
            assert_eq!(options.output_dir, Some("o".to_string()));
            assert_eq!(options.auth_cache_path, Some("c".to_string()));
            assert!(!options.use_auth_cache);
            assert!(options.clear_auth_cache);
            assert_eq!(options.keychain_state_path, Some("k".to_string()));
            assert!(options.clear_keychain_state);
            assert!(options.delete_own_escrow_bottle);
            assert!(!options.skip_escrow_bottle_password);
        }
        _ => panic!("no run"),
    }
    match arguments(&["--delete-own-escrow-bottle-without-password", "--apple-id", "x", "--apple-id", "--help"]) {
        CommandLine::Run(options) => {
            assert!(options.delete_own_escrow_bottle);
            assert!(options.skip_escrow_bottle_password);
            assert_eq!(options.apple_id, "--help");
        }
        _ => panic!("no run"),
    }
}

#[test]
fn command_line_stops() {
    assert_eq!(arguments(&["-h", "--bogus"]), CommandLine::Help);
    assert_eq!(arguments(&["--help"]), CommandLine::Help);
    assert_eq!(arguments(&["--bogus", "-h"]), CommandLine::Unknown("--bogus".to_string()));
    assert_eq!(
        arguments(&["--no-auth-cache", "--apple-id"]),
        CommandLine::MissingValue("--apple-id".to_string())
    );
}

#[test]
fn stored_state_serves_only_its_account() {
    let of = |name: &str| Stored::Of(name.to_string());
    assert_eq!(load_keychain_state(&of("123"), "123"), StateChoice::Restore);
    assert_eq!(load_keychain_state(&of("123"), "124"), StateChoice::Foreign);
    assert_eq!(load_keychain_state(&Stored::Unreadable, "1"), StateChoice::Unreadable);
    assert_eq!(load_keychain_state(&Stored::Absent, "1"), StateChoice::Fresh);
    assert_eq!(choose_auth_cache(true, &of("Me@X.org"), "me@x.ORG"), StateChoice::Restore);
    assert_eq!(choose_auth_cache(true, &of("me@x.org"), "you@x.org"), StateChoice::Foreign);
    assert_eq!(choose_auth_cache(true, &Stored::Unreadable, "m"), StateChoice::Unreadable);
    assert_eq!(choose_auth_cache(true, &Stored::Absent, "m"), StateChoice::Fresh);
    assert_eq!(choose_auth_cache(false, &of("m"), "m"), StateChoice::Fresh);
}

#[test]
fn trust_plans() {
    assert_eq!(trust_plan(true, true), TrustPlan::Reuse);
    assert_eq!(trust_plan(true, false), TrustPlan::Rejoin);
    assert_eq!(trust_plan(false, false), TrustPlan::Join);
}

#[test]
fn login_asks_for_what_is_missing() {
    assert_eq!(login_action(&LoginStage::Complete), LoginAction::Finish);
    assert_eq!(login_action(&LoginStage::EnterCode), LoginAction::AskCode);
    let methods = LoginStage::ChooseSecondFactor(vec![
        SecondFactor::TrustedDevice,
        SecondFactor::Sms { display_number: "•• 12".to_string() },
    ]);
    assert_eq!(
        login_action(&methods),
        LoginAction::AskMethod(vec!["  0 - Trusted Device".to_string(), "  1 - SMS (•• 12)".to_string()])
    );
    assert_eq!(login_reply(&methods, "\n"), Ok(LoginReply::UseMethod(0)));
    assert_eq!(login_reply(&methods, "1\n"), Ok(LoginReply::UseMethod(1)));
    assert_eq!(
        login_reply(&methods, "5").unwrap_err().message("method"),
        "Invalid method index 5. Must be 0-1."
    );
    assert_eq!(
        login_reply(&LoginStage::EnterCode, " 123456\n"),
        Ok(LoginReply::SubmitCode("123456".to_string()))
    );
}

#[test]
fn skipping_the_password_offers_none() {
    let serials = vec!["S".to_string()];
    let given = Some("given".to_string());
    let terms = deletion_terms(serials.clone(), true, given.clone(), &profile(true));
    assert_eq!(terms.serials, serials);
    assert!(!terms.verify_password);
    assert_eq!(terms.saved_password, None);
    let terms = deletion_terms(serials.clone(), false, given.clone(), &profile(true));
    assert!(terms.verify_password);
    assert_eq!(terms.saved_password, given);
    let terms = deletion_terms(serials, false, None, &profile(true));
    assert_eq!(terms.saved_password, Some("profile".to_string()));
}
