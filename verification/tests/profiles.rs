use export_findmy::profile::{
    admit_profile, ensure_private_profile_permissions, is_template_name, refuse_template,
    DeviceProfile, ProfileError, ProfileFault, ProfileLoad,
};

/// Reads a profile from a file that only its owner may access.
fn load(source: &str) -> Result<ProfileLoad, ProfileError> {
    DeviceProfile::load(source, Some(0o100600))
}

const FRESH: &str = r#"
[device]
name = "FindMy Export"
serial = "F2LZN0FAKE00"
device_uuid = ""
udid = ""

[software]
model = "iPhone15,2"
model_class = "iMac"
os_version = "17.4"
build = "21E219"
cfnetwork_version = "1494.0.7"
darwin_version = "23.4.0"

[escrow]
password = ""
configured = false
"#;

const SETTLED: &str = r#"
[device]
name = "FindMy Export"
serial = "F2LZN0FAKE00"
device_uuid = "9240D5F0-5A1D-44D7-95CE-CA9D0ED90E9A"
udid = "0123456789ABCDEF0123456789ABCDEF"

[software]
model = "iPhone15,2"
model_class = "iMac"
os_version = "17.4"
build = "21E219"
cfnetwork_version = "1494.0.7"
darwin_version = "23.4.0"

[escrow]
password = ""
configured = false
"#;

#[test]
fn device_profile_generates_and_persists_stable_identifiers() {
    let first = load(FRESH).unwrap();
    let kept = first.rewritten.unwrap();
    let second = load(&kept).unwrap();

    assert_eq!(first.loaded.profile, second.loaded.profile);
    assert_eq!(first.loaded.profile.model_class, "iMac");
    assert_eq!(first.loaded.profile.udid.len(), 32);
    assert!(first
        .loaded
        .profile
        .udid
        .chars()
        .all(|character| character.is_ascii_hexdigit()));
    assert_eq!(first.loaded.escrow_password, None);
    assert_eq!(second.rewritten, None);
}

#[test]
fn device_profile_persists_even_an_empty_escrow_password() {
    let mut profile = load(SETTLED).unwrap().loaded;
    let kept = profile.save_escrow_password("");
    assert_eq!(profile.escrow_password, None);
    profile.escrow_password_saved("");
    assert_eq!(profile.escrow_password, Some(String::new()));
    let reloaded = load(&kept).unwrap();

    assert_eq!(reloaded.loaded.escrow_password, Some(String::new()));
    assert!(reloaded.holds_password);
    assert_eq!(reloaded.rewritten, None);
}

#[test]
fn device_profile_template_cannot_be_used_directly() {
    let error = refuse_template(Some("device-profile.template.toml")).unwrap_err();

    assert!(error.message("/tmp/device-profile.template.toml").contains("is a template"));
    assert!(is_template_name(".template.toml"));
    assert!(refuse_template(Some("device-profile.toml")).is_ok());
    assert!(refuse_template(None).is_ok());
}

#[test]
fn fresh_identifiers_are_upper_case_and_differ_from_run_to_run() {
    let first = load(FRESH).unwrap().loaded.profile;
    let second = load(FRESH).unwrap().loaded.profile;
    assert_ne!(first.device_uuid, second.device_uuid);
    assert_ne!(first.udid, second.udid);
    assert_eq!(first.device_uuid.to_uppercase(), first.device_uuid);
    assert_eq!(first.device_uuid.len(), 36);
    assert_eq!(first.device_uuid.as_bytes()[14], b'4');
    assert_eq!(first.udid.to_uppercase(), first.udid);
}

#[test]
fn given_identifiers_fill_empty_fields() {
    let load = DeviceProfile::load_with(FRESH, "9240d5f0-5a1d-44d7-95ce-ca9d0ed90e9a", 0xab).unwrap();
    assert_eq!(load.loaded.profile.device_uuid, "9240D5F0-5A1D-44D7-95CE-CA9D0ED90E9A");
    assert_eq!(load.loaded.profile.udid, "000000000000000000000000000000AB");
    assert!(!load.holds_password);
    let kept = load.rewritten.unwrap();
    assert!(kept.contains("device_uuid = \"9240D5F0-5A1D-44D7-95CE-CA9D0ED90E9A\""));
    assert!(kept.contains("udid = \"000000000000000000000000000000AB\""));
}

#[test]
fn settled_profiles_keep_their_identifiers_and_are_not_rewritten() {
    let load = load(SETTLED).unwrap();
    assert_eq!(load.rewritten, None);
    let profile = load.loaded.profile;
    assert_eq!(profile.name, "FindMy Export");
    assert_eq!(profile.serial, "F2LZN0FAKE00");
    assert_eq!(profile.model, "iPhone15,2");
    assert_eq!(profile.device_uuid, "9240D5F0-5A1D-44D7-95CE-CA9D0ED90E9A");
    assert_eq!(profile.udid, "0123456789ABCDEF0123456789ABCDEF");
    assert_eq!(profile.os_version, "17.4");
    assert_eq!(profile.build, "21E219");
    assert_eq!(profile.cfnetwork_version, "1494.0.7");
    assert_eq!(profile.darwin_version, "23.4.0");
}

#[test]
fn saved_passwords_read_back_whatever_they_hold() {
    for password in [
        "plain",
        "with \"quotes\" and 'apostrophes'",
        "back\\slash",
        "back\\slash and 'apostrophe' inside",
        "ends with backslash\\ and apostrophe'",
        "''\\''",
        "'''\\'''",
        "two\nlines",
        "two\r\nlines",
        "\nstarts with a line break and \\",
        "tab\tand\u{0}nul\u{7f}delete\u{1b}escape\u{8}\u{c}",
        "line\n'''\\",
        "\"\"\"",
        "\u{85}\u{feff}ünï→🔑",
        "  spaces  ",
        "# no comment",
        "[section]",
    ] {
        for source in [
            SETTLED.to_string(),
            SETTLED.replace('\n', "\r\n"),
            "device = { name = \"n\", serial = \"s\", device_uuid = \"9240D5F05A1D44D795CECA9D0ED90E9A\", udid = \"0123456789ABCDEF0123456789ABCDEF\" }\nescrow = { configured = false, password = 'x' }\nsoftware.model = 'm'\nsoftware.model_class = 'c'\nsoftware.os_version = 'o'\nsoftware.build = 'b'\nsoftware.cfnetwork_version = 'f'\nsoftware.darwin_version = 'd'\n".to_string(),
            "escrow.password = ''\nescrow.configured = true # comment\n[software.extra]\n[software]\nmodel = 'm'\nmodel_class = 'c'\nos_version = 'o'\nbuild = 'b'\ncfnetwork_version = 'f'\ndarwin_version = \"\"\"\nd\r\nd\"\"\"\n[device]\nname = 'n'\nserial='s'\ndevice_uuid = '{9240D5F0-5A1D-44D7-95CE-CA9D0ED90E9A}'\nudid = '0123456789abcdef0123456789abcdef'\n".to_string(),
        ] {
            let mut loaded = load(&source).unwrap().loaded;
            let kept = loaded.save_escrow_password(password);
            let again = load(&kept).unwrap();
            assert_eq!(again.loaded.escrow_password.as_deref(), Some(password));
            assert_eq!(again.loaded.profile, loaded.profile);
            assert!(again.holds_password);
        }
    }
}

#[test]
fn rewriting_keeps_comments() {
    let source = FRESH.replace("[device]", "# my device\n[device]");
    let kept = load(&source).unwrap().rewritten.unwrap();
    assert!(kept.contains("# my device\n[device]"));
}

#[test]
fn device_uuid_may_be_written_in_four_ways() {
    for (uuid, valid) in [
        ("9240D5F0-5A1D-44D7-95CE-CA9D0ED90E9A", true),
        ("9240d5f05a1d44d795ceca9d0ed90e9a", true),
        ("{9240D5F0-5A1D-44D7-95CE-CA9D0ED90E9A}", true),
        ("urn:uuid:9240D5F0-5A1D-44D7-95CE-CA9D0ED90E9A", true),
        ("URN:UUID:9240D5F0-5A1D-44D7-95CE-CA9D0ED90E9A", true),
        ("{9240d5f05a1d44d795ceca9d0ed90e9a}", false),
        ("9240D5F0-5A1D-44D7-95CE-CA9D0ED90E9", false),
        ("9240D5F0-5A1D-44D7-95CECA9D0ED90E9AAA", false),
        ("9240D5F0-5A1D-44D7-95CE-CA9D0ED90E9G", false),
        ("é240d5f05a1d44d795ceca9d0ed90e9", false),
        ("x", false),
    ] {
        let source = SETTLED.replace("9240D5F0-5A1D-44D7-95CE-CA9D0ED90E9A", uuid);
        match load(&source) {
            Ok(load) => {
                assert!(valid);
                assert_eq!(load.loaded.profile.device_uuid, uuid);
            }
            Err(error) => {
                assert!(!valid);
                assert_eq!(error, ProfileFault::BadDeviceUuid);
                assert_eq!(error.message("p"), "device_uuid must be a valid UUID");
            }
        }
    }
}

#[test]
fn udid_must_be_thirty_two_hexadecimal_digits() {
    for udid in ["0123", "0123456789ABCDEF0123456789ABCDEG", "0123456789ABCDEF0123456789ABCDEF0", "é123456789ABCDEF0123456789ABCDE"] {
        let source = SETTLED.replace("0123456789ABCDEF0123456789ABCDEF", udid);
        let error = load(&source).unwrap_err();
        assert_eq!(error, ProfileFault::BadUdid);
        assert_eq!(error.message("p"), "udid must contain exactly 32 hexadecimal characters");
    }
}

#[test]
fn missing_and_empty_fields_are_named() {
    for (section, key) in [
        ("device", "name"),
        ("device", "serial"),
        ("software", "model"),
        ("software", "model_class"),
        ("software", "os_version"),
        ("software", "build"),
        ("software", "cfnetwork_version"),
        ("software", "darwin_version"),
    ] {
        let line = SETTLED.lines().find(|line| line.starts_with(&format!("{} =", key))).unwrap();
        let empty = SETTLED.replace(line, &format!("{} = \"\"", key));
        assert_eq!(
            load(&empty).unwrap_err().message("p"),
            format!("device profile field `{}.{}` cannot be empty", section, key)
        );
        let number = SETTLED.replace(line, &format!("{} = 7", key));
        assert_eq!(
            load(&number).unwrap_err().message("p"),
            format!("device profile field `{}.{}` must be a string", section, key)
        );
        let missing = SETTLED.replace(line, "");
        assert_eq!(
            load(&missing).unwrap_err(),
            ProfileFault::NotText { section: section.to_string(), key: key.to_string() }
        );
    }
}

#[test]
fn escrow_fields_must_be_there() {
    let error = load(&SETTLED.replace("configured = false", "configured = \"no\"")).unwrap_err();
    assert_eq!(error.message("p"), "device profile field `escrow.configured` must be a boolean");
    let error = load(&SETTLED.replace("password = \"\"", "")).unwrap_err();
    assert_eq!(error.message("p"), "device profile field `escrow.password` must be a string");
    let error = load(&SETTLED.replace("[escrow]", "[other]")).unwrap_err();
    assert_eq!(error.message("p"), "device profile field `escrow.password` must be a string");
    let error = load(&SETTLED.replace("device_uuid", "uuid")).unwrap_err();
    assert_eq!(error.message("p"), "device profile field `device.device_uuid` must be a string");
    let error = load(&SETTLED.replace("\nudid", "\nid")).unwrap_err();
    assert_eq!(error.message("p"), "device profile field `device.udid` must be a string");
}

#[test]
fn first_fault_in_order_is_the_one_reported() {
    let error = load(&SETTLED.replace("0123456789ABCDEF0123456789ABCDEF", "x").replace("FindMy Export", "")).unwrap_err();
    assert_eq!(error, ProfileFault::BadUdid);
    let error = load("").unwrap_err();
    assert_eq!(
        error,
        ProfileFault::NotText { section: "device".to_string(), key: "device_uuid".to_string() }
    );
}

#[test]
fn profiles_that_are_not_toml_are_refused() {
    let error = load("[device").unwrap_err();
    let message = error.message("here.toml");
    assert!(matches!(error, ProfileFault::Syntax(_)));
    assert!(message.starts_with("Invalid device profile here.toml: TOML parse error"));
}

#[test]
fn messages_name_the_path() {
    assert_eq!(
        ProfileFault::Unreadable("gone".to_string()).message("a/b"),
        "Could not read device profile a/b: gone. Copy device-profile.template.toml to a private path and pass it with --device-profile."
    );
    assert_eq!(
        ProfileFault::<String>::Exposed.message("a/b"),
        "Device profile a/b contains the escrow password and must not be accessible by group or other users; run chmod 600 'a/b'"
    );
    assert_eq!(
        ProfileFault::<String>::Template.message("a/b"),
        "a/b is a template. Copy it to a private path such as .local/device-profile.toml and use that copy."
    );
    assert_eq!(
        ProfileFault::<String>::SetupUnavailable.message("a/b"),
        "No escrow password exists in a/b and interactive setup is unavailable"
    );
    assert_eq!(
        ProfileFault::BadChoice("7".to_string()).message("a/b"),
        "Invalid escrow password choice: 7"
    );
}

#[test]
fn only_owner_modes_are_private() {
    for mode in [0o100600u32, 0o100400, 0o600, 0o700, 0] {
        assert!(ensure_private_profile_permissions(mode).is_ok());
    }
    for mode in [0o100644u32, 0o640, 0o604, 0o601, 0o610, 0o777] {
        assert_eq!(ensure_private_profile_permissions(mode), Err(ProfileFault::Exposed));
    }
}

#[test]
fn devices_describe_themselves() {
    let profile = load(SETTLED).unwrap().loaded.profile;
    assert_eq!(profile.get_activation_device(), "iPhone");
    assert_eq!(profile.get_model_class(), "iMac");
    assert_eq!(profile.get_protocol_version(), 1640);
    let meta = profile.get_register_meta();
    assert_eq!(meta.hardware_version, "iPhone15,2");
    assert_eq!(meta.os_version, "iPhone OS,17.4,21E219");
    assert_eq!(meta.software_version, "21E219");
    assert_eq!(profile.get_normal_ua("item/1"), "item/1 CFNetwork/1494.0.7 Darwin/23.4.0");
    assert_eq!(
        profile.get_mme_clientinfo("com.apple.x/1"),
        "<iPhone15,2> <iPhone OS;17.4;21E219> <com.apple.x/1>"
    );
    assert_eq!(profile.get_version_ua(), "[iPhone OS,17.4,21E219,iPhone15,2]");
    assert_eq!(profile.get_device_name(), "FindMy Export");
    assert_eq!(profile.get_device_uuid(), "9240D5F0-5A1D-44D7-95CE-CA9D0ED90E9A");
    let meta = profile.get_debug_meta();
    assert_eq!(meta.user_version, "17.4");
    assert_eq!(meta.hardware_version, "iPhone15,2");
    assert_eq!(meta.serial_number, "F2LZN0FAKE00");
    assert_eq!(profile.get_login_url(), "https://setup.icloud.com/setup/iosbuddy/loginDelegates");
    assert_eq!(profile.get_serial_number(), "F2LZN0FAKE00");
    assert_eq!(profile.get_aoskit_version(), "com.apple.AuthKit/1 (com.apple.akd/1.0)");
    assert_eq!(profile.get_udid(), "0123456789ABCDEF0123456789ABCDEF");
}

#[test]
fn short_passwords_of_awkward_characters_read_back() {
    let alphabet = ['\'', '"', '\\', '\n', '\r', '\t', '\0', ' ', 'a', '#', 'é', '\u{7f}'];
    let source = SETTLED.replace("[escrow]", "[escrow]\n# kept");
    let mut loaded = load(&source).unwrap().loaded;
    for code in 0usize..12 * 12 * 12 * 12 {
        let mut rest = code;
        let mut password = String::new();
        for _ in 0..4 {
            password.push(alphabet[rest % 12]);
            rest /= 12;
        }
        let kept = loaded.save_escrow_password(&password);
        let again = load(&kept).unwrap();
        assert_eq!(again.loaded.escrow_password.as_deref(), Some(password.as_str()));
        assert_eq!(again.loaded.profile, loaded.profile);
    }
}

const ODD: &str = r#"title = "t"
[[list]]
a = 1
[list.sub]
b = [ 1, # one
 2 ]
[[list]]
[escrow] # comment
extra.more = 1
password = "" # trailing
configured = true
[escrow.extra.deep]
z = 1979-05-27T07:32:00Z
[software]
'model' = 'm'
"model_class" = 'c'
os_version = 'o'
  build = 'b'
cfnetwork_version = '''f'''
darwin_version = 'd'
other = { x.y = 1, z = [ { w = true } ] }
[device]
name = "é\t"
serial='s'
device_uuid = '9240d5f05a1d44d795ceca9d0ed90e9a'
udid = ''
[device."odd key"]
q = 1
# end"#;

#[test]
fn oddly_laid_out_profiles_read_back() {
    let first = load(ODD).unwrap();
    let kept = first.rewritten.unwrap();
    let mut second = load(&kept).unwrap();
    assert_eq!(second.loaded.profile, first.loaded.profile);
    assert_eq!(second.loaded.profile.name, "é\t");
    assert_eq!(second.loaded.escrow_password, Some(String::new()));
    assert_eq!(second.rewritten, None);
    let saved = second.loaded.save_escrow_password("a'\"\\\n");
    let third = load(&saved).unwrap();
    assert_eq!(third.loaded.profile, first.loaded.profile);
    assert_eq!(third.loaded.escrow_password, Some("a'\"\\\n".to_string()));
    assert!(saved.contains("q = 1\n# end"));
}

#[test]
fn exposed_profiles_with_a_password_are_refused() {
    for source in [SETTLED, FRESH] {
        let configured = source.replace("configured = false", "configured = true");
        for mode in [0o100644u32, 0o100640, 0o100604, 0o100601] {
            let error = DeviceProfile::load(&configured, Some(mode)).unwrap_err();
            assert_eq!(error, ProfileFault::Exposed);
            assert!(DeviceProfile::load(source, Some(mode)).is_ok());
            let held = load(&configured).unwrap();
            assert_eq!(admit_profile(&held, mode), Err(ProfileFault::Exposed));
            assert_eq!(admit_profile(&load(source).unwrap(), mode), Ok(()));
        }
        assert!(DeviceProfile::load(&configured, Some(0o100600)).is_ok());
        assert!(DeviceProfile::load(&configured, None).is_ok());
    }
}

#[test]
fn other_faults_come_before_an_exposed_mode() {
    let source = SETTLED.replace("configured = false", "configured = true").replace("17.4", "");
    assert_eq!(
        DeviceProfile::load(&source, Some(0o100644)).unwrap_err(),
        ProfileFault::Blank { section: "software".to_string(), key: "os_version".to_string() }
    );
}

/// The entries of a table, in words, each behind its path, but for these two keys.
fn entries(path: &str, table: &dyn toml_edit::TableLike, left_out: &[&str], all: &mut Vec<String>) {
    for (key, item) in table.iter() {
        let place = format!("{}.{}", path, key);
        if !left_out.contains(&place.as_str()) {
            entry(&place, item, left_out, all);
        }
    }
}

fn entry(place: &str, item: &toml_edit::Item, left_out: &[&str], all: &mut Vec<String>) {
    if let Some(table) = item.as_table_like() {
        all.push(format!("{} table", place));
        entries(place, table, left_out, all);
    } else if let Some(tables) = item.as_array_of_tables() {
        for (i, table) in tables.iter().enumerate() {
            entries(&format!("{}[{}]", place, i), table, left_out, all);
        }
    } else if let Some(array) = item.as_array() {
        for (i, value) in array.iter().enumerate() {
            let inner = toml_edit::Item::Value(value.clone());
            entry(&format!("{}[{}]", place, i), &inner, left_out, all);
        }
    } else if let Some(text) = item.as_str() {
        all.push(format!("{} text {:?}", place, text));
    } else if let Some(flag) = item.as_bool() {
        all.push(format!("{} flag {}", place, flag));
    } else if let Some(number) = item.as_integer() {
        all.push(format!("{} integer {}", place, number));
    } else if let Some(number) = item.as_float() {
        all.push(format!("{} fractional {}", place, number.to_bits()));
    } else if let Some(date) = item.as_datetime() {
        all.push(format!("{} date {}", place, date));
    } else {
        panic!("an entry of no type");
    }
}

fn all_entries(source: &str, left_out: &[&str]) -> Vec<String> {
    let document = source.parse::<toml_edit::Document>().unwrap();
    let mut all = Vec::new();
    entries("", document.as_table(), left_out, &mut all);
    all.sort();
    all
}

const EMPTY_IDENTIFIERS: [&str; 2] = [".device.device_uuid", ".device.udid"];
const ESCROW: [&str; 2] = [".escrow.password", ".escrow.configured"];

/// Extra entries of every type, in layouts that the writer has to put in order.
const EXTRAS: [&str; 6] = [
    "",
    "x = [1, -2.5e3, nan, [ 'a', { b = 1979-05-27 } ], # note\n]\n",
    "d.a = 1\nother = 0x1F\n# lost or not\nd.b = 07:32:00\n[d.c]\ne = inf\n",
    "[[list]]\na = 1\n[list.sub]\nb = 2\n[[list]]\n[[list.deep]]\nz = 1_000\n",
    "[p.q.r]\ns = true\n[p]\nq.w.k = 1\n[v]\n[p.t]\n",
    "i = { x.y = 1, z = '', x.w = { }, \"odd key\" = \"\"\"\nl\r\nm\"\"\" }\n",
];

#[test]
fn filling_in_identifiers_keeps_every_other_entry() {
    for extra in EXTRAS {
        for source in [format!("{}{}", extra, FRESH), FRESH.replace("[software]", "[software]\nn.o = 1\nq = 2\nn.p = 3")] {
            let kept = load(&source).unwrap().rewritten.unwrap();
            assert_eq!(
                all_entries(&kept, &EMPTY_IDENTIFIERS),
                all_entries(&source, &EMPTY_IDENTIFIERS)
            );
            assert_ne!(all_entries(&kept, &[]), all_entries(&source, &[]));
        }
    }
}

#[test]
fn saving_a_password_keeps_every_other_entry() {
    for extra in EXTRAS {
        for settled in [SETTLED, ODD] {
            let source = if settled == ODD { ODD.to_string() } else { format!("{}{}", extra, settled) };
            let mut load = load(&source).unwrap();
            let before = load.rewritten.take().unwrap_or(source);
            let kept = load.loaded.save_escrow_password("new");
            assert_eq!(all_entries(&kept, &ESCROW), all_entries(&before, &ESCROW));
            let again = load.loaded.save_escrow_password("newer");
            assert_eq!(again, kept.replace("\"new\"", "\"newer\""));
        }
    }
}

#[test]
fn rewriting_changes_only_the_lines_of_the_values() {
    let source = SETTLED.replace("[escrow]", "# the password\n[escrow] # of the bottle").replace(
        "configured = false",
        "# whether there is one\n  configured   =   false # not yet",
    );
    let kept = load(&source).unwrap().loaded.save_escrow_password("x");
    assert_eq!(
        kept,
        source
            .replace("password = \"\"", "password = \"x\"")
            .replace("configured   =   false # not yet", "configured   = true")
    );
    let kept = load(FRESH).unwrap();
    let profile = &kept.loaded.profile;
    assert_eq!(
        kept.rewritten.unwrap(),
        FRESH
            .replace("device_uuid = \"\"", &format!("device_uuid = \"{}\"", profile.device_uuid))
            .replace("udid = \"\"", &format!("udid = \"{}\"", profile.udid))
    );
}
