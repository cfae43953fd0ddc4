use export_findmy::filename::{
    accessory_basename, fresh_temporary_file_name, sanitize_filename_component,
    temporary_file_name, OutputNames,
};

#[test]
fn duplicate_names_use_distinct_identifiers() {
    let first = accessory_basename("Keys", "AirTag", "AAAAAAAA-BBBB-CCCC-DDDD-EEEEEEEEEEEE");
    let second = accessory_basename("Keys", "AirTag", "11111111-2222-3333-4444-555555555555");

    assert_ne!(first, second);
    assert_eq!(
        first,
        "Keys_AirTag_AAAAAAAA-BBBB-CCCC-DDDD-EEEEEEEEEEEE"
    );
}

#[test]
fn filename_components_replace_unsafe_characters() {
    assert_eq!(
        accessory_basename(
            "Work / Bag",
            "AirPods Pro (3rd generation)",
            "id:with/slashes"
        ),
        "Work___Bag_AirPods_Pro__3rd_generation__id_with_slashes"
    );
}

#[test]
fn empty_components_get_readable_fallbacks() {
    assert_eq!(sanitize_filename_component("", "fallback"), "fallback");
    assert_eq!(
        accessory_basename("", "", ""),
        "Unknown_unknown-model_unknown-id"
    );
}

#[test]
fn accessory_basename_produces_expected_format() {
    let basename = accessory_basename("Keys", "AirTag", "ID-123");
    assert_eq!(basename, "Keys_AirTag_ID-123");
}

#[test]
fn letters_of_any_script_stay_and_symbols_go() {
    assert_eq!(
        sanitize_filename_component("Schlüssel ½ №鍵🔑", "fallback"),
        "Schlüssel_½__鍵_"
    );
    assert_eq!(sanitize_filename_component("-_-/..", "fallback"), "fallback");
    assert_eq!(sanitize_filename_component("🔑", "fallback"), "fallback");
}

#[test]
fn ascii_characters_are_kept_where_they_are_alphanumeric_hyphens_or_underscores() {
    for code in 0u8..128 {
        let c = code as char;
        let value = format!("a{}", c);
        let expected = if c.is_ascii_alphanumeric() || c == '-' || c == '_' {
            value.clone()
        } else {
            "a_".to_string()
        };
        assert_eq!(sanitize_filename_component(&value, "fallback"), expected);
    }
}

#[test]
fn identifiers_that_come_out_alike_share_a_name() {
    assert_eq!(
        accessory_basename("Keys", "AirTag", "a/b"),
        accessory_basename("Keys", "AirTag", "a:b")
    );
}

#[test]
fn claimed_names_cannot_be_claimed_again() {
    let mut names = OutputNames::new();
    let pair = names.claim("Keys_AirTag_1").unwrap();
    assert_eq!(pair.plist, "Keys_AirTag_1.plist");
    assert_eq!(pair.json, "Keys_AirTag_1.json");
    assert!(names.contains("Keys_AirTag_1.json"));
    assert!(!names.contains("Keys_AirTag_2.json"));
    assert!(names.claim("Keys_AirTag_2").is_ok());
    assert_eq!(names.claim("Keys_AirTag_1").unwrap_err(), "Keys_AirTag_1.plist");
}

#[test]
fn temporary_names_are_hidden_and_carry_their_token() {
    assert_eq!(
        temporary_file_name(Some("profile.toml"), "0123"),
        ".profile.toml.0123.tmp"
    );
    assert_eq!(temporary_file_name(None, "ab"), ".device-profile.toml.ab.tmp");
}

#[test]
fn fresh_temporary_names_have_a_token_of_thirty_two_digits() {
    let first = fresh_temporary_file_name(Some("p"));
    let second = fresh_temporary_file_name(Some("p"));
    assert_ne!(first, second);
    let token = first.strip_prefix(".p.").unwrap().strip_suffix(".tmp").unwrap();
    assert_eq!(token.len(), 32);
    assert!(token.chars().all(|c| c.is_ascii_digit() || ('a'..='f').contains(&c)));
}
