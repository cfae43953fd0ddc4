use export_findmy::hexadecimal::{bytes_to_hex, padded_hex_text, text_from_hex};
use export_findmy::serial::serial_from_identifier;

#[test]
fn serial_from_airtag_identifier() {
    assert_eq!(
        serial_from_identifier("2006~#HWID123~#ABC123"),
        Some("ABC123".to_string())
    );
}

#[test]
fn serial_from_airpods_identifier() {
    assert_eq!(
        serial_from_identifier("a:/uuid-here~#¶model§hwid§485830304141§left"),
        Some("HX00AA".to_string())
    );
}

#[test]
fn serial_from_third_party_identifier() {
    assert_eq!(
        serial_from_identifier("a:/some-uuid~#THIRDPARTY01"),
        Some("THIRDPARTY01".to_string())
    );
}

#[test]
fn serial_from_identifier_without_tilde_hash() {
    assert_eq!(serial_from_identifier("just-an-identifier"), None);
}

#[test]
fn serial_needs_three_sections_behind_a_pilcrow() {
    assert_eq!(serial_from_identifier("a~#¶model§hwid"), None);
    assert_eq!(serial_from_identifier("a~#¶"), None);
    assert_eq!(serial_from_identifier("a~#¶§§"), Some(String::new()));
    assert_eq!(serial_from_identifier("a~#¶m§h§4a"), Some("J".to_string()));
}

#[test]
fn serial_in_bad_digits_is_none() {
    assert_eq!(serial_from_identifier("a~#¶m§h§4"), None);
    assert_eq!(serial_from_identifier("a~#¶m§h§4g"), None);
    assert_eq!(serial_from_identifier("a~#¶m§h§ff"), None);
    assert_eq!(serial_from_identifier("a~#¶m§h§é"), None);
}

#[test]
fn serial_may_be_empty_or_hold_section_signs() {
    assert_eq!(serial_from_identifier("a~#"), Some(String::new()));
    assert_eq!(serial_from_identifier("~#a~#b§c"), Some("b§c".to_string()));
    assert_eq!(serial_from_identifier("a~"), None);
    assert_eq!(serial_from_identifier(""), None);
    assert_eq!(serial_from_identifier("~~##"), Some("#".to_string()));
}

#[test]
fn bytes_become_two_lower_case_digits_each() {
    assert_eq!(bytes_to_hex(&[]), "");
    assert_eq!(bytes_to_hex(&[0x00, 0x0f, 0xa5, 0xff]), "000fa5ff");
}

#[test]
fn digits_read_back_as_the_bytes_they_came_from() {
    for byte in 0u8..128 {
        let text = (byte as char).to_string();
        assert_eq!(text_from_hex(&bytes_to_hex(&[byte])), Some(text));
    }
    assert_eq!(text_from_hex("C3A9"), Some("é".to_string()));
}

#[test]
fn padded_numbers_have_upper_case_digits() {
    assert_eq!(padded_hex_text(0, 32), "00000000000000000000000000000000");
    assert_eq!(
        padded_hex_text(0x0123456789abcdef0123456789abcdef, 32),
        "0123456789ABCDEF0123456789ABCDEF"
    );
    assert_eq!(padded_hex_text(u128::MAX, 32), format!("{:032X}", u128::MAX));
}
