use export_findmy::identity::password_hash;
use export_findmy::text::{
    decimal_text, ends_with, lower_text, parse_index, same_text, split_text, trim_text, upper_text,
    white_space,
};

#[test]
fn white_space_is_what_unicode_says() {
    for code in 0u32..=0x10ffff {
        if let Some(c) = char::from_u32(code) {
            assert_eq!(white_space(c), c.is_whitespace());
        }
    }
}

#[test]
fn trimming_takes_white_space_from_both_sides() {
    for text in ["", " ", "a", " a b ", "\t\na\r\n", "\u{3000}x\u{2003}", "x y"] {
        assert_eq!(trim_text(text), text.trim());
    }
}

#[test]
fn indexes_are_read_as_the_standard_library_reads_them() {
    for text in [
        "", "+", "0", "007", "+12", "++1", "-1", "-0", "1 2", "x", "٣", "18446744073709551615",
        "18446744073709551616", "99999999999999999999999",
    ] {
        assert_eq!(parse_index(text), text.parse::<usize>().ok());
    }
}

#[test]
fn decimals_read_back() {
    for n in [0usize, 7, 10, 99, 100, 12345, usize::MAX] {
        assert_eq!(decimal_text(n), n.to_string());
        assert_eq!(parse_index(&decimal_text(n)), Some(n));
    }
}

#[test]
fn only_ascii_letters_change_case() {
    assert_eq!(lower_text("YeS Ä"), "yes Ä");
    assert_eq!(upper_text("a-f0ä"), "A-F0ä");
}

#[test]
fn splitting_keeps_empty_pieces() {
    for text in ["", "§", "a§b", "§a§§b§"] {
        let pieces: Vec<String> = text.split('§').map(|piece| piece.to_string()).collect();
        assert_eq!(split_text(text, '§'), pieces);
    }
}

#[test]
fn suffixes_and_equality_go_by_characters() {
    assert!(ends_with("a.template.toml", ".template.toml"));
    assert!(!ends_with("template.toml", ".template.toml"));
    assert!(!ends_with("x", "xx"));
    assert!(ends_with("x", ""));
    assert!(same_text("é", "é"));
    assert!(!same_text("e", "é"));
}

#[test]
fn password_hash_is_sha_256_of_the_utf_8_bytes() {
    let digits: String = password_hash("abc").iter().map(|b| format!("{:02x}", b)).collect();
    assert_eq!(digits, "ba7816bf8f01cfea414140de5dae2223b00361a396177a9cb410ff61f20015ad");
    let empty: String = password_hash("").iter().map(|b| format!("{:02x}", b)).collect();
    assert_eq!(empty, "e3b0c44298fc1c149afbf4c8996fb92427ae41e4649b934ca495991b7852b855");
}
