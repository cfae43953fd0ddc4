//! Identifiers and secrets: UUIDs, random numbers, random passwords and password hashes.
use rand::distributions::{Alphanumeric, DistString};
use vstd::prelude::*;
use vstd::utf8::*;

use crate::hexadecimal;
use crate::text;

verus! {

/// Whether the groups of a hyphenated UUID end at `i`.
pub open spec fn hyphen_place(i: int) -> bool {
    i == 8 || i == 13 || i == 18 || i == 23
}

/// Thirty-two hexadecimal digits in the five hyphenated groups of a UUID.
pub open spec fn is_hyphenated(s: Seq<char>) -> bool {
    &&& s.len() == 36
    &&& forall|i: int|
        0 <= i < 36 ==> if hyphen_place(i) {
            s[i] == '-'
        } else {
            hexadecimal::is_hex_digit(s[i])
        }
}

/// Whether `s` is a UUID: bare digits, hyphenated, hyphenated in braces, or as a URN.
pub open spec fn is_uuid(s: Seq<char>) -> bool {
    ||| s.len() == 32 && hexadecimal::all_hex(s)
    ||| is_hyphenated(s)
    ||| s.len() == 38 && s[0] == '{' && s[37] == '}' && is_hyphenated(s.subrange(1, 37))
    ||| s.len() == 45 && text::ascii_lowered(s.take(9)) == "urn:uuid:"@ && is_hyphenated(s.skip(9))
}

/// Whether `s` is the hyphenated lower-case form of a version 4 UUID.
pub open spec fn is_random_uuid(s: Seq<char>) -> bool {
    &&& is_hyphenated(s)
    &&& text::ascii_lowered(s) == s
    &&& s[14] == '4'
    &&& s[19] == '8' || s[19] == '9' || s[19] == 'a' || s[19] == 'b'
}

/// Whether `s` is the lower-case form, without hyphens, of a version 4 UUID.
pub open spec fn is_random_simple_uuid(s: Seq<char>) -> bool {
    &&& s.len() == 32
    &&& hexadecimal::all_hex(s)
    &&& text::ascii_lowered(s) == s
    &&& s[12] == '4'
    &&& s[16] == '8' || s[16] == '9' || s[16] == 'a' || s[16] == 'b'
}

/// `Uuid::parse_str` accepts the four ways to write a UUID, in either case, and nothing else.
#[verifier::external_body]
pub(crate) fn valid_uuid(text: &str) -> (valid: bool)
    ensures
        valid == is_uuid(text@),
{
    uuid::Uuid::parse_str(text).is_ok()
}

/// `Uuid::new_v4` makes a random version 4 UUID, and its `to_string` writes it hyphenated, in
/// lower case. Which one comes is left to chance.
#[verifier::external_body]
pub(crate) fn random_uuid() -> (text: String)
    ensures
        is_random_uuid(text@),
{
    uuid::Uuid::new_v4().to_string()
}

/// `Uuid::new_v4` makes a random version 4 UUID, and its `simple` form writes it as thirty-two
/// lower-case digits. Which one comes is left to chance.
#[verifier::external_body]
pub(crate) fn random_simple_uuid() -> (text: String)
    ensures
        is_random_simple_uuid(text@),
{
    uuid::Uuid::new_v4().simple().to_string()
}

/// `rand::random` makes a number; which one is left to chance, so nothing is promised of it.
#[verifier::external_body]
pub(crate) fn random_number() -> (number: u128) {
    rand::random::<u128>()
}

/// Whether `c` is an ASCII letter or a decimal digit.
pub open spec fn is_ascii_alphanumeric(c: char) -> bool {
    ||| 'a' <= c <= 'z'
    ||| 'A' <= c <= 'Z'
    ||| '0' <= c <= '9'
}

/// `Alphanumeric.sample_string` with `rand::thread_rng` makes a text of that many ASCII letters
/// and digits. Which ones come is left to chance.
#[verifier::external_body]
pub(crate) fn random_alphanumeric(length: usize) -> (text: String)
    ensures
        text@.len() == length,
        forall|i: int| 0 <= i < text@.len() ==> is_ascii_alphanumeric(#[trigger] text@[i]),
{
    Alphanumeric.sample_string(&mut rand::thread_rng(), length)
}

/// The SHA-256 digest of some bytes.
pub uninterp spec fn sha256(bytes: Seq<u8>) -> Seq<u8>;

/// `Sha256::digest` gives the SHA-256 digest of the bytes, thirty-two bytes long.
#[verifier::external_body]
pub(crate) fn sha256_digest(bytes: &[u8]) -> (digest: Vec<u8>)
    ensures
        digest@ == sha256(bytes@),
        digest@.len() == 32,
{
    <sha2::Sha256 as sha2::Digest>::digest(bytes).to_vec()
}

/// The digest under which an account password is sent: that of its UTF-8 bytes.
pub fn password_hash(password: &str) -> (digest: Vec<u8>)
    ensures
        digest@ == sha256(encode_utf8(password@)),
        digest@.len() == 32,
{
    sha256_digest(password.as_bytes())
}

/// A hyphenated UUID stays one in upper case.
pub proof fn lemma_upper_keeps_hyphenated(s: Seq<char>)
    requires
        is_hyphenated(s),
    ensures
        is_hyphenated(text::ascii_uppered(s)),
        is_uuid(text::ascii_uppered(s)),
{
    let upper = text::ascii_uppered(s);
    assert forall|i: int| 0 <= i < 36 implies if hyphen_place(i) {
        upper[i] == '-'
    } else {
        hexadecimal::is_hex_digit(upper[i])
    } by {
        assert(upper[i] == text::ascii_upper(s[i]));
    }
}

/// Whether a character is a hexadecimal digit, in either case.
pub open spec fn counts_as_digit(c: char) -> bool {
    48 <= c as int <= 57 || 65 <= c as int <= 70 || 97 <= c as int <= 102
}

/// What a UUID looks like: thirty-two hexadecimal digits, alone or in five groups of eight, four,
/// four, four and twelve with hyphens between them; the groups may stand in braces, or behind the
/// start of a URN. Nothing else is one.
pub proof fn law_uuid_forms(s: Seq<char>)
    ensures
        is_hyphenated(s) <==> s.len() == 36 && forall|i: int|
            0 <= i < 36 ==> if i == 8 || i == 13 || i == 18 || i == 23 {
                #[trigger] s[i] == '-'
            } else {
                counts_as_digit(s[i])
            },
        is_uuid(s) <==> {
            ||| s.len() == 32 && forall|i: int| 0 <= i < 32 ==> counts_as_digit(#[trigger] s[i])
            ||| is_hyphenated(s)
            ||| s.len() == 38 && s[0] == '{' && s[37] == '}' && is_hyphenated(s.subrange(1, 37))
            ||| s.len() == 45 && text::ascii_lowered(s.take(9)) == seq![
                'u',
                'r',
                'n',
                ':',
                'u',
                'u',
                'i',
                'd',
                ':',
            ] && is_hyphenated(s.skip(9))
        },
{
    reveal_strlit("urn:uuid:");
    assert("urn:uuid:"@ =~= seq!['u', 'r', 'n', ':', 'u', 'u', 'i', 'd', ':']);
    assert forall|c: char| #[trigger] hexadecimal::is_hex_digit(c) == counts_as_digit(c) by {}
    if s.len() == 32 {
        if hexadecimal::all_hex(s) {
            assert forall|i: int| 0 <= i < 32 implies counts_as_digit(#[trigger] s[i]) by {
                assert(hexadecimal::is_hex_digit(s[i]));
            }
        } else {
            let i = choose|i: int| 0 <= i < s.len() && !hexadecimal::is_hex_digit(#[trigger] s[i]);
            assert(!counts_as_digit(s[i]));
        }
    }
    if s.len() == 36 {
        if is_hyphenated(s) {
            assert forall|i: int| 0 <= i < 36 implies if i == 8 || i == 13 || i == 18 || i == 23 {
                #[trigger] s[i] == '-'
            } else {
                counts_as_digit(s[i])
            } by {
                assert(hyphen_place(i) == (i == 8 || i == 13 || i == 18 || i == 23));
            }
        } else {
            let i = choose|i: int|
                0 <= i < 36 && !(if hyphen_place(i) {
                    #[trigger] s[i] == '-'
                } else {
                    hexadecimal::is_hex_digit(s[i])
                });
            assert(s[i] == s[i]);
        }
    }
}

/// A random UUID is a UUID of version 4, in lower case.
pub proof fn law_random_uuid(s: Seq<char>)
    requires
        is_random_uuid(s),
    ensures
        is_uuid(s),
        s.len() == 36,
        s[14] == '4',
        forall|i: int| 0 <= i < 36 ==> !(65 <= #[trigger] s[i] as int <= 90),
{
    assert forall|i: int| 0 <= i < 36 implies !(65 <= #[trigger] s[i] as int <= 90) by {
        text::law_case_of_ascii_letters(s, i);
    }
}

} // verus!
