//! Hexadecimal text: bytes to digits, digits to bytes, and fixed-width numbers.
use vstd::prelude::*;
use vstd::utf8::*;

use crate::text;

verus! {

/// Whether `c` is a hexadecimal digit, in either case.
pub open spec fn is_hex_digit(c: char) -> bool {
    ||| '0' <= c <= '9'
    ||| 'a' <= c <= 'f'
    ||| 'A' <= c <= 'F'
}

/// Whether every character of `s` is a hexadecimal digit.
pub open spec fn all_hex(s: Seq<char>) -> bool {
    forall|i: int| 0 <= i < s.len() ==> is_hex_digit(s[i])
}

/// Whether `c` is a hexadecimal digit, in either case.
pub fn hex_digit(c: char) -> (yes: bool)
    ensures
        yes == is_hex_digit(c),
{
    ('0' <= c && c <= '9') || ('a' <= c && c <= 'f') || ('A' <= c && c <= 'F')
}

/// Whether every character of the text is a hexadecimal digit.
pub fn only_hex_digits(chars: &Vec<char>) -> (yes: bool)
    ensures
        yes == all_hex(chars@),
{
    let mut i: usize = 0;
    while i < chars.len()
        invariant
            i <= chars@.len(),
            forall|j: int| 0 <= j < i ==> is_hex_digit(chars@[j]),
        decreases chars@.len() - i,
    {
        if !hex_digit(chars[i]) {
            return false;
        }
        i += 1;
    }
    true
}

/// The value of a hexadecimal digit.
pub open spec fn hex_value(c: char) -> int {
    if '0' <= c <= '9' {
        c as int - '0' as int
    } else if 'a' <= c <= 'f' {
        c as int - 'a' as int + 10
    } else {
        c as int - 'A' as int + 10
    }
}

/// The lower-case digit of a value below sixteen.
pub open spec fn lower_hex(n: int) -> char {
    if n < 10 {
        ('0' as int + n) as char
    } else {
        ('a' as int + n - 10) as char
    }
}

/// The upper-case digit of a value below sixteen.
pub open spec fn upper_hex(n: int) -> char {
    if n < 10 {
        ('0' as int + n) as char
    } else {
        ('A' as int + n - 10) as char
    }
}

/// Two lower-case digits for each byte, the high half first.
pub open spec fn hex_of(bytes: Seq<u8>) -> Seq<char> {
    Seq::new(
        2 * bytes.len(),
        |i: int|
            if i % 2 == 0 {
                lower_hex(bytes[i / 2] as int / 16)
            } else {
                lower_hex(bytes[i / 2] as int % 16)
            },
    )
}

/// The bytes that an even number of hexadecimal digits stand for.
pub open spec fn hex_bytes(s: Seq<char>) -> Option<Seq<u8>> {
    if s.len() % 2 == 0 && all_hex(s) {
        Some(
            Seq::new(
                s.len() / 2,
                |i: int| (hex_value(s[2 * i]) * 16 + hex_value(s[2 * i + 1])) as u8,
            ),
        )
    } else {
        None
    }
}

fn lower_hex_char(n: u8) -> (c: char)
    requires
        n < 16,
    ensures
        c == lower_hex(n as int),
{
    if n < 10 {
        (n + 48) as char
    } else {
        (n - 10 + 97) as char
    }
}

/// Two lower-case hexadecimal digits for each byte.
pub fn bytes_to_hex(bytes: &[u8]) -> (text: String)
    ensures
        text@ == hex_of(bytes@),
{
    let mut text = String::new();
    let mut i: usize = 0;
    while i < bytes.len()
        invariant
            i <= bytes@.len(),
            text@ == hex_of(bytes@.take(i as int)),
        decreases bytes@.len() - i,
    {
        let byte = bytes[i];
        text.push(lower_hex_char(byte / 16));
        text.push(lower_hex_char(byte % 16));
        proof {
            assert(text@ =~= hex_of(bytes@.take(i + 1)));
        }
        i += 1;
    }
    proof {
        assert(bytes@.take(i as int) =~= bytes@);
    }
    text
}

/// `hex::decode` reads two hexadecimal digits per byte, the high half first, in either case. It
/// refuses an odd number of digits, and any other character.
#[verifier::external_body]
pub(crate) fn decode_hex(text: &str) -> (bytes: Option<Vec<u8>>)
    ensures
        bytes is Some <==> hex_bytes(text@) is Some,
        bytes matches Some(b) ==> Some(b@) == hex_bytes(text@),
{
    hex::decode(text).ok()
}

/// `String::from_utf8` takes the bytes as text where they are valid UTF-8, and refuses them
/// otherwise.
#[verifier::external_body]
pub(crate) fn utf8_text(bytes: Vec<u8>) -> (text: Option<String>)
    ensures
        text is Some <==> valid_utf8(bytes@),
        text matches Some(s) ==> s@ == decode_utf8(bytes@),
{
    String::from_utf8(bytes).ok()
}

/// The text whose UTF-8 bytes `s` spells out in hexadecimal digits.
pub open spec fn hex_text(s: Seq<char>) -> Option<Seq<char>> {
    match hex_bytes(s) {
        Some(bytes) => if valid_utf8(bytes) {
            Some(decode_utf8(bytes))
        } else {
            None
        },
        None => None,
    }
}

/// The text whose UTF-8 bytes `digits` spells out.
pub fn text_from_hex(digits: &str) -> (text: Option<String>)
    ensures
        text::text_view(text) == hex_text(digits@),
{
    match decode_hex(digits) {
        Some(bytes) => utf8_text(bytes),
        None => None,
    }
}

/// The last `width` hexadecimal digits of `n`, in upper case.
pub open spec fn padded_hex(n: nat, width: nat) -> Seq<char>
    decreases width,
{
    if width == 0 {
        Seq::empty()
    } else {
        padded_hex(n / 16, (width - 1) as nat).push(upper_hex((n % 16) as int))
    }
}

/// The last `width` hexadecimal digits of `n`, in upper case.
pub fn padded_hex_text(n: u128, width: usize) -> (text: String)
    ensures
        text@ == padded_hex(n as nat, width as nat),
    decreases width,
{
    if width == 0 {
        String::new()
    } else {
        let mut text = padded_hex_text(n / 16, width - 1);
        let digit: u8 = (n % 16) as u8;
        let c = if digit < 10 {
            (digit + 48) as char
        } else {
            (digit - 10 + 65) as char
        };
        text.push(c);
        text
    }
}

/// `padded_hex` has the width asked for, and only hexadecimal digits.
pub proof fn lemma_padded_hex(n: nat, width: nat)
    ensures
        padded_hex(n, width).len() == width,
        all_hex(padded_hex(n, width)),
    decreases width,
{
    if width > 0 {
        lemma_padded_hex(n / 16, (width - 1) as nat);
    }
}

/// Decoding the digits of some bytes gives those bytes back.
pub proof fn law_hex_reads_back(bytes: Seq<u8>)
    ensures
        hex_bytes(hex_of(bytes)) == Some(bytes),
{
    let digits = hex_of(bytes);
    assert forall|i: int| 0 <= i < bytes.len() implies #[trigger] bytes[i] == (hex_value(
        digits[2 * i],
    ) * 16 + hex_value(digits[2 * i + 1])) as u8 by {
        assert((2 * i) / 2 == i && (2 * i) % 2 == 0);
        assert((2 * i + 1) / 2 == i && (2 * i + 1) % 2 == 1);
    }
    assert(hex_bytes(digits)->Some_0 =~= bytes);
}

/// Different bytes have different digits.
pub proof fn law_hex_is_injective(a: Seq<u8>, b: Seq<u8>)
    requires
        hex_of(a) == hex_of(b),
    ensures
        a == b,
{
    law_hex_reads_back(a);
    law_hex_reads_back(b);
}

/// Each byte becomes two digits, that of its high half and that of its low half, from 0 to 9 and
/// from a to f.
pub proof fn law_hex_digits(bytes: Seq<u8>, i: int)
    requires
        0 <= i < bytes.len(),
    ensures
        hex_of(bytes).len() == 2 * bytes.len(),
        hex_of(bytes)[2 * i] as int == bytes[i] as int / 16 + if bytes[i] as int / 16 < 10 {
            48int
        } else {
            87int
        },
        hex_of(bytes)[2 * i + 1] as int == bytes[i] as int % 16 + if bytes[i] as int % 16 < 10 {
            48int
        } else {
            87int
        },
{
    assert((2 * i) / 2 == i && (2 * i) % 2 == 0);
    assert((2 * i + 1) / 2 == i && (2 * i + 1) % 2 == 1);
}

/// The number that a row of upper-case hexadecimal digits writes out.
pub open spec fn hex_number(s: Seq<char>) -> nat
    decreases s.len(),
{
    if s.len() == 0 {
        0
    } else {
        16 * hex_number(s.drop_last()) + (s.last() as int - if s.last() as int <= 57 {
            48int
        } else {
            55int
        }) as nat
    }
}

/// A number below the power of sixteen for a width is written out in exactly that many digits, from
/// 0 to 9 and from A to F, and they give the number back.
pub proof fn law_padded_hex_reads_back(n: nat, width: nat)
    requires
        n < vstd::arithmetic::power::pow(16, width),
    ensures
        padded_hex(n, width).len() == width,
        forall|i: int|
            0 <= i < width ==> (48 <= #[trigger] padded_hex(n, width)[i] as int <= 57 || 65
                <= padded_hex(n, width)[i] as int <= 70),
        hex_number(padded_hex(n, width)) == n,
    decreases width,
{
    reveal(vstd::arithmetic::power::pow);
    if width > 0 {
        let less = (width - 1) as nat;
        assert(vstd::arithmetic::power::pow(16, width) == 16 * vstd::arithmetic::power::pow(
            16,
            less,
        ));
        law_padded_hex_reads_back(n / 16, less);
        assert(padded_hex(n, width).drop_last() =~= padded_hex(n / 16, less));
    }
}

/// The digits of the bytes of a text give the text back. An odd number of characters gives none,
/// and neither do characters that are no hexadecimal digits.
pub proof fn law_hex_text_reads_back(words: Seq<char>, s: Seq<char>)
    ensures
        hex_text(hex_of(encode_utf8(words))) == Some(words),
        s.len() % 2 == 1 ==> hex_text(s) is None,
        (exists|i: int|
            0 <= i < s.len() && !(48 <= #[trigger] s[i] as int <= 57 || 65 <= s[i] as int <= 70 || 97
                <= s[i] as int <= 102)) ==> hex_text(s) is None,
{
    law_hex_reads_back(encode_utf8(words));
    encode_utf8_valid_utf8(words);
    encode_utf8_decode_utf8(words);
}

/// What a hexadecimal digit is worth, in either case; nothing for any other character.
pub open spec fn worth(c: char) -> Option<int> {
    if 48 <= c as int <= 57 {
        Some(c as int - 48)
    } else if 65 <= c as int <= 70 {
        Some(c as int - 55)
    } else if 97 <= c as int <= 102 {
        Some(c as int - 87)
    } else {
        None
    }
}

/// Digits stand for bytes exactly where they come in pairs and all are worth something. Each byte is
/// sixteen times its first digit and its second.
pub proof fn law_hex_pairs(s: Seq<char>, i: int)
    ensures
        hex_bytes(s) is Some <==> s.len() % 2 == 0 && forall|k: int|
            0 <= k < s.len() ==> worth(#[trigger] s[k]) is Some,
        hex_bytes(s) matches Some(bytes) ==> bytes.len() * 2 == s.len() && (0 <= i < bytes.len()
            ==> bytes[i] == worth(s[2 * i])->Some_0 * 16 + worth(s[2 * i + 1])->Some_0),
{
    if hex_bytes(s) is Some {
        assert forall|k: int| 0 <= k < s.len() implies worth(#[trigger] s[k]) is Some by {
            assert(is_hex_digit(s[k]));
        }
    } else if s.len() % 2 == 0 {
        let k = choose|k: int| 0 <= k < s.len() && !is_hex_digit(#[trigger] s[k]);
        assert(worth(s[k]) is None);
    }
}

} // verus!
