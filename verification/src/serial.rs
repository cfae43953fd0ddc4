//! Hardware serial numbers, as the stable identifiers of accessories carry them.
use vstd::prelude::*;

use crate::hexadecimal;
use crate::text;

verus! {

/// Whether the two characters of the marker `~#` stand at `i`.
pub open spec fn marker_at(s: Seq<char>, i: int) -> bool {
    0 <= i && i + 1 < s.len() && s[i] == '~' && s[i + 1] == '#'
}

/// What follows the last marker `~#` of `s`, where there is one.
pub open spec fn after_last_marker(s: Seq<char>) -> Option<Seq<char>>
    decreases s.len(),
{
    if s.len() < 2 {
        None
    } else if marker_at(s, s.len() - 2) {
        Some(Seq::empty())
    } else {
        match after_last_marker(s.drop_last()) {
            Some(tail) => Some(tail.push(s.last())),
            None => None,
        }
    }
}

/// `after_last_marker` is what stands behind the marker furthest to the right.
pub proof fn law_after_last_marker(s: Seq<char>, i: int)
    requires
        marker_at(s, i),
        forall|j: int| marker_at(s, j) ==> j <= i,
    ensures
        after_last_marker(s) == Some(s.skip(i + 2)),
    decreases s.len(),
{
    if i == s.len() - 2 {
        assert(s.skip(i + 2) =~= Seq::<char>::empty());
    } else {
        let shorter = s.drop_last();
        assert(marker_at(shorter, i));
        assert forall|j: int| marker_at(shorter, j) implies j <= i by {
            assert(marker_at(s, j));
        }
        law_after_last_marker(shorter, i);
        assert(shorter.skip(i + 2).push(s.last()) =~= s.skip(i + 2));
    }
}

/// A text without the marker has nothing behind it.
pub proof fn law_no_marker(s: Seq<char>)
    requires
        forall|j: int| !marker_at(s, j),
    ensures
        after_last_marker(s) is None,
    decreases s.len(),
{
    if s.len() >= 2 {
        assert forall|j: int| !marker_at(s.drop_last(), j) by {
            assert(!marker_at(s, j));
        }
        law_no_marker(s.drop_last());
    }
}

/// The serial number inside a stable identifier. It stands behind the last `~#`: in clear, or,
/// where a pilcrow opens that part, as the hexadecimal third piece between section signs.
pub open spec fn serial_of(identifier: Seq<char>) -> Option<Seq<char>> {
    match after_last_marker(identifier) {
        None => None,
        Some(tail) => {
            if tail.len() > 0 && tail[0] == '\u{b6}' {
                let sections = text::split_on(tail, '\u{a7}');
                if sections.len() >= 3 {
                    hexadecimal::hex_text(sections[2])
                } else {
                    None
                }
            } else {
                Some(tail)
            }
        },
    }
}

/// The position of the last marker `~#`.
fn find_last_marker(chars: &Vec<char>) -> (position: Option<usize>)
    ensures
        match position {
            Some(i) => marker_at(chars@, i as int) && (forall|j: int|
                marker_at(chars@, j) ==> j <= i),
            None => forall|j: int| !marker_at(chars@, j),
        },
{
    if chars.len() < 2 {
        return None;
    }
    let mut i: usize = chars.len() - 1;
    while i > 0
        invariant
            i < chars@.len(),
            forall|j: int| marker_at(chars@, j) ==> j < i,
        decreases i,
    {
        i -= 1;
        if chars[i] == '~' && chars[i + 1] == '#' {
            return Some(i);
        }
    }
    None
}

/// The serial number inside a stable identifier, where one can be told.
pub fn serial_from_identifier(identifier: &str) -> (serial: Option<String>)
    ensures
        text::text_view(serial) == serial_of(identifier@),
{
    let chars = text::chars_of(identifier);
    match find_last_marker(&chars) {
        None => {
            proof {
                law_no_marker(identifier@);
            }
            None
        },
        Some(i) => {
            let tail = text::text_between(&chars, i + 2, chars.len());
            proof {
                law_after_last_marker(identifier@, i as int);
                assert(tail@ =~= identifier@.skip(i + 2));
            }
            if i + 2 < chars.len() && chars[i + 2] == '\u{b6}' {
                let sections = text::split_text(tail.as_str(), '\u{a7}');
                if sections.len() >= 3 {
                    proof {
                        assert(text::texts(sections@)[2] == sections@[2]@);
                    }
                    hexadecimal::text_from_hex(sections[2].as_str())
                } else {
                    proof {
                        assert(text::texts(sections@).len() == sections@.len());
                    }
                    None
                }
            } else {
                Some(tail)
            }
        },
    }
}

/// The identifiers that are told apart below: some text, the marker, and what stands behind it.
pub open spec fn marked(prefix: Seq<char>, tail: Seq<char>) -> Seq<char> {
    prefix + seq!['~', '#'] + tail
}

proof fn lemma_tail(prefix: Seq<char>, tail: Seq<char>)
    requires
        forall|j: int| !marker_at(tail, j),
    ensures
        after_last_marker(marked(prefix, tail)) == Some(tail),
{
    let s = marked(prefix, tail);
    let i = prefix.len() as int;
    assert(marker_at(s, i));
    assert forall|j: int| marker_at(s, j) implies j <= i by {
        if j >= i + 2 {
            assert(s[j] == tail[j - i - 2] && s[j + 1] == tail[j + 1 - i - 2]);
            assert(marker_at(tail, j - i - 2));
        }
    }
    law_after_last_marker(s, i);
    assert(s.skip(i + 2) =~= tail);
}

/// What stands behind the last marker is the serial number, unless a pilcrow opens it.
pub proof fn law_clear_serial(prefix: Seq<char>, tail: Seq<char>)
    requires
        forall|j: int| !marker_at(tail, j),
        tail.len() > 0 ==> tail[0] != '\u{b6}',
    ensures
        serial_of(marked(prefix, tail)) == Some(tail),
{
    lemma_tail(prefix, tail);
}

/// Without a marker there is no serial number.
pub proof fn law_unmarked_identifier_has_no_serial(s: Seq<char>)
    requires
        forall|j: int| 0 <= j < s.len() - 1 ==> !(#[trigger] s[j] == '~' && s[j + 1] == '#'),
    ensures
        serial_of(s) is None,
{
    assert forall|j: int| !marker_at(s, j) by {
        if 0 <= j < s.len() - 1 {
            assert(!(s[j] == '~' && s[j + 1] == '#'));
        }
    }
    law_no_marker(s);
}

/// A part of an identifier with pieces between section signs: three, or three and more.
pub open spec fn pieces(
    first: Seq<char>,
    second: Seq<char>,
    third: Seq<char>,
    rest: Option<Seq<char>>,
) -> Seq<char> {
    let start = first + seq!['\u{a7}'] + second + seq!['\u{a7}'] + third;
    match rest {
        Some(more) => start + seq!['\u{a7}'] + more,
        None => start,
    }
}

/// Behind a pilcrow, only the third piece between section signs counts: there is a serial number
/// exactly where that piece spells out a text in hexadecimal digits, and then it is that text.
pub proof fn law_third_piece_counts(
    prefix: Seq<char>,
    first: Seq<char>,
    second: Seq<char>,
    third: Seq<char>,
    rest: Option<Seq<char>>,
)
    requires
        first.len() > 0 && first[0] == '\u{b6}',
        forall|k: int| 0 <= k < first.len() ==> first[k] != '\u{a7}',
        forall|k: int| 0 <= k < second.len() ==> second[k] != '\u{a7}',
        forall|k: int| 0 <= k < third.len() ==> third[k] != '\u{a7}',
        forall|j: int| !marker_at(pieces(first, second, third, rest), j),
    ensures
        serial_of(marked(prefix, pieces(first, second, third, rest))) == hexadecimal::hex_text(
            third,
        ),
{
    let tail = pieces(first, second, third, rest);
    let sign = '\u{a7}';
    lemma_tail(prefix, tail);
    assert(tail[0] == first[0]);
    let none = Seq::<char>::empty();
    text::lemma_split_grows(none, first, sign);
    assert(none + first =~= first);
    assert(text::split_on(first, sign) =~= seq![first]);
    let one = first.push(sign);
    assert(one.drop_last() =~= first);
    assert(text::split_on(one, sign) =~= seq![first, none]);
    text::lemma_split_grows(one, second, sign);
    assert(none + second =~= second);
    assert(text::split_on(one + second, sign) =~= seq![first, second]);
    let two = (one + second).push(sign);
    assert(two.drop_last() =~= one + second);
    assert(text::split_on(two, sign) =~= seq![first, second, none]);
    text::lemma_split_grows(two, third, sign);
    assert(none + third =~= third);
    assert(text::split_on(two + third, sign) =~= seq![first, second, third]);
    match rest {
        Some(more) => {
            text::lemma_split_keeps_pieces(two + third, more, sign, 2);
            assert(tail =~= (two + third).push(sign) + more);
        },
        None => {
            assert(tail =~= two + third);
        },
    }
}

/// Behind a pilcrow, a serial number that was spelled out in hexadecimal digits, as the third piece
/// between section signs, comes back as it was. What stands around it plays no part.
pub proof fn law_hidden_serial(
    prefix: Seq<char>,
    first: Seq<char>,
    second: Seq<char>,
    serial: Seq<char>,
    rest: Option<Seq<char>>,
)
    requires
        first.len() > 0 && first[0] == '\u{b6}',
        forall|k: int| 0 <= k < first.len() ==> first[k] != '\u{a7}',
        forall|k: int| 0 <= k < second.len() ==> second[k] != '\u{a7}',
        forall|j: int|
            !marker_at(
                pieces(
                    first,
                    second,
                    hexadecimal::hex_of(vstd::utf8::encode_utf8(serial)),
                    rest,
                ),
                j,
            ),
    ensures
        serial_of(
            marked(
                prefix,
                pieces(
                    first,
                    second,
                    hexadecimal::hex_of(vstd::utf8::encode_utf8(serial)),
                    rest,
                ),
            ),
        ) == Some(serial),
{
    let digits = hexadecimal::hex_of(vstd::utf8::encode_utf8(serial));
    hexadecimal::law_hex_text_reads_back(serial, Seq::empty());
    assert forall|k: int| 0 <= k < digits.len() implies digits[k] != '\u{a7}' by {
        hexadecimal::law_hex_reads_back(vstd::utf8::encode_utf8(serial));
        assert(hexadecimal::is_hex_digit(digits[k]));
    }
    law_third_piece_counts(prefix, first, second, digits, rest);
}

/// A pilcrow with fewer than two section signs behind it hides no serial number.
pub proof fn law_nothing_hidden(prefix: Seq<char>, first: Seq<char>, second: Option<Seq<char>>)
    requires
        first.len() > 0 && first[0] == '\u{b6}',
        forall|k: int| 0 <= k < first.len() ==> first[k] != '\u{a7}',
        second matches Some(more) ==> forall|k: int| 0 <= k < more.len() ==> more[k] != '\u{a7}',
        forall|j: int| !marker_at(two_pieces(first, second), j),
    ensures
        serial_of(marked(prefix, two_pieces(first, second))) is None,
{
    let tail = two_pieces(first, second);
    let sign = '\u{a7}';
    lemma_tail(prefix, tail);
    assert(tail[0] == first[0]);
    let none = Seq::<char>::empty();
    text::lemma_split_grows(none, first, sign);
    assert(none + first =~= first);
    assert(text::split_on(first, sign) =~= seq![first]);
    if let Some(more) = second {
        let one = first.push(sign);
        assert(one.drop_last() =~= first);
        assert(text::split_on(one, sign) =~= seq![first, none]);
        text::lemma_split_grows(one, more, sign);
        assert(tail =~= one + more);
    }
}

/// One piece, or two with a section sign between them.
pub open spec fn two_pieces(first: Seq<char>, second: Option<Seq<char>>) -> Seq<char> {
    match second {
        Some(more) => first + seq!['\u{a7}'] + more,
        None => first,
    }
}

} // verus!
