//! Text as sequences of characters: copying, comparing, trimming, splitting and numbers.
use vstd::prelude::*;

verus! {

/// `String::push` appends one character to the end of the text.
pub assume_specification[ String::push ](s: &mut String, c: char)
    ensures
        final(s)@ == old(s)@.push(c),
;

/// The text inside an optional string.
pub open spec fn text_view(text: Option<String>) -> Option<Seq<char>> {
    match text {
        Some(s) => Some(s@),
        None => None,
    }
}

/// An optional text as a sequence of characters.
pub open spec fn str_view(found: Option<&str>) -> Option<Seq<char>> {
    match found {
        Some(s) => Some(s@),
        None => None,
    }
}

/// The characters of a text, one by one.
pub fn chars_of(text: &str) -> (chars: Vec<char>)
    ensures
        chars@ == text@,
{
    let mut chars: Vec<char> = Vec::new();
    for c in it: text.chars()
        invariant
            it.seq() == text@,
            chars@ == text@.take(it.index() as int),
    {
        chars.push(c);
    }
    chars
}

/// Whether two texts hold the same characters.
pub fn same_text(a: &str, b: &str) -> (same: bool)
    ensures
        same == (a@ == b@),
{
    let left = a.to_owned();
    let right = b.to_owned();
    left == right
}

/// The text made of the characters from `from` up to `to`.
pub fn text_between(chars: &Vec<char>, from: usize, to: usize) -> (text: String)
    requires
        from <= to <= chars@.len(),
    ensures
        text@ == chars@.subrange(from as int, to as int),
{
    let mut text = String::new();
    let mut i: usize = from;
    while i < to
        invariant
            from <= i <= to <= chars@.len(),
            text@ == chars@.subrange(from as int, i as int),
        decreases to - i,
    {
        text.push(chars[i]);
        i += 1;
    }
    text
}

/// The characters with the Unicode property White_Space.
pub open spec fn is_white_space(c: char) -> bool {
    ||| '\u{9}' <= c <= '\u{d}'
    ||| c == ' '
    ||| c == '\u{85}'
    ||| c == '\u{a0}'
    ||| c == '\u{1680}'
    ||| '\u{2000}' <= c <= '\u{200a}'
    ||| c == '\u{2028}'
    ||| c == '\u{2029}'
    ||| c == '\u{202f}'
    ||| c == '\u{205f}'
    ||| c == '\u{3000}'
}

/// Whether `c` has the Unicode property White_Space.
pub fn white_space(c: char) -> (yes: bool)
    ensures
        yes == is_white_space(c),
{
    ('\u{9}' <= c && c <= '\u{d}') || c == ' ' || c == '\u{85}' || c == '\u{a0}' || c == '\u{1680}'
        || ('\u{2000}' <= c && c <= '\u{200a}') || c == '\u{2028}' || c == '\u{2029}'
        || c == '\u{202f}' || c == '\u{205f}' || c == '\u{3000}'
}

/// `s` without its leading white space.
pub open spec fn trim_start(s: Seq<char>) -> Seq<char>
    decreases s.len(),
{
    if s.len() > 0 && is_white_space(s.first()) {
        trim_start(s.drop_first())
    } else {
        s
    }
}

/// `s` without its trailing white space.
pub open spec fn trim_end(s: Seq<char>) -> Seq<char>
    decreases s.len(),
{
    if s.len() > 0 && is_white_space(s.last()) {
        trim_end(s.drop_last())
    } else {
        s
    }
}

/// `s` without white space on either side.
pub open spec fn trimmed(s: Seq<char>) -> Seq<char> {
    trim_end(trim_start(s))
}

/// The text without white space on either side.
pub fn trim_text(text: &str) -> (inner: String)
    ensures
        inner@ == trimmed(text@),
{
    let chars = chars_of(text);
    let mut from: usize = 0;
    proof {
        assert(chars@.skip(0) =~= chars@);
    }
    while from < chars.len() && white_space(chars[from])
        invariant
            from <= chars@.len(),
            trim_start(chars@) == trim_start(chars@.skip(from as int)),
        decreases chars@.len() - from,
    {
        proof {
            assert(chars@.skip(from as int).drop_first() =~= chars@.skip(from + 1));
        }
        from += 1;
    }
    let mut to: usize = chars.len();
    proof {
        assert(trim_start(chars@) == chars@.skip(from as int));
        assert(chars@.subrange(from as int, to as int) =~= chars@.skip(from as int));
    }
    while from < to && white_space(chars[to - 1])
        invariant
            from <= to <= chars@.len(),
            trim_end(chars@.skip(from as int)) == trim_end(
                chars@.subrange(from as int, to as int),
            ),
        decreases to - from,
    {
        proof {
            assert(chars@.subrange(from as int, to as int).drop_last() =~= chars@.subrange(
                from as int,
                to - 1,
            ));
        }
        to -= 1;
    }
    text_between(&chars, from, to)
}

/// Whether the text ends with `suffix`.
pub fn ends_with(text: &str, suffix: &str) -> (yes: bool)
    ensures
        yes == suffix@.is_suffix_of(text@),
{
    let chars = chars_of(text);
    let end = chars_of(suffix);
    if end.len() > chars.len() {
        return false;
    }
    let start: usize = chars.len() - end.len();
    let mut i: usize = 0;
    while i < end.len()
        invariant
            i <= end.len(),
            start + end.len() == chars.len(),
            chars@ == text@,
            end@ == suffix@,
            forall|j: int| 0 <= j < i ==> end@[j] == chars@[start + j],
        decreases end@.len() - i,
    {
        if chars[start + i] != end[i] {
            proof {
                assert(chars@.subrange(chars@.len() - end@.len(), chars@.len() as int)[i as int]
                    != end@[i as int]);
            }
            return false;
        }
        i += 1;
    }
    proof {
        assert(chars@.subrange(chars@.len() - end@.len(), chars@.len() as int) =~= end@);
    }
    true
}

/// The pieces of `s` between the occurrences of `separator`.
pub open spec fn split_on(s: Seq<char>, separator: char) -> Seq<Seq<char>>
    decreases s.len(),
{
    if s.len() == 0 {
        seq![Seq::<char>::empty()]
    } else {
        let before = split_on(s.drop_last(), separator);
        if s.last() == separator {
            before.push(Seq::empty())
        } else {
            before.drop_last().push(before.last().push(s.last()))
        }
    }
}

/// The texts inside a list of strings.
pub open spec fn texts(list: Seq<String>) -> Seq<Seq<char>> {
    list.map_values(|s: String| s@)
}

/// The pieces of the text between the occurrences of `separator`.
pub fn split_text(text: &str, separator: char) -> (pieces: Vec<String>)
    ensures
        texts(pieces@) == split_on(text@, separator),
{
    let chars = chars_of(text);
    let mut pieces: Vec<String> = Vec::new();
    let mut piece = String::new();
    let mut i: usize = 0;
    proof {
        assert(texts(pieces@).push(piece@) =~= split_on(chars@.take(0), separator));
    }
    while i < chars.len()
        invariant
            i <= chars@.len(),
            texts(pieces@).push(piece@) == split_on(chars@.take(i as int), separator),
        decreases chars@.len() - i,
    {
        let c = chars[i];
        let ghost before = texts(pieces@).push(piece@);
        proof {
            assert(chars@.take(i + 1).drop_last() =~= chars@.take(i as int));
            assert(before.drop_last() =~= texts(pieces@));
        }
        if c == separator {
            let ghost finished = pieces@;
            let ghost last = piece@;
            pieces.push(piece);
            piece = String::new();
            proof {
                assert(texts(pieces@) =~= texts(finished).push(last));
            }
        } else {
            piece.push(c);
        }
        i += 1;
    }
    let ghost finished = pieces@;
    let ghost last = piece@;
    pieces.push(piece);
    proof {
        assert(texts(pieces@) =~= texts(finished).push(last));
        assert(chars@.take(i as int) =~= chars@);
    }
    pieces
}

/// The lower-case form of an ASCII letter, and every other character as it is.
pub open spec fn ascii_lower(c: char) -> char {
    if 'A' <= c <= 'Z' {
        (c as u32 + 32) as char
    } else {
        c
    }
}

/// `s` with its ASCII letters in lower case.
pub open spec fn ascii_lowered(s: Seq<char>) -> Seq<char> {
    s.map_values(|c: char| ascii_lower(c))
}

/// The lower-case form of an ASCII letter, and every other character as it is.
pub fn lower_char(c: char) -> (lower: char)
    ensures
        lower == ascii_lower(c),
{
    if 'A' <= c && c <= 'Z' {
        (c as u8 + 32) as char
    } else {
        c
    }
}

/// The text with its ASCII letters in lower case.
pub fn lower_text(text: &str) -> (lowered: String)
    ensures
        lowered@ == ascii_lowered(text@),
{
    let chars = chars_of(text);
    let mut lowered = String::new();
    let mut i: usize = 0;
    while i < chars.len()
        invariant
            i <= chars@.len(),
            lowered@ == ascii_lowered(chars@.take(i as int)),
        decreases chars@.len() - i,
    {
        lowered.push(lower_char(chars[i]));
        proof {
            assert(ascii_lowered(chars@.take(i + 1)) =~= ascii_lowered(chars@.take(i as int)).push(
                ascii_lower(chars@[i as int]),
            ));
        }
        i += 1;
    }
    proof {
        assert(chars@.take(i as int) =~= chars@);
    }
    lowered
}

/// The upper-case form of an ASCII letter, and every other character as it is.
pub open spec fn ascii_upper(c: char) -> char {
    if 'a' <= c <= 'z' {
        (c as u32 - 32) as char
    } else {
        c
    }
}

/// `s` with its ASCII letters in upper case.
pub open spec fn ascii_uppered(s: Seq<char>) -> Seq<char> {
    s.map_values(|c: char| ascii_upper(c))
}

/// The upper-case form of an ASCII letter, and every other character as it is.
pub fn upper_char(c: char) -> (upper: char)
    ensures
        upper == ascii_upper(c),
{
    if 'a' <= c && c <= 'z' {
        (c as u8 - 32) as char
    } else {
        c
    }
}

/// The text with its ASCII letters in upper case.
pub fn upper_text(text: &str) -> (uppered: String)
    ensures
        uppered@ == ascii_uppered(text@),
{
    let chars = chars_of(text);
    let mut uppered = String::new();
    let mut i: usize = 0;
    while i < chars.len()
        invariant
            i <= chars@.len(),
            uppered@ == ascii_uppered(chars@.take(i as int)),
        decreases chars@.len() - i,
    {
        uppered.push(upper_char(chars[i]));
        proof {
            assert(ascii_uppered(chars@.take(i + 1)) =~= ascii_uppered(chars@.take(i as int)).push(
                ascii_upper(chars@[i as int]),
            ));
        }
        i += 1;
    }
    proof {
        assert(chars@.take(i as int) =~= chars@);
    }
    uppered
}

/// The decimal digit of a number below ten.
pub open spec fn digit_char(n: nat) -> char {
    ('0' as u32 + n) as char
}

/// The decimal digits of `n`, without leading zeros.
pub open spec fn decimal(n: nat) -> Seq<char>
    decreases n,
{
    if n < 10 {
        seq![digit_char(n)]
    } else {
        decimal(n / 10).push(digit_char(n % 10))
    }
}

/// The decimal digits of `n`, without leading zeros.
pub fn decimal_text(n: usize) -> (text: String)
    ensures
        text@ == decimal(n as nat),
    decreases n,
{
    let mut text = if n < 10 {
        String::new()
    } else {
        decimal_text(n / 10)
    };
    text.push(((n % 10) as u8 + 48) as char);
    proof {
        assert(text@ =~= decimal(n as nat));
    }
    text
}

/// Whether `c` is one of the ten decimal digits.
pub open spec fn is_decimal_digit(c: char) -> bool {
    '0' <= c <= '9'
}

/// The value of a row of decimal digits.
pub open spec fn decimal_value(s: Seq<char>) -> nat
    decreases s.len(),
{
    if s.len() == 0 {
        0
    } else {
        decimal_value(s.drop_last()) * 10 + (s.last() as nat - '0' as nat) as nat
    }
}

/// Whether every character of `s` is a decimal digit.
pub open spec fn all_decimal(s: Seq<char>) -> bool {
    forall|i: int| 0 <= i < s.len() ==> is_decimal_digit(s[i])
}

/// `s` without a leading plus sign.
pub open spec fn without_plus(s: Seq<char>) -> Seq<char> {
    if s.len() > 0 && s[0] == '+' {
        s.drop_first()
    } else {
        s
    }
}

/// The number that `s` writes out: decimal digits, with or without a plus sign before them.
pub open spec fn parsed_number(s: Seq<char>) -> Option<nat> {
    let digits = without_plus(s);
    if digits.len() > 0 && all_decimal(digits) {
        Some(decimal_value(digits))
    } else {
        None
    }
}

/// The number that `s` writes out, where it is an index the machine can hold.
pub open spec fn parsed_index(s: Seq<char>) -> Option<usize> {
    match parsed_number(s) {
        Some(n) => if n <= usize::MAX {
            Some(n as usize)
        } else {
            None
        },
        None => None,
    }
}

proof fn lemma_decimal_value_grows(s: Seq<char>, i: int)
    requires
        0 <= i <= s.len(),
        all_decimal(s),
    ensures
        decimal_value(s.take(i)) <= decimal_value(s),
    decreases s.len() - i,
{
    if i == s.len() {
        assert(s.take(i) =~= s);
    } else {
        lemma_decimal_value_grows(s, i + 1);
        assert(s.take(i + 1).drop_last() =~= s.take(i));
    }
}

/// The number that the text writes out, where it is an index the machine can hold.
pub fn parse_index(text: &str) -> (index: Option<usize>)
    ensures
        index == parsed_index(text@),
{
    let chars = chars_of(text);
    let start: usize = if chars.len() > 0 && chars[0] == '+' {
        1
    } else {
        0
    };
    let ghost digits = without_plus(text@);
    proof {
        assert(digits =~= chars@.skip(start as int));
    }
    if start == chars.len() {
        return None;
    }
    let mut i: usize = start;
    while i < chars.len()
        invariant
            start <= i <= chars@.len(),
            digits == chars@.skip(start as int),
            digits == without_plus(text@),
            forall|j: int| 0 <= j < i - start ==> is_decimal_digit(digits[j]),
        decreases chars@.len() - i,
    {
        let c = chars[i];
        if c < '0' || '9' < c {
            proof {
                assert(digits[i - start] == c);
            }
            return None;
        }
        i += 1;
    }
    let mut value: usize = 0;
    let mut k: usize = start;
    while k < chars.len()
        invariant
            start <= k <= chars@.len(),
            digits == chars@.skip(start as int),
            digits.len() > 0,
            all_decimal(digits),
            value == decimal_value(digits.take(k - start)),
            parsed_number(text@) == Some(decimal_value(digits)),
        decreases chars@.len() - k,
    {
        proof {
            assert(digits[k - start] == chars@[k as int]);
        }
        let digit: usize = (chars[k] as u32 - 48) as usize;
        proof {
            assert(digits.take(k - start + 1).drop_last() =~= digits.take(k - start));
            assert(digits.take(k - start + 1).last() == chars@[k as int]);
            lemma_decimal_value_grows(digits, k - start + 1);
        }
        if value > (usize::MAX - digit) / 10 {
            proof {
                assert(value * 10 + digit > usize::MAX);
            }
            return None;
        }
        value = value * 10 + digit;
        k += 1;
    }
    proof {
        assert(digits.take(k - start) =~= digits);
    }
    Some(value)
}

/// Reading back the decimal digits of a number gives that number.
pub proof fn law_decimal_reads_back(n: nat)
    ensures
        parsed_number(decimal(n)) == Some(n),
{
    lemma_decimal_digits(n);
    assert(decimal(n)[0] != '+');
}

proof fn lemma_decimal_digits(n: nat)
    ensures
        decimal(n).len() > 0,
        all_decimal(decimal(n)),
        decimal_value(decimal(n)) == n,
    decreases n,
{
    reveal_with_fuel(decimal_value, 2);
    if n >= 10 {
        lemma_decimal_digits(n / 10);
        assert(decimal(n).drop_last() =~= decimal(n / 10));
    } else {
        assert(decimal(n).drop_last() =~= Seq::<char>::empty());
    }
}

/// An optional text is seen as the characters that it has, and a list of texts one by one.
pub proof fn law_texts_are_seen_whole(owned: String, borrowed: &str, list: Seq<String>)
    ensures
        text_view(Some(owned)) == Some(owned@),
        text_view(None) == None::<Seq<char>>,
        str_view(Some(borrowed)) == Some(borrowed@),
        str_view(None) == None::<Seq<char>>,
        texts(list).len() == list.len(),
        forall|i: int| 0 <= i < list.len() ==> #[trigger] texts(list)[i] == list[i]@,
{
}

proof fn lemma_trim_start(s: Seq<char>) -> (start: int)
    ensures
        0 <= start <= s.len(),
        trim_start(s) == s.skip(start),
        forall|k: int| 0 <= k < start ==> is_white_space(s[k]),
        start < s.len() ==> !is_white_space(s[start]),
    decreases s.len(),
{
    if s.len() > 0 && is_white_space(s.first()) {
        let shorter = s.drop_first();
        let start = lemma_trim_start(shorter);
        assert(shorter.skip(start) =~= s.skip(start + 1));
        assert forall|k: int| 0 <= k < start + 1 implies is_white_space(s[k]) by {
            if k > 0 {
                assert(s[k] == shorter[k - 1]);
            }
        }
        if start + 1 < s.len() {
            assert(s[start + 1] == shorter[start]);
        }
        start + 1
    } else {
        assert(s.skip(0) =~= s);
        0
    }
}

proof fn lemma_trim_end(s: Seq<char>) -> (end: int)
    ensures
        0 <= end <= s.len(),
        trim_end(s) == s.take(end),
        forall|k: int| end <= k < s.len() ==> is_white_space(s[k]),
        end > 0 ==> !is_white_space(s[end - 1]),
    decreases s.len(),
{
    if s.len() > 0 && is_white_space(s.last()) {
        let shorter = s.drop_last();
        let end = lemma_trim_end(shorter);
        assert(shorter.take(end) =~= s.take(end));
        assert forall|k: int| end <= k < s.len() implies is_white_space(s[k]) by {
            if k < s.len() - 1 {
                assert(s[k] == shorter[k]);
            }
        }
        if end > 0 {
            assert(s[end - 1] == shorter[end - 1]);
        }
        end
    } else {
        assert(s.take(s.len() as int) =~= s);
        s.len() as int
    }
}

/// What is left of a text once it is trimmed is a stretch of it: only white space stands before and
/// behind the stretch, and none at its two ends.
pub proof fn law_trimmed(s: Seq<char>)
    ensures
        exists|i: int, j: int|
            #![trigger s.subrange(i, j)]
            {
                &&& 0 <= i <= j <= s.len()
                &&& trimmed(s) == s.subrange(i, j)
                &&& forall|k: int| 0 <= k < i ==> is_white_space(s[k])
                &&& forall|k: int| j <= k < s.len() ==> is_white_space(s[k])
                &&& i < j ==> !is_white_space(s[i]) && !is_white_space(s[j - 1])
            },
{
    let i = lemma_trim_start(s);
    let rest = s.skip(i);
    let n = lemma_trim_end(rest);
    let j = i + n;
    assert(rest.take(n) =~= s.subrange(i, j));
    assert forall|k: int| j <= k < s.len() implies is_white_space(s[k]) by {
        assert(s[k] == rest[k - i]);
    }
    if i < j {
        assert(s[j - 1] == rest[n - 1]);
    }
}

/// White space around a text that neither starts nor ends with any is taken away, and nothing else.
pub proof fn law_trimming_finds_the_core(before: Seq<char>, core: Seq<char>, after: Seq<char>)
    requires
        forall|k: int| 0 <= k < before.len() ==> is_white_space(before[k]),
        forall|k: int| 0 <= k < after.len() ==> is_white_space(after[k]),
        core.len() > 0 ==> !is_white_space(core.first()) && !is_white_space(core.last()),
    ensures
        trimmed(before + core + after) == core,
{
    let s = before + core + after;
    let i = lemma_trim_start(s);
    let rest = s.skip(i);
    let n = lemma_trim_end(rest);
    if core.len() > 0 {
        assert(s[before.len() as int] == core.first());
        assert(s[before.len() + core.len() - 1] == core.last());
        if i < before.len() {
            assert(s[i] == before[i]);
        }
        assert(i == before.len());
        assert(rest[core.len() - 1] == core.last());
        if n > core.len() {
            assert(rest[n - 1] == after[n - 1 - core.len()]);
        }
        assert(n == core.len());
        assert(rest.take(n) =~= core);
    } else {
        if i < s.len() {
            if i < before.len() {
                assert(s[i] == before[i]);
            } else {
                assert(s[i] == after[i - before.len()]);
            }
        }
        assert(rest.take(n) =~= core);
    }
}

/// Pieces put together again, with `separator` between them.
pub open spec fn joined(pieces: Seq<Seq<char>>, separator: char) -> Seq<char>
    decreases pieces.len(),
{
    if pieces.len() == 0 {
        Seq::empty()
    } else if pieces.len() == 1 {
        pieces[0]
    } else {
        joined(pieces.drop_last(), separator).push(separator) + pieces.last()
    }
}

/// The pieces of a split, put together again, are the text, and no piece holds a separator.
pub proof fn law_split_pieces(s: Seq<char>, separator: char)
    ensures
        split_on(s, separator).len() >= 1,
        joined(split_on(s, separator), separator) == s,
        forall|i: int, k: int|
            0 <= i < split_on(s, separator).len() && 0 <= k < split_on(s, separator)[i].len()
                ==> #[trigger] split_on(s, separator)[i][k] != separator,
    decreases s.len(),
{
    if s.len() == 0 {
        assert(split_on(s, separator)[0] =~= s);
    } else {
        let shorter = s.drop_last();
        law_split_pieces(shorter, separator);
        let before = split_on(shorter, separator);
        let pieces = split_on(s, separator);
        assert(shorter.push(s.last()) =~= s);
        if s.last() == separator {
            assert(pieces.drop_last() =~= before);
            assert(joined(pieces, separator) =~= s);
        } else {
            assert(pieces.drop_last() =~= before.drop_last());
            if before.len() == 1 {
                assert(joined(pieces, separator) =~= s);
            } else {
                assert(joined(pieces, separator) =~= joined(before, separator).push(s.last()));
            }
            assert forall|i: int, k: int|
                0 <= i < pieces.len() && 0 <= k < pieces[i].len() implies #[trigger] pieces[i][k]
                != separator by {
                if i < pieces.len() - 1 {
                    assert(pieces[i] == before[i]);
                } else if k < before.last().len() {
                    assert(before[before.len() - 1][k] != separator);
                }
            }
        }
    }
}

/// Characters other than the separator make the last piece longer, and touch no other.
pub proof fn lemma_split_grows(s: Seq<char>, t: Seq<char>, separator: char)
    requires
        forall|k: int| 0 <= k < t.len() ==> t[k] != separator,
    ensures
        split_on(s + t, separator) == split_on(s, separator).drop_last().push(
            split_on(s, separator).last() + t,
        ),
    decreases t.len(),
{
    law_split_pieces(s, separator);
    let pieces = split_on(s, separator);
    if t.len() == 0 {
        assert(s + t =~= s);
        assert(pieces.last() + t =~= pieces.last());
        assert(pieces.drop_last().push(pieces.last()) =~= pieces);
    } else {
        let shorter = t.drop_last();
        lemma_split_grows(s, shorter, separator);
        assert((s + t).drop_last() =~= s + shorter);
        assert((s + t).last() == t.last());
        let grown = pieces.drop_last().push(pieces.last() + shorter);
        assert(grown.drop_last() =~= pieces.drop_last());
        assert((pieces.last() + shorter).push(t.last()) =~= pieces.last() + t);
    }
}

/// More text behind a separator leaves the pieces before it as they are.
pub proof fn lemma_split_keeps_pieces(s: Seq<char>, t: Seq<char>, separator: char, i: int)
    requires
        0 <= i < split_on(s, separator).len(),
    ensures
        split_on(s.push(separator) + t, separator).len() > split_on(s, separator).len(),
        split_on(s.push(separator) + t, separator)[i] == split_on(s, separator)[i],
    decreases t.len(),
{
    let first = s.push(separator);
    assert(first.drop_last() =~= s);
    if t.len() == 0 {
        assert(first + t =~= first);
    } else {
        lemma_split_keeps_pieces(s, t.drop_last(), separator, i);
        assert((first + t).drop_last() =~= first + t.drop_last());
        assert((first + t).last() == t.last());
    }
}

/// Only the letters from A to Z change case, each to the letter thirty-two places further on or
/// back, and the length stays.
pub proof fn law_case_of_ascii_letters(s: Seq<char>, i: int)
    requires
        0 <= i < s.len(),
    ensures
        ascii_lowered(s).len() == s.len(),
        ascii_uppered(s).len() == s.len(),
        ascii_lowered(s)[i] as int == if 65 <= s[i] as int <= 90 {
            s[i] as int + 32
        } else {
            s[i] as int
        },
        ascii_uppered(s)[i] as int == if 97 <= s[i] as int <= 122 {
            s[i] as int - 32
        } else {
            s[i] as int
        },
{
}

/// The decimal digits of a number: the last is its remainder by ten, those before it are the digits
/// of its tenth, and a number below ten has one digit.
pub proof fn law_decimal_digits(n: nat)
    ensures
        decimal(n).len() >= 1,
        decimal(n).last() as int == 48 + n % 10,
        n < 10 ==> decimal(n).len() == 1,
        n >= 10 ==> decimal(n).drop_last() == decimal(n / 10),
        n > 0 ==> decimal(n)[0] as int != 48,
        forall|i: int| 0 <= i < decimal(n).len() ==> 48 <= #[trigger] decimal(n)[i] as int <= 57,
    decreases n,
{
    if n >= 10 {
        law_decimal_digits(n / 10);
        assert(decimal(n).drop_last() =~= decimal(n / 10));
    }
}

/// What a text must be to be read as a number, and as which: decimal digits, at least one, with one
/// plus sign before them or none. A further digit is worth itself and makes the rest worth ten times
/// as much.
pub proof fn law_numbers_are_read_digit_by_digit(s: Seq<char>, digit: char)
    requires
        48 <= digit as int <= 57,
    ensures
        parsed_number(Seq::empty()) is None,
        parsed_number(seq!['+']) is None,
        parsed_number(seq![digit]) == Some((digit as int - 48) as nat),
        parsed_number(seq!['+', digit]) == Some((digit as int - 48) as nat),
        parsed_number(s) matches Some(n) ==> parsed_number(s.push(digit)) == Some(
            (10 * n + (digit as int - 48)) as nat,
        ),
        parsed_number(s) is Some ==> forall|i: int|
            0 <= i < s.len() ==> 48 <= #[trigger] s[i] as int <= 57 || i == 0 && s[i] == '+',
        parsed_number(s) is None && s.len() > 0 && s != seq!['+'] ==> exists|i: int|
            0 <= i < s.len() && !(48 <= #[trigger] s[i] as int <= 57) && !(i == 0 && s[i] == '+'),
        parsed_index(s) == match parsed_number(s) {
            Some(n) => if n <= usize::MAX {
                Some(n as usize)
            } else {
                None
            },
            None => None,
        },
{
    reveal_with_fuel(decimal_value, 3);
    assert(seq!['+', digit].drop_first() =~= seq![digit]);
    assert(seq!['+'].drop_first() =~= Seq::<char>::empty());
    assert(without_plus(seq![digit]) =~= seq![digit]);
    assert(seq![digit].drop_last() =~= Seq::<char>::empty());
    assert(all_decimal(seq![digit]));
    let digits = without_plus(s);
    if parsed_number(s) is Some {
        assert(without_plus(s.push(digit)) =~= digits.push(digit));
        assert(digits.push(digit).drop_last() =~= digits);
        assert(all_decimal(digits.push(digit)));
        assert forall|i: int| 0 <= i < s.len() implies 48 <= #[trigger] s[i] as int <= 57 || i == 0
            && s[i] == '+' by {
            if s[0] == '+' {
                if i > 0 {
                    assert(digits[i - 1] == s[i]);
                }
            } else {
                assert(digits[i] == s[i]);
            }
        }
    } else if s.len() > 0 && s != seq!['+'] {
        if digits.len() == 0 {
            assert(s =~= seq!['+']);
        }
        let k = choose|k: int| 0 <= k < digits.len() && !is_decimal_digit(digits[k]);
        if s[0] == '+' {
            assert(s[k + 1] == digits[k]);
        } else {
            assert(s[k] == digits[k]);
        }
    }
}

} // verus!
