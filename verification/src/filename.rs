//! File names for accessories.
use vstd::prelude::*;

use crate::accessory::BeaconAccessory;
use crate::identity;
use crate::text;

verus! {

/// Whether Unicode counts `c` as a letter or as a number.
pub uninterp spec fn alphanumeric(c: char) -> bool;

/// `char::is_alphanumeric` tells letters and numbers of any script from other characters. Of the
/// ASCII characters, the letters and the decimal digits are such.
pub assume_specification[ char::is_alphanumeric ](c: char) -> (yes: bool)
    ensures
        yes == alphanumeric(c),
        c <= '\u{7f}' ==> yes == identity::is_ascii_alphanumeric(c),
;

/// `c`, or an underscore where `c` has no place in a file name.
pub open spec fn safe_char(c: char) -> char {
    if alphanumeric(c) || c == '-' || c == '_' {
        c
    } else {
        '_'
    }
}

/// `s` with an underscore for each character that has no place in a file name.
pub open spec fn safe_text(s: Seq<char>) -> Seq<char> {
    s.map_values(|c: char| safe_char(c))
}

/// Whether `s` has a letter or a number in it.
pub open spec fn says_something(s: Seq<char>) -> bool {
    exists|i: int| 0 <= i < s.len() && #[trigger] alphanumeric(s[i])
}

/// A part of a file name for `value`: `value` made safe, or `fallback` where no letter and no
/// number is left.
pub open spec fn component(value: Seq<char>, fallback: Seq<char>) -> Seq<char> {
    if says_something(safe_text(value)) {
        safe_text(value)
    } else {
        fallback
    }
}

/// Whether `c` is no ASCII character, or an ASCII letter or digit, a hyphen or an underscore. So a
/// portable character separates no paths, and starts no file extension.
pub open spec fn is_portable(c: char) -> bool {
    c > '\u{7f}' || identity::is_ascii_alphanumeric(c) || c == '-' || c == '_'
}

/// Whether every character of `s` is portable.
pub open spec fn all_portable(s: Seq<char>) -> bool {
    forall|i: int| 0 <= i < s.len() ==> is_portable(#[trigger] s[i])
}

/// A part of a file name for `value`: letters, numbers, hyphens and underscores as they are, and
/// an underscore for every other character; `fallback` where no letter and no number is left.
pub fn sanitize_filename_component(value: &str, fallback: &str) -> (part: String)
    ensures
        part@ == component(value@, fallback@),
        all_portable(fallback@) ==> all_portable(part@),
{
    let chars = text::chars_of(value);
    let mut sanitized = String::new();
    let mut something = false;
    let mut i: usize = 0;
    while i < chars.len()
        invariant
            i <= chars@.len(),
            sanitized@ == safe_text(chars@.take(i as int)),
            something == says_something(sanitized@),
            all_portable(sanitized@),
        decreases chars@.len() - i,
    {
        let c = chars[i];
        let kept = if c.is_alphanumeric() || c == '-' || c == '_' {
            c
        } else {
            '_'
        };
        let ghost before = sanitized@;
        sanitized.push(kept);
        let counts = kept.is_alphanumeric();
        proof {
            assert(sanitized@ =~= safe_text(chars@.take(i + 1)));
            assert(sanitized@[i as int] == kept);
            if something {
                let j = choose|j: int| 0 <= j < before.len() && #[trigger] alphanumeric(before[j]);
                assert(alphanumeric(sanitized@[j]));
            }
            if says_something(sanitized@) && !alphanumeric(kept) {
                let j = choose|j: int|
                    0 <= j < sanitized@.len() && #[trigger] alphanumeric(sanitized@[j]);
                assert(alphanumeric(before[j]));
            }
        }
        something = something || counts;
        i += 1;
    }
    proof {
        assert(chars@.take(i as int) =~= chars@);
    }
    if something {
        sanitized
    } else {
        fallback.to_owned()
    }
}

/// The file name, without extension, of an accessory.
pub open spec fn basename(name: Seq<char>, model: Seq<char>, stable_identifier: Seq<char>) -> Seq<
    char,
> {
    component(name, "Unknown"@) + "_"@ + component(model, "unknown-model"@) + "_"@ + component(
        stable_identifier,
        "unknown-id"@,
    )
}

/// The file name, without extension, of an accessory: its name, model and stable identifier.
pub fn accessory_basename(name: &str, model: &str, stable_identifier: &str) -> (base: String)
    ensures
        base@ == basename(name@, model@, stable_identifier@),
        all_portable(base@),
{
    proof {
        reveal_strlit("Unknown");
        reveal_strlit("unknown-model");
        reveal_strlit("unknown-id");
        reveal_strlit("_");
        assert(all_portable("Unknown"@));
        assert(all_portable("unknown-model"@));
        assert(all_portable("unknown-id"@));
        assert(all_portable("_"@));
    }
    let safe_name = sanitize_filename_component(name, "Unknown");
    let safe_model = sanitize_filename_component(model, "unknown-model");
    let safe_identifier = sanitize_filename_component(stable_identifier, "unknown-id");
    safe_name.concat("_").concat(safe_model.as_str()).concat("_").concat(safe_identifier.as_str())
}

/// Two accessories with the same name and model share a file name exactly where their identifiers
/// come out the same once they are made safe.
pub proof fn law_same_name_and_model(
    name: Seq<char>,
    model: Seq<char>,
    first: Seq<char>,
    second: Seq<char>,
)
    ensures
        basename(name, model, first) == basename(name, model, second) <==> component(
            first,
            "unknown-id"@,
        ) == component(second, "unknown-id"@),
{
    let prefix = component(name, "Unknown"@) + "_"@ + component(model, "unknown-model"@) + "_"@;
    let a = component(first, "unknown-id"@);
    let b = component(second, "unknown-id"@);
    if basename(name, model, first) == basename(name, model, second) {
        assert(a =~= (prefix + a).skip(prefix.len() as int));
        assert(b =~= (prefix + b).skip(prefix.len() as int));
    }
}

/// Two accessories with the same name and model, and with different identifiers that are safe as
/// they are and say something, never share a file name.
pub proof fn law_distinct_identifiers(
    name: Seq<char>,
    model: Seq<char>,
    first: Seq<char>,
    second: Seq<char>,
)
    requires
        safe_text(first) == first,
        safe_text(second) == second,
        says_something(first),
        says_something(second),
        first != second,
    ensures
        basename(name, model, first) != basename(name, model, second),
{
    law_same_name_and_model(name, model, first, second);
}

/// The file names given out so far.
#[derive(Debug)]
pub struct OutputNames {
    taken: Vec<String>,
}

/// The pair of files of an accessory.
#[derive(Debug)]
pub struct OutputPair {
    pub plist: String,
    pub json: String,
}

/// What becomes of the two file names of an accessory: both are given out, or, where one of them
/// was given out before, that one comes back as the error.
pub open spec fn claims(
    before: Set<Seq<char>>,
    base: Seq<char>,
    pair: Result<OutputPair, String>,
    after: Set<Seq<char>>,
) -> bool {
    let plist = base + ".plist"@;
    let json = base + ".json"@;
    if before.contains(plist) {
        &&& pair matches Err(taken) && taken@ == plist
        &&& after == before
    } else if before.contains(json) {
        &&& pair matches Err(taken) && taken@ == json
        &&& after == before.insert(plist)
    } else {
        &&& pair matches Ok(p) && p.plist@ == plist && p.json@ == json
        &&& after == before.insert(plist).insert(json)
    }
}

impl OutputNames {
    /// The file names given out so far.
    pub closed spec fn names(&self) -> Set<Seq<char>> {
        text::texts(self.taken@).to_set()
    }

    /// No file name given out.
    pub fn new() -> (names: OutputNames)
        ensures
            names.names() == Set::<Seq<char>>::empty(),
    {
        let names = OutputNames { taken: Vec::new() };
        proof {
            assert(text::texts(names.taken@) =~= Seq::<Seq<char>>::empty());
            assert(names.names() =~= Set::<Seq<char>>::empty());
        }
        names
    }

    /// Whether `name` was given out.
    pub fn contains(&self, name: &str) -> (yes: bool)
        ensures
            yes == self.names().contains(name@),
    {
        let mut i: usize = 0;
        while i < self.taken.len()
            invariant
                i <= self.taken@.len(),
                forall|j: int| 0 <= j < i ==> self.taken@[j]@ != name@,
            decreases self.taken@.len() - i,
        {
            if text::same_text(self.taken[i].as_str(), name) {
                proof {
                    assert(text::texts(self.taken@)[i as int] == name@);
                }
                return true;
            }
            i += 1;
        }
        proof {
            assert forall|j: int| 0 <= j < text::texts(self.taken@).len() implies text::texts(
                self.taken@,
            )[j] != name@ by {
                assert(text::texts(self.taken@)[j] == self.taken@[j]@);
            }
        }
        false
    }

    fn take(&mut self, name: String)
        ensures
            final(self).names() == old(self).names().insert(name@),
    {
        let ghost before = self.taken@;
        let ghost added = name@;
        self.taken.push(name);
        proof {
            assert(text::texts(self.taken@) =~= text::texts(before).push(added));
            assert forall|s: Seq<char>| self.names().contains(s) == old(self).names().insert(
                added,
            ).contains(s) by {
                let all = text::texts(before).push(added);
                if text::texts(before).contains(s) {
                    let j = choose|j: int|
                        0 <= j < text::texts(before).len() && text::texts(before)[j] == s;
                    assert(all[j] == s);
                }
                if s == added {
                    assert(all[before.len() as int] == s);
                }
            }
            assert(self.names() =~= old(self).names().insert(added));
        }
    }

    /// Gives out the two file names of an accessory. Where one of them was given out before, that
    /// name comes back as the error.
    pub fn claim(&mut self, base: &str) -> (pair: Result<OutputPair, String>)
        ensures
            claims(old(self).names(), base@, pair, final(self).names()),
    {
        let plist = base.to_owned().concat(".plist");
        let json = base.to_owned().concat(".json");
        proof {
            law_plist_and_json_differ(base@);
        }
        if self.contains(plist.as_str()) {
            return Err(plist);
        }
        self.take(plist.clone());
        if self.contains(json.as_str()) {
            return Err(json);
        }
        self.take(json.clone());
        Ok(OutputPair { plist, json })
    }
}

impl OutputNames {
    /// Gives out the two file names of an accessory: those of its name, model and stable identifier.
    pub fn claim_for(&mut self, acc: &BeaconAccessory) -> (pair: Result<OutputPair, String>)
        ensures
            ({
                let base = basename(
                    acc.naming.name@,
                    acc.master_record.model@,
                    acc.master_record.stable_identifier@,
                );
                claims(old(self).names(), base, pair, final(self).names())
            }),
    {
        let base = accessory_basename(
            acc.naming.name.as_str(),
            acc.master_record.model.as_str(),
            acc.master_record.stable_identifier.as_str(),
        );
        self.claim(base.as_str())
    }
}

/// The files of two accessories whose names differ without extension differ too, each from each.
pub proof fn law_pairs_are_disjoint(first: Seq<char>, second: Seq<char>)
    requires
        first != second,
    ensures
        first + ".plist"@ != second + ".plist"@,
        first + ".json"@ != second + ".json"@,
        first + ".plist"@ != second + ".json"@,
        first + ".json"@ != second + ".plist"@,
{
    reveal_strlit(".plist");
    reveal_strlit(".json");
    let plist = ".plist"@;
    let json = ".json"@;
    assert((first + plist).take((first + plist).len() - 6) =~= first);
    assert((second + plist).take((second + plist).len() - 6) =~= second);
    assert((first + json).take((first + json).len() - 5) =~= first);
    assert((second + json).take((second + json).len() - 5) =~= second);
    assert((first + plist).last() == 't' && (second + plist).last() == 't');
    assert((first + json).last() == 'n' && (second + json).last() == 'n');
}

/// The two files of an accessory have different names.
pub proof fn law_plist_and_json_differ(base: Seq<char>)
    ensures
        base + ".plist"@ != base + ".json"@,
{
    reveal_strlit(".plist");
    reveal_strlit(".json");
    assert((base + ".plist"@).len() != (base + ".json"@).len());
}

/// The name of the hidden file that is written in place of another, before it replaces that one.
pub open spec fn temporary_name(file_name: Option<Seq<char>>, token: Seq<char>) -> Seq<char> {
    let replaced = match file_name {
        Some(name) => name,
        None => "device-profile.toml"@,
    };
    "."@ + replaced + "."@ + token + ".tmp"@
}

/// The name of the hidden file that is written in place of another. `file_name` is the last part of
/// the other's path, where the path has one and it is Unicode text.
pub fn temporary_file_name(file_name: Option<&str>, token: &str) -> (name: String)
    ensures
        name@ == temporary_name(text::str_view(file_name), token@),
{
    let replaced = match file_name {
        Some(name) => name,
        None => "device-profile.toml",
    };
    ".".to_owned().concat(replaced).concat(".").concat(token).concat(".tmp")
}

/// A hidden file name that no other write is likely to use.
pub fn fresh_temporary_file_name(file_name: Option<&str>) -> (name: String)
    ensures
        exists|token: Seq<char>|
            identity::is_random_simple_uuid(token) && name@ == #[trigger] temporary_name(
                text::str_view(file_name),
                token,
            ),
{
    let token = identity::random_simple_uuid();
    temporary_file_name(file_name, token.as_str())
}

/// Different tokens make different temporary names, so that no write disturbs another.
pub proof fn law_tokens_keep_writes_apart(
    file_name: Option<Seq<char>>,
    first: Seq<char>,
    second: Seq<char>,
)
    requires
        temporary_name(file_name, first) == temporary_name(file_name, second),
    ensures
        first == second,
{
    let replaced = match file_name {
        Some(name) => name,
        None => "device-profile.toml"@,
    };
    let prefix = "."@ + replaced + "."@;
    let a = temporary_name(file_name, first);
    let b = temporary_name(file_name, second);
    let suffix = ".tmp"@.len() as int;
    assert(a.subrange(prefix.len() as int, a.len() - suffix) =~= first);
    assert(b.subrange(prefix.len() as int, b.len() - suffix) =~= second);
}

/// A part of a file name keeps the length of a value that has a letter or a number in it. Each of
/// its characters stays where it is a letter, a number, a hyphen or an underscore, and is an
/// underscore otherwise. A value without letters and numbers gives way to the fallback as it is.
pub proof fn law_component(value: Seq<char>, fallback: Seq<char>)
    ensures
        (exists|i: int| 0 <= i < value.len() && #[trigger] alphanumeric(value[i])) ==> {
            &&& component(value, fallback).len() == value.len()
            &&& forall|i: int|
                0 <= i < value.len() ==> #[trigger] component(value, fallback)[i] == if alphanumeric(
                    value[i],
                ) || value[i] == '-' || value[i] == '_' {
                    value[i]
                } else {
                    '_'
                }
        },
        !alphanumeric('_') && !(exists|i: int|
            0 <= i < value.len() && #[trigger] alphanumeric(value[i])) ==> component(
            value,
            fallback,
        ) == fallback,
{
    let safe = safe_text(value);
    if exists|i: int| 0 <= i < value.len() && #[trigger] alphanumeric(value[i]) {
        let i = choose|i: int| 0 <= i < value.len() && #[trigger] alphanumeric(value[i]);
        assert(alphanumeric(safe[i]));
    } else if !alphanumeric('_') && says_something(safe) {
        let i = choose|i: int| 0 <= i < safe.len() && #[trigger] alphanumeric(safe[i]);
        assert(!alphanumeric(value[i]));
    }
}

/// The file name of an accessory is its name, its model and its identifier, in this order, each made
/// safe by itself, with an underscore between them.
pub proof fn law_basename(name: Seq<char>, model: Seq<char>, stable_identifier: Seq<char>)
    ensures
        basename(name, model, stable_identifier) == component(name, "Unknown"@) + seq!['_']
            + component(model, "unknown-model"@) + seq!['_'] + component(
            stable_identifier,
            "unknown-id"@,
        ),
{
    reveal_strlit("_");
    assert("_"@ =~= seq!['_']);
}

/// Portable characters stand in no path for anything but themselves: none is a separator, a dot, a
/// colon, a quote, white space or a control character.
pub proof fn law_portable_characters(s: Seq<char>, i: int)
    requires
        all_portable(s),
        0 <= i < s.len(),
    ensures
        s[i] as int > 127 || 48 <= s[i] as int <= 57 || 65 <= s[i] as int <= 90 || 97 <= s[i] as int
            <= 122 || s[i] == '-' || s[i] == '_',
        s[i] != '/' && s[i] != '.' && s[i] != ':' && s[i] != ' ' && s[i] != '\u{0}',
{
}

/// What becomes of a claim: it succeeds exactly where neither file name was given out before, and
/// then gives both, with the two extensions, and notes both. Otherwise it comes back with the one
/// that was given out, and nothing that was noted is forgotten.
pub proof fn law_claim(
    before: Set<Seq<char>>,
    base: Seq<char>,
    pair: Result<OutputPair, String>,
    after: Set<Seq<char>>,
)
    requires
        claims(before, base, pair, after),
    ensures
        pair is Ok <==> !before.contains(base + ".plist"@) && !before.contains(base + ".json"@),
        pair matches Ok(files) ==> files.plist@ == base + ".plist"@ && files.json@ == base
            + ".json"@,
        pair is Ok ==> forall|name: Seq<char>| #[trigger]
            after.contains(name) <==> before.contains(name) || name == base + ".plist"@ || name
                == base + ".json"@,
        pair matches Err(taken) ==> before.contains(taken@) && (taken@ == base + ".plist"@ || taken@
            == base + ".json"@),
        pair is Err ==> forall|name: Seq<char>| #[trigger]
            after.contains(name) ==> before.contains(name) || name == base + ".plist"@,
        before.subset_of(after),
{
}

/// No file name is given out twice: after a claim has succeeded, a second one for the same base name
/// fails, and one for another base name succeeds where it would have before.
pub proof fn law_two_claims(
    before: Set<Seq<char>>,
    first: Seq<char>,
    second: Seq<char>,
    pair: Result<OutputPair, String>,
    between: Set<Seq<char>>,
    later: Result<OutputPair, String>,
    after: Set<Seq<char>>,
)
    requires
        claims(before, first, pair, between),
        claims(between, second, later, after),
        pair is Ok,
    ensures
        first == second ==> later is Err,
        first != second ==> (later is Ok <==> !before.contains(second + ".plist"@)
            && !before.contains(second + ".json"@)),
{
    if first != second {
        law_pairs_are_disjoint(first, second);
    }
}

/// A temporary file is hidden, is called after the file that it replaces, carries the token, and
/// ends in an extension of its own.
pub proof fn law_temporary_name(name: Seq<char>, token: Seq<char>)
    ensures
        temporary_name(Some(name), token) == seq!['.'] + name + seq!['.'] + token + seq![
            '.',
            't',
            'm',
            'p',
        ],
        temporary_name(None, token) == temporary_name(Some("device-profile.toml"@), token),
{
    reveal_strlit(".");
    reveal_strlit(".tmp");
    assert("."@ =~= seq!['.']);
    assert(".tmp"@ =~= seq!['.', 't', 'm', 'p']);
}

} // verus!
