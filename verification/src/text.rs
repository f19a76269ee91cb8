//! Character-level text utilities for the line and datagram protocols.
//!
//! Text is handled as sequences of Unicode scalar values. Character classes
//! follow Rust's `char::is_whitespace` (the Unicode `White_Space` property),
//! `char::is_ascii_whitespace` and `char::is_control` (general category `Cc`);
//! decimal numbers follow Rust's unsigned integer `from_str` and `Display`.
use vstd::prelude::*;
use vstd::utf8::{decode_utf8, valid_utf8};

verus! {

broadcast use vstd::string::group_string_axioms;

// ---------------------------------------------------------------------------
// Conversions between text and characters
// ---------------------------------------------------------------------------
/// The characters of `text`.
pub fn str_to_chars(text: &str) -> (chars: Vec<char>)
    ensures
        chars@ == text@,
{
    let mut chars: Vec<char> = Vec::new();
    for c in iter: text.chars()
        invariant
            chars@ == iter.seq().subrange(0, iter.index() as int),
            iter.seq() == text@,
    {
        chars.push(c);
    }
    chars
}

/// A `String` holding exactly `chars`.
///
/// Calls `FromIterator<&char>` for `String` (`Iterator::collect`), which
/// appends each character in order; the contract states that the resulting
/// string holds the given characters in that order.
#[verifier::external_body]
pub(crate) fn chars_to_string(chars: &[char]) -> (text: String)
    ensures
        text@ == chars@,
{
    chars.iter().collect()
}

/// Decode `bytes` as UTF-8.
///
/// Calls `std::str::from_utf8`, which succeeds exactly on valid UTF-8 and
/// then borrows the same bytes as a `str`; the contract states that the
/// decoded characters are the UTF-8 decoding of the bytes.
#[verifier::external_body]
pub(crate) fn utf8_decode(bytes: &[u8]) -> (text: Option<&str>)
    ensures
        text is Some <==> valid_utf8(bytes@),
        text matches Some(decoded) ==> decoded@ == decode_utf8(bytes@),
{
    std::str::from_utf8(bytes).ok()
}

// ---------------------------------------------------------------------------
// Character classes
// ---------------------------------------------------------------------------
/// Unicode `White_Space`, as tested by `char::is_whitespace`.
pub open spec fn is_unicode_whitespace(c: char) -> bool {
    let u = c as u32;
    ||| 0x09 <= u <= 0x0d
    ||| u == 0x20
    ||| u == 0x85
    ||| u == 0xa0
    ||| u == 0x1680
    ||| 0x2000 <= u <= 0x200a
    ||| u == 0x2028
    ||| u == 0x2029
    ||| u == 0x202f
    ||| u == 0x205f
    ||| u == 0x3000
}

/// ASCII whitespace, as tested by `char::is_ascii_whitespace`.
pub open spec fn is_ascii_whitespace(c: char) -> bool {
    c == ' ' || c == '\t' || c == '\n' || c == '\x0C' || c == '\r'
}

/// The separator used to split tokens: Unicode or ASCII whitespace.
pub open spec fn is_separator(c: char, ascii: bool) -> bool {
    if ascii {
        is_ascii_whitespace(c)
    } else {
        is_unicode_whitespace(c)
    }
}

/// A control character (general category `Cc`), as tested by `char::is_control`.
pub open spec fn is_control(c: char) -> bool {
    let u = c as u32;
    u <= 0x1f || (0x7f <= u <= 0x9f)
}

/// An ASCII decimal digit.
pub open spec fn is_digit(c: char) -> bool {
    '0' <= c && c <= '9'
}

pub fn char_is_whitespace(c: char) -> (result: bool)
    ensures
        result == is_unicode_whitespace(c),
{
    let u = c as u32;
    (0x09 <= u && u <= 0x0d) || u == 0x20 || u == 0x85 || u == 0xa0 || u == 0x1680 || (0x2000
        <= u && u <= 0x200a) || u == 0x2028 || u == 0x2029 || u == 0x202f || u == 0x205f || u
        == 0x3000
}

pub fn char_is_separator(c: char, ascii: bool) -> (result: bool)
    ensures
        result == is_separator(c, ascii),
{
    if ascii {
        c == ' ' || c == '\t' || c == '\n' || c == '\x0C' || c == '\r'
    } else {
        char_is_whitespace(c)
    }
}

pub fn char_is_control(c: char) -> (result: bool)
    ensures
        result == is_control(c),
{
    let u = c as u32;
    u <= 0x1f || (0x7f <= u && u <= 0x9f)
}

/// Whether any character of `chars` is a control character.
pub fn any_control(chars: &[char]) -> (result: bool)
    ensures
        result == exists|i: int| 0 <= i < chars@.len() && is_control(#[trigger] chars@[i]),
{
    let mut index: usize = 0;
    while index < chars.len()
        invariant
            index <= chars@.len(),
            forall|i: int| 0 <= i < index ==> !is_control(#[trigger] chars@[i]),
        decreases chars@.len() - index,
    {
        if char_is_control(chars[index]) {
            return true;
        }
        index = index + 1;
    }
    false
}

// ---------------------------------------------------------------------------
// Prefixes, suffixes and searching
// ---------------------------------------------------------------------------
pub open spec fn starts_with(text: Seq<char>, prefix: Seq<char>) -> bool {
    prefix.len() <= text.len() && text.subrange(0, prefix.len() as int) == prefix
}

pub open spec fn ends_with(text: Seq<char>, suffix: Seq<char>) -> bool {
    suffix.len() <= text.len() && text.subrange(text.len() - suffix.len(), text.len() as int)
        == suffix
}

/// `text` without `prefix`, when `text` starts with it (`str::strip_prefix`).
pub open spec fn strip_prefix(text: Seq<char>, prefix: Seq<char>) -> Option<Seq<char>> {
    if starts_with(text, prefix) {
        Some(text.subrange(prefix.len() as int, text.len() as int))
    } else {
        None
    }
}

/// `text` without `suffix`, when `text` ends with it (`str::strip_suffix`).
pub open spec fn strip_suffix(text: Seq<char>, suffix: Seq<char>) -> Option<Seq<char>> {
    if ends_with(text, suffix) {
        Some(text.subrange(0, text.len() - suffix.len()))
    } else {
        None
    }
}

pub fn has_prefix(text: &[char], prefix: &[char]) -> (result: bool)
    ensures
        result == starts_with(text@, prefix@),
{
    if prefix.len() > text.len() {
        return false;
    }
    let mut index: usize = 0;
    while index < prefix.len()
        invariant
            prefix@.len() <= text@.len(),
            index <= prefix@.len(),
            forall|i: int| 0 <= i < index ==> text@[i] == prefix@[i],
        decreases prefix@.len() - index,
    {
        if text[index] != prefix[index] {
            assert(text@.subrange(0, prefix@.len() as int)[index as int] != prefix@[index as int]);
            return false;
        }
        index = index + 1;
    }
    assert(text@.subrange(0, prefix@.len() as int) =~= prefix@);
    true
}

pub fn has_suffix(text: &[char], suffix: &[char]) -> (result: bool)
    ensures
        result == ends_with(text@, suffix@),
{
    if suffix.len() > text.len() {
        return false;
    }
    let total = text.len();
    let offset = total - suffix.len();
    let mut index: usize = 0;
    while index < suffix.len()
        invariant
            offset + suffix@.len() == text@.len(),
            text@.len() == total,
            index <= suffix@.len(),
            forall|i: int| 0 <= i < index ==> text@[offset + i] == suffix@[i],
        decreases suffix@.len() - index,
    {
        if text[offset + index] != suffix[index] {
            assert(text@.subrange(offset as int, text@.len() as int)[index as int]
                != suffix@[index as int]);
            return false;
        }
        index = index + 1;
    }
    assert(text@.subrange(offset as int, text@.len() as int) =~= suffix@);
    true
}

/// Characters `start..end` of `text` as a new vector.
pub fn sub_chars(text: &[char], start: usize, end: usize) -> (part: Vec<char>)
    requires
        start <= end <= text@.len(),
    ensures
        part@ == text@.subrange(start as int, end as int),
{
    let mut part: Vec<char> = Vec::new();
    let mut index = start;
    while index < end
        invariant
            start <= index <= end,
            end <= text@.len(),
            part@ == text@.subrange(start as int, index as int),
        decreases end - index,
    {
        part.push(text[index]);
        index = index + 1;
        assert(part@ =~= text@.subrange(start as int, index as int));
    }
    part
}

/// Whether two character slices are equal.
pub fn chars_equal(left: &[char], right: &[char]) -> (result: bool)
    ensures
        result == (left@ == right@),
{
    if left.len() != right.len() {
        return false;
    }
    let result = has_prefix(left, right);
    proof {
        assert(left@ =~= left@.subrange(0, right@.len() as int));
    }
    result
}

/// Index of the first `needle` in `text`.
pub open spec fn first_index_of(text: Seq<char>, needle: char) -> Option<nat>
    decreases text.len(),
{
    if text.len() == 0 {
        None
    } else if text[0] == needle {
        Some(0)
    } else {
        match first_index_of(text.drop_first(), needle) {
            Some(index) => Some(index + 1),
            None => None,
        }
    }
}

pub proof fn lemma_first_index_of(text: Seq<char>, needle: char)
    ensures
        first_index_of(text, needle) matches Some(index) ==> index < text.len() && text[index as int]
            == needle && forall|j: int| 0 <= j < index ==> text[j] != needle,
        first_index_of(text, needle) is None ==> forall|j: int|
            0 <= j < text.len() ==> text[j] != needle,
    decreases text.len(),
{
    if text.len() > 0 {
        lemma_first_index_of(text.drop_first(), needle);
        if text[0] != needle {
            assert forall|j: int| 1 <= j < text.len() implies text[j] == text.drop_first()[j - 1] by {}
        }
    }
}

pub proof fn lemma_first_index_of_unique(text: Seq<char>, needle: char, index: nat)
    requires
        index < text.len(),
        text[index as int] == needle,
        forall|j: int| 0 <= j < index ==> text[j] != needle,
    ensures
        first_index_of(text, needle) == Some(index),
{
    lemma_first_index_of(text, needle);
    match first_index_of(text, needle) {
        Some(found) => {
            if found < index {
                assert(text[found as int] != needle);
            } else if found > index {
                assert(text[index as int] != needle);
            }
        },
        None => {
            assert(text[index as int] != needle);
        },
    }
}

pub fn find_char(text: &[char], needle: char) -> (found: Option<usize>)
    ensures
        match first_index_of(text@, needle) {
            Some(index) => found == Some(index as usize),
            None => found is None,
        },
{
    proof {
        lemma_first_index_of(text@, needle);
    }
    let mut index: usize = 0;
    while index < text.len()
        invariant
            index <= text@.len(),
            forall|j: int| 0 <= j < index ==> text@[j] != needle,
        decreases text@.len() - index,
    {
        if text[index] == needle {
            proof {
                lemma_first_index_of_unique(text@, needle, index as nat);
            }
            return Some(index);
        }
        index = index + 1;
    }
    None
}

/// Whether `needle` occurs in `text`.
pub fn contains_char(text: &[char], needle: char) -> (result: bool)
    ensures
        result == text@.contains(needle),
{
    proof {
        lemma_first_index_of(text@, needle);
    }
    match find_char(text, needle) {
        Some(index) => true,
        None => false,
    }
}

// ---------------------------------------------------------------------------
// Trimming
// ---------------------------------------------------------------------------
/// `text` without trailing Unicode whitespace (`str::trim_end`).
pub open spec fn trim_end(text: Seq<char>) -> Seq<char>
    decreases text.len(),
{
    if text.len() > 0 && is_unicode_whitespace(text.last()) {
        trim_end(text.drop_last())
    } else {
        text
    }
}

/// `text` without leading Unicode whitespace (`str::trim_start`).
pub open spec fn trim_start(text: Seq<char>) -> Seq<char>
    decreases text.len(),
{
    if text.len() > 0 && is_unicode_whitespace(text[0]) {
        trim_start(text.drop_first())
    } else {
        text
    }
}

/// `text` without leading and trailing Unicode whitespace (`str::trim`).
pub open spec fn trim(text: Seq<char>) -> Seq<char> {
    trim_start(trim_end(text))
}

/// Length of `trim_end(text)`; the trimmed text is always a prefix.
pub fn trim_end_len(text: &[char]) -> (len: usize)
    ensures
        len <= text@.len(),
        trim_end(text@) == text@.subrange(0, len as int),
{
    let mut len = text.len();
    assert(text@.subrange(0, len as int) =~= text@);
    while len > 0 && char_is_whitespace(text[len - 1])
        invariant
            len <= text@.len(),
            trim_end(text@) == trim_end(text@.subrange(0, len as int)),
        decreases len,
    {
        assert(text@.subrange(0, len as int).drop_last() =~= text@.subrange(0, len - 1));
        len = len - 1;
    }
    len
}

/// Start index of `trim_start(text)`; the trimmed text is always a suffix.
pub fn trim_start_index(text: &[char]) -> (start: usize)
    ensures
        start <= text@.len(),
        trim_start(text@) == text@.subrange(start as int, text@.len() as int),
{
    let mut start: usize = 0;
    assert(text@.subrange(0, text@.len() as int) =~= text@);
    while start < text.len() && char_is_whitespace(text[start])
        invariant
            start <= text@.len(),
            trim_start(text@) == trim_start(text@.subrange(start as int, text@.len() as int)),
        decreases text@.len() - start,
    {
        assert(text@.subrange(start as int, text@.len() as int).drop_first() =~= text@.subrange(
            start + 1,
            text@.len() as int,
        ));
        start = start + 1;
    }
    start
}

/// `text` trimmed on both ends, as a new vector.
pub fn trimmed(text: &[char]) -> (result: Vec<char>)
    ensures
        result@ == trim(text@),
{
    let end = trim_end_len(text);
    let head = sub_chars(text, 0, end);
    let start = trim_start_index(head.as_slice());
    sub_chars(head.as_slice(), start, end)
}

// ---------------------------------------------------------------------------
// Tokens separated by whitespace
// ---------------------------------------------------------------------------
/// Length of the leading run of non-separator characters.
pub open spec fn token_len(text: Seq<char>, ascii: bool) -> nat
    decreases text.len(),
{
    if text.len() == 0 || is_separator(text[0], ascii) {
        0
    } else {
        1 + token_len(text.drop_first(), ascii)
    }
}

pub proof fn lemma_token_len_bound(text: Seq<char>, ascii: bool)
    ensures
        token_len(text, ascii) <= text.len(),
        text.len() > 0 && !is_separator(text[0], ascii) ==> token_len(text, ascii) >= 1,
    decreases text.len(),
{
    if text.len() > 0 {
        lemma_token_len_bound(text.drop_first(), ascii);
    }
}

/// The run of `len` non-separators followed by a separator or the end is the
/// leading token.
pub proof fn lemma_token_len_exact(text: Seq<char>, ascii: bool, len: nat)
    requires
        len <= text.len(),
        forall|i: int| 0 <= i < len ==> !is_separator(#[trigger] text[i], ascii),
        len == text.len() || is_separator(text[len as int], ascii),
    ensures
        token_len(text, ascii) == len,
    decreases len,
{
    if len > 0 {
        assert forall|i: int| 0 <= i < len - 1 implies !is_separator(
            #[trigger] text.drop_first()[i],
            ascii,
        ) by {
            assert(text.drop_first()[i] == text[i + 1]);
        }
        lemma_token_len_exact(text.drop_first(), ascii, (len - 1) as nat);
    }
}

/// The maximal runs of non-separator characters (`str::split_whitespace` and
/// `str::split_ascii_whitespace`).
pub open spec fn tokens(text: Seq<char>, ascii: bool) -> Seq<Seq<char>>
    decreases text.len(),
{
    if text.len() == 0 {
        Seq::empty()
    } else if is_separator(text[0], ascii) {
        tokens(text.drop_first(), ascii)
    } else {
        let len = token_len(text, ascii);
        proof {
            lemma_token_len_bound(text, ascii);
        }
        seq![text.take(len as int)] + tokens(text.skip(len as int), ascii)
    }
}

/// The characters of each token vector.
pub open spec fn token_views(parts: Seq<Vec<char>>) -> Seq<Seq<char>> {
    parts.map_values(|part: Vec<char>| part@)
}

/// Split `text` into its whitespace-separated tokens.
pub fn split_tokens(text: &[char], ascii: bool) -> (parts: Vec<Vec<char>>)
    ensures
        token_views(parts@) == tokens(text@, ascii),
{
    let mut parts: Vec<Vec<char>> = Vec::new();
    let mut index: usize = 0;
    let ghost whole = text@;
    assert(whole.skip(0) =~= whole);
    while index < text.len()
        invariant
            whole == text@,
            index <= whole.len(),
            tokens(whole, ascii) == token_views(parts@) + tokens(whole.skip(index as int), ascii),
        decreases whole.len() - index,
    {
        let ghost rest = whole.skip(index as int);
        if char_is_separator(text[index], ascii) {
            assert(rest.drop_first() =~= whole.skip(index + 1));
            index = index + 1;
        } else {
            let mut end = index + 1;
            while end < text.len() && !char_is_separator(text[end], ascii)
                invariant
                    whole == text@,
                    index < end <= whole.len(),
                    forall|i: int| index <= i < end ==> !is_separator(#[trigger] whole[i], ascii),
                decreases whole.len() - end,
            {
                end = end + 1;
            }
            proof {
                assert forall|i: int| 0 <= i < end - index implies !is_separator(
                    #[trigger] rest[i],
                    ascii,
                ) by {
                    assert(rest[i] == whole[index + i]);
                }
                if end < whole.len() {
                    assert(rest[end - index] == whole[end as int]);
                }
                lemma_token_len_exact(rest, ascii, (end - index) as nat);
                assert(rest.take(end - index) =~= whole.subrange(index as int, end as int));
                assert(rest.skip(end - index) =~= whole.skip(end as int));
            }
            let part = sub_chars(text, index, end);
            let ghost before = parts@;
            parts.push(part);
            assert(token_views(parts@) =~= token_views(before) + seq![part@]);
            index = end;
        }
    }
    assert(whole.skip(index as int) =~= Seq::<char>::empty());
    assert(token_views(parts@) + Seq::<Seq<char>>::empty() =~= token_views(parts@));
    parts
}

/// Trailing whitespace does not survive `trim_end`.
pub proof fn lemma_trim_end_whitespace_suffix(text: Seq<char>, tail: Seq<char>)
    requires
        forall|i: int| 0 <= i < tail.len() ==> is_unicode_whitespace(#[trigger] tail[i]),
    ensures
        trim_end(text + tail) == trim_end(text),
    decreases tail.len(),
{
    if tail.len() > 0 {
        let whole = text + tail;
        assert(whole.last() == tail.last());
        assert(whole.drop_last() =~= text + tail.drop_last());
        assert forall|i: int| 0 <= i < tail.drop_last().len() implies is_unicode_whitespace(
            #[trigger] tail.drop_last()[i],
        ) by {
            assert(tail.drop_last()[i] == tail[i]);
        }
        lemma_trim_end_whitespace_suffix(text, tail.drop_last());
    } else {
        assert(text + tail =~= text);
    }
}

/// Text ending in a non-whitespace character is its own `trim_end`.
pub proof fn lemma_trim_end_unchanged(text: Seq<char>)
    requires
        text.len() > 0,
        !is_unicode_whitespace(text.last()),
    ensures
        trim_end(text) == text,
{
}

/// Stripping the prefix that was put in front gives the rest back.
pub proof fn lemma_strip_prefix_concat(prefix: Seq<char>, rest: Seq<char>)
    ensures
        strip_prefix(prefix + rest, prefix) == Some(rest),
{
    assert((prefix + rest).subrange(0, prefix.len() as int) =~= prefix);
    assert((prefix + rest).subrange(prefix.len() as int, (prefix + rest).len() as int) =~= rest);
}

/// A leading separator does not start a token.
pub proof fn lemma_tokens_separator_first(sep: char, rest: Seq<char>, ascii: bool)
    requires
        is_separator(sep, ascii),
    ensures
        tokens(seq![sep] + rest, ascii) == tokens(rest, ascii),
{
    assert((seq![sep] + rest).drop_first() =~= rest);
}

/// A run of non-separators followed by the end or a separator is one token.
pub proof fn lemma_tokens_word_first(word: Seq<char>, rest: Seq<char>, ascii: bool)
    requires
        word.len() > 0,
        forall|i: int| 0 <= i < word.len() ==> !is_separator(#[trigger] word[i], ascii),
        rest.len() == 0 || is_separator(rest[0], ascii),
    ensures
        tokens(word + rest, ascii) == seq![word] + tokens(rest, ascii),
{
    let whole = word + rest;
    assert forall|i: int| 0 <= i < word.len() implies !is_separator(#[trigger] whole[i], ascii) by {
        assert(whole[i] == word[i]);
    }
    if rest.len() > 0 {
        assert(whole[word.len() as int] == rest[0]);
    }
    lemma_token_len_exact(whole, ascii, word.len());
    assert(whole[0] == word[0]);
    assert(whole.take(word.len() as int) =~= word);
    assert(whole.skip(word.len() as int) =~= rest);
}

// ---------------------------------------------------------------------------
// Decimal numbers
// ---------------------------------------------------------------------------
/// The ASCII digit of `value`, which must be below ten.
pub open spec fn digit_char(value: nat) -> char {
    (48 + value) as char
}

/// The decimal representation of `value` (`Display` for unsigned integers).
pub open spec fn decimal(value: nat) -> Seq<char>
    decreases value,
{
    if value < 10 {
        seq![digit_char(value)]
    } else {
        decimal(value / 10).push(digit_char(value % 10))
    }
}

/// The value of a sequence of ASCII digits.
pub open spec fn digits_value(digits: Seq<char>) -> nat
    decreases digits.len(),
{
    if digits.len() == 0 {
        0
    } else {
        digits_value(digits.drop_last()) * 10 + ((digits.last() as u32) - 48) as nat
    }
}

/// The unsigned value written by `text`, as accepted by `from_str` for the
/// unsigned integer types before the range check: an optional `+` followed by
/// at least one ASCII digit.
pub open spec fn unsigned_value(text: Seq<char>) -> Option<nat> {
    let digits = unsigned_digits(text);
    if digits.len() > 0 && all_digits(digits) {
        Some(digits_value(digits))
    } else {
        None
    }
}

/// The digits of an unsigned number: `text` without one leading `+`, when
/// something follows it.
pub open spec fn unsigned_digits(text: Seq<char>) -> Seq<char> {
    if text.len() > 1 && text[0] == '+' {
        text.drop_first()
    } else {
        text
    }
}

/// Every character of `digits` is an ASCII digit.
pub open spec fn all_digits(digits: Seq<char>) -> bool {
    forall|i: int| 0 <= i < digits.len() ==> is_digit(#[trigger] digits[i])
}

/// `u16::from_str`.
pub open spec fn parse_u16_spec(text: Seq<char>) -> Option<u16> {
    match unsigned_value(text) {
        Some(value) => if value <= u16::MAX {
            Some(value as u16)
        } else {
            None
        },
        None => None,
    }
}

/// `u64::from_str`.
pub open spec fn parse_u64_spec(text: Seq<char>) -> Option<u64> {
    match unsigned_value(text) {
        Some(value) => if value <= u64::MAX {
            Some(value as u64)
        } else {
            None
        },
        None => None,
    }
}

/// Appending digits never decreases the value.
pub proof fn lemma_digits_value_monotone(digits: Seq<char>, prefix_len: int)
    requires
        0 <= prefix_len <= digits.len(),
        forall|i: int| 0 <= i < digits.len() ==> is_digit(#[trigger] digits[i]),
    ensures
        digits_value(digits.take(prefix_len)) <= digits_value(digits),
    decreases digits.len(),
{
    if prefix_len < digits.len() {
        assert(digits.drop_last().take(prefix_len) =~= digits.take(prefix_len));
        assert forall|i: int| 0 <= i < digits.drop_last().len() implies is_digit(
            #[trigger] digits.drop_last()[i],
        ) by {
            assert(digits.drop_last()[i] == digits[i]);
        }
        lemma_digits_value_monotone(digits.drop_last(), prefix_len);
    } else {
        assert(digits.take(prefix_len) =~= digits);
    }
}

/// The value of the digits `start..` of `text`, rejecting non-digits and values
/// above `u64::MAX`.
fn digits_u64(text: &[char], start: usize) -> (value: Option<u64>)
    requires
        start <= text@.len(),
    ensures
        ({
            let digits = text@.skip(start as int);
            value == (if all_digits(digits) && digits_value(digits) <= u64::MAX {
                Some(digits_value(digits) as u64)
            } else {
                None
            })
        }),
{
    let ghost digits = text@.skip(start as int);
    let mut index = start;
    let mut value: u64 = 0;
    assert(digits.take(0) =~= Seq::<char>::empty());
    while index < text.len()
        invariant
            start <= index <= text@.len(),
            digits == text@.skip(start as int),
            forall|i: int| 0 <= i < index - start ==> is_digit(#[trigger] digits[i]),
            value == digits_value(digits.take(index - start)),
        decreases text@.len() - index,
    {
        let c = text[index];
        if !('0' <= c && c <= '9') {
            assert(digits[index - start] == c);
            return None;
        }
        let ghost taken = digits.take(index - start + 1);
        assert(taken.drop_last() =~= digits.take(index - start));
        assert(taken.last() == c);
        let d = (c as u32 - 48) as u64;
        let next = match value.checked_mul(10) {
            Some(scaled) => scaled.checked_add(d),
            None => None,
        };
        match next {
            Some(next) => {
                value = next;
                index = index + 1;
            },
            None => {
                proof {
                    if all_digits(digits) {
                        lemma_digits_value_monotone(digits, index - start + 1);
                    }
                }
                return None;
            },
        }
    }
    assert(digits.take(index - start) =~= digits);
    Some(value)
}

/// Parse an unsigned decimal like `u64::from_str`.
pub fn parse_u64(text: &[char]) -> (value: Option<u64>)
    ensures
        value == parse_u64_spec(text@),
{
    if text.len() == 0 {
        return None;
    }
    let start: usize = if text.len() > 1 && text[0] == '+' {
        1
    } else {
        0
    };
    if start == text.len() {
        return None;
    }
    let ghost digits = unsigned_digits(text@);
    proof {
        if start == 1 {
            assert(text@.skip(1) =~= text@.drop_first());
        } else {
            assert(text@.skip(0) =~= text@);
        }
        assert(text@.skip(start as int) == digits);
    }
    let result = digits_u64(text, start);
    proof {
        if all_digits(digits) {
            assert(unsigned_value(text@) == Some(digits_value(digits)));
        } else {
            assert(unsigned_value(text@) is None);
        }
    }
    result
}

/// Parse an unsigned decimal like `u16::from_str`.
pub fn parse_u16(text: &[char]) -> (value: Option<u16>)
    ensures
        value == parse_u16_spec(text@),
{
    match parse_u64(text) {
        Some(value) => if value <= 0xffff {
            Some(value as u16)
        } else {
            None
        },
        None => None,
    }
}

/// Append the decimal representation of `value`.
pub fn push_decimal(out: &mut Vec<char>, value: u64)
    ensures
        final(out)@ == old(out)@ + decimal(value as nat),
    decreases value,
{
    if value >= 10 {
        push_decimal(out, value / 10);
    }
    let digit = (48 + (value % 10) as u32) as u8 as char;
    assert(digit == digit_char((value % 10) as nat));
    out.push(digit);
    proof {
        if value >= 10 {
            assert(final(out)@ =~= old(out)@ + decimal(value as nat));
        } else {
            assert(final(out)@ =~= old(out)@ + decimal(value as nat));
        }
    }
}

/// Append the characters of `text`.
pub fn push_str(out: &mut Vec<char>, text: &str)
    ensures
        final(out)@ == old(out)@ + text@,
{
    let chars = str_to_chars(text);
    push_chars(out, chars.as_slice());
}

/// Append `chars`.
pub fn push_chars(out: &mut Vec<char>, chars: &[char])
    ensures
        final(out)@ == old(out)@ + chars@,
{
    let ghost start = out@;
    let mut index: usize = 0;
    while index < chars.len()
        invariant
            index <= chars@.len(),
            out@ == start + chars@.subrange(0, index as int),
        decreases chars@.len() - index,
    {
        out.push(chars[index]);
        index = index + 1;
        assert(out@ =~= start + chars@.subrange(0, index as int));
    }
    assert(chars@.subrange(0, chars@.len() as int) =~= chars@);
}

/// Decimal digits round-trip through parsing.
pub proof fn lemma_decimal_roundtrip(value: nat)
    ensures
        decimal(value).len() > 0,
        forall|i: int| 0 <= i < decimal(value).len() ==> is_digit(#[trigger] decimal(value)[i]),
        digits_value(decimal(value)) == value,
        decimal(value)[0] != '+',
    decreases value,
{
    let last = value % 10;
    assert(((48 + last) as char) as u32 == 48 + last);
    if value >= 10 {
        lemma_decimal_roundtrip(value / 10);
        let d = decimal(value);
        assert(d.drop_last() =~= decimal(value / 10));
        assert(d.last() == digit_char(last));
        assert(d.last() as u32 == 48 + last);
        assert(digits_value(d.drop_last()) == value / 10);
        assert(digits_value(d) == digits_value(d.drop_last()) * 10 + ((d.last() as u32) - 48) as nat);
        assert forall|i: int| 0 <= i < d.len() implies is_digit(#[trigger] d[i]) by {
            if i < d.len() - 1 {
                assert(d[i] == decimal(value / 10)[i]);
            }
        }
    } else {
        let d = decimal(value);
        assert(d.drop_last() =~= Seq::<char>::empty());
        assert(d.last() as u32 == 48 + last);
        assert(digits_value(d) == digits_value(d.drop_last()) * 10 + ((d.last() as u32) - 48) as nat);
    }
}

/// Formatting then parsing an unsigned value gives it back.
pub proof fn lemma_parse_decimal(value: nat)
    ensures
        unsigned_value(decimal(value)) == Some(value),
{
    lemma_decimal_roundtrip(value);
}

// ---------------------------------------------------------------------------
// Hexadecimal numbers
// ---------------------------------------------------------------------------
/// The lowercase hexadecimal digit of `value`, which must be below sixteen.
pub open spec fn hex_digit(value: nat) -> char {
    if value < 10 {
        (48 + value) as char
    } else {
        (87 + value) as char
    }
}

/// The lowercase hexadecimal representation of `value` (`{:x}`).
pub open spec fn hex(value: nat) -> Seq<char>
    decreases value,
{
    if value < 16 {
        seq![hex_digit(value)]
    } else {
        hex(value / 16).push(hex_digit(value % 16))
    }
}

/// `digits` padded with leading zeros to at least `width` characters.
pub open spec fn zero_padded(digits: Seq<char>, width: nat) -> Seq<char> {
    if digits.len() >= width {
        digits
    } else {
        Seq::new((width - digits.len()) as nat, |i: int| '0') + digits
    }
}

fn hex_len(value: u64) -> (len: u64)
    ensures
        len == hex(value as nat).len(),
        len <= value + 1,
    decreases value,
{
    if value < 16 {
        1
    } else {
        let rest = hex_len(value / 16);
        rest + 1
    }
}

fn push_hex_digits(out: &mut Vec<char>, value: u64)
    ensures
        final(out)@ == old(out)@ + hex(value as nat),
    decreases value,
{
    if value >= 16 {
        push_hex_digits(out, value / 16);
    }
    let digit_value = (value % 16) as u32;
    let digit = if digit_value < 10 {
        (48 + digit_value) as u8 as char
    } else {
        (87 + digit_value) as u8 as char
    };
    assert(digit == hex_digit((value % 16) as nat));
    out.push(digit);
    assert(final(out)@ =~= old(out)@ + hex(value as nat));
}

/// Append the lowercase hexadecimal representation of `value`, padded
/// with leading zeros to `width` characters (`{:0width$x}`).
pub fn push_hex(out: &mut Vec<char>, value: u64, width: usize)
    ensures
        final(out)@ == old(out)@ + zero_padded(hex(value as nat), width as nat),
{
    let ghost start = out@;
    let len = hex_len(value);
    let mut padding: usize = if width as u64 > len {
        (width as u64 - len) as usize
    } else {
        0
    };
    let ghost total = padding;
    while padding > 0
        invariant
            padding <= total,
            out@ == start + Seq::new((total - padding) as nat, |i: int| '0'),
        decreases padding,
    {
        out.push('0');
        padding = padding - 1;
        assert(out@ =~= start + Seq::new((total - padding) as nat, |i: int| '0'));
    }
    push_hex_digits(out, value);
    assert(final(out)@ =~= start + zero_padded(hex(value as nat), width as nat));
}


/// The lowercase hexadecimal text of `bytes`, two digits per byte.
pub open spec fn hex_bytes(bytes: Seq<u8>) -> Seq<char>
    decreases bytes.len(),
{
    if bytes.len() == 0 {
        Seq::empty()
    } else {
        hex_bytes(bytes.drop_last()) + zero_padded(hex(bytes.last() as nat), 2)
    }
}

/// The identifier text of random bytes: each byte as two lowercase
/// hexadecimal digits, so sixteen bytes give a
/// thirty-two character identifier.
pub fn hex_id(random: &[u8]) -> (id: String)
    ensures
        id@ == hex_bytes(random@),
{
    let mut out: Vec<char> = Vec::new();
    let mut index: usize = 0;
    while index < random.len()
        invariant
            index <= random@.len(),
            out@ == hex_bytes(random@.subrange(0, index as int)),
        decreases random@.len() - index,
    {
        push_hex(&mut out, random[index] as u64, 2);
        assert(random@.subrange(0, index + 1).drop_last() =~= random@.subrange(0, index as int));
        index = index + 1;
    }
    assert(random@.subrange(0, random@.len() as int) =~= random@);
    chars_to_string(out.as_slice())
}

/// The text std's `Debug` gives for a string (`{:?}`): the string in double
/// quotes with its special characters escaped.
pub uninterp spec fn debug_text(text: Seq<char>) -> Seq<char>;

/// Formats `text` with std's `Debug` for `str`. Nothing is claimed of the
/// escaping beyond that the result is [`debug_text`] of the argument.
#[verifier::external_body]
pub(crate) fn debug_quoted(text: &str) -> (quoted: String)
    ensures
        quoted@ == debug_text(text@),
{
    format!("{:?}", text)
}

} // verus!
