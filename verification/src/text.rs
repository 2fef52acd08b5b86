//! Text as sequences of characters: comparison, searching, trimming, cutting,
//! joining and decimal numerals.

use vstd::prelude::*;
use vstd::string::*;
use vstd::utf8::*;

verus! {

/// `String::push` of the standard library appends one character.
pub assume_specification[ String::push ](s: &mut String, c: char)
    ensures
        final(s)@ == old(s)@.push(c),
;

// ---------------------------------------------------------------------------
// Comparison
// ---------------------------------------------------------------------------

/// Texts with the same UTF-8 bytes are the same text.
proof fn lemma_same_bytes(a: Seq<char>, b: Seq<char>)
    requires
        encode_utf8(a) == encode_utf8(b),
    ensures
        a == b,
{
    encode_utf8_decode_utf8(a);
    encode_utf8_decode_utf8(b);
}

/// Whether two texts are equal.
pub fn same_text(a: &str, b: &str) -> (same: bool)
    ensures
        same == (a@ == b@),
{
    let left = a.as_bytes();
    let right = b.as_bytes();
    if left.len() != right.len() {
        return false;
    }
    let mut i: usize = 0;
    while i < left.len()
        invariant
            left@ == encode_utf8(a@),
            right@ == encode_utf8(b@),
            left.len() == right.len(),
            i <= left.len(),
            forall|k: int| 0 <= k < i ==> left@[k] == right@[k],
        decreases left.len() - i,
    {
        if left[i] != right[i] {
            return false;
        }
        i += 1;
    }
    proof {
        assert(left@ =~= right@);
        lemma_same_bytes(a@, b@);
    }
    true
}

/// Whether an optional text is present and equal to `b`.
pub fn same_option(a: &Option<String>, b: &str) -> (same: bool)
    ensures
        same == (option_text(*a) == Some(b@)),
{
    match a {
        Some(text) => same_text(text.as_str(), b),
        None => false,
    }
}

/// The characters of an optional text.
pub open spec fn option_text(text: Option<String>) -> Option<Seq<char>> {
    match text {
        Some(t) => Some(t@),
        None => None,
    }
}

/// The characters of each text of a list.
pub open spec fn texts(list: Seq<String>) -> Seq<Seq<char>> {
    Seq::new(list.len(), |i: int| list[i]@)
}

/// A copy of an optional text.
pub fn copy_option(text: &Option<String>) -> (copy: Option<String>)
    ensures
        option_text(copy) == option_text(*text),
{
    match text {
        Some(t) => Some(t.clone()),
        None => None,
    }
}

/// Whether `list` holds a text equal to `text`.
pub fn list_contains(list: &[String], text: &str) -> (found: bool)
    ensures
        found == texts(list@).contains(text@),
{
    let mut i: usize = 0;
    while i < list.len()
        invariant
            i <= list.len(),
            forall|k: int| 0 <= k < i ==> texts(list@)[k] != text@,
        decreases list.len() - i,
    {
        if same_text(list[i].as_str(), text) {
            assert(texts(list@)[i as int] == text@);
            return true;
        }
        i += 1;
    }
    false
}

// ---------------------------------------------------------------------------
// Characters
// ---------------------------------------------------------------------------

/// The characters of a text, in order.
pub fn chars_of(text: &str) -> (chars: Vec<char>)
    ensures
        chars@ == text@,
{
    let mut chars: Vec<char> = Vec::new();
    for c in it: text.chars()
        invariant
            it.seq() == text@,
            chars@ == it.seq().take(it.index()),
    {
        assert(it.seq().take(it.index() + 1) =~= it.seq().take(it.index()).push(
            it.seq()[it.index()],
        ));
        chars.push(c);
    }
    assert(text@.take(text@.len() as int) =~= text@);
    chars
}

/// The characters `from..to` of `chars` as a text.
pub fn text_between(chars: &Vec<char>, from: usize, to: usize) -> (text: String)
    requires
        from <= to <= chars.len(),
    ensures
        text@ == chars@.subrange(from as int, to as int),
{
    let mut text = String::new();
    let mut i: usize = from;
    while i < to
        invariant
            from <= i <= to <= chars.len(),
            text@ == chars@.subrange(from as int, i as int),
        decreases to - i,
    {
        text.push(chars[i]);
        i += 1;
        assert(chars@.subrange(from as int, i as int) =~= chars@.subrange(
            from as int,
            i - 1,
        ).push(chars@[i - 1]));
    }
    text
}

/// Whether a character has the Unicode `White_Space` property.
pub open spec fn is_white(c: char) -> bool {
    let n = c as u32;
    ||| 0x09 <= n <= 0x0d
    ||| n == 0x20
    ||| n == 0x85
    ||| n == 0xa0
    ||| n == 0x1680
    ||| 0x2000 <= n <= 0x200a
    ||| n == 0x2028
    ||| n == 0x2029
    ||| n == 0x202f
    ||| n == 0x205f
    ||| n == 0x3000
}

/// Tests for white space.
pub fn is_white_char(c: char) -> (white: bool)
    ensures
        white == is_white(c),
{
    let n: u32 = c as u32;
    (0x09 <= n && n <= 0x0d) || n == 0x20 || n == 0x85 || n == 0xa0 || n == 0x1680 || (0x2000 <= n
        && n <= 0x200a) || n == 0x2028 || n == 0x2029 || n == 0x202f || n == 0x205f || n == 0x3000
}

/// The lower-case form of an ASCII letter; every other character unchanged.
pub open spec fn lower(c: char) -> char {
    if 'A' <= c <= 'Z' {
        ((c as u32 + 32) as u32) as char
    } else {
        c
    }
}

/// A text with its ASCII letters in lower case.
pub open spec fn lowered(text: Seq<char>) -> Seq<char> {
    text.map_values(|c: char| lower(c))
}

/// Lower-cases one character.
fn lower_char(c: char) -> (result: char)
    ensures
        result == lower(c),
{
    if 'A' <= c && c <= 'Z' {
        let n: u8 = (c as u8) + 32;
        n as char
    } else {
        c
    }
}

/// Lower-cases the ASCII letters of a text.
pub fn to_lower(text: &str) -> (result: String)
    ensures
        result@ == lowered(text@),
{
    let mut result = String::new();
    for c in it: text.chars()
        invariant
            it.seq() == text@,
            result@ == lowered(it.seq().take(it.index())),
    {
        assert(lowered(it.seq().take(it.index() + 1)) =~= lowered(
            it.seq().take(it.index()),
        ).push(lower(it.seq()[it.index()])));
        result.push(lower_char(c));
    }
    assert(text@.take(text@.len() as int) =~= text@);
    result
}

// ---------------------------------------------------------------------------
// Trimming
// ---------------------------------------------------------------------------

/// A text without its leading white space.
pub open spec fn trimmed_start(text: Seq<char>) -> Seq<char>
    decreases text.len(),
{
    if text.len() > 0 && is_white(text[0]) {
        trimmed_start(text.skip(1))
    } else {
        text
    }
}

/// A text without its trailing white space.
pub open spec fn trimmed_end(text: Seq<char>) -> Seq<char>
    decreases text.len(),
{
    if text.len() > 0 && is_white(text.last()) {
        trimmed_end(text.drop_last())
    } else {
        text
    }
}

/// A text without its leading and trailing white space.
pub open spec fn trimmed(text: Seq<char>) -> Seq<char> {
    trimmed_end(trimmed_start(text))
}

/// Whether a text is empty or white space throughout.
pub open spec fn is_blank(text: Seq<char>) -> bool {
    trimmed(text).len() == 0
}

/// The index of the first character of `chars` that is not white space.
fn first_visible(chars: &Vec<char>) -> (start: usize)
    ensures
        start <= chars.len(),
        trimmed_start(chars@) == chars@.skip(start as int),
{
    let mut start: usize = 0;
    assert(chars@.skip(0) =~= chars@);
    while start < chars.len() && is_white_char(chars[start])
        invariant
            start <= chars.len(),
            trimmed_start(chars@) == trimmed_start(chars@.skip(start as int)),
        decreases chars.len() - start,
    {
        assert(chars@.skip(start as int).skip(1) =~= chars@.skip(start + 1));
        start += 1;
    }
    start
}

/// The end of `chars[start..]` without its trailing white space.
fn last_visible(chars: &Vec<char>, start: usize) -> (end: usize)
    requires
        start <= chars.len(),
    ensures
        start <= end <= chars.len(),
        trimmed_end(chars@.skip(start as int)) == chars@.subrange(start as int, end as int),
{
    let mut end: usize = chars.len();
    assert(chars@.skip(start as int) =~= chars@.subrange(start as int, end as int));
    while end > start && is_white_char(chars[end - 1])
        invariant
            start <= end <= chars.len(),
            trimmed_end(chars@.skip(start as int)) == trimmed_end(
                chars@.subrange(start as int, end as int),
            ),
        decreases end,
    {
        assert(chars@.subrange(start as int, end as int).drop_last() =~= chars@.subrange(
            start as int,
            end - 1,
        ));
        end -= 1;
    }
    end
}

/// Removes leading and trailing white space.
pub fn trim(text: &str) -> (result: String)
    ensures
        result@ == trimmed(text@),
{
    let chars = chars_of(text);
    let start = first_visible(&chars);
    let end = last_visible(&chars, start);
    text_between(&chars, start, end)
}

/// Removes leading white space.
pub fn trim_start(text: &str) -> (result: String)
    ensures
        result@ == trimmed_start(text@),
{
    let chars = chars_of(text);
    let start = first_visible(&chars);
    let result = text_between(&chars, start, chars.len());
    assert(chars@.subrange(start as int, chars@.len() as int) =~= chars@.skip(start as int));
    result
}

/// Tests whether a text is empty or white space throughout.
pub fn blank(text: &str) -> (result: bool)
    ensures
        result == is_blank(text@),
{
    trim(text).as_str().is_empty()
}

/// A text without the copies of `tail` at its end.
pub open spec fn without_tail(text: Seq<char>, tail: Seq<char>) -> Seq<char>
    decreases text.len(),
{
    if tail.len() > 0 && tail.is_suffix_of(text) {
        without_tail(text.take(text.len() - tail.len()), tail)
    } else {
        text
    }
}

/// Removes every copy of `tail` from the end of a text.
pub fn strip_tail(text: &str, tail: &str) -> (result: String)
    ensures
        result@ == without_tail(text@, tail@),
{
    let chars = chars_of(text);
    let pattern = chars_of(tail);
    let mut end: usize = chars.len();
    assert(chars@.take(end as int) =~= chars@);
    while pattern.len() > 0 && pattern.len() <= end && found_at(&chars, &pattern, end - pattern.len())
        invariant
            chars@ == text@,
            pattern@ == tail@,
            end <= chars.len(),
            without_tail(text@, tail@) == without_tail(chars@.take(end as int), tail@),
        decreases end,
    {
        let next: usize = end - pattern.len();
        assert(chars@.take(end as int).subrange(next as int, end as int) =~= chars@.subrange(
            next as int,
            end as int,
        ));
        assert(chars@.take(end as int).take(next as int) =~= chars@.take(next as int));
        end = next;
    }
    if pattern.len() > 0 && pattern.len() <= end {
        assert(chars@.take(end as int).subrange(end - pattern@.len(), end as int) =~= chars@.subrange(
            end - pattern@.len(),
            end as int,
        ));
    }
    let result = text_between(&chars, 0, end);
    assert(chars@.subrange(0, end as int) =~= chars@.take(end as int));
    result
}

// ---------------------------------------------------------------------------
// Searching
// ---------------------------------------------------------------------------

/// Whether `pattern` stands at index `i` of `text`.
pub open spec fn stands_at(text: Seq<char>, pattern: Seq<char>, i: int) -> bool {
    0 <= i && i + pattern.len() <= text.len() && text.subrange(i, i + pattern.len()) == pattern
}

/// Whether `pattern` stands anywhere in `text`.
pub open spec fn has_text(text: Seq<char>, pattern: Seq<char>) -> bool {
    exists|i: int| stands_at(text, pattern, i)
}

/// Whether one of `patterns` stands anywhere in `text`.
pub open spec fn has_any(text: Seq<char>, patterns: Seq<Seq<char>>) -> bool {
    exists|i: int| 0 <= i < patterns.len() && has_text(text, #[trigger] patterns[i])
}

/// Tests whether `pattern` stands at index `at` of `chars`.
fn found_at(chars: &Vec<char>, pattern: &Vec<char>, at: usize) -> (found: bool)
    requires
        at + pattern.len() <= chars.len(),
    ensures
        found == (chars@.subrange(at as int, at + pattern@.len()) == pattern@),
        found == stands_at(chars@, pattern@, at as int),
{
    let mut i: usize = 0;
    while i < pattern.len()
        invariant
            at + pattern.len() <= chars.len(),
            i <= pattern.len(),
            forall|k: int| 0 <= k < i ==> chars@[at + k] == pattern@[k],
        decreases pattern.len() - i,
    {
        if chars[at + i] != pattern[i] {
            assert(chars@.subrange(at as int, at + pattern@.len())[i as int] != pattern@[i as int]);
            return false;
        }
        i += 1;
    }
    assert(chars@.subrange(at as int, at + pattern@.len()) =~= pattern@);
    true
}

/// Tests whether `pattern` stands anywhere in `chars`.
fn found_in(chars: &Vec<char>, pattern: &Vec<char>) -> (found: bool)
    ensures
        found == has_text(chars@, pattern@),
{
    if pattern.len() > chars.len() {
        return false;
    }
    let last: usize = chars.len() - pattern.len();
    let mut at: usize = 0;
    while at <= last
        invariant
            pattern.len() <= chars.len(),
            last == chars.len() - pattern.len(),
            at <= last + 1,
            forall|k: int| 0 <= k < at ==> !stands_at(chars@, pattern@, k),
        decreases last + 1 - at,
    {
        if found_at(chars, pattern, at) {
            return true;
        }
        if at == last {
            assert forall|k: int| !stands_at(chars@, pattern@, k) by {
                if 0 <= k <= last {
                }
            }
            return false;
        }
        at += 1;
    }
    false
}

/// Tests whether `pattern` stands anywhere in `text`.
pub fn contains(text: &str, pattern: &str) -> (found: bool)
    ensures
        found == has_text(text@, pattern@),
{
    let chars = chars_of(text);
    let wanted = chars_of(pattern);
    found_in(&chars, &wanted)
}

/// The characters of each of some texts.
pub open spec fn each_text(list: Seq<&str>) -> Seq<Seq<char>> {
    Seq::new(list.len(), |i: int| list[i]@)
}

/// Tests whether one of `patterns` stands anywhere in `text`.
pub fn contains_any(text: &str, patterns: &[&str]) -> (found: bool)
    ensures
        found == has_any(text@, each_text(patterns@)),
{
    let mut i: usize = 0;
    while i < patterns.len()
        invariant
            i <= patterns@.len(),
            forall|j: int|
                0 <= j < i ==> !has_text(text@, #[trigger] each_text(patterns@)[j]),
        decreases patterns@.len() - i,
    {
        if contains(text, patterns[i]) {
            assert(has_text(text@, each_text(patterns@)[i as int]));
            return true;
        }
        i += 1;
    }
    false
}


/// Tests whether `text` starts with `prefix`.
pub fn starts_with(text: &str, prefix: &str) -> (found: bool)
    ensures
        found == prefix@.is_prefix_of(text@),
{
    let chars = chars_of(text);
    let wanted = chars_of(prefix);
    wanted.len() <= chars.len() && found_at(&chars, &wanted, 0)
}

/// Tests whether `text` ends with `suffix`.
pub fn ends_with(text: &str, suffix: &str) -> (found: bool)
    ensures
        found == suffix@.is_suffix_of(text@),
{
    let chars = chars_of(text);
    let wanted = chars_of(suffix);
    wanted.len() <= chars.len() && found_at(&chars, &wanted, chars.len() - wanted.len())
}

/// The text behind `prefix`, where it starts with it.
pub open spec fn behind(text: Seq<char>, prefix: Seq<char>) -> Option<Seq<char>> {
    if prefix.is_prefix_of(text) {
        Some(text.skip(prefix.len() as int))
    } else {
        None
    }
}

/// Removes `prefix` from the start of a text, where it is there.
pub fn strip_prefix(text: &str, prefix: &str) -> (rest: Option<String>)
    ensures
        option_text(rest) == behind(text@, prefix@),
{
    let chars = chars_of(text);
    let wanted = chars_of(prefix);
    if wanted.len() <= chars.len() && found_at(&chars, &wanted, 0) {
        let rest = text_between(&chars, wanted.len(), chars.len());
        assert(chars@.subrange(wanted@.len() as int, chars@.len() as int) =~= chars@.skip(
            wanted@.len() as int,
        ));
        Some(rest)
    } else {
        None
    }
}

// ---------------------------------------------------------------------------
// Cutting
// ---------------------------------------------------------------------------

/// The first `max` characters followed by `mark`, where the text is longer than
/// that; else the text itself.
pub open spec fn cut(text: Seq<char>, max: nat, mark: Seq<char>) -> Seq<char> {
    if text.len() <= max {
        text
    } else {
        text.take(max as int) + mark
    }
}

/// Cuts a text behind its first `max` characters and marks the cut.
pub fn cut_text(text: &str, max: usize, mark: &str) -> (result: String)
    ensures
        result@ == cut(text@, max as nat, mark@),
{
    if text.unicode_len() <= max {
        return text.to_owned();
    }
    let mut result = text.substring_char(0, max).to_owned();
    result.append(mark);
    assert(text@.subrange(0, max as int) =~= text@.take(max as int));
    result
}

/// The last `count` characters of a text, or all of them where it has fewer.
pub open spec fn recent(text: Seq<char>, count: nat) -> Seq<char> {
    if text.len() <= count {
        text
    } else {
        text.skip(text.len() - count)
    }
}

/// The mark behind a shortened preview.
pub const ELLIPSIS: &'static str = "...";

/// Cuts a text behind its first `max_chars` characters and marks the cut with dots.
pub fn truncate_chars(text: &str, max_chars: usize) -> (result: String)
    ensures
        result@ == cut(text@, max_chars as nat, ELLIPSIS@),
{
    cut_text(text, max_chars, ELLIPSIS)
}

/// The last `recent_chars` characters of a text.
pub fn recent_chars_from(text: &str, recent_chars: usize) -> (result: String)
    ensures
        result@ == recent(text@, recent_chars as nat),
{
    let count: usize = text.unicode_len();
    if count <= recent_chars {
        return text.to_owned();
    }
    let result = text.substring_char(count - recent_chars, count).to_owned();
    assert(text@.subrange(count - recent_chars, count as int) =~= text@.skip(count - recent_chars));
    result
}

// ---------------------------------------------------------------------------
// Joining
// ---------------------------------------------------------------------------

/// The texts of a list, one behind the other, with `separator` between them.
pub open spec fn joined(list: Seq<Seq<char>>, separator: Seq<char>) -> Seq<char>
    decreases list.len(),
{
    if list.len() == 0 {
        Seq::empty()
    } else if list.len() == 1 {
        list[0]
    } else {
        joined(list.drop_last(), separator) + separator + list.last()
    }
}

/// Joins the texts of a list.
pub fn join(list: &Vec<String>, separator: &str) -> (result: String)
    ensures
        result@ == joined(texts(list@), separator@),
{
    let mut result = String::new();
    let mut i: usize = 0;
    while i < list.len()
        invariant
            i <= list.len(),
            result@ == joined(texts(list@).take(i as int), separator@),
        decreases list.len() - i,
    {
        let ghost before = texts(list@).take(i as int);
        let ghost after = texts(list@).take(i + 1);
        assert(after.drop_last() =~= before);
        if i > 0 {
            result.append(separator);
        }
        result.append(list[i].as_str());
        i += 1;
        proof {
            if i == 1 {
                assert(after.len() == 1);
                assert(result@ =~= after[0]);
            } else {
                assert(after.last() == list@[i - 1]@);
            }
        }
    }
    assert(texts(list@).take(list@.len() as int) =~= texts(list@));
    result
}

// ---------------------------------------------------------------------------
// Numerals
// ---------------------------------------------------------------------------

/// The numeral of a digit.
pub open spec fn digit(n: int) -> char {
    (n + 48) as char
}

/// The decimal numeral of a number.
pub open spec fn numeral(n: nat) -> Seq<char>
    decreases n,
{
    if n < 10 {
        seq![digit(n as int)]
    } else {
        numeral(n / 10).push(digit((n % 10) as int))
    }
}

/// The decimal numeral of an integer, with a minus sign where it is negative.
pub open spec fn signed_numeral(n: int) -> Seq<char> {
    if n < 0 {
        seq!['-'] + numeral((-n) as nat)
    } else {
        numeral(n as nat)
    }
}

/// Writes a number in decimal.
pub fn decimal(n: u64) -> (result: String)
    ensures
        result@ == numeral(n as nat),
    decreases n,
{
    if n < 10 {
        let mut result = String::new();
        result.push(((n as u8) + 48) as char);
        assert(result@ =~= seq![digit(n as int)]);
        result
    } else {
        let mut result = decimal(n / 10);
        result.push((((n % 10) as u8) + 48) as char);
        result
    }
}

/// Writes an integer in decimal.
pub fn signed_decimal(n: i64) -> (result: String)
    ensures
        result@ == signed_numeral(n as int),
{
    if n < 0 {
        let mut result = String::new();
        result.push('-');
        let magnitude: u64 = if n == i64::MIN {
            9223372036854775808u64
        } else {
            (-n) as u64
        };
        result.append(decimal(magnitude).as_str());
        assert(result@ =~= seq!['-'] + numeral((-(n as int)) as nat));
        result
    } else {
        decimal(n as u64)
    }
}

/// Whether a character is an ASCII digit.
pub open spec fn is_digit(c: char) -> bool {
    '0' <= c <= '9'
}

/// Whether a text holds nothing but ASCII digits.
pub open spec fn all_digits(text: Seq<char>) -> bool {
    forall|i: int| 0 <= i < text.len() ==> is_digit(#[trigger] text[i])
}

/// The number that a sequence of digits writes.
pub open spec fn digits_value(text: Seq<char>) -> nat
    decreases text.len(),
{
    if text.len() == 0 {
        0
    } else {
        digits_value(text.drop_last()) * 10 + (text.last() as nat - 48) as nat
    }
}

/// The unsigned 64-bit number that a text writes: at least one digit, a plus sign
/// in front of them or none, and a value in range.
pub open spec fn unsigned_value(text: Seq<char>) -> Option<u64> {
    let digits = if text.len() > 0 && text[0] == '+' {
        text.skip(1)
    } else {
        text
    };
    if digits.len() > 0 && all_digits(digits) && digits_value(digits) <= u64::MAX {
        Some(digits_value(digits) as u64)
    } else {
        None
    }
}

/// A longer numeral never writes a smaller number.
proof fn lemma_prefix_value(text: Seq<char>, n: int)
    requires
        0 <= n <= text.len(),
        all_digits(text),
    ensures
        digits_value(text.take(n)) <= digits_value(text),
    decreases text.len() - n,
{
    if n < text.len() {
        lemma_prefix_value(text, n + 1);
        assert(text.take(n + 1).drop_last() =~= text.take(n));
        assert(is_digit(text[n]));
        let shorter = digits_value(text.take(n));
        assert(digits_value(text.take(n + 1)) >= shorter * 10);
    } else {
        assert(text.take(n) =~= text);
    }
}

/// Reads an unsigned 64-bit number.
pub fn parse_unsigned(text: &str) -> (result: Option<u64>)
    ensures
        result == unsigned_value(text@),
{
    let chars = chars_of(text);
    let start: usize = if chars.len() > 0 && chars[0] == '+' {
        1
    } else {
        0
    };
    let ghost digits = chars@.skip(start as int);
    assert(chars@.skip(0) =~= chars@);
    if start == chars.len() {
        assert(digits.len() == 0);
        return None;
    }
    let mut value: u64 = 0;
    let mut i: usize = start;
    while i < chars.len()
        invariant
            start <= i <= chars.len(),
            digits == chars@.skip(start as int),
            digits == (if text@.len() > 0 && text@[0] == '+' {
                text@.skip(1)
            } else {
                text@
            }),
            all_digits(digits.take(i - start)),
            value == digits_value(digits.take(i - start)),
        decreases chars.len() - i,
    {
        let c = chars[i];
        let ghost k = i - start;
        assert(digits[k] == c);
        if !('0' <= c && c <= '9') {
            assert(!is_digit(digits[k]));
            return None;
        }
        let d: u64 = (c as u8 - 48) as u64;
        assert(digits.take(k + 1).drop_last() =~= digits.take(k));
        assert(digits_value(digits.take(k + 1)) == value * 10 + d);
        if value > u64::MAX / 10 || value * 10 > u64::MAX - d {
            proof {
                if all_digits(digits) {
                    lemma_prefix_value(digits, k + 1);
                }
            }
            return None;
        }
        value = value * 10 + d;
        i += 1;
        assert forall|j: int| 0 <= j < k + 1 implies is_digit(#[trigger] digits.take(k + 1)[j]) by {
            if j < k {
                assert(digits.take(k)[j] == digits[j]);
            }
        }
    }
    assert(digits.take(digits.len() as int) =~= digits);
    Some(value)
}

// ---------------------------------------------------------------------------
// Bytes
// ---------------------------------------------------------------------------

/// What `String::from_utf8_lossy` makes of bytes.
pub uninterp spec fn lossy(bytes: Seq<u8>) -> Seq<char>;

/// `String::from_utf8_lossy`: the text that the bytes encode. What it makes of bytes that
/// encode no text follows from the bytes; no more is said of that.
#[verifier::external_body]
pub(crate) fn decode_lossy(bytes: &[u8]) -> (text: String)
    ensures
        text@ == lossy(bytes@),
        vstd::utf8::valid_utf8(bytes@) ==> text@ == vstd::utf8::decode_utf8(bytes@),
{
    String::from_utf8_lossy(bytes).into_owned()
}

} // verus!
