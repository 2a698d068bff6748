//! Characters, decimal numerals and the small string operations that the rest of the crate uses.

use vstd::prelude::*;
use vstd::utf8::*;

verus! {

/// `String::push` appends one character.
pub assume_specification[ String::push ](target: &mut String, c: char)
    ensures
        final(target)@ == old(target)@.push(c),
;

/// The character of the decimal digit `d`.
pub open spec fn digit(d: nat) -> char {
    (48 + d) as char
}

/// The decimal numeral of `n`, without leading zeros.
pub open spec fn decimal(n: nat) -> Seq<char>
    decreases n,
{
    if n < 10 {
        seq![digit(n)]
    } else {
        decimal(n / 10).push(digit(n % 10))
    }
}

/// Appends the decimal numeral of `n`.
pub fn push_decimal(text: &mut String, n: u64)
    ensures
        final(text)@ == old(text)@ + decimal(n as nat),
    decreases n,
{
    if n < 10 {
        text.push((48 + n as u8) as char);
        proof {
            assert(old(text)@.push(digit(n as nat)) =~= old(text)@ + seq![digit(n as nat)]);
        }
    } else {
        push_decimal(text, n / 10);
        text.push((48 + (n % 10) as u8) as char);
        proof {
            assert(text@ =~= old(text)@ + decimal(n as nat));
        }
    }
}

/// The characters of a string.
pub fn chars_of(text: &str) -> (chars: Vec<char>)
    ensures
        chars@ == text@,
{
    let mut chars: Vec<char> = Vec::new();
    for c in it: text.chars()
        invariant
            it.seq() == text@,
            chars@ == text@.take(it.index()),
    {
        chars.push(c);
        proof {
            assert(text@.take(it.index() + 1) =~= text@.take(it.index()).push(text@[it.index()]));
        }
    }
    proof {
        assert(text@.take(text@.len() as int) =~= text@);
    }
    chars
}

/// UTF-8 encoding distributes over concatenation.
pub proof fn lemma_encode_concat(a: Seq<char>, b: Seq<char>)
    ensures
        encode_utf8(a + b) == encode_utf8(a) + encode_utf8(b),
    decreases a.len(),
{
    if a.len() == 0 {
        assert(a + b =~= b);
        assert(encode_utf8(a) + encode_utf8(b) =~= encode_utf8(b));
    } else {
        assert((a + b).drop_first() =~= a.drop_first() + b);
        lemma_encode_concat(a.drop_first(), b);
        assert(encode_utf8(a + b) =~= encode_utf8(a) + encode_utf8(b));
    }
}

/// Appends the UTF-8 bytes of a string.
pub fn push_text(bytes: &mut Vec<u8>, text: &str)
    ensures
        final(bytes)@ == old(bytes)@ + encode_utf8(text@),
{
    bytes.extend_from_slice(text.as_bytes());
    assert(bytes@ =~= old(bytes)@ + encode_utf8(text@));
}

/// The contents of segments.
pub open spec fn contents(segments: Seq<Vec<u8>>) -> Seq<Seq<u8>> {
    segments.map_values(|segment: Vec<u8>| segment@)
}

/// The segments one after the other.
pub open spec fn joined(segments: Seq<Seq<u8>>) -> Seq<u8>
    decreases segments.len(),
{
    if segments.len() == 0 {
        seq![]
    } else {
        joined(segments.drop_last()) + segments.last()
    }
}

/// Appends a segment.
pub fn push_segment(output: &mut Vec<Vec<u8>>, segment: Vec<u8>)
    ensures
        contents(final(output)@) == contents(old(output)@).push(segment@),
{
    output.push(segment);
    assert(contents(output@) =~= contents(old(output)@).push(segment@));
}

/// Puts segments together.
pub fn join_segments(segments: &Vec<Vec<u8>>) -> (bytes: Vec<u8>)
    ensures
        bytes@ == joined(contents(segments@)),
{
    let mut bytes: Vec<u8> = Vec::new();
    let mut i: usize = 0;
    while i < segments.len()
        invariant
            i <= segments@.len(),
            bytes@ == joined(contents(segments@).take(i as int)),
        decreases segments@.len() - i,
    {
        bytes.extend_from_slice(&segments[i]);
        proof {
            let next = contents(segments@).take(i + 1);
            assert(next.drop_last() =~= contents(segments@).take(i as int));
            assert(next.last() =~= segments@[i as int]@);
        }
        assert(bytes@ =~= joined(contents(segments@).take(i + 1)));
        i = i + 1;
    }
    assert(contents(segments@).take(segments@.len() as int) =~= contents(segments@));
    bytes
}

/// The character with an ASCII capital made small.
pub open spec fn lowered(c: char) -> char {
    if 'A' <= c && c <= 'Z' {
        (c as u32 + 32) as char
    } else {
        c
    }
}

/// The text with each ASCII capital made small.
pub open spec fn lowercase(chars: Seq<char>) -> Seq<char> {
    chars.map_values(|c: char| lowered(c))
}

/// The character with an ASCII capital made small.
pub fn lower(c: char) -> (small: char)
    ensures
        small == lowered(c),
{
    if 'A' <= c && c <= 'Z' {
        (c as u8 + 32) as char
    } else {
        c
    }
}

/// The characters of a string with each ASCII capital made small.
pub fn lowercase_chars(text: &str) -> (chars: Vec<char>)
    ensures
        chars@ == lowercase(text@),
{
    let source = chars_of(text);
    let mut chars: Vec<char> = Vec::new();
    let mut i: usize = 0;
    while i < source.len()
        invariant
            i <= source@.len(),
            source@ == text@,
            chars@ == lowercase(text@).take(i as int),
        decreases source@.len() - i,
    {
        chars.push(lower(source[i]));
        assert(chars@ =~= lowercase(text@).take(i + 1));
        i = i + 1;
    }
    assert(chars@ =~= lowercase(text@));
    chars
}

/// The string of characters.
pub fn string_of(chars: &Vec<char>) -> (text: String)
    ensures
        text@ == chars@,
{
    let mut text = String::new();
    let mut i: usize = 0;
    while i < chars.len()
        invariant
            i <= chars@.len(),
            text@ == chars@.take(i as int),
        decreases chars@.len() - i,
    {
        text.push(chars[i]);
        assert(text@ =~= chars@.take(i + 1));
        i = i + 1;
    }
    assert(chars@.take(chars@.len() as int) =~= chars@);
    text
}

/// Whether `part` stands in `whole` from `at` on.
pub open spec fn stands_at(whole: Seq<char>, part: Seq<char>, at: int) -> bool {
    0 <= at <= whole.len() - part.len() && whole.subrange(at, at + part.len()) == part
}

/// Whether `part` stands anywhere in `whole`.
pub open spec fn has_part(whole: Seq<char>, part: Seq<char>) -> bool {
    exists|at: int| stands_at(whole, part, at)
}

/// Whether `part` stands in `whole` from `at` on.
pub fn is_at(whole: &Vec<char>, part: &Vec<char>, at: usize) -> (found: bool)
    requires
        at <= whole@.len(),
    ensures
        found == stands_at(whole@, part@, at as int),
{
    let whole_len: usize = whole.len();
    if whole_len - at < part.len() {
        return false;
    }
    let mut i: usize = 0;
    while i < part.len()
        invariant
            i <= part@.len(),
            whole_len == whole@.len(),
            at + part@.len() <= whole_len,
            whole@.subrange(at as int, at + i) == part@.take(i as int),
        decreases part@.len() - i,
    {
        if whole[at + i] != part[i] {
            proof {
                if stands_at(whole@, part@, at as int) {
                    assert(whole@.subrange(at as int, at + part@.len())[i as int]
                        == whole@[at + i]);
                    assert(part@[i as int] == whole@[at + i]);
                }
            }
            return false;
        }
        assert(whole@.subrange(at as int, at + i + 1) =~= whole@.subrange(at as int, at + i).push(
            whole@[at + i],
        ));
        assert(part@.take(i + 1) =~= part@.take(i as int).push(part@[i as int]));
        i = i + 1;
    }
    assert(part@.take(part@.len() as int) =~= part@);
    true
}

/// Whether `part` stands anywhere in `whole`.
pub fn contains(whole: &Vec<char>, part: &str) -> (found: bool)
    ensures
        found == has_part(whole@, part@),
{
    let part_chars = chars_of(part);
    let mut at: usize = 0;
    while at <= whole.len()
        invariant
            at <= whole@.len() + 1,
            part_chars@ == part@,
            forall|earlier: int| 0 <= earlier < at ==> !stands_at(whole@, part@, earlier),
        decreases whole@.len() + 1 - at,
    {
        if is_at(whole, &part_chars, at) {
            return true;
        }
        if at == whole.len() {
            return false;
        }
        at = at + 1;
    }
    false
}

/// White space as Unicode has it.
pub open spec fn is_white(c: char) -> bool {
    let point = c as u32;
    0x9 <= point <= 0xd || point == 0x20 || point == 0x85 || point == 0xa0 || point == 0x1680
        || 0x2000 <= point <= 0x200a || point == 0x2028 || point == 0x2029 || point == 0x202f
        || point == 0x205f || point == 0x3000
}

/// Whether a character is white space.
pub fn is_whitespace(c: char) -> (white: bool)
    ensures
        white == is_white(c),
{
    let point: u32 = c as u32;
    (0x9 <= point && point <= 0xd) || point == 0x20 || point == 0x85 || point == 0xa0 || point
        == 0x1680 || (0x2000 <= point && point <= 0x200a) || point == 0x2028 || point == 0x2029
        || point == 0x202f || point == 0x205f || point == 0x3000
}

/// The text without the white space before it.
pub open spec fn trimmed_start(chars: Seq<char>) -> Seq<char>
    decreases chars.len(),
{
    if chars.len() > 0 && is_white(chars[0]) {
        trimmed_start(chars.drop_first())
    } else {
        chars
    }
}

/// The text without the white space after it.
pub open spec fn trimmed_end(chars: Seq<char>) -> Seq<char>
    decreases chars.len(),
{
    if chars.len() > 0 && is_white(chars.last()) {
        trimmed_end(chars.drop_last())
    } else {
        chars
    }
}

/// The text without the white space around it.
pub open spec fn trimmed(chars: Seq<char>) -> Seq<char> {
    trimmed_end(trimmed_start(chars))
}

/// The characters of a string without the white space around it.
pub fn trim(text: &str) -> (chars: Vec<char>)
    ensures
        chars@ == trimmed(text@),
{
    let source = chars_of(text);
    let len: usize = source.len();
    let mut start: usize = 0;
    assert(text@.skip(0) =~= text@);
    while start < len && is_whitespace(source[start])
        invariant
            len == source@.len(),
            source@ == text@,
            start <= len,
            trimmed_start(text@.skip(start as int)) == trimmed_start(text@),
        decreases len - start,
    {
        assert(text@.skip(start as int).drop_first() =~= text@.skip(start + 1));
        start = start + 1;
    }
    let ghost inner = trimmed_start(text@);
    assert(inner =~= text@.skip(start as int));
    let mut end: usize = len;
    assert(inner.take(end - start) =~= inner);
    while end > start && is_whitespace(source[end - 1])
        invariant
            len == source@.len(),
            source@ == text@,
            start <= end <= len,
            inner == text@.skip(start as int),
            trimmed_end(inner.take(end - start)) == trimmed_end(inner),
        decreases end,
    {
        assert(inner.take(end - start).drop_last() =~= inner.take(end - start - 1));
        end = end - 1;
    }
    assert(trimmed_end(inner.take(end - start)) == inner.take(end - start));
    let mut chars: Vec<char> = Vec::new();
    let mut i: usize = start;
    while i < end
        invariant
            len == source@.len(),
            source@ == text@,
            start <= i <= end <= len,
            inner == text@.skip(start as int),
            chars@ == inner.take(i - start),
        decreases end - i,
    {
        chars.push(source[i]);
        assert(chars@ =~= inner.take(i - start + 1));
        i = i + 1;
    }
    chars
}

/// Whether a character is an ASCII digit.
pub open spec fn is_digit(c: char) -> bool {
    '0' <= c && c <= '9'
}

/// The number that ASCII digits write.
pub open spec fn digits_value(digits: Seq<char>) -> nat
    decreases digits.len(),
{
    if digits.len() == 0 {
        0
    } else {
        digits_value(digits.drop_last()) * 10 + (digits.last() as u32 - '0' as u32) as nat
    }
}

/// The digits of a numeral, which may have a plus sign before them.
pub open spec fn numeral_digits(chars: Seq<char>) -> Seq<char> {
    if chars.len() > 0 && chars[0] == '+' {
        chars.skip(1)
    } else {
        chars
    }
}

/// The number of at most 32 bits that a text writes, if it writes one.
pub open spec fn number32(chars: Seq<char>) -> Option<u32> {
    let digits = numeral_digits(chars);
    if digits.len() > 0 && (forall|i: int| 0 <= i < digits.len() ==> is_digit(digits[i]))
        && digits_value(digits) <= u32::MAX {
        Some(digits_value(digits) as u32)
    } else {
        None
    }
}

proof fn lemma_digits_grow(digits: Seq<char>, count: int)
    requires
        0 <= count <= digits.len(),
    ensures
        digits_value(digits.take(count)) <= digits_value(digits),
    decreases digits.len() - count,
{
    if count < digits.len() {
        assert(digits.take(count + 1).drop_last() =~= digits.take(count));
        lemma_digits_grow(digits, count + 1);
    } else {
        assert(digits.take(count) =~= digits);
    }
}

/// The number of at most 32 bits that characters write, if they write one.
pub fn parse_u32(chars: &Vec<char>) -> (number: Option<u32>)
    ensures
        number == number32(chars@),
{
    let len: usize = chars.len();
    let start: usize = if len > 0 && chars[0] == '+' {
        1
    } else {
        0
    };
    let ghost digits = numeral_digits(chars@);
    assert(digits =~= chars@.skip(start as int));
    if start == len {
        return None;
    }
    let mut value: u64 = 0;
    let mut i: usize = start;
    assert(digits.take(0) =~= seq![]);
    while i < len
        invariant
            start <= i <= len,
            start < len,
            len == chars@.len(),
            digits == numeral_digits(chars@),
            digits == chars@.skip(start as int),
            forall|j: int| 0 <= j < i - start ==> is_digit(digits[j]),
            value == digits_value(digits.take(i - start)),
            value <= u32::MAX,
        decreases len - i,
    {
        let c = chars[i];
        assert(digits[i - start] == c);
        if !('0' <= c && c <= '9') {
            return None;
        }
        value = value * 10 + (c as u32 - '0' as u32) as u64;
        proof {
            let next = digits.take(i - start + 1);
            assert(next.drop_last() =~= digits.take(i - start));
            assert(next.last() == c);
            lemma_digits_grow(digits, i - start + 1);
        }
        if value > u32::MAX as u64 {
            return None;
        }
        i = i + 1;
    }
    assert(digits.take(digits.len() as int) =~= digits);
    Some(value as u32)
}

/// The first position of a character.
pub open spec fn first_index(chars: Seq<char>, c: char) -> Option<int>
    decreases chars.len(),
{
    if chars.len() == 0 {
        None
    } else {
        match first_index(chars.drop_last(), c) {
            Some(i) => Some(i),
            None => if chars.last() == c {
                Some(chars.len() - 1)
            } else {
                None
            },
        }
    }
}

/// The first position of a character.
pub fn find_char(chars: &Vec<char>, c: char) -> (found: Option<usize>)
    ensures
        match first_index(chars@, c) {
            Some(i) => 0 <= i < chars@.len() && chars@[i] == c && found == Some(i as usize) && forall|
                j: int,
            |
                0 <= j < i ==> chars@[j] != c,
            None => found is None && forall|j: int| 0 <= j < chars@.len() ==> chars@[j] != c,
        },
{
    let mut i: usize = 0;
    while i < chars.len()
        invariant
            i <= chars@.len(),
            first_index(chars@.take(i as int), c) is None,
            forall|j: int| 0 <= j < i ==> chars@[j] != c,
        decreases chars@.len() - i,
    {
        proof {
            let next = chars@.take(i + 1);
            assert(next.drop_last() =~= chars@.take(i as int));
        }
        if chars[i] == c {
            proof {
                lemma_first_index_kept(chars@, c, i + 1);
            }
            return Some(i);
        }
        i = i + 1;
    }
    assert(chars@.take(chars@.len() as int) =~= chars@);
    None
}

proof fn lemma_first_index_kept(chars: Seq<char>, c: char, count: int)
    requires
        0 <= count <= chars.len(),
        first_index(chars.take(count), c) is Some,
    ensures
        first_index(chars, c) == first_index(chars.take(count), c),
    decreases chars.len() - count,
{
    if count < chars.len() {
        assert(chars.take(count + 1).drop_last() =~= chars.take(count));
        lemma_first_index_kept(chars, c, count + 1);
    } else {
        assert(chars.take(count) =~= chars);
    }
}

/// The last position of a character.
pub open spec fn last_index(chars: Seq<char>, c: char) -> Option<int>
    decreases chars.len(),
{
    if chars.len() == 0 {
        None
    } else if chars.last() == c {
        Some(chars.len() - 1)
    } else {
        last_index(chars.drop_last(), c)
    }
}

/// The last position of a character.
pub fn find_last(chars: &Vec<char>, c: char) -> (found: Option<usize>)
    ensures
        match last_index(chars@, c) {
            Some(i) => 0 <= i < chars@.len() && chars@[i] == c && found == Some(i as usize),
            None => found is None,
        },
{
    let mut i: usize = chars.len();
    assert(chars@.take(i as int) =~= chars@);
    while i > 0
        invariant
            i <= chars@.len(),
            last_index(chars@.take(i as int), c) == last_index(chars@, c),
        decreases i,
    {
        assert(chars@.take(i as int).drop_last() =~= chars@.take(i - 1));
        if chars[i - 1] == c {
            return Some(i - 1);
        }
        i = i - 1;
    }
    None
}

/// Whether a text begins with another.
pub open spec fn begins_with(chars: Seq<char>, part: Seq<char>) -> bool {
    stands_at(chars, part, 0)
}

/// Whether a text ends with another.
pub open spec fn finishes_with(chars: Seq<char>, part: Seq<char>) -> bool {
    part.len() <= chars.len() && stands_at(chars, part, chars.len() - part.len())
}

/// Whether characters begin with a text.
pub fn starts_with(chars: &Vec<char>, part: &str) -> (found: bool)
    ensures
        found == begins_with(chars@, part@),
{
    is_at(chars, &chars_of(part), 0)
}

/// Whether characters end with a text.
pub fn ends_with(chars: &Vec<char>, part: &str) -> (found: bool)
    ensures
        found == finishes_with(chars@, part@),
{
    let part_chars = chars_of(part);
    if part_chars.len() > chars.len() {
        return false;
    }
    is_at(chars, &part_chars, chars.len() - part_chars.len())
}

/// The text without a carriage return at its end.
pub open spec fn without_return(chars: Seq<char>) -> Seq<char> {
    if chars.len() > 0 && chars.last() == '\r' {
        chars.drop_last()
    } else {
        chars
    }
}

/// The lines of a text. A line ends with a line feed, or with a carriage return before it, and the
/// last need not.
pub open spec fn lines(chars: Seq<char>) -> Seq<Seq<char>>
    decreases chars.len(),
{
    if chars.len() == 0 {
        seq![]
    } else {
        match first_index(chars, '\n') {
            Some(i) => if 0 <= i < chars.len() {
                seq![without_return(chars.take(i))] + lines(chars.skip(i + 1))
            } else {
                seq![]
            },
            None => seq![chars],
        }
    }
}

/// What character vectors hold.
pub open spec fn texts(parts: Seq<Vec<char>>) -> Seq<Seq<char>> {
    parts.map_values(|part: Vec<char>| part@)
}

/// The lines of a text.
pub fn split_lines(chars: &Vec<char>) -> (parts: Vec<Vec<char>>)
    ensures
        texts(parts@) == lines(chars@),
{
    let len: usize = chars.len();
    let mut parts: Vec<Vec<char>> = Vec::new();
    let mut start: usize = 0;
    assert(chars@.skip(0) =~= chars@);
    assert(texts(parts@) + lines(chars@.skip(0)) =~= lines(chars@));
    while start < len
        invariant
            start <= len,
            len == chars@.len(),
            texts(parts@) + lines(chars@.skip(start as int)) == lines(chars@),
        decreases len - start,
    {
        let rest = part_of(chars, start, len);
        let ghost before = texts(parts@);
        assert(rest@ =~= chars@.skip(start as int));
        match find_char(&rest, '\n') {
            Some(i) => {
                let end: usize = if i > 0 && rest[i - 1] == '\r' {
                    i - 1
                } else {
                    i
                };
                let line = part_of(&rest, 0, end);
                assert(line@ =~= without_return(rest@.take(i as int)));
                parts.push(line);
                assert(texts(parts@) =~= before.push(line@));
                assert(rest@.skip(i + 1) =~= chars@.skip(start + i + 1));
                start = start + i + 1;
                assert(texts(parts@) + lines(chars@.skip(start as int)) =~= before + (seq![line@]
                    + lines(chars@.skip(start as int))));
            },
            None => {
                parts.push(rest);
                assert(texts(parts@) =~= before.push(rest@));
                start = len;
                assert(chars@.skip(len as int) =~= seq![]);
                assert(texts(parts@) + lines(chars@.skip(start as int)) =~= before + seq![rest@]);
            },
        }
    }
    assert(chars@.skip(len as int) =~= seq![]);
    assert(texts(parts@) =~= texts(parts@) + lines(chars@.skip(len as int)));
    parts
}

/// A copy of some of the characters.
pub fn part_of(chars: &Vec<char>, start: usize, end: usize) -> (part: Vec<char>)
    requires
        start <= end <= chars@.len(),
    ensures
        part@ == chars@.subrange(start as int, end as int),
{
    let mut part: Vec<char> = Vec::new();
    let mut i: usize = start;
    while i < end
        invariant
            start <= i <= end <= chars@.len(),
            part@ == chars@.subrange(start as int, i as int),
        decreases end - i,
    {
        part.push(chars[i]);
        assert(part@ =~= chars@.subrange(start as int, i + 1));
        i = i + 1;
    }
    part
}

/// A control character.
pub open spec fn is_control_char(c: char) -> bool {
    c as u32 <= 0x1f || 0x7f <= c as u32 <= 0x9f
}

/// Whether a string holds a control character.
pub fn has_control(text: &str) -> (found: bool)
    ensures
        found == exists|i: int| 0 <= i < text@.len() && is_control_char(#[trigger] text@[i]),
{
    let chars = chars_of(text);
    let mut i: usize = 0;
    while i < chars.len()
        invariant
            i <= chars@.len(),
            chars@ == text@,
            forall|j: int| 0 <= j < i ==> !is_control_char(#[trigger] text@[j]),
        decreases chars@.len() - i,
    {
        let point: u32 = chars[i] as u32;
        if point <= 0x1f || (0x7f <= point && point <= 0x9f) {
            assert(is_control_char(text@[i as int]));
            return true;
        }
        i = i + 1;
    }
    false
}

/// Whether two strings hold the same characters.
pub fn same(a: &str, b: &str) -> (equal: bool)
    ensures
        equal == (a@ == b@),
{
    a.to_owned() == b.to_owned()
}

/// How Rust writes a string in quotes for a reader: `format!("{:?}")` of the string.
pub uninterp spec fn quoted(chars: Seq<char>) -> Seq<char>;

/// The `Debug` form of a string, by `format!`. It is named, not stated.
#[verifier::external_body]
pub(crate) fn quote(text: &str) -> (shown: String)
    ensures
        shown@ == quoted(text@),
{
    format!("{:?}", text)
}

/// A number in decimal, with its sign where it is negative.
pub open spec fn signed(value: int) -> Seq<char> {
    if value < 0 {
        "-"@ + decimal((-value) as nat)
    } else {
        decimal(value as nat)
    }
}

/// Appends a number in decimal.
pub fn push_signed(out: &mut String, value: i64)
    ensures
        final(out)@ == old(out)@ + signed(value as int),
{
    if value < 0 {
        out.append("-");
        push_decimal(out, (-(value as i128)) as u64);
        assert(out@ =~= old(out)@ + signed(value as int));
    } else {
        push_decimal(out, value as u64);
    }
}

} // verus!
