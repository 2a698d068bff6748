//! What holds of numerals, of white space and of lines.

use crate::text;
use vstd::prelude::*;

verus! {

/// A decimal numeral has digits alone, no nought before others, and the value of its number.
pub proof fn lemma_decimal(n: nat)
    ensures
        ({
            let digits = text::decimal(n);
            &&& 0 < digits.len()
            &&& forall|i: int| 0 <= i < digits.len() ==> '0' <= #[trigger] digits[i] <= '9'
            &&& n > 0 ==> digits[0] != '0'
            &&& text::digits_value(digits) == n
            &&& n <= u32::MAX ==> text::number32(digits) == Some(n as u32)
        }),
    decreases n,
{
    let digits = text::decimal(n);
    if n < 10 {
        assert(digits.drop_last() =~= Seq::<char>::empty());
        assert(text::digits_value(digits.drop_last()) == 0);
    } else {
        lemma_decimal(n / 10);
        assert(digits.drop_last() =~= text::decimal(n / 10));
        assert(digits[0] == text::decimal(n / 10)[0]);
    }
    assert(forall|i: int| 0 <= i < digits.len() ==> text::is_digit(#[trigger] digits[i]));
}

/// Different numbers have different numerals.
pub proof fn lemma_decimals_differ(a: nat, b: nat)
    requires
        text::decimal(a) == text::decimal(b),
    ensures
        a == b,
{
    lemma_decimal(a);
    lemma_decimal(b);
}

/// A negative number is written as its size behind a minus sign, and another as its numeral.
pub proof fn lemma_signed(value: int)
    ensures
        value >= 0 ==> text::signed(value) == text::decimal(value as nat),
        value < 0 ==> text::signed(value) == seq!['-'] + text::decimal((-value) as nat),
{
    reveal_strlit("-");
    if value < 0 {
        assert("-"@ =~= seq!['-']);
    }
}

/// Whether a text is white space alone.
pub open spec fn blank(chars: Seq<char>) -> bool {
    forall|i: int| 0 <= i < chars.len() ==> text::is_white(#[trigger] chars[i])
}

proof fn lemma_trimmed_start(chars: Seq<char>) -> (before: Seq<char>)
    ensures
        chars == before + text::trimmed_start(chars),
        blank(before),
        text::trimmed_start(chars).len() > 0 ==> !text::is_white(text::trimmed_start(chars)[0]),
    decreases chars.len(),
{
    if chars.len() > 0 && text::is_white(chars[0]) {
        let later = chars.drop_first();
        let rest = lemma_trimmed_start(later);
        let before = seq![chars[0]] + rest;
        assert(chars =~= seq![chars[0]] + later);
        assert(text::trimmed_start(chars) == text::trimmed_start(later));
        assert(seq![chars[0]] + (rest + text::trimmed_start(later)) =~= before
            + text::trimmed_start(later));
        before
    } else {
        let none = Seq::<char>::empty();
        assert(chars =~= none + chars);
        none
    }
}

proof fn lemma_trimmed_end(chars: Seq<char>) -> (after: Seq<char>)
    ensures
        chars == text::trimmed_end(chars) + after,
        blank(after),
        text::trimmed_end(chars).len() > 0 ==> !text::is_white(text::trimmed_end(chars).last()),
    decreases chars.len(),
{
    if chars.len() > 0 && text::is_white(chars.last()) {
        let earlier = chars.drop_last();
        let rest = lemma_trimmed_end(earlier);
        let after = rest.push(chars.last());
        assert(chars =~= earlier.push(chars.last()));
        assert(text::trimmed_end(chars) == text::trimmed_end(earlier));
        assert((text::trimmed_end(earlier) + rest).push(chars.last()) =~= text::trimmed_end(earlier)
            + after);
        after
    } else {
        let none = Seq::<char>::empty();
        assert(chars =~= chars + none);
        none
    }
}

/// Trimming takes away white space before and after a text and nothing else: what is left neither
/// begins nor ends with it. Nothing is left where there was nothing else.
pub proof fn lemma_trimmed(chars: Seq<char>) -> (around: (Seq<char>, Seq<char>))
    ensures
        ({
            let left = text::trimmed(chars);
            &&& chars == around.0 + left + around.1
            &&& blank(around.0)
            &&& blank(around.1)
            &&& left.len() > 0 ==> !text::is_white(left[0]) && !text::is_white(left.last())
            &&& left.len() == 0 <==> blank(chars)
        }),
{
    let before = lemma_trimmed_start(chars);
    let inner = text::trimmed_start(chars);
    let after = lemma_trimmed_end(inner);
    let left = text::trimmed(chars);
    assert(chars =~= before + left + after);
    if left.len() > 0 {
        assert(left[0] == inner[0]);
        assert(chars[before.len() as int] == left[0]);
    } else {
        assert forall|i: int| 0 <= i < chars.len() implies text::is_white(#[trigger] chars[i]) by {
            if i < before.len() {
                assert(chars[i] == before[i]);
            } else {
                assert(chars[i] == after[i - before.len()]);
            }
        }
    }
    (before, after)
}

/// The first place of a character is where it stands and nothing before does.
pub proof fn lemma_first_index(chars: Seq<char>, c: char)
    ensures
        match text::first_index(chars, c) {
            Some(at) => 0 <= at < chars.len() && chars[at] == c && forall|j: int|
                0 <= j < at ==> #[trigger] chars[j] != c,
            None => forall|j: int| 0 <= j < chars.len() ==> #[trigger] chars[j] != c,
        },
    decreases chars.len(),
{
    if chars.len() > 0 {
        lemma_first_index(chars.drop_last(), c);
        let before = chars.drop_last();
        assert forall|j: int| 0 <= j < before.len() implies #[trigger] chars[j] == before[j] by {}
    }
}

/// The last place of a character is where it stands and nothing after does.
pub proof fn lemma_last_index(chars: Seq<char>, c: char)
    ensures
        match text::last_index(chars, c) {
            Some(at) => 0 <= at < chars.len() && chars[at] == c && forall|j: int|
                at < j < chars.len() ==> #[trigger] chars[j] != c,
            None => forall|j: int| 0 <= j < chars.len() ==> #[trigger] chars[j] != c,
        },
    decreases chars.len(),
{
    if chars.len() > 0 && chars.last() != c {
        lemma_last_index(chars.drop_last(), c);
        let before = chars.drop_last();
        assert forall|j: int| 0 <= j < before.len() implies #[trigger] chars[j] == before[j] by {}
    }
}

/// A line feed ends a line, and so does a carriage return before it. The rest are the other lines.
pub proof fn lemma_lines(line: Seq<char>, rest: Seq<char>)
    requires
        forall|i: int| 0 <= i < line.len() ==> #[trigger] line[i] != '\n' && line[i] != '\r',
    ensures
        text::lines(line + seq!['\n'] + rest) == seq![line] + text::lines(rest),
        text::lines(line + seq!['\r', '\n'] + rest) == seq![line] + text::lines(rest),
        line.len() > 0 ==> text::lines(line) == seq![line],
        text::lines(Seq::<char>::empty()).len() == 0,
{
    let plain = line + seq!['\n'] + rest;
    lemma_first_index(plain, '\n');
    assert(plain[line.len() as int] == '\n');
    let at = text::first_index(plain, '\n')->0;
    if at < line.len() {
        assert(plain[at] == line[at]);
    }
    assert(plain.take(at) =~= line);
    assert(plain.skip(at + 1) =~= rest);
    let returned = line + seq!['\r', '\n'] + rest;
    lemma_first_index(returned, '\n');
    assert(returned[line.len() as int + 1] == '\n');
    let end = text::first_index(returned, '\n')->0;
    if end < line.len() {
        assert(returned[end] == line[end]);
    }
    assert(returned[line.len() as int] == '\r');
    assert(returned.take(end) =~= line.push('\r'));
    assert(line.push('\r').drop_last() =~= line);
    assert(returned.skip(end + 1) =~= rest);
    lemma_first_index(line, '\n');
}

/// A capital is made small, and no other character changes.
pub proof fn lemma_lowered(c: char)
    ensures
        'A' <= c <= 'Z' ==> 'a' <= text::lowered(c) <= 'z' && text::lowered(c) as u32 - 'a' as u32
            == c as u32 - 'A' as u32,
        !('A' <= c <= 'Z') ==> text::lowered(c) == c,
{
}

/// The control characters are those before the space, and those from delete to the one before the
/// space that does not break.
pub proof fn lemma_control(c: char)
    ensures
        text::is_control_char(c) <==> c < ' ' || '\u{7f}' <= c < '\u{a0}',
{
}

/// White space is what Unicode calls so: tab to carriage return, the space, the next line, the space
/// that does not break, the space of Ogham, those from the en quad to the hair space, the separators
/// of lines and paragraphs, the narrow and the mathematical space, and the ideographic one.
pub proof fn lemma_white(c: char)
    ensures
        text::is_white(c) <==> {
            ||| '\t' <= c <= '\r'
            ||| c == ' '
            ||| c == '\u{85}'
            ||| c == '\u{a0}'
            ||| c == '\u{1680}'
            ||| '\u{2000}' <= c <= '\u{200a}'
            ||| c == '\u{2028}'
            ||| c == '\u{2029}'
            ||| c == '\u{202f}'
            ||| c == '\u{205f}'
            ||| c == '\u{3000}'
        },
{
}

} // verus!
