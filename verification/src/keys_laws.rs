//! What the remote keyboard types for each key.

use crate::keys;
use crate::keys::{KeyCode, KeyEvent, KeyModifiers};
use crate::text;
use vstd::prelude::*;

verus! {

/// What the keys type that stand side by side on the US layout, with and without the shift key.
pub open spec fn legend(code: int, shift: bool) -> Option<char> {
    if 2 <= code < 14 {
        Some(
            if shift {
                "!@#$%^&*()_+"@[code - 2]
            } else {
                "1234567890-="@[code - 2]
            },
        )
    } else if 16 <= code < 28 {
        Some(
            if shift {
                "QWERTYUIOP{}"@[code - 16]
            } else {
                "qwertyuiop[]"@[code - 16]
            },
        )
    } else if 30 <= code < 42 {
        Some(
            if shift {
                "ASDFGHJKL:\"~"@[code - 30]
            } else {
                "asdfghjkl;'`"@[code - 30]
            },
        )
    } else if 43 <= code < 54 {
        Some(
            if shift {
                "|ZXCVBNM<>?"@[code - 43]
            } else {
                "\\zxcvbnm,./"@[code - 43]
            },
        )
    } else if code == 57 {
        Some(' ')
    } else {
        None
    }
}

proof fn lemma_index(row: Seq<char>, c: char)
    ensures
        match text::first_index(row, c) {
            Some(i) => 0 <= i < row.len() && row[i] == c,
            None => forall|j: int| 0 <= j < row.len() ==> row[j] != c,
        },
    decreases row.len(),
{
    if row.len() > 0 {
        lemma_index(row.drop_last(), c);
        if text::first_index(row, c) is None {
            assert forall|j: int| 0 <= j < row.len() implies row[j] != c by {
                if j < row.len() - 1 {
                    assert(row.drop_last()[j] == row[j]);
                }
            }
        }
    }
}

proof fn lemma_rows()
    ensures
        "qwertyuiop"@.len() == 10,
        "asdfghjkl"@.len() == 9,
        "zxcvbnm"@.len() == 7,
        forall|i: int|
            0 <= i < 10 ==> 'a' <= #[trigger] "qwertyuiop"@[i] <= 'z' && legend(16 + i, false)
                == Some("qwertyuiop"@[i]) && legend(16 + i, true) == Some(
                ("qwertyuiop"@[i] as u32 - 32) as char,
            ),
        forall|i: int|
            0 <= i < 9 ==> 'a' <= #[trigger] "asdfghjkl"@[i] <= 'z' && legend(30 + i, false)
                == Some("asdfghjkl"@[i]) && legend(30 + i, true) == Some(
                ("asdfghjkl"@[i] as u32 - 32) as char,
            ),
        forall|i: int|
            0 <= i < 7 ==> 'a' <= #[trigger] "zxcvbnm"@[i] <= 'z' && legend(44 + i, false)
                == Some("zxcvbnm"@[i]) && legend(44 + i, true) == Some(
                ("zxcvbnm"@[i] as u32 - 32) as char,
            ),
{
    reveal_strlit("qwertyuiop");
    reveal_strlit("asdfghjkl");
    reveal_strlit("zxcvbnm");
    reveal_strlit("QWERTYUIOP{}");
    reveal_strlit("qwertyuiop[]");
    reveal_strlit("ASDFGHJKL:\"~");
    reveal_strlit("asdfghjkl;'`");
    reveal_strlit("|ZXCVBNM<>?");
    reveal_strlit("\\zxcvbnm,./");
    assert forall|i: int| 0 <= i < 10 implies 'a' <= #[trigger] "qwertyuiop"@[i] <= 'z' && legend(
        16 + i,
        false,
    ) == Some("qwertyuiop"@[i]) && legend(16 + i, true) == Some(
        ("qwertyuiop"@[i] as u32 - 32) as char,
    ) by {
        assert(i == 0 || i == 1 || i == 2 || i == 3 || i == 4 || i == 5 || i == 6 || i == 7 || i
            == 8 || i == 9);
    }
    assert forall|i: int| 0 <= i < 9 implies 'a' <= #[trigger] "asdfghjkl"@[i] <= 'z' && legend(
        30 + i,
        false,
    ) == Some("asdfghjkl"@[i]) && legend(30 + i, true) == Some(
        ("asdfghjkl"@[i] as u32 - 32) as char,
    ) by {
        assert(i == 0 || i == 1 || i == 2 || i == 3 || i == 4 || i == 5 || i == 6 || i == 7 || i
            == 8);
    }
    assert forall|i: int| 0 <= i < 7 implies 'a' <= #[trigger] "zxcvbnm"@[i] <= 'z' && legend(
        44 + i,
        false,
    ) == Some("zxcvbnm"@[i]) && legend(44 + i, true) == Some(
        ("zxcvbnm"@[i] as u32 - 32) as char,
    ) by {
        assert(i == 0 || i == 1 || i == 2 || i == 3 || i == 4 || i == 5 || i == 6);
    }
}

/// Letters are found in their rows, and only there.
proof fn lemma_letters(c: char)
    ensures
        keys::letter(c) matches Some(code) ==> ('a' <= c <= 'z' || 'A' <= c <= 'Z') && legend(
            code as int,
            'A' <= c <= 'Z',
        ) == Some(c),
        'a' <= c <= 'z' || 'A' <= c <= 'Z' ==> keys::letter(c) is Some,
{
    let small = text::lowered(c);
    lemma_rows();
    lemma_index("qwertyuiop"@, small);
    lemma_index("asdfghjkl"@, small);
    lemma_index("zxcvbnm"@, small);
    if keys::letter(c) is None {
        reveal_strlit("qwertyuiop");
        reveal_strlit("asdfghjkl");
        reveal_strlit("zxcvbnm");
        let (q, a, z) = ("qwertyuiop"@, "asdfghjkl"@, "zxcvbnm"@);
        assert(q[0] != small && q[1] != small && q[2] != small && q[3] != small && q[4] != small
            && q[5] != small && q[6] != small && q[7] != small && q[8] != small && q[9] != small);
        assert(a[0] != small && a[1] != small && a[2] != small && a[3] != small && a[4] != small
            && a[5] != small && a[6] != small && a[7] != small && a[8] != small);
        assert(z[0] != small && z[1] != small && z[2] != small && z[3] != small && z[4] != small
            && z[5] != small && z[6] != small);
    }
}

/// The key code and the shift state that are found for a character type that character on the US
/// layout, and every printable ASCII character has them. So no two characters share both, and none
/// has the code of another key.
pub proof fn lemma_character_typed(c: char)
    ensures
        keys::char_code(c) matches Some((code, shift)) ==> legend(code as int, shift) == Some(c),
        ' ' <= c <= '~' <==> keys::char_code(c) is Some,
{
    lemma_letters(c);
    reveal_strlit("!@#$%^&*()_+");
    reveal_strlit("1234567890-=");
    reveal_strlit("QWERTYUIOP{}");
    reveal_strlit("qwertyuiop[]");
    reveal_strlit("ASDFGHJKL:\"~");
    reveal_strlit("asdfghjkl;'`");
    reveal_strlit("|ZXCVBNM<>?");
    reveal_strlit("\\zxcvbnm,./");
}

/// A character that is typed without modifiers is sent as the key that types it, with the shift key
/// where it takes that, and with no other modifier.
pub proof fn lemma_character_sent(c: char)
    requires
        ' ' <= c <= '~',
    ensures
        ({
            let plain = KeyModifiers { shift: false, control: false, alt: false, logo: false };
            let sent = keys::encoded(KeyEvent { code: KeyCode::Char(c), modifiers: plain });
            &&& sent is Some
            &&& sent->0.modifiers == 0 || sent->0.modifiers == 1
            &&& legend(sent->0.keycode as int, sent->0.modifiers == 1) == Some(c)
        }),
{
    lemma_character_typed(c);
}

/// The keys that stand by themselves, in the order of their codes.
pub open spec fn island() -> Seq<KeyCode> {
    seq![
        KeyCode::Home,
        KeyCode::Up,
        KeyCode::PageUp,
        KeyCode::Left,
        KeyCode::Right,
        KeyCode::End,
        KeyCode::Down,
        KeyCode::PageDown,
        KeyCode::Insert,
        KeyCode::Delete,
    ]
}

/// The keys between the letters and the keypad are numbered one after the other.
pub proof fn lemma_island_keys(i: int)
    requires
        0 <= i < island().len(),
    ensures
        keys::key_code(island()[i]) == Some(((102 + i) as u32, false)),
{
}

/// The keys at the ends of the rows stand beside the characters there: escape before the digits and
/// backspace behind them, tab before the first letters and enter behind them.
pub proof fn lemma_edge_keys()
    ensures
        keys::key_code(KeyCode::Esc) matches Some((code, shift)) && !shift && legend(
            code + 1,
            false,
        ) == Some('1'),
        keys::key_code(KeyCode::Backspace) matches Some((code, shift)) && !shift && legend(
            code - 1,
            false,
        ) == Some('='),
        keys::key_code(KeyCode::Tab) matches Some((code, shift)) && !shift && legend(
            code + 1,
            false,
        ) == Some('q'),
        keys::key_code(KeyCode::Enter) matches Some((code, shift)) && !shift && legend(
            code - 1,
            false,
        ) == Some(']'),
        keys::key_code(KeyCode::BackTab) == Some(
            ((keys::key_code(KeyCode::Tab)->0).0, true),
        ),
{
    reveal_strlit("1234567890-=");
    reveal_strlit("qwertyuiop[]");
}

/// Function keys are numbered one after the other, and the last two apart from the others. There
/// are twelve.
pub proof fn lemma_function_keys(number: u8)
    ensures
        keys::key_code(KeyCode::F(number)) is Some <==> 1 <= number <= 12,
        keys::key_code(KeyCode::F(1)) == Some((59u32, false)),
        1 < number <= 12 && number != 11 ==> keys::key_code(KeyCode::F(number)) == Some(
            (((keys::key_code(KeyCode::F((number - 1) as u8))->0).0 + 1) as u32, false),
        ),
        keys::key_code(KeyCode::F(11)) == Some((87u32, false)),
{
}

/// Two keys are sent alike only where they are the same key.
pub proof fn lemma_keys_apart(a: KeyCode, b: KeyCode)
    requires
        keys::key_code(a) is Some,
        keys::key_code(a) == keys::key_code(b),
    ensures
        a == b,
{
    if a is Char {
        lemma_character_typed(a->Char_0);
    }
    if b is Char {
        lemma_character_typed(b->Char_0);
    }
}

/// Each modifier that is held has its own bit of the mask, shift also where the key implies it, and
/// no other bit is set.
pub proof fn lemma_modifier_bits(key: KeyEvent)
    requires
        keys::encoded(key) is Some,
    ensures
        ({
            let mask = keys::encoded(key)->0.modifiers as int;
            &&& mask % 2 == 1 <==> key.modifiers.shift || (keys::key_code(key.code)->0).1
            &&& mask / 2 % 2 == 0
            &&& mask / 4 % 2 == 1 <==> key.modifiers.control
            &&& mask / 8 % 2 == 1 <==> key.modifiers.alt
            &&& mask / 16 % 4 == 0
            &&& mask / 64 == 1 <==> key.modifiers.logo
            &&& mask / 64 <= 1
            &&& keys::encoded(key)->0.keycode == (keys::key_code(key.code)->0).0
        }),
{
}

/// The prefix of commands is control with the key that types a backslash, or with the four, which
/// traditional terminals report alike; no other key is one.
pub proof fn lemma_prefix_keys(key: KeyEvent)
    ensures
        keys::is_prefix(key) <==> key.modifiers.control && (key.code == KeyCode::Char('\\')
            || key.code == KeyCode::Char('4')),
{
}

} // verus!
