//! Keys as terminals report them, and the key codes of the remote keyboard.

use crate::text;
use crate::text::{chars_of, find_char, lower, push_decimal};
use vstd::prelude::*;

verus! {

pub const MOD_SHIFT: u32 = 1;

pub const MOD_CONTROL: u32 = 4;

pub const MOD_ALT: u32 = 8;

pub const MOD_SUPER: u32 = 64;

/// Keys of media players.
#[derive(Debug, Clone, Copy, PartialEq, Eq, Structural)]
pub enum MediaKeyCode {
    Play,
    Pause,
    PlayPause,
    Reverse,
    Stop,
    FastForward,
    Rewind,
    TrackNext,
    TrackPrevious,
    Record,
    LowerVolume,
    RaiseVolume,
    MuteVolume,
}

/// Modifier keys that are reported by themselves.
#[derive(Debug, Clone, Copy, PartialEq, Eq, Structural)]
pub enum ModifierKeyCode {
    LeftShift,
    LeftControl,
    LeftAlt,
    LeftSuper,
    LeftHyper,
    LeftMeta,
    RightShift,
    RightControl,
    RightAlt,
    RightSuper,
    RightHyper,
    RightMeta,
    IsoLevel3Shift,
    IsoLevel5Shift,
}

/// A key.
#[derive(Debug, Clone, Copy, PartialEq, Eq, Structural)]
pub enum KeyCode {
    Backspace,
    Enter,
    Left,
    Right,
    Up,
    Down,
    Home,
    End,
    PageUp,
    PageDown,
    Tab,
    BackTab,
    Delete,
    Insert,
    F(u8),
    Char(char),
    Null,
    Esc,
    CapsLock,
    ScrollLock,
    NumLock,
    PrintScreen,
    Pause,
    Menu,
    KeypadBegin,
    Media(MediaKeyCode),
    Modifier(ModifierKeyCode),
}

/// The modifiers held with a key, as far as they matter here.
#[derive(Debug, Clone, Copy, PartialEq, Eq, Structural)]
pub struct KeyModifiers {
    pub shift: bool,
    pub control: bool,
    pub alt: bool,
    pub logo: bool,
}

impl Default for KeyModifiers {
    /// No modifier.
    fn default() -> (modifiers: Self)
        ensures
            modifiers == (KeyModifiers { shift: false, control: false, alt: false, logo: false }),
    {
        KeyModifiers { shift: false, control: false, alt: false, logo: false }
    }
}

impl KeyModifiers {
    /// Whether the key is part of a command of the terminal or desktop rather than text.
    pub open spec fn commanding(self) -> bool {
        self.control || self.alt || self.logo
    }
}

/// A key with the modifiers held.
#[derive(Debug, Clone, Copy, PartialEq, Eq, Structural)]
pub struct KeyEvent {
    pub code: KeyCode,
    pub modifiers: KeyModifiers,
}

/// A key code of the remote keyboard, and the mask of its modifiers.
#[derive(Debug, Clone, Copy, PartialEq, Eq, Structural)]
pub struct EncodedKey {
    pub keycode: u32,
    pub modifiers: u32,
}

/// The key that begins a command in input mode. Traditional terminals report control with a
/// backslash and control with a four alike.
pub open spec fn is_prefix(key: KeyEvent) -> bool {
    (key.code == KeyCode::Char('\\') || key.code == KeyCode::Char('4')) && key.modifiers.control
}

/// Whether a key begins a command in input mode.
pub fn is_command_prefix(key: KeyEvent) -> (prefix: bool)
    ensures
        prefix == is_prefix(key),
{
    match key.code {
        KeyCode::Char(c) => (c == '\\' || c == '4') && key.modifiers.control,
        _ => false,
    }
}

/// The key codes of a row of letters that begins with a code.
pub open spec fn letter_code(row: Seq<char>, first: u32, c: char) -> Option<u32> {
    match text::first_index(row, text::lowered(c)) {
        Some(i) => Some((first + i) as u32),
        None => None,
    }
}

/// The key code of a letter on the usual layout.
pub open spec fn letter(c: char) -> Option<u32> {
    match letter_code("qwertyuiop"@, 16, c) {
        Some(code) => Some(code),
        None => match letter_code("asdfghjkl"@, 30, c) {
            Some(code) => Some(code),
            None => letter_code("zxcvbnm"@, 44, c),
        },
    }
}

/// The key code of a character on the usual layout, and whether it takes the shift key.
pub open spec fn char_code(c: char) -> Option<(u32, bool)> {
    if letter(c) is Some {
        Some((letter(c)->0, 'A' <= c && c <= 'Z'))
    } else if '1' <= c && c <= '9' {
        Some(((2 + (c as u32 - '1' as u32)) as u32, false))
    } else if c == '0' {
        Some((11, false))
    } else if c == '!' {
        Some((2, true))
    } else if c == '@' {
        Some((3, true))
    } else if c == '#' {
        Some((4, true))
    } else if c == '$' {
        Some((5, true))
    } else if c == '%' {
        Some((6, true))
    } else if c == '^' {
        Some((7, true))
    } else if c == '&' {
        Some((8, true))
    } else if c == '*' {
        Some((9, true))
    } else if c == '(' {
        Some((10, true))
    } else if c == ')' {
        Some((11, true))
    } else if c == '-' || c == '_' {
        Some((12, c == '_'))
    } else if c == '=' || c == '+' {
        Some((13, c == '+'))
    } else if c == '[' || c == '{' {
        Some((26, c == '{'))
    } else if c == ']' || c == '}' {
        Some((27, c == '}'))
    } else if c == ';' || c == ':' {
        Some((39, c == ':'))
    } else if c == '\'' || c == '"' {
        Some((40, c == '"'))
    } else if c == '`' || c == '~' {
        Some((41, c == '~'))
    } else if c == '\\' || c == '|' {
        Some((43, c == '|'))
    } else if c == ',' || c == '<' {
        Some((51, c == '<'))
    } else if c == '.' || c == '>' {
        Some((52, c == '>'))
    } else if c == '/' || c == '?' {
        Some((53, c == '?'))
    } else if c == ' ' {
        Some((57, false))
    } else {
        None
    }
}

fn letter_in(row: &str, first: u32, c: char) -> (code: Option<u32>)
    requires
        first + row@.len() <= u32::MAX,
    ensures
        code == letter_code(row@, first, c),
{
    let chars = chars_of(row);
    match find_char(&chars, lower(c)) {
        Some(i) => Some(first + i as u32),
        None => None,
    }
}

/// The key code of a character on the usual layout, and whether it takes the shift key.
pub fn char_keycode(character: char) -> (code: Option<(u32, bool)>)
    ensures
        code == char_code(character),
{
    proof {
        reveal_strlit("qwertyuiop");
        reveal_strlit("asdfghjkl");
        reveal_strlit("zxcvbnm");
    }
    let shifted = 'A' <= character && character <= 'Z';
    if let Some(code) = letter_in("qwertyuiop", 16, character) {
        return Some((code, shifted));
    }
    if let Some(code) = letter_in("asdfghjkl", 30, character) {
        return Some((code, shifted));
    }
    if let Some(code) = letter_in("zxcvbnm", 44, character) {
        return Some((code, shifted));
    }
    if '1' <= character && character <= '9' {
        return Some((2 + (character as u32 - '1' as u32), false));
    }
    match character {
        '0' => Some((11, false)),
        '!' => Some((2, true)),
        '@' => Some((3, true)),
        '#' => Some((4, true)),
        '$' => Some((5, true)),
        '%' => Some((6, true)),
        '^' => Some((7, true)),
        '&' => Some((8, true)),
        '*' => Some((9, true)),
        '(' => Some((10, true)),
        ')' => Some((11, true)),
        '-' => Some((12, false)),
        '_' => Some((12, true)),
        '=' => Some((13, false)),
        '+' => Some((13, true)),
        '[' => Some((26, false)),
        '{' => Some((26, true)),
        ']' => Some((27, false)),
        '}' => Some((27, true)),
        ';' => Some((39, false)),
        ':' => Some((39, true)),
        '\'' => Some((40, false)),
        '"' => Some((40, true)),
        '`' => Some((41, false)),
        '~' => Some((41, true)),
        '\\' => Some((43, false)),
        '|' => Some((43, true)),
        ',' => Some((51, false)),
        '<' => Some((51, true)),
        '.' => Some((52, false)),
        '>' => Some((52, true)),
        '/' => Some((53, false)),
        '?' => Some((53, true)),
        ' ' => Some((57, false)),
        _ => None,
    }
}

/// The key code of a key, and whether it implies the shift key.
pub open spec fn key_code(code: KeyCode) -> Option<(u32, bool)> {
    match code {
        KeyCode::Backspace => Some((14, false)),
        KeyCode::Enter => Some((28, false)),
        KeyCode::Left => Some((105, false)),
        KeyCode::Right => Some((106, false)),
        KeyCode::Up => Some((103, false)),
        KeyCode::Down => Some((108, false)),
        KeyCode::Home => Some((102, false)),
        KeyCode::End => Some((107, false)),
        KeyCode::PageUp => Some((104, false)),
        KeyCode::PageDown => Some((109, false)),
        KeyCode::Tab => Some((15, false)),
        KeyCode::BackTab => Some((15, true)),
        KeyCode::Delete => Some((111, false)),
        KeyCode::Insert => Some((110, false)),
        KeyCode::Esc => Some((1, false)),
        KeyCode::F(number) => if 1 <= number <= 10 {
            Some(((58 + number) as u32, false))
        } else if number == 11 {
            Some((87, false))
        } else if number == 12 {
            Some((88, false))
        } else {
            None
        },
        KeyCode::Char(c) => char_code(c),
        _ => None,
    }
}

/// The mask of modifiers.
pub open spec fn modifier_mask(modifiers: KeyModifiers, implied_shift: bool) -> int {
    (if modifiers.shift || implied_shift {
        MOD_SHIFT as int
    } else {
        0
    }) + (if modifiers.control {
        MOD_CONTROL as int
    } else {
        0
    }) + (if modifiers.alt {
        MOD_ALT as int
    } else {
        0
    }) + (if modifiers.logo {
        MOD_SUPER as int
    } else {
        0
    })
}

/// What the remote keyboard sends for a key.
pub open spec fn encoded(key: KeyEvent) -> Option<EncodedKey> {
    match key_code(key.code) {
        Some((keycode, implied_shift)) => Some(
            EncodedKey { keycode, modifiers: modifier_mask(key.modifiers, implied_shift) as u32 },
        ),
        None => None,
    }
}

/// What the remote keyboard sends for a key, if it has that key.
pub fn encode_key(key: KeyEvent) -> (result: Option<EncodedKey>)
    ensures
        result == encoded(key),
{
    let (keycode, implied_shift): (u32, bool) = match key.code {
        KeyCode::Backspace => (14, false),
        KeyCode::Enter => (28, false),
        KeyCode::Left => (105, false),
        KeyCode::Right => (106, false),
        KeyCode::Up => (103, false),
        KeyCode::Down => (108, false),
        KeyCode::Home => (102, false),
        KeyCode::End => (107, false),
        KeyCode::PageUp => (104, false),
        KeyCode::PageDown => (109, false),
        KeyCode::Tab => (15, false),
        KeyCode::BackTab => (15, true),
        KeyCode::Delete => (111, false),
        KeyCode::Insert => (110, false),
        KeyCode::Esc => (1, false),
        KeyCode::F(number) => if 1 <= number && number <= 10 {
            (58 + number as u32, false)
        } else if number == 11 {
            (87, false)
        } else if number == 12 {
            (88, false)
        } else {
            return None;
        },
        KeyCode::Char(character) => match char_keycode(character) {
            Some(code) => code,
            None => return None,
        },
        _ => return None,
    };
    let mut modifiers: u32 = 0;
    if key.modifiers.shift || implied_shift {
        modifiers = modifiers + MOD_SHIFT;
    }
    if key.modifiers.control {
        modifiers = modifiers + MOD_CONTROL;
    }
    if key.modifiers.alt {
        modifiers = modifiers + MOD_ALT;
    }
    if key.modifiers.logo {
        modifiers = modifiers + MOD_SUPER;
    }
    Some(EncodedKey { keycode, modifiers })
}

/// How Rust writes a character in quotes for a reader: `format!("{:?}")` of the character.
pub uninterp spec fn quoted_char(c: char) -> Seq<char>;

/// The `Debug` form of a character, by `format!`. It is named, not stated.
#[verifier::external_body]
fn quote_char(c: char) -> (shown: String)
    ensures
        shown@ == quoted_char(c),
{
    format!("{:?}", c)
}

/// The name of a media key.
pub open spec fn media_name(code: MediaKeyCode) -> Seq<char> {
    match code {
        MediaKeyCode::Play => "Play"@,
        MediaKeyCode::Pause => "Pause"@,
        MediaKeyCode::PlayPause => "PlayPause"@,
        MediaKeyCode::Reverse => "Reverse"@,
        MediaKeyCode::Stop => "Stop"@,
        MediaKeyCode::FastForward => "FastForward"@,
        MediaKeyCode::Rewind => "Rewind"@,
        MediaKeyCode::TrackNext => "TrackNext"@,
        MediaKeyCode::TrackPrevious => "TrackPrevious"@,
        MediaKeyCode::Record => "Record"@,
        MediaKeyCode::LowerVolume => "LowerVolume"@,
        MediaKeyCode::RaiseVolume => "RaiseVolume"@,
        MediaKeyCode::MuteVolume => "MuteVolume"@,
    }
}

fn media_text(code: MediaKeyCode) -> (name: &'static str)
    ensures
        name@ == media_name(code),
{
    match code {
        MediaKeyCode::Play => "Play",
        MediaKeyCode::Pause => "Pause",
        MediaKeyCode::PlayPause => "PlayPause",
        MediaKeyCode::Reverse => "Reverse",
        MediaKeyCode::Stop => "Stop",
        MediaKeyCode::FastForward => "FastForward",
        MediaKeyCode::Rewind => "Rewind",
        MediaKeyCode::TrackNext => "TrackNext",
        MediaKeyCode::TrackPrevious => "TrackPrevious",
        MediaKeyCode::Record => "Record",
        MediaKeyCode::LowerVolume => "LowerVolume",
        MediaKeyCode::RaiseVolume => "RaiseVolume",
        MediaKeyCode::MuteVolume => "MuteVolume",
    }
}

/// The name of a modifier key.
pub open spec fn modifier_name(code: ModifierKeyCode) -> Seq<char> {
    match code {
        ModifierKeyCode::LeftShift => "LeftShift"@,
        ModifierKeyCode::LeftControl => "LeftControl"@,
        ModifierKeyCode::LeftAlt => "LeftAlt"@,
        ModifierKeyCode::LeftSuper => "LeftSuper"@,
        ModifierKeyCode::LeftHyper => "LeftHyper"@,
        ModifierKeyCode::LeftMeta => "LeftMeta"@,
        ModifierKeyCode::RightShift => "RightShift"@,
        ModifierKeyCode::RightControl => "RightControl"@,
        ModifierKeyCode::RightAlt => "RightAlt"@,
        ModifierKeyCode::RightSuper => "RightSuper"@,
        ModifierKeyCode::RightHyper => "RightHyper"@,
        ModifierKeyCode::RightMeta => "RightMeta"@,
        ModifierKeyCode::IsoLevel3Shift => "IsoLevel3Shift"@,
        ModifierKeyCode::IsoLevel5Shift => "IsoLevel5Shift"@,
    }
}

fn modifier_text(code: ModifierKeyCode) -> (name: &'static str)
    ensures
        name@ == modifier_name(code),
{
    match code {
        ModifierKeyCode::LeftShift => "LeftShift",
        ModifierKeyCode::LeftControl => "LeftControl",
        ModifierKeyCode::LeftAlt => "LeftAlt",
        ModifierKeyCode::LeftSuper => "LeftSuper",
        ModifierKeyCode::LeftHyper => "LeftHyper",
        ModifierKeyCode::LeftMeta => "LeftMeta",
        ModifierKeyCode::RightShift => "RightShift",
        ModifierKeyCode::RightControl => "RightControl",
        ModifierKeyCode::RightAlt => "RightAlt",
        ModifierKeyCode::RightSuper => "RightSuper",
        ModifierKeyCode::RightHyper => "RightHyper",
        ModifierKeyCode::RightMeta => "RightMeta",
        ModifierKeyCode::IsoLevel3Shift => "IsoLevel3Shift",
        ModifierKeyCode::IsoLevel5Shift => "IsoLevel5Shift",
    }
}

/// The name of a key, as messages show it.
pub open spec fn key_name(code: KeyCode) -> Seq<char> {
    match code {
        KeyCode::Backspace => "Backspace"@,
        KeyCode::Enter => "Enter"@,
        KeyCode::Left => "Left"@,
        KeyCode::Right => "Right"@,
        KeyCode::Up => "Up"@,
        KeyCode::Down => "Down"@,
        KeyCode::Home => "Home"@,
        KeyCode::End => "End"@,
        KeyCode::PageUp => "PageUp"@,
        KeyCode::PageDown => "PageDown"@,
        KeyCode::Tab => "Tab"@,
        KeyCode::BackTab => "BackTab"@,
        KeyCode::Delete => "Delete"@,
        KeyCode::Insert => "Insert"@,
        KeyCode::F(number) => "F("@ + text::decimal(number as nat) + ")"@,
        KeyCode::Char(c) => "Char("@ + quoted_char(c) + ")"@,
        KeyCode::Null => "Null"@,
        KeyCode::Esc => "Esc"@,
        KeyCode::CapsLock => "CapsLock"@,
        KeyCode::ScrollLock => "ScrollLock"@,
        KeyCode::NumLock => "NumLock"@,
        KeyCode::PrintScreen => "PrintScreen"@,
        KeyCode::Pause => "Pause"@,
        KeyCode::Menu => "Menu"@,
        KeyCode::KeypadBegin => "KeypadBegin"@,
        KeyCode::Media(media) => "Media("@ + media_name(media) + ")"@,
        KeyCode::Modifier(modifier) => "Modifier("@ + modifier_name(modifier) + ")"@,
    }
}

/// The name of a key, as messages show it.
pub fn key_text(code: KeyCode) -> (name: String)
    ensures
        name@ == key_name(code),
{
    match code {
        KeyCode::Backspace => "Backspace".to_owned(),
        KeyCode::Enter => "Enter".to_owned(),
        KeyCode::Left => "Left".to_owned(),
        KeyCode::Right => "Right".to_owned(),
        KeyCode::Up => "Up".to_owned(),
        KeyCode::Down => "Down".to_owned(),
        KeyCode::Home => "Home".to_owned(),
        KeyCode::End => "End".to_owned(),
        KeyCode::PageUp => "PageUp".to_owned(),
        KeyCode::PageDown => "PageDown".to_owned(),
        KeyCode::Tab => "Tab".to_owned(),
        KeyCode::BackTab => "BackTab".to_owned(),
        KeyCode::Delete => "Delete".to_owned(),
        KeyCode::Insert => "Insert".to_owned(),
        KeyCode::F(number) => {
            let mut name = "F(".to_owned();
            push_decimal(&mut name, number as u64);
            name.append(")");
            name
        },
        KeyCode::Char(c) => {
            let mut name = "Char(".to_owned();
            name.append(quote_char(c).as_str());
            name.append(")");
            name
        },
        KeyCode::Null => "Null".to_owned(),
        KeyCode::Esc => "Esc".to_owned(),
        KeyCode::CapsLock => "CapsLock".to_owned(),
        KeyCode::ScrollLock => "ScrollLock".to_owned(),
        KeyCode::NumLock => "NumLock".to_owned(),
        KeyCode::PrintScreen => "PrintScreen".to_owned(),
        KeyCode::Pause => "Pause".to_owned(),
        KeyCode::Menu => "Menu".to_owned(),
        KeyCode::KeypadBegin => "KeypadBegin".to_owned(),
        KeyCode::Media(media) => {
            let mut name = "Media(".to_owned();
            name.append(media_text(media));
            name.append(")");
            name
        },
        KeyCode::Modifier(modifier) => {
            let mut name = "Modifier(".to_owned();
            name.append(modifier_text(modifier));
            name.append(")");
            name
        },
    }
}

} // verus!
