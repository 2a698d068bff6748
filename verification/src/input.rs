//! What virtual pointers and keyboards send.

use crate::text;
use crate::text::push_decimal;
use vstd::prelude::*;

verus! {

pub const BTN_LEFT: u32 = 0x110;

pub const BTN_RIGHT: u32 = 0x111;

/// How far a pointer scrolls for one step.
pub const SCROLL_DISTANCE_PER_STEP: i64 = 15;

/// The most characters that one keymap holds.
pub const UNICODE_LIMIT: usize = 512;

/// The keymap of the usual layout.
pub fn xkb_keymap() -> (keymap: String)
    ensures
        keymap@ == "xkb_keymap {\n  xkb_keycodes { include \"evdev+aliases(qwerty)\" };\n  xkb_types { include \"complete\" };\n  xkb_compat { include \"complete\" };\n  xkb_symbols { include \"pc+us+inet(evdev)\" };\n  xkb_geometry { include \"pc(pc105)\" };\n};\n\0"@,
{
    "xkb_keymap {\n  xkb_keycodes { include \"evdev+aliases(qwerty)\" };\n  xkb_types { include \"complete\" };\n  xkb_compat { include \"complete\" };\n  xkb_symbols { include \"pc+us+inet(evdev)\" };\n  xkb_geometry { include \"pc(pc105)\" };\n};\n\0".to_owned()
}

/// A button of the pointer.
#[derive(Debug, Clone, Copy, PartialEq, Eq, Structural)]
pub enum PointerButton {
    Left,
    Right,
}

impl PointerButton {
    /// The code of the button.
    pub open spec fn code(self) -> u32 {
        match self {
            PointerButton::Left => BTN_LEFT,
            PointerButton::Right => BTN_RIGHT,
        }
    }

    pub fn evdev_code(self) -> (code: u32)
        ensures
            code == self.code(),
    {
        match self {
            PointerButton::Left => BTN_LEFT,
            PointerButton::Right => BTN_RIGHT,
        }
    }
}

/// What a virtual pointer sends.
#[derive(Debug, Clone, Copy, PartialEq, Eq, Structural)]
pub enum PointerRequest {
    /// Move to a point of an area: x, y, width and height.
    MotionAbsolute(u32, u32, u32, u32),
    /// A button goes down or up.
    Button(u32, bool),
    /// The wheel scrolls.
    WheelSource,
    /// Whether the axis is horizontal, the distance and the steps.
    AxisDiscrete(bool, i64, i32),
    /// The requests so far belong together.
    Frame,
}

/// A point outside of its area: x, y, width and height.
#[derive(Debug, Clone, Copy, PartialEq, Eq, Structural)]
pub struct OutOfBounds {
    pub x: u32,
    pub y: u32,
    pub width: u32,
    pub height: u32,
}

impl OutOfBounds {
    /// The error in words.
    pub fn message(&self) -> (message: String)
        ensures
            message@ == "refusing out-of-bounds pointer coordinate ("@ + text::decimal(
                self.x as nat,
            ) + ","@ + text::decimal(self.y as nat) + ") in "@ + text::decimal(self.width as nat)
                + "x"@ + text::decimal(self.height as nat),
    {
        let mut message = "refusing out-of-bounds pointer coordinate (".to_owned();
        push_decimal(&mut message, self.x as u64);
        message.append(",");
        push_decimal(&mut message, self.y as u64);
        message.append(") in ");
        push_decimal(&mut message, self.width as u64);
        message.append("x");
        push_decimal(&mut message, self.height as u64);
        message
    }
}

/// What a click sends.
pub open spec fn click_requests(
    x: u32,
    y: u32,
    width: u32,
    height: u32,
    button: PointerButton,
) -> Seq<PointerRequest> {
    seq![
        PointerRequest::MotionAbsolute(x, y, width, height),
        PointerRequest::Frame,
        PointerRequest::Button(button.code(), true),
        PointerRequest::Frame,
        PointerRequest::Button(button.code(), false),
        PointerRequest::Frame,
    ]
}

/// Clicks at a point of an area.
pub fn click(x: u32, y: u32, width: u32, height: u32, button: PointerButton) -> (requests: Result<
    Vec<PointerRequest>,
    OutOfBounds,
>)
    ensures
        if x < width && y < height {
            requests matches Ok(requests) && requests@ == click_requests(
                x,
                y,
                width,
                height,
                button,
            )
        } else {
            requests == Err::<Vec<PointerRequest>, OutOfBounds>(
                OutOfBounds { x, y, width, height },
            )
        },
{
    if x >= width || y >= height {
        return Err(OutOfBounds { x, y, width, height });
    }
    let mut requests: Vec<PointerRequest> = Vec::new();
    requests.push(PointerRequest::MotionAbsolute(x, y, width, height));
    requests.push(PointerRequest::Frame);
    requests.push(PointerRequest::Button(button.evdev_code(), true));
    requests.push(PointerRequest::Frame);
    requests.push(PointerRequest::Button(button.evdev_code(), false));
    requests.push(PointerRequest::Frame);
    assert(requests@ =~= click_requests(x, y, width, height, button));
    Ok(requests)
}

/// What scrolling sends.
pub open spec fn scroll_requests(
    x: u32,
    y: u32,
    width: u32,
    height: u32,
    horizontal: bool,
    steps: i32,
) -> Seq<PointerRequest> {
    if steps == 0 {
        seq![]
    } else {
        seq![
            PointerRequest::MotionAbsolute(x, y, width, height),
            PointerRequest::WheelSource,
            PointerRequest::AxisDiscrete(
                horizontal,
                (steps * SCROLL_DISTANCE_PER_STEP) as i64,
                steps,
            ),
            PointerRequest::Frame,
        ]
    }
}

/// Scrolls at a point of an area.
pub fn scroll(x: u32, y: u32, width: u32, height: u32, horizontal: bool, steps: i32) -> (requests:
    Result<Vec<PointerRequest>, OutOfBounds>)
    ensures
        if x < width && y < height {
            requests matches Ok(requests) && requests@ == scroll_requests(
                x,
                y,
                width,
                height,
                horizontal,
                steps,
            )
        } else {
            requests == Err::<Vec<PointerRequest>, OutOfBounds>(
                OutOfBounds { x, y, width, height },
            )
        },
{
    if x >= width || y >= height {
        return Err(OutOfBounds { x, y, width, height });
    }
    let mut requests: Vec<PointerRequest> = Vec::new();
    if steps != 0 {
        requests.push(PointerRequest::MotionAbsolute(x, y, width, height));
        requests.push(PointerRequest::WheelSource);
        requests.push(
            PointerRequest::AxisDiscrete(
                horizontal,
                steps as i64 * SCROLL_DISTANCE_PER_STEP,
                steps,
            ),
        );
        requests.push(PointerRequest::Frame);
    }
    assert(requests@ =~= scroll_requests(x, y, width, height, horizontal, steps));
    Ok(requests)
}

/// What a virtual keyboard sends.
#[derive(Debug, Clone, Copy, PartialEq, Eq, Structural)]
pub enum KeyboardRequest {
    /// The modifiers that are held.
    Modifiers(u32),
    /// A key goes down or up.
    Key(u32, bool),
}

/// What a key with modifiers sends.
pub open spec fn key_requests(keycode: u32, modifiers: u32) -> Seq<KeyboardRequest> {
    seq![
        KeyboardRequest::Modifiers(modifiers),
        KeyboardRequest::Key(keycode, true),
        KeyboardRequest::Key(keycode, false),
        KeyboardRequest::Modifiers(0),
    ]
}

/// Presses and releases a key with modifiers.
pub fn key(keycode: u32, modifiers: u32) -> (requests: Vec<KeyboardRequest>)
    ensures
        requests@ == key_requests(keycode, modifiers),
{
    let mut requests: Vec<KeyboardRequest> = Vec::new();
    requests.push(KeyboardRequest::Modifiers(modifiers));
    requests.push(KeyboardRequest::Key(keycode, true));
    requests.push(KeyboardRequest::Key(keycode, false));
    requests.push(KeyboardRequest::Modifiers(0));
    assert(requests@ =~= key_requests(keycode, modifiers));
    requests
}

/// What a character of the second keyboard sends.
pub open spec fn unicode_requests(keycode: u32) -> Seq<KeyboardRequest> {
    seq![
        KeyboardRequest::Modifiers(0),
        KeyboardRequest::Key(keycode, true),
        KeyboardRequest::Key(keycode, false),
    ]
}

/// The hexadecimal digit with a value.
pub open spec fn hex_digit(d: nat) -> char {
    if d < 10 {
        (48 + d) as char
    } else {
        (55 + d) as char
    }
}

/// The hexadecimal numeral of `n`, with at least `width` digits.
pub open spec fn hexadecimal(n: nat, width: nat) -> Seq<char>
    decreases n, width,
{
    if n < 16 && width <= 1 {
        seq![hex_digit(n)]
    } else {
        hexadecimal(
            n / 16,
            if width > 0 {
                (width - 1) as nat
            } else {
                0
            },
        ).push(hex_digit(n % 16))
    }
}

fn push_hexadecimal(target: &mut String, n: u32, width: u32)
    ensures
        final(target)@ == old(target)@ + hexadecimal(n as nat, width as nat),
    decreases n, width,
{
    let d: u8 = (n % 16) as u8;
    let c: char = if d < 10 {
        (48 + d) as char
    } else {
        (55 + d) as char
    };
    if n < 16 && width <= 1 {
        target.push(c);
        assert(target@ =~= old(target)@ + hexadecimal(n as nat, width as nat));
    } else {
        push_hexadecimal(
            target,
            n / 16,
            if width > 0 {
                width - 1
            } else {
                0
            },
        );
        target.push(c);
        assert(target@ =~= old(target)@ + hexadecimal(n as nat, width as nat));
    }
}

/// The lines that number the keys of the first `count` characters.
pub open spec fn keycode_lines(count: nat) -> Seq<char>
    decreases count,
{
    if count == 0 {
        seq![]
    } else {
        keycode_lines((count - 1) as nat) + "<K"@ + text::decimal(count) + "> = "@ + text::decimal(
            count + 8,
        ) + ";\n"@
    }
}

/// The lines that give the first `count` characters to their keys.
pub open spec fn symbol_lines(characters: Seq<char>, count: nat) -> Seq<char>
    decreases count,
{
    if count == 0 {
        seq![]
    } else {
        symbol_lines(characters, (count - 1) as nat) + "key <K"@ + text::decimal(count) + "> { [ U"@
            + hexadecimal(characters[count - 1] as u32 as nat, 4) + " ] };\n"@
    }
}

/// The keymap that has one key for each character.
pub open spec fn keymap_of(characters: Seq<char>) -> Seq<char> {
    "xkb_keymap {\nxkb_keycodes \"termway\" {\nminimum = 8;\n"@ + "maximum = "@ + text::decimal(
        characters.len() + 9,
    ) + ";\n"@ + keycode_lines(characters.len())
        + "};\nxkb_types \"termway\" { include \"complete\" };\nxkb_compatibility \"termway\" { include \"complete\" };\nxkb_symbols \"termway\" {\n"@
        + symbol_lines(characters, characters.len()) + "};\n};\n\0"@
}

/// The keymap that has one key for each character.
pub fn unicode_keymap(characters: &[char]) -> (keymap: String)
    requires
        characters@.len() + 9 <= usize::MAX,
    ensures
        keymap@ == keymap_of(characters@),
{
    let len: usize = characters.len();
    let mut keymap = "xkb_keymap {\nxkb_keycodes \"termway\" {\nminimum = 8;\n".to_owned();
    keymap.append("maximum = ");
    push_decimal(&mut keymap, (len + 9) as u64);
    keymap.append(";\n");
    let ghost head = keymap@;
    let mut i: usize = 0;
    assert(keymap@ =~= head + keycode_lines(0));
    while i < len
        invariant
            i <= len,
            len + 9 <= usize::MAX,
            keymap@ == head + keycode_lines(i as nat),
        decreases len - i,
    {
        keymap.append("<K");
        push_decimal(&mut keymap, (i + 1) as u64);
        keymap.append("> = ");
        push_decimal(&mut keymap, (i + 9) as u64);
        keymap.append(";\n");
        i = i + 1;
        assert(keymap@ =~= head + keycode_lines(i as nat));
    }
    keymap.append(
        "};\nxkb_types \"termway\" { include \"complete\" };\nxkb_compatibility \"termway\" { include \"complete\" };\nxkb_symbols \"termway\" {\n",
    );
    let ghost middle = keymap@;
    let mut j: usize = 0;
    assert(keymap@ =~= middle + symbol_lines(characters@, 0));
    while j < len
        invariant
            j <= len,
            len + 9 <= usize::MAX,
            len == characters@.len(),
            keymap@ == middle + symbol_lines(characters@, j as nat),
        decreases len - j,
    {
        keymap.append("key <K");
        push_decimal(&mut keymap, (j + 1) as u64);
        keymap.append("> { [ U");
        let c: char = characters[j];
        push_hexadecimal(&mut keymap, c as u32, 4);
        keymap.append(" ] };\n");
        j = j + 1;
        assert(keymap@ =~= middle + symbol_lines(characters@, j as nat));
    }
    keymap.append("};\n};\n\0");
    keymap
}

/// The characters that the second keyboard has keys for.
pub struct UnicodeTable {
    pub characters: Vec<char>,
}

/// The first place of a character in a table.
pub open spec fn place_of(characters: Seq<char>, c: char) -> Option<int> {
    text::first_index(characters, c)
}

/// The table after a character is typed. A full table is begun anew.
pub open spec fn table_after(characters: Seq<char>, c: char) -> Seq<char> {
    if place_of(characters, c) is Some {
        characters
    } else if characters.len() >= UNICODE_LIMIT {
        seq![c]
    } else {
        characters.push(c)
    }
}

impl UnicodeTable {
    /// The table never grows past its limit.
    pub open spec fn wf(&self) -> bool {
        self.characters@.len() <= UNICODE_LIMIT
    }

    /// A table without characters.
    pub fn new() -> (table: UnicodeTable)
        ensures
            table.wf(),
            table.characters@ == Seq::<char>::empty(),
    {
        UnicodeTable { characters: Vec::new() }
    }

    /// Finds or makes a key for a character: the requests that type it and, where the table
    /// changed, the keymap that must be sent before.
    pub fn unicode(&mut self, character: char) -> (typed: (Option<String>, Vec<KeyboardRequest>))
        requires
            old(self).wf(),
        ensures
            final(self).wf(),
            final(self).characters@ == table_after(old(self).characters@, character),
            match place_of(old(self).characters@, character) {
                Some(place) => typed.0 is None && typed.1@ == unicode_requests((place + 1) as u32),
                None => typed.0 is Some && typed.0->0@ == keymap_of(final(self).characters@)
                    && typed.1@ == unicode_requests(final(self).characters@.len() as u32),
            },
    {
        let mut keymap: Option<String> = None;
        let keycode: u32 = match text::find_char(&self.characters, character) {
            Some(place) => place as u32 + 1,
            None => {
                if self.characters.len() >= UNICODE_LIMIT {
                    self.characters.clear();
                }
                self.characters.push(character);
                assert(self.characters@ =~= table_after(old(self).characters@, character));
                keymap = Some(unicode_keymap(self.characters.as_slice()));
                self.characters.len() as u32
            },
        };
        let mut requests: Vec<KeyboardRequest> = Vec::new();
        requests.push(KeyboardRequest::Modifiers(0));
        requests.push(KeyboardRequest::Key(keycode, true));
        requests.push(KeyboardRequest::Key(keycode, false));
        assert(requests@ =~= unicode_requests(keycode));
        (keymap, requests)
    }
}

/// The key that types a character, after it is typed, stands for that character in the table.
pub proof fn lemma_key_types_character(characters: Seq<char>, c: char)
    requires
        characters.len() <= UNICODE_LIMIT,
    ensures
        table_after(characters, c).len() <= UNICODE_LIMIT,
        place_of(table_after(characters, c), c) matches Some(place) && 0 <= place < table_after(
            characters,
            c,
        ).len() && table_after(characters, c)[place] == c,
{
    let after = table_after(characters, c);
    if place_of(characters, c) is Some {
        lemma_place(characters, c);
    } else {
        assert(after.last() == c);
        assert(after.drop_last() =~= if characters.len() >= UNICODE_LIMIT {
            seq![]
        } else {
            characters
        });
        lemma_place(after, c);
    }
}

proof fn lemma_place(characters: Seq<char>, c: char)
    ensures
        place_of(characters, c) matches Some(place) ==> 0 <= place < characters.len()
            && characters[place] == c,
    decreases characters.len(),
{
    if characters.len() > 0 {
        lemma_place(characters.drop_last(), c);
    }
}

/// Whether every button that goes down goes up again, and nothing else stays held.
pub open spec fn buttons_released(requests: Seq<PointerRequest>) -> bool {
    forall|i: int|
        0 <= i < requests.len() ==> match #[trigger] requests[i] {
            PointerRequest::Button(code, down) => down ==> exists|j: int|
                i < j < requests.len() && #[trigger] requests[j] == (PointerRequest::Button(
                    code,
                    false,
                )),
            _ => true,
        }
}

/// A click never leaves a button held, and scrolling never presses one.
pub proof fn lemma_pointer_releases(
    x: u32,
    y: u32,
    width: u32,
    height: u32,
    button: PointerButton,
    horizontal: bool,
    steps: i32,
)
    ensures
        buttons_released(click_requests(x, y, width, height, button)),
        buttons_released(scroll_requests(x, y, width, height, horizontal, steps)),
{
    let requests = click_requests(x, y, width, height, button);
    assert(requests[4] == PointerRequest::Button(button.code(), false));
}

/// Whether every key that goes down goes up again, and no modifier stays held.
pub open spec fn keys_released(requests: Seq<KeyboardRequest>) -> bool {
    forall|i: int|
        0 <= i < requests.len() ==> match #[trigger] requests[i] {
            KeyboardRequest::Key(code, down) => down ==> exists|j: int|
                i < j < requests.len() && #[trigger] requests[j] == (KeyboardRequest::Key(
                    code,
                    false,
                )),
            KeyboardRequest::Modifiers(mask) => mask != 0 ==> exists|j: int|
                i < j < requests.len() && #[trigger] requests[j] == (KeyboardRequest::Modifiers(
                    0,
                )),
        }
}

/// A key never leaves itself or a modifier held.
pub proof fn lemma_keyboard_releases(keycode: u32, modifiers: u32)
    ensures
        keys_released(key_requests(keycode, modifiers)),
        keys_released(unicode_requests(keycode)),
{
    let requests = key_requests(keycode, modifiers);
    assert(requests[2] == KeyboardRequest::Key(keycode, false));
    assert(requests[3] == KeyboardRequest::Modifiers(0));
    let unicode = unicode_requests(keycode);
    assert(unicode[2] == KeyboardRequest::Key(keycode, false));
}

} // verus!
