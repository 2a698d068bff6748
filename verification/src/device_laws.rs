//! What the desktop makes of the input that it is sent, and what frames show of its pixels.

use crate::capture;
use crate::input;
use crate::input::{KeyboardRequest, PointerButton, PointerRequest};
use crate::palette_laws;
use crate::screencopy;
use crate::screencopy::{
    BufferPlan, BufferShape, FrameEvent, FrameState, FrameStatus, PixelError, ShmFormat,
};
use crate::pixels::RgbImage;
use crate::scroll;
use crate::text;
use vstd::prelude::*;

verus! {

/// What a pointer did: where it is in which area, which button it holds, and where it pressed and
/// scrolled. What was not framed yet does not count.
pub ghost struct Pointer {
    pub at: Option<(u32, u32, u32, u32)>,
    pub held: Option<u32>,
    pub presses: Seq<(u32, Option<(u32, u32, u32, u32)>)>,
    pub turns: Seq<(bool, i64, i32, Option<(u32, u32, u32, u32)>)>,
    pub wheel: bool,
    pub framed: bool,
}

/// A pointer that did nothing yet.
pub open spec fn idle_pointer() -> Pointer {
    Pointer { at: None, held: None, presses: seq![], turns: seq![], wheel: false, framed: true }
}

/// A pointer after a request.
pub open spec fn pointed(pointer: Pointer, request: PointerRequest) -> Pointer {
    match request {
        PointerRequest::MotionAbsolute(x, y, width, height) => Pointer {
            at: Some((x, y, width, height)),
            framed: false,
            ..pointer
        },
        PointerRequest::Button(code, true) => Pointer {
            held: Some(code),
            presses: pointer.presses.push((code, pointer.at)),
            framed: false,
            ..pointer
        },
        PointerRequest::Button(code, false) => Pointer {
            held: if pointer.held == Some(code) {
                None
            } else {
                pointer.held
            },
            framed: false,
            ..pointer
        },
        PointerRequest::WheelSource => Pointer { wheel: true, framed: false, ..pointer },
        PointerRequest::AxisDiscrete(horizontal, distance, steps) => Pointer {
            turns: pointer.turns.push((horizontal, distance, steps, pointer.at)),
            framed: false,
            ..pointer
        },
        PointerRequest::Frame => Pointer { framed: true, ..pointer },
    }
}

/// A pointer after requests.
pub open spec fn all_pointed(pointer: Pointer, requests: Seq<PointerRequest>) -> Pointer
    decreases requests.len(),
{
    if requests.len() == 0 {
        pointer
    } else {
        pointed(all_pointed(pointer, requests.drop_last()), requests.last())
    }
}

proof fn lemma_pointed(pointer: Pointer, requests: Seq<PointerRequest>, request: PointerRequest)
    ensures
        all_pointed(pointer, requests.push(request)) == pointed(
            all_pointed(pointer, requests),
            request,
        ),
{
    assert(requests.push(request).drop_last() =~= requests);
}

/// The desktop sees a click as one press of the button at the point, after which nothing is held.
pub proof fn lemma_click_presses(x: u32, y: u32, width: u32, height: u32, button: PointerButton)
    ensures
        ({
            let after = all_pointed(
                idle_pointer(),
                input::click_requests(x, y, width, height, button),
            );
            let place = Some((x, y, width, height));
            &&& after.at == place
            &&& after.presses == seq![
                (
                    if button == PointerButton::Left {
                        272u32
                    } else {
                        273u32
                    },
                    place,
                ),
            ]
            &&& after.held is None
            &&& after.turns.len() == 0
            &&& after.framed
        }),
{
    let requests = input::click_requests(x, y, width, height, button);
    let none = Seq::<PointerRequest>::empty();
    let r1 = none.push(requests[0]);
    let r2 = r1.push(requests[1]);
    let r3 = r2.push(requests[2]);
    let r4 = r3.push(requests[3]);
    let r5 = r4.push(requests[4]);
    lemma_pointed(idle_pointer(), none, requests[0]);
    lemma_pointed(idle_pointer(), r1, requests[1]);
    lemma_pointed(idle_pointer(), r2, requests[2]);
    lemma_pointed(idle_pointer(), r3, requests[3]);
    lemma_pointed(idle_pointer(), r4, requests[4]);
    lemma_pointed(idle_pointer(), r5, requests[5]);
    assert(requests =~= r5.push(requests[5]));
    let place = Some((x, y, width, height));
    assert(all_pointed(idle_pointer(), requests).presses =~= seq![(button.code(), place)]);
}

/// The desktop sees scrolling as one turn of the wheel at the point: along the axis, so many steps
/// of fifteen each. No button is pressed. No step sends nothing.
pub proof fn lemma_scroll_turns(
    x: u32,
    y: u32,
    width: u32,
    height: u32,
    horizontal: bool,
    steps: i32,
)
    ensures
        ({
            let requests = input::scroll_requests(x, y, width, height, horizontal, steps);
            let after = all_pointed(idle_pointer(), requests);
            let place = Some((x, y, width, height));
            &&& steps == 0 ==> requests.len() == 0
            &&& steps != 0 ==> {
                &&& after.at == place
                &&& after.turns.len() == 1
                &&& after.turns[0].0 == horizontal
                &&& after.turns[0].1 == 15 * steps
                &&& after.turns[0].2 == steps
                &&& after.turns[0].3 == place
                &&& after.wheel
                &&& after.framed
            }
            &&& after.presses.len() == 0
            &&& after.held is None
        }),
{
    let requests = input::scroll_requests(x, y, width, height, horizontal, steps);
    if steps != 0 {
        let none = Seq::<PointerRequest>::empty();
        let r1 = none.push(requests[0]);
        let r2 = r1.push(requests[1]);
        let r3 = r2.push(requests[2]);
        lemma_pointed(idle_pointer(), none, requests[0]);
        lemma_pointed(idle_pointer(), r1, requests[1]);
        lemma_pointed(idle_pointer(), r2, requests[2]);
        lemma_pointed(idle_pointer(), r3, requests[3]);
        assert(requests =~= r3.push(requests[3]));
    }
}

/// What a keyboard did: which modifiers and which key it holds, and what it typed with which
/// modifiers held.
pub ghost struct Keyboard {
    pub modifiers: u32,
    pub held: Option<u32>,
    pub typed: Seq<(u32, u32)>,
}

/// A keyboard after a request.
pub open spec fn keyed(keyboard: Keyboard, request: KeyboardRequest) -> Keyboard {
    match request {
        KeyboardRequest::Modifiers(modifiers) => Keyboard { modifiers, ..keyboard },
        KeyboardRequest::Key(code, true) => Keyboard {
            held: Some(code),
            typed: keyboard.typed.push((code, keyboard.modifiers)),
            ..keyboard
        },
        KeyboardRequest::Key(code, false) => Keyboard {
            held: if keyboard.held == Some(code) {
                None
            } else {
                keyboard.held
            },
            ..keyboard
        },
    }
}

/// A keyboard after requests.
pub open spec fn all_keyed(keyboard: Keyboard, requests: Seq<KeyboardRequest>) -> Keyboard
    decreases requests.len(),
{
    if requests.len() == 0 {
        keyboard
    } else {
        keyed(all_keyed(keyboard, requests.drop_last()), requests.last())
    }
}

proof fn lemma_keyed(keyboard: Keyboard, requests: Seq<KeyboardRequest>, request: KeyboardRequest)
    ensures
        all_keyed(keyboard, requests.push(request)) == keyed(
            all_keyed(keyboard, requests),
            request,
        ),
{
    assert(requests.push(request).drop_last() =~= requests);
}

/// The desktop sees a key as typed once with just its modifiers held, whatever was held before, and
/// nothing held after. A character of the second keyboard is typed with none.
pub proof fn lemma_key_typed(keyboard: Keyboard, keycode: u32, modifiers: u32)
    requires
        keyboard.held is None,
    ensures
        ({
            let after = all_keyed(keyboard, input::key_requests(keycode, modifiers));
            let plain = all_keyed(keyboard, input::unicode_requests(keycode));
            &&& after.typed == keyboard.typed.push((keycode, modifiers))
            &&& after.held is None && after.modifiers == 0
            &&& plain.typed == keyboard.typed.push((keycode, 0))
            &&& plain.held is None && plain.modifiers == 0
        }),
{
    let none = Seq::<KeyboardRequest>::empty();
    let requests = input::key_requests(keycode, modifiers);
    let r1 = none.push(requests[0]);
    let r2 = r1.push(requests[1]);
    let r3 = r2.push(requests[2]);
    lemma_keyed(keyboard, none, requests[0]);
    lemma_keyed(keyboard, r1, requests[1]);
    lemma_keyed(keyboard, r2, requests[2]);
    lemma_keyed(keyboard, r3, requests[3]);
    assert(requests =~= r3.push(requests[3]));
    let plain = input::unicode_requests(keycode);
    let p1 = none.push(plain[0]);
    let p2 = p1.push(plain[1]);
    lemma_keyed(keyboard, none, plain[0]);
    lemma_keyed(keyboard, p1, plain[1]);
    lemma_keyed(keyboard, p2, plain[2]);
    assert(plain =~= p2.push(plain[2]));
}

/// The value of a hexadecimal digit.
pub open spec fn hex_worth(digit: char) -> int {
    if '0' <= digit <= '9' {
        digit as u32 - '0' as u32
    } else {
        digit as u32 - 'A' as u32 + 10
    }
}

/// The value of a hexadecimal numeral.
pub open spec fn hex_value(digits: Seq<char>) -> int
    decreases digits.len(),
{
    if digits.len() == 0 {
        0
    } else {
        hex_value(digits.drop_last()) * 16 + hex_worth(digits.last())
    }
}

/// A hexadecimal numeral has the value that it was made from, and at least the digits asked for.
pub proof fn lemma_hexadecimal(n: nat, width: nat)
    ensures
        hex_value(input::hexadecimal(n, width)) == n,
        input::hexadecimal(n, width).len() >= width,
        forall|i: int|
            0 <= i < input::hexadecimal(n, width).len() ==> {
                let digit = #[trigger] input::hexadecimal(n, width)[i];
                '0' <= digit <= '9' || 'A' <= digit <= 'F'
            },
    decreases n, width,
{
    let digits = input::hexadecimal(n, width);
    if n < 16 && width <= 1 {
        assert(digits.drop_last() =~= Seq::<char>::empty());
        assert(hex_value(digits.drop_last()) == 0);
    } else {
        let fewer = if width > 0 {
            (width - 1) as nat
        } else {
            0
        };
        lemma_hexadecimal(n / 16, fewer);
        assert(digits.drop_last() =~= input::hexadecimal(n / 16, fewer));
    }
}

proof fn lemma_occurs_before(part: Seq<char>, first: Seq<char>, rest: Seq<char>)
    requires
        palette_laws::occurs(part, first),
    ensures
        palette_laws::occurs(part, first + rest),
{
    let at = choose|at: int|
        0 <= at && at + part.len() <= first.len() && #[trigger] first.skip(at).take(
            part.len() as int,
        ) == part;
    assert((first + rest).skip(at).take(part.len() as int) =~= first.skip(at).take(
        part.len() as int,
    ));
}

proof fn lemma_occurs_behind(part: Seq<char>, first: Seq<char>, rest: Seq<char>)
    ensures
        palette_laws::occurs(part, first + part + rest),
{
    let all = first + part + rest;
    assert(all.skip(first.len() as int).take(part.len() as int) =~= part);
}

/// The line of a keymap that numbers the key of the character at a place. Keymaps count keys from
/// eight on.
pub open spec fn number_line(place: nat) -> Seq<char> {
    "<K"@ + text::decimal(place) + "> = "@ + text::decimal(place + 8) + ";\n"@
}

/// The line of a keymap that gives a key its character.
pub open spec fn symbol_line(place: nat, c: char) -> Seq<char> {
    "key <K"@ + text::decimal(place) + "> { [ U"@ + input::hexadecimal(c as u32 as nat, 4)
        + " ] };\n"@
}

proof fn lemma_lines_occur(characters: Seq<char>, count: nat, place: nat)
    requires
        1 <= place <= count <= characters.len(),
    ensures
        palette_laws::occurs(number_line(place), input::keycode_lines(count)),
        palette_laws::occurs(
            symbol_line(place, characters[place - 1]),
            input::symbol_lines(characters, count),
        ),
    decreases count,
{
    let before = (count - 1) as nat;
    let c = characters[count - 1];
    let numbers = input::keycode_lines(before);
    let symbols = input::symbol_lines(characters, before);
    let none = Seq::<char>::empty();
    assert(input::keycode_lines(count) =~= numbers + number_line(count) + none);
    assert(input::symbol_lines(characters, count) =~= symbols + symbol_line(count, c) + none);
    if place == count {
        lemma_occurs_behind(number_line(count), numbers, none);
        lemma_occurs_behind(symbol_line(count, c), symbols, none);
    } else {
        lemma_lines_occur(characters, before, place);
        lemma_occurs_before(number_line(place), numbers, number_line(count));
        lemma_occurs_before(
            symbol_line(place, characters[place - 1]),
            symbols,
            symbol_line(count, c),
        );
        assert(numbers + number_line(count) =~= input::keycode_lines(count));
        assert(symbols + symbol_line(count, c) =~= input::symbol_lines(characters, count));
    }
}

/// The keymap of the second keyboard has, for each character of its table, a key with the number
/// of its place, and gives that key the character.
pub proof fn lemma_keymap_types(characters: Seq<char>, place: nat)
    requires
        1 <= place <= characters.len(),
    ensures
        ({
            let keymap = input::keymap_of(characters);
            let c = characters[place - 1];
            &&& palette_laws::occurs(number_line(place), keymap)
            &&& palette_laws::occurs(symbol_line(place, c), keymap)
            &&& hex_value(input::hexadecimal(c as u32 as nat, 4)) == c as u32
        }),
{
    let c = characters[place - 1];
    let count = characters.len();
    lemma_lines_occur(characters, count, place);
    lemma_hexadecimal(c as u32 as nat, 4);
    let head = "xkb_keymap {\nxkb_keycodes \"termway\" {\nminimum = 8;\n"@ + "maximum = "@
        + text::decimal(count + 9) + ";\n"@;
    let middle =
        "};\nxkb_types \"termway\" { include \"complete\" };\nxkb_compatibility \"termway\" { include \"complete\" };\nxkb_symbols \"termway\" {\n"@;
    let tail = "};\n};\n\0"@;
    let numbers = input::keycode_lines(count);
    let symbols = input::symbol_lines(characters, count);
    lemma_occurs_within(number_line(place), head, numbers, middle + symbols + tail);
    lemma_occurs_within(symbol_line(place, c), head + numbers + middle, symbols, tail);
    assert(input::keymap_of(characters) =~= head + numbers + (middle + symbols + tail));
    assert(input::keymap_of(characters) =~= (head + numbers + middle) + symbols + tail);
}

proof fn lemma_occurs_within(
    part: Seq<char>,
    before: Seq<char>,
    whole: Seq<char>,
    after: Seq<char>,
)
    requires
        palette_laws::occurs(part, whole),
    ensures
        palette_laws::occurs(part, before + whole + after),
{
    let at = choose|at: int|
        0 <= at && at + part.len() <= whole.len() && #[trigger] whole.skip(at).take(
            part.len() as int,
        ) == part;
    let all = before + whole + after;
    assert(all.skip(before.len() + at).take(part.len() as int) =~= whole.skip(at).take(
        part.len() as int,
    ));
}

/// A character that is typed again needs no new keymap, and the others keep their keys until the
/// table is full.
pub proof fn lemma_keys_kept(characters: Seq<char>, c: char, place: int)
    requires
        0 <= place < characters.len() < 512,
    ensures
        input::table_after(characters, c)[place] == characters[place],
        input::table_after(input::table_after(characters, c), c) == input::table_after(
            characters,
            c,
        ),
{
    input::lemma_key_types_character(characters, c);
}

/// The word that four bytes make, the first the least.
pub open spec fn word(bytes: Seq<u8>, at: int) -> int {
    bytes[at] + 0x100 * bytes[at + 1] + 0x1_0000 * bytes[at + 2] + 0x100_0000 * bytes[at + 3]
}

/// A frame shows the colours of the words in its buffer: in the formats that end in blue the lowest
/// byte of a word is blue, and in those that end in red it is red; green is the one above. Each row
/// begins a stride after the one before; a frame that is upside down is read from its last row.
pub proof fn lemma_frame_colours(
    image: RgbImage,
    bytes: Seq<u8>,
    width: u32,
    height: u32,
    stride: u32,
    format: ShmFormat,
    y_invert: bool,
    x: int,
    y: int,
)
    requires
        screencopy::shows_buffer(image, bytes, width, height, stride, format, y_invert),
        0 <= x < width,
        0 <= y < height,
        !(format is Other),
    ensures
        ({
            let row = if y_invert {
                height - (y + 1)
            } else {
                y
            };
            let value = word(bytes, row * stride + 4 * x);
            let low = value % 0x100;
            let middle = value / 0x100 % 0x100;
            let high = value / 0x1_0000 % 0x100;
            let red_first = format is Xbgr8888 || format is Abgr8888;
            &&& image@.channel(x, y, 1) == middle
            &&& image@.channel(x, y, 0) == if red_first {
                low
            } else {
                high
            }
            &&& image@.channel(x, y, 2) == if red_first {
                high
            } else {
                low
            }
        }),
{
    let row = screencopy::source_row(y, height as int, y_invert);
    let at = row * stride + x * 4;
    let value = word(bytes, at);
    let (a, b, c, d) = (
        bytes[at] as int,
        bytes[at + 1] as int,
        bytes[at + 2] as int,
        bytes[at + 3] as int,
    );
    assert(value == a + 0x100 * (b + 0x100 * (c + 0x100 * d)));
    assert(value % 0x100 == a);
    assert(value / 0x100 == b + 0x100 * (c + 0x100 * d));
    assert(value / 0x100 % 0x100 == b);
    assert(value / 0x1_0000 == c + 0x100 * d);
    assert(value / 0x1_0000 % 0x100 == c);
    assert(image@.channel(x, y, 0) == bytes[at + screencopy::channel_offset(format, 0)->0]);
    assert(image@.channel(x, y, 1) == bytes[at + screencopy::channel_offset(format, 1)->0]);
    assert(image@.channel(x, y, 2) == bytes[at + screencopy::channel_offset(format, 2)->0]);
}

/// A buffer can be read where its format is known, its rows hold their pixels, and it holds its
/// rows.
pub proof fn lemma_readable(len: nat, width: u32, height: u32, stride: u32, format: ShmFormat)
    requires
        width <= 0x3fff_ffff,
    ensures
        ({
            let fault = screencopy::pixel_fault(len, width, height, stride, format);
            &&& fault is None <==> !(format is Other) && stride * height <= u32::MAX && stride
                * height <= len && 4 * width <= stride
            &&& fault == Some(PixelError::Format) <==> format is Other
        }),
{
}

/// A buffer of the same shape is kept. Another is made with just the size and the shape that are
/// asked for, or refused where one of these does not fit.
pub proof fn lemma_buffers(current: Option<BufferShape>, wanted: BufferShape)
    ensures
        ({
            let plan = screencopy::buffer_plan(current, wanted);
            let fits = wanted.stride * wanted.height <= i32::MAX && wanted.width <= i32::MAX
                && wanted.height <= i32::MAX && wanted.stride <= i32::MAX;
            &&& plan is Keep <==> current == Some(wanted)
            &&& !(plan is Keep) ==> (plan is Create <==> fits)
            &&& plan matches BufferPlan::Create(size, width, height, stride) ==> width
                == wanted.width && height == wanted.height && stride == wanted.stride && size
                == stride * height
        }),
{
}

/// A capture is ready or failed as the compositor says last, and waits once it has a buffer.
/// Whether the rows are upside down is remembered meanwhile.
pub proof fn lemma_capture_goes_on(state: FrameState, event: FrameEvent, inverted: bool)
    ensures
        screencopy::frame_after(state, FrameEvent::Ready).status == FrameStatus::Ready,
        screencopy::frame_after(state, FrameEvent::Failed).status == FrameStatus::Failed,
        screencopy::frame_after(state, FrameEvent::Buffer(true)).status
            == FrameStatus::WaitingForReady,
        screencopy::frame_after(state, FrameEvent::Buffer(false)).status == FrameStatus::Failed,
        screencopy::frame_after(state, FrameEvent::Flags(inverted)) == (FrameState {
            y_invert: inverted,
            ..state
        }),
        !(event is Flags) ==> screencopy::frame_after(state, event).y_invert == state.y_invert,
{
}

/// Frames with damage lie a fifth of a second apart. Scroll events are gathered for twelve
/// milliseconds, and no more than two hundred and fifty-six at once.
pub proof fn lemma_paces()
    ensures
        capture::DAMAGE_FRAME_INTERVAL == 200_000_000,
        scroll::SCROLL_BATCH_WINDOW == 12_000_000,
        scroll::SCROLL_BATCH_LIMIT == 256,
{
}

} // verus!
