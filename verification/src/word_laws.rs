//! What messages, lists and names say.

use crate::discovery::Source;
use crate::fixture;
use crate::fixture::SceneTask;
use crate::json::JsonTree;
use crate::keys;
use crate::keys::{KeyCode, KeyEvent, MediaKeyCode, ModifierKeyCode};
use crate::niri;
use crate::niri::{OutputGeometry, Snapshot};
use crate::report;
use crate::session;
use crate::session::{Notice, Task};
use crate::terminal::TerminalModel;
use crate::text;
use crate::viewer;
use crate::viewer::{InteractionMode, ViewerModel};
use vstd::arithmetic::div_mod::*;
use vstd::prelude::*;

verus! {

/// Whether a state differs from another by a message alone, which says something and goes away after
/// a time.
pub open spec fn says(
    next: ViewerModel,
    state: ViewerModel,
    words: Seq<char>,
    now: u128,
    time: int,
) -> bool {
    next == ViewerModel { message: Some((words, (now + time) as u128)), ..state }
}

/// Whatever fails says what and why for five seconds, and whatever works otherwise than was asked
/// for says so for two, except where the desktop cannot be kept awake. Nothing else changes.
pub proof fn lemma_reasons_told(
    state: ViewerModel,
    name: Seq<char>,
    reason: Seq<char>,
    point: crate::layout::LogicalPoint,
    button: crate::input::PointerButton,
    watching: bool,
    now: u128,
)
    ensures
        ({
            let (started, shown) = session::spawn_outcome(state, name, None, now);
            says(started, state, "Started action: "@ + name, now, 2_000_000_000) && shown
                == Task::Echo
        }),
        ({
            let (failed, shown) = session::spawn_outcome(state, name, Some(reason), now);
            says(failed, state, "Action failed: "@ + reason, now, 5_000_000_000) && shown
                == Task::Echo
        }),
        ({
            let (lost, shown) = session::loss_outcome(state, reason, now);
            says(lost, state, "Live updates disabled: "@ + reason, now, 5_000_000_000) && shown
                == Task::Echo
        }),
        ({
            let (failed, shown) = session::inhibit_outcome(state, Some(reason), now);
            says(failed, state, "Idle inhibit failed: "@ + reason, now, 5_000_000_000) && shown
                == Task::Chrome
        }),
        ({
            let (failed, shown) = session::click_outcome(
                state,
                point,
                button,
                Some(reason),
                watching,
                now,
            );
            says(failed, state, "Click failed: "@ + reason, now, 5_000_000_000) && shown
                == Task::Echo
        }),
        says(
            session::announced(state, Notice::Inhibitor, reason, now),
            state,
            "Idle inhibit unavailable: "@ + reason,
            now,
            5_000_000_000,
        ),
        says(
            session::announced(state, Notice::Capture, reason, now),
            state,
            "Using grim fallback: "@ + reason,
            now,
            2_000_000_000,
        ),
        says(
            session::announced(state, Notice::Damage, reason, now),
            state,
            "Live updates disabled: "@ + reason,
            now,
            2_000_000_000,
        ),
        says(
            session::announced(state, Notice::Graphics, reason, now),
            state,
            "Using ANSI graphics: "@ + reason,
            now,
            2_000_000_000,
        ),
{
}

/// A session takes hold of the desktop with control, and of nothing of it without.
pub proof fn lemma_hold(control: bool)
    ensures
        ({
            let hold = session::hold_of(control);
            hold.inhibitor == control && hold.pointer == control && hold.keyboard == control
        }),
{
}

/// A key that the desktop cannot be sent, or that is no command, is told by its name for five
/// seconds, and nothing is sent.
pub proof fn lemma_unknown_keys_told(model: ViewerModel, key: KeyEvent, now: u128)
    requires
        model.display_settings is None,
        model.palette is None,
        model.mode == InteractionMode::Input,
        model.prefix_pending && !keys::is_prefix(key) && viewer::view_command(key) is None
            && key.code is Enter || !model.prefix_pending && !keys::is_prefix(key) && keys::encoded(
            key,
        ) is None && !(key.code is Char),
    ensures
        ({
            let (next, effect) = viewer::key_outcome(model, key, now);
            &&& effect == viewer::Effect::Chrome
            &&& says(
                next,
                ViewerModel { prefix_pending: false, ..model },
                (if model.prefix_pending {
                    "Undefined prefix key: C-\\ "@
                } else {
                    "Unsupported key: "@
                }) + keys::key_name(key.code),
                now,
                5_000_000_000,
            )
        }),
{
}

/// Help is shown for five seconds. In input mode it names the prefix before each command.
pub proof fn lemma_help_shown(model: ViewerModel, now: u128)
    requires
        now + 5_000_000_000 <= u128::MAX,
    ensures
        ({
            let next = model.helped(now);
            &&& next.message is Some && (next.message->0).1 == now + 5_000_000_000
            &&& next == ViewerModel { message: next.message, ..model }
            &&& (next.message->0).0 == if model.mode == InteractionMode::Input {
                "Keys control the desktop · C-\\ ? help · C-\\ g display · C-\\ t navigation · C-\\ q quit"@
            } else if model.control {
                "Click/arrows move · +/- zoom · g display · t keyboard · i mouse · x actions · q quit"@
            } else {
                "Click/arrows move · +/- zoom · 0 overview · g display · x actions · r refresh · q quit"@
            }
        }),
{
}

/// A function key is named with its number, and another by its own word.
pub proof fn lemma_key_names(number: u8, other: u8)
    ensures
        keys::key_name(KeyCode::F(number)) == seq!['F', '('] + text::decimal(number as nat)
            + seq![')'],
        number != other ==> keys::key_name(KeyCode::F(number)) != keys::key_name(
            KeyCode::F(other),
        ),
{
    reveal_strlit("F(");
    reveal_strlit(")");
    let name = keys::key_name(KeyCode::F(number));
    assert(name =~= seq!['F', '('] + text::decimal(number as nat) + seq![')']);
    if name == keys::key_name(KeyCode::F(other)) {
        let second = keys::key_name(KeyCode::F(other));
        assert(second =~= seq!['F', '('] + text::decimal(other as nat) + seq![')']);
        assert(name.subrange(2, name.len() - 1) =~= text::decimal(number as nat));
        assert(second.subrange(2, second.len() - 1) =~= text::decimal(other as nat));
        crate::text_laws::lemma_decimals_differ(number as nat, other as nat);
    }
}

/// A window is listed by its title and by its application in brackets, as far as it has them.
pub proof fn lemma_windows_listed(window: JsonTree, title: Seq<char>, app: Seq<char>)
    ensures
        ({
            let words = niri::window_words(window);
            let has_title = niri::text_field(window, "title"@) == Some(title);
            let has_app = niri::text_field(window, "app_id"@) == Some(app);
            let bracketed = seq!['['] + app + seq![']'];
            &&& has_title && has_app ==> words == title + seq![' '] + bracketed
            &&& has_title && niri::text_field(window, "app_id"@) is None ==> words == title
            &&& niri::text_field(window, "title"@) is None && has_app ==> words == bracketed
        }),
{
    reveal_strlit(" [");
    reveal_strlit("[");
    reveal_strlit("]");
    let bracketed = seq!['['] + app + seq![']'];
    assert(title + " ["@ + app + "]"@ =~= title + seq![' '] + bracketed);
    assert("["@ + app + "]"@ =~= bracketed);
}

/// An event is named after its first field.
pub proof fn lemma_events_named(name: Seq<char>, value: JsonTree, rest: Seq<(Seq<char>, JsonTree)>)
    ensures
        niri::event_words(JsonTree::Object(seq![(name, value)] + rest)) == name,
{
}

/// The line of an output says its name, its size, its place, its scale and its transform in turn,
/// and whether it is focused.
pub proof fn lemma_output_listed(output: &OutputGeometry, scale: Seq<char>, focused: bool)
    ensures
        report::output_words(output, scale, focused) == "    "@ + (output.name@ + (if focused {
            " focused"@
        } else {
            seq![]
        }) + seq![':', ' ']) + (text::decimal(output.width as nat) + seq!['x'] + text::decimal(
            output.height as nat,
        )) + " at "@ + (report::offset(output.x) + seq![','] + report::offset(output.y))
            + ", scale "@ + scale + ", transform "@ + output.transform@,
{
    reveal_strlit(": ");
    reveal_strlit("x");
    reveal_strlit(",");
    reveal_strlit("");
    let mark = if focused {
        " focused"@
    } else {
        seq![]
    };
    let head = "    "@ + (output.name@ + mark + seq![':', ' ']);
    let size = text::decimal(output.width as nat) + seq!['x'] + text::decimal(
        output.height as nat,
    );
    let place = report::offset(output.x) + seq![','] + report::offset(output.y);
    let shown = if focused {
        " focused"@
    } else {
        ""@
    };
    assert(shown =~= mark);
    assert("    "@ + output.name@ + shown + ": "@ =~= head);
    let sized = "    "@ + output.name@ + shown + ": "@ + text::decimal(output.width as nat) + "x"@
        + text::decimal(output.height as nat);
    assert(sized =~= head + size);
    let placed = sized + " at "@ + report::offset(output.x) + ","@ + report::offset(output.y);
    assert(placed =~= head + size + " at "@ + place);
}

/// An image that is painted has at each pixel the colour that was asked for there.
pub proof fn lemma_painted(
    width: nat,
    height: nat,
    colour: spec_fn(int, int) -> Seq<u8>,
    x: int,
    y: int,
    c: int,
)
    requires
        0 <= x < width,
        0 <= y < height,
        0 <= c < 3,
    ensures
        fixture::painted(width, height, colour).channel(x, y, c) == colour(x, y)[c],
{
    let i = (y * width + x) * 3 + c;
    assert(0 <= y * width) by (nonlinear_arith)
        requires
            0 <= y,
            0 <= width,
    ;
    assert(y * width + x < width * height) by (nonlinear_arith)
        requires
            0 <= x < width,
            0 <= y < height,
    ;
    assert(i / 3 == y * width + x && i % 3 == c);
    lemma_fundamental_div_mod_converse(y * width + x, width as int, y, x);
}

/// The test image shows red, green, blue and yellow in its quarters, in the order of reading.
pub proof fn lemma_quarters(x: int, y: int)
    requires
        0 <= x < 400,
        0 <= y < 240,
    ensures
        ({
            let image = fixture::quadrants();
            let (red, green, blue) = (
                image.channel(x, y, 0),
                image.channel(x, y, 1),
                image.channel(x, y, 2),
            );
            let (right, low) = (x >= 200, y >= 120);
            &&& image.width == 400 && image.height == 240
            &&& red > green && red > blue <==> !right && !low
            &&& green > red && green > blue <==> right && !low
            &&& blue > red && blue > green <==> !right && low
            &&& red == green && red > blue <==> right && low
        }),
{
    let colour = |x: int, y: int| fixture::quadrant(x, y);
    lemma_painted(400, 240, colour, x, y, 0);
    lemma_painted(400, 240, colour, x, y, 1);
    lemma_painted(400, 240, colour, x, y, 2);
}

/// In the scene without a desktop, `d` replaces the frame as visible damage would, nought also
/// lowers the detail to the least, and every other key does what it does in the viewer. Nothing is
/// ever sent to a desktop.
pub proof fn lemma_scene(state: ViewerModel, model: TerminalModel, key: KeyEvent, now: u128)
    ensures
        ({
            let (next, then, task) = fixture::scene_outcome(state, model, key, now);
            let (viewed, effect) = viewer::key_outcome(state, key, now);
            &&& task == SceneTask::Replace <==> key.code == KeyCode::Char('d')
            &&& key.code == KeyCode::Char('d') ==> next == state && then
                == session::damage_outcome(state, model, true, now).1
            &&& key.code != KeyCode::Char('d') ==> next == viewed
            &&& key.code == KeyCode::Char('0') ==> then.tier == (model.limits.len()
                - 1) as usize && then.kitty_quality_upgrade_at is None
            &&& key.code != KeyCode::Char('d') && key.code != KeyCode::Char('0') ==> then == model
            &&& key.code != KeyCode::Char('d') ==> (task == SceneTask::Quit <==> effect
                == viewer::Effect::Quit)
        }),
{
}

/// The label of a line of a report. All labels are equally wide.
pub open spec fn label(name: Seq<char>) -> Seq<char> {
    seq!['\n', ' ', ' '] + name + Seq::new((18 - name.len()) as nat, |i: int| ' ') + seq![':', ' ']
}

/// A report has one line for each thing that was found, in a fixed order. What was not found is said
/// to be missing.
pub proof fn lemma_found_listed(
    runtime_dir: Seq<char>,
    socket: Seq<char>,
    source: Source,
    display: Option<String>,
    snapshot: &Snapshot,
    enabled: nat,
)
    ensures
        ({
            let shown = match display {
                Some(display) => display@,
                None => "not discovered"@,
            };
            let counts = text::decimal(snapshot.output_count as nat) + (seq![' ', '(']
                + text::decimal(enabled) + " enabled)"@);
            report::session_words(runtime_dir, socket, source, display, snapshot, enabled)
                == "termway doctor"@ + (label("runtime directory"@) + runtime_dir) + (label(
                "niri socket"@,
            ) + socket) + (label("socket source"@) + source.says()) + (label("Wayland display"@)
                + shown) + (label("niri version"@) + snapshot.version@) + (label("outputs"@)
                + counts)
        }),
{
    assert("termway doctor\n  runtime directory : "@ =~= "termway doctor"@ + label("runtime directory"@)) by {
        reveal_strlit("termway doctor\n  runtime directory : ");
        reveal_strlit("runtime directory");
        reveal_strlit("termway doctor");
    }
    assert("\n  niri socket       : "@ =~= label("niri socket"@)) by {
        reveal_strlit("\n  niri socket       : ");
        reveal_strlit("niri socket");
    }
    assert("\n  socket source     : "@ =~= label("socket source"@)) by {
        reveal_strlit("\n  socket source     : ");
        reveal_strlit("socket source");
    }
    assert("\n  Wayland display   : "@ =~= label("Wayland display"@)) by {
        reveal_strlit("\n  Wayland display   : ");
        reveal_strlit("Wayland display");
    }
    assert("\n  niri version      : "@ =~= label("niri version"@)) by {
        reveal_strlit("\n  niri version      : ");
        reveal_strlit("niri version");
    }
    assert("\n  outputs           : "@ =~= label("outputs"@)) by {
        reveal_strlit("\n  outputs           : ");
        reveal_strlit("outputs");
    }
    assert(" ("@ =~= seq![' ', '(']) by {
        reveal_strlit(" (");
    }
    let shown = report::or_words(display, "not discovered"@);
    let counts = text::decimal(snapshot.output_count as nat) + (seq![' ', '('] + text::decimal(
        enabled,
    ) + " enabled)"@);
    let first = "termway doctor"@ + (label("runtime directory"@) + runtime_dir);
    let second = first + (label("niri socket"@) + socket);
    let third = second + (label("socket source"@) + source.says());
    let fourth = third + (label("Wayland display"@) + shown);
    let fifth = fourth + (label("niri version"@) + snapshot.version@);
    assert("termway doctor"@ + label("runtime directory"@) + runtime_dir =~= first);
    assert(first + label("niri socket"@) + socket =~= second);
    assert(second + label("socket source"@) + source.says() =~= third);
    assert(third + label("Wayland display"@) + shown =~= fourth);
    assert(fourth + label("niri version"@) + snapshot.version@ =~= fifth);
    assert(fifth + label("outputs"@) + text::decimal(snapshot.output_count as nat) + seq![' ', '(']
        + text::decimal(enabled) + " enabled)"@ =~= fifth + (label("outputs"@) + counts));
}

/// A report says how many windows there are, and which has the focus, if any.
pub proof fn lemma_windows_counted(snapshot: &Snapshot)
    ensures
        ({
            let focused = match snapshot.focused_window {
                Some(title) => title@,
                None => seq!['n', 'o', 'n', 'e'],
            };
            seq!['\n'] + report::window_words(snapshot) == label("windows"@) + text::decimal(
                snapshot.window_count as nat,
            ) + (label("focused window"@) + focused)
        }),
{
    reveal_strlit("none");
    assert("none"@ =~= seq!['n', 'o', 'n', 'e']);
    assert(seq!['\n'] + "  windows           : "@ =~= label("windows"@)) by {
        reveal_strlit("  windows           : ");
        reveal_strlit("windows");
    }
    assert("\n  focused window    : "@ =~= label("focused window"@)) by {
        reveal_strlit("\n  focused window    : ");
        reveal_strlit("focused window");
    }
    let count = text::decimal(snapshot.window_count as nat);
    let focused = report::or_words(snapshot.focused_window, "none"@);
    assert(seq!['\n'] + report::window_words(snapshot) =~= label("windows"@) + count + (label(
        "focused window"@,
    ) + focused));
}

/// No two media keys have one name.
#[verifier::spinoff_prover]
#[verifier::rlimit(100)]
pub proof fn lemma_media_names(code: MediaKeyCode, other: MediaKeyCode)
    ensures
        keys::media_name(code) == keys::media_name(other) <==> code == other,
{
    reveal_strlit("Play");
    reveal_strlit("Pause");
    reveal_strlit("PlayPause");
    reveal_strlit("Reverse");
    reveal_strlit("Stop");
    reveal_strlit("FastForward");
    reveal_strlit("Rewind");
    reveal_strlit("TrackNext");
    reveal_strlit("TrackPrevious");
    reveal_strlit("Record");
    reveal_strlit("LowerVolume");
    reveal_strlit("RaiseVolume");
    reveal_strlit("MuteVolume");
    let (name, second) = (keys::media_name(code), keys::media_name(other));
    if name == second {
        assert(name.len() == second.len());
        assert(name[0] == second[0]);
        assert(name[2] == second[2]);
    }
}

/// No two modifier keys have one name.
#[verifier::spinoff_prover]
#[verifier::rlimit(100)]
pub proof fn lemma_modifier_names(code: ModifierKeyCode, other: ModifierKeyCode)
    ensures
        keys::modifier_name(code) == keys::modifier_name(other) <==> code == other,
{
    reveal_strlit("LeftShift");
    reveal_strlit("LeftControl");
    reveal_strlit("LeftAlt");
    reveal_strlit("LeftSuper");
    reveal_strlit("LeftHyper");
    reveal_strlit("LeftMeta");
    reveal_strlit("RightShift");
    reveal_strlit("RightControl");
    reveal_strlit("RightAlt");
    reveal_strlit("RightSuper");
    reveal_strlit("RightHyper");
    reveal_strlit("RightMeta");
    reveal_strlit("IsoLevel3Shift");
    reveal_strlit("IsoLevel5Shift");
    let (name, second) = (keys::modifier_name(code), keys::modifier_name(other));
    if name == second {
        assert(name.len() == second.len());
        assert(name[0] == second[0]);
        assert(name[4] == second[4]);
        assert(name[5] == second[5]);
        assert(name[6] == second[6]);
        assert(name[8] == second[8]);
    }
}

/// No two keys that print nothing and have no number have one name.
#[verifier::spinoff_prover]
#[verifier::rlimit(100)]
pub proof fn lemma_plain_names(code: KeyCode, other: KeyCode)
    requires
        !(code is F) && !(code is Char) && !(code is Media) && !(code is Modifier),
        !(other is F) && !(other is Char) && !(other is Media) && !(other is Modifier),
    ensures
        keys::key_name(code) == keys::key_name(other) <==> code == other,
{
    reveal_strlit("Backspace");
    reveal_strlit("Enter");
    reveal_strlit("Left");
    reveal_strlit("Right");
    reveal_strlit("Up");
    reveal_strlit("Down");
    reveal_strlit("Home");
    reveal_strlit("End");
    reveal_strlit("PageUp");
    reveal_strlit("PageDown");
    reveal_strlit("Tab");
    reveal_strlit("BackTab");
    reveal_strlit("Delete");
    reveal_strlit("Insert");
    reveal_strlit("Null");
    reveal_strlit("Esc");
    reveal_strlit("CapsLock");
    reveal_strlit("ScrollLock");
    reveal_strlit("NumLock");
    reveal_strlit("PrintScreen");
    reveal_strlit("Pause");
    reveal_strlit("Menu");
    reveal_strlit("KeypadBegin");
    let (name, second) = (keys::key_name(code), keys::key_name(other));
    if name == second {
        assert(name.len() == second.len());
        assert(name[0] == second[0]);
        assert(name[1] == second[1]);
    }
}

/// The noise has blocks of nine pixels of one colour, which depends on the column and the row of the
/// block.
pub proof fn lemma_noise_blocks(x: int, y: int)
    requires
        0 <= x < fixture::NOISE_WIDTH,
        0 <= y < fixture::NOISE_HEIGHT,
    ensures
        ({
            let value = fixture::block_noise((x / 3) as u32, (y / 3) as u32);
            let image = fixture::noise();
            &&& image.channel(x, y, 0) == value % 256
            &&& image.channel(x, y, 1) == value / 256 % 256
            &&& image.channel(x, y, 2) == value / 65536 % 256
        }),
{
    let colour = |x: int, y: int|
        fixture::noise_colour(fixture::block_noise((x / 3) as u32, (y / 3) as u32));
    let (width, height) = (fixture::NOISE_WIDTH as nat, fixture::NOISE_HEIGHT as nat);
    lemma_painted(width, height, colour, x, y, 0);
    lemma_painted(width, height, colour, x, y, 1);
    lemma_painted(width, height, colour, x, y, 2);
    let value = fixture::block_noise((x / 3) as u32, (y / 3) as u32);
    assert(value as u8 == value % 256 && (value >> 8u32) as u8 == value / 256 % 256 && (value
        >> 16u32) as u8 == value / 65536 % 256) by (bit_vector);
}

/// The cover is of one colour, which is no colour of a quarter.
pub proof fn lemma_cover_plain(cols: u16, rows: u16, x: int, y: int)
    requires
        0 <= x < 400,
        0 <= y < 240,
    ensures
        ({
            let cover = fixture::cover(cols, rows);
            let image = cover.image;
            &&& image.width == 400 && image.height == 240
            &&& image.channel(x, y, 0) == image.channel(x, y, 2) > image.channel(x, y, 1)
            &&& image.channel(x, y, 0) == image.channel(0, 0, 0)
            &&& image.channel(x, y, 1) == image.channel(0, 0, 1)
            &&& (cover.col, cover.row, cover.cols, cover.rows) == (0u16, 0u16, cols, rows)
        }),
{
    assert(0 <= (y * 400 + x) * 3 && (y * 400 + x) * 3 + 2 < 400 * 240 * 3);
}

} // verus!
