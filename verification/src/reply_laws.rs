//! What holds of replies, of names of terminals, and of numbers and images that are handed on.

use crate::config_laws;
use crate::json::{JsonNumber, JsonTree};
use crate::niri;
use crate::niri::{NiriError, OutputGeometry, Snapshot};
use crate::pixels;
use crate::render;
use crate::render::Viewport;
use crate::selection;
use crate::text;
use crate::text_laws;
use vstd::prelude::*;

verus! {

/// Whether no two fields share a name.
pub open spec fn names_apart(fields: Seq<(Seq<char>, JsonTree)>) -> bool {
    forall|i: int, j: int|
        0 <= i < j < fields.len() ==> (#[trigger] fields[i]).0 != (#[trigger] fields[j]).0
}

proof fn lemma_place(fields: Seq<(Seq<char>, JsonTree)>, name: Seq<char>, count: int)
    requires
        0 <= count <= fields.len(),
    ensures
        match JsonTree::place_in(fields, name, count) {
            Some(at) => 0 <= at < count && fields[at].0 == name && forall|j: int|
                0 <= j < at ==> (#[trigger] fields[j]).0 != name,
            None => forall|j: int| 0 <= j < count ==> (#[trigger] fields[j]).0 != name,
        },
    decreases count,
{
    if count > 0 {
        lemma_place(fields, name, count - 1);
    }
}

/// A field of an object is found by its name, and one that is not there is not found.
pub proof fn lemma_field_found(fields: Seq<(Seq<char>, JsonTree)>, at: int, name: Seq<char>)
    requires
        names_apart(fields),
        0 <= at < fields.len(),
    ensures
        JsonTree::Object(fields).field(fields[at].0) == Some(fields[at].1),
        (forall|i: int| 0 <= i < fields.len() ==> (#[trigger] fields[i]).0 != name)
            ==> JsonTree::Object(fields).field(name) is None,
{
    lemma_place(fields, fields[at].0, fields.len() as int);
    lemma_place(fields, name, fields.len() as int);
}

/// A whole number as the reader of JSON knows it.
pub open spec fn whole(value: int, bits: Option<u64>) -> JsonTree {
    JsonTree::Number(
        JsonNumber {
            signed: if i64::MIN <= value <= i64::MAX {
                Some(value as i64)
            } else {
                None
            },
            unsigned: if 0 <= value <= u64::MAX {
                Some(value as u64)
            } else {
                None
            },
            bits,
        },
    )
}

/// What is read of an output is what the compositor says: its name and, from its logical
/// geometry, its place, its size, its scale and its transform, each by its own name and in whatever
/// order.
pub proof fn lemma_geometry_read(
    output: JsonTree,
    logical: Seq<(Seq<char>, JsonTree)>,
    geometry: OutputGeometry,
    x: i32,
    y: i32,
    width: u32,
    height: u32,
    name: Seq<char>,
    transform: Seq<char>,
    bits: (Option<u64>, Option<u64>, Option<u64>, Option<u64>),
)
    requires
        niri::is_geometry_of(geometry, output),
        output.field("name"@) == Some(JsonTree::Text(name)),
        output.field("logical"@) == Some(JsonTree::Object(logical)),
        names_apart(logical),
        logical.contains(("x"@, whole(x as int, bits.0))),
        logical.contains(("y"@, whole(y as int, bits.1))),
        logical.contains(("width"@, whole(width as int, bits.2))),
        logical.contains(("height"@, whole(height as int, bits.3))),
        logical.contains(("transform"@, JsonTree::Text(transform))),
    ensures
        geometry.x == x,
        geometry.y == y,
        geometry.width == width,
        geometry.height == height,
        geometry.name@ == name,
        geometry.transform@ == transform,
{
    lemma_listed(logical, "x"@, whole(x as int, bits.0));
    lemma_listed(logical, "y"@, whole(y as int, bits.1));
    lemma_listed(logical, "width"@, whole(width as int, bits.2));
    lemma_listed(logical, "height"@, whole(height as int, bits.3));
    lemma_listed(logical, "transform"@, JsonTree::Text(transform));
}

proof fn lemma_listed(fields: Seq<(Seq<char>, JsonTree)>, name: Seq<char>, value: JsonTree)
    requires
        names_apart(fields),
        fields.contains((name, value)),
    ensures
        JsonTree::Object(fields).field(name) == Some(value),
{
    let at = choose|at: int| 0 <= at < fields.len() && fields[at] == (name, value);
    lemma_field_found(fields, at, name);
}

/// What is said of an output is read or refused, and never both.
pub proof fn lemma_read_or_refused(geometry: OutputGeometry, error: NiriError, output: JsonTree)
    requires
        niri::is_geometry_of(geometry, output),
    ensures
        !niri::is_geometry_fault(error, output),
{
}

/// The outputs that count are those with a logical geometry, in the order in which they are listed.
pub proof fn lemma_enabled_listed(fields: Seq<(Seq<char>, JsonTree)>, count: int, more: JsonTree)
    requires
        0 <= count < fields.len(),
        more == fields[count].1,
    ensures
        ({
            let before = niri::enabled_outputs(fields, count);
            let after = niri::enabled_outputs(fields, count + 1);
            let enabled = more.field("logical"@) is Some && !(more.field("logical"@)->0 is Null);
            &&& enabled ==> after == before.push(more)
            &&& !enabled ==> after == before
        }),
        niri::enabled_outputs(fields, 0).len() == 0,
{
}

/// The exponent of a number of 32 bits that is not negative. That of one is 127, and that of
/// infinity 255. Negative numbers have larger ones.
pub open spec fn exponent(bits: u32) -> int {
    bits as int / 0x80_0000
}

/// A magnification is a finite number of at least one: it is not negative, and its exponent is
/// neither below that of one nor that of infinity. A middle lies between nought and one.
pub proof fn lemma_viewport_ranges(viewport: Viewport)
    ensures
        ({
            let zoom = viewport.zoom;
            let fraction = |bits: u32|
                exponent(bits) < 127 || bits == 0x3f80_0000 || bits == 0x8000_0000;
            &&& render::viewport_fault(viewport) is None <==> {
                &&& 127 <= exponent(zoom) < 255
                &&& fraction(viewport.center_x)
                &&& fraction(viewport.center_y)
            }
        }),
{
}

/// Whether a text says a word, in whatever case, somewhere.
pub open spec fn says(name: Seq<char>, word: Seq<char>, at: int) -> bool {
    &&& 0 <= at
    &&& at + word.len() <= name.len()
    &&& forall|i: int| 0 <= i < word.len() ==> text::lowered(#[trigger] name[at + i]) == word[i]
}

proof fn lemma_says(name: Seq<char>, word: Seq<char>)
    ensures
        text::has_part(text::lowercase(name), word) <==> exists|at: int| says(name, word, at),
{
    let small = text::lowercase(name);
    if text::has_part(small, word) {
        let at = choose|at: int| text::stands_at(small, word, at);
        assert forall|i: int| 0 <= i < word.len() implies text::lowered(#[trigger] name[at + i])
            == word[i] by {
            assert(small.subrange(at, at + word.len())[i] == small[at + i]);
        }
        assert(says(name, word, at));
    }
    if exists|at: int| says(name, word, at) {
        let at = choose|at: int| says(name, word, at);
        assert forall|i: int| 0 <= i < word.len() implies small.subrange(at, at + word.len())[i]
            == word[i] by {
            assert(text::lowered(name[at + i]) == word[i]);
        }
        assert(small.subrange(at, at + word.len()) =~= word);
        assert(text::stands_at(small, word, at));
    }
}

/// A terminal is taken to know the graphics where its name says kitty, wezterm or ghostty in
/// whatever case, and relative placements where it says kitty.
pub proof fn lemma_terminals_known(name: Seq<char>)
    ensures
        selection::names_kitty_graphics(name) <==> {
            ||| exists|at: int| says(name, "kitty"@, at)
            ||| exists|at: int| says(name, "wezterm"@, at)
            ||| exists|at: int| says(name, "ghostty"@, at)
        },
        selection::names_relative_placements(name) <==> exists|at: int| says(name, "kitty"@, at),
        selection::names_relative_placements(name) ==> selection::names_kitty_graphics(name),
{
    lemma_says(name, "kitty"@);
    lemma_says(name, "wezterm"@);
    lemma_says(name, "ghostty"@);
}

/// tmux is taken to pass commands on where it says `on` or `all`, whatever white space stands
/// around, and where it says `off` it is not.
pub proof fn lemma_passing_on(before: Seq<char>, after: Seq<char>)
    requires
        text_laws::blank(before),
        text_laws::blank(after),
    ensures
        selection::passes_on(before + "on"@ + after),
        selection::passes_on(before + "all"@ + after),
        !selection::passes_on(before + "off"@ + after),
        !selection::passes_on(before),
{
    reveal_strlit("on");
    reveal_strlit("all");
    reveal_strlit("off");
    config_laws::lemma_trim_around(before, "on"@, after);
    config_laws::lemma_trim_around(before, "all"@, after);
    config_laws::lemma_trim_around(before, "off"@, after);
    assert("off"@[1] != "on"@[1]);
    assert("off"@[0] != "all"@[0]);
    let around = text_laws::lemma_trimmed(before);
    assert(text::trimmed(before).len() == 0);
    assert("on"@.len() == 2 && "all"@.len() == 3);
}

/// The six bits that a character of base64 stands for.
pub open spec fn worth(c: char) -> int {
    if 'A' <= c <= 'Z' {
        c as u32 - 'A' as u32
    } else if 'a' <= c <= 'z' {
        c as u32 - 'a' as u32 + 26
    } else if '0' <= c <= '9' {
        c as u32 - '0' as u32 + 52
    } else if c == '+' {
        62
    } else {
        63
    }
}

/// What base64 with padding says.
pub open spec fn decoded(chars: Seq<char>) -> Seq<u8>
    decreases chars.len(),
{
    if chars.len() < 4 {
        seq![]
    } else {
        let first = (worth(chars[0]) * 4 + worth(chars[1]) / 16) as u8;
        let second = (worth(chars[1]) % 16 * 16 + worth(chars[2]) / 4) as u8;
        let third = (worth(chars[2]) % 4 * 64 + worth(chars[3])) as u8;
        if chars[2] == '=' {
            seq![first]
        } else if chars[3] == '=' {
            seq![first, second]
        } else {
            seq![first, second, third] + decoded(chars.skip(4))
        }
    }
}

proof fn lemma_symbol(bits: int)
    requires
        0 <= bits < 64,
    ensures
        worth(pixels::base64_symbol(bits)) == bits,
        pixels::base64_symbol(bits) != '=',
{
}

/// What is sent in base64 says the bytes that it was made of.
pub proof fn lemma_base64_read(bytes: Seq<u8>)
    ensures
        decoded(pixels::base64_text(bytes)) == bytes,
    decreases bytes.len(),
{
    let chars = pixels::base64_text(bytes);
    if bytes.len() > 0 {
        let a = bytes[0] as int;
        lemma_symbol(a / 4);
        if bytes.len() == 1 {
            lemma_symbol(a % 4 * 16);
            assert(decoded(chars) =~= bytes);
        } else {
            let b = bytes[1] as int;
            lemma_symbol(a % 4 * 16 + b / 16);
            if bytes.len() == 2 {
                lemma_symbol(b % 16 * 4);
                assert(decoded(chars) =~= bytes);
            } else {
                let c = bytes[2] as int;
                lemma_symbol(b % 16 * 4 + c / 64);
                lemma_symbol(c % 64);
                lemma_base64_read(bytes.skip(3));
                assert(chars.skip(4) =~= pixels::base64_text(bytes.skip(3)));
                assert(decoded(chars) =~= bytes);
            }
        }
    } else {
        assert(decoded(chars) =~= bytes);
    }
}

/// A number of a reply is read where it fits. Nothing else is.
pub proof fn lemma_numbers_fit(value: JsonTree, field: Seq<char>, number: JsonNumber)
    ensures
        value.field(field) == Some(JsonTree::Number(number)) ==> {
            let (signed, unsigned) = (
                niri::signed_field(value, field),
                niri::unsigned_field(value, field),
            );
            &&& signed is Some <==> number.signed is Some && -0x8000_0000
                <= number.signed->0 <= 0x7fff_ffff
            &&& signed is Some ==> signed->0 == number.signed->0
            &&& unsigned is Some <==> number.unsigned is Some && number.unsigned->0
                <= 0xffff_ffff
            &&& unsigned is Some ==> unsigned->0 == number.unsigned->0
            &&& niri::bits_field(value, field) == number.bits
        },
        !(value.field(field) matches Some(JsonTree::Number(_))) ==> {
            &&& niri::signed_field(value, field) is None
            &&& niri::unsigned_field(value, field) is None
            &&& niri::bits_field(value, field) is None
        },
{
}

/// An output either has a geometry, and then only one, or a fault. A fault names what is missing.
pub proof fn lemma_geometry_or_fault(
    output: JsonTree,
    geometry: OutputGeometry,
    other: OutputGeometry,
    error: NiriError,
)
    ensures
        niri::is_geometry_of(geometry, output) ==> !niri::is_geometry_fault(error, output),
        niri::is_geometry_of(geometry, output) && niri::is_geometry_of(other, output) ==> {
            &&& geometry.name@ == other.name@
            &&& geometry.transform@ == other.transform@
            &&& geometry.x == other.x && geometry.y == other.y
            &&& geometry.width == other.width && geometry.height == other.height
            &&& geometry.scale == other.scale
        },
        niri::is_geometry_fault(error, output) ==> {
            let logical = output.field("logical"@)->0;
            match error {
                NiriError::OutputWithoutName => niri::text_field(output, "name"@) is None,
                NiriError::OutputDisabled => output.field("logical"@) is None,
                NiriError::NotSigned(field) => (field@ == "x"@ || field@ == "y"@)
                    && niri::signed_field(logical, field@) is None,
                NiriError::NotUnsigned(field) => (field@ == "width"@ || field@ == "height"@)
                    && niri::unsigned_field(logical, field@) is None,
                NiriError::ScaleNotNumber => niri::bits_field(logical, "scale"@) is None,
                NiriError::TransformNotString => niri::text_field(logical, "transform"@) is None,
                _ => false,
            }
        },
{
}

/// Replies have one summary. It counts every output and every window, and says that a window has the
/// focus exactly where one does.
pub proof fn lemma_one_summary(
    first: Snapshot,
    second: Snapshot,
    version: JsonTree,
    outputs: JsonTree,
    windows: JsonTree,
    focused: JsonTree,
)
    requires
        niri::is_snapshot_of(first, version, outputs, windows, focused),
        niri::is_snapshot_of(second, version, outputs, windows, focused),
    ensures
        first.version@ == second.version@,
        first.output_count == second.output_count == (outputs.field("Outputs"@)->0)->Object_0.len(),
        first.window_count == second.window_count == (windows.field("Windows"@)->0)->Array_0.len(),
        first.focused_window is None <==> focused.field("FocusedWindow"@) == Some(JsonTree::Null),
        first.focused_window is Some <==> second.focused_window is Some,
        first.focused_window is Some ==> first.focused_window->0@ == second.focused_window->0@,
{
}

/// Replies that have a summary have no fault. A fault says which reply is at fault.
pub proof fn lemma_summary_or_fault(
    snapshot: Snapshot,
    error: NiriError,
    version: JsonTree,
    outputs: JsonTree,
    windows: JsonTree,
    focused: JsonTree,
)
    requires
        niri::is_snapshot_fault(error, version, outputs, windows, focused),
    ensures
        !niri::is_snapshot_of(snapshot, version, outputs, windows, focused),
        match error {
            NiriError::VersionNotString => version.field("Version"@) is Some && niri::text_field(
                version,
                "Version"@,
            ) is None,
            NiriError::OutputsNotObject => !(outputs.field("Outputs"@)->0 is Object),
            NiriError::WindowsNotArray => !(windows.field("Windows"@)->0 is Array),
            NiriError::Unexpected(name, _) => {
                ||| name@ == "Version"@ && version.field(name@) is None
                ||| name@ == "Outputs"@ && outputs.field(name@) is None
                ||| name@ == "Windows"@ && windows.field(name@) is None
                ||| name@ == "FocusedWindow"@ && focused.field(name@) is None
            },
            _ => false,
        },
{
}

} // verus!
