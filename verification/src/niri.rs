//! Replies of the niri compositor.

use crate::json;
use crate::json::{parse, rewritten, string_json, Json, JsonNode, JsonTree};
use crate::text;
use crate::text::{push_decimal, same};
use vstd::prelude::*;

verus! {

/// Where an output lies in the desktop.
pub struct OutputGeometry {
    pub name: String,
    pub x: i32,
    pub y: i32,
    pub width: u32,
    pub height: u32,
    /// The scale, as the bits of a double-precision number.
    pub scale: u64,
    pub transform: String,
}

/// A summary of the desktop.
pub struct Snapshot {
    pub version: String,
    pub output_count: usize,
    pub window_count: usize,
    pub focused_window: Option<String>,
}

/// What is wrong with a reply.
pub enum NiriError {
    /// The reply is not JSON.
    Invalid,
    NotObject,
    /// The compositor refused. The error in JSON follows.
    Refused(String),
    /// Neither success nor failure.
    NoResult,
    /// The reply is to something else than what is named. The reply in JSON follows.
    Unexpected(String, String),
    VersionNotString,
    OutputsNotObject,
    WindowsNotArray,
    FocusedWithoutName,
    NoSuchOutput(String),
    OutputWithoutName,
    OutputDisabled,
    /// A field is not a number of 32 bits, signed or not.
    NotSigned(String),
    NotUnsigned(String),
    ScaleNotNumber,
    TransformNotString,
    /// The event stream was not granted. The reply in JSON follows.
    NotHandled(String),
}

impl NiriError {
    /// The words of the error.
    pub open spec fn words(self) -> Seq<char> {
        match self {
            NiriError::Invalid => "invalid niri reply"@,
            NiriError::NotObject => "niri reply is not an object"@,
            NiriError::Refused(error) => "niri returned an error: "@ + error@,
            NiriError::NoResult => "niri reply contains neither Ok nor Err"@,
            NiriError::Unexpected(name, value) => "expected niri "@ + name@ + " response, got "@
                + value@,
            NiriError::VersionNotString => "niri Version response is not a string"@,
            NiriError::OutputsNotObject => "niri Outputs response is not an object"@,
            NiriError::WindowsNotArray => "niri Windows response is not an array"@,
            NiriError::FocusedWithoutName => "niri FocusedOutput response has no string name"@,
            NiriError::NoSuchOutput(name) => "niri has no output named "@ + name@,
            NiriError::OutputWithoutName => "niri output has no string name"@,
            NiriError::OutputDisabled => "niri output is disabled and has no logical geometry"@,
            NiriError::NotSigned(field) => "niri output logical "@ + field@ + " is not an i32"@,
            NiriError::NotUnsigned(field) => "niri output logical "@ + field@ + " is not a u32"@,
            NiriError::ScaleNotNumber => "niri output logical scale is not a number"@,
            NiriError::TransformNotString => "niri output logical transform is not a string"@,
            NiriError::NotHandled(reply) => "unexpected EventStream acknowledgement: "@ + reply@,
        }
    }

    /// The error in words.
    pub fn message(&self) -> (message: String)
        ensures
            message@ == self.words(),
    {
        match self {
            NiriError::Invalid => "invalid niri reply".to_owned(),
            NiriError::NotObject => "niri reply is not an object".to_owned(),
            NiriError::Refused(error) => {
                let mut message = "niri returned an error: ".to_owned();
                message.append(error.as_str());
                message
            },
            NiriError::NoResult => "niri reply contains neither Ok nor Err".to_owned(),
            NiriError::Unexpected(name, value) => {
                let mut message = "expected niri ".to_owned();
                message.append(name.as_str());
                message.append(" response, got ");
                message.append(value.as_str());
                message
            },
            NiriError::VersionNotString => "niri Version response is not a string".to_owned(),
            NiriError::OutputsNotObject => "niri Outputs response is not an object".to_owned(),
            NiriError::WindowsNotArray => "niri Windows response is not an array".to_owned(),
            NiriError::FocusedWithoutName =>
                "niri FocusedOutput response has no string name".to_owned(),
            NiriError::NoSuchOutput(name) => {
                let mut message = "niri has no output named ".to_owned();
                message.append(name.as_str());
                message
            },
            NiriError::OutputWithoutName => "niri output has no string name".to_owned(),
            NiriError::OutputDisabled =>
                "niri output is disabled and has no logical geometry".to_owned(),
            NiriError::NotSigned(field) => {
                let mut message = "niri output logical ".to_owned();
                message.append(field.as_str());
                message.append(" is not an i32");
                message
            },
            NiriError::NotUnsigned(field) => {
                let mut message = "niri output logical ".to_owned();
                message.append(field.as_str());
                message.append(" is not a u32");
                message
            },
            NiriError::ScaleNotNumber => "niri output logical scale is not a number".to_owned(),
            NiriError::TransformNotString =>
                "niri output logical transform is not a string".to_owned(),
            NiriError::NotHandled(reply) => {
                let mut message = "unexpected EventStream acknowledgement: ".to_owned();
                message.append(reply.as_str());
                message
            },
        }
    }
}

/// What a reply of the compositor holds: what it is in `Ok`, unless it is an error.
pub fn unwrap_reply(reply: Json) -> (result: Result<Json, NiriError>)
    ensures
        if !(reply.tree() is Object) {
            result == Err::<Json, NiriError>(NiriError::NotObject)
        } else if reply.tree().field("Err"@) is Some {
            result matches Err(NiriError::Refused(error)) && error@ == json::written_tree(
                reply.tree().field("Err"@)->0,
            )
        } else if reply.tree().field("Ok"@) is Some {
            result matches Ok(value) && Some(value.tree()) == reply.tree().field("Ok"@)
        } else {
            result == Err::<Json, NiriError>(NiriError::NoResult)
        },
{
    if !reply.is_object() {
        return Err(NiriError::NotObject);
    }
    if let Some(error) = reply.get("Err") {
        return Err(NiriError::Refused(error.text().to_owned()));
    }
    match reply.into_field("Ok") {
        Some(value) => Ok(value),
        None => Err(NiriError::NoResult),
    }
}

/// Whether an error says that a value is not the reply with a name.
pub open spec fn is_unexpected(error: NiriError, name: Seq<char>, value: JsonTree) -> bool {
    error matches NiriError::Unexpected(shown, got) && shown@ == name && got@
        == json::written_tree(value)
}

/// The reply to the request with a name.
pub fn variant<'a>(value: &'a Json, name: &str) -> (result: Result<&'a Json, NiriError>)
    ensures
        match value.tree().field(name@) {
            Some(tree) => result matches Ok(found) && found.tree() == tree,
            None => result matches Err(error) && is_unexpected(error, name@, value.tree()),
        },
{
    match value.get(name) {
        Some(found) => Ok(found),
        None => Err(NiriError::Unexpected(name.to_owned(), value.text().to_owned())),
    }
}

/// The line that asks for something.
pub fn request_line(request: &str) -> (line: String)
    ensures
        line@ == json::written_string(request@) + "\n"@,
{
    let mut line = string_json(request);
    line.append("\n");
    line
}

/// Reads a line of the compositor and takes the reply out of it.
pub fn read_reply(line: &str) -> (result: Result<Json, NiriError>)
    ensures
        match json::read_tree(line@) {
            None => result == Err::<Json, NiriError>(NiriError::Invalid),
            Some(tree) => if !(tree is Object) {
                result == Err::<Json, NiriError>(NiriError::NotObject)
            } else if tree.field("Err"@) is Some {
                result matches Err(NiriError::Refused(error)) && error@ == json::written_tree(
                    tree.field("Err"@)->0,
                )
            } else if tree.field("Ok"@) is Some {
                result matches Ok(value) && Some(value.tree()) == tree.field("Ok"@)
            } else {
                result == Err::<Json, NiriError>(NiriError::NoResult)
            },
        },
{
    match parse(line) {
        Some(reply) => unwrap_reply(reply),
        None => Err(NiriError::Invalid),
    }
}

/// The signed number of 32 bits in a field.
pub open spec fn signed_field(value: JsonTree, field: Seq<char>) -> Option<i32> {
    match value.field(field) {
        Some(JsonTree::Number(number)) => match number.signed {
            Some(signed) => if i32::MIN <= signed <= i32::MAX {
                Some(signed as i32)
            } else {
                None
            },
            None => None,
        },
        _ => None,
    }
}

/// The unsigned number of 32 bits in a field.
pub open spec fn unsigned_field(value: JsonTree, field: Seq<char>) -> Option<u32> {
    match value.field(field) {
        Some(JsonTree::Number(number)) => match number.unsigned {
            Some(unsigned) => if unsigned <= u32::MAX {
                Some(unsigned as u32)
            } else {
                None
            },
            None => None,
        },
        _ => None,
    }
}

/// The text in a field.
pub open spec fn text_field(value: JsonTree, field: Seq<char>) -> Option<Seq<char>> {
    match value.field(field) {
        Some(found) => found.words(),
        None => None,
    }
}

/// The bits of the number in a field.
pub open spec fn bits_field(value: JsonTree, field: Seq<char>) -> Option<u64> {
    match value.field(field) {
        Some(JsonTree::Number(number)) => number.bits,
        _ => None,
    }
}

/// The signed number of 32 bits in a field.
pub fn json_i32(value: &Json, field: &str) -> (result: Result<i32, NiriError>)
    ensures
        match signed_field(value.tree(), field@) {
            Some(number) => result == Ok::<i32, NiriError>(number),
            None => result matches Err(NiriError::NotSigned(shown)) && shown@ == field@,
        },
{
    if let Some(found) = value.get(field) {
        if let JsonNode::Number(number) = found.node() {
            if let Some(signed) = number.signed {
                if i32::MIN as i64 <= signed && signed <= i32::MAX as i64 {
                    return Ok(signed as i32);
                }
            }
        }
    }
    Err(NiriError::NotSigned(field.to_owned()))
}

/// The unsigned number of 32 bits in a field.
pub fn json_u32(value: &Json, field: &str) -> (result: Result<u32, NiriError>)
    ensures
        match unsigned_field(value.tree(), field@) {
            Some(number) => result == Ok::<u32, NiriError>(number),
            None => result matches Err(NiriError::NotUnsigned(shown)) && shown@ == field@,
        },
{
    if let Some(found) = value.get(field) {
        if let JsonNode::Number(number) = found.node() {
            if let Some(unsigned) = number.unsigned {
                if unsigned <= u32::MAX as u64 {
                    return Ok(unsigned as u32);
                }
            }
        }
    }
    Err(NiriError::NotUnsigned(field.to_owned()))
}

/// The bits of the number in a field.
fn json_bits(value: &Json, field: &str) -> (bits: Option<u64>)
    ensures
        bits == bits_field(value.tree(), field@),
{
    match value.get(field) {
        Some(found) => match found.node() {
            JsonNode::Number(number) => number.bits,
            _ => None,
        },
        None => None,
    }
}

/// The text in a field.
fn json_text(value: &Json, field: &str) -> (found: Option<String>)
    ensures
        match text_field(value.tree(), field@) {
            Some(words) => found matches Some(found) && found@ == words,
            None => found is None,
        },
{
    match value.get(field) {
        Some(json) => match json.as_str() {
            Some(words) => Some(words.to_owned()),
            None => None,
        },
        None => None,
    }
}

/// Whether a geometry is what the compositor says of an output.
pub open spec fn is_geometry_of(geometry: OutputGeometry, output: JsonTree) -> bool {
    &&& text_field(output, "name"@) == Some(geometry.name@)
    &&& output.field("logical"@) matches Some(logical) && {
        &&& signed_field(logical, "x"@) == Some(geometry.x)
        &&& signed_field(logical, "y"@) == Some(geometry.y)
        &&& unsigned_field(logical, "width"@) == Some(geometry.width)
        &&& unsigned_field(logical, "height"@) == Some(geometry.height)
        &&& bits_field(logical, "scale"@) == Some(geometry.scale)
        &&& text_field(logical, "transform"@) == Some(geometry.transform@)
    }
}

/// Whether an error is the first thing wrong with what the compositor says of an output.
pub open spec fn is_geometry_fault(error: NiriError, output: JsonTree) -> bool {
    if text_field(output, "name"@) is None {
        error == NiriError::OutputWithoutName
    } else {
        match output.field("logical"@) {
            None => error == NiriError::OutputDisabled,
            Some(logical) => if signed_field(logical, "x"@) is None {
                error matches NiriError::NotSigned(field) && field@ == "x"@
            } else if signed_field(logical, "y"@) is None {
                error matches NiriError::NotSigned(field) && field@ == "y"@
            } else if unsigned_field(logical, "width"@) is None {
                error matches NiriError::NotUnsigned(field) && field@ == "width"@
            } else if unsigned_field(logical, "height"@) is None {
                error matches NiriError::NotUnsigned(field) && field@ == "height"@
            } else if bits_field(logical, "scale"@) is None {
                error == NiriError::ScaleNotNumber
            } else if text_field(logical, "transform"@) is None {
                error == NiriError::TransformNotString
            } else {
                false
            },
        }
    }
}

/// Reads the geometry of an output.
pub fn parse_output_geometry(output: &Json) -> (result: Result<OutputGeometry, NiriError>)
    ensures
        match result {
            Ok(geometry) => is_geometry_of(geometry, output.tree()),
            Err(error) => is_geometry_fault(error, output.tree()),
        },
{
    let name = match json_text(output, "name") {
        Some(name) => name,
        None => return Err(NiriError::OutputWithoutName),
    };
    let logical = match output.get("logical") {
        Some(logical) => logical,
        None => return Err(NiriError::OutputDisabled),
    };
    let x: i32 = match json_i32(logical, "x") {
        Ok(x) => x,
        Err(error) => return Err(error),
    };
    let y: i32 = match json_i32(logical, "y") {
        Ok(y) => y,
        Err(error) => return Err(error),
    };
    let width: u32 = match json_u32(logical, "width") {
        Ok(width) => width,
        Err(error) => return Err(error),
    };
    let height: u32 = match json_u32(logical, "height") {
        Ok(height) => height,
        Err(error) => return Err(error),
    };
    let scale: u64 = match json_bits(logical, "scale") {
        Some(bits) => bits,
        None => return Err(NiriError::ScaleNotNumber),
    };
    let transform = match json_text(logical, "transform") {
        Some(transform) => transform,
        None => return Err(NiriError::TransformNotString),
    };
    Ok(OutputGeometry { name, x, y, width, height, scale, transform })
}

/// The geometry of the output with a name, out of the reply to `Outputs`.
pub fn output_geometry(reply: &Json, name: &str) -> (result: Result<OutputGeometry, NiriError>)
    ensures
        match reply.tree().field("Outputs"@) {
            None => result matches Err(error) && is_unexpected(error, "Outputs"@, reply.tree()),
            Some(outputs) => if !(outputs is Object) {
                result == Err::<OutputGeometry, NiriError>(NiriError::OutputsNotObject)
            } else {
                match outputs.field(name@) {
                    None => result matches Err(NiriError::NoSuchOutput(shown)) && shown@ == name@,
                    Some(output) => match result {
                        Ok(geometry) => is_geometry_of(geometry, output),
                        Err(error) => is_geometry_fault(error, output),
                    },
                }
            },
        },
{
    let outputs = match variant(reply, "Outputs") {
        Ok(outputs) => outputs,
        Err(error) => return Err(error),
    };
    if !outputs.is_object() {
        return Err(NiriError::OutputsNotObject);
    }
    match outputs.get(name) {
        Some(output) => parse_output_geometry(output),
        None => Err(NiriError::NoSuchOutput(name.to_owned())),
    }
}

/// Whether an output is enabled.
pub open spec fn is_enabled(output: JsonTree) -> bool {
    output.field("logical"@) matches Some(logical) && !(logical is Null)
}

/// The first so many outputs, without those that are not enabled.
pub open spec fn enabled_outputs(fields: Seq<(Seq<char>, JsonTree)>, count: int) -> Seq<JsonTree>
    decreases count,
{
    if count <= 0 {
        seq![]
    } else {
        let before = enabled_outputs(fields, count - 1);
        if is_enabled(fields[count - 1].1) {
            before.push(fields[count - 1].1)
        } else {
            before
        }
    }
}

/// Whether geometries are those of outputs, one by one.
pub open spec fn are_geometries_of(
    geometries: Seq<OutputGeometry>,
    outputs: Seq<JsonTree>,
) -> bool {
    &&& geometries.len() == outputs.len()
    &&& forall|i: int|
        0 <= i < outputs.len() ==> is_geometry_of(#[trigger] geometries[i], outputs[i])
}

/// Whether an error is the first thing wrong with what the compositor says of outputs.
pub open spec fn is_first_fault(error: NiriError, outputs: Seq<JsonTree>) -> bool {
    exists|i: int|
        0 <= i < outputs.len() && is_geometry_fault(error, #[trigger] outputs[i]) && exists|
            before: Seq<OutputGeometry>,
        | #[trigger]
            are_geometries_of(before, outputs.take(i))
}

/// The geometries of the outputs that are enabled, out of the reply to `Outputs`.
pub fn output_geometries(reply: &Json) -> (result: Result<Vec<OutputGeometry>, NiriError>)
    ensures
        match reply.tree().field("Outputs"@) {
            None => result matches Err(error) && is_unexpected(error, "Outputs"@, reply.tree()),
            Some(JsonTree::Object(fields)) => {
                let outputs = enabled_outputs(fields, fields.len() as int);
                match result {
                    Ok(geometries) => are_geometries_of(geometries@, outputs),
                    Err(error) => is_first_fault(error, outputs),
                }
            },
            Some(_) => result == Err::<Vec<OutputGeometry>, NiriError>(
                NiriError::OutputsNotObject,
            ),
        },
{
    let outputs = match variant(reply, "Outputs") {
        Ok(outputs) => outputs,
        Err(error) => return Err(error),
    };
    let fields = match outputs.node() {
        JsonNode::Object(fields) => fields,
        _ => return Err(NiriError::OutputsNotObject),
    };
    let ghost trees = outputs.tree()->Object_0;
    let mut geometries: Vec<OutputGeometry> = Vec::new();
    let mut i: usize = 0;
    while i < fields.len()
        invariant
            i <= fields@.len(),
            trees.len() == fields@.len(),
            forall|k: int|
                0 <= k < fields@.len() ==> (#[trigger] trees[k]).1 == fields@[k].1.tree(),
            reply.tree().field("Outputs"@) == Some(JsonTree::Object(trees)),
            are_geometries_of(geometries@, enabled_outputs(trees, i as int)),
        decreases fields@.len() - i,
    {
        let output = &fields[i].1;
        assert(trees[i as int].1 == output.tree());
        let enabled = match output.get("logical") {
            Some(logical) => !logical.is_null(),
            None => false,
        };
        if enabled {
            match parse_output_geometry(output) {
                Ok(geometry) => geometries.push(geometry),
                Err(error) => {
                    proof {
                        lemma_enabled_grow(trees, (i + 1) as int, trees.len() as int);
                        let all = enabled_outputs(trees, trees.len() as int);
                        let before = enabled_outputs(trees, i as int);
                        let next = enabled_outputs(trees, (i + 1) as int);
                        assert(next == before.push(output.tree()));
                        assert(all.take(next.len() as int)[before.len() as int] == output.tree());
                        assert(all.take(before.len() as int) =~= before);
                    }
                    return Err(error);
                },
            }
        }
        i = i + 1;
    }
    Ok(geometries)
}

/// More outputs add to those that are enabled.
proof fn lemma_enabled_grow(fields: Seq<(Seq<char>, JsonTree)>, count: int, all: int)
    requires
        0 <= count <= all,
    ensures
        enabled_outputs(fields, count).len() <= enabled_outputs(fields, all).len(),
        enabled_outputs(fields, all).take(enabled_outputs(fields, count).len() as int)
            =~= enabled_outputs(fields, count),
    decreases all,
{
    if count < all {
        lemma_enabled_grow(fields, count, all - 1);
        let before = enabled_outputs(fields, all - 1);
        let len = enabled_outputs(fields, count).len() as int;
        assert(enabled_outputs(fields, all).take(len) =~= before.take(len));
    }
}

/// The name of the focused output, if one is focused, out of the reply to `FocusedOutput`.
pub fn focused_output_name(reply: &Json) -> (result: Result<Option<String>, NiriError>)
    ensures
        match reply.tree().field("FocusedOutput"@) {
            None => result matches Err(error) && is_unexpected(
                error,
                "FocusedOutput"@,
                reply.tree(),
            ),
            Some(output) => if output is Null {
                result == Ok::<Option<String>, NiriError>(None)
            } else {
                match text_field(output, "name"@) {
                    Some(name) => result matches Ok(Some(shown)) && shown@ == name,
                    None => result == Err::<Option<String>, NiriError>(
                        NiriError::FocusedWithoutName,
                    ),
                }
            },
        },
{
    let output = match variant(reply, "FocusedOutput") {
        Ok(output) => output,
        Err(error) => return Err(error),
    };
    if output.is_null() {
        return Ok(None);
    }
    match json_text(output, "name") {
        Some(name) => Ok(Some(name)),
        None => Err(NiriError::FocusedWithoutName),
    }
}

/// How a window is shown: its title and its application.
pub open spec fn window_words(window: JsonTree) -> Seq<char> {
    match (text_field(window, "title"@), text_field(window, "app_id"@)) {
        (Some(title), Some(app_id)) => title + " ["@ + app_id + "]"@,
        (Some(title), None) => title,
        (None, Some(app_id)) => "["@ + app_id + "]"@,
        (None, None) => "untitled"@,
    }
}

fn window_text(window: &Json) -> (words: String)
    ensures
        words@ == window_words(window.tree()),
{
    match (json_text(window, "title"), json_text(window, "app_id")) {
        (Some(title), Some(app_id)) => {
            let mut words = title;
            words.append(" [");
            words.append(app_id.as_str());
            words.append("]");
            words
        },
        (Some(title), None) => title,
        (None, Some(app_id)) => {
            let mut words = "[".to_owned();
            words.append(app_id.as_str());
            words.append("]");
            words
        },
        (None, None) => "untitled".to_owned(),
    }
}

/// Whether an error is the first thing wrong with the replies that a snapshot is made of.
pub open spec fn is_snapshot_fault(
    error: NiriError,
    version: JsonTree,
    outputs: JsonTree,
    windows: JsonTree,
    focused: JsonTree,
) -> bool {
    if version.field("Version"@) is None {
        is_unexpected(error, "Version"@, version)
    } else if text_field(version, "Version"@) is None {
        error == NiriError::VersionNotString
    } else if outputs.field("Outputs"@) is None {
        is_unexpected(error, "Outputs"@, outputs)
    } else if windows.field("Windows"@) is None {
        is_unexpected(error, "Windows"@, windows)
    } else if focused.field("FocusedWindow"@) is None {
        is_unexpected(error, "FocusedWindow"@, focused)
    } else if !(outputs.field("Outputs"@)->0 is Object) {
        error == NiriError::OutputsNotObject
    } else if !(windows.field("Windows"@)->0 is Array) {
        error == NiriError::WindowsNotArray
    } else {
        false
    }
}

/// Whether a snapshot is what the replies say.
pub open spec fn is_snapshot_of(
    snapshot: Snapshot,
    version: JsonTree,
    outputs: JsonTree,
    windows: JsonTree,
    focused: JsonTree,
) -> bool {
    &&& text_field(version, "Version"@) == Some(snapshot.version@)
    &&& outputs.field("Outputs"@) matches Some(JsonTree::Object(fields)) && snapshot.output_count
        == fields.len()
    &&& windows.field("Windows"@) matches Some(JsonTree::Array(items)) && snapshot.window_count
        == items.len()
    &&& focused.field("FocusedWindow"@) matches Some(window) && match snapshot.focused_window {
        None => window is Null,
        Some(words) => !(window is Null) && words@ == window_words(window),
    }
}

/// Makes a snapshot of the replies to `Version`, `Outputs`, `Windows` and `FocusedWindow`.
pub fn snapshot(
    version_reply: &Json,
    outputs_reply: &Json,
    windows_reply: &Json,
    focused_reply: &Json,
) -> (result: Result<Snapshot, NiriError>)
    ensures
        match result {
            Ok(snapshot) => is_snapshot_of(
                snapshot,
                version_reply.tree(),
                outputs_reply.tree(),
                windows_reply.tree(),
                focused_reply.tree(),
            ),
            Err(error) => is_snapshot_fault(
                error,
                version_reply.tree(),
                outputs_reply.tree(),
                windows_reply.tree(),
                focused_reply.tree(),
            ),
        },
{
    let version = match variant(version_reply, "Version") {
        Ok(version) => match version.as_str() {
            Some(words) => words.to_owned(),
            None => return Err(NiriError::VersionNotString),
        },
        Err(error) => return Err(error),
    };
    let outputs = match variant(outputs_reply, "Outputs") {
        Ok(outputs) => outputs,
        Err(error) => return Err(error),
    };
    let windows = match variant(windows_reply, "Windows") {
        Ok(windows) => windows,
        Err(error) => return Err(error),
    };
    let focused = match variant(focused_reply, "FocusedWindow") {
        Ok(focused) => focused,
        Err(error) => return Err(error),
    };
    let focused_window = if focused.is_null() {
        None
    } else {
        Some(window_text(focused))
    };
    let output_count: usize = match outputs.node() {
        JsonNode::Object(fields) => fields.len(),
        _ => return Err(NiriError::OutputsNotObject),
    };
    let window_count: usize = match windows.node() {
        JsonNode::Array(items) => items.len(),
        _ => return Err(NiriError::WindowsNotArray),
    };
    Ok(Snapshot { version, output_count, window_count, focused_window })
}

/// The name of an event: that of its first field.
pub open spec fn event_words(event: JsonTree) -> Seq<char> {
    match event {
        JsonTree::Object(fields) => if fields.len() > 0 {
            fields[0].0
        } else {
            "unknown event"@
        },
        _ => "unknown event"@,
    }
}

/// The name of an event.
pub fn event_name(event: &Json) -> (name: &str)
    ensures
        name@ == event_words(event.tree()),
{
    match event.node() {
        JsonNode::Object(fields) => if fields.len() > 0 {
            assert(event.tree()->Object_0[0].0 == fields@[0].0@);
            fields[0].0.as_str()
        } else {
            "unknown event"
        },
        _ => "unknown event",
    }
}

/// Checks the first line of an event stream.
pub fn check_acknowledgement(line: &str) -> (result: Result<(), NiriError>)
    ensures
        match json::read_tree(line@) {
            None => result == Err::<(), NiriError>(NiriError::Invalid),
            Some(tree) => if !(tree is Object) {
                result == Err::<(), NiriError>(NiriError::NotObject)
            } else if tree.field("Err"@) is Some {
                result matches Err(NiriError::Refused(error)) && error@ == json::written_tree(
                    tree.field("Err"@)->0,
                )
            } else if tree.field("Ok"@) is None {
                result == Err::<(), NiriError>(NiriError::NoResult)
            } else if text_field(tree, "Ok"@) == Some("Handled"@) {
                result is Ok
            } else {
                result matches Err(NiriError::NotHandled(reply)) && reply@ == json::written_tree(
                    tree.field("Ok"@)->0,
                )
            },
        },
{
    match read_reply(line) {
        Ok(value) => match value.as_str() {
            Some(words) => if same(words, "Handled") {
                Ok(())
            } else {
                Err(NiriError::NotHandled(value.text().to_owned()))
            },
            None => Err(NiriError::NotHandled(value.text().to_owned())),
        },
        Err(error) => Err(error),
    }
}

/// The line of an event, written anew.
pub fn event_line(line: &str) -> (text: Result<String, NiriError>)
    ensures
        match json::read_tree(line@) {
            Some(tree) => text matches Ok(text) && text@ == json::written_tree(tree),
            None => text == Err::<String, NiriError>(NiriError::Invalid),
        },
{
    match rewritten(line) {
        Some(text) => Ok(text),
        None => Err(NiriError::Invalid),
    }
}

/// What is said of an event stream that ends too early.
pub fn stream_end(count: usize) -> (words: String)
    ensures
        words@ == "niri event stream ended after "@ + text::decimal(count as nat) + " events"@,
{
    let mut words = "niri event stream ended after ".to_owned();
    push_decimal(&mut words, count as u64);
    words.append(" events");
    words
}

} // verus!
