//! JSON values as plain data. An outside crate reads and writes the text.

use crate::text::same;
use vstd::prelude::*;

verus! {

/// A JSON number: what it is as a signed number, as an unsigned one, and as the bits of a
/// double-precision one.
#[derive(Debug, Clone, Copy, PartialEq, Eq, Structural)]
pub struct JsonNumber {
    pub signed: Option<i64>,
    pub unsigned: Option<u64>,
    pub bits: Option<u64>,
}

/// A JSON value, with the text that it is written as.
pub struct Json {
    node: JsonNode,
    text: String,
}

/// One level of a JSON value.
pub enum JsonNode {
    Null,
    Bool(bool),
    Number(JsonNumber),
    Text(String),
    Array(Vec<Json>),
    Object(Vec<(String, Json)>),
}

/// What a JSON value says.
pub enum JsonTree {
    Null,
    Bool(bool),
    Number(JsonNumber),
    Text(Seq<char>),
    Array(Seq<JsonTree>),
    Object(Seq<(Seq<char>, JsonTree)>),
}

impl Json {
    /// What the value says.
    pub closed spec fn tree(self) -> JsonTree
        decreases self,
    {
        self.node.tree()
    }

    /// The text is that of the value.
    #[verifier::type_invariant]
    spec fn is_written(self) -> bool {
        self.text@ == written_tree(self.tree())
    }
}

impl JsonNode {
    /// What the value says.
    pub open spec fn tree(self) -> JsonTree
        decreases self,
    {
        match self {
            JsonNode::Null => JsonTree::Null,
            JsonNode::Bool(value) => JsonTree::Bool(value),
            JsonNode::Number(number) => JsonTree::Number(number),
            JsonNode::Text(value) => JsonTree::Text(value@),
            JsonNode::Array(items) => JsonTree::Array(
                Seq::new(
                    items@.len(),
                    |i: int|
                        if 0 <= i < items@.len() {
                            items@[i].tree()
                        } else {
                            JsonTree::Null
                        },
                ),
            ),
            JsonNode::Object(fields) => JsonTree::Object(
                Seq::new(
                    fields@.len(),
                    |i: int|
                        if 0 <= i < fields@.len() {
                            (fields@[i].0@, fields@[i].1.tree())
                        } else {
                            (seq![], JsonTree::Null)
                        },
                ),
            ),
        }
    }
}

/// A JSON value of the outside crate.
#[verifier::external_type_specification]
#[verifier::external_body]
pub struct ExValue(serde_json::Value);

/// Why the outside crate could not read or write JSON.
#[verifier::external_type_specification]
#[verifier::external_body]
pub struct ExJsonError(serde_json::Error);

/// What a JSON value of the outside crate holds.
pub uninterp spec fn value_tree(value: serde_json::Value) -> JsonTree;

/// What `serde_json::from_str` reads in a text, if it is JSON.
pub uninterp spec fn read_tree(chars: Seq<char>) -> Option<JsonTree>;

/// Calls `serde_json::from_str`. Which texts are JSON, and what they say, is a function of the
/// text alone; it is named, not stated.
#[verifier::external_body]
fn read_value(source: &str) -> (value: Result<serde_json::Value, serde_json::Error>)
    ensures
        value is Ok <==> read_tree(source@) is Some,
        value matches Ok(value) ==> read_tree(source@) == Some(value_tree(value)),
{
    serde_json::from_str(source)
}

/// What `serde_json::to_string` writes for a value.
pub uninterp spec fn written_tree(tree: JsonTree) -> Seq<char>;

/// Calls `serde_json::to_string` on a value, which never fails: its numbers are finite and its
/// names are strings. The text is a function of what the value holds alone; it is named, not
/// stated.
#[verifier::external_body]
fn write_value(value: &serde_json::Value) -> (written: Result<String, serde_json::Error>)
    ensures
        written matches Ok(written) && written@ == written_tree(value_tree(*value)),
{
    serde_json::to_string(value)
}

/// One level of a JSON value of the outside crate.
pub enum JsonShape {
    Null,
    Bool(bool),
    Number(JsonNumber),
    Text(String),
    Array(Vec<serde_json::Value>),
    Object(Vec<(String, serde_json::Value)>),
}

impl JsonShape {
    /// What the value says.
    pub open spec fn tree(self) -> JsonTree {
        match self {
            JsonShape::Null => JsonTree::Null,
            JsonShape::Bool(value) => JsonTree::Bool(value),
            JsonShape::Number(number) => JsonTree::Number(number),
            JsonShape::Text(value) => JsonTree::Text(value@),
            JsonShape::Array(items) => JsonTree::Array(
                Seq::new(items@.len(), |i: int| value_tree(items@[i])),
            ),
            JsonShape::Object(fields) => JsonTree::Object(
                Seq::new(fields@.len(), |i: int| (fields@[i].0@, value_tree(fields@[i].1))),
            ),
        }
    }
}

/// Takes a `serde_json::Value` apart by its variants. A number is read by `as_i64`, `as_u64` and
/// `as_f64`, and the fields of an object come in the order in which its map hands them out.
#[verifier::external_body]
fn expand(value: serde_json::Value) -> (shape: JsonShape)
    ensures
        shape.tree() == value_tree(value),
{
    match value {
        serde_json::Value::Null => JsonShape::Null,
        serde_json::Value::Bool(value) => JsonShape::Bool(value),
        serde_json::Value::Number(number) => JsonShape::Number(JsonNumber {
            signed: number.as_i64(),
            unsigned: number.as_u64(),
            bits: number.as_f64().map(|value| value.to_bits()),
        }),
        serde_json::Value::String(value) => JsonShape::Text(value),
        serde_json::Value::Array(items) => JsonShape::Array(items),
        serde_json::Value::Object(fields) => JsonShape::Object(fields.into_iter().collect()),
    }
}

fn text_of(value: &serde_json::Value) -> (text: String)
    ensures
        text@ == written_tree(value_tree(*value)),
{
    match write_value(value) {
        Ok(text) => text,
        Err(_) => String::new(),
    }
}

/// Turns a JSON value of the outside crate into plain data.
fn plain(value: serde_json::Value) -> (json: Json)
    ensures
        json.tree() == value_tree(value),
    decreases value_tree(value), 1int,
{
    let text = text_of(&value);
    let node = plain_node(value);
    Json { node, text }
}

fn plain_node(value: serde_json::Value) -> (node: JsonNode)
    ensures
        node.tree() == value_tree(value),
    decreases value_tree(value), 0int,
{
    let ghost whole = value_tree(value);
    match expand(value) {
        JsonShape::Null => JsonNode::Null,
        JsonShape::Bool(value) => JsonNode::Bool(value),
        JsonShape::Number(number) => JsonNode::Number(number),
        JsonShape::Text(value) => JsonNode::Text(value),
        JsonShape::Array(items) => {
            let ghost all = items@;
            let mut plain_items: Vec<Json> = Vec::new();
            for item in it: items
                invariant
                    it.seq() == all,
                    whole == value_tree(value),
                    whole == JsonTree::Array(Seq::new(all.len(), |i: int| value_tree(all[i]))),
                    plain_items@.len() == it.index(),
                    forall|i: int|
                        0 <= i < it.index() ==> (#[trigger] plain_items@[i]).tree() == value_tree(
                            all[i],
                        ),
            {
                proof {
                    assert(whole->Array_0[it.index()] == value_tree(item));
                    assert(decreases_to!(whole => whole->Array_0[it.index()]));
                }
                plain_items.push(plain(item));
            }
            let node = JsonNode::Array(plain_items);
            assert(node.tree()->Array_0 =~= whole->Array_0);
            node
        },
        JsonShape::Object(fields) => {
            let ghost all = fields@;
            let mut plain_fields: Vec<(String, Json)> = Vec::new();
            for field in it: fields
                invariant
                    it.seq() == all,
                    whole == value_tree(value),
                    whole == JsonTree::Object(
                        Seq::new(all.len(), |i: int| (all[i].0@, value_tree(all[i].1))),
                    ),
                    plain_fields@.len() == it.index(),
                    forall|i: int|
                        0 <= i < it.index() ==> (#[trigger] plain_fields@[i]).0@ == all[i].0@
                            && plain_fields@[i].1.tree() == value_tree(all[i].1),
            {
                let (name, item) = field;
                proof {
                    assert(whole->Object_0[it.index()].1 == value_tree(item));
                    assert(decreases_to!(whole => whole->Object_0[it.index()].1));
                }
                plain_fields.push((name, plain(item)));
            }
            let node = JsonNode::Object(plain_fields);
            assert(node.tree()->Object_0 =~= whole->Object_0);
            node
        },
    }
}

/// Reads a JSON text and writes what it says.
pub fn rewritten(source: &str) -> (text: Option<String>)
    ensures
        match read_tree(source@) {
            Some(tree) => text matches Some(text) && text@ == written_tree(tree),
            None => text is None,
        },
{
    match read_value(source) {
        Ok(value) => Some(text_of(&value)),
        Err(_) => None,
    }
}

/// Reads a JSON text.
pub fn parse(source: &str) -> (json: Option<Json>)
    ensures
        match read_tree(source@) {
            Some(tree) => json matches Some(json) && json.tree() == tree,
            None => json is None,
        },
{
    match read_value(source) {
        Ok(value) => Some(plain(value)),
        Err(_) => None,
    }
}

impl JsonTree {
    /// The place of the first field with a name among the first `count` fields.
    pub open spec fn place_in(fields: Seq<(Seq<char>, JsonTree)>, name: Seq<char>, count: int) -> Option<
        int,
    >
        decreases count,
    {
        if count <= 0 {
            None
        } else {
            match Self::place_in(fields, name, count - 1) {
                Some(place) => Some(place),
                None => if fields[count - 1].0 == name {
                    Some(count - 1)
                } else {
                    None
                },
            }
        }
    }

    /// The field of an object with a name.
    pub open spec fn field(self, name: Seq<char>) -> Option<JsonTree> {
        match self {
            JsonTree::Object(fields) => match Self::place_in(fields, name, fields.len() as int) {
                Some(place) => Some(fields[place].1),
                None => None,
            },
            _ => None,
        }
    }

    /// The text of a string.
    pub open spec fn words(self) -> Option<Seq<char>> {
        match self {
            JsonTree::Text(words) => Some(words),
            _ => None,
        }
    }
}

proof fn lemma_place_kept(
    fields: Seq<(Seq<char>, JsonTree)>,
    name: Seq<char>,
    count: int,
    all: int,
)
    requires
        0 <= count <= all,
        JsonTree::place_in(fields, name, count) is Some,
    ensures
        JsonTree::place_in(fields, name, all) == JsonTree::place_in(fields, name, count),
    decreases all - count,
{
    if count < all {
        lemma_place_kept(fields, name, count, all - 1);
    }
}

impl Json {
    /// One level of the value.
    pub fn node(&self) -> (node: &JsonNode)
        ensures
            node.tree() == self.tree(),
    {
        &self.node
    }

    /// The text that the value is written as.
    pub fn text(&self) -> (text: &str)
        ensures
            text@ == written_tree(self.tree()),
    {
        proof {
            use_type_invariant(self);
        }
        self.text.as_str()
    }

    /// The field of an object with a name.
    pub fn get(&self, name: &str) -> (found: Option<&Json>)
        ensures
            match self.tree().field(name@) {
                Some(tree) => found matches Some(json) && json.tree() == tree,
                None => found is None,
            },
    {
        match &self.node {
            JsonNode::Object(fields) => {
                let ghost trees = self.tree()->Object_0;
                let mut i: usize = 0;
                while i < fields.len()
                    invariant
                        i <= fields@.len(),
                        self.node == JsonNode::Object(*fields),
                        trees == self.tree()->Object_0,
                        JsonTree::place_in(trees, name@, i as int) is None,
                    decreases fields@.len() - i,
                {
                    assert(trees[i as int].0 == fields@[i as int].0@);
                    if same(fields[i].0.as_str(), name) {
                        proof {
                            lemma_place_kept(trees, name@, i + 1, trees.len() as int);
                        }
                        return Some(&fields[i].1);
                    }
                    i = i + 1;
                }
                None
            },
            _ => None,
        }
    }

    /// The field of an object with a name, taken out of it.
    pub fn into_field(self, name: &str) -> (found: Option<Json>)
        ensures
            match self.tree().field(name@) {
                Some(tree) => found matches Some(json) && json.tree() == tree,
                None => found is None,
            },
    {
        let ghost whole = self.tree();
        match self.node {
            JsonNode::Object(fields) => {
                let ghost all = fields@;
                let ghost trees = whole->Object_0;
                for field in it: fields
                    invariant
                        it.seq() == all,
                        whole == JsonTree::Object(trees),
                        whole == self.tree(),
                        trees.len() == all.len(),
                        forall|i: int|
                            0 <= i < all.len() ==> (#[trigger] all[i]).0@ == trees[i].0
                                && all[i].1.tree() == trees[i].1,
                        JsonTree::place_in(trees, name@, it.index() as int) is None,
                {
                    let (key, value) = field;
                    assert(all[it.index()].0@ == trees[it.index()].0);
                    if same(key.as_str(), name) {
                        proof {
                            lemma_place_kept(trees, name@, it.index() + 1, trees.len() as int);
                        }
                        return Some(value);
                    }
                }
                None
            },
            _ => None,
        }
    }

    /// The text of a string.
    pub fn as_str(&self) -> (found: Option<&str>)
        ensures
            match self.tree().words() {
                Some(words) => found matches Some(found) && found@ == words,
                None => found is None,
            },
    {
        match &self.node {
            JsonNode::Text(words) => Some(words.as_str()),
            _ => None,
        }
    }

    /// Whether the value is null.
    pub fn is_null(&self) -> (null: bool)
        ensures
            null == (self.tree() is Null),
    {
        match &self.node {
            JsonNode::Null => true,
            _ => false,
        }
    }

    /// Whether the value is an object.
    pub fn is_object(&self) -> (object: bool)
        ensures
            object == (self.tree() is Object),
    {
        match &self.node {
            JsonNode::Object(_) => true,
            _ => false,
        }
    }
}

/// Whether a text needs no escape in JSON.
pub open spec fn unescaped(chars: Seq<char>) -> bool {
    forall|i: int|
        0 <= i < chars.len() ==> #[trigger] chars[i] as u32 >= 0x20 && chars[i] != '"' && chars[i]
            != '\\'
}

/// A hexadecimal digit.
pub open spec fn hex_digit(value: int) -> char {
    if value < 10 {
        (48 + value) as char
    } else {
        (87 + value) as char
    }
}

/// How a character stands in a JSON string.
pub open spec fn escaped_char(c: char) -> Seq<char> {
    if c == '"' || c == '\\' {
        seq!['\\', c]
    } else if c as u32 >= 0x20 {
        seq![c]
    } else if c == '\u{8}' {
        seq!['\\', 'b']
    } else if c == '\t' {
        seq!['\\', 't']
    } else if c == '\n' {
        seq!['\\', 'n']
    } else if c == '\u{c}' {
        seq!['\\', 'f']
    } else if c == '\r' {
        seq!['\\', 'r']
    } else {
        seq!['\\', 'u', '0', '0', hex_digit(c as int / 16), hex_digit(c as int % 16)]
    }
}

/// A text with its escapes.
pub open spec fn escaped_text(chars: Seq<char>) -> Seq<char>
    decreases chars.len(),
{
    if chars.len() == 0 {
        seq![]
    } else {
        escaped_text(chars.drop_last()) + escaped_char(chars.last())
    }
}

/// A text as a JSON string.
pub open spec fn written_string(chars: Seq<char>) -> Seq<char> {
    seq!['"'] + escaped_text(chars) + seq!['"']
}

/// A text without control characters, quotes and backslashes stands in quotes as it is.
pub proof fn lemma_unescaped(chars: Seq<char>)
    requires
        unescaped(chars),
    ensures
        escaped_text(chars) == chars,
        written_string(chars) == seq!['"'] + chars + seq!['"'],
    decreases chars.len(),
{
    if chars.len() > 0 {
        lemma_unescaped(chars.drop_last());
        assert(escaped_char(chars.last()) == seq![chars.last()]);
        assert(chars =~= chars.drop_last() + seq![chars.last()]);
    } else {
        assert(escaped_text(chars) =~= chars);
    }
}

/// Calls `serde_json::to_string` on a string, which never fails: it puts the string in quotes and
/// escapes control characters, quotes and backslashes.
#[verifier::external_body]
fn write_string(source: &str) -> (written: Result<String, serde_json::Error>)
    ensures
        written matches Ok(written) && written@ == written_string(source@),
{
    serde_json::to_string(source)
}

/// Writes a string as JSON.
pub fn string_json(source: &str) -> (written: String)
    ensures
        written@ == written_string(source@),
{
    match write_string(source) {
        Ok(written) => written,
        Err(_) => String::new(),
    }
}

} // verus!
