//! JSON values, read with the `serde_json` crate.

use vstd::prelude::*;

use crate::text::same_text;

verus! {

/// A JSON value. A number is the text that `serde_json` writes for what it read, so
/// `1e2` is `100.0`.
#[derive(Debug, PartialEq, Eq)]
pub enum Json {
    Null,
    Bool(bool),
    Number(String),
    Text(String),
    Array(Vec<Json>),
    Object(Vec<(String, Json)>),
}

#[verifier::ext_equal]
pub enum JsonView {
    Null,
    Bool(bool),
    Number(Seq<char>),
    Text(Seq<char>),
    Array(Seq<JsonView>),
    Object(Seq<(Seq<char>, JsonView)>),
}

impl Json {
    pub open spec fn tree(self) -> JsonView
        decreases self,
    {
        match self {
            Json::Null => JsonView::Null,
            Json::Bool(b) => JsonView::Bool(b),
            Json::Number(n) => JsonView::Number(n@),
            Json::Text(s) => JsonView::Text(s@),
            Json::Array(items) => JsonView::Array(
                Seq::new(
                    items@.len(),
                    |i: int|
                        if 0 <= i < items@.len() {
                            items@[i].tree()
                        } else {
                            JsonView::Null
                        },
                ),
            ),
            Json::Object(fields) => JsonView::Object(
                Seq::new(
                    fields@.len(),
                    |i: int|
                        if 0 <= i < fields@.len() {
                            (fields@[i].0@, fields@[i].1.tree())
                        } else {
                            (Seq::empty(), JsonView::Null)
                        },
                ),
            ),
        }
    }
}

impl View for Json {
    type V = JsonView;

    open spec fn view(&self) -> JsonView {
        self.tree()
    }
}

pub open spec fn opt_json(json: Option<Json>) -> Option<JsonView> {
    match json {
        Some(json) => Some(json@),
        None => None,
    }
}

/// The value of the first field with a name.
pub open spec fn found(fields: Seq<(Seq<char>, JsonView)>, key: Seq<char>) -> Option<JsonView>
    decreases fields.len(),
{
    if fields.len() == 0 {
        None
    } else if fields[0].0 == key {
        Some(fields[0].1)
    } else {
        found(fields.skip(1), key)
    }
}

impl JsonView {
    /// The field of an object.
    pub open spec fn field(self, key: Seq<char>) -> Option<JsonView> {
        match self {
            JsonView::Object(fields) => found(fields, key),
            _ => None,
        }
    }

    /// The items of an array.
    pub open spec fn items(self) -> Option<Seq<JsonView>> {
        match self {
            JsonView::Array(items) => Some(items),
            _ => None,
        }
    }

    /// The characters of a text.
    pub open spec fn text(self) -> Option<Seq<char>> {
        match self {
            JsonView::Text(s) => Some(s),
            _ => None,
        }
    }

    /// A field of a field.
    pub open spec fn within(self, outer: Seq<char>, inner: Seq<char>) -> Option<JsonView> {
        match self.field(outer) {
            Some(value) => value.field(inner),
            None => None,
        }
    }

    /// A field that is a text.
    pub open spec fn text_at(self, key: Seq<char>) -> Option<Seq<char>> {
        match self.field(key) {
            Some(value) => value.text(),
            None => None,
        }
    }

    /// A field that is an array.
    pub open spec fn items_at(self, key: Seq<char>) -> Option<Seq<JsonView>> {
        match self.field(key) {
            Some(value) => value.items(),
            None => None,
        }
    }
}

pub open spec fn trees(list: Seq<Json>) -> Seq<JsonView> {
    list.map_values(|j: Json| j@)
}

impl Json {
    pub fn get(&self, key: &str) -> (value: Option<&Json>)
        ensures
            match value {
                Some(value) => self@.field(key@) == Some(value@),
                None => self@.field(key@) is None,
            },
    {
        match self {
            Json::Object(fields) => {
                let ghost all = self@->Object_0;
                let mut i: usize = 0;
                assert(all.skip(0) =~= all);
                while i < fields.len()
                    invariant
                        *self == Json::Object(*fields),
                        all == self@->Object_0,
                        i <= fields@.len(),
                        self@.field(key@) == found(all.skip(i as int), key@),
                    decreases fields@.len() - i,
                {
                    proof {
                        assert(all.skip(i as int)[0] == (fields@[i as int].0@, fields@[i as int].1@));
                        assert(all.skip(i as int).skip(1) =~= all.skip(i + 1));
                    }
                    if same_text(fields[i].0.as_str(), key) {
                        return Some(&fields[i].1);
                    }
                    i += 1;
                }
                None
            },
            _ => None,
        }
    }

    pub fn as_array(&self) -> (items: Option<&Vec<Json>>)
        ensures
            match items {
                Some(items) => self@.items() == Some(trees(items@)),
                None => self@.items() is None,
            },
    {
        match self {
            Json::Array(items) => {
                assert(self@->Array_0 =~= trees(items@));
                Some(items)
            },
            _ => None,
        }
    }

    pub fn as_str(&self) -> (s: Option<&str>)
        ensures
            match s {
                Some(s) => self@.text() == Some(s@),
                None => self@.text() is None,
            },
    {
        match self {
            Json::Text(s) => Some(s.as_str()),
            _ => None,
        }
    }

    pub fn get_within(&self, outer: &str, inner: &str) -> (value: Option<&Json>)
        ensures
            match value {
                Some(value) => self@.within(outer@, inner@) == Some(value@),
                None => self@.within(outer@, inner@) is None,
            },
    {
        match self.get(outer) {
            Some(value) => value.get(inner),
            None => None,
        }
    }

    pub fn get_str(&self, key: &str) -> (s: Option<&str>)
        ensures
            match s {
                Some(s) => self@.text_at(key@) == Some(s@),
                None => self@.text_at(key@) is None,
            },
    {
        match self.get(key) {
            Some(value) => value.as_str(),
            None => None,
        }
    }

    pub fn get_array(&self, key: &str) -> (items: Option<&Vec<Json>>)
        ensures
            match items {
                Some(items) => self@.items_at(key@) == Some(trees(items@)),
                None => self@.items_at(key@) is None,
            },
    {
        match self.get(key) {
            Some(value) => value.as_array(),
            None => None,
        }
    }
}

/// A value of the `serde_json` crate.
#[verifier::external_type_specification]
#[verifier::external_body]
pub struct ExValue(serde_json::Value);

/// The value that a text is read as; nothing if it is not JSON.
pub uninterp spec fn parsed(data: Seq<u8>) -> Option<JsonView>;

/// What a value holds.
pub uninterp spec fn contents(value: serde_json::Value) -> JsonView;

/// `serde_json::from_slice`.
#[verifier::external_body]
fn from_slice(data: &[u8]) -> (value: Option<serde_json::Value>)
    ensures
        match value {
            Some(value) => parsed(data@) == Some(contents(value)),
            None => parsed(data@) is None,
        },
{
    serde_json::from_slice(data).ok()
}

/// The variants of `serde_json::Value`, each as its own: arrays in order, the
/// fields of an object in the order of `serde_json::Map::into_iter`, a number as
/// `serde_json::Number` writes it.
#[verifier::external_body]
fn tree_of(value: serde_json::Value) -> (json: Json)
    ensures
        json@ == contents(value),
{
    match value {
        serde_json::Value::Null => Json::Null,
        serde_json::Value::Bool(b) => Json::Bool(b),
        serde_json::Value::Number(n) => Json::Number(n.to_string()),
        serde_json::Value::String(s) => Json::Text(s),
        serde_json::Value::Array(items) => Json::Array(items.into_iter().map(tree_of).collect()),
        serde_json::Value::Object(fields) => Json::Object(
            fields.into_iter().map(|(key, value)| (key, tree_of(value))).collect(),
        ),
    }
}

/// Reads a text as JSON.
pub fn parse(data: &[u8]) -> (json: Option<Json>)
    ensures
        opt_json(json) == parsed(data@),
{
    match from_slice(data) {
        Some(value) => Some(tree_of(value)),
        None => None,
    }
}

/// The character for six bits.
pub open spec fn symbol(bits: int) -> char {
    "ABCDEFGHIJKLMNOPQRSTUVWXYZabcdefghijklmnopqrstuvwxyz0123456789+/"@[bits]
}

/// Bytes in base64: four characters for every three bytes, the last four filled
/// up with `=`.
pub open spec fn base64(data: Seq<u8>) -> Seq<char>
    decreases data.len(),
{
    if data.len() == 0 {
        Seq::empty()
    } else if data.len() == 1 {
        seq![symbol((data[0] / 4) as int), symbol(data[0] % 4 * 16), '=', '=']
    } else if data.len() == 2 {
        seq![
            symbol((data[0] / 4) as int),
            symbol(data[0] % 4 * 16 + data[1] / 16),
            symbol(data[1] % 16 * 4),
            '=',
        ]
    } else {
        seq![
            symbol((data[0] / 4) as int),
            symbol(data[0] % 4 * 16 + data[1] / 16),
            symbol(data[1] % 16 * 4 + data[2] / 64),
            symbol((data[2] % 64) as int),
        ] + base64(data.skip(3))
    }
}

/// Bytes whose base64 text fits in memory.
pub open spec fn encodable(data: Seq<u8>) -> bool {
    data.len() / 3 * 4 + 4 <= isize::MAX
}

/// `base64::Engine::encode` of the standard engine: the standard alphabet, with
/// padding.
#[verifier::external_body]
pub(crate) fn encode(data: &[u8]) -> (text: String)
    requires
        encodable(data@),
    ensures
        text@ == base64(data@),
{
    base64::Engine::encode(&base64::engine::general_purpose::STANDARD, data)
}

/// `std::str::from_utf8`: the text, if the bytes are one.
#[verifier::external_body]
pub(crate) fn text_of(data: &[u8]) -> (text: Option<&str>)
    ensures
        match text {
            Some(text) => vstd::utf8::valid_utf8(data@) && text@ == vstd::utf8::decode_utf8(data@),
            None => !vstd::utf8::valid_utf8(data@),
        },
{
    std::str::from_utf8(data).ok()
}

/// A field is the first one with its name.
pub proof fn a_field_is_the_first_with_its_name(
    fields: Seq<(Seq<char>, JsonView)>,
    key: Seq<char>,
    i: int,
)
    requires
        0 <= i < fields.len(),
        fields[i].0 == key,
        forall|j: int| 0 <= j < i ==> (#[trigger] fields[j]).0 != key,
    ensures
        JsonView::Object(fields).field(key) == Some(fields[i].1),
    decreases i,
{
    if i > 0 {
        let rest = fields.skip(1);
        assert(fields[0].0 != key);
        assert forall|j: int| 0 <= j < i - 1 implies (#[trigger] rest[j]).0 != key by {
            assert(rest[j] == fields[j + 1]);
        }
        assert(rest[i - 1] == fields[i]);
        a_field_is_the_first_with_its_name(rest, key, i - 1);
    }
}

/// A name that no field has leads to nothing.
pub proof fn a_field_that_is_not_there_is_none(
    fields: Seq<(Seq<char>, JsonView)>,
    key: Seq<char>,
)
    requires
        forall|j: int| 0 <= j < fields.len() ==> (#[trigger] fields[j]).0 != key,
    ensures
        JsonView::Object(fields).field(key) is None,
    decreases fields.len(),
{
    if fields.len() > 0 {
        let rest = fields.skip(1);
        assert(fields[0].0 != key);
        assert forall|j: int| 0 <= j < rest.len() implies (#[trigger] rest[j]).0 != key by {
            assert(rest[j] == fields[j + 1]);
        }
        a_field_that_is_not_there_is_none(rest, key);
    }
}

} // verus!
