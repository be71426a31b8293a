//! JSON documents as the library reads and writes them.
//!
//! `Json` is the library's own document type. Text becomes a `Json` and a
//! `Json` becomes text through `serde_json`; what is looked up in a document
//! is looked up here.

use crate::text::{chars_of, str_spells, string_from_chars};
use serde_json::Value;
use vstd::pervasive::unreached;
use vstd::prelude::*;

verus! {

/// A JSON number, by what can be read of it as an integer.
#[derive(Clone, Copy, Debug, PartialEq, Eq)]
pub enum JsonNumber {
    /// An integer that is not negative.
    Unsigned(u64),
    /// An integer written with a minus sign.
    Negative(i64),
    /// A number that is no 64-bit integer. The library reads nothing of it.
    Float,
}

impl JsonNumber {
    /// The number as an `i64`, where it is one.
    pub open spec fn spec_as_i64(self) -> Option<i64> {
        match self {
            JsonNumber::Unsigned(u) => if u <= i64::MAX as u64 {
                Some(u as i64)
            } else {
                None
            },
            JsonNumber::Negative(i) => Some(i),
            JsonNumber::Float => None,
        }
    }

    /// The number as a `u64`, where it is one.
    pub open spec fn spec_as_u64(self) -> Option<u64> {
        match self {
            JsonNumber::Unsigned(u) => Some(u),
            JsonNumber::Negative(i) => if i >= 0 {
                Some(i as u64)
            } else {
                None
            },
            JsonNumber::Float => None,
        }
    }

    /// The number as an `i64`, where it is one.
    pub fn as_i64(&self) -> (r: Option<i64>)
        ensures
            r == self.spec_as_i64(),
    {
        match self {
            JsonNumber::Unsigned(u) => if *u <= 0x7fff_ffff_ffff_ffff {
                Some(*u as i64)
            } else {
                None
            },
            JsonNumber::Negative(i) => Some(*i),
            JsonNumber::Float => None,
        }
    }

    /// The number as a `u64`, where it is one.
    pub fn as_u64(&self) -> (r: Option<u64>)
        ensures
            r == self.spec_as_u64(),
    {
        match self {
            JsonNumber::Unsigned(u) => Some(*u),
            JsonNumber::Negative(i) => if *i >= 0 {
                Some(*i as u64)
            } else {
                None
            },
            JsonNumber::Float => None,
        }
    }
}

/// A JSON document.
#[derive(Debug, PartialEq, Eq)]
pub enum Json {
    Null,
    Bool(bool),
    Number(JsonNumber),
    Text(String),
    Array(Vec<Json>),
    /// The members of an object, in the order in which they are kept.
    Object(Vec<(String, Json)>),
}

/// What a `Json` stands for: the same document over mathematical sequences.
pub enum JsonValue {
    Null,
    Bool(bool),
    Number(JsonNumber),
    Text(Seq<char>),
    Array(Seq<JsonValue>),
    Object(Seq<(Seq<char>, JsonValue)>),
}

/// The value of the item of `items` at position `i`.
pub open spec fn item_value(items: Seq<Json>, i: int) -> JsonValue
    decreases items, 0nat,
{
    if 0 <= i < items.len() {
        json_value(items[i])
    } else {
        JsonValue::Null
    }
}

/// The values of `items`, in order.
pub open spec fn items_value(items: Seq<Json>) -> Seq<JsonValue>
    decreases items, 1nat,
{
    Seq::new(items.len(), |i: int| item_value(items, i))
}

/// The name and value of the member of `members` at position `i`.
pub open spec fn member_value(members: Seq<(String, Json)>, i: int) -> (Seq<char>, JsonValue)
    decreases members, 0nat,
{
    if 0 <= i < members.len() {
        (members[i].0@, json_value(members[i].1))
    } else {
        (Seq::empty(), JsonValue::Null)
    }
}

/// The names and values of `members`, in order.
pub open spec fn members_value(members: Seq<(String, Json)>) -> Seq<(Seq<char>, JsonValue)>
    decreases members, 1nat,
{
    Seq::new(members.len(), |i: int| member_value(members, i))
}

/// The value of a document.
pub open spec fn json_value(j: Json) -> JsonValue
    decreases j,
{
    match j {
        Json::Null => JsonValue::Null,
        Json::Bool(b) => JsonValue::Bool(b),
        Json::Number(n) => JsonValue::Number(n),
        Json::Text(s) => JsonValue::Text(s@),
        Json::Array(items) => JsonValue::Array(items_value(items@)),
        Json::Object(members) => JsonValue::Object(members_value(members@)),
    }
}

impl View for Json {
    type V = JsonValue;

    open spec fn view(&self) -> JsonValue {
        json_value(*self)
    }
}

/// The value of the last member of `members` that is named `key`: where a
/// name is repeated, the later member stands for it, as it does once the
/// document is written.
pub open spec fn lookup(members: Seq<(Seq<char>, JsonValue)>, key: Seq<char>) -> Option<JsonValue>
    decreases members.len(),
{
    if members.len() == 0 {
        None
    } else if members.last().0 == key {
        Some(members.last().1)
    } else {
        lookup(members.drop_last(), key)
    }
}

impl JsonValue {
    /// The member `key` of an object; `None` of anything else, and of an
    /// object without such a member.
    pub open spec fn field(self, key: Seq<char>) -> Option<JsonValue> {
        match self {
            JsonValue::Object(members) => lookup(members, key),
            _ => None,
        }
    }

    /// The characters of a string; `None` of anything else.
    pub open spec fn text(self) -> Option<Seq<char>> {
        match self {
            JsonValue::Text(s) => Some(s),
            _ => None,
        }
    }

    /// A number as an `i64`; `None` of anything else.
    pub open spec fn signed(self) -> Option<i64> {
        match self {
            JsonValue::Number(n) => n.spec_as_i64(),
            _ => None,
        }
    }

    /// A number as a `u64`; `None` of anything else.
    pub open spec fn unsigned(self) -> Option<u64> {
        match self {
            JsonValue::Number(n) => n.spec_as_u64(),
            _ => None,
        }
    }

    /// The characters of the string member `key`.
    pub open spec fn text_field(self, key: Seq<char>) -> Option<Seq<char>> {
        match self.field(key) {
            Some(v) => v.text(),
            None => None,
        }
    }

    /// The member `key` as an `i64`.
    pub open spec fn signed_field(self, key: Seq<char>) -> Option<i64> {
        match self.field(key) {
            Some(v) => v.signed(),
            None => None,
        }
    }

    /// The member `key` as a `u64`.
    pub open spec fn unsigned_field(self, key: Seq<char>) -> Option<u64> {
        match self.field(key) {
            Some(v) => v.unsigned(),
            None => None,
        }
    }
}

impl Json {
    /// The member `key` of an object.
    pub fn get(&self, key: &str) -> (r: Option<&Json>)
        ensures
            match r {
                Some(j) => self@.field(key@) == Some(j@),
                None => self@.field(key@) is None,
            },
    {
        match self {
            Json::Object(members) => {
                let ghost all = members_value(members@);
                let name = chars_of(key);
                let mut i: usize = members.len();
                assert(all.take(all.len() as int) == all);
                while i > 0
                    invariant
                        i <= members.len(),
                        name@ == key@,
                        all == members_value(members@),
                        self@.field(key@) == lookup(all, key@),
                        lookup(all, key@) == lookup(all.take(i as int), key@),
                    decreases i,
                {
                    i -= 1;
                    proof {
                        let front = all.take(i + 1);
                        assert(front.last() == member_value(members@, i as int));
                        assert(front.drop_last() == all.take(i as int));
                    }
                    if str_spells(members[i].0.as_str(), &name) {
                        return Some(&members[i].1);
                    }
                }
                None
            },
            _ => None,
        }
    }

    /// The characters of a string.
    pub fn as_str(&self) -> (r: Option<&str>)
        ensures
            match r {
                Some(s) => self@.text() == Some(s@),
                None => self@.text() is None,
            },
    {
        match self {
            Json::Text(s) => Some(s.as_str()),
            _ => None,
        }
    }

    /// A number as an `i64`.
    pub fn as_i64(&self) -> (r: Option<i64>)
        ensures
            r == self@.signed(),
    {
        match self {
            Json::Number(n) => n.as_i64(),
            _ => None,
        }
    }

    /// A number as a `u64`.
    pub fn as_u64(&self) -> (r: Option<u64>)
        ensures
            r == self@.unsigned(),
    {
        match self {
            Json::Number(n) => n.as_u64(),
            _ => None,
        }
    }

    /// The characters of the string member `key`.
    pub fn str_field(&self, key: &str) -> (r: Option<&str>)
        ensures
            match r {
                Some(s) => self@.text_field(key@) == Some(s@),
                None => self@.text_field(key@) is None,
            },
    {
        match self.get(key) {
            Some(v) => v.as_str(),
            None => None,
        }
    }

    /// The member `key` as an `i64`.
    pub fn i64_field(&self, key: &str) -> (r: Option<i64>)
        ensures
            r == self@.signed_field(key@),
    {
        match self.get(key) {
            Some(v) => v.as_i64(),
            None => None,
        }
    }

    /// The member `key` as a `u64`.
    pub fn u64_field(&self, key: &str) -> (r: Option<u64>)
        ensures
            r == self@.unsigned_field(key@),
    {
        match self.get(key) {
            Some(v) => v.as_u64(),
            None => None,
        }
    }
}

/// The document type of `serde_json`.
#[verifier::external_type_specification]
#[verifier::external_body]
pub struct ExValue(serde_json::Value);

/// The error type of `serde_json`.
#[verifier::external_type_specification]
#[verifier::external_body]
pub struct ExError(serde_json::Error);

/// The document that `serde_json::from_str` reads from a text, `None` where
/// it reports an error.
pub uninterp spec fn parsed(text: Seq<char>) -> Option<JsonValue>;

/// The text that `serde_json::to_string` writes for a document.
pub uninterp spec fn rendered(value: JsonValue) -> Seq<char>;

/// Converts a document of `serde_json`, variant by variant. A number is
/// read through `Number::as_u64` and `Number::as_i64`: one that neither
/// reads is a float. The members of an object come in the order in which
/// its map hands them out, which is the order in which they were put in.
#[verifier::external_body]
fn document_of(v: &Value) -> Json {
    match v {
        Value::Null => Json::Null,
        Value::Bool(b) => Json::Bool(*b),
        Value::Number(n) => Json::Number(match (n.as_u64(), n.as_i64()) {
            (Some(u), _) => JsonNumber::Unsigned(u),
            (None, Some(i)) => JsonNumber::Negative(i),
            (None, None) => JsonNumber::Float,
        }),
        Value::String(s) => Json::Text(s.clone()),
        Value::Array(a) => Json::Array(a.iter().map(document_of).collect()),
        Value::Object(m) => Json::Object(
            m.iter().map(|(k, v)| (k.clone(), document_of(v))).collect(),
        ),
    }
}

/// Converts a document to one of `serde_json`, variant by variant. A float,
/// of which the library holds no value, becomes `null`. The map keeps the
/// members in the order in which they come; of two with one name it keeps
/// the value of the later in the place of the earlier.
#[verifier::external_body]
fn value_of(j: &Json) -> Value {
    match j {
        Json::Null => Value::Null,
        Json::Bool(b) => Value::Bool(*b),
        Json::Number(JsonNumber::Unsigned(u)) => Value::from(*u),
        Json::Number(JsonNumber::Negative(i)) => Value::from(*i),
        Json::Number(JsonNumber::Float) => Value::Null,
        Json::Text(s) => Value::String(s.clone()),
        Json::Array(a) => Value::Array(a.iter().map(value_of).collect()),
        Json::Object(m) => Value::Object(
            m.iter().map(|(k, v)| (k.clone(), value_of(v))).collect(),
        ),
    }
}

/// `serde_json::from_str`, read as a `serde_json::Value`: whether it succeeds
/// and what it reads depend on the text alone, and are called `parsed` of it.
#[verifier::external_body]
fn parse_document(text: &str) -> (r: Result<Json, serde_json::Error>)
    ensures
        match r {
            Ok(j) => parsed(text@) == Some(j@),
            Err(_) => parsed(text@) is None,
        },
{
    serde_json::from_str::<Value>(text).map(|v| document_of(&v))
}

/// `serde_json::to_string` of a `serde_json::Value`. It succeeds: the two
/// failures that it knows, a key that is no string and a type that refuses
/// to be written, do not arise for a `Value`. What it writes depends on the
/// document alone, and is called `rendered` of it.
#[verifier::external_body]
fn render_document(j: &Json) -> (r: Result<String, serde_json::Error>)
    ensures
        match r {
            Ok(s) => s@ == rendered(j@),
            Err(_) => false,
        },
{
    serde_json::to_string(&value_of(j))
}

/// A text that is no JSON document.
#[derive(Clone, Copy, Debug, PartialEq, Eq)]
pub struct JsonError;

impl Json {
    /// Reads a document from `text`.
    pub fn parse(text: &str) -> (r: Result<Json, JsonError>)
        ensures
            match r {
                Ok(j) => parsed(text@) == Some(j@),
                Err(_) => parsed(text@) is None,
            },
    {
        match parse_document(text) {
            Ok(j) => Ok(j),
            Err(_) => Err(JsonError),
        }
    }

    /// Writes the document as text.
    pub fn render(&self) -> (r: String)
        ensures
            r@ == rendered(self@),
    {
        match render_document(self) {
            Ok(s) => s,
            Err(_) => unreached(),
        }
    }
}

/// A string as a document.
pub fn text_document(s: &str) -> (r: Json)
    ensures
        r@ == JsonValue::Text(s@),
{
    let v = chars_of(s);
    Json::Text(string_from_chars(&v))
}

/// A string as a document, and `null` for none.
pub fn optional_text_document(s: Option<&str>) -> (r: Json)
    ensures
        r@ == match s {
            Some(t) => JsonValue::Text(t@),
            None => JsonValue::Null,
        },
{
    match s {
        Some(t) => text_document(t),
        None => Json::Null,
    }
}

/// A number that is not negative as a document.
pub fn unsigned_document(n: u64) -> (r: Json)
    ensures
        r@ == JsonValue::Number(JsonNumber::Unsigned(n)),
{
    Json::Number(JsonNumber::Unsigned(n))
}

/// Members as an object.
pub fn object_document(members: Vec<(String, Json)>) -> (r: Json)
    ensures
        r@ == JsonValue::Object(members_value(members@)),
{
    Json::Object(members)
}

/// Appends a member to the members of an object under construction.
pub fn push_member(members: &mut Vec<(String, Json)>, name: &str, value: Json)
    ensures
        members_value(final(members)@) == members_value(old(members)@).push((name@, value@)),
{
    let ghost before = members@;
    let v = chars_of(name);
    let key = string_from_chars(&v);
    members.push((key, value));
    assert(members_value(members@) =~= members_value(before).push((name@, value@))) by {
        assert(members@ == before.push((key, value)));
        assert forall|i: int| 0 <= i < before.len() implies member_value(members@, i)
            == member_value(before, i) by {}
        assert(member_value(members@, before.len() as int) == (name@, value@));
    }
}

/// No members: the start of an object under construction.
pub fn no_members() -> (members: Vec<(String, Json)>)
    ensures
        members_value(members@) == Seq::<(Seq<char>, JsonValue)>::empty(),
{
    let members: Vec<(String, Json)> = Vec::new();
    assert(members_value(members@) =~= Seq::<(Seq<char>, JsonValue)>::empty());
    members
}

/// Items as an array.
pub fn array_document(items: Vec<Json>) -> (r: Json)
    ensures
        r@ == JsonValue::Array(items_value(items@)),
{
    Json::Array(items)
}

/// Appends an item to the items of an array under construction.
pub fn push_item(items: &mut Vec<Json>, value: Json)
    ensures
        items_value(final(items)@) == items_value(old(items)@).push(value@),
{
    let ghost before = items@;
    items.push(value);
    assert(items_value(items@) =~= items_value(before).push(value@)) by {
        assert(items@ == before.push(value));
        assert forall|i: int| 0 <= i < before.len() implies item_value(items@, i) == item_value(
            before,
            i,
        ) by {}
        assert(item_value(items@, before.len() as int) == value@);
    }
}

/// No items: the start of an array under construction.
pub fn no_items() -> (items: Vec<Json>)
    ensures
        items_value(items@) == Seq::<JsonValue>::empty(),
{
    let items: Vec<Json> = Vec::new();
    assert(items_value(items@) =~= Seq::<JsonValue>::empty());
    items
}

} // verus!
