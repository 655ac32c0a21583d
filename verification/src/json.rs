//! JSON documents as the library reads them.
//!
//! serde_json does the reading; what it read is handed to the library as a
//! `Json` of plain values, and everything the library decides from a
//! document is decided, and proved, over that.

use vstd::prelude::*;

verus! {

/// A JSON number, as the ways it can be read: as an unsigned integer when
/// it is one, as a signed one when it is one, and as the text of its
/// nearest double, which is how a coordinate is kept.
#[derive(Clone, Debug, PartialEq)]
pub struct JsonNumber {
    pub unsigned: Option<u64>,
    pub signed: Option<i64>,
    pub decimal: String,
}

impl JsonNumber {
    /// The same number, held again.
    pub fn duplicate(&self) -> (copy: JsonNumber)
        ensures
            copy == *self,
    {
        JsonNumber { unsigned: self.unsigned, signed: self.signed, decimal: self.decimal.clone() }
    }

    /// Whether the number is zero: its double reads "0", or "-0".
    pub open spec fn reads_as_zero(self) -> bool {
        self.decimal@ == "0"@ || self.decimal@ == "-0"@
    }

    /// Whether the number is zero: its double reads "0", or "-0".
    pub fn is_zero(&self) -> (zero: bool)
        ensures
            zero == self.reads_as_zero(),
    {
        crate::text::same_text(self.decimal.as_str(), "0") || crate::text::same_text(self.decimal.as_str(), "-0")
    }
}

/// A JSON value.
#[derive(Debug)]
pub enum Json {
    Null,
    Bool(bool),
    Number(JsonNumber),
    Text(String),
    Array(Vec<Json>),
    /// An object's members, each key once.
    Object(Vec<(String, Json)>),
}

/// The value of the first member with a key.
pub open spec fn member_of(members: Seq<(String, Json)>, key: Seq<char>) -> Option<Json>
    decreases members.len(),
{
    if members.len() == 0 {
        None
    } else if members[0].0@ == key {
        Some(members[0].1)
    } else {
        member_of(members.drop_first(), key)
    }
}

impl Json {
    /// An object's member by key; nothing for a key it lacks or for a value
    /// that is not an object.
    pub open spec fn member(self, key: Seq<char>) -> Option<Json> {
        match self {
            Json::Object(members) => member_of(members@, key),
            _ => None,
        }
    }

    /// The member's text, when it is a string.
    pub open spec fn text_at(self, key: Seq<char>) -> Option<Seq<char>> {
        match self.member(key) {
            Some(Json::Text(s)) => Some(s@),
            _ => None,
        }
    }

    /// The member's value as the text of a double, when it is a number.
    pub open spec fn decimal_at(self, key: Seq<char>) -> Option<Seq<char>> {
        match self.member(key) {
            Some(Json::Number(n)) => Some(n.decimal@),
            _ => None,
        }
    }

    /// The member's value as an unsigned integer, when it is one.
    pub open spec fn unsigned_at(self, key: Seq<char>) -> Option<u64> {
        match self.member(key) {
            Some(Json::Number(n)) => n.unsigned,
            _ => None,
        }
    }

    /// The member's value as a signed integer, when it is one.
    pub open spec fn signed_at(self, key: Seq<char>) -> Option<i64> {
        match self.member(key) {
            Some(Json::Number(n)) => n.signed,
            _ => None,
        }
    }

    /// The member's value, when it is a number.
    pub open spec fn number_at(self, key: Seq<char>) -> Option<JsonNumber> {
        match self.member(key) {
            Some(Json::Number(n)) => Some(n),
            _ => None,
        }
    }

    /// The member's items, when it is an array; none otherwise.
    pub open spec fn items_at(self, key: Seq<char>) -> Seq<Json> {
        match self.member(key) {
            Some(Json::Array(items)) => items@,
            _ => Seq::empty(),
        }
    }

    /// The member's value as a boolean, when it is one.
    pub open spec fn bool_at(self, key: Seq<char>) -> Option<bool> {
        match self.member(key) {
            Some(Json::Bool(b)) => Some(b),
            _ => None,
        }
    }

    /// An object's member by key.
    pub fn get(&self, key: &str) -> (found: Option<&Json>)
        ensures
            match found {
                Some(v) => self.member(key@) == Some(*v),
                None => self.member(key@) is None,
            },
    {
        match self {
            Json::Object(members) => {
                let mut i: usize = 0;
                assert(members@.subrange(0, members@.len() as int) =~= members@);
                while i < members.len()
                    invariant
                        i <= members@.len(),
                        self.member(key@) == member_of(members@, key@),
                        member_of(members@, key@) == member_of(members@.subrange(i as int, members@.len() as int), key@),
                    decreases members@.len() - i,
                {
                    let ghost rest = members@.subrange(i as int, members@.len() as int);
                    assert(rest.drop_first() =~= members@.subrange(i + 1, members@.len() as int));
                    assert(rest[0] == members@[i as int]);
                    if crate::text::same_text(members[i].0.as_str(), key) {
                        return Some(&members[i].1);
                    }
                    i += 1;
                }
                None
            },
            _ => None,
        }
    }

    /// The text a string value holds.
    pub fn as_str(&self) -> (text: Option<&str>)
        ensures
            match self {
                Json::Text(s) => text matches Some(t) && t@ == s@,
                _ => text is None,
            },
    {
        match self {
            Json::Text(s) => Some(s.as_str()),
            _ => None,
        }
    }

    /// The items of an array value.
    pub fn as_array(&self) -> (items: Option<&Vec<Json>>)
        ensures
            match self {
                Json::Array(a) => items == Some(a),
                _ => items is None,
            },
    {
        match self {
            Json::Array(items) => Some(items),
            _ => None,
        }
    }
}

/// The text of an object's member, when it is a string.
pub fn text_at(value: &Json, key: &str) -> (text: Option<String>)
    ensures
        match text {
            Some(t) => value.text_at(key@) == Some(t@),
            None => value.text_at(key@) is None,
        },
{
    match value.get(key) {
        Some(Json::Text(s)) => Some(s.clone()),
        _ => None,
    }
}

/// An object's member as the text of a double, when it is a number.
pub fn decimal_at(value: &Json, key: &str) -> (text: Option<String>)
    ensures
        match text {
            Some(t) => value.decimal_at(key@) == Some(t@),
            None => value.decimal_at(key@) is None,
        },
{
    match value.get(key) {
        Some(Json::Number(n)) => Some(n.decimal.clone()),
        _ => None,
    }
}

/// An object's member as an unsigned integer, when it is one.
pub fn unsigned_at(value: &Json, key: &str) -> (n: Option<u64>)
    ensures
        n == value.unsigned_at(key@),
{
    match value.get(key) {
        Some(Json::Number(n)) => n.unsigned,
        _ => None,
    }
}

/// An object's member as a signed integer, when it is one.
pub fn signed_at(value: &Json, key: &str) -> (n: Option<i64>)
    ensures
        n == value.signed_at(key@),
{
    match value.get(key) {
        Some(Json::Number(n)) => n.signed,
        _ => None,
    }
}

/// An object's member, when it is a number.
pub fn number_at(value: &Json, key: &str) -> (n: Option<JsonNumber>)
    ensures
        n == value.number_at(key@),
{
    match value.get(key) {
        Some(Json::Number(n)) => Some(n.duplicate()),
        _ => None,
    }
}

/// An object's member's items, when it is an array; none otherwise.
pub fn items_at<'a>(value: &'a Json, key: &str) -> (items: &'a [Json])
    ensures
        items@ == value.items_at(key@),
{
    match value.get(key) {
        Some(Json::Array(items)) => items.as_slice(),
        _ => &[],
    }
}

/// The number at a place in a list: none past its end, for a null, or for
/// anything that is not a number.
pub open spec fn number_in(items: Seq<Json>, index: int) -> Option<JsonNumber> {
    if 0 <= index < items.len() {
        match items[index] {
            Json::Number(n) => Some(n),
            _ => None,
        }
    } else {
        None
    }
}

/// The text at a place in a list: none past its end or for anything that
/// is not a string.
pub open spec fn text_in(items: Seq<Json>, index: int) -> Option<Seq<char>> {
    if 0 <= index < items.len() {
        match items[index] {
            Json::Text(s) => Some(s@),
            _ => None,
        }
    } else {
        None
    }
}

/// The number at a place in a list.
pub fn number_of(items: &[Json], index: usize) -> (n: Option<JsonNumber>)
    ensures
        n == number_in(items@, index as int),
{
    if index < items.len() {
        match &items[index] {
            Json::Number(n) => Some(n.duplicate()),
            _ => None,
        }
    } else {
        None
    }
}

/// The text at a place in a list.
pub fn text_of(items: &[Json], index: usize) -> (text: Option<&str>)
    ensures
        match text {
            Some(t) => text_in(items@, index as int) == Some(t@),
            None => text_in(items@, index as int) is None,
        },
{
    if index < items.len() {
        match &items[index] {
            Json::Text(s) => Some(s.as_str()),
            _ => None,
        }
    } else {
        None
    }
}

/// An object's member as a boolean, when it is one.
pub fn bool_at(value: &Json, key: &str) -> (b: Option<bool>)
    ensures
        b == value.bool_at(key@),
{
    match value.get(key) {
        Some(Json::Bool(b)) => Some(*b),
        _ => None,
    }
}

/// The document serde_json reads from a text, as plain values; nothing
/// when the text is not JSON.
pub uninterp spec fn parsed_json(text: Seq<char>) -> Option<Json>;

/// A JSON reading error, carried as it is and only ever turned into words.
#[verifier::external_type_specification]
#[verifier::external_body]
pub struct ExJsonError(serde_json::Error);

/// A value as serde_json holds it, only ever turned into plain values.
#[verifier::external_type_specification]
#[verifier::external_body]
pub struct ExJsonValue(serde_json::Value);

/// Reads a JSON document.
///
/// Calls `serde_json::from_str` into a `serde_json::Value` and hands the
/// value over as plain values. The contract says only that the outcome is
/// the one the name `parsed_json` gives for the text: a document when the
/// text is JSON, the library's error when it is not. What serde_json
/// accepts is not restated here.
#[verifier::external_body]
pub(crate) fn parse_json(text: &str) -> (doc: Result<Json, serde_json::Error>)
    ensures
        match doc {
            Ok(v) => parsed_json(text@) == Some(v),
            Err(_) => parsed_json(text@) is None,
        },
{
    serde_json::from_str::<serde_json::Value>(text).map(|value| json_from(&value))
}

/// A serde_json value as plain values, member for member and item for item.
#[verifier::external_body]
fn json_from(value: &serde_json::Value) -> Json {
    match value {
        serde_json::Value::Null => Json::Null,
        serde_json::Value::Bool(b) => Json::Bool(*b),
        serde_json::Value::Number(n) => Json::Number(JsonNumber {
            unsigned: n.as_u64(),
            signed: n.as_i64(),
            decimal: n.as_f64().map(|f| f.to_string()).unwrap_or_default(),
        }),
        serde_json::Value::String(s) => Json::Text(s.clone()),
        serde_json::Value::Array(items) => Json::Array(items.iter().map(json_from).collect()),
        serde_json::Value::Object(map) => Json::Object(map.iter().map(|(k, v)| (k.clone(), json_from(v))).collect()),
    }
}

/// What serde_json says went wrong, in words.
///
/// Calls the error's `Display`; nothing is promised of the words.
#[verifier::external_body]
pub(crate) fn error_text(error: &serde_json::Error) -> (text: String) {
    error.to_string()
}

} // verus!
