//! JSON documents as this library holds them: a tree of plain values, with a
//! mathematical model that the contracts of the other modules are stated over.

use crate::text::{integer_text, push_decimal, push_integer, same_text};
use serde_json::Value;
use vstd::prelude::*;

verus! {

/// What a [`JsonNumber`] stands for.
pub enum NumberModel {
    /// A whole number.
    Integer(int),
    /// Any other number: the text it is written with, and whether its value is finite.
    Real { text: Seq<char>, finite: bool },
}

/// What a [`JsonValue`] stands for: the same tree over sequences.
pub enum Json {
    Null,
    Bool(bool),
    Number(NumberModel),
    String(Seq<char>),
    Array(Seq<Json>),
    /// The members in document order, each a key and its value.
    Object(Seq<(Seq<char>, Json)>),
}

/// A JSON number.
///
/// Whole numbers are held exactly. Any other number is held by the text that
/// writes it, together with the fact whether its value is finite, since a
/// number built by a program (unlike one read from a document) may not be.
#[derive(Debug, PartialEq)]
pub enum JsonNumber {
    Unsigned(u64),
    Signed(i64),
    Real { text: String, finite: bool },
}

/// A JSON document or a part of one. An object keeps its members in the order
/// in which they were given. It maps each key to one value: where several
/// members have one key, only the last of them counts, for reading a member
/// as for everything that is written from the object.
#[derive(Debug, PartialEq)]
pub enum JsonValue {
    Null,
    Bool(bool),
    Number(JsonNumber),
    String(String),
    Array(Vec<JsonValue>),
    Object(Vec<(String, JsonValue)>),
}

/// `serde_json::Value`, as `serde_json::from_str` hands it out.
#[verifier::external_type_specification]
#[verifier::external_body]
pub struct ExDocument(serde_json::Value);

/// The tree that a `serde_json::Value` holds: its variants one for one, an
/// object's members in the order in which the value hands them out. A number
/// that `as_u64` or `as_i64` gives is that whole number; any other is the text
/// that its `Display` writes, and finite where `as_f64` gives a value.
pub uninterp spec fn document_tree(document: serde_json::Value) -> Json;

/// What `serde_json::from_str` reads from a text as a `serde_json::Value`, by
/// the tree that the value holds; nothing where it reports an error. A text
/// that writes one key of an object twice is no error to it: the value holds
/// the key once, with the value that was written last.
pub uninterp spec fn parsed_json(text: Seq<char>) -> Option<Json>;

/// Calls `serde_json::from_str` for a `serde_json::Value`. What comes back
/// depends on the text alone: the value that the text writes as one JSON
/// document, or an error.
#[verifier::external_body]
fn read_document(text: &str) -> (r: Result<serde_json::Value, serde_json::Error>)
    ensures
        r matches Ok(document) ==> parsed_json(text@) == Some(document_tree(document)),
        r is Err ==> parsed_json(text@) is None,
{
    serde_json::from_str::<serde_json::Value>(text)
}

/// Copies a `serde_json::Value` into this library's tree, variant by variant.
#[verifier::external_body]
fn tree_of_document(document: &Value) -> (r: JsonValue)
    ensures
        r@ == document_tree(*document),
{
    match document {
        Value::Null => JsonValue::Null,
        Value::Bool(flag) => JsonValue::Bool(*flag),
        Value::Number(n) => JsonValue::Number(
            n.as_u64().map(JsonNumber::Unsigned).or(n.as_i64().map(JsonNumber::Signed)).unwrap_or_else(
                || JsonNumber::Real { text: n.to_string(), finite: n.as_f64().is_some() },
            ),
        ),
        Value::String(text) => JsonValue::String(text.clone()),
        Value::Array(items) => JsonValue::Array(items.iter().map(tree_of_document).collect()),
        Value::Object(members) => JsonValue::Object(
            members.iter().map(|(k, v)| (k.clone(), tree_of_document(v))).collect(),
        ),
    }
}

/// What a tree that may be missing stands for.
pub open spec fn tree_view(tree: Option<JsonValue>) -> Option<Json> {
    match tree {
        Some(tree) => Some(tree@),
        None => None,
    }
}

/// Reads a text as one JSON document. Nothing comes back where the text is
/// not one. Where the text writes one key of an object twice, the object has
/// the key once, with the value that was written last.
pub fn parse_json(text: &str) -> (r: Option<JsonValue>)
    ensures
        tree_view(r) == parsed_json(text@),
{
    match read_document(text) {
        Ok(document) => Some(tree_of_document(&document)),
        Err(_) => None,
    }
}

/// What each value of a list stands for.
pub open spec fn views(list: Seq<JsonValue>) -> Seq<Json> {
    list.map_values(|value: JsonValue| value@)
}

impl View for JsonNumber {
    type V = NumberModel;

    open spec fn view(&self) -> NumberModel {
        match self {
            JsonNumber::Unsigned(n) => NumberModel::Integer(*n as int),
            JsonNumber::Signed(n) => NumberModel::Integer(*n as int),
            JsonNumber::Real { text, finite } => NumberModel::Real { text: text@, finite: *finite },
        }
    }
}

impl View for JsonValue {
    type V = Json;

    open spec fn view(&self) -> Json
        decreases self,
    {
        match self {
            JsonValue::Null => Json::Null,
            JsonValue::Bool(b) => Json::Bool(*b),
            JsonValue::Number(n) => Json::Number(n@),
            JsonValue::String(s) => Json::String(s@),
            JsonValue::Array(items) => Json::Array(
                Seq::new(
                    items@.len(),
                    |i: int|
                        if 0 <= i < items@.len() {
                            items@[i].view()
                        } else {
                            Json::Null
                        },
                ),
            ),
            JsonValue::Object(members) => Json::Object(
                Seq::new(
                    members@.len(),
                    |i: int|
                        (
                            members@[i].0@,
                            if 0 <= i < members@.len() {
                                members@[i].1.view()
                            } else {
                                Json::Null
                            },
                        ),
                ),
            ),
        }
    }
}

/// The value of the last of the first `n` members that has this key.
pub open spec fn last_member(members: Seq<(Seq<char>, Json)>, key: Seq<char>, n: nat) -> Option<
    Json,
>
    decreases n,
{
    if n == 0 || n > members.len() {
        None
    } else if members[n - 1].0 == key {
        Some(members[n - 1].1)
    } else {
        last_member(members, key, (n - 1) as nat)
    }
}

/// Whether the member at `at` counts: no later member has its key. An object
/// maps each key to one value, so of members with one key only the last
/// counts.
pub open spec fn is_last_of_key(members: Seq<(Seq<char>, Json)>, at: int) -> bool {
    forall|later: int|
        at < later < members.len() ==> (#[trigger] members[later]).0 != members[at].0
}

impl Json {
    /// The member of an object that has this key; where several have it, the
    /// last of them. Nothing has a member but an object.
    pub open spec fn member(self, key: Seq<char>) -> Option<Json> {
        match self {
            Json::Object(members) => last_member(members, key, members.len()),
            _ => None,
        }
    }

    /// The text of a string.
    pub open spec fn as_text(self) -> Option<Seq<char>> {
        match self {
            Json::String(text) => Some(text),
            _ => None,
        }
    }

    /// The truth value of a boolean.
    pub open spec fn as_bool(self) -> Option<bool> {
        match self {
            Json::Bool(flag) => Some(flag),
            _ => None,
        }
    }

    /// The elements of an array.
    pub open spec fn as_array(self) -> Option<Seq<Json>> {
        match self {
            Json::Array(items) => Some(items),
            _ => None,
        }
    }

    /// The whole number that the value is, if it is one.
    pub open spec fn as_integer(self) -> Option<int> {
        match self {
            Json::Number(NumberModel::Integer(i)) => Some(i),
            _ => None,
        }
    }
}

impl NumberModel {
    /// Whether the number's value is finite. A whole number always is.
    pub open spec fn is_finite(self) -> bool {
        match self {
            NumberModel::Integer(_) => true,
            NumberModel::Real { finite, .. } => finite,
        }
    }

    /// The text that writes the number: a whole number in decimal, any other
    /// number as it was given.
    pub open spec fn text(self) -> Seq<char> {
        match self {
            NumberModel::Integer(i) => integer_text(i),
            NumberModel::Real { text, .. } => text,
        }
    }
}

impl JsonNumber {
    /// Whether the number's value is finite.
    pub fn is_finite(&self) -> (r: bool)
        ensures
            r == self@.is_finite(),
    {
        match self {
            JsonNumber::Real { finite, .. } => *finite,
            _ => true,
        }
    }

    /// The text that writes the number.
    pub fn to_text(&self) -> (r: String)
        ensures
            r@ == self@.text(),
    {
        match self {
            JsonNumber::Unsigned(n) => {
                let mut out = String::new();
                push_decimal(&mut out, *n);
                assert(out@ =~= self@.text());
                out
            },
            JsonNumber::Signed(i) => {
                let mut out = String::new();
                push_integer(&mut out, *i);
                assert(out@ =~= self@.text());
                out
            },
            JsonNumber::Real { text, .. } => text.clone(),
        }
    }
}

impl Clone for JsonNumber {
    fn clone(&self) -> (r: Self)
        ensures
            r@ == self@,
    {
        match self {
            JsonNumber::Unsigned(n) => JsonNumber::Unsigned(*n),
            JsonNumber::Signed(n) => JsonNumber::Signed(*n),
            JsonNumber::Real { text, finite } => JsonNumber::Real {
                text: text.clone(),
                finite: *finite,
            },
        }
    }
}

impl JsonValue {
    /// Whether the value is `null`.
    pub fn is_null(&self) -> (r: bool)
        ensures
            r == (self@ is Null),
    {
        match self {
            JsonValue::Null => true,
            _ => false,
        }
    }

    /// The member of an object that has this key; where several have it, the
    /// last of them.
    pub fn get(&self, key: &str) -> (r: Option<&JsonValue>)
        ensures
            match r {
                Some(value) => self@.member(key@) == Some(value@),
                None => self@.member(key@) is None,
            },
    {
        match self {
            JsonValue::Object(members) => {
                let ghost fields = self@->Object_0;
                let mut n: usize = members.len();
                while n > 0
                    invariant
                        n <= members.len(),
                        self@ == Json::Object(fields),
                        fields.len() == members.len(),
                        forall|i: int|
                            0 <= i < members.len() ==> (#[trigger] fields[i]) == (
                                members@[i].0@,
                                members@[i].1@,
                            ),
                        last_member(fields, key@, members.len() as nat) == last_member(
                            fields,
                            key@,
                            n as nat,
                        ),
                    decreases n,
                {
                    assert(fields[n - 1] == (members@[n - 1].0@, members@[n - 1].1@));
                    if same_text(members[n - 1].0.as_str(), key) {
                        return Some(&members[n - 1].1);
                    }
                    n -= 1;
                }
                None
            },
            _ => None,
        }
    }

    /// Whether the member at `at` counts: no later member has its key.
    pub(crate) fn member_counts(members: &Vec<(String, JsonValue)>, at: usize) -> (r: bool)
        requires
            at < members.len(),
        ensures
            r == (forall|later: int|
                at < later < members.len() ==> (#[trigger] members@[later]).0@
                    != members@[at as int].0@),
    {
        let mut later: usize = at + 1;
        while later < members.len()
            invariant
                at < later <= members.len(),
                forall|j: int| at < j < later ==> (#[trigger] members@[j]).0@ != members@[at as int].0@,
            decreases members.len() - later,
        {
            if same_text(members[later].0.as_str(), members[at].0.as_str()) {
                return false;
            }
            later += 1;
        }
        true
    }

    /// The text of a string.
    pub fn as_str(&self) -> (r: Option<&str>)
        ensures
            match r {
                Some(text) => self@.as_text() == Some(text@),
                None => self@.as_text() is None,
            },
    {
        match self {
            JsonValue::String(text) => Some(text.as_str()),
            _ => None,
        }
    }

    /// The truth value of a boolean.
    pub fn as_bool(&self) -> (r: Option<bool>)
        ensures
            r == self@.as_bool(),
    {
        match self {
            JsonValue::Bool(flag) => Some(*flag),
            _ => None,
        }
    }

    /// The elements of an array.
    pub fn as_array(&self) -> (r: Option<&Vec<JsonValue>>)
        ensures
            match r {
                Some(items) => self@.as_array() == Some(views(items@)),
                None => self@.as_array() is None,
            },
    {
        match self {
            JsonValue::Array(items) => {
                assert(self@->Array_0 =~= views(items@));
                Some(items)
            },
            _ => None,
        }
    }

    /// The value as a `u64`, if it is a whole number in that range.
    pub fn as_u64(&self) -> (r: Option<u64>)
        ensures
            match self@.as_integer() {
                Some(i) if 0 <= i <= u64::MAX => r == Some(i as u64),
                _ => r is None,
            },
    {
        match self {
            JsonValue::Number(JsonNumber::Unsigned(n)) => Some(*n),
            JsonValue::Number(JsonNumber::Signed(i)) => if *i >= 0 {
                Some(*i as u64)
            } else {
                None
            },
            _ => None,
        }
    }

    /// The value as an `i32`, if it is a whole number in that range.
    pub fn as_i32(&self) -> (r: Option<i32>)
        ensures
            match self@.as_integer() {
                Some(i) if i32::MIN <= i <= i32::MAX => r == Some(i as i32),
                _ => r is None,
            },
    {
        match self {
            JsonValue::Number(JsonNumber::Unsigned(n)) => if *n <= 0x7fff_ffff {
                Some(*n as i32)
            } else {
                None
            },
            JsonValue::Number(JsonNumber::Signed(i)) => if -0x8000_0000 <= *i && *i
                <= 0x7fff_ffff {
                Some(*i as i32)
            } else {
                None
            },
            _ => None,
        }
    }

    /// Whether the value is an object.
    pub fn is_object(&self) -> (r: bool)
        ensures
            r == (self@ is Object),
    {
        match self {
            JsonValue::Object(_) => true,
            _ => false,
        }
    }
}

impl Clone for JsonValue {
    #[verifier::loop_isolation(false)]
    fn clone(&self) -> (r: Self)
        ensures
            r@ == self@,
        decreases self,
    {
        match self {
            JsonValue::Null => JsonValue::Null,
            JsonValue::Bool(b) => JsonValue::Bool(*b),
            JsonValue::Number(n) => JsonValue::Number(n.clone()),
            JsonValue::String(s) => JsonValue::String(s.clone()),
            JsonValue::Array(items) => {
                let mut copy: Vec<JsonValue> = Vec::new();
                let mut i: usize = 0;
                while i < items.len()
                    invariant
                        i <= items.len(),
                        copy.len() == i,
                        forall|j: int| 0 <= j < i ==> copy@[j]@ == items@[j]@,
                    decreases items.len() - i,
                {
                    copy.push(items[i].clone());
                    i += 1;
                }
                let r = JsonValue::Array(copy);
                assert(r@->Array_0 =~= self@->Array_0);
                r
            },
            JsonValue::Object(members) => {
                let mut copy: Vec<(String, JsonValue)> = Vec::new();
                let mut i: usize = 0;
                while i < members.len()
                    invariant
                        i <= members.len(),
                        copy.len() == i,
                        forall|j: int|
                            0 <= j < i ==> copy@[j].0@ == members@[j].0@ && copy@[j].1@
                                == members@[j].1@,
                    decreases members.len() - i,
                {
                    copy.push((members[i].0.clone(), members[i].1.clone()));
                    i += 1;
                }
                let r = JsonValue::Object(copy);
                assert(r@->Object_0 =~= self@->Object_0);
                r
            },
        }
    }
}

} // verus!
