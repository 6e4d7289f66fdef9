//! JSON documents: the values that replies are read from and the records that requests
//! carry. Reading and writing the text is left to `serde_json`.

use vstd::prelude::*;

use crate::text::{same_text, str_of};

verus! {

/// A JSON number: its value where it is an unsigned or a signed 64-bit integer, and its text.
#[derive(Debug, PartialEq, Eq)]
pub struct JsonNumber {
    pub unsigned: Option<u64>,
    pub signed: Option<i64>,
    pub text: String,
}

/// A JSON value. The members of an object stand in the order in which they are walked.
#[derive(Debug, PartialEq, Eq)]
pub enum Json {
    Null,
    Bool(bool),
    Number(JsonNumber),
    Str(String),
    Array(Vec<Json>),
    Object(Vec<(String, Json)>),
}

/// What a JSON value holds.
pub enum JsonView {
    Null,
    Bool(bool),
    Number { unsigned: Option<u64>, signed: Option<i64>, text: Seq<char> },
    Str(Seq<char>),
    Array(Seq<JsonView>),
    Object(Seq<(Seq<char>, JsonView)>),
}

/// What a JSON value holds, member by member.
pub open spec fn json_view(json: Json) -> JsonView
    decreases json,
{
    match json {
        Json::Null => JsonView::Null,
        Json::Bool(b) => JsonView::Bool(b),
        Json::Number(n) => JsonView::Number {
            unsigned: n.unsigned,
            signed: n.signed,
            text: n.text@,
        },
        Json::Str(s) => JsonView::Str(s@),
        Json::Array(items) => JsonView::Array(
            Seq::new(
                items@.len(),
                |i: int|
                    if 0 <= i < items@.len() {
                        json_view(items@[i])
                    } else {
                        JsonView::Null
                    },
            ),
        ),
        Json::Object(members) => JsonView::Object(
            Seq::new(
                members@.len(),
                |i: int|
                    if 0 <= i < members@.len() {
                        (members@[i].0@, json_view(members@[i].1))
                    } else {
                        (Seq::empty(), JsonView::Null)
                    },
            ),
        ),
    }
}

impl View for Json {
    type V = JsonView;

    open spec fn view(&self) -> JsonView {
        json_view(*self)
    }
}

/// The value of the first member named `key`, or null where there is none.
pub open spec fn lookup(members: Seq<(Seq<char>, JsonView)>, key: Seq<char>) -> JsonView
    decreases members.len(),
{
    if members.len() == 0 {
        JsonView::Null
    } else if members[0].0 == key {
        members[0].1
    } else {
        lookup(members.drop_first(), key)
    }
}

impl JsonView {
    /// The member `key` of an object; null where the value is no object or has no such member.
    pub open spec fn at(self, key: Seq<char>) -> JsonView {
        match self {
            JsonView::Object(members) => lookup(members, key),
            _ => JsonView::Null,
        }
    }

    /// The text of a string.
    pub open spec fn as_str(self) -> Option<Seq<char>> {
        match self {
            JsonView::Str(s) => Some(s),
            _ => None,
        }
    }

    /// The value of a boolean.
    pub open spec fn as_bool(self) -> Option<bool> {
        match self {
            JsonView::Bool(b) => Some(b),
            _ => None,
        }
    }

    /// The value of a number that is an unsigned 64-bit integer.
    pub open spec fn as_u64(self) -> Option<u64> {
        match self {
            JsonView::Number { unsigned, .. } => unsigned,
            _ => None,
        }
    }

    /// The value of a number that is a signed 64-bit integer.
    pub open spec fn as_i64(self) -> Option<i64> {
        match self {
            JsonView::Number { signed, .. } => signed,
            _ => None,
        }
    }

    /// The value of the first member of an object.
    pub open spec fn first_value(self) -> Option<JsonView> {
        match self {
            JsonView::Object(members) => if members.len() > 0 {
                Some(members[0].1)
            } else {
                None
            },
            _ => None,
        }
    }
}

impl Json {
    /// The member `key` of an object; null where the value is no object or has no such member.
    pub fn at<'a>(&'a self, key: &str) -> (member: &'a Json)
        ensures
            member@ == self@.at(key@),
    {
        if let Json::Object(members) = self {
            let ghost all = self@->Object_0;
            let mut i: usize = 0;
            assert(all.skip(0) == all);
            while i < members.len()
                invariant
                    self matches Json::Object(m) && m == members,
                    self@ == JsonView::Object(all),
                    i <= members@.len() == all.len(),
                    lookup(all, key@) == lookup(all.skip(i as int), key@),
                decreases members@.len() - i,
            {
                assert(all[i as int] == (members@[i as int].0@, members@[i as int].1@));
                if same_text(members[i].0.as_str(), key) {
                    return &members[i].1;
                }
                assert(all.skip(i as int).drop_first() == all.skip(i + 1));
                i = i + 1;
            }
        }
        &Json::Null
    }

    /// The text of a string.
    pub fn as_str(&self) -> (text: Option<&str>)
        ensures
            str_of(text) == self@.as_str(),
    {
        match self {
            Json::Str(s) => Some(s.as_str()),
            _ => None,
        }
    }

    /// The value of a boolean.
    pub fn as_bool(&self) -> (value: Option<bool>)
        ensures
            value == self@.as_bool(),
    {
        match self {
            Json::Bool(b) => Some(*b),
            _ => None,
        }
    }

    /// The value of a number that is an unsigned 64-bit integer.
    pub fn as_u64(&self) -> (value: Option<u64>)
        ensures
            value == self@.as_u64(),
    {
        match self {
            Json::Number(n) => n.unsigned,
            _ => None,
        }
    }

    /// The value of a number that is a signed 64-bit integer.
    pub fn as_i64(&self) -> (value: Option<i64>)
        ensures
            value == self@.as_i64(),
    {
        match self {
            Json::Number(n) => n.signed,
            _ => None,
        }
    }

    /// The value of the first member of an object.
    pub fn first_value(&self) -> (value: Option<&Json>)
        ensures
            match value {
                Some(j) => self@.first_value() == Some(j@),
                None => self@.first_value() is None,
            },
    {
        match self {
            Json::Object(members) => if members.len() > 0 {
                Some(&members[0].1)
            } else {
                None
            },
            _ => None,
        }
    }
}

// ---------------------------------------------------------------- reading

/// A parsed document of `serde_json`: a tree of values in nested collections.
#[verifier::external_type_specification]
#[verifier::external_body]
pub struct ExValue(serde_json::Value);

/// What `serde_json` reports of a text that it cannot read.
#[verifier::external_type_specification]
#[verifier::external_body]
pub struct ExError(serde_json::Error);

/// What a document of `serde_json` holds: its scalars, the items of its arrays in order and
/// the members of its objects in the order in which they are walked.
pub uninterp spec fn value_contents(value: serde_json::Value) -> JsonView;

/// The message of an error of `serde_json`.
pub uninterp spec fn error_message(error: serde_json::Error) -> Seq<char>;

/// What `serde_json::from_str` reads in a text, or the message of the error it gives.
pub uninterp spec fn parsed_json(text: Seq<char>) -> Result<JsonView, Seq<char>>;

/// The reading of a text that holds a document.
pub open spec fn read_ok(json: JsonView) -> Result<JsonView, Seq<char>> {
    Ok(json)
}

/// The reading of a text that holds none.
pub open spec fn read_err(message: Seq<char>) -> Result<JsonView, Seq<char>> {
    Err(message)
}

/// `text` is read as the document `json`.
pub open spec fn reads_as(text: Seq<char>, json: JsonView) -> bool {
    parsed_json(text) == read_ok(json)
}

/// The compact text that `serde_json` writes for a document.
pub uninterp spec fn rendered_json(json: JsonView) -> Seq<char>;

/// `serde_json::from_str` into a document: which document comes out, or which error, is a
/// function of the text alone.
#[verifier::external_body]
fn value_from_str(text: &str) -> (value: Result<serde_json::Value, serde_json::Error>)
    ensures
        match value {
            Ok(v) => parsed_json(text@) == read_ok(value_contents(v)),
            Err(e) => parsed_json(text@) == read_err(error_message(e)),
        },
{
    serde_json::from_str(text)
}

/// Moves a document of `serde_json::Value` into a [`Json`], variant by variant. A number is
/// kept as what `Number::as_u64` and `Number::as_i64` give and as its text.
#[verifier::external_body]
fn json_of_value(value: serde_json::Value) -> (json: Json)
    ensures
        json@ == value_contents(value),
{
    match value {
        serde_json::Value::Null => Json::Null,
        serde_json::Value::Bool(b) => Json::Bool(b),
        serde_json::Value::Number(n) => {
            Json::Number(JsonNumber { unsigned: n.as_u64(), signed: n.as_i64(), text: n.to_string() })
        },
        serde_json::Value::String(s) => Json::Str(s),
        serde_json::Value::Array(items) => Json::Array(items.into_iter().map(json_of_value).collect()),
        serde_json::Value::Object(members) => {
            Json::Object(members.into_iter().map(|(k, v)| (k, json_of_value(v))).collect())
        },
    }
}

/// The message of a `serde_json::Error`, as its `Display` writes it.
#[verifier::external_body]
fn error_text(error: &serde_json::Error) -> (text: String)
    ensures
        text@ == error_message(*error),
{
    error.to_string()
}

/// The text of a `serde_json::Value`, as its `Display` writes it: the compact form, which
/// depends on what the document holds alone. An object whose members are strings and
/// booleans is read back from its text as it was.
#[verifier::external_body]
fn value_text(value: &serde_json::Value) -> (text: String)
    ensures
        text@ == rendered_json(value_contents(*value)),
        is_record(value_contents(*value)) ==> reads_as(text@, value_contents(*value)),
{
    value.to_string()
}

/// What a result of reading holds.
pub open spec fn reading(r: Result<Json, String>) -> Result<JsonView, Seq<char>> {
    match r {
        Ok(json) => Ok(json@),
        Err(message) => Err(message@),
    }
}

/// Reads a JSON document, or gives the message of the error in it.
pub fn parse_json(text: &str) -> (json: Result<Json, String>)
    ensures
        reading(json) == parsed_json(text@),
{
    match value_from_str(text) {
        Ok(value) => Ok(json_of_value(value)),
        Err(error) => Err(error_text(&error)),
    }
}

/// A JSON document and its compact text, which a refusal quotes.
#[derive(Debug, PartialEq, Eq)]
pub struct Reply {
    pub json: Json,
    pub text: String,
}

/// Reads a reply, or gives the message of the error in it.
pub fn parse_reply(body: &str) -> (reply: Result<Reply, String>)
    ensures
        match reply {
            Ok(r) => reads_as(body@, r.json@) && r.text@ == rendered_json(r.json@),
            Err(message) => parsed_json(body@) == read_err(message@),
        },
{
    match value_from_str(body) {
        Ok(value) => {
            let text = value_text(&value);
            Ok(Reply { json: json_of_value(value), text })
        },
        Err(error) => Err(error_text(&error)),
    }
}

// ---------------------------------------------------------------- writing

/// A member of a request: a text or a flag.
#[derive(Debug, PartialEq, Eq)]
pub enum Field {
    Text(String),
    Flag(bool),
}

impl View for Field {
    type V = JsonView;

    open spec fn view(&self) -> JsonView {
        match self {
            Field::Text(s) => JsonView::Str(s@),
            Field::Flag(b) => JsonView::Bool(*b),
        }
    }
}

/// The members that a list of fields stands for.
pub open spec fn fields_view(fields: Seq<(String, Field)>) -> Seq<(Seq<char>, JsonView)> {
    fields.map_values(|field: (String, Field)| (field.0@, field.1@))
}

/// An object whose members are strings and booleans.
pub open spec fn is_record(json: JsonView) -> bool {
    match json {
        JsonView::Object(members) => forall|i: int|
            0 <= i < members.len() ==> {
                let value = (#[trigger] members[i]).1;
                value is Str || value is Bool
            },
        _ => false,
    }
}

/// The lexicographic order of texts by their characters.
pub open spec fn text_less(a: Seq<char>, b: Seq<char>) -> bool
    decreases a.len(),
{
    if b.len() == 0 {
        false
    } else if a.len() == 0 {
        true
    } else {
        a[0] < b[0] || (a[0] == b[0] && text_less(a.drop_first(), b.drop_first()))
    }
}

/// Every name is less than all the names behind it.
pub open spec fn names_ascend(members: Seq<(Seq<char>, JsonView)>) -> bool {
    forall|i: int, j: int|
        0 <= i < j < members.len() ==> text_less(
            (#[trigger] members[i]).0,
            (#[trigger] members[j]).0,
        )
}

/// Collects fields into the object of a `serde_json::Value`. Its map walks its members in
/// the order of their names, so fields that come in that order keep it.
#[verifier::external_body]
fn value_of_fields(fields: Vec<(String, Field)>) -> (value: serde_json::Value)
    requires
        names_ascend(fields_view(fields@)),
    ensures
        value_contents(value) == JsonView::Object(fields_view(fields@)),
{
    serde_json::Value::Object(fields.into_iter().map(|(name, field)| match field {
        Field::Text(s) => (name, serde_json::Value::String(s)),
        Field::Flag(b) => (name, serde_json::Value::Bool(b)),
    }).collect())
}

/// The compact text of a record. It reads back as the record.
pub(crate) fn record_text(fields: Vec<(String, Field)>) -> (text: String)
    requires
        names_ascend(fields_view(fields@)),
    ensures
        text@ == rendered_json(JsonView::Object(fields_view(fields@))),
        reads_as(text@, JsonView::Object(fields_view(fields@))),
{
    let value = value_of_fields(fields);
    value_text(&value)
}

// ---------------------------------------------------------------- laws

/// The members of an object are found by name: the first of that name counts, and null stands
/// for one that is not there.
pub proof fn law_member_is_found(
    before: Seq<(Seq<char>, JsonView)>,
    key: Seq<char>,
    value: JsonView,
    after: Seq<(Seq<char>, JsonView)>,
)
    requires
        forall|i: int| 0 <= i < before.len() ==> (#[trigger] before[i]).0 != key,
    ensures
        JsonView::Object(before + seq![(key, value)] + after).at(key) == value,
        JsonView::Object(before).at(key) == JsonView::Null,
    decreases before.len(),
{
    let members = before + seq![(key, value)] + after;
    if before.len() > 0 {
        let tail = before.drop_first();
        assert forall|i: int| 0 <= i < tail.len() implies (#[trigger] tail[i]).0 != key by {
            assert(tail[i] == before[i + 1]);
        }
        law_member_is_found(tail, key, value, after);
        assert(members.drop_first() =~= tail + seq![(key, value)] + after);
        assert(members[0] == before[0]);
        assert(before[0].0 != key);
    } else {
        assert(members[0] == (key, value));
    }
}

/// Only an object has members: anything else has null under every name, and no first one.
pub proof fn law_only_objects_have_members(v: JsonView, key: Seq<char>)
    ensures
        !(v is Object) ==> v.at(key) == JsonView::Null && v.first_value() is None,
        v matches JsonView::Object(members) ==> v.first_value() == (if members.len() > 0 {
            Some(members[0].1)
        } else {
            None
        }),
{
}

/// A scalar is read as what it is and as nothing else.
pub proof fn law_scalars_are_read(v: JsonView, s: Seq<char>, b: bool, n: u64, m: i64)
    ensures
        v.as_str() == Some(s) <==> v == JsonView::Str(s),
        v.as_bool() == Some(b) <==> v == JsonView::Bool(b),
        v.as_u64() == Some(n) <==> v is Number && v->unsigned == Some(n),
        v.as_i64() == Some(m) <==> v is Number && v->signed == Some(m),
{
}

/// What contracts say of a document they say of its own scalars, items and members.
pub proof fn law_document_is_its_parts(
    text: String,
    number: JsonNumber,
    flag: bool,
    items: Vec<Json>,
    members: Vec<(String, Json)>,
)
    ensures
        Json::Null@ == JsonView::Null,
        Json::Bool(flag)@ == JsonView::Bool(flag),
        Json::Str(text)@ == JsonView::Str(text@),
        Json::Number(number)@ == (JsonView::Number {
            unsigned: number.unsigned,
            signed: number.signed,
            text: number.text@,
        }),
        Json::Array(items)@ matches JsonView::Array(seen) && seen.len() == items@.len() && forall|
            i: int,
        |
            0 <= i < seen.len() ==> #[trigger] seen[i] == items@[i]@,
        Json::Object(members)@ matches JsonView::Object(seen) && seen.len() == members@.len()
            && forall|i: int|
            0 <= i < seen.len() ==> #[trigger] seen[i] == (members@[i].0@, members@[i].1@),
{
}

} // verus!
