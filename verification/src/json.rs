//! JSON texts as trees.

use crate::text::{chars_equal, chars_of, texts};
use vstd::prelude::*;

verus! {

/// A JSON value. A number is kept as it is written.
#[derive(Debug)]
pub enum Json {
    Null,
    Bool(bool),
    Number(String),
    Text(String),
    Array(Vec<Json>),
    Object(Vec<(String, Json)>),
}

/// The contents of a [`Json`] value.
pub enum JsonView {
    Null,
    Bool(bool),
    Number(Seq<char>),
    Text(Seq<char>),
    Array(Seq<JsonView>),
    Object(Seq<(Seq<char>, JsonView)>),
}

impl Json {
    pub open spec fn tree(self) -> JsonView
        decreases self,
    {
        match self {
            Json::Null => JsonView::Null,
            Json::Bool(b) => JsonView::Bool(b),
            Json::Number(text) => JsonView::Number(text@),
            Json::Text(text) => JsonView::Text(text@),
            Json::Array(items) => JsonView::Array(
                Seq::new(
                    items@.len(),
                    |i: int|
                        if 0 <= i < items@.len() {
                            items@[i].tree()
                        } else {
                            JsonView::Null
                        },
                ),
            ),
            Json::Object(entries) => JsonView::Object(
                Seq::new(
                    entries@.len(),
                    |i: int|
                        if 0 <= i < entries@.len() {
                            (entries@[i].0@, entries@[i].1.tree())
                        } else {
                            (Seq::empty(), JsonView::Null)
                        },
                ),
            ),
        }
    }
}

/// Why a text is no JSON.
#[derive(Debug, PartialEq, Eq)]
pub struct JsonFailure {
    /// The text ended too early.
    pub eof: bool,
    pub message: String,
}

/// What the JSON parser makes of a text: a value, or whether the text ended too early and
/// the parser's message.
pub uninterp spec fn parsed_json(text: Seq<char>) -> Result<JsonView, (bool, Seq<char>)>;

pub open spec fn json_result(r: Result<Json, JsonFailure>) -> Result<JsonView, (bool, Seq<char>)> {
    match r {
        Ok(value) => Ok(value.tree()),
        Err(failure) => Err((failure.eof, failure.message@)),
    }
}

/// The value of the JSON parser; its variants carry over one for one.
#[verifier::external_type_specification]
#[verifier::external_body]
pub struct ExJsonValue(serde_json::Value);

/// Turns a value of `serde_json` into a [`Json`], variant by variant; the entries of an
/// object come in the order in which `serde_json` walks them. Nothing is claimed of it.
#[verifier::external_body]
fn json_of(value: serde_json::Value) -> Json {
    match value {
        serde_json::Value::Null => Json::Null,
        serde_json::Value::Bool(b) => Json::Bool(b),
        serde_json::Value::Number(n) => Json::Number(n.to_string()),
        serde_json::Value::String(s) => Json::Text(s),
        serde_json::Value::Array(items) => Json::Array(items.into_iter().map(json_of).collect()),
        serde_json::Value::Object(entries) => {
            Json::Object(entries.into_iter().map(|(k, v)| (k, json_of(v))).collect())
        },
    }
}

/// Calls `serde_json::from_str` for a value of any shape. The result depends on the text
/// alone, and is named; an error tells whether the text ended too early.
#[verifier::external_body]
pub(crate) fn parse_json(text: &str) -> (r: Result<Json, JsonFailure>)
    ensures
        json_result(r) == parsed_json(text@),
{
    match serde_json::from_str::<serde_json::Value>(text) {
        Ok(value) => Ok(json_of(value)),
        Err(error) => Err(JsonFailure { eof: error.is_eof(), message: error.to_string() }),
    }
}

/// The JSON text of a value.
pub uninterp spec fn json_text(value: JsonView) -> Seq<char>;

/// Turns a [`Json`] into a value of `serde_json`, variant by variant; a number is read from its
/// text by `serde_json`. Nothing is claimed of it.
#[verifier::external_body]
fn value_of(value: &Json) -> serde_json::Value {
    match value {
        Json::Null => serde_json::Value::Null,
        Json::Bool(b) => serde_json::Value::Bool(*b),
        Json::Number(text) => serde_json::from_str(text).unwrap_or_default(),
        Json::Text(text) => serde_json::Value::String(text.clone()),
        Json::Array(items) => serde_json::Value::Array(items.iter().map(value_of).collect()),
        Json::Object(entries) => serde_json::Value::Object(
            entries.iter().map(|(k, v)| (k.clone(), value_of(v))).collect(),
        ),
    }
}

/// Calls `to_string` of `serde_json`'s value. The text depends on the value alone, and is named.
#[verifier::external_body]
pub(crate) fn write_json(value: &Json) -> (r: String)
    ensures
        r@ == json_text(value.tree()),
{
    value_of(value).to_string()
}

/// The JSON text of a list of texts.
pub uninterp spec fn json_texts(items: Seq<Seq<char>>) -> Seq<char>;

/// The list of texts that a JSON text writes, if it writes one.
pub uninterp spec fn parsed_texts(text: Seq<char>) -> Option<Seq<Seq<char>>>;

/// Calls `serde_json::to_string` for a list of texts. It fails on no such list; the text begins
/// with a bracket, and parsing it gives the list back.
#[verifier::external_body]
pub(crate) fn write_texts(items: &Vec<String>) -> (r: Result<String, String>)
    ensures
        r is Ok,
        r->Ok_0@ == json_texts(texts(items@)),
        r->Ok_0@.len() > 0 && r->Ok_0@[0] == '[',
        parsed_texts(r->Ok_0@) == Some(texts(items@)),
{
    serde_json::to_string(items).map_err(|error| error.to_string())
}

/// Calls `serde_json::from_str` for a list of texts. Whether the text writes one, and which,
/// depends on the text alone, and is named.
#[verifier::external_body]
pub(crate) fn parse_texts(text: &str) -> (r: Option<Vec<String>>)
    ensures
        (match r {
            Some(items) => Some(texts(items@)),
            None => None,
        }) == parsed_texts(text@),
{
    serde_json::from_str::<Vec<String>>(text).ok()
}

/// The position of the first entry with a key, or the number of entries.
pub open spec fn entry_at(entries: Seq<(Seq<char>, JsonView)>, key: Seq<char>) -> int
    decreases entries.len(),
{
    if entries.len() == 0 || entries[0].0 == key {
        0
    } else {
        1 + entry_at(entries.drop_first(), key)
    }
}

/// The member of an object under a key; `Null` where there is none.
pub open spec fn member(value: JsonView, key: Seq<char>) -> JsonView {
    match value {
        JsonView::Object(entries) => {
            let i = entry_at(entries, key);
            if 0 <= i < entries.len() {
                entries[i].1
            } else {
                JsonView::Null
            }
        },
        _ => JsonView::Null,
    }
}

/// The text of a string value.
pub open spec fn text_of(value: JsonView) -> Option<Seq<char>> {
    match value {
        JsonView::Text(text) => Some(text),
        _ => None,
    }
}

/// The items of an array value.
pub open spec fn items_of(value: JsonView) -> Option<Seq<JsonView>> {
    match value {
        JsonView::Array(items) => Some(items),
        _ => None,
    }
}

/// The digits of a number value, as they are written.
pub open spec fn number_of(value: JsonView) -> Option<Seq<char>> {
    match value {
        JsonView::Number(text) => Some(text),
        _ => None,
    }
}

/// The keys and values of a list of entries.
pub open spec fn members(entries: Seq<(String, Json)>) -> Seq<(Seq<char>, JsonView)> {
    Seq::new(entries.len(), |i: int| (entries[i].0@, entries[i].1.tree()))
}

/// Makes an object of entries.
pub fn object(entries: Vec<(String, Json)>) -> (r: Json)
    ensures
        r.tree() == JsonView::Object(members(entries@)),
{
    let r = Json::Object(entries);
    assert(r.tree()->Object_0 =~= members(entries@));
    r
}

pub open spec fn trees(items: Seq<Json>) -> Seq<JsonView> {
    Seq::new(items.len(), |i: int| items[i].tree())
}

proof fn lemma_array(items: Vec<Json>)
    ensures
        Json::Array(items).tree() == JsonView::Array(trees(items@)),
{
    let value = Json::Array(items);
    assert(value.tree()->Array_0 =~= trees(items@));
}

impl Json {
    /// The member of an object under a key.
    pub fn field(&self, key: &str) -> (r: Option<&Json>)
        ensures
            match r {
                Some(value) => value.tree() == member(self.tree(), key@),
                None => member(self.tree(), key@) == JsonView::Null,
            },
    {
        match self {
            Json::Object(entries) => {
                let wanted = chars_of(key);
                let ghost all = self.tree()->Object_0;
                let mut i: usize = 0;
                assert(all.skip(0) =~= all);
                while i < entries.len()
                    invariant
                        i <= entries.len(),
                        wanted@ == key@,
                        *self == Json::Object(*entries),
                        all == self.tree()->Object_0,
                        all.len() == entries.len(),
                        entry_at(all, key@) == i + entry_at(all.skip(i as int), key@),
                    decreases entries.len() - i,
                {
                    assert(all[i as int] == (entries@[i as int].0@, entries@[i as int].1.tree()));
                    assert(all.skip(i as int)[0] == all[i as int]);
                    if chars_equal(&chars_of(&entries[i].0), &wanted) {
                        return Some(&entries[i].1);
                    }
                    assert(all.skip(i as int).drop_first() =~= all.skip(i + 1));
                    i += 1;
                }
                assert(entry_at(all, key@) == entries.len());
                None
            },
            _ => None,
        }
    }

    pub fn as_str(&self) -> (r: Option<&str>)
        ensures
            (match r {
                Some(s) => Some(s@),
                None => None,
            }) == text_of(self.tree()),
    {
        match self {
            Json::Text(text) => Some(text.as_str()),
            _ => None,
        }
    }

    /// The digits of a number value, as they are written.
    pub fn as_number(&self) -> (r: Option<&str>)
        ensures
            (match r {
                Some(s) => Some(s@),
                None => None,
            }) == number_of(self.tree()),
    {
        match self {
            Json::Number(text) => Some(text.as_str()),
            _ => None,
        }
    }

    pub fn as_array(&self) -> (r: Option<&Vec<Json>>)
        ensures
            match r {
                Some(items) => items_of(self.tree()) == Some(trees(items@)),
                None => items_of(self.tree()) is None,
            },
    {
        match self {
            Json::Array(items) => {
                proof {
                    lemma_array(*items);
                }
                Some(items)
            },
            _ => None,
        }
    }

    /// The text of the member under a key, if that is a string.
    pub fn text_at(&self, key: &str) -> (r: Option<&str>)
        ensures
            (match r {
                Some(s) => Some(s@),
                None => None,
            }) == text_of(member(self.tree(), key@)),
    {
        match self.field(key) {
            Some(value) => value.as_str(),
            None => None,
        }
    }

    /// The items of the member under a key, if that is an array.
    pub fn array_at(&self, key: &str) -> (r: Option<&Vec<Json>>)
        ensures
            match r {
                Some(items) => items_of(member(self.tree(), key@)) == Some(trees(items@)),
                None => items_of(member(self.tree(), key@)) is None,
            },
    {
        match self.field(key) {
            Some(value) => value.as_array(),
            None => None,
        }
    }
}

} // verus!
