//! JSON text, written and read by `serde_json`.

use crate::text::{decimal, decimal_text, join, joined};
use vstd::prelude::*;

verus! {

/// The JSON text that `serde_json::to_string` writes for an array of strings.
pub uninterp spec fn json_strings(items: Seq<Seq<char>>) -> Seq<char>;

/// The array of strings that `serde_json::from_str` reads from a JSON text, if
/// it reads one.
pub uninterp spec fn parsed_strings(json: Seq<char>) -> Option<Seq<Seq<char>>>;

/// The JSON text that `serde_json::to_string` writes for one string.
pub uninterp spec fn json_text(text: Seq<char>) -> Seq<char>;

/// `serde_json::to_string` on a vector of strings, which cannot fail. What it
/// writes is read back as the same strings.
#[verifier::external_body]
pub(crate) fn encode_strings(items: &Vec<String>) -> (json: String)
    ensures
        json@ == json_strings(items.deep_view()),
        parsed_strings(json@) == Some(items.deep_view()),
{
    serde_json::to_string(items).expect("strings are always valid JSON")
}

/// `serde_json::from_str` into a vector of strings; `None` stands for its error.
#[verifier::external_body]
pub(crate) fn decode_strings(json: &str) -> (items: Option<Vec<String>>)
    ensures
        items.deep_view() == parsed_strings(json@),
{
    serde_json::from_str::<Vec<String>>(json).ok()
}

/// `serde_json::to_string` on a string, which cannot fail.
#[verifier::external_body]
pub(crate) fn encode_text(text: &str) -> (json: String)
    ensures
        json@ == json_text(text@),
{
    serde_json::to_string(text).expect("a string is always valid JSON")
}

/// What `serde_json` reads under a key of a JSON text: nothing where the text
/// is no JSON, and no string where there is none under that key.
pub uninterp spec fn parsed_field(json: Seq<char>, key: Seq<char>) -> Option<Option<Seq<char>>>;

/// `serde_json::from_str` into a value, and then its `get` and `as_str`.
#[verifier::external_body]
pub(crate) fn decode_field(json: &str, key: &str) -> (field: Option<Option<String>>)
    ensures
        field.deep_view() == parsed_field(json@, key@),
{
    let value: serde_json::Value = serde_json::from_str(json).ok()?;
    Some(value.get(key).and_then(|field| field.as_str()).map(|text| text.to_owned()))
}

/// The number that `serde_json` reads under a key of a JSON text, if it is a
/// natural one that fits.
pub uninterp spec fn parsed_number(json: Seq<char>, key: Seq<char>) -> Option<u64>;

/// `serde_json::from_str` into a value, and then its `get` and `as_u64`.
#[verifier::external_body]
pub(crate) fn decode_number(json: &str, key: &str) -> (number: Option<u64>)
    ensures
        number == parsed_number(json@, key@),
{
    serde_json::from_str::<serde_json::Value>(json).ok()?.get(key)?.as_u64()
}

/// The strings that a JSON text holds; none where it is no array of strings.
pub open spec fn strings_or_none(json: Seq<char>) -> Seq<Seq<char>> {
    match parsed_strings(json) {
        Some(items) => items,
        None => Seq::empty(),
    }
}

/// The strings that a JSON text holds; none where it is no array of strings.
pub fn strings_of(json: &str) -> (items: Vec<String>)
    ensures
        items.deep_view() == strings_or_none(json@),
{
    match decode_strings(json) {
        Some(items) => items,
        None => {
            let items: Vec<String> = Vec::new();
            assert(items.deep_view() =~= Seq::<Seq<char>>::empty());
            items
        },
    }
}

pub open spec fn member() -> spec_fn((Seq<char>, Seq<char>)) -> Seq<char> {
    |field: (Seq<char>, Seq<char>)| json_text(field.0) + ":"@ + field.1
}

/// The JSON text of an object with the given members, each a key and the JSON
/// text of its value.
pub open spec fn json_object(fields: Seq<(Seq<char>, Seq<char>)>) -> Seq<char> {
    "{"@ + joined(fields.map_values(member()), ","@) + "}"@
}

/// The members of a JSON object, as they are put together.
pub struct Fields {
    members: Vec<(String, String)>,
}

impl View for Fields {
    type V = Seq<(Seq<char>, Seq<char>)>;

    closed spec fn view(&self) -> Seq<(Seq<char>, Seq<char>)> {
        self.members.deep_view()
    }
}

impl Fields {
    pub fn new() -> (fields: Fields)
        ensures
            fields@ == Seq::<(Seq<char>, Seq<char>)>::empty(),
    {
        let fields = Fields { members: Vec::new() };
        assert(fields@ =~= Seq::<(Seq<char>, Seq<char>)>::empty());
        fields
    }

    /// Adds a member whose value is the JSON text `json`.
    pub fn raw(self, key: &str, json: &str) -> (fields: Fields)
        ensures
            fields@ == self@.push((key@, json@)),
    {
        let ghost before = self.members.deep_view();
        let field = (key.to_owned(), json.to_owned());
        let mut members = self.members;
        members.push(field);
        assert(members.deep_view() =~= before.push(field.deep_view()));
        Fields { members }
    }

    /// Adds a member whose value is a string.
    pub fn text(self, key: &str, value: &str) -> (fields: Fields)
        ensures
            fields@ == self@.push((key@, json_text(value@))),
    {
        let json = encode_text(value);
        self.raw(key, json.as_str())
    }

    /// Adds a member whose value is a string or null.
    pub fn maybe_text(self, key: &str, value: &Option<String>) -> (fields: Fields)
        ensures
            fields@ == self@.push((key@, maybe_json(value.deep_view()))),
    {
        match value {
            Some(value) => self.text(key, value.as_str()),
            None => self.raw(key, "null"),
        }
    }

    /// Adds a member whose value is a number.
    pub fn number(self, key: &str, value: u64) -> (fields: Fields)
        ensures
            fields@ == self@.push((key@, decimal(value as nat))),
    {
        let json = decimal_text(value);
        self.raw(key, json.as_str())
    }

    /// Adds a member whose value is a truth value.
    pub fn truth(self, key: &str, value: bool) -> (fields: Fields)
        ensures
            fields@ == self@.push((key@, json_bool(value))),
    {
        if value {
            self.raw(key, "true")
        } else {
            self.raw(key, "false")
        }
    }

    /// The object with these members.
    pub fn object(&self) -> (json: String)
        ensures
            json@ == json_object(self@),
    {
        let mut parts: Vec<String> = Vec::new();
        let mut i: usize = 0;
        while i < self.members.len()
            invariant
                i <= self.members.len(),
                parts.len() == i,
                forall|j: int|
                    0 <= j < i ==> #[trigger] parts[j]@ == member()(self.members[j].deep_view()),
            decreases self.members.len() - i,
        {
            let (key, value) = &self.members[i];
            let part = encode_text(key.as_str()).concat(":").concat(value.as_str());
            parts.push(part);
            i += 1;
        }
        assert(parts.deep_view() =~= self@.map_values(member()));
        "{".to_owned().concat(join(&parts, ",").as_str()).concat("}")
    }
}

pub open spec fn json_bool(value: bool) -> Seq<char> {
    if value {
        "true"@
    } else {
        "false"@
    }
}

pub open spec fn maybe_json(value: Option<Seq<char>>) -> Seq<char> {
    match value {
        Some(text) => json_text(text),
        None => "null"@,
    }
}

} // verus!
