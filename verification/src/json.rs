//! JSON documents.

use vstd::prelude::*;
use crate::digest;
use crate::numbers;
use crate::numbers::decimal_text;
use crate::text::same_text;

verus! {

/// A JSON document. A number is kept as its text.
#[derive(Debug)]
pub enum Json {
    Null,
    Bool(bool),
    Number(String),
    Text(String),
    Array(Vec<Json>),
    Object(Vec<(String, Json)>),
}

/// A JSON document as a mathematical value.
pub enum JsonView {
    Null,
    Bool(bool),
    Number(Seq<char>),
    Text(Seq<char>),
    Array(Seq<JsonView>),
    Object(Seq<(Seq<char>, JsonView)>),
}

impl View for Json {
    type V = JsonView;

    open spec fn view(&self) -> JsonView {
        json_view(*self)
    }
}

pub open spec fn json_view(j: Json) -> JsonView
    decreases j,
{
    match j {
        Json::Null => JsonView::Null,
        Json::Bool(b) => JsonView::Bool(b),
        Json::Number(n) => JsonView::Number(n@),
        Json::Text(s) => JsonView::Text(s@),
        Json::Array(items) => JsonView::Array(
            Seq::new(
                items@.len(),
                |i: int|
                    if 0 <= i < items@.len() {
                        json_view(items@[i])
                    } else {
                        JsonView::Null
                    },
            ),
        ),
        Json::Object(fields) => JsonView::Object(
            Seq::new(
                fields@.len(),
                |i: int|
                    if 0 <= i < fields@.len() {
                        (fields@[i].0@, json_view(fields@[i].1))
                    } else {
                        (Seq::empty(), JsonView::Null)
                    },
            ),
        ),
    }
}

/// `serde_json::Value`, carried from the parser to the conversion.
#[verifier::external_type_specification]
#[verifier::external_body]
pub struct ExValue(serde_json::Value);

/// What a `serde_json::Value` holds.
pub uninterp spec fn value_holds(value: serde_json::Value) -> JsonView;

/// The document that a byte string holds, as `serde_json::from_slice` reads it;
/// none where it is no JSON.
pub uninterp spec fn json_of(bytes: Seq<u8>) -> Option<JsonView>;

/// `serde_json::from_slice` into a `serde_json::Value`: the document is a
/// function of the bytes. Which bytes hold which document is not said here.
#[verifier::external_body]
fn read_value(bytes: &[u8]) -> (r: Option<serde_json::Value>)
    ensures
        match r {
            Some(v) => json_of(bytes@) == Some(value_holds(v)),
            None => json_of(bytes@) is None,
        },
{
    serde_json::from_slice::<serde_json::Value>(bytes).ok()
}

/// The variants of a `serde_json::Value`, one for one: the result holds what the
/// value holds.
#[verifier::external_body]
pub(crate) fn document(value: serde_json::Value) -> (r: Json)
    ensures
        r@ == value_holds(value),
{
    match value {
        serde_json::Value::Null => Json::Null,
        serde_json::Value::Bool(b) => Json::Bool(b),
        serde_json::Value::Number(n) => Json::Number(n.to_string()),
        serde_json::Value::String(s) => Json::Text(s),
        serde_json::Value::Array(items) => Json::Array(items.into_iter().map(document).collect()),
        serde_json::Value::Object(fields) => Json::Object(
            fields.into_iter().map(|(name, v)| (name, document(v))).collect(),
        ),
    }
}

pub open spec fn document_view(j: Option<Json>) -> Option<JsonView> {
    match j {
        Some(v) => Some(v@),
        None => None,
    }
}

/// Reads a JSON document; none where the bytes are no JSON.
pub fn parse_json(bytes: &[u8]) -> (r: Option<Json>)
    ensures
        document_view(r) == json_of(bytes@),
{
    match read_value(bytes) {
        Some(v) => Some(document(v)),
        None => None,
    }
}

/// The document that a byte string holds, written out again, as
/// `serde_json::to_vec` writes what `serde_json::from_slice` reads; none where it
/// is no JSON.
pub uninterp spec fn canonical_of(raw: Seq<u8>) -> Option<Seq<u8>>;

/// `serde_json::from_slice` into a `serde_json::Value`, and `serde_json::to_vec` of
/// it: the bytes are a function of the bytes read, and there are some exactly
/// where those are JSON. How the document is written is not said here.
#[verifier::external_body]
pub(crate) fn canonical_bytes(raw: &[u8]) -> (r: Option<Vec<u8>>)
    ensures
        digest::bytes_view(r) == canonical_of(raw@),
        r is Some <==> json_of(raw@) is Some,
{
    serde_json::from_slice::<serde_json::Value>(raw).ok().and_then(|v| serde_json::to_vec(&v).ok())
}

/// The value of a field: that of the first with the name. Only an object has
/// fields.
pub open spec fn field_of(j: JsonView, name: Seq<char>) -> Option<JsonView> {
    match j {
        JsonView::Object(fields) => first_field(fields, name),
        _ => None,
    }
}

pub open spec fn first_field(fields: Seq<(Seq<char>, JsonView)>, name: Seq<char>) -> Option<JsonView>
    decreases fields.len(),
{
    if fields.len() == 0 {
        None
    } else if fields[0].0 == name {
        Some(fields[0].1)
    } else {
        first_field(fields.skip(1), name)
    }
}

/// The text of a document that is a text.
pub open spec fn text_in(j: Option<JsonView>) -> Option<Seq<char>> {
    match j {
        Some(JsonView::Text(s)) => Some(s),
        _ => None,
    }
}

/// A field that holds a text.
pub open spec fn text_field(name: Seq<char>, value: Seq<char>) -> (Seq<char>, JsonView) {
    (name, JsonView::Text(value))
}

/// The documents of a list.
pub open spec fn views_of(docs: Seq<Json>) -> Seq<JsonView> {
    Seq::new(docs.len(), |i: int| docs[i]@)
}

impl Json {
    /// A text.
    pub fn text(s: &str) -> (r: Json)
        ensures
            r@ == JsonView::Text(s@),
    {
        Json::Text(s.to_owned())
    }

    /// A number.
    pub fn number(n: u64) -> (r: Json)
        ensures
            r@ == JsonView::Number(numbers::decimal(n as nat)),
    {
        Json::Number(decimal_text(n))
    }

    /// A list.
    pub fn array(items: Vec<Json>) -> (r: Json)
        ensures
            r@ == JsonView::Array(views_of(items@)),
    {
        let r = Json::Array(items);
        assert(r@->Array_0 =~= views_of(items@));
        r
    }

    /// An object without fields.
    pub fn object() -> (r: Json)
        ensures
            r@ == JsonView::Object(Seq::empty()),
    {
        let r = Json::Object(Vec::new());
        assert(r@->Object_0 =~= Seq::<(Seq<char>, JsonView)>::empty());
        r
    }

    /// The object with one more field behind those it has.
    pub fn field(self, name: &str, value: Json) -> (r: Json)
        requires
            self@ is Object,
        ensures
            r@ == JsonView::Object(self@->Object_0.push((name@, value@))),
    {
        match self {
            Json::Object(fields) => {
                let ghost before = self@->Object_0;
                let mut fields = fields;
                fields.push((name.to_owned(), value));
                let r = Json::Object(fields);
                assert(r@->Object_0 =~= before.push((name@, value@)));
                r
            },
            other => other,
        }
    }

    /// The value of a field.
    pub fn get(&self, name: &str) -> (r: Option<&Json>)
        ensures
            match r {
                Some(v) => field_of(self@, name@) == Some(v@),
                None => field_of(self@, name@) is None,
            },
    {
        match self {
            Json::Object(fields) => {
                let ghost all = self@->Object_0;
                let mut i: usize = 0;
                assert(all.skip(0) =~= all);
                while i < fields.len()
                    invariant
                        i <= fields@.len(),
                        *self matches Json::Object(f) && f == fields,
                        all == self@->Object_0,
                        self@ is Object,
                        all.len() == fields@.len(),
                        first_field(all, name@) == first_field(all.skip(i as int), name@),
                    decreases fields@.len() - i,
                {
                    assert(all.skip(i as int)[0] == all[i as int]);
                    assert(all[i as int] == (fields@[i as int].0@, json_view(fields@[i as int].1)));
                    if same_text(fields[i].0.as_str(), name) {
                        return Some(&fields[i].1);
                    }
                    assert(all.skip(i as int).skip(1) =~= all.skip(i + 1));
                    i += 1;
                }
                None
            },
            _ => None,
        }
    }

    /// The text, where the document is one.
    pub fn as_text(&self) -> (r: Option<&str>)
        ensures
            match r {
                Some(s) => text_in(Some(self@)) == Some(s@),
                None => text_in(Some(self@)) is None,
            },
    {
        match self {
            Json::Text(s) => Some(s.as_str()),
            _ => None,
        }
    }
}

// ---------------------------------------------------------------------------
// Laws
// ---------------------------------------------------------------------------


/// A document is seen as what it is, and a list or an object item by item.
pub proof fn law_documents_are_seen_as_they_are(j: Json, i: int)
    ensures
        j is Null <==> j@ is Null,
        j matches Json::Bool(b) ==> j@ == JsonView::Bool(b),
        j matches Json::Number(n) ==> j@ == JsonView::Number(n@),
        j matches Json::Text(s) ==> j@ == JsonView::Text(s@),
        j matches Json::Array(items) ==> j@ is Array && (j@->Array_0).len() == items@.len() && (0 <= i < items@.len() ==> (
        j@->Array_0)[i] == items@[i]@),
        j matches Json::Object(fields) ==> j@ is Object && (j@->Object_0).len() == fields@.len() && (0 <= i < fields@.len()
            ==> (j@->Object_0)[i] == (fields@[i].0@, fields@[i].1@)),
{
}

/// A field is looked up by its name, the first of that name being the one; only an
/// object has fields, and only a text is read as one.
pub proof fn law_fields_are_found_by_name(
    name: Seq<char>,
    other: Seq<char>,
    value: JsonView,
    rest: Seq<(Seq<char>, JsonView)>,
    j: JsonView,
)
    ensures
        field_of(JsonView::Object(seq![(name, value)] + rest), name) == Some(value),
        name != other ==> field_of(JsonView::Object(seq![(other, value)] + rest), name) == field_of(
            JsonView::Object(rest),
            name,
        ),
        field_of(JsonView::Object(Seq::empty()), name) is None,
        !(j is Object) ==> field_of(j, name) is None,
        text_in(Some(JsonView::Text(name))) == Some(name),
        !(j is Text) ==> text_in(Some(j)) is None,
        text_in(None) is None,
        text_field(name, other) == (name, JsonView::Text(other)),
        document_view(None) is None,
{
    let all = seq![(other, value)] + rest;
    assert(all.skip(1) =~= rest);
    assert(all[0] == (other, value));
    let mine = seq![(name, value)] + rest;
    assert(mine[0] == (name, value));
}

/// A document that is there is seen, and the documents of a list in order.
pub proof fn law_lists_of_documents(docs: Seq<Json>, i: int, j: Json)
    ensures
        document_view(Some(j)) == Some(j@),
        views_of(docs).len() == docs.len(),
        0 <= i < docs.len() ==> views_of(docs)[i] == docs[i]@,
{
}

} // verus!
