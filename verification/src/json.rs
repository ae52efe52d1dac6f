//! JSON documents as plain values.

use vstd::prelude::*;

use crate::text::same;
use crate::views::{group_views, opt, views};

verus! {

broadcast use group_views;

/// A JSON value. A number is held where it is a whole one that fits, and else only known to be one.
#[derive(Debug, PartialEq, Eq)]
pub enum Json {
    Null,
    Bool(bool),
    Number(Option<u64>),
    Text(String),
    List(Vec<Json>),
    Object(Vec<JsonField>),
}

/// One field of an object.
#[derive(Debug, PartialEq, Eq)]
pub struct JsonField {
    pub name: String,
    pub value: Json,
}

#[verifier::ext_equal]
pub enum JsonView {
    Null,
    Bool(bool),
    Number(Option<u64>),
    Text(Seq<char>),
    List(Seq<JsonView>),
    Object(Seq<JsonFieldView>),
}

#[verifier::ext_equal]
pub struct JsonFieldView {
    pub name: Seq<char>,
    pub value: JsonView,
}

/// The model of a value.
pub open spec fn json_view(j: Json) -> JsonView
    decreases j,
{
    match j {
        Json::Null => JsonView::Null,
        Json::Bool(b) => JsonView::Bool(b),
        Json::Number(n) => JsonView::Number(n),
        Json::Text(s) => JsonView::Text(s@),
        Json::List(v) => JsonView::List(
            Seq::new(
                v@.len(),
                |i: int|
                    if 0 <= i < v.len() {
                        json_view(v[i])
                    } else {
                        JsonView::Null
                    },
            ),
        ),
        Json::Object(v) => JsonView::Object(
            Seq::new(
                v@.len(),
                |i: int|
                    if 0 <= i < v.len() {
                        JsonFieldView { name: v[i].name@, value: json_view(v[i].value) }
                    } else {
                        JsonFieldView { name: Seq::empty(), value: JsonView::Null }
                    },
            ),
        ),
    }
}

impl View for Json {
    type V = JsonView;

    open spec fn view(&self) -> JsonView {
        json_view(*self)
    }
}

impl View for JsonField {
    type V = JsonFieldView;

    open spec fn view(&self) -> JsonFieldView {
        JsonFieldView { name: self.name@, value: self.value@ }
    }
}

pub proof fn lemma_list_view(v: Vec<Json>)
    ensures
        Json::List(v)@ == JsonView::List(views(v@)),
{
    assert(Json::List(v)@->List_0 =~= views(v@));
}

pub proof fn lemma_object_view(v: Vec<JsonField>)
    ensures
        Json::Object(v)@ == JsonView::Object(views(v@)),
{
    assert(Json::Object(v)@->Object_0 =~= views(v@));
}

#[verifier::external_type_specification]
#[verifier::external_body]
pub struct ExJsonValue(serde_json::Value);

/// What a parsed document holds.
pub uninterp spec fn json_tree(value: serde_json::Value) -> JsonView;

/// What `serde_json::from_str` reads from a text as a `serde_json::Value`: nothing where the text
/// is no JSON.
pub uninterp spec fn json_text(text: Seq<char>) -> Option<JsonView>;

/// One level of a parsed document.
pub enum Shape<'a> {
    Null,
    Bool(bool),
    Number(Option<u64>),
    Text(&'a String),
    List(&'a Vec<serde_json::Value>),
    Object(Vec<(&'a String, &'a serde_json::Value)>),
}

/// Calls `serde_json::from_str` for a `serde_json::Value`: the contract names what it returns.
#[verifier::external_body]
fn read_value(text: &str) -> (r: Option<serde_json::Value>)
    ensures
        match r {
            Some(v) => json_text(text@) == Some(json_tree(v)),
            None => json_text(text@) is None,
        },
{
    serde_json::from_str::<serde_json::Value>(text).ok()
}

/// Tells the variants of `serde_json::Value` apart: `Number::as_u64` says whether a number is a whole
/// one that fits, and `Map::iter` lists the fields of an object. The contract says that each level
/// of a document holds the documents below it.
#[verifier::external_body]
fn shape_of(value: &serde_json::Value) -> (r: Shape<'_>)
    ensures
        match r {
            Shape::Null => json_tree(*value) == JsonView::Null,
            Shape::Bool(b) => json_tree(*value) == JsonView::Bool(b),
            Shape::Number(n) => json_tree(*value) == JsonView::Number(n),
            Shape::Text(s) => json_tree(*value) == JsonView::Text(s@),
            Shape::List(a) => json_tree(*value) == JsonView::List(
                Seq::new(a@.len(), |i: int| json_tree(a@[i])),
            ),
            Shape::Object(f) => json_tree(*value) == JsonView::Object(
                Seq::new(
                    f@.len(),
                    |i: int| (JsonFieldView { name: f@[i].0@, value: json_tree(*f@[i].1) }),
                ),
            ),
        },
{
    match value {
        serde_json::Value::Null => Shape::Null,
        serde_json::Value::Bool(b) => Shape::Bool(*b),
        serde_json::Value::Number(n) => Shape::Number(n.as_u64()),
        serde_json::Value::String(s) => Shape::Text(s),
        serde_json::Value::Array(a) => Shape::List(a),
        serde_json::Value::Object(m) => Shape::Object(m.iter().collect()),
    }
}

/// Takes a parsed document over as plain values.
fn plain(value: &serde_json::Value) -> (r: Json)
    ensures
        r@ == json_tree(*value),
    decreases json_tree(*value),
{
    let ghost tree = json_tree(*value);
    match shape_of(value) {
        Shape::Null => Json::Null,
        Shape::Bool(b) => Json::Bool(b),
        Shape::Number(n) => Json::Number(n),
        Shape::Text(s) => Json::Text(s.clone()),
        Shape::List(a) => {
            let ghost below = tree->List_0;
            let mut v: Vec<Json> = Vec::new();
            let mut i: usize = 0;
            while i < a.len()
                invariant
                    i <= a@.len(),
                    tree == json_tree(*value),
                    tree is List,
                    below == tree->List_0,
                    below.len() == a@.len(),
                    forall|j: int| 0 <= j < a@.len() ==> below[j] == json_tree(#[trigger] a@[j]),
                    v@.len() == i,
                    forall|j: int| 0 <= j < i ==> #[trigger] views(v@)[j] == below[j],
                decreases a@.len() - i,
            {
                let ghost sub = json_tree(a@[i as int]);
                assert(sub == below[i as int]);
                assert(decreases_to!(tree => tree->List_0));
                assert(decreases_to!(below => below[i as int]));
                v.push(plain(&a[i]));
                i = i + 1;
            }
            assert(views(v@) =~= below);
            proof {
                lemma_list_view(v);
            }
            Json::List(v)
        },
        Shape::Object(f) => {
            let ghost below = tree->Object_0;
            let mut v: Vec<JsonField> = Vec::new();
            let mut i: usize = 0;
            while i < f.len()
                invariant
                    i <= f@.len(),
                    tree == json_tree(*value),
                    tree is Object,
                    below == tree->Object_0,
                    below.len() == f@.len(),
                    forall|j: int|
                        0 <= j < f@.len() ==> below[j] == (JsonFieldView {
                            name: (#[trigger] f@[j]).0@,
                            value: json_tree(*f@[j].1),
                        }),
                    v@.len() == i,
                    forall|j: int| 0 <= j < i ==> #[trigger] views(v@)[j] == below[j],
                decreases f@.len() - i,
            {
                let ghost sub = json_tree(*f@[i as int].1);
                assert(sub == below[i as int].value);
                assert(decreases_to!(tree => tree->Object_0));
                assert(decreases_to!(below => below[i as int]));
                assert(decreases_to!(below[i as int] => below[i as int].value));
                let (name, inner) = f[i];
                v.push(JsonField { name: name.clone(), value: plain(inner) });
                i = i + 1;
            }
            assert(views(v@) =~= below);
            proof {
                lemma_object_view(v);
            }
            Json::Object(v)
        },
    }
}

/// Reads a JSON document.
pub fn parse_json(text: &str) -> (r: Option<Json>)
    ensures
        opt(r) == json_text(text@),
{
    match read_value(text) {
        Some(v) => Some(plain(&v)),
        None => None,
    }
}

/// The value of the first field of a name from `i` on.
pub open spec fn field_from(fields: Seq<JsonFieldView>, name: Seq<char>, i: int) -> Option<JsonView>
    decreases fields.len() - i,
{
    if i < 0 || i >= fields.len() {
        None
    } else if fields[i].name == name {
        Some(fields[i].value)
    } else {
        field_from(fields, name, i + 1)
    }
}

impl JsonView {
    /// The field of a name, where the value is an object that has it.
    pub open spec fn field(self, name: Seq<char>) -> Option<JsonView> {
        match self {
            JsonView::Object(fields) => field_from(fields, name, 0),
            _ => None,
        }
    }

    pub open spec fn text(self) -> Option<Seq<char>> {
        match self {
            JsonView::Text(s) => Some(s),
            _ => None,
        }
    }

    pub open spec fn number(self) -> Option<u64> {
        match self {
            JsonView::Number(n) => n,
            _ => None,
        }
    }

    pub open spec fn list(self) -> Option<Seq<JsonView>> {
        match self {
            JsonView::List(v) => Some(v),
            _ => None,
        }
    }

    /// The text of a field.
    pub open spec fn text_at(self, name: Seq<char>) -> Option<Seq<char>> {
        match self.field(name) {
            Some(v) => v.text(),
            None => None,
        }
    }

    /// The number of a field.
    pub open spec fn number_at(self, name: Seq<char>) -> Option<u64> {
        match self.field(name) {
            Some(v) => v.number(),
            None => None,
        }
    }

    /// The list of a field.
    pub open spec fn list_at(self, name: Seq<char>) -> Option<Seq<JsonView>> {
        match self.field(name) {
            Some(v) => v.list(),
            None => None,
        }
    }

    /// Whether a field is `true`.
    pub open spec fn true_at(self, name: Seq<char>) -> bool {
        self.field(name) == Some(JsonView::Bool(true))
    }
}

/// The view of an optional reference to a value.
pub open spec fn value_view(o: Option<&Json>) -> Option<JsonView> {
    match o {
        Some(v) => Some(v@),
        None => None,
    }
}

impl Json {
    pub fn field(&self, name: &str) -> (r: Option<&Json>)
        ensures
            value_view(r) == self@.field(name@),
    {
        match self {
            Json::Object(fields) => {
                proof {
                    lemma_object_view(*fields);
                }
                let mut i: usize = 0;
                while i < fields.len()
                    invariant
                        i <= fields@.len(),
                        self@ == JsonView::Object(views(fields@)),
                        field_from(views(fields@), name@, i as int) == field_from(
                            views(fields@),
                            name@,
                            0,
                        ),
                    decreases fields@.len() - i,
                {
                    assert(views(fields@)[i as int] == fields@[i as int]@);
                    if same(fields[i].name.as_str(), name) {
                        return Some(&fields[i].value);
                    }
                    i = i + 1;
                }
                None
            },
            _ => None,
        }
    }

    pub fn text(&self) -> (r: Option<&str>)
        ensures
            match r {
                Some(s) => self@.text() == Some(s@),
                None => self@.text() is None,
            },
    {
        match self {
            Json::Text(s) => Some(s.as_str()),
            _ => None,
        }
    }

    pub fn number(&self) -> (r: Option<u64>)
        ensures
            r == self@.number(),
    {
        match self {
            Json::Number(n) => *n,
            _ => None,
        }
    }

    pub fn list(&self) -> (r: Option<&Vec<Json>>)
        ensures
            match r {
                Some(v) => self@.list() == Some(views(v@)),
                None => self@.list() is None,
            },
    {
        match self {
            Json::List(v) => {
                proof {
                    lemma_list_view(*v);
                }
                Some(v)
            },
            _ => None,
        }
    }

    pub fn text_at(&self, name: &str) -> (r: Option<&str>)
        ensures
            match r {
                Some(s) => self@.text_at(name@) == Some(s@),
                None => self@.text_at(name@) is None,
            },
    {
        match self.field(name) {
            Some(v) => v.text(),
            None => None,
        }
    }

    pub fn number_at(&self, name: &str) -> (r: Option<u64>)
        ensures
            r == self@.number_at(name@),
    {
        match self.field(name) {
            Some(v) => v.number(),
            None => None,
        }
    }

    pub fn list_at(&self, name: &str) -> (r: Option<&Vec<Json>>)
        ensures
            match r {
                Some(v) => self@.list_at(name@) == Some(views(v@)),
                None => self@.list_at(name@) is None,
            },
    {
        match self.field(name) {
            Some(v) => v.list(),
            None => None,
        }
    }

    pub fn true_at(&self, name: &str) -> (r: bool)
        ensures
            r == self@.true_at(name@),
    {
        match self.field(name) {
            Some(Json::Bool(b)) => *b,
            _ => false,
        }
    }
}

} // verus!
