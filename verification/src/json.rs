//! JSON values as plain data.
//!
//! Text is parsed and printed by `serde_json`; everything the rest of the
//! crate does with a value is done on [`Json`], whose mathematical view is
//! [`JsonView`].

use serde_json::Value;
use vstd::prelude::*;

verus! {

/// A JSON value.
///
/// Numbers come in three kinds, as `serde_json` tells them apart: integers
/// from zero up to `u64::MAX`, negative integers down to `i64::MIN`, and all
/// other numbers, which are kept as the text `serde_json` prints for them.
/// An object keeps its members in order.
#[derive(Debug, PartialEq, Eq)]
pub enum Json {
    Null,
    Bool(bool),
    Unsigned(u64),
    Negative(i64),
    Real(String),
    Text(String),
    Array(Vec<Json>),
    Object(Vec<(String, Json)>),
}

/// The mathematical value of a [`Json`].
pub ghost enum JsonView {
    Null,
    Bool(bool),
    Unsigned(u64),
    Negative(i64),
    Real(Seq<char>),
    Text(Seq<char>),
    Array(Seq<JsonView>),
    Object(Seq<(Seq<char>, JsonView)>),
}

/// The members of an object, as (name, value) pairs in order.
pub type Members = Seq<(Seq<char>, JsonView)>;

impl Json {
    /// The value that this piece of data stands for.
    pub open spec fn value(self) -> JsonView
        decreases self,
    {
        match self {
            Json::Null => JsonView::Null,
            Json::Bool(b) => JsonView::Bool(b),
            Json::Unsigned(u) => JsonView::Unsigned(u),
            Json::Negative(i) => JsonView::Negative(i),
            Json::Real(t) => JsonView::Real(t@),
            Json::Text(t) => JsonView::Text(t@),
            Json::Array(items) => JsonView::Array(
                Seq::new(
                    items@.len(),
                    |i: int|
                        if 0 <= i < items@.len() {
                            items@[i].value()
                        } else {
                            JsonView::Null
                        },
                ),
            ),
            Json::Object(members) => JsonView::Object(
                Seq::new(
                    members@.len(),
                    |i: int|
                        if 0 <= i < members@.len() {
                            (members@[i].0@, members@[i].1.value())
                        } else {
                            (Seq::empty(), JsonView::Null)
                        },
                ),
            ),
        }
    }
}

impl View for Json {
    type V = JsonView;

    open spec fn view(&self) -> JsonView {
        self.value()
    }
}

/// The views of a list of values, item by item.
pub open spec fn items_view(items: Seq<Json>) -> Seq<JsonView> {
    Seq::new(items.len(), |i: int| items[i]@)
}

/// The views of a list of members, member by member.
pub open spec fn members_view(members: Seq<(String, Json)>) -> Members {
    Seq::new(members.len(), |i: int| (members[i].0@, members[i].1@))
}

/// An array's view is the list of its items' views.
pub proof fn lemma_array_view(items: Vec<Json>)
    ensures
        Json::Array(items)@ == JsonView::Array(items_view(items@)),
{
    assert(Json::Array(items)@->Array_0 =~= items_view(items@));
}

/// An object's view is the list of its members' views.
pub proof fn lemma_object_view(members: Vec<(String, Json)>)
    ensures
        Json::Object(members)@ == JsonView::Object(members_view(members@)),
{
    assert(Json::Object(members)@->Object_0 =~= members_view(members@));
}

/// What `serde_json::from_str` makes of a text: the value it holds, or `None`
/// where the text is not one JSON value.
pub uninterp spec fn json_parse(text: Seq<char>) -> Option<JsonView>;

/// The compact text that `serde_json::to_string` prints for a value.
pub uninterp spec fn json_text(value: JsonView) -> Seq<char>;

/// `serde_json::Value`, which only the functions below look into.
#[verifier::external_type_specification]
#[verifier::external_body]
pub struct ExValue(Value);

/// Turns a `serde_json::Value` into a [`Json`], variant by variant; nothing
/// is claimed of the result. A number becomes `Unsigned` where
/// `Number::as_u64` gives it, else `Negative` where `Number::as_i64` gives
/// it, else `Real` with the text of its `Display`. The members of an object
/// come in the order in which `Map::into_iter` hands them out, which with
/// the feature `preserve_order` is the order in which they were inserted.
#[verifier::external_body]
fn from_value(value: Value) -> Json {
    match value {
        Value::Null => Json::Null,
        Value::Bool(b) => Json::Bool(b),
        Value::Number(n) => match (n.as_u64(), n.as_i64()) {
            (Some(u), _) => Json::Unsigned(u),
            (None, Some(i)) => Json::Negative(i),
            (None, None) => Json::Real(n.to_string()),
        },
        Value::String(t) => Json::Text(t),
        Value::Array(items) => Json::Array(items.into_iter().map(from_value).collect()),
        Value::Object(map) => Json::Object(
            map.into_iter().map(|(name, item)| (name, from_value(item))).collect(),
        ),
    }
}

/// Turns a [`Json`] into a `serde_json::Value`, variant by variant; nothing
/// is claimed of the result. The text of a `Real` is read with
/// `Number::from_str`; where that refuses the text the value is
/// `Value::Null`, which is also what `serde_json` makes of a number that
/// JSON cannot hold. The members of an object are collected into a `Map` in
/// their order; of members with one name the `Map` keeps the last value.
#[verifier::external_body]
fn to_value(json: &Json) -> Value {
    match json {
        Json::Null => Value::Null,
        Json::Bool(b) => Value::Bool(*b),
        Json::Unsigned(u) => Value::from(*u),
        Json::Negative(i) => Value::from(*i),
        Json::Real(t) => t.parse::<serde_json::Number>().map_or(Value::Null, Value::Number),
        Json::Text(t) => Value::String(t.clone()),
        Json::Array(items) => Value::Array(items.iter().map(to_value).collect()),
        Json::Object(members) => Value::Object(
            members.iter().map(|(name, item)| (name.clone(), to_value(item))).collect(),
        ),
    }
}

/// `serde_json::from_str` at the type `Value`, and `from_value` on what it
/// gives. The contract only names the outcome: it is `json_parse` of the
/// text, with `None` for every error.
#[verifier::external_body]
fn parse_text(text: &str) -> (parsed: Option<Json>)
    ensures
        parsed matches Some(json) ==> json_parse(text@) == Some(json@),
        parsed is None ==> json_parse(text@) is None,
{
    serde_json::from_str::<Value>(text).ok().map(from_value)
}

/// `serde_json::to_string` on the `Value` that `to_value` makes. The
/// contract only names the text: it is `json_text` of the value. The source
/// of `to_string` shows no way for it to fail on a `Value`; the text would
/// be empty if it did.
#[verifier::external_body]
fn print_text(json: &Json) -> (text: String)
    ensures
        text@ == json_text(json@),
{
    serde_json::to_string(&to_value(json)).unwrap_or_default()
}

impl Clone for Json {
    #[verifier::loop_isolation(false)]
    fn clone(&self) -> (copy: Json)
        ensures
            copy@ == self@,
        decreases self,
    {
        match self {
            Json::Null => Json::Null,
            Json::Bool(b) => Json::Bool(*b),
            Json::Unsigned(u) => Json::Unsigned(*u),
            Json::Negative(i) => Json::Negative(*i),
            Json::Real(t) => Json::Real(t.clone()),
            Json::Text(t) => Json::Text(t.clone()),
            Json::Array(items) => {
                let mut copies: Vec<Json> = Vec::new();
                let mut i: usize = 0;
                while i < items.len()
                    invariant
                        i <= items.len(),
                        copies@.len() == i,
                        forall|k: int| 0 <= k < i ==> (#[trigger] copies@[k])@ == items@[k]@,
                    decreases items.len() - i,
                {
                    copies.push(items[i].clone());
                    i += 1;
                }
                proof {
                    lemma_array_view(copies);
                    lemma_array_view(*items);
                    assert(items_view(copies@) =~= items_view(items@));
                }
                Json::Array(copies)
            },
            Json::Object(members) => {
                let copies = clone_members(members);
                proof {
                    lemma_object_view(copies);
                    lemma_object_view(*members);
                }
                Json::Object(copies)
            },
        }
    }
}

/// Copies a list of members.
pub fn clone_members(members: &Vec<(String, Json)>) -> (copies: Vec<(String, Json)>)
    ensures
        members_view(copies@) == members_view(members@),
    decreases members,
{
    let mut copies: Vec<(String, Json)> = Vec::new();
    let mut i: usize = 0;
    while i < members.len()
        invariant
            i <= members.len(),
            copies@.len() == i,
            forall|k: int|
                0 <= k < i ==> (#[trigger] copies@[k]).0@ == members@[k].0@ && copies@[k].1@
                    == members@[k].1@,
        decreases members.len() - i,
    {
        copies.push((members[i].0.clone(), members[i].1.clone()));
        i += 1;
    }
    assert(members_view(copies@) =~= members_view(members@));
    copies
}

impl Json {
    /// Parses one JSON value from a text; `None` where the text is not one.
    pub fn parse(text: &str) -> (parsed: Option<Json>)
        ensures
            parsed matches Some(json) ==> json_parse(text@) == Some(json@),
            parsed is None ==> json_parse(text@) is None,
    {
        parse_text(text)
    }

    /// Prints the value as compact JSON text on one line.
    pub fn to_text(&self) -> (text: String)
        ensures
            text@ == json_text(self@),
    {
        print_text(self)
    }

    /// Whether two pieces of data stand for the same value.
    #[verifier::loop_isolation(false)]
    pub fn same(&self, other: &Json) -> (same: bool)
        ensures
            same == (self@ == other@),
        decreases self,
    {
        match (self, other) {
            (Json::Null, Json::Null) => true,
            (Json::Bool(a), Json::Bool(b)) => *a == *b,
            (Json::Unsigned(a), Json::Unsigned(b)) => *a == *b,
            (Json::Negative(a), Json::Negative(b)) => *a == *b,
            (Json::Real(a), Json::Real(b)) => *a == *b,
            (Json::Text(a), Json::Text(b)) => *a == *b,
            (Json::Array(a), Json::Array(b)) => {
                proof {
                    lemma_array_view(*a);
                    lemma_array_view(*b);
                }
                if a.len() != b.len() {
                    assert(items_view(a@).len() != items_view(b@).len());
                    return false;
                }
                let mut i: usize = 0;
                while i < a.len()
                    invariant
                        i <= a.len(),
                        a.len() == b.len(),
                        forall|k: int| 0 <= k < i ==> (#[trigger] a@[k])@ == b@[k]@,
                    decreases a.len() - i,
                {
                    if !a[i].same(&b[i]) {
                        assert(items_view(a@)[i as int] != items_view(b@)[i as int]);
                        return false;
                    }
                    i += 1;
                }
                assert(items_view(a@) =~= items_view(b@));
                true
            },
            (Json::Object(a), Json::Object(b)) => {
                proof {
                    lemma_object_view(*a);
                    lemma_object_view(*b);
                }
                if a.len() != b.len() {
                    assert(members_view(a@).len() != members_view(b@).len());
                    return false;
                }
                let mut i: usize = 0;
                while i < a.len()
                    invariant
                        i <= a.len(),
                        a.len() == b.len(),
                        forall|k: int|
                            0 <= k < i ==> (#[trigger] a@[k]).0@ == b@[k].0@ && a@[k].1@
                                == b@[k].1@,
                    decreases a.len() - i,
                {
                    if !(a[i].0 == b[i].0) || !a[i].1.same(&b[i].1) {
                        assert(members_view(a@)[i as int] != members_view(b@)[i as int]);
                        return false;
                    }
                    i += 1;
                }
                assert(members_view(a@) =~= members_view(b@));
                true
            },
            _ => false,
        }
    }
}

} // verus!
