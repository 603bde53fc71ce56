//! JSON values: what a request is read from and a response is made of.

use vstd::prelude::*;
use vstd::string::*;

use crate::text::same_text;

verus! {

/// A JSON number. An integer that is not negative is `Unsigned`, a negative one is `Negative`,
/// and any other number is `Double`, by the bits of its IEEE 754 double.
#[derive(Debug, Clone, Copy, PartialEq, Eq, Structural)]
pub enum JsonNumber {
    Unsigned(u64),
    Negative(i64),
    Double(u64),
}

/// A JSON value. The members of an object stand in order; where a key occurs twice, the later
/// member counts.
#[derive(Debug, PartialEq, Eq)]
pub enum Json {
    Null,
    Bool(bool),
    Number(JsonNumber),
    Text(String),
    Array(Vec<Json>),
    Object(Vec<(String, Json)>),
}

/// The mathematical content of a [`Json`].
#[verifier::ext_equal]
pub ghost enum JsonView {
    Null,
    Bool(bool),
    Number(JsonNumber),
    Text(Seq<char>),
    Array(Seq<JsonView>),
    Object(Seq<(Seq<char>, JsonView)>),
}

/// The content of a value.
pub open spec fn json_view(j: Json) -> JsonView
    decreases j,
{
    match j {
        Json::Null => JsonView::Null,
        Json::Bool(b) => JsonView::Bool(b),
        Json::Number(n) => JsonView::Number(n),
        Json::Text(t) => JsonView::Text(t@),
        Json::Array(items) => JsonView::Array(
            Seq::new(
                items@.len(),
                |i: int|
                    if 0 <= i < items@.len() {
                        json_view(items@[i])
                    } else {
                        JsonView::Null
                    },
            ),
        ),
        Json::Object(members) => JsonView::Object(
            Seq::new(
                members@.len(),
                |i: int|
                    if 0 <= i < members@.len() {
                        (members@[i].0@, json_view(members@[i].1))
                    } else {
                        (Seq::empty(), JsonView::Null)
                    },
            ),
        ),
    }
}

impl View for Json {
    type V = JsonView;

    open spec fn view(&self) -> JsonView {
        json_view(*self)
    }
}

/// The members of an object by their content.
pub open spec fn members_view(members: Seq<(String, Json)>) -> Seq<(Seq<char>, JsonView)> {
    members.map_values(|m: (String, Json)| (m.0@, m.1@))
}

/// The elements of an array by their content.
pub open spec fn items_view(items: Seq<Json>) -> Seq<JsonView> {
    items.map_values(|j: Json| j@)
}

/// An object's content is that of its members, an array's that of its elements.
pub broadcast proof fn lemma_json_view(j: Json)
    ensures
        #![trigger json_view(j)]
        j matches Json::Object(members) ==> json_view(j) == JsonView::Object(
            members_view(members@),
        ),
        j matches Json::Array(items) ==> json_view(j) == JsonView::Array(items_view(items@)),
{
    match j {
        Json::Object(members) => {
            assert(json_view(j)->Object_0 =~= members_view(members@));
        },
        Json::Array(items) => {
            assert(json_view(j)->Array_0 =~= items_view(items@));
        },
        _ => {},
    }
}

/// The value of the last member with the given key.
pub open spec fn member(members: Seq<(Seq<char>, JsonView)>, key: Seq<char>) -> Option<JsonView>
    decreases members.len(),
{
    if members.len() == 0 {
        None
    } else if members.last().0 == key {
        Some(members.last().1)
    } else {
        member(members.drop_last(), key)
    }
}

impl JsonView {
    /// The member of an object with the given key; only an object has members.
    pub open spec fn get(self, key: Seq<char>) -> Option<JsonView> {
        match self {
            JsonView::Object(members) => member(members, key),
            _ => None,
        }
    }

    /// The text of a string; other values have none.
    pub open spec fn as_text(self) -> Option<Seq<char>> {
        match self {
            JsonView::Text(t) => Some(t),
            _ => None,
        }
    }

    /// The truth value of a boolean; other values have none.
    pub open spec fn as_bool(self) -> Option<bool> {
        match self {
            JsonView::Bool(b) => Some(b),
            _ => None,
        }
    }
}

/// The content behind an optional reference.
pub open spec fn option_view(j: Option<&Json>) -> Option<JsonView> {
    match j {
        Some(v) => Some(v@),
        None => None,
    }
}

impl Json {
    /// The member of an object with the given key.
    pub fn get(&self, key: &str) -> (r: Option<&Json>)
        ensures
            option_view(r) == self@.get(key@),
    {
        broadcast use lemma_json_view;

        match self {
            Json::Object(members) => {
                let ghost all = members_view(members@);
                let mut i: usize = members.len();
                assert(all.take(i as int) =~= all);
                while i > 0
                    invariant
                        i <= members.len(),
                        all == members_view(members@),
                        self@ == JsonView::Object(all),
                        member(all, key@) == member(all.take(i as int), key@),
                    decreases i,
                {
                    let m = &members[i - 1];
                    assert(all.take(i as int).drop_last() =~= all.take(i - 1));
                    assert(all[i - 1] == (m.0@, m.1@));
                    if same_text(&m.0, key) {
                        return Some(&m.1);
                    }
                    i -= 1;
                }
                None
            },
            _ => None,
        }
    }

    /// The text of a string.
    pub fn as_str(&self) -> (r: Option<&str>)
        ensures
            match r {
                Some(t) => self@.as_text() == Some(t@),
                None => self@.as_text() is None,
            },
    {
        match self {
            Json::Text(t) => Some(t.as_str()),
            _ => None,
        }
    }

    /// The truth value of a boolean.
    pub fn as_bool(&self) -> (r: Option<bool>)
        ensures
            r == self@.as_bool(),
    {
        match self {
            Json::Bool(b) => Some(*b),
            _ => None,
        }
    }
}

/// An integer as a JSON number.
pub open spec fn integer(n: int) -> JsonNumber {
    if n >= 0 {
        JsonNumber::Unsigned(n as u64)
    } else {
        JsonNumber::Negative(n as i64)
    }
}

/// A signed integer as a JSON value.
pub fn json_signed(n: i64) -> (r: Json)
    ensures
        r@ == JsonView::Number(integer(n as int)),
{
    if n >= 0 {
        Json::Number(JsonNumber::Unsigned(n as u64))
    } else {
        Json::Number(JsonNumber::Negative(n))
    }
}

/// An unsigned integer as a JSON value.
pub fn json_unsigned(n: u64) -> (r: Json)
    ensures
        r@ == JsonView::Number(integer(n as int)),
{
    Json::Number(JsonNumber::Unsigned(n))
}

/// A member of an object.
pub fn named(key: &str, value: Json) -> (r: (String, Json))
    ensures
        r.0@ == key@,
        r.1 == value,
{
    (key.to_owned(), value)
}

} // verus!
