//! A structured value as it travels in a payload: the library's own JSON tree.
//!
//! Numbers are kept as the text of their literal, so a value of any size or
//! precision passes through unchanged.

use vstd::prelude::*;

use crate::decimal::{decimal, i64_text, signed_decimal, u64_text};

verus! {

broadcast use vstd::std_specs::vec::axiom_vec_index_decreases;

/// A JSON value as a mathematical tree.
pub enum Json {
    Null,
    Bool(bool),
    /// A number, by the characters of its literal.
    Number(Seq<char>),
    Text(Seq<char>),
    Array(Seq<Json>),
    /// An object, by its members in order.
    Object(Seq<(Seq<char>, Json)>),
}

/// A JSON value in memory.
#[derive(Debug, PartialEq)]
pub enum JsonValue {
    Null,
    Bool(bool),
    /// A number, by the text of its literal, such as `7`, `-12` or `0.99`.
    Number(String),
    Text(String),
    Array(Vec<JsonValue>),
    /// An object, by its members in order.
    Object(Vec<(String, JsonValue)>),
}

impl View for JsonValue {
    type V = Json;

    open spec fn view(&self) -> Json
        decreases self,
    {
        match self {
            JsonValue::Null => Json::Null,
            JsonValue::Bool(b) => Json::Bool(*b),
            JsonValue::Number(literal) => Json::Number(literal@),
            JsonValue::Text(text) => Json::Text(text@),
            JsonValue::Array(items) => Json::Array(
                Seq::new(
                    items.len() as nat,
                    |i: int|
                        if 0 <= i < items.len() {
                            items[i]@
                        } else {
                            Json::Null
                        },
                ),
            ),
            JsonValue::Object(members) => Json::Object(
                Seq::new(
                    members.len() as nat,
                    |i: int|
                        if 0 <= i < members.len() {
                            (members[i].0@, members[i].1@)
                        } else {
                            (Seq::empty(), Json::Null)
                        },
                ),
            ),
        }
    }
}

/// The mathematical trees of a run of values.
pub open spec fn items_model(items: Seq<JsonValue>) -> Seq<Json> {
    Seq::new(items.len(), |i: int| items[i]@)
}

/// The mathematical members of a run of named values.
pub open spec fn members_model(members: Seq<(String, JsonValue)>) -> Seq<(Seq<char>, Json)> {
    Seq::new(members.len(), |i: int| (members[i].0@, members[i].1@))
}

/// An array is the trees of its items, an object those of its members.
pub proof fn lemma_view_of_containers(value: JsonValue)
    ensures
        value matches JsonValue::Array(items) ==> value@ == Json::Array(items_model(items@)),
        value matches JsonValue::Object(members) ==> value@ == Json::Object(
            members_model(members@),
        ),
{
    match value {
        JsonValue::Array(items) => {
            assert(value@->Array_0 =~= items_model(items@));
        },
        JsonValue::Object(members) => {
            reveal_with_fuel(<JsonValue as View>::view, 2);
            assert(value@->Object_0 =~= members_model(members@));
        },
        _ => {},
    }
}

impl Clone for JsonValue {
    /// A copy of the whole tree.
    fn clone(&self) -> (copy: JsonValue)
        ensures
            copy@ == self@,
        decreases self,
    {
        match self {
            JsonValue::Null => JsonValue::Null,
            JsonValue::Bool(b) => JsonValue::Bool(*b),
            JsonValue::Number(literal) => JsonValue::Number(literal.clone()),
            JsonValue::Text(text) => JsonValue::Text(text.clone()),
            JsonValue::Array(items) => {
                let mut copies: Vec<JsonValue> = Vec::new();
                let mut i: usize = 0;
                while i < items.len()
                    invariant
                        i <= items.len(),
                        *self == JsonValue::Array(*items),
                        copies@.len() == i,
                        forall|k: int| 0 <= k < i ==> (#[trigger] copies@[k])@ == items@[k]@,
                    decreases items.len() - i,
                {
                    assert(self->Array_0 == *items);
                    assert(decreases_to!(*items => items[i as int]));
                    let copy = items[i].clone();
                    copies.push(copy);
                    i += 1;
                }
                let copy = JsonValue::Array(copies);
                proof {
                    lemma_view_of_containers(copy);
                    lemma_view_of_containers(*self);
                    assert(items_model(copies@) =~= items_model(items@));
                }
                copy
            },
            JsonValue::Object(members) => {
                let mut copies: Vec<(String, JsonValue)> = Vec::new();
                let mut i: usize = 0;
                while i < members.len()
                    invariant
                        i <= members.len(),
                        *self == JsonValue::Object(*members),
                        copies@.len() == i,
                        forall|k: int|
                            0 <= k < i ==> (#[trigger] copies@[k]).0@ == members@[k].0@
                                && copies@[k].1@ == members@[k].1@,
                    decreases members.len() - i,
                {
                    let name = members[i].0.clone();
                    assert(self->Object_0 == *members);
                    assert(decreases_to!(*members => members[i as int]));
                    let value = members[i].1.clone();
                    copies.push((name, value));
                    i += 1;
                }
                let copy = JsonValue::Object(copies);
                proof {
                    lemma_view_of_containers(copy);
                    lemma_view_of_containers(*self);
                    assert(members_model(copies@) =~= members_model(members@));
                }
                copy
            },
        }
    }
}

/// The value of the first member named `key` among `members`, if any.
pub open spec fn lookup(members: Seq<(Seq<char>, Json)>, key: Seq<char>) -> Option<Json>
    decreases members.len(),
{
    if members.len() == 0 {
        None
    } else if members[0].0 == key {
        Some(members[0].1)
    } else {
        lookup(members.skip(1), key)
    }
}

impl Json {
    /// The value of this object's first member named `key`; `None` for a
    /// value that is no object or has no such member.
    pub open spec fn member(self, key: Seq<char>) -> Option<Json> {
        match self {
            Json::Object(members) => lookup(members, key),
            _ => None,
        }
    }
}

/// Searching from position `from` on finds what searching the rest finds.
proof fn lemma_lookup_step(members: Seq<(Seq<char>, Json)>, key: Seq<char>, from: int)
    requires
        0 <= from < members.len(),
    ensures
        lookup(members.skip(from), key) == if members[from].0 == key {
            Some(members[from].1)
        } else {
            lookup(members.skip(from + 1), key)
        },
{
    assert(members.skip(from).skip(1) =~= members.skip(from + 1));
}

impl JsonValue {
    /// A JSON string with the characters of `text`.
    pub fn text(text: &str) -> (value: JsonValue)
        ensures
            value@ == Json::Text(text@),
    {
        JsonValue::Text(text.to_owned())
    }

    /// The JSON number `i`.
    pub fn integer(i: i64) -> (value: JsonValue)
        ensures
            value@ == Json::Number(signed_decimal(i as int)),
    {
        JsonValue::Number(i64_text(i))
    }

    /// The JSON number `n`.
    pub fn unsigned(n: u64) -> (value: JsonValue)
        ensures
            value@ == Json::Number(decimal(n as nat)),
    {
        JsonValue::Number(u64_text(n))
    }

    /// A JSON object with the given members, in their order.
    pub fn object(members: Vec<(String, JsonValue)>) -> (value: JsonValue)
        ensures
            value@ == Json::Object(members_model(members@)),
    {
        let value = JsonValue::Object(members);
        proof {
            lemma_view_of_containers(value);
        }
        value
    }

    /// One member of an object: a name and its value.
    pub fn entry(name: &str, value: JsonValue) -> (member: (String, JsonValue))
        ensures
            member.0@ == name@,
            member.1 == value,
    {
        (name.to_owned(), value)
    }

    /// Looks up the first member named `key` of an object.
    pub fn member(&self, key: &str) -> (found: Option<&JsonValue>)
        ensures
            match found {
                Some(value) => self@.member(key@) == Some(value@),
                None => self@.member(key@) is None,
            },
    {
        match self {
            JsonValue::Object(members) => {
                proof {
                    lemma_view_of_containers(*self);
                }
                match position_of(members, key) {
                    Some(i) => Some(&members[i].1),
                    None => None,
                }
            },
            _ => None,
        }
    }
}

/// Finds the first member named `key`.
pub fn position_of(members: &Vec<(String, JsonValue)>, key: &str) -> (found: Option<usize>)
    ensures
        match found {
            Some(i) => i < members.len() && lookup(members_model(members@), key@) == Some(
                members[i as int].1@,
            ),
            None => lookup(members_model(members@), key@) is None,
        },
{
    let wanted = key.to_owned();
    let ghost model = members_model(members@);
    assert(model.skip(0) =~= model);
    let mut i: usize = 0;
    while i < members.len()
        invariant
            i <= members.len(),
            wanted@ == key@,
            model == members_model(members@),
            lookup(model, key@) == lookup(model.skip(i as int), key@),
        decreases members.len() - i,
    {
        proof {
            lemma_lookup_step(model, key@, i as int);
            assert(model[i as int] == (members[i as int].0@, members[i as int].1@));
        }
        if members[i].0 == wanted {
            return Some(i);
        }
        i += 1;
    }
    None
}

} // verus!
