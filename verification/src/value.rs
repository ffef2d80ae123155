//! Dynamically typed field values and their mathematical model.

use vstd::prelude::*;
use crate::number::{is_number_text, Decimal, Number};

verus! {

/// The mathematical model of a field value: a JSON value whose objects keep
/// their members in order. A number is an integer, or a decimal that is held
/// as its text.
pub enum Json {
    Null,
    Bool(bool),
    Integer(int),
    Decimal(Seq<char>),
    Text(Seq<char>),
    Array(Seq<Json>),
    Object(Seq<(Seq<char>, Json)>),
}

/// A dynamically typed value attached to a record under a key.
#[derive(Debug, PartialEq, Eq)]
pub enum Value {
    Null,
    Bool(bool),
    Number(Number),
    String(String),
    Array(Vec<Value>),
    Object(Vec<(String, Value)>),
}

/// The members of an object, or the fields of a record, by their models.
pub open spec fn members_model(members: Seq<(String, Value)>) -> Seq<(Seq<char>, Json)>
    decreases members,
{
    Seq::new(
        members.len(),
        |i: int|
            if 0 <= i < members.len() {
                (members[i].0@, members[i].1.view())
            } else {
                (Seq::empty(), Json::Null)
            },
    )
}

impl View for Value {
    type V = Json;

    open spec fn view(&self) -> Json
        decreases self,
    {
        match self {
            Value::Null => Json::Null,
            Value::Bool(b) => Json::Bool(*b),
            Value::Number(n) => n@,
            Value::String(s) => Json::Text(s@),
            Value::Array(items) => Json::Array(
                Seq::new(
                    items@.len(),
                    |i: int|
                        if 0 <= i < items@.len() {
                            items@[i].view()
                        } else {
                            Json::Null
                        },
                ),
            ),
            Value::Object(members) => Json::Object(members_model(members@)),
        }
    }
}

impl Value {
    /// A string value holding a copy of `text`.
    pub fn string(text: &str) -> (made: Value)
        ensures
            made@ == Json::Text(text@),
    {
        Value::String(text.to_owned())
    }

    /// An integer value.
    pub fn unsigned(n: u64) -> (made: Value)
        ensures
            made@ == Json::Integer(n as int),
    {
        Value::Number(Number::Unsigned(n))
    }

    /// An integer value.
    pub fn signed(n: i64) -> (made: Value)
        ensures
            made@ == Json::Integer(n as int),
    {
        Value::Number(Number::Signed(n))
    }

    /// A number with a fraction or an exponent, from the text that JSON
    /// writes for it; `None` where `text` is no such number.
    pub fn decimal(text: &str) -> (made: Option<Value>)
        ensures
            match made {
                Some(value) => is_number_text(text@) && value@ == Json::Decimal(text@),
                None => !is_number_text(text@),
            },
    {
        match Decimal::parse(text) {
            Some(number) => Some(Value::Number(Number::Decimal(number))),
            None => None,
        }
    }

    /// The text of a string value; `None` for every other kind of value.
    pub fn as_str(&self) -> (text: Option<&str>)
        ensures
            match text {
                Some(t) => self@ == Json::Text(t@),
                None => !(self@ is Text),
            },
    {
        match self {
            Value::String(s) => Some(s.as_str()),
            _ => None,
        }
    }

    /// A copy of the value, with the same model.
    pub fn duplicate(&self) -> (copy: Value)
        ensures
            copy@ == self@,
        decreases self,
    {
        match self {
            Value::Null => Value::Null,
            Value::Bool(b) => Value::Bool(*b),
            Value::Number(n) => Value::Number(n.duplicate()),
            Value::String(s) => Value::String(s.clone()),
            Value::Array(items) => {
                let mut copies: Vec<Value> = Vec::new();
                let mut at: usize = 0;
                while at < items.len()
                    invariant
                        *self == Value::Array(*items),
                        at <= items.len(),
                        copies.len() == at,
                        forall|i: int| 0 <= i < at ==> (#[trigger] copies@[i])@ == items@[i]@,
                    decreases items.len() - at,
                {
                    assert(decreases_to!(*items => items[at as int]));
                    assert(decreases_to!(*self => self->Array_0));
                    let copy = items[at].duplicate();
                    copies.push(copy);
                    at += 1;
                }
                let made = Value::Array(copies);
                assert(made@->Array_0 =~= self@->Array_0);
                made
            },
            Value::Object(members) => {
                let mut copies: Vec<(String, Value)> = Vec::new();
                let mut at: usize = 0;
                while at < members.len()
                    invariant
                        *self == Value::Object(*members),
                        at <= members.len(),
                        copies.len() == at,
                        forall|i: int|
                            0 <= i < at ==> (#[trigger] copies@[i]).0@ == members@[i].0@
                                && copies@[i].1@ == members@[i].1@,
                    decreases members.len() - at,
                {
                    let key = members[at].0.clone();
                    assert(decreases_to!(*members => members[at as int]));
                    assert(decreases_to!(*self => self->Object_0));
                    assert(decreases_to!(members[at as int] => members[at as int].1));
                    let copy = members[at].1.duplicate();
                    copies.push((key, copy));
                    at += 1;
                }
                assert(members_model(copies@) =~= members_model(members@));
                let made = Value::Object(copies);
                made
            },
        }
    }

    /// Whether the value is `Null`.
    pub fn is_null(&self) -> (null: bool)
        ensures
            null == (self@ is Null),
    {
        match self {
            Value::Null => true,
            _ => false,
        }
    }
}

impl Clone for Value {
    fn clone(&self) -> (copy: Value)
        ensures
            copy@ == self@,
    {
        self.duplicate()
    }
}

} // verus!
