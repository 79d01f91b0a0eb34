//! The JSON values a room stores.

use vstd::prelude::*;

verus! {

/// A JSON number, kept as it was written.
///
/// `float` is the bit pattern of the double nearest to what `text` denotes, where that double
/// is finite. It is not read where the text is an integer literal, which is exact by itself.
#[derive(Debug, Clone, PartialEq, Eq)]
pub struct Number {
    pub text: String,
    pub float: Option<u64>,
}

/// A JSON value. An object keeps its members in the order in which they were added.
#[derive(Debug, PartialEq, Eq)]
pub enum Value {
    Null,
    Bool(bool),
    Number(Number),
    String(String),
    Array(Vec<Value>),
    Object(Vec<(String, Value)>),
}

/// The mathematical model of a [`Value`].
pub enum Datum {
    Null,
    Bool(bool),
    Number(Seq<char>, Option<u64>),
    Text(Seq<char>),
    List(Seq<Datum>),
    Dict(Seq<(Seq<char>, Datum)>),
}

/// The models of the items of a list.
pub open spec fn list_model(items: Seq<Value>) -> Seq<Datum>
    decreases items, 0nat,
{
    Seq::new(items.len(), |i: int| if 0 <= i < items.len() { items[i].model() } else { Datum::Null })
}

/// The models of the members of an object.
pub open spec fn dict_model(members: Seq<(String, Value)>) -> Seq<(Seq<char>, Datum)>
    decreases members, 0nat,
{
    Seq::new(
        members.len(),
        |i: int| if 0 <= i < members.len() { (members[i].0@, members[i].1.model()) } else { (Seq::empty(), Datum::Null) },
    )
}

impl Value {
    pub open spec fn model(&self) -> Datum
        decreases self, 1nat,
    {
        match self {
            Value::Null => Datum::Null,
            Value::Bool(b) => Datum::Bool(*b),
            Value::Number(n) => Datum::Number(n.text@, n.float),
            Value::String(s) => Datum::Text(s@),
            Value::Array(items) => Datum::List(list_model(items@)),
            Value::Object(members) => Datum::Dict(dict_model(members@)),
        }
    }

    pub open spec fn view(&self) -> Datum {
        self.model()
    }

    /// A copy of the whole value.
    pub fn dup(&self) -> (r: Value)
        ensures
            r@ == self@,
        decreases self,
    {
        match self {
            Value::Null => Value::Null,
            Value::Bool(b) => Value::Bool(*b),
            Value::Number(n) => Value::Number(Number { text: n.text.clone(), float: n.float }),
            Value::String(s) => Value::String(s.clone()),
            Value::Array(items) => {
                let mut out: Vec<Value> = Vec::new();
                for i in 0..items.len()
                    invariant
                        out@.len() == i,
                        *self == Value::Array(*items),
                        forall|j: int| 0 <= j < i ==> (#[trigger] out@[j])@ == items@[j]@,
                {
                    assert(decreases_to!(*self => self->Array_0)); assert(decreases_to!(*items => items[i as int])); assert(decreases_to!(*self => items[i as int]));
                    let item = items[i].dup();
                    out.push(item);
                }
                assert(list_model(out@) =~= list_model(items@));
                Value::Array(out)
            },
            Value::Object(members) => {
                let mut out: Vec<(String, Value)> = Vec::new();
                for i in 0..members.len()
                    invariant
                        out@.len() == i,
                        *self == Value::Object(*members),
                        forall|j: int|
                            0 <= j < i ==> (#[trigger] out@[j]).0@ == members@[j].0@ && out@[j].1@
                                == members@[j].1@,
                {
                    let key = members[i].0.clone();
                    assert(decreases_to!(*self => self->Object_0)); assert(decreases_to!(*members => members[i as int]));assert(decreases_to!(members[i as int] => members[i as int].1));
                    let item = members[i].1.dup();
                    out.push((key, item));
                }
                assert(dict_model(out@) =~= dict_model(members@));
                Value::Object(out)
            },
        }
    }
}

impl Clone for Value {
    fn clone(&self) -> (r: Value)
        ensures
            r@ == self@,
    {
        self.dup()
    }
}

} // verus!
