//! Python values as they come out of a pickle.

use crate::datastore::ops::{debug_quoted, debug_text};
use crate::text::{dec, dec_int, push_decimal, push_signed};
use vstd::prelude::*;

verus! {

/// The class of an instance.
#[derive(Debug, PartialEq, Eq)]
pub struct ClassId {
    pub module: String,
    pub name: String,
}

impl ClassId {
    pub fn new(module: &str, name: &str) -> (r: ClassId)
        ensures
            r.module@ == module@,
            r.name@ == name@,
    {
        ClassId { module: module.to_owned(), name: name.to_owned() }
    }
}

/// A Python value.
#[derive(Debug, PartialEq, Eq)]
pub enum PyObj {
    /// Python's `None`.
    Nil,
    Bool(bool),
    Int(i64),
    /// An integer that no 64-bit word holds, in decimal.
    Long(String),
    /// A float, by the bit pattern of the double.
    Float(u64),
    Str(String),
    Bytes(Vec<u8>),
    List(Vec<PyObj>),
    Tuple(Vec<PyObj>),
    SetOf(Vec<PyObj>),
    Dict(Vec<(PyObj, PyObj)>),
    Instance { class: ClassId, args: Vec<PyObj> },
}

/// The mathematical model of a [`PyObj`].
pub enum Py {
    Nil,
    Bool(bool),
    Int(i64),
    Long(Seq<char>),
    Float(u64),
    Str(Seq<char>),
    Bytes(Seq<u8>),
    List(Seq<Py>),
    Tuple(Seq<Py>),
    SetOf(Seq<Py>),
    Dict(Seq<(Py, Py)>),
    Instance(Seq<char>, Seq<char>, Seq<Py>),
}

/// The models of a sequence of values.
pub open spec fn seq_model(items: Seq<PyObj>) -> Seq<Py>
    decreases items, 0nat,
{
    Seq::new(
        items.len(),
        |i: int|
            if 0 <= i < items.len() {
                items[i].model()
            } else {
                Py::Nil
            },
    )
}

/// The models of a sequence of pairs of values.
pub open spec fn pairs_model(items: Seq<(PyObj, PyObj)>) -> Seq<(Py, Py)>
    decreases items, 0nat,
{
    Seq::new(
        items.len(),
        |i: int|
            if 0 <= i < items.len() {
                (items[i].0.model(), items[i].1.model())
            } else {
                (Py::Nil, Py::Nil)
            },
    )
}

impl DeepView for PyObj {
    type V = Py;

    open spec fn deep_view(&self) -> Py {
        self.model()
    }
}

impl PyObj {
    pub open spec fn model(&self) -> Py
        decreases self, 1nat,
    {
        match self {
            PyObj::Nil => Py::Nil,
            PyObj::Bool(b) => Py::Bool(*b),
            PyObj::Int(n) => Py::Int(*n),
            PyObj::Long(s) => Py::Long(s@),
            PyObj::Float(bits) => Py::Float(*bits),
            PyObj::Str(s) => Py::Str(s@),
            PyObj::Bytes(b) => Py::Bytes(b@),
            PyObj::List(items) => Py::List(seq_model(items@)),
            PyObj::Tuple(items) => Py::Tuple(seq_model(items@)),
            PyObj::SetOf(items) => Py::SetOf(seq_model(items@)),
            PyObj::Dict(pairs) => Py::Dict(pairs_model(pairs@)),
            PyObj::Instance { class, args } => Py::Instance(
                class.module@,
                class.name@,
                seq_model(args@),
            ),
        }
    }
}

/// Python's name for the type of a value.
pub open spec fn kind_text(o: Py) -> Seq<char> {
    match o {
        Py::Nil => "None"@,
        Py::Bool(_) => "bool"@,
        Py::Int(_) => "int"@,
        Py::Long(_) => "int"@,
        Py::Float(_) => "float"@,
        Py::Str(_) => "str"@,
        Py::Bytes(_) => "bytes"@,
        Py::List(_) => "list"@,
        Py::Tuple(_) => "tuple"@,
        Py::SetOf(_) => "set"@,
        Py::Dict(_) => "dict"@,
        Py::Instance(_, _, _) => "instance"@,
    }
}

/// The value of a string key from position `i` of a dict on.
pub open spec fn lookup(pairs: Seq<(Py, Py)>, key: Seq<char>, i: int) -> Option<Py>
    decreases pairs.len() - i,
{
    if i < 0 || i >= pairs.len() {
        None
    } else if pairs[i].0 == Py::Str(key) {
        Some(pairs[i].1)
    } else {
        lookup(pairs, key, i + 1)
    }
}

/// The value of a string key, if the value is a dict that has it.
pub open spec fn member(o: Py, key: Seq<char>) -> Option<Py> {
    match o {
        Py::Dict(pairs) => lookup(pairs, key, 0),
        _ => None,
    }
}

/// The items of a list, tuple or set.
pub open spec fn items_of(o: Py) -> Option<Seq<Py>> {
    match o {
        Py::List(items) => Some(items),
        Py::Tuple(items) => Some(items),
        Py::SetOf(items) => Some(items),
        _ => None,
    }
}

/// The arguments of an instance of the class.
pub open spec fn instance_args(o: Py, module: Seq<char>, name: Seq<char>) -> Option<Seq<Py>> {
    match o {
        Py::Instance(m, n, args) => if m == module && n == name {
            Some(args)
        } else {
            None
        },
        _ => None,
    }
}

/// The two ways of modelling a vector of values agree.
pub proof fn seq_model_is_deep(items: Vec<PyObj>)
    ensures
        items.deep_view() == seq_model(items@),
{
    assert(items.deep_view() =~= seq_model(items@));
}

/// The two ways of modelling a vector of pairs agree.
pub proof fn pairs_model_is_deep(items: Vec<(PyObj, PyObj)>)
    ensures
        items.deep_view() == pairs_model(items@),
{
    assert(items.deep_view() =~= pairs_model(items@));
}

impl PyObj {
    pub fn kind_name(&self) -> (r: &'static str)
        ensures
            r@ == kind_text(self.model()),
    {
        match self {
            PyObj::Nil => "None",
            PyObj::Bool(_) => "bool",
            PyObj::Int(_) => "int",
            PyObj::Long(_) => "int",
            PyObj::Float(_) => "float",
            PyObj::Str(_) => "str",
            PyObj::Bytes(_) => "bytes",
            PyObj::List(_) => "list",
            PyObj::Tuple(_) => "tuple",
            PyObj::SetOf(_) => "set",
            PyObj::Dict(_) => "dict",
            PyObj::Instance { .. } => "instance",
        }
    }

    /// The value of a string key, if this is a dict that has it.
    pub fn get(&self, key: &str) -> (r: Option<&PyObj>)
        ensures
            r.deep_view() == member(self.model(), key@),
    {
        match self {
            PyObj::Dict(pairs) => {
                let ghost model = pairs_model(pairs@);
                let mut i: usize = 0;
                while i < pairs.len()
                    invariant
                        i <= pairs@.len(),
                        model == pairs_model(pairs@),
                        member(self.model(), key@) == lookup(model, key@, i as int),
                    decreases pairs@.len() - i,
                {
                    assert(model[i as int] == (pairs@[i as int].0.model(), pairs@[i as int].1.model()));
                    if let PyObj::Str(s) = &pairs[i].0 {
                        if *s.as_str() == *key {
                            return Some(&pairs[i].1);
                        }
                    }
                    i += 1;
                }
                None
            },
            _ => None,
        }
    }

    /// The items of a list, tuple or set.
    pub fn as_seq(&self) -> (r: Option<&Vec<PyObj>>)
        ensures
            r.deep_view() == items_of(self.model()),
    {
        match self {
            PyObj::List(items) => {
                proof {
                    seq_model_is_deep(*items);
                }
                Some(items)
            },
            PyObj::Tuple(items) => {
                proof {
                    seq_model_is_deep(*items);
                }
                Some(items)
            },
            PyObj::SetOf(items) => {
                proof {
                    seq_model_is_deep(*items);
                }
                Some(items)
            },
            _ => None,
        }
    }

    /// The arguments of an instance of the class.
    pub fn as_instance_of(&self, module: &str, name: &str) -> (r: Option<&Vec<PyObj>>)
        ensures
            r.deep_view() == instance_args(self.model(), module@, name@),
    {
        match self {
            PyObj::Instance { class, args } => {
                proof {
                    seq_model_is_deep(*args);
                }
                if *class.module.as_str() == *module && *class.name.as_str() == *name {
                    Some(args)
                } else {
                    None
                }
            },
            _ => None,
        }
    }

    /// A copy of the whole value.
    pub fn dup(&self) -> (r: PyObj)
        ensures
            r.model() == self.model(),
        decreases self,
    {
        match self {
            PyObj::Nil => PyObj::Nil,
            PyObj::Bool(b) => PyObj::Bool(*b),
            PyObj::Int(n) => PyObj::Int(*n),
            PyObj::Long(s) => PyObj::Long(s.clone()),
            PyObj::Float(bits) => PyObj::Float(*bits),
            PyObj::Str(s) => PyObj::Str(s.clone()),
            PyObj::Bytes(b) => PyObj::Bytes(b.clone()),
            PyObj::List(items) => {
                assert(decreases_to!(*self => self->List_0));
                PyObj::List(dup_all(items))
            },
            PyObj::Tuple(items) => {
                assert(decreases_to!(*self => self->Tuple_0));
                PyObj::Tuple(dup_all(items))
            },
            PyObj::SetOf(items) => {
                assert(decreases_to!(*self => self->SetOf_0));
                PyObj::SetOf(dup_all(items))
            },
            PyObj::Dict(pairs) => {
                assert(decreases_to!(*self => self->Dict_0));
                let mut out: Vec<(PyObj, PyObj)> = Vec::new();
                for i in 0..pairs.len()
                    invariant
                        decreases_to!(*self => *pairs),
                        out@.len() == i,
                        forall|j: int|
                            0 <= j < i ==> (#[trigger] out@[j]).0.model() == pairs@[j].0.model()
                                && out@[j].1.model() == pairs@[j].1.model(),
                {
                    assert(decreases_to!(*pairs => pairs[i as int]));
                    assert(decreases_to!(pairs[i as int] => pairs[i as int].0));
                    assert(decreases_to!(pairs[i as int] => pairs[i as int].1));
                    let k = pairs[i].0.dup();
                    let v = pairs[i].1.dup();
                    out.push((k, v));
                }
                assert(pairs_model(out@) =~= pairs_model(pairs@));
                PyObj::Dict(out)
            },
            PyObj::Instance { class, args } => {
                assert(decreases_to!(*self => self->args));
                PyObj::Instance {
                    class: ClassId::new(class.module.as_str(), class.name.as_str()),
                    args: dup_all(args),
                }
            },
        }
    }
}

/// Copies of all values.
fn dup_all(items: &Vec<PyObj>) -> (r: Vec<PyObj>)
    ensures
        seq_model(r@) == seq_model(items@),
    decreases items,
{
    let mut out: Vec<PyObj> = Vec::new();
    for i in 0..items.len()
        invariant
            out@.len() == i,
            forall|j: int| 0 <= j < i ==> (#[trigger] out@[j]).model() == items@[j].model(),
    {
        assert(decreases_to!(*items => items[i as int]));
        let item = items[i].dup();
        out.push(item);
    }
    assert(seq_model(out@) =~= seq_model(items@));
    out
}

impl Clone for PyObj {
    fn clone(&self) -> (r: PyObj)
        ensures
            r.model() == self.model(),
    {
        self.dup()
    }
}

/// The texts of the first `n` items, separated by a comma and a space.
pub open spec fn shown_items(items: Seq<Py>, n: nat) -> Seq<char>
    decreases items, n,
{
    if n == 0 || n > items.len() {
        Seq::empty()
    } else if n == 1 {
        shown(items[0])
    } else {
        shown_items(items, (n - 1) as nat) + ", "@ + shown(items[n - 1])
    }
}

/// The texts of the first `n` pairs, separated by a comma and a space.
pub open spec fn shown_pairs(pairs: Seq<(Py, Py)>, n: nat) -> Seq<char>
    decreases pairs, n,
{
    if n == 0 || n > pairs.len() {
        Seq::empty()
    } else {
        let p = pairs[n - 1];
        let this = "("@ + shown(p.0) + ", "@ + shown(p.1) + ")"@;
        if n == 1 {
            this
        } else {
            shown_pairs(pairs, (n - 1) as nat) + ", "@ + this
        }
    }
}

/// The numbers of the first `n` bytes, separated by a comma and a space.
pub open spec fn shown_bytes(b: Seq<u8>, n: nat) -> Seq<char>
    decreases n,
{
    if n == 0 || n > b.len() {
        Seq::empty()
    } else if n == 1 {
        dec(b[0] as nat)
    } else {
        shown_bytes(b, (n - 1) as nat) + ", "@ + dec(b[n - 1] as nat)
    }
}

/// How a value is shown where it names an element of a path.
pub open spec fn shown(o: Py) -> Seq<char>
    decreases o, 0nat,
{
    match o {
        Py::Nil => "None"@,
        Py::Bool(b) => if b {
            "Bool(true)"@
        } else {
            "Bool(false)"@
        },
        Py::Int(n) => "Int("@ + dec_int(n as int) + ")"@,
        Py::Long(s) => "Long("@ + debug_quoted(s) + ")"@,
        Py::Float(bits) => "Float("@ + dec(bits as nat) + ")"@,
        Py::Str(s) => "Str("@ + debug_quoted(s) + ")"@,
        Py::Bytes(b) => "Bytes(["@ + shown_bytes(b, b.len()) + "])"@,
        Py::List(items) => "List(["@ + shown_items(items, items.len()) + "])"@,
        Py::Tuple(items) => "Tuple(["@ + shown_items(items, items.len()) + "])"@,
        Py::SetOf(items) => "Set(["@ + shown_items(items, items.len()) + "])"@,
        Py::Dict(pairs) => "Dict(["@ + shown_pairs(pairs, pairs.len()) + "])"@,
        Py::Instance(module, name, args) => "Instance { class: ClassId { module: "@ + debug_quoted(
            module,
        ) + ", name: "@ + debug_quoted(name) + " }, args: ["@ + shown_items(args, args.len())
            + "] }"@,
    }
}

fn push_shown_items(out: &mut String, items: &Vec<PyObj>)
    ensures
        final(out)@ == old(out)@ + shown_items(seq_model(items@), items@.len()),
    decreases items,
{
    let ghost model = seq_model(items@);
    assert(out@ =~= old(out)@ + shown_items(model, 0));
    for i in 0..items.len()
        invariant
            model == seq_model(items@),
            out@ == old(out)@ + shown_items(model, i as nat),
    {
        assert(decreases_to!(*items => items[i as int]));
        assert(model[i as int] == items@[i as int].model());
        if i > 0 {
            out.append(", ");
        }
        items[i].push_shown(out);
        assert(out@ =~= old(out)@ + shown_items(model, (i + 1) as nat));
    }
}

impl PyObj {
    /// Appends how the value is shown.
    pub fn push_shown(&self, out: &mut String)
        ensures
            final(out)@ == old(out)@ + shown(self.model()),
        decreases self,
    {
        match self {
            PyObj::Nil => out.append("None"),
            PyObj::Bool(b) => if *b {
                out.append("Bool(true)");
            } else {
                out.append("Bool(false)");
            },
            PyObj::Int(n) => {
                out.append("Int(");
                push_signed(out, *n);
                out.append(")");
            },
            PyObj::Long(s) => {
                out.append("Long(");
                out.append(debug_text(s.as_str()).as_str());
                out.append(")");
            },
            PyObj::Float(bits) => {
                out.append("Float(");
                push_decimal(out, *bits);
                out.append(")");
            },
            PyObj::Str(s) => {
                out.append("Str(");
                out.append(debug_text(s.as_str()).as_str());
                out.append(")");
            },
            PyObj::Bytes(b) => {
                out.append("Bytes([");
                let ghost start = out@;
                assert(out@ =~= start + shown_bytes(b@, 0));
                for i in 0..b.len()
                    invariant
                        out@ == start + shown_bytes(b@, i as nat),
                {
                    if i > 0 {
                        out.append(", ");
                    }
                    push_decimal(out, b[i] as u64);
                    assert(out@ =~= start + shown_bytes(b@, (i + 1) as nat));
                }
                out.append("])");
            },
            PyObj::List(items) => {
                assert(decreases_to!(*self => self->List_0));
                out.append("List([");
                push_shown_items(out, items);
                out.append("])");
            },
            PyObj::Tuple(items) => {
                assert(decreases_to!(*self => self->Tuple_0));
                out.append("Tuple([");
                push_shown_items(out, items);
                out.append("])");
            },
            PyObj::SetOf(items) => {
                assert(decreases_to!(*self => self->SetOf_0));
                out.append("Set([");
                push_shown_items(out, items);
                out.append("])");
            },
            PyObj::Dict(pairs) => {
                assert(decreases_to!(*self => self->Dict_0));
                let ghost model = pairs_model(pairs@);
                out.append("Dict([");
                let ghost start = out@;
                assert(out@ =~= start + shown_pairs(model, 0));
                for i in 0..pairs.len()
                    invariant
                        decreases_to!(*self => *pairs),
                        model == pairs_model(pairs@),
                        out@ == start + shown_pairs(model, i as nat),
                {
                    assert(decreases_to!(*pairs => pairs[i as int]));
                    assert(decreases_to!(pairs[i as int] => pairs[i as int].0));
                    assert(decreases_to!(pairs[i as int] => pairs[i as int].1));
                    assert(model[i as int] == (pairs@[i as int].0.model(), pairs@[i as int].1.model()));
                    if i > 0 {
                        out.append(", ");
                    }
                    out.append("(");
                    pairs[i].0.push_shown(out);
                    out.append(", ");
                    pairs[i].1.push_shown(out);
                    out.append(")");
                    assert(out@ =~= start + shown_pairs(model, (i + 1) as nat));
                }
                out.append("])");
            },
            PyObj::Instance { class, args } => {
                assert(decreases_to!(*self => self->args));
                out.append("Instance { class: ClassId { module: ");
                out.append(debug_text(class.module.as_str()).as_str());
                out.append(", name: ");
                out.append(debug_text(class.name.as_str()).as_str());
                out.append(" }, args: [");
                push_shown_items(out, args);
                out.append("] }");
            },
        }
        assert(out@ =~= old(out)@ + shown(self.model()));
    }
}

} // verus!
