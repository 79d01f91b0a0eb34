//! Accessors over Python values that say where a value is not what it should be.

use crate::multidata::error::{outcome, key_path, Error, Path, Problem};
use crate::multidata::pyobj::{items_of, kind_text, member, pairs_model_is_deep, Py, PyObj};
use vstd::prelude::*;

verus! {

/// A required member.
pub open spec fn at_of(o: Py, path: Seq<char>, key: Seq<char>) -> Result<Py, Problem> {
    match member(o, key) {
        Some(v) => Ok(v),
        None => Err(Problem::Missing(key_path(path, key))),
    }
}

/// The complaint that a value is not of the expected type.
pub open spec fn wrong_type(o: Py, path: Seq<char>, expected: Seq<char>) -> Problem {
    Problem::Type(path, expected, kind_text(o))
}

pub open spec fn str_of(o: Py, path: Seq<char>) -> Result<Seq<char>, Problem> {
    match o {
        Py::Str(s) => Ok(s),
        _ => Err(wrong_type(o, path, "str"@)),
    }
}

pub open spec fn int_of(o: Py, path: Seq<char>) -> Result<i64, Problem> {
    match o {
        Py::Int(n) => Ok(n),
        _ => Err(wrong_type(o, path, "int"@)),
    }
}

/// Booleans may also be the integers zero and one.
pub open spec fn bool_of(o: Py, path: Seq<char>) -> Result<bool, Problem> {
    match o {
        Py::Bool(b) => Ok(b),
        Py::Int(n) => if n == 0 {
            Ok(false)
        } else if n == 1 {
            Ok(true)
        } else {
            Err(wrong_type(o, path, "bool"@))
        },
        _ => Err(wrong_type(o, path, "bool"@)),
    }
}

pub open spec fn seq_of(o: Py, path: Seq<char>) -> Result<Seq<Py>, Problem> {
    match items_of(o) {
        Some(items) => Ok(items),
        None => Err(wrong_type(o, path, "list, tuple or set"@)),
    }
}

pub open spec fn dict_of(o: Py, path: Seq<char>) -> Result<Seq<(Py, Py)>, Problem> {
    match o {
        Py::Dict(pairs) => Ok(pairs),
        _ => Err(wrong_type(o, path, "dict"@)),
    }
}

/// Exactly `n` items.
pub open spec fn tuple_of(o: Py, path: Seq<char>, n: nat) -> Result<Seq<Py>, Problem> {
    match seq_of(o, path) {
        Ok(items) => if items.len() == n {
            Ok(items)
        } else {
            Err(Problem::Arity(path, n as int, items.len() as int))
        },
        Err(e) => Err(e),
    }
}

/// An integer that fits into 32 bits without a sign.
pub open spec fn u32_of(o: Py, path: Seq<char>) -> Result<u32, Problem> {
    match int_of(o, path) {
        Ok(v) => if 0 <= v <= u32::MAX {
            Ok(v as u32)
        } else {
            Err(Problem::Range(path, v as int, "u32"@))
        },
        Err(e) => Err(e),
    }
}

/// Reading typed values out of Python ones.
pub trait Extract {
    /// The model of the value.
    spec fn tree(&self) -> Py;

    /// A required member.
    fn at(&self, path: &Path, key: &str) -> (r: Result<&PyObj, Error>)
        ensures
            outcome(r) == at_of(self.tree(), path@, key@),
    ;

    /// A member that may be absent.
    fn opt(&self, key: &str) -> (r: Option<&PyObj>)
        ensures
            r.deep_view() == member(self.tree(), key@),
    ;

    fn str_(&self, path: &Path) -> (r: Result<&String, Error>)
        ensures
            outcome(r) == str_of(self.tree(), path@),
    ;

    fn int_(&self, path: &Path) -> (r: Result<i64, Error>)
        ensures
            outcome(r) == int_of(self.tree(), path@),
    ;

    fn bool_(&self, path: &Path) -> (r: Result<bool, Error>)
        ensures
            outcome(r) == bool_of(self.tree(), path@),
    ;

    fn seq(&self, path: &Path) -> (r: Result<&Vec<PyObj>, Error>)
        ensures
            outcome(r) == seq_of(self.tree(), path@),
    ;

    fn dict_(&self, path: &Path) -> (r: Result<&Vec<(PyObj, PyObj)>, Error>)
        ensures
            outcome(r) == dict_of(self.tree(), path@),
    ;

    /// Exactly `n` items.
    fn tuple_n(&self, path: &Path, n: usize) -> (r: Result<&Vec<PyObj>, Error>)
        ensures
            outcome(r) == tuple_of(self.tree(), path@, n as nat),
    ;

    /// An integer that fits into 32 bits without a sign.
    fn u32_(&self, path: &Path) -> (r: Result<u32, Error>)
        ensures
            outcome(r) == u32_of(self.tree(), path@),
    ;
}

fn type_error(o: &PyObj, path: &Path, expected: &'static str) -> (r: Error)
    ensures
        r@ == wrong_type(o.model(), path@, expected@),
{
    Error::Type { path: path.copied(), expected, found: o.kind_name() }
}

impl Extract for PyObj {
    open spec fn tree(&self) -> Py {
        self.model()
    }

    fn at(&self, path: &Path, key: &str) -> (r: Result<&PyObj, Error>) {
        match self.get(key) {
            Some(v) => Ok(v),
            None => Err(Error::Missing { path: path.key(key) }),
        }
    }

    fn opt(&self, key: &str) -> (r: Option<&PyObj>) {
        self.get(key)
    }

    fn str_(&self, path: &Path) -> (r: Result<&String, Error>) {
        match self {
            PyObj::Str(s) => Ok(s),
            _ => Err(type_error(self, path, "str")),
        }
    }

    fn int_(&self, path: &Path) -> (r: Result<i64, Error>) {
        match self {
            PyObj::Int(n) => Ok(*n),
            _ => Err(type_error(self, path, "int")),
        }
    }

    fn bool_(&self, path: &Path) -> (r: Result<bool, Error>) {
        match self {
            PyObj::Bool(b) => Ok(*b),
            PyObj::Int(n) => if *n == 0 {
                Ok(false)
            } else if *n == 1 {
                Ok(true)
            } else {
                Err(type_error(self, path, "bool"))
            },
            _ => Err(type_error(self, path, "bool")),
        }
    }

    fn seq(&self, path: &Path) -> (r: Result<&Vec<PyObj>, Error>) {
        match self.as_seq() {
            Some(items) => Ok(items),
            None => Err(type_error(self, path, "list, tuple or set")),
        }
    }

    fn dict_(&self, path: &Path) -> (r: Result<&Vec<(PyObj, PyObj)>, Error>) {
        match self {
            PyObj::Dict(pairs) => {
                proof {
                    pairs_model_is_deep(*pairs);
                }
                Ok(pairs)
            },
            _ => Err(type_error(self, path, "dict")),
        }
    }

    fn tuple_n(&self, path: &Path, n: usize) -> (r: Result<&Vec<PyObj>, Error>) {
        match self.seq(path) {
            Ok(items) => if items.len() != n {
                Err(Error::Arity { path: path.copied(), expected: n, found: items.len() })
            } else {
                Ok(items)
            },
            Err(e) => Err(e),
        }
    }

    fn u32_(&self, path: &Path) -> (r: Result<u32, Error>) {
        match self.int_(path) {
            Ok(v) => if 0 <= v && v <= 0xffff_ffff {
                Ok(v as u32)
            } else {
                Err(Error::Range { path: path.copied(), value: v, target: "u32" })
            },
            Err(e) => Err(e),
        }
    }
}

} // verus!
