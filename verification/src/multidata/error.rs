//! Where and why a seed could not be read.

use crate::datastore::ops::{debug_quoted, debug_text};
use crate::text::{dec, dec_int, push_decimal, push_signed};
use vstd::prelude::*;

verus! {

/// Where in the seed a problem is, such as `slot_info[3].game`.
#[derive(Debug, Clone, PartialEq, Eq)]
pub struct Path {
    pub text: String,
}

/// The path of a key below a path.
pub open spec fn key_path(p: Seq<char>, k: Seq<char>) -> Seq<char> {
    if p.len() == 0 {
        k
    } else {
        p + "."@ + k
    }
}

/// The path of an element below a path.
pub open spec fn index_path(p: Seq<char>, i: Seq<char>) -> Seq<char> {
    p + "["@ + i + "]"@
}

/// The path of the element with a number below a path.
pub open spec fn at_path(p: Seq<char>, i: int) -> Seq<char> {
    index_path(p, dec_int(i))
}

/// How a path is shown.
pub open spec fn shown_path(p: Seq<char>) -> Seq<char> {
    if p.len() == 0 {
        "<root>"@
    } else {
        p
    }
}

impl View for Path {
    type V = Seq<char>;

    open spec fn view(&self) -> Seq<char> {
        self.text@
    }
}

impl Path {
    pub fn root() -> (r: Path)
        ensures
            r@ == Seq::<char>::empty(),
    {
        Path { text: String::new() }
    }

    pub fn key(&self, k: &str) -> (r: Path)
        ensures
            r@ == key_path(self@, k@),
    {
        if self.text.as_str().is_empty() {
            Path { text: k.to_owned() }
        } else {
            let mut text = self.text.clone();
            text.append(".");
            text.append(k);
            Path { text }
        }
    }

    /// The path of the element that the text names.
    pub fn index_text(&self, i: &str) -> (r: Path)
        ensures
            r@ == index_path(self@, i@),
    {
        let mut text = self.text.clone();
        text.append("[");
        text.append(i);
        text.append("]");
        Path { text }
    }

    pub fn index(&self, i: u64) -> (r: Path)
        ensures
            r@ == at_path(self@, i as int),
    {
        let n = crate::text::decimal(i);
        self.index_text(n.as_str())
    }

    pub fn copied(&self) -> (r: Path)
        ensures
            r@ == self@,
    {
        Path { text: self.text.clone() }
    }

    /// The path as it is shown.
    pub fn shown(&self) -> (r: String)
        ensures
            r@ == shown_path(self@),
    {
        if self.text.as_str().is_empty() {
            "<root>".to_string()
        } else {
            self.text.clone()
        }
    }
}

/// Why a seed could not be read.
#[allow(inconsistent_fields)]
#[derive(Debug, Clone, PartialEq, Eq)]
pub enum Error {
    Empty,
    UnsupportedFormat(u8),
    /// The compressed stream is broken; the text says how.
    Decompress(String),
    /// The pickle is broken; the text says how.
    Pickle(String),
    PickleTooLarge { limit: u64 },
    TooManyPrecollectedItems { found: u64, limit: u64 },
    Missing { path: Path },
    Type { path: Path, expected: &'static str, found: &'static str },
    Arity { path: Path, expected: usize, found: usize },
    Range { path: Path, value: i64, target: &'static str },
    Enum { path: Path, name: &'static str, value: i64 },
    Locations(String),
    DataPackage { game: String, reason: String },
    Snapshot(String),
}

/// The model of an [`Error`].
pub enum Problem {
    Empty,
    UnsupportedFormat(u8),
    Decompress(Seq<char>),
    Pickle(Seq<char>),
    PickleTooLarge(u64),
    TooManyPrecollectedItems(u64, u64),
    Missing(Seq<char>),
    Type(Seq<char>, Seq<char>, Seq<char>),
    Arity(Seq<char>, int, int),
    Range(Seq<char>, int, Seq<char>),
    Enum(Seq<char>, Seq<char>, int),
    Locations(Seq<char>),
    DataPackage(Seq<char>, Seq<char>),
    Snapshot(Seq<char>),
}

impl View for Error {
    type V = Problem;

    open spec fn view(&self) -> Problem {
        match self {
            Error::Empty => Problem::Empty,
            Error::UnsupportedFormat(v) => Problem::UnsupportedFormat(*v),
            Error::Decompress(s) => Problem::Decompress(s@),
            Error::Pickle(s) => Problem::Pickle(s@),
            Error::PickleTooLarge { limit } => Problem::PickleTooLarge(*limit),
            Error::TooManyPrecollectedItems { found, limit } =>
                Problem::TooManyPrecollectedItems(*found, *limit),
            Error::Missing { path } => Problem::Missing(path@),
            Error::Type { path, expected, found } => Problem::Type(path@, expected@, found@),
            Error::Arity { path, expected, found } => Problem::Arity(
                path@,
                *expected as int,
                *found as int,
            ),
            Error::Range { path, value, target } => Problem::Range(path@, *value as int, target@),
            Error::Enum { path, name, value } => Problem::Enum(path@, name@, *value as int),
            Error::Locations(s) => Problem::Locations(s@),
            Error::DataPackage { game, reason } => Problem::DataPackage(game@, reason@),
            Error::Snapshot(s) => Problem::Snapshot(s@),
        }
    }
}

/// The model of a result.
pub open spec fn outcome<T: DeepView>(r: Result<T, Error>) -> Result<T::V, Problem> {
    match r {
        Ok(t) => Ok(t.deep_view()),
        Err(e) => Err(e@),
    }
}

/// The message of a problem.
pub open spec fn problem_text(p: Problem) -> Seq<char> {
    match p {
        Problem::Empty => "multidata is empty"@,
        Problem::UnsupportedFormat(v) => "unsupported multidata format version "@ + dec(v as nat)
            + " (this server understands up to 3)"@,
        Problem::Decompress(s) => "could not decompress multidata: "@ + s,
        Problem::Pickle(s) => "could not decode multidata pickle: "@ + s,
        Problem::PickleTooLarge(limit) => "multidata inflates to more than "@ + dec(limit as nat)
            + " bytes"@,
        Problem::TooManyPrecollectedItems(found, limit) => "multidata grants "@ + dec(found as nat)
            + " precollected items, more than the "@ + dec(limit as nat) + " allowed"@,
        Problem::Missing(path) => shown_path(path) + ": missing required key"@,
        Problem::Type(path, expected, found) => shown_path(path) + ": expected "@ + expected
            + ", found "@ + found,
        Problem::Arity(path, expected, found) => shown_path(path) + ": expected "@ + dec_int(
            expected,
        ) + ", found a "@ + dec_int(found) + "-element tuple"@,
        Problem::Range(path, value, target) => shown_path(path) + ": value "@ + dec_int(value)
            + " is out of range for "@ + target,
        Problem::Enum(path, name, value) => shown_path(path) + ": "@ + dec_int(value)
            + " is not a valid "@ + name,
        Problem::Locations(s) => "locations table is invalid: "@ + s,
        Problem::DataPackage(game, reason) => "data package for "@ + debug_quoted(game)
            + " is invalid: "@ + reason,
        Problem::Snapshot(s) => "could not read data package snapshot: "@ + s,
    }
}

impl Error {
    /// The message.
    pub fn message(&self) -> (r: String)
        ensures
            r@ == problem_text(self@),
    {
        match self {
            Error::Empty => "multidata is empty".to_string(),
            Error::UnsupportedFormat(v) => {
                let mut s = "unsupported multidata format version ".to_string();
                push_decimal(&mut s, *v as u64);
                s.append(" (this server understands up to 3)");
                s
            },
            Error::Decompress(why) => {
                let mut s = "could not decompress multidata: ".to_string();
                s.append(why.as_str());
                s
            },
            Error::Pickle(why) => {
                let mut s = "could not decode multidata pickle: ".to_string();
                s.append(why.as_str());
                s
            },
            Error::PickleTooLarge { limit } => {
                let mut s = "multidata inflates to more than ".to_string();
                push_decimal(&mut s, *limit);
                s.append(" bytes");
                s
            },
            Error::TooManyPrecollectedItems { found, limit } => {
                let mut s = "multidata grants ".to_string();
                push_decimal(&mut s, *found);
                s.append(" precollected items, more than the ");
                push_decimal(&mut s, *limit);
                s.append(" allowed");
                s
            },
            Error::Missing { path } => {
                let mut s = path.shown();
                s.append(": missing required key");
                s
            },
            Error::Type { path, expected, found } => {
                let mut s = path.shown();
                s.append(": expected ");
                s.append(expected);
                s.append(", found ");
                s.append(found);
                s
            },
            Error::Arity { path, expected, found } => {
                let mut s = path.shown();
                s.append(": expected ");
                push_decimal(&mut s, *expected as u64);
                s.append(", found a ");
                push_decimal(&mut s, *found as u64);
                s.append("-element tuple");
                s
            },
            Error::Range { path, value, target } => {
                let mut s = path.shown();
                s.append(": value ");
                push_signed(&mut s, *value);
                s.append(" is out of range for ");
                s.append(target);
                s
            },
            Error::Enum { path, name, value } => {
                let mut s = path.shown();
                s.append(": ");
                push_signed(&mut s, *value);
                s.append(" is not a valid ");
                s.append(name);
                s
            },
            Error::Locations(why) => {
                let mut s = "locations table is invalid: ".to_string();
                s.append(why.as_str());
                s
            },
            Error::DataPackage { game, reason } => {
                let mut s = "data package for ".to_string();
                s.append(debug_text(game.as_str()).as_str());
                s.append(" is invalid: ");
                s.append(reason.as_str());
                s
            },
            Error::Snapshot(why) => {
                let mut s = "could not read data package snapshot: ".to_string();
                s.append(why.as_str());
                s
            },
        }
    }
}

} // verus!
