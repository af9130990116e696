//! Values written to and read from the sheet, and the errors of the engine.

use crate::text::{chars_of, format_number, number_of, number_text, parse_number};
use vstd::prelude::*;

verus! {

/// Why a step or a read could not be carried out.
#[derive(Clone, Copy, Debug, PartialEq, Eq, Structural)]
pub enum VmError {
    /// The characters read do not hold a value of the requested kind.
    Conversion,
    /// The instruction pointer is outside the program.
    OutOfBounds,
    /// The program executed its explicit halt.
    FatalHalt,
    /// The machine already executed its circle.
    AlreadyFinished,
    /// A position would leave the range of `i64`.
    OffSheet,
    /// A sum, difference or remainder has no value in `i64` (or the divisor is zero).
    Arithmetic,
}

/// A value an instruction writes: a number, in a fixed-width field, or raw text.
#[derive(Debug)]
pub enum Value {
    Number(i64),
    Text(Vec<char>),
}

/// What can be written on the sheet, as the characters it is written as.
pub trait IntoChars {
    spec fn chars_spec(&self) -> Seq<char>;

    fn chars_ref(&self) -> (r: Vec<char>)
        ensures
            r@ == self.chars_spec(),
    ;
}

/// What can be read back from the characters of a word.
pub trait FromChars: Sized {
    /// Whether `s` holds a value of this kind.
    spec fn parses(s: Seq<char>) -> bool;

    /// Whether `v` is the value that `s` holds.
    spec fn parses_to(s: Seq<char>, v: Self) -> bool;

    fn from_chars(chars: Vec<char>) -> (r: Result<Self, VmError>)
        ensures
            Self::parses(chars@) ==> r is Ok && Self::parses_to(chars@, r->Ok_0),
            !Self::parses(chars@) ==> r == Err::<Self, VmError>(VmError::Conversion),
    ;
}

impl IntoChars for Value {
    open spec fn chars_spec(&self) -> Seq<char> {
        match self {
            Value::Number(n) => number_text(*n as int),
            Value::Text(t) => t@,
        }
    }

    fn chars_ref(&self) -> (r: Vec<char>) {
        match self {
            Value::Number(n) => format_number(*n),
            Value::Text(t) => t.clone(),
        }
    }
}

impl IntoChars for i64 {
    open spec fn chars_spec(&self) -> Seq<char> {
        number_text(*self as int)
    }

    fn chars_ref(&self) -> (r: Vec<char>) {
        format_number(*self)
    }
}

impl IntoChars for char {
    open spec fn chars_spec(&self) -> Seq<char> {
        seq![*self]
    }

    fn chars_ref(&self) -> (r: Vec<char>) {
        let mut r: Vec<char> = Vec::new();
        r.push(*self);
        assert(r@ =~= seq![*self]);
        r
    }
}

impl IntoChars for Vec<char> {
    open spec fn chars_spec(&self) -> Seq<char> {
        self@
    }

    fn chars_ref(&self) -> (r: Vec<char>) {
        self.clone()
    }
}

impl<'a> IntoChars for &'a str {
    open spec fn chars_spec(&self) -> Seq<char> {
        (*self)@
    }

    fn chars_ref(&self) -> (r: Vec<char>) {
        chars_of(*self)
    }
}

impl IntoChars for String {
    open spec fn chars_spec(&self) -> Seq<char> {
        self@
    }

    fn chars_ref(&self) -> (r: Vec<char>) {
        chars_of(self.as_str())
    }
}

impl FromChars for i64 {
    open spec fn parses(s: Seq<char>) -> bool {
        number_of(s) is Some
    }

    open spec fn parses_to(s: Seq<char>, v: i64) -> bool {
        number_of(s) == Some(v as int)
    }

    fn from_chars(chars: Vec<char>) -> (r: Result<i64, VmError>) {
        match parse_number(&chars) {
            Some(v) => Ok(v),
            None => Err(VmError::Conversion),
        }
    }
}

impl FromChars for Vec<char> {
    open spec fn parses(s: Seq<char>) -> bool {
        true
    }

    open spec fn parses_to(s: Seq<char>, v: Vec<char>) -> bool {
        v@ == s
    }

    fn from_chars(chars: Vec<char>) -> (r: Result<Vec<char>, VmError>) {
        Ok(chars)
    }
}

} // verus!
