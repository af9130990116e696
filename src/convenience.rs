//! Wrapping a program so that it is called with given inputs.

use crate::machine::Instruction;
use crate::sheet::{Pos, Word};
use crate::value::{IntoChars, Value};
use std::sync::Arc;
use vstd::prelude::*;

verus! {

/// Total length of the characters of the first `i` inputs.
pub open spec fn lens_before<X: IntoChars>(s: Seq<X>, i: int) -> int
    decreases i,
{
    if i <= 0 {
        0
    } else {
        lens_before(s, i - 1) + s[i - 1].chars_spec().len()
    }
}

proof fn lemma_lens_grow<X: IntoChars>(s: Seq<X>, i: int, j: int)
    requires
        0 <= i <= j,
    ensures
        0 <= lens_before(s, i) <= lens_before(s, j),
    decreases j,
{
    if j > i {
        lemma_lens_grow(s, i, j - 1);
    } else if i > 0 {
        lemma_lens_grow(s, 0, i - 1);
    }
}

/// A program that writes the inputs side by side, calls `program` with one
/// argument word per input, and circles the `return_size` characters just
/// written back by the call.
pub fn call_static<X: IntoChars>(program: Vec<Instruction>, inputs: Vec<X>, return_size: usize) -> (r: Vec<Instruction>)
    requires
        lens_before(inputs@, inputs@.len() as int) <= i64::MAX,
        return_size <= i64::MAX,
    ensures
        r@.len() == inputs@.len() + 2,
        forall|i: int|
            0 <= i < inputs@.len() ==> ((#[trigger] r@[i]) matches Instruction::Write(Value::Text(t)) && t@
                == inputs@[i].chars_spec()),
        r@[inputs@.len() as int] matches Instruction::Call(p, a) && p@ == program@ && a@.len() == inputs@.len()
            && forall|i: int|
            0 <= i < inputs@.len() ==> #[trigger] a@[i] == Word(
                Pos(
                    (lens_before(inputs@, i) - lens_before(inputs@, inputs@.len() as int)) as i64,
                    0,
                ),
                inputs@[i].chars_spec().len() as usize,
            ),
        r@[inputs@.len() + 1int] == Instruction::Circle(Word(Pos((-return_size) as i64, 0), return_size)),
{
    let n = inputs.len();
    let mut main: Vec<Instruction> = Vec::new();
    let mut sizes: Vec<usize> = Vec::new();
    let mut total: i64 = 0;
    let mut i: usize = 0;
    while i < n
        invariant
            i <= n == inputs@.len(),
            lens_before(inputs@, n as int) <= i64::MAX,
            main@.len() == i,
            sizes@.len() == i,
            total == lens_before(inputs@, i as int),
            forall|j: int|
                0 <= j < i ==> ((#[trigger] main@[j]) matches Instruction::Write(Value::Text(t)) && t@
                    == inputs@[j].chars_spec()),
            forall|j: int| 0 <= j < i ==> #[trigger] sizes@[j] == inputs@[j].chars_spec().len(),
        decreases n - i,
    {
        let chars = inputs[i].chars_ref();
        proof {
            lemma_lens_grow(inputs@, i + 1, n as int);
            lemma_lens_grow(inputs@, i as int, n as int);
        }
        let l = chars.len();
        total = total + l as i64;
        sizes.push(l);
        main.push(Instruction::Write(Value::Text(chars)));
        i = i + 1;
    }
    let mut words: Vec<Word> = Vec::new();
    let mut x: i64 = 0;
    let mut j: usize = 0;
    while j < n
        invariant
            j <= n == inputs@.len() == sizes@.len(),
            total == lens_before(inputs@, n as int),
            total <= i64::MAX,
            x == lens_before(inputs@, j as int),
            words@.len() == j,
            forall|k: int| 0 <= k < n ==> #[trigger] sizes@[k] == inputs@[k].chars_spec().len(),
            forall|k: int|
                0 <= k < j ==> #[trigger] words@[k] == Word(
                    Pos((lens_before(inputs@, k) - lens_before(inputs@, n as int)) as i64, 0),
                    inputs@[k].chars_spec().len() as usize,
                ),
        decreases n - j,
    {
        proof {
            lemma_lens_grow(inputs@, j as int, n as int);
            lemma_lens_grow(inputs@, j + 1, n as int);
        }
        words.push(Word(Pos(x - total, 0), sizes[j]));
        x = x + sizes[j] as i64;
        j = j + 1;
    }
    main.push(Instruction::Call(Arc::new(program), words));
    main.push(Instruction::Circle(Word(Pos(-(return_size as i64), 0), return_size)));
    main
}

} // verus!
