//! Short constructors for instructions, with words given as
//! `(column offset, row offset, length)`.

use crate::machine::Instruction;
use crate::sheet::{Pos, Word};
use crate::value::{IntoChars, Value};
use std::cmp::Ordering;
use std::sync::Arc;
use vstd::prelude::*;

verus! {

/// The word with the given offset and length.
pub open spec fn word_of(w: (i64, i64, usize)) -> Word {
    Word(Pos(w.0, w.1), w.2)
}

/// Writes the characters of `chars`.
pub fn write<V: IntoChars>(chars: V) -> (r: Instruction)
    ensures
        r matches Instruction::Write(Value::Text(t)) && t@ == chars.chars_spec(),
{
    Instruction::Write(Value::Text(chars.chars_ref()))
}

/// Calls `instructions` with the given argument words.
pub fn call(instructions: Vec<Instruction>, args: Vec<(i64, i64, usize)>) -> (r: Instruction)
    ensures
        r matches Instruction::Call(p, a) && p@ == instructions@ && a@.len() == args@.len()
            && forall|i: int| 0 <= i < args@.len() ==> a@[i] == word_of(#[trigger] args@[i]),
{
    let mut words: Vec<Word> = Vec::new();
    let mut i: usize = 0;
    while i < args.len()
        invariant
            i <= args@.len(),
            words@.len() == i,
            forall|j: int| 0 <= j < i ==> words@[j] == word_of(#[trigger] args@[j]),
        decreases args.len() - i,
    {
        let (x, y, n) = args[i];
        words.push(Word(Pos(x, y), n));
        i = i + 1;
    }
    Instruction::Call(Arc::new(instructions), words)
}

pub fn circle(word: (i64, i64, usize)) -> (r: Instruction)
    ensures
        r == Instruction::Circle(word_of(word)),
{
    Instruction::Circle(Word(Pos(word.0, word.1), word.2))
}

pub fn copy(word: (i64, i64, usize)) -> (r: Instruction)
    ensures
        r == Instruction::Copy(word_of(word)),
{
    Instruction::Copy(Word(Pos(word.0, word.1), word.2))
}

pub fn copy_trimmed(word: (i64, i64, usize)) -> (r: Instruction)
    ensures
        r == Instruction::TrimmedCopy(word_of(word)),
{
    Instruction::TrimmedCopy(Word(Pos(word.0, word.1), word.2))
}

pub fn jump(rel_jump: i64) -> (r: Instruction)
    ensures
        r == Instruction::Jump(rel_jump),
{
    Instruction::Jump(rel_jump)
}

pub fn jump_rel_if(word: (i64, i64, usize), ordering: Ordering, val: i64, rel_jump: i64) -> (r: Instruction)
    ensures
        r == Instruction::JumpRelIf(word_of(word), ordering, val, rel_jump),
{
    Instruction::JumpRelIf(Word(Pos(word.0, word.1), word.2), ordering, val, rel_jump)
}

pub fn jump_rel_cmp(a: (i64, i64, usize), b: (i64, i64, usize), ordering: Ordering, rel_jump: i64) -> (r: Instruction)
    ensures
        r == Instruction::JumpRelCmp(word_of(a), word_of(b), ordering, rel_jump),
{
    Instruction::JumpRelCmp(Word(Pos(a.0, a.1), a.2), Word(Pos(b.0, b.1), b.2), ordering, rel_jump)
}

pub fn jump_rel_if_str(word: (i64, i64, usize), text: &str, rel_jump: i64) -> (r: Instruction)
    ensures
        r matches Instruction::JumpRelIfStr(w, t, k) && w == word_of(word) && t@ == text@ && k == rel_jump,
{
    Instruction::JumpRelIfStr(Word(Pos(word.0, word.1), word.2), text.chars_ref(), rel_jump)
}

pub fn move_cursor(dx: i64, dy: i64) -> (r: Instruction)
    ensures
        r == Instruction::MoveCursor(dx, dy),
{
    Instruction::MoveCursor(dx, dy)
}

pub fn add(a: (i64, i64, usize), b: (i64, i64, usize)) -> (r: Instruction)
    ensures
        r == Instruction::Add(word_of(a), word_of(b)),
{
    Instruction::Add(Word(Pos(a.0, a.1), a.2), Word(Pos(b.0, b.1), b.2))
}

pub fn sub(a: (i64, i64, usize), b: (i64, i64, usize)) -> (r: Instruction)
    ensures
        r == Instruction::Sub(word_of(a), word_of(b)),
{
    Instruction::Sub(Word(Pos(a.0, a.1), a.2), Word(Pos(b.0, b.1), b.2))
}

pub fn modulo(a: (i64, i64, usize), b: (i64, i64, usize)) -> (r: Instruction)
    ensures
        r == Instruction::Mod(word_of(a), word_of(b)),
{
    Instruction::Mod(Word(Pos(a.0, a.1), a.2), Word(Pos(b.0, b.1), b.2))
}

pub fn breakpoint() -> (r: Instruction)
    ensures
        r == Instruction::BreakPoint,
{
    Instruction::BreakPoint
}

pub fn stop() -> (r: Instruction)
    ensures
        r == Instruction::Stop,
{
    Instruction::Stop
}

} // verus!
