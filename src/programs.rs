//! Paper programs for a few algorithms, written in the instruction set.
//! Numbers live in fields of `CHARS_PER_NUMBER` characters.

use crate::instructions;
use crate::instructions::{
    breakpoint, call, circle, copy, copy_trimmed, jump, jump_rel_cmp, jump_rel_if, jump_rel_if_str,
    move_cursor,
};
use crate::machine::Instruction;
use crate::sheet::{Pos, Word};
use crate::text::CHARS_PER_NUMBER;
use std::cmp::Ordering;
use vstd::prelude::*;

verus! {

/// Width of a number field.
const CPF: usize = CHARS_PER_NUMBER;

/// Width of a number field, as a column offset.
const CPFI: i64 = 10;

/// Writes `a` and `b`, calls `gcd` on them, and circles what it hands back.
pub fn gcd_main(a: i64, b: i64) -> (r: Vec<Instruction>)
    ensures
        r@.len() == 4,
        r@[3] == Instruction::Circle(Word(Pos(-10i64, 0i64), 10usize)),
{
    vec![
        instructions::write(a),
        instructions::write(b),
        call(gcd(), vec![(-20, 0, CPF), (-10, 0, CPF)]),
        circle((-10, 0, CPF)),
    ]
}

/// Euclid's algorithm on a table of columns `b`, `a`, `t`, one row per
/// round, with `Mod` doing the division; circles the last non-zero `b`.
pub fn gcd() -> (r: Vec<Instruction>)
    ensures
        r@.len() == 12,
        r@[11] == Instruction::Circle(Word(Pos(10i64, -1i64), 10usize)),
{
    vec![
        instructions::write("\n         b"),
        instructions::write("         a"),
        instructions::write("         t\n"),
        copy((0, -2, CPF)),
        copy((0, -2, CPF)),
        // t := b
        copy((-20, 0, CPF)),
        instructions::write("\n"),
        // b := a % b
        instructions::modulo((CPFI, -1, CPF), (0, -1, CPF)),
        jump_rel_if((-10, 0, CPF), Ordering::Equal, 0, 3),
        // a := t
        copy((CPFI, -1, CPF)),
        jump(-5),
        circle((CPFI, -1, CPF)),
    ]
}

/// The remainder of two arguments by repeated subtraction, each written out
/// as a line `x - y = z`.
pub fn modulo_prog() -> (r: Vec<Instruction>)
    ensures
        r@.len() == 21,
        r@[18] == Instruction::Circle(Word(Pos(-10i64, -1i64), 10usize)),
        r@[20] == Instruction::Circle(Word(Pos(0i64, -1i64), 10usize)),
{
    vec![
        instructions::write("\n"),
        copy_trimmed((0, -1, CPF)),
        instructions::write(" % "),
        copy_trimmed((CPFI - 3, -1, CPF)),
        instructions::write("\n"),
        copy((0, -2, CPF)),
        instructions::write(" - "),
        copy((-3, -2, CPF)),
        instructions::write(" = "),
        instructions::sub((-26, 0, CPF), (-13, 0, CPF)),
        jump_rel_if((-10, 0, CPF), Ordering::Less, 0, 9),
        instructions::write("\n"),
        copy((CPFI * 2 + 6, -1, CPF)),
        instructions::write(" - "),
        copy((0, -1, CPF)),
        instructions::write(" = "),
        instructions::sub((-26, 0, CPF), (-13, 0, CPF)),
        jump_rel_if((-10, 0, CPF), Ordering::Greater, 0, -6),
        circle((-10, -1, CPF)),
        instructions::write("\n"),
        circle((0, -1, CPF)),
    ]
}

/// Euclid's algorithm as `gcd`, with each remainder worked out by a call
/// of `modulo_prog`.
pub fn gcd_with_mod() -> (r: Vec<Instruction>)
    ensures
        r@.len() == 13,
        r@[12] == Instruction::Circle(Word(Pos(10i64, -1i64), 10usize)),
{
    vec![
        instructions::write("\n         b"),
        instructions::write("         a"),
        instructions::write("         t\n"),
        copy((0, -2, CPF)),
        copy((0, -2, CPF)),
        // t := b
        copy((-20, 0, CPF)),
        instructions::write("\n"),
        // b := a % b
        call(modulo_prog(), vec![(CPFI, -1, CPF), (0, -1, CPF)]),
        jump_rel_if((-10, 0, CPF), Ordering::Equal, 0, 3),
        // a := t
        copy((CPFI, -1, CPF)),
        jump(-5),
        breakpoint(),
        circle((CPFI, -1, CPF)),
    ]
}

/// Rows of Pascal's triangle, each entry the sum of the two above it,
/// without end.
pub fn pascals_triangle() -> (r: Vec<Instruction>)
    ensures
        r@.len() == 16,
        r@[15] == Instruction::BreakPoint,
{
    let spacing: i64 = 1;
    vec![
        instructions::write(1i64),
        move_cursor(-20, spacing),
        instructions::write(1i64),
        move_cursor(CPFI, 0),
        instructions::write(1i64),
        move_cursor(-21, 0),
        jump_rel_if_str((0, 0, 1usize), " ", 3),
        move_cursor(1, 0),
        jump(-3),
        move_cursor(1, 1),
        instructions::write(1i64),
        move_cursor(CPFI, 0),
        instructions::add((-10, -1, CPF), (CPFI, -1, CPF)),
        jump_rel_if_str((CPFI - 1, -1, 1usize), " ", -8),
        jump(-3),
        breakpoint(),
    ]
}

/// The Fibonacci numbers, one per row, without end.
pub fn fibonacci() -> (r: Vec<Instruction>)
    ensures
        r@.len() == 8,
        r@[7] == Instruction::BreakPoint,
{
    vec![
        instructions::write(1i64),
        move_cursor(-10, 1),
        instructions::write(1i64),
        move_cursor(-10, 1),
        instructions::add((0, -1, CPF), (0, -2, CPF)),
        move_cursor(-10, 1),
        jump(-2),
        breakpoint(),
    ]
}

/// Bubble sort of the numbers on the row above, one pass per row, without end.
pub fn sort() -> (r: Vec<Instruction>)
    ensures
        r@.len() == 16,
        r@[15] == Instruction::Jump(-15i64),
{
    vec![
        instructions::write("\n"),
        jump(2),
        move_cursor(-10, 0),
        jump_rel_cmp((0, -1, CPF), (CPFI, -1, CPF), Ordering::Greater, 7),
        copy((0, -1, CPF)),
        copy((0, -1, CPF)),
        jump_rel_if_str((CPFI, -1, 1usize), " ", 2),
        jump(-4),
        copy((0, -1, CPF)),
        jump(-9),
        copy((CPFI, -1, CPF)),
        copy((-10, -1, CPF)),
        jump_rel_if_str((CPFI, -1, 1usize), " ", 2),
        jump(-10),
        copy((0, -1, CPF)),
        jump(-15),
    ]
}

} // verus!
