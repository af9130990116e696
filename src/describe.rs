//! One-line descriptions of instructions, for drivers that show what a
//! machine is doing.

use crate::machine::Instruction;
use crate::sheet::Word;
use crate::text::{chars_of, decimal, decimal_chars, int_chars, int_text, string_of};
use crate::value::IntoChars;
use std::cmp::Ordering;
use vstd::prelude::*;

verus! {

/// `s` without its newlines.
pub open spec fn without_newlines(s: Seq<char>) -> Seq<char>
    decreases s.len(),
{
    if s.len() == 0 {
        s
    } else if s.last() == '\n' {
        without_newlines(s.drop_last())
    } else {
        without_newlines(s.drop_last()).push(s.last())
    }
}

/// A word as `(column, row, length)`.
pub open spec fn word_text(w: Word) -> Seq<char> {
    "("@ + int_text(w.0.0 as int) + ", "@ + int_text(w.0.1 as int) + ", "@ + decimal(w.1 as nat) + ")"@
}

/// Words separated by commas.
pub open spec fn words_text(ws: Seq<Word>) -> Seq<char>
    decreases ws.len(),
{
    if ws.len() == 0 {
        Seq::empty()
    } else if ws.len() == 1 {
        word_text(ws[0])
    } else {
        words_text(ws.drop_last()) + ", "@ + word_text(ws.last())
    }
}

pub open spec fn order_text(o: Ordering) -> Seq<char> {
    match o {
        Ordering::Less => "Less"@,
        Ordering::Equal => "Equal"@,
        Ordering::Greater => "Greater"@,
    }
}

/// The description of instruction `i`: its name, then its operands.
pub open spec fn describe_text(i: Instruction) -> Seq<char> {
    match i {
        Instruction::Write(v) => "Write `"@ + without_newlines(v.chars_spec()) + "'"@,
        Instruction::Call(p, a) => "Call prog["@ + decimal(p@.len()) + "](["@ + words_text(a@) + "])"@,
        Instruction::Circle(w) => "Circle "@ + word_text(w),
        Instruction::Add(a, b) => "Add "@ + word_text(a) + " "@ + word_text(b),
        Instruction::Sub(a, b) => "Sub "@ + word_text(a) + " "@ + word_text(b),
        Instruction::Mod(a, b) => "Mod "@ + word_text(a) + " "@ + word_text(b),
        Instruction::Copy(w) => "Copy "@ + word_text(w),
        Instruction::TrimmedCopy(w) => "TrimmedCopy "@ + word_text(w),
        Instruction::Jump(k) => "Jump "@ + int_text(k as int),
        Instruction::JumpRelIf(w, o, v, k) => "JumpRelIf "@ + word_text(w) + " "@ + order_text(o) + " "@
            + int_text(v as int) + " "@ + int_text(k as int),
        Instruction::JumpRelCmp(a, b, o, k) => "JumpRelCmp "@ + word_text(a) + " "@ + word_text(b) + " "@
            + order_text(o) + " "@ + int_text(k as int),
        Instruction::JumpRelIfStr(w, t, k) => "JumpRelIfStr "@ + word_text(w) + " `"@ + t@ + "' "@
            + int_text(k as int),
        Instruction::MoveCursor(dx, dy) => "MoveCursor "@ + int_text(dx as int) + " "@ + int_text(
            dy as int,
        ),
        Instruction::BreakPoint => "BreakPoint"@,
        Instruction::Stop => "STOP"@,
    }
}

fn push_str(out: &mut Vec<char>, s: &str)
    ensures
        final(out)@ == old(out)@ + s@,
{
    let mut t = chars_of(s);
    out.append(&mut t);
}

fn push_chars(out: &mut Vec<char>, t: &Vec<char>)
    ensures
        final(out)@ == old(out)@ + t@,
{
    let mut i: usize = 0;
    while i < t.len()
        invariant
            i <= t@.len(),
            out@ == old(out)@ + t@.subrange(0, i as int),
        decreases t.len() - i,
    {
        out.push(t[i]);
        i = i + 1;
        assert(out@ =~= old(out)@ + t@.subrange(0, i as int));
    }
    assert(t@.subrange(0, t@.len() as int) =~= t@);
}

fn push_int(out: &mut Vec<char>, n: i64)
    ensures
        final(out)@ == old(out)@ + int_text(n as int),
{
    let t = int_chars(n);
    push_chars(out, &t);
}

fn push_count(out: &mut Vec<char>, n: usize)
    ensures
        final(out)@ == old(out)@ + decimal(n as nat),
{
    let t = decimal_chars(n as u64);
    push_chars(out, &t);
}

fn push_word(out: &mut Vec<char>, w: Word)
    ensures
        final(out)@ == old(out)@ + word_text(w),
{
    push_str(out, "(");
    push_int(out, w.0.0);
    push_str(out, ", ");
    push_int(out, w.0.1);
    push_str(out, ", ");
    push_count(out, w.1);
    push_str(out, ")");
    assert(out@ =~= old(out)@ + word_text(w));
}

fn push_order(out: &mut Vec<char>, o: Ordering)
    ensures
        final(out)@ == old(out)@ + order_text(o),
{
    match o {
        Ordering::Less => push_str(out, "Less"),
        Ordering::Equal => push_str(out, "Equal"),
        Ordering::Greater => push_str(out, "Greater"),
    }
}

impl Instruction {
    /// The name of the instruction followed by its operands, on one line.
    pub fn describe(&self) -> (r: String)
        ensures
            r@ == describe_text(*self),
    {
        let mut out: Vec<char> = Vec::new();
        match self {
            Instruction::Write(v) => {
                push_str(&mut out, "Write `");
                let t = v.chars_ref();
                let mut i: usize = 0;
                let ghost base = out@;
                while i < t.len()
                    invariant
                        i <= t@.len(),
                        out@ == base + without_newlines(t@.subrange(0, i as int)),
                    decreases t.len() - i,
                {
                    assert(t@.subrange(0, i + 1).drop_last() =~= t@.subrange(0, i as int));
                    if t[i] != '\n' {
                        out.push(t[i]);
                    }
                    i = i + 1;
                }
                assert(t@.subrange(0, t@.len() as int) =~= t@);
                push_str(&mut out, "'");
                assert(out@ =~= describe_text(*self));
            },
            Instruction::Call(p, a) => {
                push_str(&mut out, "Call prog[");
                push_count(&mut out, p.len());
                push_str(&mut out, "]([");
                let ghost base = out@;
                let mut k: usize = 0;
                while k < a.len()
                    invariant
                        k <= a@.len(),
                        out@ == base + words_text(a@.subrange(0, k as int)),
                    decreases a.len() - k,
                {
                    assert(a@.subrange(0, k + 1).drop_last() =~= a@.subrange(0, k as int));
                    if k > 0 {
                        push_str(&mut out, ", ");
                    } else {
                        assert(a@.subrange(0, 0) =~= Seq::<Word>::empty());
                    }
                    push_word(&mut out, a[k]);
                    k = k + 1;
                }
                assert(a@.subrange(0, a@.len() as int) =~= a@);
                push_str(&mut out, "])");
                assert(out@ =~= describe_text(*self));
            },
            Instruction::Circle(w) => {
                push_str(&mut out, "Circle ");
                push_word(&mut out, *w);
            },
            Instruction::Add(x, y) => {
                push_str(&mut out, "Add ");
                push_word(&mut out, *x);
                push_str(&mut out, " ");
                push_word(&mut out, *y);
            },
            Instruction::Sub(x, y) => {
                push_str(&mut out, "Sub ");
                push_word(&mut out, *x);
                push_str(&mut out, " ");
                push_word(&mut out, *y);
            },
            Instruction::Mod(x, y) => {
                push_str(&mut out, "Mod ");
                push_word(&mut out, *x);
                push_str(&mut out, " ");
                push_word(&mut out, *y);
            },
            Instruction::Copy(w) => {
                push_str(&mut out, "Copy ");
                push_word(&mut out, *w);
            },
            Instruction::TrimmedCopy(w) => {
                push_str(&mut out, "TrimmedCopy ");
                push_word(&mut out, *w);
            },
            Instruction::Jump(k) => {
                push_str(&mut out, "Jump ");
                push_int(&mut out, *k);
            },
            Instruction::JumpRelIf(w, o, v, k) => {
                push_str(&mut out, "JumpRelIf ");
                push_word(&mut out, *w);
                push_str(&mut out, " ");
                push_order(&mut out, *o);
                push_str(&mut out, " ");
                push_int(&mut out, *v);
                push_str(&mut out, " ");
                push_int(&mut out, *k);
            },
            Instruction::JumpRelCmp(x, y, o, k) => {
                push_str(&mut out, "JumpRelCmp ");
                push_word(&mut out, *x);
                push_str(&mut out, " ");
                push_word(&mut out, *y);
                push_str(&mut out, " ");
                push_order(&mut out, *o);
                push_str(&mut out, " ");
                push_int(&mut out, *k);
            },
            Instruction::JumpRelIfStr(w, t, k) => {
                push_str(&mut out, "JumpRelIfStr ");
                push_word(&mut out, *w);
                push_str(&mut out, " `");
                push_chars(&mut out, t);
                push_str(&mut out, "' ");
                push_int(&mut out, *k);
            },
            Instruction::MoveCursor(dx, dy) => {
                push_str(&mut out, "MoveCursor ");
                push_int(&mut out, *dx);
                push_str(&mut out, " ");
                push_int(&mut out, *dy);
            },
            Instruction::BreakPoint => push_str(&mut out, "BreakPoint"),
            Instruction::Stop => push_str(&mut out, "STOP"),
        }
        assert(out@ =~= describe_text(*self));
        string_of(&out)
    }
}

} // verus!
