//! A friendlier layer over the instruction set: words addressed in whole
//! number fields, programs given as lines, each line ending in a newline.

use crate::machine::Instruction;
use crate::sheet::Word;
use crate::text::{chars_of, number_text, string_of};
use crate::value::{IntoChars, Value};
use std::cmp::Ordering;
use std::sync::Arc;
use vstd::prelude::*;

verus! {

/// A field position: `x` fields across (each `CHARS_PER_NUMBER` wide) and
/// `y` rows down, relative to the cursor.
#[derive(Clone, Copy, Debug, PartialEq, Eq, Structural)]
pub struct Pos {
    pub x: i32,
    pub y: i32,
}

impl From<(i32, i32)> for Pos {
    fn from(value: (i32, i32)) -> (r: Pos) {
        Pos { x: value.0, y: value.1 }
    }
}

impl vstd::std_specs::convert::FromSpecImpl<(i32, i32)> for Pos {
    open spec fn obeys_from_spec() -> bool {
        true
    }

    open spec fn from_spec(v: (i32, i32)) -> Pos {
        Pos { x: v.0, y: v.1 }
    }
}

impl Pos {
    /// The word of the field.
    pub open spec fn word(self) -> Word {
        Word(crate::sheet::Pos((self.x * 10) as i64, self.y as i64), 10)
    }

    pub fn to_word(&self) -> (r: Word)
        ensures
            r == self.word(),
    {
        Word(crate::sheet::Pos(self.x as i64 * 10, self.y as i64), 10)
    }
}

/// The text of a field: the first characters of `s`, blank-filled to the
/// field's width.
pub open spec fn text_box(s: Seq<char>) -> Seq<char> {
    Seq::new(10, |i: int| if i < s.len() { s[i] } else { ' ' })
}

/// The instructions of the stack layer.
#[derive(Debug)]
pub enum StackInstr {
    /// A field of text.
    Text(Vec<char>),
    /// A number.
    Write(i64),
    Copy(Pos),
    Add(Pos, Pos),
    Sub(Pos, Pos),
    Mod(Pos, Pos),
    Jump(i64),
    JumpRelIf(Pos, Ordering, i64, i64),
    /// Jumps when the field is blank.
    JumpEmpty(Pos, i64),
    JumpRelCmp(Pos, Pos, Ordering, i64),
    /// Circles the field.
    Ret(Pos),
    Break,
    /// Calls the lines of `substack` with the fields of `inputs` as arguments.
    Call { substack: Vec<Vec<StackInstr>>, inputs: Vec<Pos> },
}

fn text_chars(value: &Vec<char>) -> (r: Vec<char>)
    ensures
        r@ == text_box(value@),
{
    let mut r: Vec<char> = Vec::new();
    let mut i: usize = 0;
    while i < 10
        invariant
            i <= 10,
            r@ == text_box(value@).subrange(0, i as int),
        decreases 10 - i,
    {
        if i < value.len() {
            r.push(value[i]);
        } else {
            r.push(' ');
        }
        i = i + 1;
        assert(r@ =~= text_box(value@).subrange(0, i as int));
    }
    assert(r@ =~= text_box(value@));
    r
}

/// A text field holding the start of `value`.
pub fn text(value: &str) -> (r: StackInstr)
    ensures
        r matches StackInstr::Text(t) && t@ == text_box(value@),
{
    StackInstr::Text(text_chars(&chars_of(value)))
}

/// A text field holding the start of `value`, as a string.
pub fn textbox(value: &str) -> (r: String)
    ensures
        r@ == text_box(value@),
{
    string_of(&text_chars(&chars_of(value)))
}

/// The number of instructions that `lines` compile to, calls counting one.
pub open spec fn lines_len(lines: Seq<Vec<StackInstr>>) -> int
    decreases lines.len(),
{
    if lines.len() == 0 {
        0
    } else {
        lines_len(lines.drop_last()) + lines.last()@.len() + 1
    }
}

/// A newline written by itself.
pub open spec fn is_newline(i: Instruction) -> bool {
    i matches Instruction::Write(Value::Text(t)) && t@ == seq!['\n']
}

/// Instruction `i` is what `s` lowers to; of a call, the arguments and the
/// opening newline of the called program are checked here, the rest of
/// that program by the call of `compile_stacker` that built it.
pub open spec fn lowers_to(s: StackInstr, i: Instruction) -> bool {
    match s {
        StackInstr::Text(t) => i matches Instruction::Write(Value::Text(u)) && u@ == t@,
        StackInstr::Write(v) => i matches Instruction::Write(Value::Text(u)) && u@ == number_text(v as int),
        StackInstr::Copy(p) => i == Instruction::Copy(p.word()),
        StackInstr::Add(p, q) => i == Instruction::Add(p.word(), q.word()),
        StackInstr::Sub(p, q) => i == Instruction::Sub(p.word(), q.word()),
        StackInstr::Mod(p, q) => i == Instruction::Mod(p.word(), q.word()),
        StackInstr::Jump(k) => i == Instruction::Jump(k),
        StackInstr::JumpRelIf(p, o, v, k) => i == Instruction::JumpRelIf(p.word(), o, v, k),
        StackInstr::JumpEmpty(p, k) => i matches Instruction::JumpRelIfStr(w, t, d) && w == p.word()
            && t@ == text_box(Seq::empty()) && d == k,
        StackInstr::JumpRelCmp(p, q, o, k) => i == Instruction::JumpRelCmp(p.word(), q.word(), o, k),
        StackInstr::Ret(p) => i == Instruction::Circle(p.word()),
        StackInstr::Break => i == Instruction::BreakPoint,
        StackInstr::Call { substack, inputs } => i matches Instruction::Call(prog, args)
            && prog@.len() == 1 + lines_len(substack@) && is_newline(prog@[0]) && args@.len()
            == inputs@.len() && forall|k: int| 0 <= k < inputs@.len() ==> #[trigger] args@[k] == inputs@[k].word(),
    }
}

/// `out` is what `lines` compile to: each line's instructions in order,
/// each line followed by a newline.
pub open spec fn compiled(lines: Seq<Vec<StackInstr>>, out: Seq<Instruction>) -> bool {
    &&& out.len() == lines_len(lines)
    &&& forall|i: int, j: int|
        0 <= i < lines.len() && 0 <= j < lines[i]@.len() ==> lowers_to(
            #[trigger] lines[i]@[j],
            out[lines_len(lines.take(i)) + j],
        )
    &&& forall|i: int|
        0 <= i < lines.len() ==> is_newline(#[trigger] out[lines_len(lines.take(i)) + lines[i]@.len()])
}


fn newline() -> (r: Instruction)
    ensures
        is_newline(r),
{
    let mut t: Vec<char> = Vec::new();
    t.push('\n');
    assert(t@ =~= seq!['\n']);
    Instruction::Write(Value::Text(t))
}

/// The instruction that `s` lowers to.
fn lower(s: &StackInstr) -> (r: Instruction)
    ensures
        lowers_to(*s, r),
    decreases s,
{
    match s {
        StackInstr::Text(t) => Instruction::Write(Value::Text(t.clone())),
        StackInstr::Write(v) => Instruction::Write(Value::Text(v.chars_ref())),
        StackInstr::Copy(p) => Instruction::Copy(p.to_word()),
        StackInstr::Add(p, q) => Instruction::Add(p.to_word(), q.to_word()),
        StackInstr::Sub(p, q) => Instruction::Sub(p.to_word(), q.to_word()),
        StackInstr::Mod(p, q) => Instruction::Mod(p.to_word(), q.to_word()),
        StackInstr::Jump(k) => Instruction::Jump(*k),
        StackInstr::JumpRelIf(p, o, v, k) => Instruction::JumpRelIf(p.to_word(), *o, *v, *k),
        StackInstr::JumpEmpty(p, k) => {
            let empty: Vec<char> = Vec::new();
            Instruction::JumpRelIfStr(p.to_word(), text_chars(&empty), *k)
        },
        StackInstr::JumpRelCmp(p, q, o, k) => Instruction::JumpRelCmp(p.to_word(), q.to_word(), *o, *k),
        StackInstr::Ret(p) => Instruction::Circle(p.to_word()),
        StackInstr::Break => Instruction::BreakPoint,
        StackInstr::Call { substack, inputs } => {
            let mut prog: Vec<Instruction> = Vec::new();
            prog.push(newline());
            let mut body = compile_lines(substack);
            prog.append(&mut body);
            let mut args: Vec<Word> = Vec::new();
            let mut k: usize = 0;
            while k < inputs.len()
                invariant
                    k <= inputs@.len(),
                    args@.len() == k,
                    forall|m: int| 0 <= m < k ==> #[trigger] args@[m] == inputs@[m].word(),
                decreases inputs.len() - k,
            {
                args.push(inputs[k].to_word());
                k = k + 1;
            }
            Instruction::Call(Arc::new(prog), args)
        },
    }
}

proof fn lemma_lines_len_mono(lines: Seq<Vec<StackInstr>>, a: int, i: int)
    requires
        0 <= a < i <= lines.len(),
    ensures
        lines_len(lines.take(a)) + lines[a]@.len() + 1 <= lines_len(lines.take(i)),
    decreases i - a,
{
    lemma_lines_len_grow(lines, i - 1);
    if a < i - 1 {
        lemma_lines_len_mono(lines, a, i - 1);
    }
    lemma_lines_len_nonneg(lines.take(i - 1));
}

proof fn lemma_lines_len_nonneg(lines: Seq<Vec<StackInstr>>)
    ensures
        lines_len(lines) >= 0,
    decreases lines.len(),
{
    if lines.len() > 0 {
        lemma_lines_len_nonneg(lines.drop_last());
    }
}

proof fn lemma_take_take(lines: Seq<Vec<StackInstr>>, i: int, k: int)
    requires
        0 <= k <= i <= lines.len(),
    ensures
        lines.take(i).take(k) == lines.take(k),
{
    assert(lines.take(i).take(k) =~= lines.take(k));
}

proof fn lemma_lines_len_grow(lines: Seq<Vec<StackInstr>>, i: int)
    requires
        0 <= i < lines.len(),
    ensures
        lines_len(lines.take(i + 1)) == lines_len(lines.take(i)) + lines[i]@.len() + 1,
{
    assert(lines.take(i + 1).drop_last() =~= lines.take(i));
}

/// The instructions that `lines` compile to.
fn compile_lines(lines: &Vec<Vec<StackInstr>>) -> (r: Vec<Instruction>)
    ensures
        compiled(lines@, r@),
    decreases lines,
{
    let mut out: Vec<Instruction> = Vec::new();
    let mut i: usize = 0;
    while i < lines.len()
        invariant
            i <= lines@.len(),
            compiled(lines@.take(i as int), out@),
        decreases lines.len() - i,
    {
        let line = &lines[i];
        let ghost base = out@.len() as int;
        proof {
            assert(base == lines_len(lines@.take(i as int)));
        }
        assert(out@.subrange(0, base) =~= out@);
        let mut j: usize = 0;
        while j < line.len()
            invariant
                i < lines@.len(),
                line == &lines@[i as int],
                j <= line@.len(),
                base == lines_len(lines@.take(i as int)),
                out@.len() == base + j,
                compiled(lines@.take(i as int), out@.subrange(0, base)),
                forall|m: int| 0 <= m < j ==> lowers_to(#[trigger] line@[m], out@[base + m]),
            decreases line.len() - j,
        {
            let ghost prev = out@;
            let ins = lower(&line[j]);
            out.push(ins);
            assert(out@.subrange(0, base) =~= prev.subrange(0, base));
            j = j + 1;
        }
        let ghost before_nl = out@;
        out.push(newline());
        proof {
            let li = lines@.take(i as int);
            let ln = lines@.take(i + 1);
            lemma_lines_len_grow(lines@, i as int);
            assert(out@.subrange(0, base) =~= before_nl.subrange(0, base));
            assert forall|a: int, b: int| 0 <= a < ln.len() && 0 <= b < ln[a]@.len() implies lowers_to(
                #[trigger] ln[a]@[b],
                out@[lines_len(ln.take(a)) + b],
            ) by {
                lemma_take_take(lines@, i + 1, a);
                if a < i {
                    lemma_take_take(lines@, i as int, a);
                    lemma_lines_len_mono(lines@, a, i as int);
                    let sub = before_nl.subrange(0, base);
                    let k = lines_len(lines@.take(a)) + b;
                    assert(li[a] == ln[a]);
                    assert(lowers_to(li[a]@[b], sub[lines_len(li.take(a)) + b]));
                    lemma_lines_len_nonneg(lines@.take(a));
                    assert(0 <= k < base);
                    assert(sub[k] == out@[k]);
                } else {
                    assert(ln.take(a) == li);
                }
            }
            assert forall|a: int| 0 <= a < ln.len() implies is_newline(
                #[trigger] out@[lines_len(ln.take(a)) + ln[a]@.len()],
            ) by {
                lemma_take_take(lines@, i + 1, a);
                if a < i {
                    lemma_take_take(lines@, i as int, a);
                    lemma_lines_len_mono(lines@, a, i as int);
                    let sub = before_nl.subrange(0, base);
                    let k = lines_len(lines@.take(a)) + lines@[a]@.len();
                    assert(li[a] == ln[a]);
                    assert(is_newline(sub[lines_len(li.take(a)) + li[a]@.len()]));
                    lemma_lines_len_nonneg(lines@.take(a));
                    assert(0 <= k < base);
                    assert(sub[k] == out@[k]);
                } else {
                    assert(ln.take(a) == li);
                }
            }
        }
        i = i + 1;
    }
    assert(lines@.take(lines@.len() as int) =~= lines@);
    out
}

/// The instructions that `lines` compile to: each line's instructions in
/// order, fields turned into words, each line followed by a newline; a
/// call's program opens with a newline before its own lines.
pub fn compile_stacker(lines: Vec<Vec<StackInstr>>) -> (r: Vec<Instruction>)
    ensures
        compiled(lines@, r@),
{
    compile_lines(&lines)
}


/// Euclid's algorithm by repeated subtraction on the two fields of the row
/// above: a header row, a copy of the inputs, then the working lines.
pub fn gcd() -> (r: Vec<Vec<StackInstr>>)
    ensures
        r@.len() == 3,
        r@[0]@.len() == 2,
        r@[1]@.len() == 2,
        r@[2]@.len() == 9,
        r@[2]@[8] matches StackInstr::Break,
{
    vec![
        vec![text("a"), text("b")],
        vec![StackInstr::Copy(Pos { x: 0, y: -2 }), StackInstr::Copy(Pos { x: 0, y: -2 })],
        vec![
            StackInstr::JumpRelCmp(Pos { x: 0, y: -1 }, Pos { x: 1, y: -1 }, Ordering::Equal, 8),
            StackInstr::JumpRelCmp(Pos { x: 0, y: -1 }, Pos { x: 1, y: -1 }, Ordering::Less, 4),
            StackInstr::Sub(Pos { x: 0, y: -1 }, Pos { x: 1, y: -1 }),
            StackInstr::Copy(Pos { x: 0, y: -1 }),
            StackInstr::Jump(-5),
            StackInstr::Copy(Pos { x: 0, y: -1 }),
            StackInstr::Sub(Pos { x: 0, y: -1 }, Pos { x: -1, y: -1 }),
            StackInstr::Jump(-8),
            StackInstr::Break,
        ],
    ]
}

/// Bubble sort of the fields of the row above, one pass per row.
pub fn sort() -> (r: Vec<Vec<StackInstr>>)
    ensures
        r@.len() == 2,
        r@[0]@.len() == 9,
        r@[1]@.len() == 1,
        r@[1]@[0] matches StackInstr::Jump(k) && k == -9,
{
    vec![
        vec![
            StackInstr::JumpEmpty(Pos { x: 1, y: -1 }, 8),
            StackInstr::JumpRelCmp(Pos { x: 0, y: -1 }, Pos { x: 1, y: -1 }, Ordering::Greater, 3),
            StackInstr::Copy(Pos { x: 0, y: -1 }),
            StackInstr::Jump(-3),
            StackInstr::Copy(Pos { x: 1, y: -1 }),
            StackInstr::Copy(Pos { x: -1, y: -1 }),
            StackInstr::Jump(-6),
            StackInstr::Break,
            // copy the last field when the row ends
            StackInstr::Copy(Pos { x: 0, y: -1 }),
        ],
        vec![StackInstr::Jump(-9)],
    ]
}

} // verus!
