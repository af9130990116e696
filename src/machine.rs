//! The machine: one sheet, one cursor, one program, stepped one instruction
//! at a time, with calls that open a fresh machine on a sheet of its own.

use crate::sheet::{
    cell_char, lemma_put_row, put_chars, put_chars_at, read_at, read_cells, render, word_fits, write_fits, Memory,
    Pos, Word,
};
use crate::text::{
    decimal, format_number, int_text, lemma_number_round_trip, number_of, number_text,
    string_of, strip_chars, strip_spaces,
};
use crate::value::{FromChars, IntoChars, Value, VmError};
use std::cmp::Ordering;
use std::sync::Arc;
use vstd::prelude::*;

verus! {

/// Relies on `Arc::clone`: the new handle points to the same value.
#[verifier::external_body]
fn share<T>(p: &Arc<T>) -> (r: Arc<T>)
    ensures
        r == *p,
{
    Arc::clone(p)
}

/// Whether two orderings are the same.
fn same_order(a: Ordering, b: Ordering) -> (r: bool)
    ensures
        r == (a == b),
{
    match (a, b) {
        (Ordering::Less, Ordering::Less) => true,
        (Ordering::Equal, Ordering::Equal) => true,
        (Ordering::Greater, Ordering::Greater) => true,
        _ => false,
    }
}

/// How `a` compares to `b`.
fn compare(a: i64, b: i64) -> (r: Ordering)
    ensures
        r == order_of(a as int, b as int),
{
    if a < b {
        Ordering::Less
    } else if a == b {
        Ordering::Equal
    } else {
        Ordering::Greater
    }
}

/// Whether two runs of characters are equal.
fn chars_equal(a: &Vec<char>, b: &Vec<char>) -> (r: bool)
    ensures
        r == (a@ == b@),
{
    if a.len() != b.len() {
        return false;
    }
    let mut i: usize = 0;
    while i < a.len()
        invariant
            i <= a.len() == b.len(),
            forall|j: int| 0 <= j < i ==> a@[j] == b@[j],
        decreases a.len() - i,
    {
        if a[i] != b[i] {
            return false;
        }
        i = i + 1;
    }
    assert(a@ =~= b@);
    true
}

/// The closed instruction set.
#[derive(Debug)]
pub enum Instruction {
    /// Writes a value at the cursor.
    Write(Value),
    /// Runs a program on a fresh sheet holding the arguments' characters,
    /// then writes what it circles at the cursor.
    Call(Arc<Vec<Instruction>>, Vec<Word>),
    /// Marks the result and ends this machine.
    Circle(Word),
    Add(Word, Word),
    Sub(Word, Word),
    Mod(Word, Word),
    /// Writes the characters of a word again at the cursor.
    Copy(Word),
    /// Writes the characters of a word without its whitespace.
    TrimmedCopy(Word),
    /// Moves the instruction pointer by an offset.
    Jump(i64),
    /// Jumps by the offset when the number in the word compares to the literal as given.
    JumpRelIf(Word, Ordering, i64, i64),
    /// Jumps by the offset when the numbers in the two words compare as given.
    JumpRelCmp(Word, Word, Ordering, i64),
    /// Jumps by the offset when the word reads exactly as the literal.
    JumpRelIfStr(Word, Vec<char>, i64),
    /// Moves the cursor by a column and a row offset.
    MoveCursor(i64, i64),
    /// Does nothing; tells a free-running driver to pause.
    BreakPoint,
    /// Halts with a fatal error.
    Stop,
}

/// What a step reports: the program and index of the instruction just
/// processed, and where the cursor stood before it.
#[derive(Debug)]
pub struct SimStepState {
    pub program: Arc<Vec<Instruction>>,
    pub index: usize,
    pub cursor: Pos,
}

impl SimStepState {
    /// The instruction just processed.
    pub fn instruction(&self) -> (r: Option<&Instruction>)
        ensures
            self.index < self.program@.len() ==> r == Some(&self.program@[self.index as int]),
            self.index >= self.program@.len() ==> r is None,
    {
        if self.index < self.program.len() {
            Some(&self.program[self.index])
        } else {
            None
        }
    }
}

#[derive(Debug)]
pub enum StepResult {
    Finished,
    Running(SimStepState),
}

impl StepResult {
    pub fn is_finished(&self) -> (r: bool)
        ensures
            r == (self is Finished),
    {
        match self {
            StepResult::Finished => true,
            StepResult::Running(_) => false,
        }
    }
}

/// The part of a machine that its own instructions change.
pub struct Frame {
    pub mem: Map<(int, int), char>,
    pub cursor: (int, int),
    pub ip: int,
    pub circled: Option<Word>,
}

/// How `a` compares to `b`.
pub open spec fn order_of(a: int, b: int) -> Ordering {
    if a < b {
        Ordering::Less
    } else if a == b {
        Ordering::Equal
    } else {
        Ordering::Greater
    }
}

/// The frame after writing `s` at its cursor.
pub open spec fn write_frame(f: Frame, s: Seq<char>) -> Result<Frame, VmError> {
    if write_fits(f.cursor, s.len() as int) {
        let w = put_chars(f.mem, f.cursor, s);
        Ok(Frame { mem: w.0, cursor: w.1, ..f })
    } else {
        Err(VmError::OffSheet)
    }
}

/// The characters of word `w` in frame `f`.
pub open spec fn read_word(f: Frame, w: Word) -> Result<Seq<char>, VmError> {
    if word_fits(f.cursor, w) {
        Ok(read_cells(f.mem, f.cursor, w))
    } else {
        Err(VmError::OffSheet)
    }
}

/// The number in word `w` of frame `f`.
pub open spec fn read_number(f: Frame, w: Word) -> Result<int, VmError> {
    match read_word(f, w) {
        Err(e) => Err(e),
        Ok(s) => match number_of(s) {
            Some(v) => Ok(v),
            None => Err(VmError::Conversion),
        },
    }
}

/// Remainder of `a` by `b`, with the sign of `a`.
pub open spec fn rem_toward_zero(a: int, b: int) -> int {
    let m = if b < 0 { -b } else { b };
    if a < 0 { -((-a) % m) } else { a % m }
}

pub open spec fn in_i64(v: int) -> bool {
    i64::MIN <= v <= i64::MAX
}

/// The frame with its instruction pointer moved by `k`.
pub open spec fn jump_frame(f: Frame, k: int) -> Result<Frame, VmError> {
    if in_i64(f.ip + k) {
        Ok(Frame { ip: f.ip + k, ..f })
    } else {
        Err(VmError::OutOfBounds)
    }
}

/// Reads two numbers, combines them, writes the result, moves on.
pub open spec fn arith_frame(f: Frame, a: Word, b: Word, ins: Instruction) -> Result<Frame, VmError> {
    match read_number(f, a) {
        Err(e) => Err(e),
        Ok(x) => match read_number(f, b) {
            Err(e) => Err(e),
            Ok(y) => {
                let v = match ins {
                    Instruction::Add(_, _) => x + y,
                    Instruction::Sub(_, _) => x - y,
                    _ => rem_toward_zero(x, y),
                };
                if (ins is Mod && y == 0) || !in_i64(v) {
                    Err(VmError::Arithmetic)
                } else {
                    match write_frame(f, number_text(v)) {
                        Err(e) => Err(e),
                        Ok(g) => jump_frame(g, 1),
                    }
                }
            },
        },
    }
}

/// What every instruction but `Call` does to a frame.
pub open spec fn exec_spec(f: Frame, ins: Instruction) -> Result<Frame, VmError> {
    match ins {
        Instruction::Write(v) => match write_frame(f, v.chars_spec()) {
            Err(e) => Err(e),
            Ok(g) => jump_frame(g, 1),
        },
        Instruction::Copy(w) => match read_word(f, w) {
            Err(e) => Err(e),
            Ok(s) => match write_frame(f, s) {
                Err(e) => Err(e),
                Ok(g) => jump_frame(g, 1),
            },
        },
        Instruction::TrimmedCopy(w) => match read_word(f, w) {
            Err(e) => Err(e),
            Ok(s) => match write_frame(f, strip_spaces(s)) {
                Err(e) => Err(e),
                Ok(g) => jump_frame(g, 1),
            },
        },
        Instruction::Add(a, b) => arith_frame(f, a, b, ins),
        Instruction::Sub(a, b) => arith_frame(f, a, b, ins),
        Instruction::Mod(a, b) => arith_frame(f, a, b, ins),
        Instruction::Jump(k) => jump_frame(f, k as int),
        Instruction::JumpRelIf(w, ord, lit, k) => match read_number(f, w) {
            Err(e) => Err(e),
            Ok(x) => jump_frame(f, if order_of(x, lit as int) == ord { k as int } else { 1 }),
        },
        Instruction::JumpRelCmp(a, b, ord, k) => match read_number(f, a) {
            Err(e) => Err(e),
            Ok(x) => match read_number(f, b) {
                Err(e) => Err(e),
                Ok(y) => jump_frame(f, if order_of(x, y) == ord { k as int } else { 1 }),
            },
        },
        Instruction::JumpRelIfStr(w, lit, k) => match read_word(f, w) {
            Err(e) => Err(e),
            Ok(s) => jump_frame(f, if s == lit@ { k as int } else { 1 }),
        },
        Instruction::MoveCursor(dx, dy) => {
            let c = (f.cursor.0 + dx, f.cursor.1 + dy);
            if in_i64(c.0) && in_i64(c.1) {
                jump_frame(Frame { cursor: c, ..f }, 1)
            } else {
                Err(VmError::OffSheet)
            }
        },
        Instruction::Circle(w) => Ok(Frame { circled: Some(w), ..f }),
        Instruction::BreakPoint => jump_frame(f, 1),
        Instruction::Stop => Err(VmError::FatalHalt),
        Instruction::Call(_, _) => Ok(f),
    }
}

/// The characters of the argument words, in order, read in frame `f`.
pub open spec fn read_args(f: Frame, args: Seq<Word>) -> Result<Seq<char>, VmError>
    decreases args.len(),
{
    if args.len() == 0 {
        Ok(Seq::empty())
    } else {
        match read_args(f, args.drop_last()) {
            Err(e) => Err(e),
            Ok(s) => match read_word(f, args.last()) {
                Err(e) => Err(e),
                Ok(t) => Ok(s + t),
            },
        }
    }
}

/// The first frame of a machine called with `args` from frame `f`: an empty
/// sheet on which the arguments' characters are written from the origin.
pub open spec fn spawn_frame(f: Frame, args: Seq<Word>) -> Result<Frame, VmError> {
    match read_args(f, args) {
        Err(e) => Err(e),
        Ok(s) => write_frame(
            Frame { mem: Map::empty(), cursor: (0, 0), ip: 0, circled: None },
            s,
        ),
    }
}

/// A step that executed instruction `ip` of `prog` with the cursor at `cur`
/// and goes on running.
pub open spec fn reports(r: Result<StepResult, VmError>, prog: Arc<Vec<Instruction>>, ip: int, cur: (int, int)) -> bool {
    match r {
        Ok(StepResult::Running(s)) => s.program == prog && s.index == ip && s.cursor.key() == cur,
        _ => false,
    }
}

/// `c` is a machine that has not yet stepped, running `prog` in frame `f`.
pub open spec fn fresh(c: PaperVM, prog: Arc<Vec<Instruction>>, f: Frame) -> bool {
    &&& c.frame() == f
    &&& c.program == prog
    &&& c.subroutine is None
    &&& c.finished_papers@.len() == 0
}

/// Executing the instruction at the instruction pointer of frame `f`, in
/// program `prog`, gives the machine `post` and the result `r`.
pub open spec fn instr_rel(f: Frame, prog: Arc<Vec<Instruction>>, post: PaperVM, r: Result<StepResult, VmError>) -> bool {
    if !(0 <= f.ip < prog@.len()) {
        r == Err::<StepResult, VmError>(VmError::OutOfBounds) && post.frame() == f && post.subroutine is None
    } else {
        let ins = prog@[f.ip];
        match ins {
            Instruction::Call(sub, args) => match spawn_frame(f, args@) {
                Err(e) => r == Err::<StepResult, VmError>(e) && post.frame() == f && post.subroutine is None,
                Ok(cf) => match jump_frame(f, 1) {
                    Err(e) => r == Err::<StepResult, VmError>(e) && post.frame() == f && post.subroutine is None,
                    Ok(g) => {
                        &&& reports(r, prog, f.ip, f.cursor)
                        &&& post.frame() == g
                        &&& post.subroutine is Some
                        &&& fresh(*post.subroutine->Some_0, sub, cf)
                    },
                },
            },
            _ => match exec_spec(f, ins) {
                Err(e) => r == Err::<StepResult, VmError>(e) && post.frame() == f && post.subroutine is None,
                Ok(g) => {
                    &&& post.frame() == g
                    &&& post.subroutine is None
                    &&& if ins is Circle {
                        r == Ok::<StepResult, VmError>(StepResult::Finished)
                    } else {
                        reports(r, prog, f.ip, f.cursor)
                    }
                },
            },
        }
    }
}

/// The parent's frame once the finished child `c` has handed over the
/// characters of its circled word.
pub open spec fn merge_frame(f: Frame, c: PaperVM) -> Result<Frame, VmError> {
    match c.circled {
        Some(w) => match read_word(c.frame(), w) {
            Err(e) => Err(e),
            Ok(s) => write_frame(f, s),
        },
        None => Ok(f),
    }
}

/// One step takes the machine `pre` to `post` with result `r`.
pub open spec fn step_rel(pre: PaperVM, post: PaperVM, r: Result<StepResult, VmError>) -> bool
    decreases pre,
{
    &&& post.program == pre.program
    &&& if pre.circled is Some {
        &&& r == Err::<StepResult, VmError>(VmError::AlreadyFinished)
        &&& post.frame() == pre.frame()
        &&& post.subroutine == pre.subroutine
        &&& post.finished_papers@ == pre.finished_papers@
    } else {
        match pre.subroutine {
            None => post.finished_papers@ == pre.finished_papers@ && instr_rel(
                pre.frame(),
                pre.program,
                post,
                r,
            ),
            Some(c) => if post.finished_papers@.len() == pre.finished_papers@.len() + 1 {
                let done = post.finished_papers@.last();
                &&& post.finished_papers@ == pre.finished_papers@.push(done)
                &&& step_rel(*c, done, Ok(StepResult::Finished))
                &&& match merge_frame(pre.frame(), done) {
                    Err(e) => r == Err::<StepResult, VmError>(e) && post.frame() == pre.frame()
                        && post.subroutine is None,
                    Ok(g) => instr_rel(g, pre.program, post, r),
                }
            } else {
                &&& post.finished_papers@ == pre.finished_papers@
                &&& post.frame() == pre.frame()
                &&& post.subroutine is Some
                &&& step_rel(*c, *post.subroutine->Some_0, r)
                &&& r != Ok::<StepResult, VmError>(StepResult::Finished)
            },
        }
    }
}

proof fn lemma_read_args_err(f: Frame, args: Seq<Word>, j: int, e: VmError)
    requires
        0 <= j <= args.len(),
        read_args(f, args.subrange(0, j)) == Err::<Seq<char>, VmError>(e),
    ensures
        read_args(f, args) == Err::<Seq<char>, VmError>(e),
    decreases args.len() - j,
{
    if j < args.len() {
        assert(args.subrange(0, j + 1).drop_last() =~= args.subrange(0, j));
        lemma_read_args_err(f, args, j + 1, e);
    } else {
        assert(args.subrange(0, j) =~= args);
    }
}

/// The shell of a machine (program, call in progress, returned calls) is
/// the same in `a` and `b`.
pub open spec fn same_shell(a: PaperVM, b: PaperVM) -> bool {
    &&& a.program == b.program
    &&& a.subroutine == b.subroutine
    &&& a.finished_papers == b.finished_papers
}

/// `post` is `pre` after `n` steps that each went on running.
pub open spec fn runs(pre: PaperVM, post: PaperVM, n: nat) -> bool
    decreases n,
{
    if n == 0 {
        post == pre
    } else {
        exists|mid: PaperVM, s: SimStepState|
            #[trigger] step_rel(mid, post, Ok(StepResult::Running(s))) && runs(pre, mid, (n - 1) as nat)
    }
}

/// A number written where its field was empty reads back, through the word
/// that covers the field from the cursor's new place, as the same number.
pub proof fn lemma_write_read_number(m: Map<(int, int), char>, cur: (int, int), n: i64, w: Word)
    requires
        forall|i: int| 0 <= i < number_text(n as int).len() ==> !#[trigger] m.contains_key((cur.0 + i, cur.1)),
        w.0.0 == -number_text(n as int).len(),
        w.0.1 == 0,
        w.1 == number_text(n as int).len(),
    ensures
        number_of(
            read_cells(
                put_chars(m, cur, number_text(n as int)).0,
                put_chars(m, cur, number_text(n as int)).1,
                w,
            ),
        ) == Some(n as int),
{
    let t = number_text(n as int);
    let d = decimal((if n < 0 { -(n as int) } else { n as int }) as nat);
    lemma_number_round_trip(n);
    crate::text::lemma_decimal_digits((if n < 0 { -(n as int) } else { n as int }) as nat);
    assert forall|i: int| 0 <= i < t.len() implies t[i] != '\n' by {
        let it = int_text(n as int);
        if it.len() < 10 {
            let pad = (10 - it.len()) as int;
            if i >= pad {
                if n < 0 && i > pad {
                    assert(t[i] == d[i - pad - 1]);
                } else if n >= 0 {
                    assert(t[i] == d[i - pad]);
                }
            }
        } else {
            if n < 0 && i > 0 {
                assert(t[i] == d[i - 1]);
            } else if n >= 0 {
                assert(t[i] == d[i]);
            }
        }
    }
    lemma_put_row(m, cur, t);
    let after = put_chars(m, cur, t);
    assert(read_cells(after.0, after.1, w) =~= t);
}

proof fn lemma_exec_keeps_circled(f: Frame, ins: Instruction)
    requires
        !(ins is Circle),
        exec_spec(f, ins) is Ok,
    ensures
        exec_spec(f, ins)->Ok_0.circled == f.circled,
{
    match ins {
        Instruction::Add(a, b) => {},
        Instruction::Sub(a, b) => {},
        Instruction::Mod(a, b) => {},
        _ => {},
    }
}

proof fn lemma_instr_finishes(f: Frame, prog: Arc<Vec<Instruction>>, post: PaperVM, r: Result<StepResult, VmError>)
    requires
        instr_rel(f, prog, post, r),
        f.circled is None,
    ensures
        r == Ok::<StepResult, VmError>(StepResult::Finished) <==> post.circled is Some,
{
    if 0 <= f.ip < prog@.len() {
        let ins = prog@[f.ip];
        if !(ins is Call) && !(ins is Circle) && exec_spec(f, ins) is Ok {
            lemma_exec_keeps_circled(f, ins);
        }
    }
}

/// A step reports `Finished` exactly when it is the step in which this
/// machine executes its `Circle`: the machine had no circled word before
/// the step and has one after it.
pub proof fn lemma_finished_iff_circled(pre: PaperVM, post: PaperVM, r: Result<StepResult, VmError>)
    requires
        step_rel(pre, post, r),
    ensures
        r == Ok::<StepResult, VmError>(StepResult::Finished) <==> (pre.circled is None
            && post.circled is Some),
{
    if pre.circled is None {
        match pre.subroutine {
            None => lemma_instr_finishes(pre.frame(), pre.program, post, r),
            Some(c) => {
                if post.finished_papers@.len() == pre.finished_papers@.len() + 1 {
                    let done = post.finished_papers@.last();
                    if let Ok(g) = merge_frame(pre.frame(), done) {
                        lemma_instr_finishes(g, pre.program, post, r);
                    }
                }
            },
        }
    }
}

/// What a finished call hands back to the machine that called it is the
/// text of its circled word and nothing else: two called machines whose
/// circled words read the same leave the caller in the same state, which is
/// the caller's state with that text written at its cursor.
pub proof fn lemma_call_isolation(f: Frame, c: PaperVM, d: PaperVM)
    requires
        c.circled is Some,
        d.circled is Some,
        read_word(c.frame(), c.circled->Some_0) == read_word(d.frame(), d.circled->Some_0),
    ensures
        merge_frame(f, c) == merge_frame(f, d),
        read_word(c.frame(), c.circled->Some_0) matches Ok(s) ==> merge_frame(f, c) == write_frame(f, s),
{
}

/// Where the circled text of a finished call holds no newline, the caller's
/// sheet after the merge differs from its sheet before only in the cells of
/// the single run, on the cursor's row, that the text was written to.
pub proof fn lemma_merge_footprint(f: Frame, c: PaperVM, s: Seq<char>, k: (int, int))
    requires
        c.circled is Some,
        read_word(c.frame(), c.circled->Some_0) == Ok::<Seq<char>, VmError>(s),
        forall|i: int| 0 <= i < s.len() ==> s[i] != '\n',
        merge_frame(f, c) is Ok,
        !(k.1 == f.cursor.1 && f.cursor.0 <= k.0 < f.cursor.0 + s.len()),
    ensures
        merge_frame(f, c)->Ok_0.mem.contains_key(k) == f.mem.contains_key(k),
        merge_frame(f, c)->Ok_0.mem[k] == f.mem[k],
{
    lemma_put_row(f.mem, f.cursor, s);
    assert(put_chars(f.mem, f.cursor, s).0.contains_key(k) == f.mem.contains_key(k));
}

/// Every machine of a run: `m` first, then, for each finished call in the
/// order they returned, that machine and the machines of its own calls.
pub open spec fn papers(m: PaperVM) -> Seq<PaperVM>
    decreases m, m.finished_papers@.len() + 1,
{
    seq![m] + papers_of_calls(m, m.finished_papers@.len() as int)
}

/// The machines of the first `n` finished calls of `m`, each followed by
/// the machines of its own calls.
pub open spec fn papers_of_calls(m: PaperVM, n: int) -> Seq<PaperVM>
    decreases m, n,
{
    if n <= 0 || n > m.finished_papers@.len() {
        Seq::empty()
    } else {
        papers_of_calls(m, n - 1) + papers(m.finished_papers@[n - 1])
    }
}

/// Every machine of a run, as `papers` orders them.
pub fn collect_papers(root: &PaperVM) -> (r: Vec<&PaperVM>)
    ensures
        r@.len() == papers(*root).len(),
        forall|i: int| 0 <= i < r@.len() ==> *(#[trigger] r@[i]) == papers(*root)[i],
    decreases root,
{
    let mut v: Vec<&PaperVM> = Vec::new();
    v.push(root);
    let n = root.finished_papers.len();
    let mut i: usize = 0;
    while i < n
        invariant
            i <= n == root.finished_papers@.len(),
            v@.len() == 1 + papers_of_calls(*root, i as int).len(),
            forall|k: int| 0 <= k < v@.len() ==> *(#[trigger] v@[k]) == (seq![*root] + papers_of_calls(*root, i as int))[k],
        decreases n - i,
    {
        let ghost prev = v@;
        let mut sub = collect_papers(&root.finished_papers[i]);
        let ghost subv = sub@;
        v.append(&mut sub);
        proof {
            let before = seq![*root] + papers_of_calls(*root, i as int);
            let after = seq![*root] + papers_of_calls(*root, i + 1);
            assert(after =~= before + papers(root.finished_papers@[i as int]));
            assert forall|k: int| 0 <= k < v@.len() implies *(#[trigger] v@[k]) == after[k] by {
                if k < prev.len() {
                    assert(v@[k] == prev[k]);
                } else {
                    assert(v@[k] == subv[k - prev.len()]);
                }
            }
        }
        i = i + 1;
    }
    v
}

/// A machine: its sheet, cursor and program, the instruction pointer, the
/// circled result once there is one, the machine of a call in progress,
/// and the machines of calls that have returned.
pub struct PaperVM {
    pub memory: Memory,
    pub cursor: Pos,
    pub program: Arc<Vec<Instruction>>,
    pub circled: Option<Word>,
    pub instruction_counter: i64,
    pub subroutine: Option<Box<PaperVM>>,
    pub finished_papers: Vec<PaperVM>,
}

impl PaperVM {
    pub open spec fn frame(&self) -> Frame {
        Frame {
            mem: self.memory@,
            cursor: self.cursor.key(),
            ip: self.instruction_counter as int,
            circled: self.circled,
        }
    }

    /// A machine that will run `program` on an empty sheet, cursor at the origin.
    pub fn new(program: Vec<Instruction>) -> (r: PaperVM)
        ensures
            r.program@ == program@,
            fresh(r, r.program, Frame { mem: Map::empty(), cursor: (0, 0), ip: 0, circled: None }),
    {
        PaperVM::from_program(Arc::new(program))
    }

    fn from_program(program: Arc<Vec<Instruction>>) -> (r: PaperVM)
        ensures
            fresh(r, program, Frame { mem: Map::empty(), cursor: (0, 0), ip: 0, circled: None }),
    {
        PaperVM {
            memory: Memory::new(),
            cursor: Pos(0, 0),
            program,
            circled: None,
            instruction_counter: 0,
            subroutine: None,
            finished_papers: Vec::new(),
        }
    }

    /// Whether `len` characters can be written from the cursor.
    fn fits(&self, len: usize) -> (r: bool)
        ensures
            r == write_fits(self.cursor.key(), len as int),
    {
        let x: i128 = if self.cursor.0 > 0 { self.cursor.0 as i128 } else { 0 };
        x + len as i128 <= i64::MAX as i128 && self.cursor.1 as i128 + len as i128 <= i64::MAX as i128
    }

    /// The instruction pointer moved by `k`, if it stays in `i64`.
    fn target(&self, k: i64) -> (r: Option<i64>)
        ensures
            in_i64(self.instruction_counter + k) ==> r == Some((self.instruction_counter + k) as i64),
            !in_i64(self.instruction_counter + k) ==> r is None,
    {
        let t: i128 = self.instruction_counter as i128 + k as i128;
        if i64::MIN as i128 <= t && t <= i64::MAX as i128 {
            Some(t as i64)
        } else {
            None
        }
    }

    /// Moves the instruction pointer by `k`.
    fn jump_by(&mut self, k: i64) -> (r: Result<(), VmError>)
        ensures
            match jump_frame(old(self).frame(), k as int) {
                Err(e) => r == Err::<(), VmError>(e) && *final(self) == *old(self),
                Ok(g) => r is Ok && final(self).frame() == g && same_shell(*final(self), *old(self)),
            },
    {
        match self.target(k) {
            Some(t) => {
                self.instruction_counter = t;
                Ok(())
            },
            None => Err(VmError::OutOfBounds),
        }
    }

    /// Writes `s` at the cursor, then moves to the next instruction.
    fn write_and_advance(&mut self, s: &Vec<char>) -> (r: Result<(), VmError>)
        ensures
            match write_frame(old(self).frame(), s@) {
                Err(e) => r == Err::<(), VmError>(e) && *final(self) == *old(self),
                Ok(g) => match jump_frame(g, 1) {
                    Err(e) => r == Err::<(), VmError>(e) && *final(self) == *old(self),
                    Ok(h) => r is Ok && final(self).frame() == h && same_shell(*final(self), *old(self)),
                },
            },
    {
        if !self.fits(s.len()) {
            return Err(VmError::OffSheet);
        }
        match self.target(1) {
            None => Err(VmError::OutOfBounds),
            Some(t) => {
                self.cursor = put_chars_at(&mut self.memory, self.cursor, s);
                self.instruction_counter = t;
                Ok(())
            },
        }
    }

    /// The characters of word `w`, relative to the cursor.
    fn read_word_checked(&self, w: Word) -> (r: Result<Vec<char>, VmError>)
        ensures
            match read_word(self.frame(), w) {
                Err(e) => r == Err::<Vec<char>, VmError>(e),
                Ok(s) => r is Ok && r->Ok_0@ == s,
            },
    {
        let x: i128 = self.cursor.0 as i128 + (w.0).0 as i128;
        let y: i128 = self.cursor.1 as i128 + (w.0).1 as i128;
        if i64::MIN as i128 <= x && x + w.1 as i128 <= i64::MAX as i128 && i64::MIN as i128 <= y
            && y <= i64::MAX as i128 {
            Ok(read_at(&self.memory, self.cursor, w))
        } else {
            Err(VmError::OffSheet)
        }
    }

    /// The number in word `w`, relative to the cursor.
    fn read_number_checked(&self, w: Word) -> (r: Result<i64, VmError>)
        ensures
            match read_number(self.frame(), w) {
                Err(e) => r == Err::<i64, VmError>(e),
                Ok(v) => r == Ok::<i64, VmError>(v as i64),
            },
    {
        match self.read_word_checked(w) {
            Err(e) => Err(e),
            Ok(s) => i64::from_chars(s),
        }
    }

    /// Reads two numbers, combines them as `ins` says, writes the result.
    fn arith(&mut self, a: Word, b: Word, ins: &Instruction) -> (r: Result<(), VmError>)
        requires
            ins is Add || ins is Sub || ins is Mod,
        ensures
            match arith_frame(old(self).frame(), a, b, *ins) {
                Err(e) => r == Err::<(), VmError>(e) && *final(self) == *old(self),
                Ok(g) => r is Ok && final(self).frame() == g && same_shell(*final(self), *old(self)),
            },
    {
        let x = match self.read_number_checked(a) {
            Err(e) => return Err(e),
            Ok(x) => x,
        };
        let y = match self.read_number_checked(b) {
            Err(e) => return Err(e),
            Ok(y) => y,
        };
        let v: i128 = match ins {
            Instruction::Add(_, _) => x as i128 + y as i128,
            Instruction::Sub(_, _) => x as i128 - y as i128,
            _ => {
                if y == 0 {
                    return Err(VmError::Arithmetic);
                }
                let m: i128 = if y < 0 { -(y as i128) } else { y as i128 };
                if x < 0 {
                    -((-(x as i128)) % m)
                } else {
                    (x as i128) % m
                }
            },
        };
        if v < i64::MIN as i128 || v > i64::MAX as i128 {
            return Err(VmError::Arithmetic);
        }
        let text = format_number(v as i64);
        self.write_and_advance(&text)
    }

    /// Executes an instruction that writes or reads the sheet.
    fn execute_data(&mut self, ins: &Instruction) -> (r: Result<(), VmError>)
        requires
            ins is Write || ins is Copy || ins is TrimmedCopy || ins is Add || ins is Sub || ins is Mod,
        ensures
            match exec_spec(old(self).frame(), *ins) {
                Err(e) => r == Err::<(), VmError>(e) && *final(self) == *old(self),
                Ok(g) => r is Ok && final(self).frame() == g && same_shell(*final(self), *old(self)),
            },
    {
        match ins {
            Instruction::Write(v) => {
                let text = v.chars_ref();
                self.write_and_advance(&text)
            },
            Instruction::Copy(w) => match self.read_word_checked(*w) {
                Err(e) => Err(e),
                Ok(text) => self.write_and_advance(&text),
            },
            Instruction::TrimmedCopy(w) => match self.read_word_checked(*w) {
                Err(e) => Err(e),
                Ok(text) => {
                    let t = strip_chars(&text);
                    self.write_and_advance(&t)
                },
            },
            Instruction::Add(a, b) => self.arith(*a, *b, ins),
            Instruction::Sub(a, b) => self.arith(*a, *b, ins),
            _ => match ins {
                Instruction::Mod(a, b) => self.arith(*a, *b, ins),
                _ => Err(VmError::FatalHalt),
            },
        }
    }

    /// Executes an instruction that moves the instruction pointer or the cursor.
    fn execute_control(&mut self, ins: &Instruction) -> (r: Result<(), VmError>)
        requires
            ins is Jump || ins is JumpRelIf || ins is JumpRelCmp || ins is JumpRelIfStr
                || ins is MoveCursor || ins is BreakPoint || ins is Stop,
        ensures
            match exec_spec(old(self).frame(), *ins) {
                Err(e) => r == Err::<(), VmError>(e) && *final(self) == *old(self),
                Ok(g) => r is Ok && final(self).frame() == g && same_shell(*final(self), *old(self)),
            },
    {
        match ins {
            Instruction::Jump(k) => self.jump_by(*k),
            Instruction::JumpRelIf(w, ord, lit, k) => match self.read_number_checked(*w) {
                Err(e) => Err(e),
                Ok(x) => {
                    let by = if same_order(compare(x, *lit), *ord) { *k } else { 1 };
                    self.jump_by(by)
                },
            },
            Instruction::JumpRelCmp(a, b, ord, k) => match self.read_number_checked(*a) {
                Err(e) => Err(e),
                Ok(x) => match self.read_number_checked(*b) {
                    Err(e) => Err(e),
                    Ok(y) => {
                        let by = if same_order(compare(x, y), *ord) { *k } else { 1 };
                        self.jump_by(by)
                    },
                },
            },
            Instruction::JumpRelIfStr(w, lit, k) => match self.read_word_checked(*w) {
                Err(e) => Err(e),
                Ok(text) => {
                    let by = if chars_equal(&text, lit) { *k } else { 1 };
                    self.jump_by(by)
                },
            },
            Instruction::MoveCursor(dx, dy) => {
                let x: i128 = self.cursor.0 as i128 + *dx as i128;
                let y: i128 = self.cursor.1 as i128 + *dy as i128;
                if x < i64::MIN as i128 || x > i64::MAX as i128 || y < i64::MIN as i128 || y
                    > i64::MAX as i128 {
                    Err(VmError::OffSheet)
                } else {
                    match self.target(1) {
                        None => Err(VmError::OutOfBounds),
                        Some(t) => {
                            self.cursor = Pos(x as i64, y as i64);
                            self.instruction_counter = t;
                            Ok(())
                        },
                    }
                }
            },
            Instruction::BreakPoint => self.jump_by(1),
            _ => Err(VmError::FatalHalt),
        }
    }

    /// Opens a call: a fresh machine running `sub`, on whose sheet the
    /// arguments' characters are written.
    fn execute_call(&mut self, sub: &Arc<Vec<Instruction>>, args: &Vec<Word>) -> (r: Result<(), VmError>)
        requires
            old(self).subroutine is None,
        ensures
            match spawn_frame(old(self).frame(), args@) {
                Err(e) => r == Err::<(), VmError>(e) && *final(self) == *old(self),
                Ok(cf) => match jump_frame(old(self).frame(), 1) {
                    Err(e) => r == Err::<(), VmError>(e) && *final(self) == *old(self),
                    Ok(g) => {
                        &&& r is Ok
                        &&& final(self).frame() == g
                        &&& final(self).program == old(self).program
                        &&& final(self).finished_papers == old(self).finished_papers
                        &&& final(self).subroutine is Some
                        &&& fresh(*final(self).subroutine->Some_0, *sub, cf)
                    },
                },
            },
    {
        let mut text: Vec<char> = Vec::new();
        let mut i: usize = 0;
        while i < args.len()
            invariant
                i <= args@.len(),
                *self == *old(self),
                read_args(self.frame(), args@.subrange(0, i as int)) == Ok::<Seq<char>, VmError>(text@),
            decreases args.len() - i,
        {
            assert(args@.subrange(0, i + 1).drop_last() =~= args@.subrange(0, i as int));
            assert(args@.subrange(0, i + 1).last() == args@[i as int]);
            match self.read_word_checked(args[i]) {
                Err(e) => {
                    proof {
                        lemma_read_args_err(self.frame(), args@, i + 1, e);
                    }
                    return Err(e);
                },
                Ok(t) => {
                    let mut t = t;
                    text.append(&mut t);
                },
            }
            i = i + 1;
        }
        assert(args@.subrange(0, args@.len() as int) =~= args@);
        let mut child = PaperVM::from_program(share(sub));
        if !child.fits(text.len()) {
            return Err(VmError::OffSheet);
        }
        match self.target(1) {
            None => Err(VmError::OutOfBounds),
            Some(t) => {
                child.cursor = put_chars_at(&mut child.memory, child.cursor, &text);
                self.subroutine = Some(Box::new(child));
                self.instruction_counter = t;
                Ok(())
            },
        }
    }

    /// Executes the instruction at the instruction pointer.
    fn execute(&mut self) -> (r: Result<StepResult, VmError>)
        requires
            old(self).subroutine is None,
        ensures
            instr_rel(old(self).frame(), old(self).program, *final(self), r),
            final(self).program == old(self).program,
            final(self).finished_papers == old(self).finished_papers,
    {
        let ip = self.instruction_counter;
        let code: &Vec<Instruction> = &*self.program;
        if ip < 0 || ip as i128 >= code.len() as i128 {
            return Err(VmError::OutOfBounds);
        }
        let prog = share(&self.program);
        let report = StepResult::Running(SimStepState { program: share(&self.program), index: ip as usize, cursor: self.cursor });
        let ins: &Instruction = &prog[ip as usize];
        let done = match ins {
            Instruction::Circle(w) => {
                self.circled = Some(*w);
                return Ok(StepResult::Finished);
            },
            Instruction::Call(sub, args) => self.execute_call(sub, args),
            Instruction::Write(_) => self.execute_data(ins),
            Instruction::Copy(_) => self.execute_data(ins),
            Instruction::TrimmedCopy(_) => self.execute_data(ins),
            Instruction::Add(_, _) => self.execute_data(ins),
            Instruction::Sub(_, _) => self.execute_data(ins),
            Instruction::Mod(_, _) => self.execute_data(ins),
            _ => self.execute_control(ins),
        };
        match done {
            Err(e) => Err(e),
            Ok(()) => Ok(report),
        }
    }

    /// Writes at the cursor what the finished machine `c` circled.
    fn merge_from(&mut self, c: &PaperVM) -> (r: Result<(), VmError>)
        ensures
            match merge_frame(old(self).frame(), *c) {
                Err(e) => r == Err::<(), VmError>(e) && *final(self) == *old(self),
                Ok(g) => r is Ok && final(self).frame() == g && same_shell(*final(self), *old(self)),
            },
    {
        match c.circled {
            None => Ok(()),
            Some(w) => match c.read_word_checked(w) {
                Err(e) => Err(e),
                Ok(text) => {
                    if !self.fits(text.len()) {
                        return Err(VmError::OffSheet);
                    }
                    self.cursor = put_chars_at(&mut self.memory, self.cursor, &text);
                    Ok(())
                },
            },
        }
    }

    /// Advances execution by one step. While a call is in progress the step
    /// goes to the called machine; when that machine finishes, what it
    /// circled is written at this machine's cursor, the machine joins the
    /// finished ones, and this machine executes its next instruction.
    pub fn step(&mut self) -> (r: Result<StepResult, VmError>)
        ensures
            step_rel(*old(self), *final(self), r),
        decreases self.depth(),
    {
        if self.circled.is_some() {
            return Err(VmError::AlreadyFinished);
        }
        let slot = self.subroutine.take();
        match slot {
            None => self.execute(),
            Some(boxed) => {
                let mut child: PaperVM = *boxed;
                let res = child.step();
                if let Ok(StepResult::Finished) = res {
                    let merged = self.merge_from(&child);
                    self.finished_papers.push(child);
                    match merged {
                        Err(e) => Err(e),
                        Ok(()) => self.execute(),
                    }
                } else {
                    self.subroutine = Some(Box::new(child));
                    res
                }
            },
        }
    }

    /// Steps until the machine finishes or a step fails, at most
    /// `max_steps` times. `Ok(true)`: the last step finished the machine;
    /// `Ok(false)`: every step went on running.
    pub fn run(&mut self, max_steps: u64) -> (r: Result<bool, VmError>)
        ensures
            exists|n: nat, mid: PaperVM|
                #[trigger] runs(*old(self), mid, n) && n <= max_steps && match r {
                    Ok(false) => n == max_steps && *final(self) == mid,
                    Ok(true) => step_rel(mid, *final(self), Ok(StepResult::Finished)),
                    Err(e) => step_rel(mid, *final(self), Err(e)),
                },
    {
        let ghost start = *self;
        let mut k: u64 = 0;
        while k < max_steps
            invariant
                k <= max_steps,
                runs(start, *self, k as nat),
                start == *old(self),
            decreases max_steps - k,
        {
            let ghost prev = *self;
            let res = self.step();
            match res {
                Err(e) => {
                    assert(runs(start, prev, k as nat));
                    return Err(e);
                },
                Ok(out) => {
                    if out.is_finished() {
                        assert(runs(start, prev, k as nat));
                        return Ok(true);
                    }
                    proof {
                        let s = out->Running_0;
                        assert(step_rel(prev, *self, Ok(StepResult::Running(s))));
                        assert(runs(start, *self, (k + 1) as nat));
                    }
                },
            }
            k = k + 1;
        }
        assert(runs(start, *self, k as nat));
        Ok(false)
    }

    /// The sheet.
    pub fn get_memory(&self) -> (r: &Memory)
        ensures
            r == &self.memory,
    {
        &self.memory
    }

    /// The cursor.
    pub fn cursor(&self) -> (r: Pos)
        ensures
            r == self.cursor,
    {
        self.cursor
    }

    /// The machine that is executing now: the innermost call in progress,
    /// or this machine when none is.
    pub fn lowest_subroutine(&self) -> (r: &PaperVM)
        ensures
            r == self.lowest(),
        decreases self.depth(),
    {
        match &self.subroutine {
            Some(c) => c.lowest_subroutine(),
            None => self,
        }
    }

    /// The circled word, with its offset taken from the cursor as it is now:
    /// its first cell as an absolute position, and its length.
    pub fn get_circled(&self) -> (r: Option<Word>)
        ensures
            r == (match self.circled {
                Some(w) => if in_i64(w.0.0 + self.cursor.0) && in_i64(w.0.1 + self.cursor.1) {
                    Some(Word(Pos((w.0.0 + self.cursor.0) as i64, (w.0.1 + self.cursor.1) as i64), w.1))
                } else {
                    None
                },
                None => None,
            }),
    {
        match self.circled {
            None => None,
            Some(w) => {
                let x: i128 = (w.0).0 as i128 + self.cursor.0 as i128;
                let y: i128 = (w.0).1 as i128 + self.cursor.1 as i128;
                if i64::MIN as i128 <= x && x <= i64::MAX as i128 && i64::MIN as i128 <= y && y
                    <= i64::MAX as i128 {
                    Some(Word(Pos(x as i64, y as i64), w.1))
                } else {
                    None
                }
            },
        }
    }

    /// The character at the absolute position (`x`, `y`), blank where
    /// nothing was written, as a string.
    pub fn aread(&self, x: i64, y: i64) -> (r: String)
        ensures
            r@ == seq![cell_char(self.memory@, (x as int, y as int))],
    {
        let mut chars: Vec<char> = Vec::new();
        chars.push(self.memory.char_at(Pos(x, y)));
        assert(chars@ =~= seq![cell_char(self.memory@, (x as int, y as int))]);
        string_of(&chars)
    }

    /// The sheet as text: the smallest rectangle holding every written
    /// cell, row by row, blanks where nothing was written.
    pub fn print(&self) -> (r: String)
        ensures
            r@ == render(self.memory@),
    {
        string_of(&self.memory.print_chars())
    }

    /// Reads word `w`, relative to the cursor, as a value of type `O`.
    pub fn read<O: FromChars>(&self, word: Word) -> (r: Result<O, VmError>)
        ensures
            match read_word(self.frame(), word) {
                Err(e) => r == Err::<O, VmError>(e),
                Ok(s) => if O::parses(s) {
                    r is Ok && O::parses_to(s, r->Ok_0)
                } else {
                    r == Err::<O, VmError>(VmError::Conversion)
                },
            },
    {
        match self.read_word_checked(word) {
            Err(e) => Err(e),
            Ok(text) => O::from_chars(text),
        }
    }

    /// Writes the characters of `value` at the cursor: a newline starts the
    /// next row at column 0, a blank moves right without touching the cell,
    /// any other character fills the cell and moves right.
    pub fn write<V: IntoChars>(&mut self, value: &V)
        requires
            write_fits(old(self).cursor.key(), value.chars_spec().len() as int),
        ensures
            (final(self).memory@, final(self).cursor.key()) == put_chars(
                old(self).memory@,
                old(self).cursor.key(),
                value.chars_spec(),
            ),
            final(self).instruction_counter == old(self).instruction_counter,
            final(self).circled == old(self).circled,
            same_shell(*final(self), *old(self)),
    {
        let text = value.chars_ref();
        self.cursor = put_chars_at(&mut self.memory, self.cursor, &text);
    }

    /// Once the machine has circled its result: the circled word, read
    /// relative to the cursor, as a value of type `O`. Nothing before.
    pub fn result<O: FromChars>(&self) -> (r: Option<Result<O, VmError>>)
        ensures
            match self.circled {
                None => r is None,
                Some(w) => r is Some && match read_word(self.frame(), w) {
                    Err(e) => r->Some_0 == Err::<O, VmError>(e),
                    Ok(s) => if O::parses(s) {
                        r->Some_0 is Ok && O::parses_to(s, r->Some_0->Ok_0)
                    } else {
                        r->Some_0 == Err::<O, VmError>(VmError::Conversion)
                    },
                },
            },
    {
        match self.circled {
            None => None,
            Some(w) => Some(self.read(w)),
        }
    }

    /// The innermost machine below this one.
    pub open spec fn lowest(&self) -> &PaperVM
        decreases self,
    {
        match self.subroutine {
            Some(c) => c.lowest(),
            None => self,
        }
    }

    /// How many calls are in progress below this machine.
    pub open spec fn depth(&self) -> nat
        decreases self,
    {
        match self.subroutine {
            Some(c) => 1 + c.depth(),
            None => 0,
        }
    }
}

} // verus!
