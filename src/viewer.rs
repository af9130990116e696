//! The decisions of an interactive stepper: stepping on demand or freely
//! until a breakpoint, and a window onto the sheet of the running machine.
//! Drawing and input handling are left to the caller.

use crate::machine::{step_rel, Instruction, PaperVM, SimStepState, StepResult};
use crate::sheet::{rows_text, Pos, Word};
use crate::text::string_of;
use crate::value::VmError;
use vstd::prelude::*;

verus! {

/// How far the view may be scrolled from the origin, in either direction.
pub const VIEW_LIMIT: i64 = 0x4000_0000_0000_0000;

/// How far from the origin a position may be for the view to show it.
pub const SHOWN_LIMIT: i64 = 0x3000_0000_0000_0000;

/// A direction to scroll the view.
#[derive(Clone, Copy, Debug, PartialEq, Eq, Structural)]
pub enum Direction {
    Left,
    Right,
    Up,
    Down,
}

/// The words that instruction `i` reads, in the order it reads them.
pub open spec fn words_of(i: Instruction) -> Seq<Word> {
    match i {
        Instruction::Circle(w) => seq![w],
        Instruction::Add(a, b) => seq![a, b],
        Instruction::Sub(a, b) => seq![a, b],
        Instruction::Mod(a, b) => seq![a, b],
        Instruction::Copy(w) => seq![w],
        Instruction::TrimmedCopy(w) => seq![w],
        Instruction::JumpRelIf(w, _, _, _) => seq![w],
        Instruction::JumpRelIfStr(w, _, _) => seq![w],
        Instruction::JumpRelCmp(a, b, _, _) => seq![a, b],
        _ => Seq::empty(),
    }
}

/// After a step of its machine with result `sr`, the stepper went from
/// `pre` to `post` and reported `r`.
pub open spec fn advanced(pre: App, post: App, sr: Result<StepResult, VmError>, r: Result<bool, VmError>) -> bool {
    match sr {
        Err(e) => r == Err::<bool, VmError>(e) && !post.free() && post.last() == pre.last(),
        Ok(StepResult::Finished) => r == Ok::<bool, VmError>(true) && !post.free() && post.last()
            == pre.last(),
        Ok(StepResult::Running(s)) => {
            &&& r == Ok::<bool, VmError>(false)
            &&& post.last() == Some(s)
            &&& post.free() == (pre.free() && !(s.index < s.program@.len()
                && s.program@[s.index as int] is BreakPoint))
        },
    }
}

/// A machine being stepped by hand or freely, with the report of its last
/// step and the top left cell of the view.
pub struct App {
    pub running: bool,
    last_sim_step: Option<SimStepState>,
    free_running: bool,
    vm: PaperVM,
    view_pos: Pos,
}

impl App {
    /// The view stays within `VIEW_LIMIT` of the origin.
    pub closed spec fn wf(&self) -> bool {
        -VIEW_LIMIT <= self.view_pos.0 <= VIEW_LIMIT && -VIEW_LIMIT <= self.view_pos.1 <= VIEW_LIMIT
    }

    pub closed spec fn is_running(&self) -> bool {
        self.running
    }

    pub closed spec fn machine(&self) -> PaperVM {
        self.vm
    }

    pub closed spec fn free(&self) -> bool {
        self.free_running
    }

    pub closed spec fn view(&self) -> Pos {
        self.view_pos
    }

    pub closed spec fn last(&self) -> Option<SimStepState> {
        self.last_sim_step
    }

    /// A stepper for `program`, running, paused, viewing from the origin,
    /// with no step taken yet.
    pub fn new(program: Vec<Instruction>) -> (r: App)
        ensures
            r.wf(),
            r.is_running(),
            !r.free(),
            r.view() == Pos(0, 0),
            r.last() is None,
            r.machine().program@ == program@,
            r.machine().frame() == (crate::machine::Frame {
                mem: Map::empty(),
                cursor: (0, 0),
                ip: 0,
                circled: None,
            }),
            r.machine().subroutine is None,
    {
        App { running: true, last_sim_step: None, free_running: false, vm: PaperVM::new(program), view_pos: Pos(0, 0) }
    }

    /// The machine.
    pub fn vm(&self) -> (r: &PaperVM)
        ensures
            *r == self.machine(),
    {
        &self.vm
    }

    /// Steps the machine once. A breakpoint, a finished machine or an error
    /// pauses free running; the report of a running step is kept.
    /// `Ok(true)` when the machine finished.
    pub fn advance_sim(&mut self) -> (r: Result<bool, VmError>)
        requires
            old(self).wf(),
        ensures
            final(self).wf(),
            final(self).is_running() == old(self).is_running(),
            final(self).view() == old(self).view(),
            (exists|sr: Result<StepResult, VmError>|
                #![trigger step_rel(old(self).machine(), final(self).machine(), sr)]
                step_rel(old(self).machine(), final(self).machine(), sr) && advanced(*old(self), *final(self), sr, r)),
    {
        let res = self.vm.step();
        match res {
            Err(e) => {
                self.free_running = false;
                Err(e)
            },
            Ok(StepResult::Finished) => {
                self.free_running = false;
                Ok(true)
            },
            Ok(StepResult::Running(s)) => {
                let ghost sg = s;
                if let Some(Instruction::BreakPoint) = s.instruction() {
                    self.free_running = false;
                }
                self.last_sim_step = Some(s);
                assert(step_rel(old(self).machine(), self.machine(), Ok(StepResult::Running(sg))));
                Ok(false)
            },
        }
    }

    /// On a tick of the clock: one step when running freely.
    pub fn tick(&mut self) -> (r: Result<bool, VmError>)
        requires
            old(self).wf(),
        ensures
            final(self).wf(),
            !old(self).free() ==> *final(self) == *old(self) && r == Ok::<bool, VmError>(false),
            old(self).free() ==> final(self).view() == old(self).view() && (exists|sr: Result<StepResult, VmError>|
                #![trigger step_rel(old(self).machine(), final(self).machine(), sr)]
                step_rel(old(self).machine(), final(self).machine(), sr) && advanced(*old(self), *final(self), sr, r)),
    {
        if self.free_running {
            self.advance_sim()
        } else {
            Ok(false)
        }
    }

    /// Stops the stepper.
    pub fn quit(&mut self)
        ensures
            !final(self).is_running(),
            final(self).machine() == old(self).machine(),
            final(self).free() == old(self).free(),
            final(self).view() == old(self).view(),
            final(self).last() == old(self).last(),
    {
        self.running = false;
    }

    /// Switches free running on or off.
    pub fn toggle_free_running(&mut self)
        ensures
            final(self).free() == !old(self).free(),
            final(self).is_running() == old(self).is_running(),
            final(self).machine() == old(self).machine(),
            final(self).view() == old(self).view(),
            final(self).last() == old(self).last(),
            old(self).wf() ==> final(self).wf(),
    {
        self.free_running = !self.free_running;
    }

    /// Moves the view one cell, unless that would take it past `VIEW_LIMIT`.
    pub fn scroll(&mut self, direction: Direction)
        requires
            old(self).wf(),
        ensures
            final(self).wf(),
            final(self).machine() == old(self).machine(),
            final(self).free() == old(self).free(),
            final(self).is_running() == old(self).is_running(),
            final(self).last() == old(self).last(),
            ({
                let v = old(self).view();
                let t = match direction {
                    Direction::Left => (v.0 - 1, v.1 as int),
                    Direction::Right => (v.0 + 1, v.1 as int),
                    Direction::Up => (v.0 as int, v.1 - 1),
                    Direction::Down => (v.0 as int, v.1 + 1),
                };
                if -VIEW_LIMIT <= t.0 <= VIEW_LIMIT && -VIEW_LIMIT <= t.1 <= VIEW_LIMIT {
                    final(self).view().key() == t
                } else {
                    final(self).view() == v
                }
            }),
    {
        let v = self.view_pos;
        let t = match direction {
            Direction::Left => Pos(v.0 - 1, v.1),
            Direction::Right => Pos(v.0 + 1, v.1),
            Direction::Up => Pos(v.0, v.1 - 1),
            Direction::Down => Pos(v.0, v.1 + 1),
        };
        if -VIEW_LIMIT <= t.0 && t.0 <= VIEW_LIMIT && -VIEW_LIMIT <= t.1 && t.1 <= VIEW_LIMIT {
            self.view_pos = t;
        }
    }

    /// The instruction of the last running step, if any.
    pub fn current_instruction(&self) -> (r: Option<&Instruction>)
        ensures
            r == (match self.last() {
                Some(s) => if s.index < s.program@.len() {
                    Some(&s.program@[s.index as int])
                } else {
                    None
                },
                None => None,
            }),
    {
        match &self.last_sim_step {
            Some(s) => s.instruction(),
            None => None,
        }
    }

    /// The sheet of the machine executing now, in a window of `width`
    /// columns and `height` rows from the view position.
    pub fn get_view_as_string(&self, width: u16, height: u16) -> (r: String)
        requires
            self.wf(),
        ensures
            r@ == rows_text(
                self.machine().lowest().memory@,
                self.view().0 as int,
                self.view().0 + width - 1,
                self.view().1 as int,
                self.view().1 + height - 1,
            ),
    {
        let vm = self.vm.lowest_subroutine();
        string_of(&vm.get_memory().window_chars(self.view_pos.0, self.view_pos.1, width, height))
    }

    /// `pos` as seen in the view: relative to the view position, one row
    /// down for the title line. `None` where that leaves `i64`.
    fn apply_view(&self, pos: Pos) -> (r: Option<Pos>)
        requires
            self.wf(),
        ensures
            r == (if -SHOWN_LIMIT <= pos.0 <= SHOWN_LIMIT
                && -SHOWN_LIMIT <= pos.1 <= SHOWN_LIMIT {
                Some(Pos((pos.0 - self.view().0) as i64, (pos.1 - self.view().1 + 1) as i64))
            } else {
                None
            }),
    {
        let lim: i64 = SHOWN_LIMIT;
        if -lim <= pos.0 && pos.0 <= lim && -lim <= pos.1 && pos.1 <= lim {
            Some(Pos(pos.0 - self.view_pos.0, pos.1 - self.view_pos.1 + 1))
        } else {
            None
        }
    }

    /// Where the cursor stood before the last running step, as seen in the view.
    pub fn last_cursor(&self) -> (r: Option<Pos>)
        requires
            self.wf(),
        ensures
            match self.last() {
                None => r is None,
                Some(s) => r == (if -SHOWN_LIMIT <= s.cursor.0 <= SHOWN_LIMIT
                    && -SHOWN_LIMIT <= s.cursor.1 <= SHOWN_LIMIT {
                    Some(Pos((s.cursor.0 - self.view().0) as i64, (s.cursor.1 - self.view().1 + 1) as i64))
                } else {
                    None
                }),
            },
    {
        match &self.last_sim_step {
            None => None,
            Some(s) => self.apply_view(s.cursor),
        }
    }

    /// The cursor of the machine executing now, as seen in the view.
    pub fn cursor(&self) -> (r: Option<Pos>)
        requires
            self.wf(),
        ensures
            ({
                let c = self.machine().lowest().cursor;
                r == (if -SHOWN_LIMIT <= c.0 <= SHOWN_LIMIT && -SHOWN_LIMIT
                    <= c.1 <= SHOWN_LIMIT {
                    Some(Pos((c.0 - self.view().0) as i64, (c.1 - self.view().1 + 1) as i64))
                } else {
                    None
                })
            }),
    {
        self.apply_view(self.vm.lowest_subroutine().cursor())
    }

    /// The words that the instruction of the last running step reads.
    pub fn highlight_words(&self) -> (r: Vec<Word>)
        ensures
            r@ == (match self.last() {
                Some(s) => if s.index < s.program@.len() {
                    words_of(s.program@[s.index as int])
                } else {
                    Seq::empty()
                },
                None => Seq::empty(),
            }),
    {
        let mut r: Vec<Word> = Vec::new();
        match self.current_instruction() {
            None => {},
            Some(ins) => match ins {
                Instruction::Circle(w) => r.push(*w),
                Instruction::Add(a, b) => {
                    r.push(*a);
                    r.push(*b);
                },
                Instruction::Sub(a, b) => {
                    r.push(*a);
                    r.push(*b);
                },
                Instruction::Mod(a, b) => {
                    r.push(*a);
                    r.push(*b);
                },
                Instruction::Copy(w) => r.push(*w),
                Instruction::TrimmedCopy(w) => r.push(*w),
                Instruction::JumpRelIf(w, _, _, _) => r.push(*w),
                Instruction::JumpRelIfStr(w, _, _) => r.push(*w),
                Instruction::JumpRelCmp(a, b, _, _) => {
                    r.push(*a);
                    r.push(*b);
                },
                _ => {},
            },
        }
        assert(r@ =~= (match self.last() {
            Some(s) => if s.index < s.program@.len() {
                words_of(s.program@[s.index as int])
            } else {
                Seq::empty()
            },
            None => Seq::empty(),
        }));
        r
    }
}

} // verus!
