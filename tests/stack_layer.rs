use papier::machine::{collect_papers, Instruction, PaperVM};
use papier::programs::gcd_with_mod;
use papier::convenience::call_static;
use papier::sheet::{Pos as SheetPos, Word};
use papier::stacker::{compile_stacker, gcd, sort, text, textbox, Pos, StackInstr};
use papier::value::Value;
use papier::viewer::{App, Direction};
use std::cmp::Ordering;

#[test]
fn fields_become_words() {
    let p = Pos::from((2, -1));
    assert_eq!(p, Pos { x: 2, y: -1 });
    assert_eq!(p.to_word(), Word(SheetPos(20, -1), 10));
}

#[test]
fn text_fields_are_padded_or_cut() {
    assert_eq!(textbox("ab"), "ab        ");
    assert_eq!(textbox("abcdefghijkl"), "abcdefghij");
    assert!(matches!(text("x"), StackInstr::Text(t) if t.len() == 10 && t[0] == 'x'));
}

#[test]
fn lines_end_with_newlines() {
    let prog = compile_stacker(vec![
        vec![StackInstr::Write(7), StackInstr::Add(Pos { x: -1, y: 0 }, Pos { x: 0, y: -1 })],
        vec![StackInstr::Ret(Pos { x: 0, y: -1 })],
    ]);
    assert_eq!(prog.len(), 5);
    assert!(matches!(&prog[0], Instruction::Write(Value::Text(t)) if t.iter().collect::<String>() == "         7"));
    assert!(matches!(prog[1], Instruction::Add(Word(SheetPos(-10, 0), 10), Word(SheetPos(0, -1), 10))));
    assert!(matches!(&prog[2], Instruction::Write(Value::Text(t)) if t == &vec!['\n']));
    assert!(matches!(prog[3], Instruction::Circle(Word(SheetPos(0, -1), 10))));
    assert!(matches!(&prog[4], Instruction::Write(Value::Text(t)) if t == &vec!['\n']));
}

#[test]
fn calls_open_with_a_newline() {
    let prog = compile_stacker(vec![vec![StackInstr::Call {
        substack: vec![vec![StackInstr::Break], vec![]],
        inputs: vec![Pos { x: -1, y: 0 }],
    }]]);
    assert_eq!(prog.len(), 2);
    match &prog[0] {
        Instruction::Call(p, args) => {
            assert_eq!(p.len(), 4);
            assert!(matches!(p[1], Instruction::BreakPoint));
            assert_eq!(args, &vec![Word(SheetPos(-10, 0), 10)]);
        }
        _ => panic!("expected a call"),
    }
}

#[test]
fn empty_field_jump() {
    let prog = compile_stacker(vec![vec![StackInstr::JumpEmpty(Pos { x: 1, y: -1 }, 8)]]);
    assert!(matches!(&prog[0], Instruction::JumpRelIfStr(w, t, 8) if *w == Word(SheetPos(10, -1), 10) && t == &vec![' '; 10]));
}

#[test]
fn stack_programs_compile() {
    let g = compile_stacker(gcd());
    assert_eq!(g.len(), 16);
    let s = compile_stacker(sort());
    assert_eq!(s.len(), 12);
    let cmp = compile_stacker(vec![vec![StackInstr::JumpRelCmp(Pos { x: 0, y: -1 }, Pos { x: 1, y: -1 }, Ordering::Less, 4)]]);
    assert!(matches!(cmp[0], Instruction::JumpRelCmp(_, Word(SheetPos(10, -1), 10), Ordering::Less, 4)));
}

#[test]
fn stepper_pauses_at_breakpoint() {
    let prog = vec![
        papier::instructions::write("a"),
        papier::instructions::breakpoint(),
        papier::instructions::write("b"),
        papier::instructions::circle((-1, 0, 1)),
    ];
    let mut app = App::new(prog);
    assert_eq!(app.tick(), Ok(false));
    assert!(app.current_instruction().is_none());
    app.toggle_free_running();
    assert_eq!(app.tick(), Ok(false));
    assert_eq!(app.tick(), Ok(false));
    assert!(matches!(app.current_instruction(), Some(Instruction::BreakPoint)));
    // paused: ticks do nothing
    assert_eq!(app.tick(), Ok(false));
    assert_eq!(app.vm().cursor(), SheetPos(1, 0));
    assert_eq!(app.advance_sim(), Ok(false));
    assert_eq!(app.advance_sim(), Ok(true));
    assert_eq!(app.get_view_as_string(3, 2), "ab \n   \n");
    assert!(app.running);
    app.quit();
    assert!(!app.running);
}

#[test]
fn stepper_view_and_highlights() {
    let prog = vec![
        papier::instructions::write("xy"),
        papier::instructions::copy((-2, 0, 2)),
        papier::instructions::circle((-2, 0, 2)),
    ];
    let mut app = App::new(prog);
    app.advance_sim().unwrap();
    app.advance_sim().unwrap();
    assert_eq!(app.highlight_words(), vec![Word(SheetPos(-2, 0), 2)]);
    assert_eq!(app.last_cursor(), Some(SheetPos(2, 1)));
    assert_eq!(app.cursor(), Some(SheetPos(4, 1)));
    app.scroll(Direction::Right);
    assert_eq!(app.get_view_as_string(4, 1), "yxy \n");
    app.scroll(Direction::Down);
    assert_eq!(app.cursor(), Some(SheetPos(3, 0)));
    assert_eq!(app.get_view_as_string(4, 1), "    \n");
    app.scroll(Direction::Left);
    app.scroll(Direction::Up);
    assert_eq!(app.get_view_as_string(4, 1), "xyxy\n");
}

#[test]
fn papers_of_a_run() {
    let mut vm = PaperVM::new(call_static(gcd_with_mod(), vec![105i64, 20], 10));
    assert_eq!(vm.run(1_000_000), Ok(true));
    let papers = collect_papers(&vm);
    let calls = vm.finished_papers[0].finished_papers.len();
    assert_eq!(papers.len(), 2 + calls);
    assert_eq!(papers[0].print(), vm.print());
    assert_eq!(papers[1].print(), vm.finished_papers[0].print());
}

#[test]
fn instructions_describe_themselves() {
    assert_eq!(papier::instructions::write("a\nb").describe(), "Write `ab'");
    assert_eq!(papier::instructions::circle((-10, 0, 10)).describe(), "Circle (-10, 0, 10)");
    assert_eq!(
        papier::instructions::jump_rel_if((-10, 0, 10), Ordering::Equal, 0, 3).describe(),
        "JumpRelIf (-10, 0, 10) Equal 0 3"
    );
    assert_eq!(
        papier::instructions::call(vec![papier::instructions::stop()], vec![(10, -1, 10), (0, -1, 10)]).describe(),
        "Call prog[1]([(10, -1, 10), (0, -1, 10)])"
    );
    assert_eq!(papier::instructions::jump_rel_if_str((9, -1, 1), " ", -8).describe(), "JumpRelIfStr (9, -1, 1) ` ' -8");
    assert_eq!(papier::instructions::move_cursor(-21, 0).describe(), "MoveCursor -21 0");
    assert_eq!(papier::instructions::stop().describe(), "STOP");
}
