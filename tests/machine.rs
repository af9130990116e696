use papier::convenience::call_static;
use papier::instructions;
use papier::instructions::{call, circle, copy, jump, jump_rel_if, move_cursor, stop};
use papier::machine::{Instruction, PaperVM, StepResult};
use papier::programs::{gcd, gcd_main, gcd_with_mod, modulo_prog};
use papier::sheet::{Pos, Word};
use papier::value::VmError;
use std::cmp::Ordering;

fn run_to_end(vm: &mut PaperVM) {
    assert_eq!(vm.run(1_000_000), Ok(true));
}

#[test]
fn write_moves_cursor_across_rows() {
    let mut vm = PaperVM::new(vec![]);
    vm.write(&"ab\ncd");
    assert_eq!(vm.aread(0, 0), "a");
    assert_eq!(vm.aread(1, 0), "b");
    assert_eq!(vm.aread(0, 1), "c");
    assert_eq!(vm.aread(1, 1), "d");
    assert_eq!(vm.cursor(), Pos(2, 1));
}

#[test]
fn blank_skips_cell() {
    let mut vm = PaperVM::new(vec![]);
    vm.write(&" x");
    assert_eq!(vm.get_memory().get(Pos(0, 0)), None);
    assert_eq!(vm.aread(0, 0), " ");
    assert_eq!(vm.aread(1, 0), "x");
    assert_eq!(vm.cursor(), Pos(2, 0));
}

#[test]
fn blank_keeps_what_was_there() {
    let mut vm = PaperVM::new(vec![]);
    vm.write(&"xy\n");
    vm.write(&"\n");
    let before = vm.print();
    assert_eq!(before, "xy\n");
    let mut vm2 = PaperVM::new(vec![]);
    vm2.write(&"ab");
    vm2.write(&"\n");
    vm2.write(&"  ");
    assert_eq!(vm2.aread(0, 0), "a");
    assert_eq!(vm2.cursor(), Pos(2, 1));
}

#[test]
fn words_resolve_against_current_cursor() {
    let mut vm = PaperVM::new(vec![]);
    vm.write(&"abcd");
    let w = Word(Pos(-4, 0), 2);
    let first: Vec<char> = vm.read(w).unwrap();
    assert_eq!(first, vec!['a', 'b']);
    vm.write(&"ef");
    let second: Vec<char> = vm.read(w).unwrap();
    assert_eq!(second, vec!['c', 'd']);
    vm.write(&"\n");
    let third: Vec<char> = vm.read(Word(Pos(0, -1), 3)).unwrap();
    assert_eq!(third, vec!['a', 'b', 'c']);
    let beyond: Vec<char> = vm.read(Word(Pos(5, -1), 3)).unwrap();
    assert_eq!(beyond, vec!['f', ' ', ' ']);
}

#[test]
fn number_round_trip() {
    for n in [0i64, 7, -7, 98765432, -123456789, 1234567890, i64::MAX, i64::MIN] {
        let mut vm = PaperVM::new(vec![]);
        vm.write(&n);
        let len = std::cmp::max(10, n.to_string().len());
        let back: i64 = vm.read(Word(Pos(-(len as i64), 0), len)).unwrap();
        assert_eq!(back, n);
    }
}

#[test]
fn numbers_are_right_justified() {
    let mut vm = PaperVM::new(vec![]);
    vm.write(&42i64);
    assert_eq!(vm.cursor(), Pos(10, 0));
    assert_eq!(vm.print(), "42\n");
    let field: Vec<char> = vm.read(Word(Pos(-10, 0), 10)).unwrap();
    let text: String = field.into_iter().collect();
    assert_eq!(text, "        42");
    assert_eq!(vm.get_memory().get(Pos(7, 0)), None);
    assert_eq!(vm.get_memory().get(Pos(8, 0)), Some('4'));
}

#[test]
fn malformed_field_is_conversion_error() {
    let mut vm = PaperVM::new(vec![]);
    vm.write(&"12x4");
    assert_eq!(vm.read::<i64>(Word(Pos(-4, 0), 4)), Err(VmError::Conversion));
    assert_eq!(vm.read::<i64>(Word(Pos(-4, 0), 2)), Ok(12));
    assert_eq!(vm.read::<i64>(Word(Pos(0, 0), 5)), Err(VmError::Conversion));
    vm.write(&"99999999999999999999");
    assert_eq!(vm.read::<i64>(Word(Pos(-20, 0), 20)), Err(VmError::Conversion));
}

#[test]
fn gcd_of_large_inputs_is_one() {
    let mut vm = PaperVM::new(call_static(gcd(), vec![98765432i64, 1234567], 10));
    run_to_end(&mut vm);
    assert_eq!(vm.result::<i64>(), Some(Ok(1)));
}

#[test]
fn gcd_with_common_factor() {
    let mut vm = PaperVM::new(call_static(gcd(), vec![1071i64, 462], 10));
    run_to_end(&mut vm);
    assert_eq!(vm.result::<i64>(), Some(Ok(21)));
}

#[test]
fn gcd_main_program() {
    let mut vm = PaperVM::new(gcd_main(1322, 127));
    run_to_end(&mut vm);
    assert_eq!(vm.result::<i64>(), Some(Ok(1)));
    let mut vm = PaperVM::new(gcd_main(84, 36));
    run_to_end(&mut vm);
    assert_eq!(vm.result::<i64>(), Some(Ok(12)));
}

#[test]
fn gcd_through_nested_modulo_calls() {
    let mut vm = PaperVM::new(call_static(gcd_with_mod(), vec![105i64, 20], 10));
    run_to_end(&mut vm);
    assert_eq!(vm.result::<i64>(), Some(Ok(5)));
    assert_eq!(vm.finished_papers.len(), 1);
    assert!(vm.finished_papers[0].finished_papers.len() >= 2);
}

#[test]
fn modulo_program_by_subtraction() {
    let mut vm = PaperVM::new(call_static(modulo_prog(), vec![23i64, 5], 10));
    run_to_end(&mut vm);
    assert_eq!(vm.result::<i64>(), Some(Ok(3)));
}

#[test]
fn call_hands_back_only_the_circled_word() {
    let child = vec![
        instructions::write("junk\n"),
        copy((0, -1, 4)),
        instructions::write("zz"),
        circle((-6, 0, 4)),
    ];
    let mut vm = PaperVM::new(vec![
        instructions::write("abcd"),
        call(child, vec![(-4, 0, 4)]),
        circle((-4, 0, 4)),
    ]);
    run_to_end(&mut vm);
    let result: Vec<char> = vm.result().unwrap().unwrap();
    assert_eq!(result, vec!['a', 'b', 'c', 'd']);
    assert_eq!(vm.print(), "abcdabcd\n");
    assert_eq!(vm.get_memory().get(Pos(0, 1)), None);
    assert_eq!(vm.finished_papers.len(), 1);
    assert_eq!(vm.finished_papers[0].print(), "abcdjunk\nabcdzz  \n");
}

#[test]
fn finished_only_after_circle() {
    let mut vm = PaperVM::new(vec![
        instructions::write("a"),
        call(vec![instructions::write("b"), circle((-1, 0, 1))], vec![(-1, 0, 1)]),
        circle((-1, 0, 1)),
    ]);
    // write
    assert!(!vm.step().unwrap().is_finished());
    // call opened
    assert!(!vm.step().unwrap().is_finished());
    assert!(vm.subroutine.is_some());
    // child writes
    assert!(!vm.step().unwrap().is_finished());
    assert!(vm.result::<Vec<char>>().is_none());
    // child circles: merged, then the parent circles in the same step
    let last = vm.step().unwrap();
    assert!(last.is_finished());
    assert!(vm.subroutine.is_none());
    assert_eq!(vm.result::<Vec<char>>(), Some(Ok(vec!['b'])));
    assert!(matches!(vm.step(), Err(VmError::AlreadyFinished)));
    assert_eq!(vm.run(5), Err(VmError::AlreadyFinished));
}

#[test]
fn step_reports_instruction_and_cursor() {
    let mut vm = PaperVM::new(vec![instructions::write("ab"), instructions::breakpoint(), circle((0, 0, 1))]);
    vm.step().unwrap();
    match vm.step().unwrap() {
        StepResult::Running(s) => {
            assert_eq!(s.index, 1);
            assert_eq!(s.cursor, Pos(2, 0));
            assert!(matches!(s.instruction(), Some(Instruction::BreakPoint)));
        }
        StepResult::Finished => panic!("not finished yet"),
    }
}

#[test]
fn equal_jump_triggers_on_equal_value() {
    let prog = vec![
        instructions::write(5i64),
        jump_rel_if((-10, 0, 10), Ordering::Equal, 5, 2),
        stop(),
        circle((-10, 0, 10)),
    ];
    let mut vm = PaperVM::new(prog);
    run_to_end(&mut vm);
    assert_eq!(vm.result::<i64>(), Some(Ok(5)));
    let prog = vec![
        instructions::write(6i64),
        jump_rel_if((-10, 0, 10), Ordering::Equal, 5, 2),
        stop(),
        circle((-10, 0, 10)),
    ];
    let mut vm = PaperVM::new(prog);
    assert_eq!(vm.run(10), Err(VmError::FatalHalt));
}

#[test]
fn less_and_greater_jumps() {
    let prog = vec![
        instructions::write(-3i64),
        jump_rel_if((-10, 0, 10), Ordering::Less, 0, 2),
        stop(),
        jump_rel_if((-10, 0, 10), Ordering::Greater, -5, 2),
        stop(),
        circle((-10, 0, 10)),
    ];
    let mut vm = PaperVM::new(prog);
    run_to_end(&mut vm);
    assert_eq!(vm.result::<i64>(), Some(Ok(-3)));
}

#[test]
fn arithmetic_instructions() {
    let prog = vec![
        instructions::write(17i64),
        instructions::write(5i64),
        instructions::add((-20, 0, 10), (-10, 0, 10)),
        instructions::sub((-30, 0, 10), (-20, 0, 10)),
        instructions::modulo((-40, 0, 10), (-30, 0, 10)),
        instructions::modulo((-30, 0, 10), (-40, 0, 10)),
        circle((-30, 0, 30)),
    ];
    let mut vm = PaperVM::new(prog);
    run_to_end(&mut vm);
    let all: Vec<char> = vm.result().unwrap().unwrap();
    let text: String = all.into_iter().collect();
    assert_eq!(text, "        12         2         2");
}

#[test]
fn remainder_has_sign_of_dividend() {
    let prog = vec![
        instructions::write(-17i64),
        instructions::write(5i64),
        instructions::modulo((-20, 0, 10), (-10, 0, 10)),
        circle((-10, 0, 10)),
    ];
    let mut vm = PaperVM::new(prog);
    run_to_end(&mut vm);
    assert_eq!(vm.result::<i64>(), Some(Ok(-2)));
}

#[test]
fn trimmed_copy_drops_whitespace() {
    let prog = vec![
        instructions::write("  4 2\t"),
        instructions::copy_trimmed((-6, 0, 6)),
        circle((-2, 0, 2)),
    ];
    let mut vm = PaperVM::new(prog);
    run_to_end(&mut vm);
    assert_eq!(vm.result::<Vec<char>>(), Some(Ok(vec!['4', '2'])));
}

#[test]
fn errors_of_the_engine() {
    let mut vm = PaperVM::new(vec![stop()]);
    assert!(matches!(vm.step(), Err(VmError::FatalHalt)));

    let mut vm = PaperVM::new(vec![jump(5)]);
    assert!(vm.step().is_ok());
    assert!(matches!(vm.step(), Err(VmError::OutOfBounds)));

    let mut vm = PaperVM::new(vec![]);
    assert!(matches!(vm.step(), Err(VmError::OutOfBounds)));

    let mut vm = PaperVM::new(vec![instructions::write(3i64), instructions::write(0i64), instructions::modulo((-20, 0, 10), (-10, 0, 10))]);
    assert_eq!(vm.run(10), Err(VmError::Arithmetic));

    let mut vm = PaperVM::new(vec![instructions::write("x"), instructions::add((-1, 0, 1), (-1, 0, 1))]);
    assert_eq!(vm.run(10), Err(VmError::Conversion));

    let mut vm = PaperVM::new(vec![move_cursor(i64::MAX, 0), instructions::write("ab")]);
    assert_eq!(vm.run(10), Err(VmError::OffSheet));

    let mut vm = PaperVM::new(vec![instructions::write(i64::MAX), instructions::write(1i64), instructions::add((-29, 0, 19), (-10, 0, 10))]);
    assert_eq!(vm.run(10), Err(VmError::Arithmetic));
}

#[test]
fn error_in_call_reaches_the_caller() {
    let mut vm = PaperVM::new(vec![call(vec![stop()], Vec::<(i64, i64, usize)>::new()), circle((0, 0, 1))]);
    assert!(vm.step().is_ok());
    assert!(matches!(vm.step(), Err(VmError::FatalHalt)));
    assert!(vm.subroutine.is_some());
}

#[test]
fn run_stops_after_budget() {
    let mut vm = PaperVM::new(vec![jump(0)]);
    assert_eq!(vm.run(3), Ok(false));
}

#[test]
fn print_of_empty_and_offset_sheets() {
    let vm = PaperVM::new(vec![]);
    assert_eq!(vm.print(), "");
    let mut vm = PaperVM::new(vec![move_cursor(-2, -1), instructions::write("a"), move_cursor(2, 2), instructions::write("b"), circle((0, 0, 1))]);
    run_to_end(&mut vm);
    assert_eq!(vm.print(), "a   \n    \n   b\n");
}

#[test]
fn circled_word_is_made_absolute() {
    let mut vm = PaperVM::new(vec![instructions::write("abc"), circle((-3, 0, 3))]);
    assert_eq!(vm.get_circled(), None);
    run_to_end(&mut vm);
    assert_eq!(vm.get_circled(), Some(Word(Pos(0, 0), 3)));
}

#[test]
fn lowest_subroutine_is_the_running_machine() {
    let inner = vec![instructions::write("q"), circle((-1, 0, 1))];
    let mut vm = PaperVM::new(vec![call(inner, Vec::<(i64, i64, usize)>::new()), circle((-1, 0, 1))]);
    assert!(vm.lowest_subroutine().subroutine.is_none());
    vm.step().unwrap();
    vm.step().unwrap();
    assert_eq!(vm.lowest_subroutine().cursor(), Pos(1, 0));
    assert_eq!(vm.cursor(), Pos(0, 0));
}

#[test]
fn call_static_lays_out_inputs() {
    let prog = call_static(vec![circle((0, 0, 1))], vec!["ab", "cde"], 4);
    assert_eq!(prog.len(), 4);
    match &prog[2] {
        Instruction::Call(p, args) => {
            assert_eq!(p.len(), 1);
            assert_eq!(args, &vec![Word(Pos(-5, 0), 2), Word(Pos(-3, 0), 3)]);
        }
        _ => panic!("expected a call"),
    }
    assert!(matches!(prog[3], Instruction::Circle(Word(Pos(-4, 0), 4))));
}

#[test]
fn position_helpers() {
    assert_eq!(Pos(3, 4).next(), Pos(4, 4));
    assert_eq!(Pos(3, 4).down(), Pos(0, 5));
    assert_eq!(Pos(-2, 1).rel_to_cursor(Pos(5, 5)), Pos(3, 6));
    assert_eq!(Word::from((-3i64, 2i64, 7usize)), Word(Pos(-3, 2), 7));
}

#[test]
fn circled_number_reads_back() {
    for n in [0i64, 42, -5, 1234567890] {
        let mut vm = PaperVM::new(vec![instructions::write(n), circle((-10, 0, 10))]);
        run_to_end(&mut vm);
        assert_eq!(vm.result::<i64>(), Some(Ok(n)));
    }
}
