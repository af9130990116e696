use papier::papier::{Numbers, Papier};
use papier::programs::{fibonacci, pascals_triangle, sort};
use papier::machine::PaperVM;
use papier::sheet::{Pos, Word};

#[test]
fn page_writes_and_reads() {
    let mut p = Papier::new();
    p.writes("ab\r\ncd");
    assert_eq!(p.aread(0, 0), Some('a'));
    assert_eq!(p.aread(1, 0), Some('b'));
    assert_eq!(p.aread(0, 1), Some('c'));
    assert_eq!(p.aread(1, 1), Some('d'));
    assert_eq!(p.aread(2, 1), None);
    assert_eq!(p.read(-2, -1), Some('a'));
    assert_eq!(p.reads(-2, 0, 4), "cd  ");
    assert_eq!(p.areads(0, 0, 3), "ab ");
    assert_eq!(p.print(), "ab\ncd\n");
}

#[test]
fn page_newline_keeps_column() {
    let mut p = Papier::new();
    p.writes("ab\ncd");
    assert_eq!(p.aread(2, 1), Some('c'));
    assert_eq!(p.print(), "ab  \n  cd\n");
}

#[test]
fn page_first_stroke_stays() {
    let mut p = Papier::new();
    p.write('x');
    p.write('\r');
    p.write('y');
    assert_eq!(p.aread(0, 0), Some('x'));
    assert_eq!(p.reads(-1, 0, 1), "x");
}

#[test]
fn page_empty_print() {
    let p = Papier::new();
    assert_eq!(p.print(), "");
    assert_eq!(p.read(0, 0), None);
}

#[test]
fn numbers_in_fields() {
    let mut p = Papier::new();
    Numbers::write(&mut p, 42, 4);
    assert_eq!(p.areads(0, 0, 5), "  42 ");
    Numbers::write(&mut p, -123456, 4);
    assert_eq!(p.areads(5, 0, 5), "-123 ");
    assert_eq!(Numbers::read(&mut p, -10, 0, 4), Some(42));
    assert_eq!(Numbers::read(&mut p, -5, 0, 4), Some(-123));
    assert_eq!(Numbers::read(&mut p, 0, 0, 4), None);
}

#[test]
fn fibonacci_rows() {
    let mut vm = PaperVM::new(fibonacci());
    assert_eq!(vm.run(20), Ok(false));
    let values: Vec<i64> = (0..6).map(|y| vm.read::<i64>(Word(Pos(-vm.cursor().0, y - vm.cursor().1), 10)).unwrap()).collect();
    assert_eq!(values, vec![1, 1, 2, 3, 5, 8]);
}

#[test]
fn pascal_first_rows() {
    let mut vm = PaperVM::new(pascals_triangle());
    assert_eq!(vm.run(200), Err(papier::value::VmError::Conversion));
    let text = vm.print();
    let rows: Vec<Vec<i64>> = text
        .lines()
        .map(|l| l.split_whitespace().map(|t| t.parse().unwrap()).collect())
        .collect();
    assert_eq!(rows[0], vec![1]);
    assert_eq!(rows[1], vec![1, 1]);
    assert_eq!(rows[2], vec![1, 2]);
}

#[test]
fn sort_first_swap() {
    let mut prog = vec![];
    for n in [1223i64, 127, 72, 61, 39, 5] {
        prog.push(papier::instructions::write(n));
    }
    prog.extend(sort());
    let mut vm = PaperVM::new(prog);
    assert_eq!(vm.run(40), Ok(false));
    let text = vm.print();
    let rows: Vec<Vec<i64>> = text
        .lines()
        .map(|l| l.split_whitespace().map(|t| t.parse().unwrap()).collect())
        .collect();
    assert_eq!(rows[0], vec![1223, 127, 72, 61, 39, 5]);
    assert_eq!(rows[1][..2], [127, 1223]);
}

#[test]
fn default_page_is_empty() {
    let p = Papier::default();
    assert_eq!(p.print(), "");
    assert_eq!(p.aread(0, 0), None);
}
