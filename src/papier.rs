//! A page written on by hand: a pen that moves right as it writes, a
//! newline that moves one row down in the same column, and a carriage
//! return that goes back to column 0. A cell shows the first character
//! ever written on it; later strokes over it do not change what it shows.

use crate::sheet::{cell_char, render, Memory, Pos};
use crate::text::{int_chars, int_text, number_of, pad_left, parse_number, string_of};
use vstd::prelude::*;

verus! {

/// What one stroke does to the page `m` with the pen at `pen`.
pub open spec fn stroke(m: Map<(int, int), char>, pen: (int, int), c: char) -> (Map<(int, int), char>, (int, int)) {
    if c == '\n' {
        (m, (pen.0, pen.1 + 1))
    } else if c == '\r' {
        (m, (0, pen.1))
    } else if m.contains_key(pen) {
        (m, (pen.0 + 1, pen.1))
    } else {
        (m.insert(pen, c), (pen.0 + 1, pen.1))
    }
}

/// The page and pen after the strokes of `s`, in order.
pub open spec fn strokes(m: Map<(int, int), char>, pen: (int, int), s: Seq<char>) -> (Map<(int, int), char>, (int, int))
    decreases s.len(),
{
    if s.len() == 0 {
        (m, pen)
    } else {
        let prev = strokes(m, pen, s.drop_last());
        stroke(prev.0, prev.1, s.last())
    }
}

/// Writing `len` characters from `pen` keeps the pen within `i64`.
pub open spec fn strokes_fit(pen: (int, int), len: int) -> bool {
    (if pen.0 > 0 { pen.0 } else { 0 }) + len <= i64::MAX && pen.1 + len <= i64::MAX
}

/// The `width` cells from (`x`, `y`) rightwards, blank where empty.
pub open spec fn row_cells(m: Map<(int, int), char>, x: int, y: int, width: nat) -> Seq<char> {
    Seq::new(width, |i: int| cell_char(m, (x + i, y)))
}

/// The field in which `Numbers::write` writes `n`: its text cut or
/// right-justified to `width` characters, then one blank.
pub open spec fn number_field(n: int, width: nat) -> Seq<char> {
    let t = int_text(n);
    (if t.len() >= width {
        t.subrange(0, width as int)
    } else {
        pad_left(t, width)
    }).push(' ')
}

/// A page and the position of the pen on it.
pub struct Papier {
    x: i64,
    y: i64,
    page: Memory,
}

impl Default for Papier {
    fn default() -> (r: Papier)
        ensures
            r.page() == Map::<(int, int), char>::empty(),
            r.pen() == (0int, 0int),
    {
        Papier::new()
    }
}

impl Papier {
    /// The page as a map from positions to the character each shows.
    pub closed spec fn page(&self) -> Map<(int, int), char> {
        self.page@
    }

    /// The position of the pen.
    pub closed spec fn pen(&self) -> (int, int) {
        (self.x as int, self.y as int)
    }

    /// An empty page with the pen at the origin.
    pub fn new() -> (r: Papier)
        ensures
            r.page() == Map::<(int, int), char>::empty(),
            r.pen() == (0int, 0int),
    {
        Papier { x: 0, y: 0, page: Memory::new() }
    }

    /// One stroke of the pen.
    pub fn write(&mut self, character: char)
        requires
            strokes_fit(old(self).pen(), 1),
        ensures
            (final(self).page(), final(self).pen()) == stroke(old(self).page(), old(self).pen(), character),
    {
        if character == '\n' {
            self.y = self.y + 1;
        } else if character == '\r' {
            self.x = 0;
        } else {
            let p = Pos(self.x, self.y);
            if self.page.get(p).is_none() {
                self.page.set(p, character);
            }
            self.x = self.x + 1;
        }
    }

    fn write_chars(&mut self, s: &Vec<char>)
        requires
            strokes_fit(old(self).pen(), s@.len() as int),
        ensures
            (final(self).page(), final(self).pen()) == strokes(old(self).page(), old(self).pen(), s@),
    {
        let ghost pen0 = self.pen();
        let mut i: usize = 0;
        while i < s.len()
            invariant
                i <= s.len(),
                strokes_fit(pen0, s@.len() as int),
                pen0 == old(self).pen(),
                (self.page(), self.pen()) == strokes(old(self).page(), pen0, s@.subrange(0, i as int)),
                (if pen0.0 < 0 { pen0.0 } else { 0 }) <= self.x <= (if pen0.0 > 0 { pen0.0 } else { 0 }) + i,
                pen0.1 <= self.y <= pen0.1 + i,
            decreases s.len() - i,
        {
            assert(s@.subrange(0, i + 1).drop_last() =~= s@.subrange(0, i as int));
            self.write(s[i]);
            i = i + 1;
        }
        assert(s@.subrange(0, s@.len() as int) =~= s@);
    }

    /// The strokes of `characters`, in order.
    pub fn writes(&mut self, characters: &str)
        requires
            strokes_fit(old(self).pen(), characters@.len() as int),
        ensures
            (final(self).page(), final(self).pen()) == strokes(old(self).page(), old(self).pen(), characters@),
    {
        let s = crate::text::chars_of(characters);
        self.write_chars(&s);
    }

    /// The character shown `dx` columns and `dy` rows from the pen.
    pub fn read(&self, dx: i64, dy: i64) -> (r: Option<char>)
        requires
            i64::MIN <= self.pen().0 + dx <= i64::MAX,
            i64::MIN <= self.pen().1 + dy <= i64::MAX,
        ensures
            r == (if self.page().contains_key((self.pen().0 + dx, self.pen().1 + dy)) {
                Some(self.page()[(self.pen().0 + dx, self.pen().1 + dy)])
            } else {
                None::<char>
            }),
    {
        self.page.get(Pos(self.x + dx, self.y + dy))
    }

    /// The `width` cells from `dx` columns and `dy` rows off the pen,
    /// rightwards, blank where empty.
    pub fn reads(&self, dx: i64, dy: i64, width: u64) -> (r: String)
        requires
            i64::MIN <= self.pen().0 + dx,
            self.pen().0 + dx + width <= i64::MAX,
            i64::MIN <= self.pen().1 + dy <= i64::MAX,
        ensures
            r@ == row_cells(self.page(), self.pen().0 + dx, self.pen().1 + dy, width as nat),
    {
        string_of(&self.row_chars(self.x + dx, self.y + dy, width))
    }

    fn row_chars(&self, x: i64, y: i64, width: u64) -> (r: Vec<char>)
        requires
            x + width <= i64::MAX,
        ensures
            r@ == row_cells(self.page(), x as int, y as int, width as nat),
    {
        let mut r: Vec<char> = Vec::new();
        let mut i: u64 = 0;
        while i < width
            invariant
                i <= width,
                x + width <= i64::MAX,
                r@ == row_cells(self.page(), x as int, y as int, width as nat).subrange(0, i as int),
            decreases width - i,
        {
            let cx: i64 = (x as i128 + i as i128) as i64;
            r.push(self.page.char_at(Pos(cx, y)));
            i = i + 1;
            assert(r@ =~= row_cells(self.page(), x as int, y as int, width as nat).subrange(0, i as int));
        }
        assert(r@ =~= row_cells(self.page(), x as int, y as int, width as nat));
        r
    }

    /// The character shown at the absolute position (`x`, `y`).
    pub fn aread(&self, x: i64, y: i64) -> (r: Option<char>)
        ensures
            r == (if self.page().contains_key((x as int, y as int)) {
                Some(self.page()[(x as int, y as int)])
            } else {
                None::<char>
            }),
    {
        self.page.get(Pos(x, y))
    }

    /// The `width` cells from the absolute position (`x`, `y`) rightwards,
    /// blank where empty.
    pub fn areads(&self, x: i64, y: i64, width: u64) -> (r: String)
        requires
            x + width <= i64::MAX,
        ensures
            r@ == row_cells(self.page(), x as int, y as int, width as nat),
    {
        string_of(&self.row_chars(x, y, width))
    }

    /// The page as text: the smallest rectangle holding every written cell,
    /// row by row, blanks where nothing was written.
    pub fn print(&self) -> (r: String)
        ensures
            r@ == render(self.page()),
    {
        string_of(&self.page.print_chars())
    }
}

/// Writing and reading integers on a page in fields of a given width.
pub struct Numbers {}

impl Numbers {
    /// Writes `number` in a field of `width` characters (its text cut to
    /// the width when longer, right-justified when shorter), then a blank.
    pub fn write(papier: &mut Papier, number: i64, width: usize)
        requires
            strokes_fit(old(papier).pen(), width + 1),
        ensures
            (final(papier).page(), final(papier).pen()) == strokes(
                old(papier).page(),
                old(papier).pen(),
                number_field(number as int, width as nat),
            ),
    {
        let t = int_chars(number);
        let mut field: Vec<char> = Vec::new();
        if t.len() >= width {
            let mut i: usize = 0;
            while i < width
                invariant
                    i <= width <= t@.len(),
                    field@ == t@.subrange(0, i as int),
                decreases width - i,
            {
                field.push(t[i]);
                i = i + 1;
                assert(field@ =~= t@.subrange(0, i as int));
            }
        } else {
            let pad: usize = width - t.len();
            let mut i: usize = 0;
            while i < pad
                invariant
                    i <= pad,
                    field@ == Seq::new(i as nat, |k: int| ' '),
                decreases pad - i,
            {
                field.push(' ');
                i = i + 1;
                assert(field@ =~= Seq::new(i as nat, |k: int| ' '));
            }
            let mut j: usize = 0;
            while j < t.len()
                invariant
                    j <= t@.len(),
                    field@ == Seq::new(pad as nat, |k: int| ' ') + t@.subrange(0, j as int),
                decreases t.len() - j,
            {
                field.push(t[j]);
                j = j + 1;
                assert(field@ =~= Seq::new(pad as nat, |k: int| ' ') + t@.subrange(0, j as int));
            }
            assert(t@.subrange(0, t@.len() as int) =~= t@);
        }
        field.push(' ');
        assert(field@ =~= number_field(number as int, width as nat));
        papier.write_chars(&field);
    }

    /// The integer held by the `width` cells from `dx` columns and `dy`
    /// rows off the pen, read without the whitespace around it.
    pub fn read(papier: &mut Papier, dx: i64, dy: i64, width: u64) -> (r: Option<i64>)
        requires
            i64::MIN <= old(papier).pen().0 + dx,
            old(papier).pen().0 + dx + width <= i64::MAX,
            i64::MIN <= old(papier).pen().1 + dy <= i64::MAX,
        ensures
            *final(papier) == *old(papier),
            r == (match number_of(row_cells(old(papier).page(), old(papier).pen().0 + dx, old(papier).pen().1 + dy, width as nat)) {
                Some(v) => Some(v as i64),
                None => None::<i64>,
            }),
    {
        let cells = papier.row_chars(papier.x + dx, papier.y + dy, width);
        parse_number(&cells)
    }
}

} // verus!
