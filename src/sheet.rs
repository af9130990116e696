//! The sheet: a sparse grid of character cells addressed by integer
//! positions, with reads and writes relative to a cursor.

use vstd::prelude::*;

verus! {

/// A position on the sheet: column, then row.
#[derive(Clone, Copy, Debug, PartialEq, Eq, Hash, Structural)]
pub struct Pos(pub i64, pub i64);

impl Pos {
    /// The position as a pair of mathematical integers.
    pub open spec fn key(self) -> (int, int) {
        (self.0 as int, self.1 as int)
    }

    /// The position one column to the right.
    pub fn next(&self) -> (r: Pos)
        requires
            self.0 < i64::MAX,
        ensures
            r.key() == (self.0 + 1, self.1 as int),
    {
        Pos(self.0 + 1, self.1)
    }

    /// Column 0 of the next row.
    pub fn down(&self) -> (r: Pos)
        requires
            self.1 < i64::MAX,
        ensures
            r.key() == (0int, self.1 + 1),
    {
        Pos(0, self.1 + 1)
    }

    /// This offset taken from `cursor`.
    pub fn rel_to_cursor(&self, cursor: Pos) -> (r: Pos)
        requires
            i64::MIN <= self.0 + cursor.0 <= i64::MAX,
            i64::MIN <= self.1 + cursor.1 <= i64::MAX,
        ensures
            r.key() == (self.0 + cursor.0, self.1 + cursor.1),
    {
        Pos(self.0 + cursor.0, self.1 + cursor.1)
    }
}

impl From<(i64, i64, usize)> for Word {
    fn from(value: (i64, i64, usize)) -> (r: Word) {
        Word(Pos(value.0, value.1), value.2)
    }
}

impl vstd::std_specs::convert::FromSpecImpl<(i64, i64, usize)> for Word {
    open spec fn obeys_from_spec() -> bool {
        true
    }

    open spec fn from_spec(v: (i64, i64, usize)) -> Word {
        Word(Pos(v.0, v.1), v.2)
    }
}

/// A cursor-relative address: an offset from the cursor and a number of
/// consecutive cells along the row, to the right.
#[derive(Clone, Copy, Debug, PartialEq, Eq, Structural)]
pub struct Word(pub Pos, pub usize);

/// What a single cell of the sheet can do: hold one character.
pub trait MemoryCell: Sized {
    spec fn content(&self) -> char;

    fn write(&mut self, value: char)
        ensures
            final(self).content() == value,
    ;

    fn read(&self) -> (r: char)
        ensures
            r == self.content(),
    ;
}

/// A cell holding one character, blank by default.
#[derive(Clone, Copy, Debug)]
pub struct CharCell {
    value: char,
}

impl Default for CharCell {
    fn default() -> (r: CharCell)
        ensures
            r.content() == ' ',
    {
        CharCell { value: ' ' }
    }
}

impl MemoryCell for CharCell {
    closed spec fn content(&self) -> char {
        self.value
    }

    fn write(&mut self, value: char) {
        self.value = value;
    }

    fn read(&self) -> (r: char) {
        self.value
    }
}

/// The character at `k` in the entries `s`: the last entry at `k` decides.
pub open spec fn cell_of(s: Seq<(Pos, CharCell)>, k: (int, int)) -> Option<char>
    decreases s.len(),
{
    if s.len() == 0 {
        None
    } else if s.last().0.key() == k {
        Some(s.last().1.content())
    } else {
        cell_of(s.drop_last(), k)
    }
}

/// The populated cells of a sheet. Positions never written are absent and
/// read as blank.
pub struct Memory {
    cells: Vec<(Pos, CharCell)>,
}

impl View for Memory {
    type V = Map<(int, int), char>;

    closed spec fn view(&self) -> Map<(int, int), char> {
        Map::new(|k: (int, int)| cell_of(self.cells@, k) is Some, |k: (int, int)| cell_of(self.cells@, k)->Some_0)
    }
}

proof fn lemma_cell_of_some(s: Seq<(Pos, CharCell)>, k: (int, int))
    ensures
        cell_of(s, k) is Some <==> exists|i: int| 0 <= i < s.len() && (#[trigger] s[i]).0.key() == k,
    decreases s.len(),
{
    if s.len() > 0 {
        lemma_cell_of_some(s.drop_last(), k);
        if cell_of(s.drop_last(), k) is Some {
            let i = choose|i: int| 0 <= i < s.drop_last().len() && (#[trigger] s.drop_last()[i]).0.key() == k;
            assert(s[i] == s.drop_last()[i]);
        }
        if exists|i: int| 0 <= i < s.len() && (#[trigger] s[i]).0.key() == k {
            let i = choose|i: int| 0 <= i < s.len() && (#[trigger] s[i]).0.key() == k;
            if i < s.len() - 1 {
                assert(s.drop_last()[i] == s[i]);
            }
        }
    }
}

proof fn lemma_cell_of_update(s: Seq<(Pos, CharCell)>, i: int, x: (Pos, CharCell), k: (int, int))
    requires
        0 <= i < s.len(),
        s[i].0.key() == x.0.key(),
        forall|j: int| i < j < s.len() ==> (#[trigger] s[j]).0.key() != x.0.key(),
    ensures
        cell_of(s.update(i, x), k) == if k == x.0.key() {
            Some(x.1.content())
        } else {
            cell_of(s, k)
        },
    decreases s.len(),
{
    if i == s.len() - 1 {
        assert(s.update(i, x).drop_last() =~= s.drop_last());
    } else {
        assert(s.update(i, x).drop_last() =~= s.drop_last().update(i, x));
        lemma_cell_of_update(s.drop_last(), i, x, k);
    }
}

proof fn lemma_cell_of_found(s: Seq<(Pos, CharCell)>, i: int, k: (int, int))
    requires
        0 <= i < s.len(),
        s[i].0.key() == k,
        forall|j: int| i < j < s.len() ==> (#[trigger] s[j]).0.key() != k,
    ensures
        cell_of(s, k) == Some(s[i].1.content()),
    decreases s.len(),
{
    if i < s.len() - 1 {
        lemma_cell_of_found(s.drop_last(), i, k);
    }
}

impl Memory {
    /// An empty sheet.
    pub fn new() -> (r: Memory)
        ensures
            r@ == Map::<(int, int), char>::empty(),
    {
        let r = Memory { cells: Vec::new() };
        assert(r@ =~= Map::<(int, int), char>::empty());
        r
    }

    /// Index of the entry at `p`, if there is one.
    fn find(&self, p: Pos) -> (r: Option<usize>)
        ensures
            match r {
                Some(i) => i < self.cells@.len() && self.cells@[i as int].0.key() == p.key() && forall|j: int|
                    i < j < self.cells@.len() ==> (#[trigger] self.cells@[j]).0.key() != p.key(),
                None => forall|j: int|
                    0 <= j < self.cells@.len() ==> (#[trigger] self.cells@[j]).0.key() != p.key(),
            },
    {
        let mut i: usize = self.cells.len();
        while i > 0
            invariant
                i <= self.cells@.len(),
                forall|j: int| i <= j < self.cells@.len() ==> (#[trigger] self.cells@[j]).0.key() != p.key(),
            decreases i,
        {
            if self.cells[i - 1].0 == p {
                return Some(i - 1);
            }
            i = i - 1;
        }
        None
    }

    /// The character at `p`, if that cell was ever written.
    pub fn get(&self, p: Pos) -> (r: Option<char>)
        ensures
            r == (if self@.contains_key(p.key()) {
                Some(self@[p.key()])
            } else {
                None::<char>
            }),
    {
        match self.find(p) {
            Some(i) => {
                proof {
                    lemma_cell_of_found(self.cells@, i as int, p.key());
                }
                Some(self.cells[i].1.read())
            },
            None => {
                proof {
                    lemma_cell_of_some(self.cells@, p.key());
                }
                None
            },
        }
    }

    /// The character at `p`, blank where nothing was written.
    pub fn char_at(&self, p: Pos) -> (r: char)
        ensures
            r == cell_char(self@, p.key()),
    {
        match self.get(p) {
            Some(c) => c,
            None => ' ',
        }
    }

    /// Writes `c` into the cell at `p`.
    pub fn set(&mut self, p: Pos, c: char)
        ensures
            final(self)@ == old(self)@.insert(p.key(), c),
    {
        let ghost s0 = self.cells@;
        match self.find(p) {
            Some(i) => {
                let mut cell = CharCell::default();
                cell.write(c);
                self.cells.set(i, (p, cell));
                proof {
                    assert forall|k: (int, int)| #[trigger] cell_of(self.cells@, k) == (if k == p.key() {
                        Some(c)
                    } else {
                        cell_of(s0, k)
                    }) by {
                        lemma_cell_of_update(s0, i as int, (p, cell), k);
                    }
                }
            },
            None => {
                let mut cell = CharCell::default();
                cell.write(c);
                self.cells.push((p, cell));
                proof {
                    assert forall|k: (int, int)| #[trigger] cell_of(self.cells@, k) == (if k == p.key() {
                        Some(c)
                    } else {
                        cell_of(s0, k)
                    }) by {
                        assert(self.cells@.drop_last() =~= s0);
                    }
                }
            },
        }
        assert(self@ =~= old(self)@.insert(p.key(), c));
    }

    /// The corners of the smallest rectangle that holds every populated
    /// cell, if any cell is populated.
    pub fn bounds(&self) -> (r: Option<(Pos, Pos)>)
        ensures
            r is None <==> self@.dom() == Set::<(int, int)>::empty(),
            r matches Some((lo, hi)) ==> tight_bounds(self@, lo.key(), hi.key()),
    {
        let s = &self.cells;
        let ghost cs = self.cells@;
        if s.len() == 0 {
            proof {
                assert forall|k: (int, int)| !(#[trigger] self@.dom().contains(k)) by {
                    lemma_cell_of_some(cs, k);
                }
                assert(self@.dom() =~= Set::<(int, int)>::empty());
            }
            return None;
        }
        let mut lo = s[0].0;
        let mut hi = s[0].0;
        assert(cs[0].0.0 == lo.0 && cs[0].0.1 == lo.1);
        let mut i: usize = 1;
        while i < s.len()
            invariant
                1 <= i <= s.len(),
                s@ == cs,
                forall|j: int| 0 <= j < i ==> lo.0 <= (#[trigger] cs[j]).0.0 <= hi.0 && lo.1 <= cs[j].0.1 <= hi.1,
                exists|j: int| 0 <= j < i && (#[trigger] cs[j]).0.0 == lo.0,
                exists|j: int| 0 <= j < i && (#[trigger] cs[j]).0.0 == hi.0,
                exists|j: int| 0 <= j < i && (#[trigger] cs[j]).0.1 == lo.1,
                exists|j: int| 0 <= j < i && (#[trigger] cs[j]).0.1 == hi.1,
            decreases s.len() - i,
        {
            let p = s[i].0;
            if p.0 < lo.0 {
                lo = Pos(p.0, lo.1);
            }
            if p.0 > hi.0 {
                hi = Pos(p.0, hi.1);
            }
            if p.1 < lo.1 {
                lo = Pos(lo.0, p.1);
            }
            if p.1 > hi.1 {
                hi = Pos(hi.0, p.1);
            }
            i = i + 1;
        }
        proof {
            assert forall|k: (int, int)| #[trigger] self@.contains_key(k) implies lo.0 <= k.0 <= hi.0
                && lo.1 <= k.1 <= hi.1 by {
                lemma_cell_of_some(cs, k);
            }
            let j0 = choose|j: int| 0 <= j < cs.len() && (#[trigger] cs[j]).0.0 == lo.0;
            let j1 = choose|j: int| 0 <= j < cs.len() && (#[trigger] cs[j]).0.0 == hi.0;
            let j2 = choose|j: int| 0 <= j < cs.len() && (#[trigger] cs[j]).0.1 == lo.1;
            let j3 = choose|j: int| 0 <= j < cs.len() && (#[trigger] cs[j]).0.1 == hi.1;
            lemma_cell_of_some(cs, cs[j0].0.key());
            lemma_cell_of_some(cs, cs[j1].0.key());
            lemma_cell_of_some(cs, cs[j2].0.key());
            lemma_cell_of_some(cs, cs[j3].0.key());
            assert(self@.contains_key(cs[j0].0.key()));
            assert(self@.contains_key(cs[j1].0.key()));
            assert(self@.contains_key(cs[j2].0.key()));
            assert(self@.contains_key(cs[j3].0.key()));
            assert(self@.dom().contains(cs[j0].0.key()));
        }
        Some((lo, hi))
    }

    /// Whether no cell was ever written.
    pub fn is_empty(&self) -> (r: bool)
        ensures
            r == (self@.dom() == Set::<(int, int)>::empty()),
    {
        proof {
            if self.cells@.len() > 0 {
                let k = self.cells@.last().0.key();
                lemma_cell_of_some(self.cells@, k);
                assert(self.cells@[self.cells@.len() - 1].0.key() == k);
                assert(self@.dom().contains(k));
            } else {
                assert(self@.dom() =~= Set::<(int, int)>::empty());
            }
        }
        self.cells.len() == 0
    }
}

/// `lo` and `hi` are the corners of the smallest rectangle that holds every
/// populated cell of `m`.
pub open spec fn tight_bounds(m: Map<(int, int), char>, lo: (int, int), hi: (int, int)) -> bool {
    &&& forall|k: (int, int)| #[trigger] m.contains_key(k) ==> lo.0 <= k.0 <= hi.0 && lo.1 <= k.1 <= hi.1
    &&& exists|k: (int, int)| #[trigger] m.contains_key(k) && k.0 == lo.0
    &&& exists|k: (int, int)| #[trigger] m.contains_key(k) && k.0 == hi.0
    &&& exists|k: (int, int)| #[trigger] m.contains_key(k) && k.1 == lo.1
    &&& exists|k: (int, int)| #[trigger] m.contains_key(k) && k.1 == hi.1
}

/// The character that a cell shows: what was written there, else blank.
pub open spec fn cell_char(m: Map<(int, int), char>, k: (int, int)) -> char {
    if m.contains_key(k) {
        m[k]
    } else {
        ' '
    }
}


/// What writing the character `c` does to a sheet `m` with the cursor at
/// `cur`: a newline starts the next row at column 0, a blank moves right
/// and leaves the cell alone, anything else fills the cell and moves right.
pub open spec fn put_char(m: Map<(int, int), char>, cur: (int, int), c: char) -> (Map<(int, int), char>, (int, int)) {
    if c == '\n' {
        (m, (0, cur.1 + 1))
    } else if c == ' ' {
        (m, (cur.0 + 1, cur.1))
    } else {
        (m.insert(cur, c), (cur.0 + 1, cur.1))
    }
}

/// The sheet and cursor after writing the characters of `s` in order.
pub open spec fn put_chars(m: Map<(int, int), char>, cur: (int, int), s: Seq<char>) -> (Map<(int, int), char>, (int, int))
    decreases s.len(),
{
    if s.len() == 0 {
        (m, cur)
    } else {
        let prev = put_chars(m, cur, s.drop_last());
        put_char(prev.0, prev.1, s.last())
    }
}

/// Writing `a` and then `b` is writing `a + b`: arguments written one after
/// another lie side by side as one run would.
pub proof fn lemma_put_chars_concat(m: Map<(int, int), char>, cur: (int, int), a: Seq<char>, b: Seq<char>)
    ensures
        put_chars(m, cur, a + b) == put_chars(put_chars(m, cur, a).0, put_chars(m, cur, a).1, b),
    decreases b.len(),
{
    if b.len() == 0 {
        assert(a + b =~= a);
    } else {
        lemma_put_chars_concat(m, cur, a, b.drop_last());
        assert((a + b).drop_last() =~= a + b.drop_last());
    }
}

/// The characters that word `w` denotes with the cursor at `cur`.
pub open spec fn read_cells(m: Map<(int, int), char>, cur: (int, int), w: Word) -> Seq<char> {
    Seq::new(w.1 as nat, |i: int| cell_char(m, (cur.0 + w.0.0 + i, cur.1 + w.0.1)))
}

/// Writing `len` characters from `cur` keeps the cursor within `i64`.
pub open spec fn write_fits(cur: (int, int), len: int) -> bool {
    (if cur.0 > 0 { cur.0 } else { 0 }) + len <= i64::MAX && cur.1 + len <= i64::MAX
}

/// Every cell that `w` denotes from `cur` has a position within `i64`.
pub open spec fn word_fits(cur: (int, int), w: Word) -> bool {
    i64::MIN <= cur.0 + w.0.0 && cur.0 + w.0.0 + w.1 <= i64::MAX && i64::MIN <= cur.1 + w.0.1
        <= i64::MAX
}

/// Writing a run without newlines moves the cursor along the row by its
/// length; each cell under the run shows the run's character, or what it
/// showed before where the run has a blank.
pub proof fn lemma_put_row(m: Map<(int, int), char>, cur: (int, int), s: Seq<char>)
    requires
        forall|i: int| 0 <= i < s.len() ==> s[i] != '\n',
    ensures
        put_chars(m, cur, s).1 == (cur.0 + s.len(), cur.1),
        forall|i: int|
            0 <= i < s.len() ==> #[trigger] cell_char(put_chars(m, cur, s).0, (cur.0 + i, cur.1)) == (
            if s[i] == ' ' {
                cell_char(m, (cur.0 + i, cur.1))
            } else {
                s[i]
            }),
        forall|k: (int, int)|
            !(k.1 == cur.1 && cur.0 <= k.0 < cur.0 + s.len()) ==> (#[trigger] put_chars(m, cur, s).0.contains_key(k)
                == m.contains_key(k) && put_chars(m, cur, s).0[k] == m[k]),
    decreases s.len(),
{
    if s.len() > 0 {
        let p = s.drop_last();
        lemma_put_row(m, cur, p);
        let prev = put_chars(m, cur, p);
        let k_last = (cur.0 + s.len() - 1, cur.1);
        assert(cell_char(prev.0, k_last) == cell_char(m, k_last));
        assert forall|i: int| 0 <= i < s.len() implies #[trigger] cell_char(
            put_chars(m, cur, s).0,
            (cur.0 + i, cur.1),
        ) == (if s[i] == ' ' {
            cell_char(m, (cur.0 + i, cur.1))
        } else {
            s[i]
        }) by {
            if i < s.len() - 1 {
                assert(p[i] == s[i]);
                assert(cell_char(prev.0, (cur.0 + i, cur.1)) == (if p[i] == ' ' {
                    cell_char(m, (cur.0 + i, cur.1))
                } else {
                    p[i]
                }));
            }
        }
    }
}

/// Writes `s` from `cursor` and returns where the cursor ends.
pub fn put_chars_at(mem: &mut Memory, cursor: Pos, s: &Vec<char>) -> (r: Pos)
    requires
        write_fits(cursor.key(), s@.len() as int),
    ensures
        (final(mem)@, r.key()) == put_chars(old(mem)@, cursor.key(), s@),
{
    let mut cur = cursor;
    let mut i: usize = 0;
    while i < s.len()
        invariant
            i <= s.len(),
            write_fits(cursor.key(), s@.len() as int),
            (mem@, cur.key()) == put_chars(old(mem)@, cursor.key(), s@.subrange(0, i as int)),
            (if cursor.0 < 0 { cursor.0 as int } else { 0 }) <= cur.0 <= (if cursor.0 > 0 { cursor.0 as int } else { 0 }) + i,
            cursor.1 <= cur.1 <= cursor.1 + i,
        decreases s.len() - i,
    {
        let c = s[i];
        assert(s@.subrange(0, i + 1).drop_last() =~= s@.subrange(0, i as int));
        if c == '\n' {
            cur = cur.down();
        } else if c == ' ' {
            cur = cur.next();
        } else {
            mem.set(cur, c);
            cur = cur.next();
        }
        i = i + 1;
    }
    assert(s@.subrange(0, s@.len() as int) =~= s@);
    cur
}

/// The characters that word `w` denotes with the cursor at `cursor`.
pub fn read_at(mem: &Memory, cursor: Pos, w: Word) -> (r: Vec<char>)
    requires
        word_fits(cursor.key(), w),
    ensures
        r@ == read_cells(mem@, cursor.key(), w),
{
    let start = w.0.rel_to_cursor(cursor);
    let x0: i64 = start.0;
    let y: i64 = start.1;
    let mut r: Vec<char> = Vec::new();
    let mut i: usize = 0;
    while i < w.1
        invariant
            i <= w.1,
            x0 == cursor.0 + w.0.0,
            y == cursor.1 + w.0.1,
            x0 + w.1 <= i64::MAX,
            r@ == read_cells(mem@, cursor.key(), w).subrange(0, i as int),
        decreases w.1 - i,
    {
        let x: i64 = (x0 as i128 + i as i128) as i64;
        let c = mem.char_at(Pos(x, y));
        r.push(c);
        i = i + 1;
        assert(r@ =~= read_cells(mem@, cursor.key(), w).subrange(0, i as int));
    }
    assert(r@ =~= read_cells(mem@, cursor.key(), w));
    r
}


/// One row of a rendering: the cells of row `y` from column `x0` to `x1`,
/// then a newline.
pub open spec fn row_text(m: Map<(int, int), char>, y: int, x0: int, x1: int) -> Seq<char> {
    Seq::new((x1 - x0 + 1) as nat, |i: int| cell_char(m, (x0 + i, y))).push('\n')
}

/// Rows `y0` to `y1` of a rendering, top to bottom.
pub open spec fn rows_text(m: Map<(int, int), char>, x0: int, x1: int, y0: int, y1: int) -> Seq<char>
    decreases y1 - y0 + 1,
{
    if y1 < y0 {
        Seq::empty()
    } else {
        rows_text(m, x0, x1, y0, y1 - 1) + row_text(m, y1, x0, x1)
    }
}

/// The text of a sheet: every row of the smallest rectangle holding the
/// populated cells, blanks where nothing was written; empty for an empty sheet.
pub open spec fn render(m: Map<(int, int), char>) -> Seq<char> {
    if m.dom() == Set::<(int, int)>::empty() {
        Seq::empty()
    } else {
        let b = choose|b: ((int, int), (int, int))| tight_bounds(m, b.0, b.1);
        rows_text(m, b.0.0, b.1.0, b.0.1, b.1.1)
    }
}

proof fn lemma_tight_bounds_unique(m: Map<(int, int), char>, a: (int, int), b: (int, int), c: (int, int), d: (int, int))
    requires
        tight_bounds(m, a, b),
        tight_bounds(m, c, d),
    ensures
        a == c && b == d,
{
    let k0 = choose|k: (int, int)| #[trigger] m.contains_key(k) && k.0 == a.0;
    let k1 = choose|k: (int, int)| #[trigger] m.contains_key(k) && k.0 == c.0;
    let k2 = choose|k: (int, int)| #[trigger] m.contains_key(k) && k.0 == b.0;
    let k3 = choose|k: (int, int)| #[trigger] m.contains_key(k) && k.0 == d.0;
    let k4 = choose|k: (int, int)| #[trigger] m.contains_key(k) && k.1 == a.1;
    let k5 = choose|k: (int, int)| #[trigger] m.contains_key(k) && k.1 == c.1;
    let k6 = choose|k: (int, int)| #[trigger] m.contains_key(k) && k.1 == b.1;
    let k7 = choose|k: (int, int)| #[trigger] m.contains_key(k) && k.1 == d.1;
}

impl Memory {
    /// The text of the window of `w` columns and `h` rows whose top left
    /// cell is (`x0`, `y0`), row by row, blanks where nothing was written.
    pub fn window_chars(&self, x0: i64, y0: i64, w: u16, h: u16) -> (r: Vec<char>)
        requires
            x0 + w <= i64::MAX,
            y0 + h <= i64::MAX,
        ensures
            r@ == rows_text(self@, x0 as int, x0 + w - 1, y0 as int, y0 + h - 1),
    {
        let ghost m = self@;
        let mut r: Vec<char> = Vec::new();
        let mut j: u16 = 0;
        while j < h
            invariant
                m == self@,
                j <= h,
                x0 + w <= i64::MAX,
                y0 + h <= i64::MAX,
                r@ == rows_text(m, x0 as int, x0 + w - 1, y0 as int, y0 + j - 1),
            decreases h - j,
        {
            let y: i64 = y0 + j as i64;
            let ghost start = r@;
            let mut i: u16 = 0;
            while i < w
                invariant
                    m == self@,
                    i <= w,
                    x0 + w <= i64::MAX,
                    r@ == start + Seq::new(i as nat, |k: int| cell_char(m, (x0 + k, y as int))),
                decreases w - i,
            {
                r.push(self.char_at(Pos(x0 + i as i64, y)));
                i = i + 1;
                assert(r@ =~= start + Seq::new(i as nat, |k: int| cell_char(m, (x0 + k, y as int))));
            }
            r.push('\n');
            assert(r@ =~= rows_text(m, x0 as int, x0 + w - 1, y0 as int, y0 + j));
            j = j + 1;
        }
        r
    }

    /// The text of the sheet, row by row.
    pub fn print_chars(&self) -> (r: Vec<char>)
        ensures
            r@ == render(self@),
    {
        let mut r: Vec<char> = Vec::new();
        match self.bounds() {
            None => r,
            Some((lo, hi)) => {
                proof {
                    let w = (lo.key(), hi.key());
                    assert(tight_bounds(self@, w.0, w.1));
                    let b = choose|b: ((int, int), (int, int))| tight_bounds(self@, b.0, b.1);
                    lemma_tight_bounds_unique(self@, lo.key(), hi.key(), b.0, b.1);
                }
                let ghost m = self@;
                let mut y: i64 = lo.1;
                loop
                    invariant_except_break
                        r@ == rows_text(m, lo.0 as int, hi.0 as int, lo.1 as int, y - 1),
                    invariant
                        m == self@,
                        lo.1 <= y <= hi.1,
                        lo.0 <= hi.0,
                    ensures
                        r@ == rows_text(m, lo.0 as int, hi.0 as int, lo.1 as int, hi.1 as int),
                    decreases hi.1 - y,
                {
                    let mut x: i64 = lo.0;
                    let ghost start = r@;
                    loop
                        invariant_except_break
                            r@ == start + Seq::new((x - lo.0) as nat, |i: int| cell_char(m, (lo.0 + i, y as int))),
                        invariant
                            m == self@,
                            lo.0 <= x <= hi.0,
                        ensures
                            r@ == start + Seq::new((hi.0 - lo.0 + 1) as nat, |i: int| cell_char(m, (lo.0 + i, y as int))),
                        decreases hi.0 - x,
                    {
                        r.push(self.char_at(Pos(x, y)));
                        assert(r@ =~= start + Seq::new((x + 1 - lo.0) as nat, |i: int| cell_char(m, (lo.0 + i, y as int))));
                        if x == hi.0 {
                            break;
                        }
                        x = x + 1;
                    }
                    r.push('\n');
                    assert(r@ =~= rows_text(m, lo.0 as int, hi.0 as int, lo.1 as int, y as int));
                    if y == hi.1 {
                        break;
                    }
                    y = y + 1;
                }
                r
            },
        }
    }
}

} // verus!
