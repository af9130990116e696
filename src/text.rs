//! Conversion between runs of characters on the sheet and the values that
//! programs compute with: signed integers in fixed-width fields, and raw text.

use vstd::prelude::*;

verus! {

/// Relies on `String`'s `FromIterator<&char>`: the string holds the
/// characters in the order given.
#[verifier::external_body]
pub(crate) fn string_of(chars: &Vec<char>) -> (r: String)
    ensures
        r@ == chars@,
{
    chars.iter().collect()
}

/// Relies on `str::chars` collected into a `Vec`: the characters of `s` in
/// order.
#[verifier::external_body]
pub(crate) fn chars_of(s: &str) -> (r: Vec<char>)
    ensures
        r@ == s@,
{
    s.chars().collect()
}

/// Width of the field in which a number is written; a number whose text is
/// longer is written in full.
pub const CHARS_PER_NUMBER: usize = 10;

/// Unicode's White_Space property, which `char::is_whitespace` tests.
pub open spec fn is_space_spec(c: char) -> bool {
    let u = c as u32;
    (0x9 <= u && u <= 0xd) || u == 0x20 || u == 0x85 || u == 0xa0 || u == 0x1680 || (0x2000 <= u
        && u <= 0x200a) || u == 0x2028 || u == 0x2029 || u == 0x202f || u == 0x205f || u == 0x3000
}

/// Whether `c` is whitespace.
pub fn is_space(c: char) -> (r: bool)
    ensures
        r == is_space_spec(c),
{
    let u = c as u32;
    (0x9 <= u && u <= 0xd) || u == 0x20 || u == 0x85 || u == 0xa0 || u == 0x1680 || (0x2000 <= u
        && u <= 0x200a) || u == 0x2028 || u == 0x2029 || u == 0x202f || u == 0x205f || u == 0x3000
}

pub open spec fn is_digit_spec(c: char) -> bool {
    '0' <= c && c <= '9'
}

pub open spec fn digit_value(c: char) -> int {
    (c as u32) - ('0' as u32)
}

pub open spec fn digit_char(d: int) -> char {
    if d == 0 { '0' }
    else if d == 1 { '1' }
    else if d == 2 { '2' }
    else if d == 3 { '3' }
    else if d == 4 { '4' }
    else if d == 5 { '5' }
    else if d == 6 { '6' }
    else if d == 7 { '7' }
    else if d == 8 { '8' }
    else { '9' }
}

/// Decimal digits of `n`, most significant first, without leading zeros.
pub open spec fn decimal(n: nat) -> Seq<char>
    decreases n,
{
    if n < 10 {
        seq![digit_char(n as int)]
    } else {
        decimal(n / 10).push(digit_char((n % 10) as int))
    }
}

/// Text of an integer: a minus sign for negatives, then its digits.
pub open spec fn int_text(n: int) -> Seq<char> {
    if n < 0 {
        seq!['-'] + decimal((-n) as nat)
    } else {
        decimal(n as nat)
    }
}

pub open spec fn spaces(k: nat) -> Seq<char> {
    Seq::new(k, |i: int| ' ')
}

/// `s` right-justified in a field of `w` characters (unchanged when longer).
pub open spec fn pad_left(s: Seq<char>, w: nat) -> Seq<char> {
    if s.len() < w {
        spaces((w - s.len()) as nat) + s
    } else {
        s
    }
}

/// The characters that a number is written as.
pub open spec fn number_text(n: int) -> Seq<char> {
    pad_left(int_text(n), CHARS_PER_NUMBER as nat)
}

fn digit(d: u64) -> (r: char)
    requires
        d < 10,
    ensures
        r == digit_char(d as int),
{
    match d {
        0 => '0',
        1 => '1',
        2 => '2',
        3 => '3',
        4 => '4',
        5 => '5',
        6 => '6',
        7 => '7',
        8 => '8',
        _ => '9',
    }
}

fn push_decimal(out: &mut Vec<char>, n: u64)
    ensures
        final(out)@ == old(out)@ + decimal(n as nat),
    decreases n,
{
    if n >= 10 {
        push_decimal(out, n / 10);
    }
    out.push(digit(n % 10));
    proof {
        if n >= 10 {
            assert(old(out)@ + decimal(n as nat) =~= old(out)@ + decimal((n / 10) as nat) + seq![digit_char((n % 10) as int)]);
        } else {
            assert(decimal(n as nat) =~= seq![digit_char(n as int)]);
        }
    }
}

/// The decimal digits of `n`.
pub fn decimal_chars(n: u64) -> (r: Vec<char>)
    ensures
        r@ == decimal(n as nat),
{
    let mut t: Vec<char> = Vec::new();
    push_decimal(&mut t, n);
    assert(t@ =~= decimal(n as nat));
    t
}

/// The text of `n`: a minus sign for negatives, then its digits.
pub fn int_chars(n: i64) -> (r: Vec<char>)
    ensures
        r@ == int_text(n as int),
{
    let mut t: Vec<char> = Vec::new();
    if n < 0 {
        t.push('-');
        let m: u64 = (-(n as i128)) as u64;
        push_decimal(&mut t, m);
    } else {
        push_decimal(&mut t, n as u64);
    }
    t
}

/// The characters of `n`, right-justified in a field of `CHARS_PER_NUMBER`.
pub fn format_number(n: i64) -> (r: Vec<char>)
    ensures
        r@ == number_text(n as int),
{
    let t = int_chars(n);
    let ghost text = t@;
    assert(text == int_text(n as int));
    if t.len() >= CHARS_PER_NUMBER {
        return t;
    }
    let pad: usize = CHARS_PER_NUMBER - t.len();
    let mut r: Vec<char> = Vec::new();
    let mut i: usize = 0;
    while i < pad
        invariant
            i <= pad,
            r@ == spaces(i as nat),
        decreases pad - i,
    {
        r.push(' ');
        i = i + 1;
        assert(r@ =~= spaces(i as nat));
    }
    let mut j: usize = 0;
    while j < t.len()
        invariant
            j <= t.len(),
            t@ == text,
            r@ == spaces(pad as nat) + text.subrange(0, j as int),
        decreases t.len() - j,
    {
        r.push(t[j]);
        j = j + 1;
        assert(r@ =~= spaces(pad as nat) + text.subrange(0, j as int));
    }
    assert(text.subrange(0, text.len() as int) =~= text);
    r
}


/// `s` without its leading whitespace.
pub open spec fn trim_start(s: Seq<char>) -> Seq<char>
    decreases s.len(),
{
    if s.len() > 0 && is_space_spec(s[0]) {
        trim_start(s.subrange(1, s.len() as int))
    } else {
        s
    }
}

/// `s` without its trailing whitespace.
pub open spec fn trim_end(s: Seq<char>) -> Seq<char>
    decreases s.len(),
{
    if s.len() > 0 && is_space_spec(s.last()) {
        trim_end(s.drop_last())
    } else {
        s
    }
}

/// `s` without whitespace at either end.
pub open spec fn trim(s: Seq<char>) -> Seq<char> {
    trim_end(trim_start(s))
}

/// `s` with every whitespace character removed.
pub open spec fn strip_spaces(s: Seq<char>) -> Seq<char>
    decreases s.len(),
{
    if s.len() == 0 {
        s
    } else if is_space_spec(s.last()) {
        strip_spaces(s.drop_last())
    } else {
        strip_spaces(s.drop_last()).push(s.last())
    }
}

pub open spec fn all_digits(s: Seq<char>) -> bool {
    forall|i: int| 0 <= i < s.len() ==> is_digit_spec(#[trigger] s[i])
}

/// The value of a run of decimal digits.
pub open spec fn digits_value(s: Seq<char>) -> int
    decreases s.len(),
{
    if s.len() == 0 {
        0
    } else {
        digits_value(s.drop_last()) * 10 + digit_value(s.last())
    }
}

/// An integer in text: an optional sign, then one or more decimal digits,
/// with a value in the range of `i64`.
pub open spec fn parse_int(s: Seq<char>) -> Option<int> {
    let signed = s.len() > 0 && (s[0] == '-' || s[0] == '+');
    let body = if signed { s.subrange(1, s.len() as int) } else { s };
    let v = if signed && s[0] == '-' { -digits_value(body) } else { digits_value(body) };
    if body.len() == 0 || !all_digits(body) || v < i64::MIN || v > i64::MAX {
        None
    } else {
        Some(v)
    }
}

/// The number that a field holds: its text without surrounding whitespace,
/// read as an integer.
pub open spec fn number_of(s: Seq<char>) -> Option<int> {
    parse_int(trim(s))
}

fn copy_range(s: &Vec<char>, a: usize, e: usize) -> (r: Vec<char>)
    requires
        a <= e <= s.len(),
    ensures
        r@ == s@.subrange(a as int, e as int),
{
    let mut r: Vec<char> = Vec::new();
    let mut i: usize = a;
    while i < e
        invariant
            a <= i <= e <= s.len(),
            r@ == s@.subrange(a as int, i as int),
        decreases e - i,
    {
        r.push(s[i]);
        i = i + 1;
        assert(r@ =~= s@.subrange(a as int, i as int));
    }
    r
}

/// `s` without whitespace at either end.
pub fn trim_chars(s: &Vec<char>) -> (r: Vec<char>)
    ensures
        r@ == trim(s@),
{
    let n = s.len();
    let mut a: usize = 0;
    assert(s@.subrange(0, n as int) =~= s@);
    while a < n && is_space(s[a])
        invariant
            a <= n == s.len(),
            trim_start(s@) == trim_start(s@.subrange(a as int, n as int)),
        decreases n - a,
    {
        assert(s@.subrange(a as int, n as int).subrange(1, (n - a) as int) =~= s@.subrange(
            a + 1,
            n as int,
        ));
        a = a + 1;
    }
    assert(trim_start(s@) == s@.subrange(a as int, n as int));
    let mut e: usize = n;
    while e > a && is_space(s[e - 1])
        invariant
            a <= e <= n == s.len(),
            trim(s@) == trim_end(s@.subrange(a as int, e as int)),
        decreases e,
    {
        assert(s@.subrange(a as int, e as int).drop_last() =~= s@.subrange(a as int, e - 1));
        e = e - 1;
    }
    copy_range(s, a, e)
}

/// `s` with every whitespace character removed.
pub fn strip_chars(s: &Vec<char>) -> (r: Vec<char>)
    ensures
        r@ == strip_spaces(s@),
{
    let mut r: Vec<char> = Vec::new();
    let mut i: usize = 0;
    while i < s.len()
        invariant
            i <= s.len(),
            r@ == strip_spaces(s@.subrange(0, i as int)),
        decreases s.len() - i,
    {
        assert(s@.subrange(0, i + 1).drop_last() =~= s@.subrange(0, i as int));
        if !is_space(s[i]) {
            r.push(s[i]);
        }
        i = i + 1;
    }
    assert(s@.subrange(0, s.len() as int) =~= s@);
    r
}

proof fn lemma_digits_grow(s: Seq<char>, k: int)
    requires
        all_digits(s),
        0 <= k <= s.len(),
    ensures
        digits_value(s) >= digits_value(s.subrange(0, k)) >= 0,
    decreases s.len(),
{
    if s.len() > 0 {
        lemma_digits_grow(s.drop_last(), if k == s.len() { k - 1 } else { k });
        if k < s.len() {
            assert(s.drop_last().subrange(0, k) =~= s.subrange(0, k));
        } else {
            assert(s.subrange(0, k) =~= s);
        }
    } else {
        assert(s.subrange(0, k) =~= s);
    }
}

/// The integer that the field `s` holds, if it holds one.
pub fn parse_number(s: &Vec<char>) -> (r: Option<i64>)
    ensures
        r == (match number_of(s@) {
            Some(v) => Some(v as i64),
            None => None::<i64>,
        }),
{
    let t = trim_chars(s);
    let n = t.len();
    if n == 0 {
        return None;
    }
    let signed = t[0] == '-' || t[0] == '+';
    let neg = t[0] == '-';
    let start: usize = if signed { 1 } else { 0 };
    let ghost body = if signed { t@.subrange(1, n as int) } else { t@ };
    assert(body =~= t@.subrange(start as int, n as int));
    if start == n {
        return None;
    }
    let mut acc: u64 = 0;
    let mut i: usize = start;
    while i < n
        invariant
            start <= i <= n == t.len(),
            t@ == trim(s@),
            signed == (t@[0] == '-' || t@[0] == '+'),
            neg == (t@[0] == '-'),
            start == (if signed { 1usize } else { 0usize }),
            body == (if signed { t@.subrange(1, n as int) } else { t@ }),
            body == t@.subrange(start as int, n as int),
            all_digits(t@.subrange(start as int, i as int)),
            acc as int == digits_value(t@.subrange(start as int, i as int)),
            acc <= 0x8000_0000_0000_0000u64,
        decreases n - i,
    {
        let c = t[i];
        assert(t@.subrange(start as int, i + 1).drop_last() =~= t@.subrange(start as int, i as int));
        if !('0' <= c && c <= '9') {
            assert(body[i - start] == c);
            assert(!all_digits(body));
            return None;
        }
        let d = (c as u32 - '0' as u32) as u64;
        if acc > 0x0CCC_CCCC_CCCC_CCCCu64 || acc * 10 + d > 0x8000_0000_0000_0000u64 {
            proof {
                if all_digits(body) {
                    lemma_digits_grow(body, i + 1 - start);
                    assert(body.subrange(0, i + 1 - start) =~= t@.subrange(start as int, i + 1));
                    assert(digits_value(t@.subrange(start as int, i + 1)) == acc * 10 + d);
                    assert(digits_value(body) > 0x8000_0000_0000_0000);
                }
            }
            return None;
        }
        acc = acc * 10 + d;
        i = i + 1;
    }
    assert(t@.subrange(start as int, n as int) =~= body);
    if neg {
        if acc == 0x8000_0000_0000_0000u64 {
            Some(i64::MIN)
        } else {
            Some(-(acc as i64))
        }
    } else if acc > 0x7FFF_FFFF_FFFF_FFFFu64 {
        None
    } else {
        Some(acc as i64)
    }
}


proof fn lemma_digit(d: int)
    requires
        0 <= d < 10,
    ensures
        is_digit_spec(digit_char(d)),
        digit_value(digit_char(d)) == d,
{
}

proof fn lemma_decimal(n: nat)
    ensures
        decimal(n).len() >= 1,
        all_digits(decimal(n)),
        digits_value(decimal(n)) == n,
    decreases n,
{
    if n < 10 {
        lemma_digit(n as int);
        assert(decimal(n).drop_last() =~= Seq::<char>::empty());
        assert(decimal(n)[0] == digit_char(n as int));
        assert(decimal(n).last() == digit_char(n as int));
        assert(digits_value(decimal(n).drop_last()) == 0);
    } else {
        lemma_decimal(n / 10);
        lemma_digit((n % 10) as int);
        assert(decimal(n).drop_last() =~= decimal(n / 10));
        assert(digits_value(decimal(n)) == digits_value(decimal(n / 10)) * 10 + (n % 10));
        assert forall|i: int| 0 <= i < decimal(n).len() implies is_digit_spec(
            #[trigger] decimal(n)[i],
        ) by {
            if i < decimal(n).len() - 1 {
                assert(decimal(n)[i] == decimal(n / 10)[i]);
            }
        }
    }
}

/// The digits of a number are decimal digits.
pub proof fn lemma_decimal_digits(n: nat)
    ensures
        all_digits(decimal(n)),
        decimal(n).len() >= 1,
{
    lemma_decimal(n);
}

proof fn lemma_trim_padded(t: Seq<char>, k: nat)
    requires
        t.len() > 0,
        !is_space_spec(t[0]),
        !is_space_spec(t.last()),
    ensures
        trim(spaces(k) + t) == t,
    decreases k,
{
    if k > 0 {
        assert((spaces(k) + t).subrange(1, (spaces(k) + t).len() as int) =~= spaces(
            (k - 1) as nat,
        ) + t);
        lemma_trim_padded(t, (k - 1) as nat);
    } else {
        assert(spaces(k) + t =~= t);
    }
}

/// A number written as text and read back is the same number.
pub proof fn lemma_number_round_trip(n: i64)
    ensures
        number_of(number_text(n as int)) == Some(n as int),
{
    let t = int_text(n as int);
    if n < 0 {
        lemma_decimal((-n) as nat);
        assert(t.subrange(1, t.len() as int) =~= decimal((-n) as nat));
        assert(t.last() == decimal((-n) as nat).last());
    } else {
        lemma_decimal(n as nat);
    }
    let d = decimal((if n < 0 { -(n as int) } else { n as int }) as nat);
    assert(is_digit_spec(d.last()));
    assert(is_digit_spec(d[0]));
    if t.len() < CHARS_PER_NUMBER {
        lemma_trim_padded(t, (CHARS_PER_NUMBER - t.len()) as nat);
    } else {
        lemma_trim_padded(t, 0);
        assert(spaces(0) + t =~= t);
    }
    assert(trim(number_text(n as int)) == t);
}

} // verus!
