//! Reading molecular orbital data in Gaussian's `cube` format.
//!
//! The text is read line by line, each line split into tokens at ASCII whitespace. What the
//! format says about integers (counts, atomic numbers, the orbital's number) is read here; the
//! floating-point numbers (coordinates, charges, values) are located, and the checks that they
//! need are listed in the order in which a reader meets them, so that the caller can read them
//! and report the first failure before any later error.
//!
//! Documentation of the format:
//! * <https://gaussian.com/cubegen/>
//! * <http://paulbourke.net/dataformats/cube/>
use vstd::prelude::*;
use vstd::string::*;
use crate::utils::chars_of;

verus! {

broadcast use vstd::string::group_string_axioms;

/// The kinds of error in reading an integer, as the standard library reports them.
#[derive(Clone, Copy, PartialEq, Eq, Debug, Structural)]
pub enum IntErrorKind {
    /// The text is empty.
    Empty,
    /// The text holds a character that is not a digit where a digit is expected.
    InvalidDigit,
    /// The number is too large for the integer type.
    PosOverflow,
    /// The number is too small for the integer type.
    NegOverflow,
}

/// Error type describing a malformed cube file.
#[derive(Clone, Copy, PartialEq, Eq, Debug, Structural)]
pub enum ParseCubeError {
    /// The text ended where another line was expected.
    UnexpectedEof,
    /// A line ended where another token was expected.
    UnexpectedEol,
    /// A token is not a valid integer.
    InvalidInt(IntErrorKind),
    /// A token is not a valid floating-point number.
    InvalidFloat,
    /// A step vector is not aligned with the standard basis.
    NonStandardStepBasis,
    /// The data is not a molecular orbital.
    NotMo,
    /// More than one value per point.
    TooManyValuesPerPoint(u32),
    /// More than one molecular orbital.
    TooManyMos(u32),
    /// The number of values differs from the number of points: expected, then actual.
    IncorrectValueCount(usize, usize),
}

// ---------------------------------------------------------------------------------------------
// Characters, lines and tokens.

/// ASCII whitespace, at which lines are split into tokens: space, tab, line feed, form feed
/// and carriage return.
pub open spec fn is_ascii_whitespace(c: char) -> bool {
    c == ' ' || c == '\t' || c == '\n' || c == '\x0C' || c == '\r'
}

/// Unicode whitespace (the `White_Space` property), which trimming removes.
pub open spec fn is_whitespace(c: char) -> bool {
    ||| '\t' <= c <= '\r'
    ||| c == ' '
    ||| c == '\u{85}'
    ||| c == '\u{a0}'
    ||| c == '\u{1680}'
    ||| '\u{2000}' <= c <= '\u{200a}'
    ||| c == '\u{2028}'
    ||| c == '\u{2029}'
    ||| c == '\u{202f}'
    ||| c == '\u{205f}'
    ||| c == '\u{3000}'
}

/// The index of the first line feed at or after `p`, or the length of `s` when there is none.
pub open spec fn line_feed_from(s: Seq<char>, p: int) -> int
    decreases s.len() - p,
{
    if p < 0 || p >= s.len() {
        s.len() as int
    } else if s[p] == '\n' {
        p
    } else {
        line_feed_from(s, p + 1)
    }
}

/// The line that starts at `p`, as `(start, end, next)`: its text is `s[start..end]`, without
/// its line feed and without a carriage return just before that line feed, and the next line
/// starts at `next`. `None` when `p` is at the end of the text: a text that ends with a line
/// feed has no empty last line.
pub open spec fn line_at(s: Seq<char>, p: int) -> Option<(int, int, int)> {
    if p < 0 || p >= s.len() {
        None
    } else {
        let k = line_feed_from(s, p);
        if k == s.len() {
            Some((p, k, k))
        } else if k > p && s[k - 1] == '\r' {
            Some((p, k - 1, k + 1))
        } else {
            Some((p, k, k + 1))
        }
    }
}

/// The end of the run of characters other than ASCII whitespace that starts at `q`, within
/// `[q, b)`.
pub open spec fn token_end(s: Seq<char>, q: int, b: int) -> int
    decreases b - q,
{
    if q < b && !is_ascii_whitespace(s[q]) {
        token_end(s, q + 1, b)
    } else {
        q
    }
}

/// The first token at or after `q` within `[q, b)`, as `(start, end)`.
pub open spec fn token_at(s: Seq<char>, q: int, b: int) -> Option<(int, int)>
    decreases b - q,
{
    if q >= b {
        None
    } else if is_ascii_whitespace(s[q]) {
        token_at(s, q + 1, b)
    } else {
        Some((q, token_end(s, q, b)))
    }
}

/// A token ends within the part of the line it is read from.
pub proof fn lemma_token_end_bounds(s: Seq<char>, q: int, b: int)
    requires
        q <= b,
    ensures
        q <= token_end(s, q, b) <= b,
    decreases b - q,
{
    if q < b && !is_ascii_whitespace(s[q]) {
        lemma_token_end_bounds(s, q + 1, b);
    }
}

/// A token lies within the part of the line it is read from, and is not empty.
pub proof fn lemma_token_at_bounds(s: Seq<char>, q: int, b: int)
    requires
        q <= b,
    ensures
        token_at(s, q, b) matches Some((a, e)) ==> q <= a < e <= b,
    decreases b - q,
{
    if q < b {
        if is_ascii_whitespace(s[q]) {
            lemma_token_at_bounds(s, q + 1, b);
        } else {
            lemma_token_end_bounds(s, q + 1, b);
        }
    }
}

/// The first line feed at or after a position is found there or later, or not at all.
pub proof fn lemma_line_feed_bounds(s: Seq<char>, p: int)
    requires
        0 <= p,
    ensures
        p <= line_feed_from(s, p) <= s.len() || (p > s.len() && line_feed_from(s, p) == s.len()),
        line_feed_from(s, p) < s.len() ==> s[line_feed_from(s, p)] == '\n',
    decreases s.len() - p,
{
    if p < s.len() && s[p] != '\n' {
        lemma_line_feed_bounds(s, p + 1);
    }
}

/// A line lies within the text, and the next one starts after it.
pub proof fn lemma_line_at_bounds(s: Seq<char>, p: int)
    requires
        0 <= p,
    ensures
        line_at(s, p) matches Some((a, b, n)) ==> a == p && p <= b <= s.len() && p < n <= s.len(),
{
    lemma_line_feed_bounds(s, p);
}

/// All tokens within `[q, b)`, in order.
pub open spec fn tokens_in(s: Seq<char>, q: int, b: int) -> Seq<(int, int)>
    decreases b - q,
{
    if q >= b {
        Seq::empty()
    } else {
        match token_at(s, q, b) {
            None => Seq::empty(),
            Some((a, e)) => {
                proof {
                    lemma_token_at_bounds(s, q, b);
                }
                seq![(a, e)] + tokens_in(s, e, b)
            },
        }
    }
}

/// All tokens of all lines from the one starting at `p` to the end of the text, in order.
pub open spec fn tokens_of_lines_from(s: Seq<char>, p: int) -> Seq<(int, int)>
    decreases s.len() - p,
{
    if p < 0 {
        Seq::empty()
    } else {
        match line_at(s, p) {
            None => Seq::empty(),
            Some((a, b, n)) => {
                proof {
                    lemma_line_at_bounds(s, p);
                }
                tokens_in(s, a, b) + tokens_of_lines_from(s, n)
            },
        }
    }
}

/// The start of `s[a..b]` once leading whitespace is removed.
pub open spec fn trim_start(s: Seq<char>, a: int, b: int) -> int
    decreases b - a,
{
    if a < b && is_whitespace(s[a]) {
        trim_start(s, a + 1, b)
    } else {
        a
    }
}

/// The end of `s[a..b]` once trailing whitespace is removed.
pub open spec fn trim_end(s: Seq<char>, a: int, b: int) -> int
    decreases b - a,
{
    if a < b && is_whitespace(s[b - 1]) {
        trim_end(s, a, b - 1)
    } else {
        b
    }
}

/// `s[a..b]` without leading and trailing whitespace.
pub open spec fn trimmed(s: Seq<char>, a: int, b: int) -> Seq<char> {
    let a2 = trim_start(s, a, b);
    s.subrange(a2, trim_end(s, a2, b))
}

// ---------------------------------------------------------------------------------------------
// Integers.

/// A decimal digit.
pub open spec fn is_digit(c: char) -> bool {
    '0' <= c <= '9'
}

/// The value of a decimal digit.
pub open spec fn digit_value(c: char) -> int {
    (c as int) - ('0' as int)
}

/// Reading the digits `d` from left to right into a number in `[lo, hi]`, negative when `neg`:
/// the value, or the error met first (a character that is not a digit, or a prefix whose value
/// is out of range).
pub open spec fn scan_digits(d: Seq<char>, neg: bool, lo: int, hi: int) -> Result<int, IntErrorKind>
    decreases d.len(),
{
    if d.len() == 0 {
        Ok(0)
    } else {
        match scan_digits(d.drop_last(), neg, lo, hi) {
            Err(e) => Err(e),
            Ok(v) => if !is_digit(d.last()) {
                Err(IntErrorKind::InvalidDigit)
            } else {
                let w = if neg {
                    v * 10 - digit_value(d.last())
                } else {
                    v * 10 + digit_value(d.last())
                };
                if lo <= w <= hi {
                    Ok(w)
                } else if neg {
                    Err(IntErrorKind::NegOverflow)
                } else {
                    Err(IntErrorKind::PosOverflow)
                }
            },
        }
    }
}

/// Reading `t` as a decimal integer in `[lo, hi]`: an optional `+` sign (or `-` sign when
/// `signed`) followed by digits.
pub open spec fn parse_integer(t: Seq<char>, signed: bool, lo: int, hi: int) -> Result<
    int,
    IntErrorKind,
> {
    if t.len() == 0 {
        Err(IntErrorKind::Empty)
    } else if t.len() == 1 && (t[0] == '+' || t[0] == '-') {
        Err(IntErrorKind::InvalidDigit)
    } else if t[0] == '+' {
        scan_digits(t.drop_first(), false, lo, hi)
    } else if t[0] == '-' && signed {
        scan_digits(t.drop_first(), true, lo, hi)
    } else {
        scan_digits(t, false, lo, hi)
    }
}

proof fn lemma_scan_digits_range(d: Seq<char>, neg: bool, lo: int, hi: int)
    requires
        lo <= 0 <= hi,
    ensures
        scan_digits(d, neg, lo, hi) matches Ok(v) ==> lo <= v <= hi,
    decreases d.len(),
{
    if d.len() > 0 {
        lemma_scan_digits_range(d.drop_last(), neg, lo, hi);
    }
}

proof fn lemma_parse_integer_range(t: Seq<char>, signed: bool, lo: int, hi: int)
    requires
        lo <= 0 <= hi,
    ensures
        parse_integer(t, signed, lo, hi) matches Ok(v) ==> lo <= v <= hi,
{
    lemma_scan_digits_range(t, false, lo, hi);
    if t.len() > 0 {
        lemma_scan_digits_range(t.drop_first(), false, lo, hi);
        lemma_scan_digits_range(t.drop_first(), true, lo, hi);
    }
}

// ---------------------------------------------------------------------------------------------
// Reading the text.

fn is_ascii_whitespace_char(c: char) -> (r: bool)
    ensures
        r == is_ascii_whitespace(c),
{
    c == ' ' || c == '\t' || c == '\n' || c == '\x0C' || c == '\r'
}

fn is_whitespace_char(c: char) -> (r: bool)
    ensures
        r == is_whitespace(c),
{
    ('\t' <= c && c <= '\r') || c == ' ' || c == '\u{85}' || c == '\u{a0}' || c == '\u{1680}' || (
    '\u{2000}' <= c && c <= '\u{200a}') || c == '\u{2028}' || c == '\u{2029}' || c == '\u{202f}'
        || c == '\u{205f}' || c == '\u{3000}'
}

/// The line that starts at `p` (see [`line_at`]).
fn find_line(cs: &Vec<char>, p: usize) -> (r: Option<(usize, usize, usize)>)
    ensures
        match line_at(cs@, p as int) {
            None => r is None,
            Some((a, b, n)) => r matches Some((x, y, z)) && x == a && y == b && z == n,
        },
        r matches Some((a, b, n)) ==> a == p && a <= b <= cs@.len() && p < n <= cs@.len(),
{
    proof {
        lemma_line_at_bounds(cs@, p as int);
    }
    if p >= cs.len() {
        return None;
    }
    let mut k: usize = p;
    while k < cs.len() && cs[k] != '\n'
        invariant
            p <= k <= cs@.len(),
            p < cs@.len(),
            line_feed_from(cs@, p as int) == line_feed_from(cs@, k as int),
        decreases cs@.len() - k,
    {
        k = k + 1;
    }
    if k == cs.len() {
        Some((p, k, k))
    } else if k > p && cs[k - 1] == '\r' {
        Some((p, k - 1, k + 1))
    } else {
        Some((p, k, k + 1))
    }
}

/// The first token at or after `q` within `[q, b)` (see [`token_at`]).
fn find_token(cs: &Vec<char>, q: usize, b: usize) -> (r: Option<(usize, usize)>)
    requires
        q <= b <= cs@.len(),
    ensures
        match token_at(cs@, q as int, b as int) {
            None => r is None,
            Some((a, e)) => r matches Some((x, y)) && x == a && y == e,
        },
        r matches Some((a, e)) ==> q <= a < e <= b,
{
    let mut a: usize = q;
    while a < b && is_ascii_whitespace_char(cs[a])
        invariant
            q <= a <= b <= cs@.len(),
            token_at(cs@, q as int, b as int) == token_at(cs@, a as int, b as int),
        decreases b - a,
    {
        a = a + 1;
    }
    if a >= b {
        return None;
    }
    let mut e: usize = a;
    while e < b && !is_ascii_whitespace_char(cs[e])
        invariant
            a <= e <= b <= cs@.len(),
            a < b,
            !is_ascii_whitespace(cs@[a as int]),
            token_end(cs@, a as int, b as int) == token_end(cs@, e as int, b as int),
        decreases b - e,
    {
        e = e + 1;
    }
    proof {
        lemma_token_at_bounds(cs@, a as int, b as int);
    }
    Some((a, e))
}

/// `s[a..b]` without leading and trailing whitespace, as `(start, end)` (see [`trimmed`]).
fn trim_span(cs: &Vec<char>, a: usize, b: usize) -> (r: (usize, usize))
    requires
        a <= b <= cs@.len(),
    ensures
        r.0 <= r.1 <= b,
        cs@.subrange(r.0 as int, r.1 as int) == trimmed(cs@, a as int, b as int),
{
    let mut x: usize = a;
    while x < b && is_whitespace_char(cs[x])
        invariant
            a <= x <= b <= cs@.len(),
            trim_start(cs@, a as int, b as int) == trim_start(cs@, x as int, b as int),
        decreases b - x,
    {
        x = x + 1;
    }
    let mut y: usize = b;
    while x < y && is_whitespace_char(cs[y - 1])
        invariant
            x <= y <= b <= cs@.len(),
            trim_start(cs@, a as int, b as int) == x,
            trim_end(cs@, x as int, b as int) == trim_end(cs@, x as int, y as int),
        decreases y - x,
    {
        y = y - 1;
    }
    (x, y)
}

/// Read `s[a..b]` as a decimal integer in `[lo, hi]` (see [`parse_integer`]).
fn parse_integer_at(cs: &Vec<char>, a: usize, b: usize, signed: bool, lo: i128, hi: i128) -> (r:
    Result<i128, IntErrorKind>)
    requires
        a <= b <= cs@.len(),
        -0x1_0000_0000_0000_0000 <= lo <= 0 <= hi <= 0x1_0000_0000_0000_0000,
    ensures
        match parse_integer(cs@.subrange(a as int, b as int), signed, lo as int, hi as int) {
            Ok(v) => r == Ok::<i128, IntErrorKind>(v as i128),
            Err(k) => r == Err::<i128, IntErrorKind>(k),
        },
{
    let ghost t = cs@.subrange(a as int, b as int);
    if a == b {
        return Err(IntErrorKind::Empty);
    }
    if b - a == 1 && (cs[a] == '+' || cs[a] == '-') {
        return Err(IntErrorKind::InvalidDigit);
    }
    let mut neg = false;
    let mut start = a;
    if cs[a] == '+' {
        start = a + 1;
    } else if cs[a] == '-' && signed {
        neg = true;
        start = a + 1;
    }
    let ghost d = cs@.subrange(start as int, b as int);
    proof {
        if start == a + 1 {
            assert(d =~= t.drop_first());
        } else {
            assert(d =~= t);
        }
        assert(parse_integer(t, signed, lo as int, hi as int) == scan_digits(d, neg, lo as int, hi as int));
    }
    let mut v: i128 = 0;
    let mut j: usize = start;
    proof {
        assert(d.take(0) =~= Seq::<char>::empty());
    }
    while j < b
        invariant
            start <= j <= b <= cs@.len(),
            d == cs@.subrange(start as int, b as int),
            parse_integer(cs@.subrange(a as int, b as int), signed, lo as int, hi as int)
                == scan_digits(d, neg, lo as int, hi as int),
            -0x1_0000_0000_0000_0000 <= lo <= 0 <= hi <= 0x1_0000_0000_0000_0000,
            scan_digits(d.take(j - start), neg, lo as int, hi as int) == Ok::<int, IntErrorKind>(v as int),
        decreases b - j,
    {
        let ghost pre = d.take(j - start);
        let ghost next = d.take(j - start + 1);
        proof {
            assert(next.drop_last() =~= pre);
            assert(next.last() == cs@[j as int]);
            lemma_scan_digits_range(pre, neg, lo as int, hi as int);
        }
        let c = cs[j];
        if !(c >= '0' && c <= '9') {
            proof {
                lemma_scan_digits_prefix_err(d, j - start + 1, neg, lo as int, hi as int);
            }
            return Err(IntErrorKind::InvalidDigit);
        }
        let dv = (c as u32 - '0' as u32) as i128;
        let w = if neg {
            v * 10 - dv
        } else {
            v * 10 + dv
        };
        if w < lo || w > hi {
            proof {
                lemma_scan_digits_prefix_err(d, j - start + 1, neg, lo as int, hi as int);
            }
            if neg {
                return Err(IntErrorKind::NegOverflow);
            } else {
                return Err(IntErrorKind::PosOverflow);
            }
        }
        v = w;
        j = j + 1;
    }
    proof {
        assert(d.take(j - start) =~= d);
    }
    Ok(v)
}

/// An error met on a prefix of the digits is the error of the whole.
proof fn lemma_scan_digits_prefix_err(d: Seq<char>, k: int, neg: bool, lo: int, hi: int)
    requires
        0 <= k <= d.len(),
        scan_digits(d.take(k), neg, lo, hi) is Err,
    ensures
        scan_digits(d, neg, lo, hi) == scan_digits(d.take(k), neg, lo, hi),
    decreases d.len() - k,
{
    if k < d.len() {
        assert(d.take(k + 1).drop_last() =~= d.take(k));
        lemma_scan_digits_prefix_err(d, k + 1, neg, lo, hi);
    } else {
        assert(d.take(k) =~= d);
    }
}

// ---------------------------------------------------------------------------------------------
// The layout of a cube file.

/// A check on floating-point numbers, in the order in which a reader of the file meets it.
#[derive(Clone, Copy, PartialEq, Eq, Debug, Structural)]
pub enum FloatCheck {
    /// The token at character positions `[start, end)` of the text must read as a
    /// floating-point number.
    Number(usize, usize),
    /// The step vector of the axis (the three numbers read just before), given in angstroms
    /// when the flag holds and in bohr otherwise, must point along that axis.
    AlongAxis(usize, bool),
}

/// One axis of the grid: its number of points, the unit of its step vector, and the tokens of
/// that step vector.
#[derive(Clone, Copy, Debug)]
pub struct AxisLayout {
    /// The number of points along the axis.
    pub count: usize,
    /// Whether lengths along this axis are given in angstroms (otherwise in bohr).
    pub in_angstrom: bool,
    /// The tokens of the step vector.
    pub step: [(usize, usize); 3],
}

/// One atom: its atomic number, and the tokens of its charge and of its position.
#[derive(Clone, Copy, Debug)]
pub struct AtomLayout {
    /// The atomic number.
    pub atomic_number: u32,
    /// The token of the charge.
    pub charge: (usize, usize),
    /// The tokens of the position.
    pub position: [(usize, usize); 3],
}

/// A cube file as read here: its two comment lines, trimmed, what it says in integers, and
/// the character positions `[start, end)` of the tokens of its floating-point numbers.
pub struct CubeLayout {
    /// The first comment line.
    pub comment_1: String,
    /// The second comment line.
    pub comment_2: String,
    /// The tokens of the position of the first point of the grid.
    pub initial_point: [(usize, usize); 3],
    /// The three axes of the grid.
    pub axes: [AxisLayout; 3],
    /// The atoms.
    pub atoms: Vec<AtomLayout>,
    /// The number of the molecular orbital.
    pub mo_number: u32,
    /// The tokens of the values at the points of the grid.
    pub values: Vec<(usize, usize)>,
}

/// The mathematical content of a [`CubeLayout`].
pub struct CubeSpec {
    pub comment_1: Seq<char>,
    pub comment_2: Seq<char>,
    pub initial_point: [(usize, usize); 3],
    pub axes: [AxisLayout; 3],
    pub atoms: Seq<AtomLayout>,
    pub mo_number: u32,
    pub values: Seq<(usize, usize)>,
}

impl View for CubeLayout {
    type V = CubeSpec;

    open spec fn view(&self) -> CubeSpec {
        CubeSpec {
            comment_1: self.comment_1@,
            comment_2: self.comment_2@,
            initial_point: self.initial_point,
            axes: self.axes,
            atoms: self.atoms@,
            mo_number: self.mo_number,
            values: self.values@,
        }
    }
}

/// The result of reading a cube file: the checks on its floating-point numbers met before the
/// outcome, in order, then the outcome. The file is valid when every check passes and the
/// outcome is `Ok`; otherwise its error is that of the first check that fails, or else the
/// outcome's.
pub struct CubeParse {
    /// The checks on floating-point numbers, in order.
    pub checks: Vec<FloatCheck>,
    /// What the file holds, or the first error that needs no floating-point number to find.
    pub outcome: Result<CubeLayout, ParseCubeError>,
}

/// A cube file whose number of points overflows a `usize`: the checks on its floating-point
/// numbers met before the count is made, in order.
pub struct CubeOverflow {
    /// The checks on floating-point numbers, in order.
    pub checks: Vec<FloatCheck>,
}

/// The character positions `[a, e)`, as machine integers.
pub open spec fn span(a: int, e: int) -> (usize, usize) {
    (a as usize, e as usize)
}

/// The character positions of a sequence of tokens, as machine integers.
pub open spec fn spans_of(t: Seq<(int, int)>) -> Seq<(usize, usize)> {
    t.map_values(|x: (int, int)| span(x.0, x.1))
}

/// The checks that each token reads as a floating-point number.
pub open spec fn number_checks(t: Seq<(usize, usize)>) -> Seq<FloatCheck> {
    t.map_values(|x: (usize, usize)| FloatCheck::Number(x.0, x.1))
}

/// Reading the next token of the line `[q, b)` as an integer in `[lo, hi]`: the value and the
/// position after the token.
pub open spec fn next_integer(s: Seq<char>, q: int, b: int, signed: bool, lo: int, hi: int) -> Result<
    (int, int),
    ParseCubeError,
> {
    match token_at(s, q, b) {
        None => Err(ParseCubeError::UnexpectedEol),
        Some((a, e)) => match parse_integer(s.subrange(a, e), signed, lo, hi) {
            Ok(v) => Ok((v, e)),
            Err(k) => Err(ParseCubeError::InvalidInt(k)),
        },
    }
}

/// Reading three floating-point numbers from the line `[q, b)`: the checks met, then their
/// tokens and the position after the last one. A missing token ends the file's reading as an
/// unexpected end of file.
pub open spec fn read_vector3(s: Seq<char>, q: int, b: int) -> (Seq<FloatCheck>, Result<
    ([(usize, usize); 3], int),
    ParseCubeError,
>) {
    match token_at(s, q, b) {
        None => (Seq::empty(), Err(ParseCubeError::UnexpectedEof)),
        Some((a0, e0)) => {
            let c0 = FloatCheck::Number(a0 as usize, e0 as usize);
            match token_at(s, e0, b) {
                None => (seq![c0], Err(ParseCubeError::UnexpectedEof)),
                Some((a1, e1)) => {
                    let c1 = FloatCheck::Number(a1 as usize, e1 as usize);
                    match token_at(s, e1, b) {
                        None => (seq![c0, c1], Err(ParseCubeError::UnexpectedEof)),
                        Some((a2, e2)) => (
                            seq![c0, c1, FloatCheck::Number(a2 as usize, e2 as usize)],
                            Ok(([span(a0, e0), span(a1, e1), span(a2, e2)], e2)),
                        ),
                    }
                },
            }
        },
    }
}

/// Reading the two comment lines: both trimmed, and where the next line starts.
pub open spec fn read_comments(s: Seq<char>) -> Result<(Seq<char>, Seq<char>, int), ParseCubeError> {
    match line_at(s, 0) {
        None => Err(ParseCubeError::UnexpectedEof),
        Some((a1, b1, n1)) => match line_at(s, n1) {
            None => Err(ParseCubeError::UnexpectedEof),
            Some((a2, b2, n2)) => Ok((trimmed(s, a1, b1), trimmed(s, a2, b2), n2)),
        },
    }
}

/// Reading the line at `p` that gives the number of atoms (negative for a molecular orbital),
/// the first point of the grid and the number of values per point (which must be 1): the
/// checks met, then the number of atoms, the tokens of the first point and where the next line
/// starts.
pub open spec fn read_header_line(s: Seq<char>, p: int) -> (Seq<FloatCheck>, Result<
    (u32, [(usize, usize); 3], int),
    ParseCubeError,
>) {
    match line_at(s, p) {
        None => (Seq::empty(), Err(ParseCubeError::UnexpectedEof)),
        Some((a, b, n)) => match next_integer(s, a, b, true, i32::MIN as int, i32::MAX as int) {
            Err(x) => (Seq::empty(), Err(x)),
            Ok((count, q)) => if count >= 0 {
                (Seq::empty(), Err(ParseCubeError::NotMo))
            } else {
                let (c, v) = read_vector3(s, q, b);
                match v {
                    Err(x) => (c, Err(x)),
                    Ok((origin, q2)) => match next_integer(s, q2, b, false, 0, u32::MAX as int) {
                        Err(x) => (c, Err(x)),
                        Ok((per_point, _)) => if per_point != 1 {
                            (c, Err(ParseCubeError::TooManyValuesPerPoint(per_point as u32)))
                        } else {
                            (c, Ok(((-count) as u32, origin, n)))
                        },
                    },
                }
            },
        },
    }
}

/// Reading the line at `p` that describes axis `axis` of the grid: its number of points
/// (negative when lengths are in bohr, else in angstroms) and its step vector.
pub open spec fn read_axis_line(s: Seq<char>, p: int, axis: int) -> (Seq<FloatCheck>, Result<
    (AxisLayout, int),
    ParseCubeError,
>) {
    match line_at(s, p) {
        None => (Seq::empty(), Err(ParseCubeError::UnexpectedEof)),
        Some((a, b, n)) => match next_integer(
            s,
            a,
            b,
            true,
            isize::MIN as int,
            isize::MAX as int,
        ) {
            Err(x) => (Seq::empty(), Err(x)),
            Ok((count, q)) => {
                let (c, v) = read_vector3(s, q, b);
                match v {
                    Err(x) => (c, Err(x)),
                    Ok((step, _)) => (
                        c.push(FloatCheck::AlongAxis(axis as usize, count >= 0)),
                        Ok(
                            (
                                AxisLayout {
                                    count: (if count < 0 {
                                        -count
                                    } else {
                                        count
                                    }) as usize,
                                    in_angstrom: count >= 0,
                                    step,
                                },
                                n,
                            ),
                        ),
                    ),
                }
            },
        },
    }
}

/// Reading the first `k` axis lines from the one at `p`.
pub open spec fn read_axes(s: Seq<char>, p: int, k: nat) -> (Seq<FloatCheck>, Result<
    (Seq<AxisLayout>, int),
    ParseCubeError,
>)
    decreases k,
{
    if k == 0 {
        (Seq::empty(), Ok((Seq::empty(), p)))
    } else {
        let (c1, r1) = read_axes(s, p, (k - 1) as nat);
        match r1 {
            Err(x) => (c1, Err(x)),
            Ok((axes, q)) => {
                let (c2, r2) = read_axis_line(s, q, k - 1);
                match r2 {
                    Err(x) => (c1 + c2, Err(x)),
                    Ok((axis, q2)) => (c1 + c2, Ok((axes.push(axis), q2))),
                }
            },
        }
    }
}

/// Reading the line at `p` that describes an atom: atomic number, charge and position.
pub open spec fn read_atom_line(s: Seq<char>, p: int) -> (Seq<FloatCheck>, Result<
    (AtomLayout, int),
    ParseCubeError,
>) {
    match line_at(s, p) {
        None => (Seq::empty(), Err(ParseCubeError::UnexpectedEof)),
        Some((a, b, n)) => match next_integer(s, a, b, false, 0, u32::MAX as int) {
            Err(x) => (Seq::empty(), Err(x)),
            Ok((number, q)) => match token_at(s, q, b) {
                None => (Seq::empty(), Err(ParseCubeError::UnexpectedEol)),
                Some((ca, ce)) => {
                    let (c, v) = read_vector3(s, ce, b);
                    let checks = seq![FloatCheck::Number(ca as usize, ce as usize)] + c;
                    match v {
                        Err(x) => (checks, Err(x)),
                        Ok((position, _)) => (
                            checks,
                            Ok(
                                (
                                    AtomLayout {
                                        atomic_number: number as u32,
                                        charge: span(ca, ce),
                                        position,
                                    },
                                    n,
                                ),
                            ),
                        ),
                    }
                },
            },
        },
    }
}

/// Reading the first `k` atom lines from the one at `p`.
pub open spec fn read_atoms(s: Seq<char>, p: int, k: nat) -> (Seq<FloatCheck>, Result<
    (Seq<AtomLayout>, int),
    ParseCubeError,
>)
    decreases k,
{
    if k == 0 {
        (Seq::empty(), Ok((Seq::empty(), p)))
    } else {
        let (c1, r1) = read_atoms(s, p, (k - 1) as nat);
        match r1 {
            Err(x) => (c1, Err(x)),
            Ok((atoms, q)) => {
                let (c2, r2) = read_atom_line(s, q);
                match r2 {
                    Err(x) => (c1 + c2, Err(x)),
                    Ok((atom, q2)) => (c1 + c2, Ok((atoms.push(atom), q2))),
                }
            },
        }
    }
}

/// Reading the line at `p` that gives the number of molecular orbitals (at most 1) and the
/// number of the orbital.
pub open spec fn read_mo_line(s: Seq<char>, p: int) -> Result<(u32, int), ParseCubeError> {
    match line_at(s, p) {
        None => Err(ParseCubeError::UnexpectedEof),
        Some((a, b, n)) => match next_integer(s, a, b, false, 0, u32::MAX as int) {
            Err(x) => Err(x),
            Ok((count, q)) => if count > 1 {
                Err(ParseCubeError::TooManyMos(count as u32))
            } else {
                match next_integer(s, q, b, false, 0, u32::MAX as int) {
                    Err(x) => Err(x),
                    Ok((number, _)) => Ok((number as u32, n)),
                }
            },
        },
    }
}

/// What a cube file holds before its values, and where its values start.
#[verifier::ext_equal]
pub struct CubeHead {
    pub comment_1: Seq<char>,
    pub comment_2: Seq<char>,
    pub initial_point: [(usize, usize); 3],
    pub axes: Seq<AxisLayout>,
    pub atoms: Seq<AtomLayout>,
    pub mo_number: u32,
    pub values_start: int,
}

/// Reading a cube file up to its values: the checks met, then what it holds.
pub open spec fn read_cube_head(s: Seq<char>) -> (Seq<FloatCheck>, Result<CubeHead, ParseCubeError>) {
    match read_comments(s) {
        Err(x) => (Seq::empty(), Err(x)),
        Ok((comment_1, comment_2, p2)) => {
            let (ch, h) = read_header_line(s, p2);
            match h {
                Err(x) => (ch, Err(x)),
                Ok((atom_count, initial_point, p3)) => {
                    let (cx, rx) = read_axes(s, p3, 3);
                    match rx {
                        Err(x) => (ch + cx, Err(x)),
                        Ok((axes, p4)) => {
                            let (ca, ra) = read_atoms(s, p4, atom_count as nat);
                            match ra {
                                Err(x) => (ch + cx + ca, Err(x)),
                                Ok((atoms, p5)) => match read_mo_line(s, p5) {
                                    Err(x) => (ch + cx + ca, Err(x)),
                                    Ok((mo_number, p6)) => (
                                        ch + cx + ca,
                                        Ok(
                                            CubeHead {
                                                comment_1,
                                                comment_2,
                                                initial_point,
                                                axes,
                                                atoms,
                                                mo_number,
                                                values_start: p6,
                                            },
                                        ),
                                    ),
                                },
                            }
                        },
                    }
                },
            }
        },
    }
}

/// The number of points of the grid, multiplied out axis by axis, leaves the range of `usize`
/// on the way (when the file is read that far).
pub open spec fn cube_point_total_overflows(s: Seq<char>) -> bool {
    match read_cube_head(s).1 {
        Ok(h) => h.axes[0].count * h.axes[1].count > usize::MAX || h.axes[0].count
            * h.axes[1].count * h.axes[2].count > usize::MAX,
        Err(_) => false,
    }
}

/// Reading a cube file: the checks on its floating-point numbers met before the outcome, in
/// order, then the outcome. After the line of the molecular orbital, every token of every
/// line is a value, and there must be one per point of the grid.
pub open spec fn read_cube(s: Seq<char>) -> (Seq<FloatCheck>, Result<CubeSpec, ParseCubeError>) {
    let (c, rh) = read_cube_head(s);
    match rh {
        Err(x) => (c, Err(x)),
        Ok(h) => {
            let values = spans_of(tokens_of_lines_from(s, h.values_start));
            let checks = c + number_checks(values);
            let expected = h.axes[0].count * h.axes[1].count * h.axes[2].count;
            if expected != values.len() {
                (
                    checks,
                    Err(ParseCubeError::IncorrectValueCount(expected as usize, values.len() as usize)),
                )
            } else {
                (
                    checks,
                    Ok(
                        CubeSpec {
                            comment_1: h.comment_1,
                            comment_2: h.comment_2,
                            initial_point: h.initial_point,
                            axes: [h.axes[0], h.axes[1], h.axes[2]],
                            atoms: h.atoms,
                            mo_number: h.mo_number,
                            values,
                        },
                    ),
                )
            }
        },
    }
}

impl CubeParse {
    /// The outcome, with the layout taken by its view.
    pub open spec fn outcome_view(&self) -> Result<CubeSpec, ParseCubeError> {
        match self.outcome {
            Ok(l) => Ok(l@),
            Err(e) => Err(e),
        }
    }
}

proof fn lemma_spans_of_add(x: Seq<(int, int)>, y: Seq<(int, int)>)
    ensures
        spans_of(x + y) == spans_of(x) + spans_of(y),
{
    assert(spans_of(x + y) =~= spans_of(x) + spans_of(y));
}

/// Read the next token of the line `[q, b)` as an integer (see [`next_integer`]).
fn read_integer(cs: &Vec<char>, q: usize, b: usize, signed: bool, lo: i128, hi: i128) -> (r: Result<
    (i128, usize),
    ParseCubeError,
>)
    requires
        q <= b <= cs@.len(),
        -0x1_0000_0000_0000_0000 <= lo <= 0 <= hi <= 0x1_0000_0000_0000_0000,
    ensures
        match next_integer(cs@, q as int, b as int, signed, lo as int, hi as int) {
            Ok((v, e)) => r matches Ok((x, y)) && x == v && y == e,
            Err(x) => r == Err::<(i128, usize), ParseCubeError>(x),
        },
        r matches Ok((v, e)) ==> q <= e <= b && lo <= v <= hi,
{
    match find_token(cs, q, b) {
        None => Err(ParseCubeError::UnexpectedEol),
        Some((a, e)) => match parse_integer_at(cs, a, e, signed, lo, hi) {
            Ok(v) => {
                proof {
                    lemma_parse_integer_range(cs@.subrange(a as int, e as int), signed, lo as int, hi as int);
                }
                Ok((v, e))
            },
            Err(k) => Err(ParseCubeError::InvalidInt(k)),
        },
    }
}

/// Read three floating-point tokens from the line `[q, b)` (see [`read_vector3`]).
fn read_vector3_at(cs: &Vec<char>, q: usize, b: usize, checks: &mut Vec<FloatCheck>) -> (r: Result<
    ([(usize, usize); 3], usize),
    ParseCubeError,
>)
    requires
        q <= b <= cs@.len(),
    ensures
        final(checks)@ == old(checks)@ + read_vector3(cs@, q as int, b as int).0,
        match read_vector3(cs@, q as int, b as int).1 {
            Ok((v, e)) => r matches Ok((x, y)) && x == v && y == e,
            Err(x) => r == Err::<([(usize, usize); 3], usize), ParseCubeError>(x),
        },
        r matches Ok((v, e)) ==> q <= e <= b,
{
    let ghost base = checks@;
    let (a0, e0) = match find_token(cs, q, b) {
        None => return Err(ParseCubeError::UnexpectedEof),
        Some(t) => t,
    };
    checks.push(FloatCheck::Number(a0, e0));
    let (a1, e1) = match find_token(cs, e0, b) {
        None => {
            proof {
                assert(checks@ =~= base + read_vector3(cs@, q as int, b as int).0);
            }
            return Err(ParseCubeError::UnexpectedEof);
        },
        Some(t) => t,
    };
    checks.push(FloatCheck::Number(a1, e1));
    let (a2, e2) = match find_token(cs, e1, b) {
        None => {
            proof {
                assert(checks@ =~= base + read_vector3(cs@, q as int, b as int).0);
            }
            return Err(ParseCubeError::UnexpectedEof);
        },
        Some(t) => t,
    };
    checks.push(FloatCheck::Number(a2, e2));
    proof {
        assert(checks@ =~= base + read_vector3(cs@, q as int, b as int).0);
    }
    Ok(([(a0, e0), (a1, e1), (a2, e2)], e2))
}

/// Read the two comment lines (see [`read_comments`]).
fn read_comments_at(text: &str, cs: &Vec<char>) -> (r: Result<(String, String, usize), ParseCubeError>)
    requires
        cs@ == text@,
    ensures
        match read_comments(cs@) {
            Ok((c1, c2, n)) => r matches Ok((x1, x2, m)) && x1@ == c1 && x2@ == c2 && m == n,
            Err(x) => r matches Err(y) && x == y,
        },
        r matches Ok((x1, x2, m)) ==> m <= cs@.len(),
{
    proof {
        lemma_line_at_bounds(cs@, 0);
    }
    let (a1, b1, n1) = match find_line(cs, 0) {
        None => return Err(ParseCubeError::UnexpectedEof),
        Some(l) => l,
    };
    proof {
        lemma_line_at_bounds(cs@, n1 as int);
    }
    let (a2, b2, n2) = match find_line(cs, n1) {
        None => return Err(ParseCubeError::UnexpectedEof),
        Some(l) => l,
    };
    let (x1, y1) = trim_span(cs, a1, b1);
    let (x2, y2) = trim_span(cs, a2, b2);
    let comment_1 = text.substring_char(x1, y1).to_owned();
    let comment_2 = text.substring_char(x2, y2).to_owned();
    Ok((comment_1, comment_2, n2))
}

/// Read the line that gives the number of atoms (see [`read_header_line`]).
fn read_header_at(cs: &Vec<char>, p: usize, checks: &mut Vec<FloatCheck>) -> (r: Result<
    (u32, [(usize, usize); 3], usize),
    ParseCubeError,
>)
    requires
        p <= cs@.len(),
    ensures
        final(checks)@ == old(checks)@ + read_header_line(cs@, p as int).0,
        match read_header_line(cs@, p as int).1 {
            Ok((count, origin, n)) => r matches Ok((c, o, m)) && c == count && o == origin && m == n,
            Err(x) => r == Err::<(u32, [(usize, usize); 3], usize), ParseCubeError>(x),
        },
        r matches Ok((c, o, n)) ==> n <= cs@.len(),
{
    proof {
        lemma_line_at_bounds(cs@, p as int);
    }
    let (a, b, n) = match find_line(cs, p) {
        None => return Err(ParseCubeError::UnexpectedEof),
        Some(l) => l,
    };
    let (count, q) = match read_integer(cs, a, b, true, i32::MIN as i128, i32::MAX as i128) {
        Err(x) => return Err(x),
        Ok(v) => v,
    };
    if count >= 0 {
        return Err(ParseCubeError::NotMo);
    }
    let (origin, q2) = match read_vector3_at(cs, q, b, checks) {
        Err(x) => return Err(x),
        Ok(v) => v,
    };
    let (per_point, _) = match read_integer(cs, q2, b, false, 0, u32::MAX as i128) {
        Err(x) => return Err(x),
        Ok(v) => v,
    };
    if per_point != 1 {
        return Err(ParseCubeError::TooManyValuesPerPoint(per_point as u32));
    }
    Ok(((-count) as u32, origin, n))
}

/// Read the line that describes axis `axis` of the grid (see [`read_axis_line`]).
fn read_axis_at(cs: &Vec<char>, p: usize, axis: usize, checks: &mut Vec<FloatCheck>) -> (r: Result<
    (AxisLayout, usize),
    ParseCubeError,
>)
    requires
        p <= cs@.len(),
    ensures
        final(checks)@ == old(checks)@ + read_axis_line(cs@, p as int, axis as int).0,
        match read_axis_line(cs@, p as int, axis as int).1 {
            Ok((l, n)) => r matches Ok((x, m)) && x == l && m == n,
            Err(x) => r == Err::<(AxisLayout, usize), ParseCubeError>(x),
        },
        r matches Ok((l, n)) ==> n <= cs@.len(),
{
    proof {
        lemma_line_at_bounds(cs@, p as int);
    }
    let (a, b, n) = match find_line(cs, p) {
        None => return Err(ParseCubeError::UnexpectedEof),
        Some(l) => l,
    };
    let (count, q) = match read_integer(cs, a, b, true, isize::MIN as i128, isize::MAX as i128) {
        Err(x) => return Err(x),
        Ok(v) => v,
    };
    let (step, _) = match read_vector3_at(cs, q, b, checks) {
        Err(x) => return Err(x),
        Ok(v) => v,
    };
    checks.push(FloatCheck::AlongAxis(axis, count >= 0));
    let magnitude: usize = if count < 0 {
        (-count) as usize
    } else {
        count as usize
    };
    Ok((AxisLayout { count: magnitude, in_angstrom: count >= 0, step }, n))
}

/// Read the line that describes an atom (see [`read_atom_line`]).
fn read_atom_at(cs: &Vec<char>, p: usize, checks: &mut Vec<FloatCheck>) -> (r: Result<
    (AtomLayout, usize),
    ParseCubeError,
>)
    requires
        p <= cs@.len(),
    ensures
        final(checks)@ == old(checks)@ + read_atom_line(cs@, p as int).0,
        match read_atom_line(cs@, p as int).1 {
            Ok((l, n)) => r matches Ok((x, m)) && x == l && m == n,
            Err(x) => r == Err::<(AtomLayout, usize), ParseCubeError>(x),
        },
        r matches Ok((l, n)) ==> n <= cs@.len(),
{
    let ghost base = checks@;
    proof {
        lemma_line_at_bounds(cs@, p as int);
    }
    let (a, b, n) = match find_line(cs, p) {
        None => return Err(ParseCubeError::UnexpectedEof),
        Some(l) => l,
    };
    let (number, q) = match read_integer(cs, a, b, false, 0, u32::MAX as i128) {
        Err(x) => return Err(x),
        Ok(v) => v,
    };
    let (ca, ce) = match find_token(cs, q, b) {
        None => return Err(ParseCubeError::UnexpectedEol),
        Some(t) => t,
    };
    checks.push(FloatCheck::Number(ca, ce));
    let r = read_vector3_at(cs, ce, b, checks);
    proof {
        assert(checks@ =~= base + read_atom_line(cs@, p as int).0);
    }
    match r {
        Err(x) => Err(x),
        Ok((position, _)) => Ok(
            (AtomLayout { atomic_number: number as u32, charge: (ca, ce), position }, n),
        ),
    }
}

/// Read the line of the molecular orbital (see [`read_mo_line`]).
fn read_mo_at(cs: &Vec<char>, p: usize) -> (r: Result<(u32, usize), ParseCubeError>)
    requires
        p <= cs@.len(),
    ensures
        match read_mo_line(cs@, p as int) {
            Ok((m, n)) => r matches Ok((x, y)) && x == m && y == n,
            Err(x) => r == Err::<(u32, usize), ParseCubeError>(x),
        },
        r matches Ok((m, n)) ==> n <= cs@.len(),
{
    proof {
        lemma_line_at_bounds(cs@, p as int);
    }
    let (a, b, n) = match find_line(cs, p) {
        None => return Err(ParseCubeError::UnexpectedEof),
        Some(l) => l,
    };
    let (count, q) = match read_integer(cs, a, b, false, 0, u32::MAX as i128) {
        Err(x) => return Err(x),
        Ok(v) => v,
    };
    if count > 1 {
        return Err(ParseCubeError::TooManyMos(count as u32));
    }
    let (number, _) = match read_integer(cs, q, b, false, 0, u32::MAX as i128) {
        Err(x) => return Err(x),
        Ok(v) => v,
    };
    Ok((number as u32, n))
}

/// Once reading the axes fails, reading more of them fails alike.
proof fn lemma_read_axes_err_stable(s: Seq<char>, p: int, k: nat, j: nat)
    requires
        k <= j,
        read_axes(s, p, k).1 is Err,
    ensures
        read_axes(s, p, j) == read_axes(s, p, k),
    decreases j - k,
{
    if k < j {
        lemma_read_axes_err_stable(s, p, k, (j - 1) as nat);
    }
}

/// Once reading the atoms fails, reading more of them fails alike.
proof fn lemma_read_atoms_err_stable(s: Seq<char>, p: int, k: nat, j: nat)
    requires
        k <= j,
        read_atoms(s, p, k).1 is Err,
    ensures
        read_atoms(s, p, j) == read_atoms(s, p, k),
    decreases j - k,
{
    if k < j {
        lemma_read_atoms_err_stable(s, p, k, (j - 1) as nat);
    }
}

/// Read the three axis lines from the one at `p` (see [`read_axes`]).
fn read_axes_at(cs: &Vec<char>, p: usize, checks: &mut Vec<FloatCheck>) -> (r: Result<
    (Vec<AxisLayout>, usize),
    ParseCubeError,
>)
    requires
        p <= cs@.len(),
    ensures
        final(checks)@ == old(checks)@ + read_axes(cs@, p as int, 3).0,
        match read_axes(cs@, p as int, 3).1 {
            Ok((axes, n)) => r matches Ok((v, m)) && v@ == axes && m == n,
            Err(x) => r matches Err(y) && y == x,
        },
        r matches Ok((v, m)) ==> m <= cs@.len(),
{
    let ghost base = checks@;
    let mut axes: Vec<AxisLayout> = Vec::new();
    let mut q: usize = p;
    let mut k: usize = 0;
    let mut failed: Option<ParseCubeError> = None;
    while k < 3
        invariant
            k <= 3,
            q <= cs@.len(),
            failed is Some ==> k == 3,
            failed is None ==> read_axes(cs@, p as int, k as nat).1 == Ok::<
                (Seq<AxisLayout>, int),
                ParseCubeError,
            >((axes@, q as int)),
            failed is None ==> checks@ == base + read_axes(cs@, p as int, k as nat).0,
            failed matches Some(x) ==> read_axes(cs@, p as int, 3).1 == Err::<
                (Seq<AxisLayout>, int),
                ParseCubeError,
            >(x),
            failed is Some ==> checks@ == base + read_axes(cs@, p as int, 3).0,
        decreases 3 - k,
    {
        let res = read_axis_at(cs, q, k, checks);
        proof {
            assert(checks@ =~= base + read_axes(cs@, p as int, (k + 1) as nat).0);
        }
        match res {
            Err(x) => {
                proof {
                    assert(read_axes(cs@, p as int, (k + 1) as nat).1 is Err);
                    lemma_read_axes_err_stable(cs@, p as int, (k + 1) as nat, 3);
                }
                failed = Some(x);
                k = 3;
            },
            Ok((axis, n)) => {
                axes.push(axis);
                q = n;
                k = k + 1;
            },
        }
    }
    match failed {
        Some(x) => Err(x),
        None => Ok((axes, q)),
    }
}

/// Read `count` atom lines from the one at `p` (see [`read_atoms`]).
fn read_atoms_at(cs: &Vec<char>, p: usize, count: u32, checks: &mut Vec<FloatCheck>) -> (r: Result<
    (Vec<AtomLayout>, usize),
    ParseCubeError,
>)
    requires
        p <= cs@.len(),
    ensures
        final(checks)@ == old(checks)@ + read_atoms(cs@, p as int, count as nat).0,
        match read_atoms(cs@, p as int, count as nat).1 {
            Ok((atoms, n)) => r matches Ok((v, m)) && v@ == atoms && m == n,
            Err(x) => r matches Err(y) && y == x,
        },
        r matches Ok((v, m)) ==> m <= cs@.len(),
{
    let ghost base = checks@;
    let mut atoms: Vec<AtomLayout> = Vec::new();
    let mut q: usize = p;
    let mut k: u32 = 0;
    let mut failed: Option<ParseCubeError> = None;
    while k < count
        invariant
            k <= count,
            q <= cs@.len(),
            failed is Some ==> k == count,
            failed is None ==> read_atoms(cs@, p as int, k as nat).1 == Ok::<
                (Seq<AtomLayout>, int),
                ParseCubeError,
            >((atoms@, q as int)),
            failed is None ==> checks@ == base + read_atoms(cs@, p as int, k as nat).0,
            failed matches Some(x) ==> read_atoms(cs@, p as int, count as nat).1 == Err::<
                (Seq<AtomLayout>, int),
                ParseCubeError,
            >(x),
            failed is Some ==> checks@ == base + read_atoms(cs@, p as int, count as nat).0,
        decreases count - k,
    {
        let res = read_atom_at(cs, q, checks);
        proof {
            assert(checks@ =~= base + read_atoms(cs@, p as int, (k + 1) as nat).0);
        }
        match res {
            Err(x) => {
                proof {
                    assert(read_atoms(cs@, p as int, (k + 1) as nat).1 is Err);
                    lemma_read_atoms_err_stable(cs@, p as int, (k + 1) as nat, count as nat);
                }
                failed = Some(x);
                k = count;
            },
            Ok((atom, n)) => {
                atoms.push(atom);
                q = n;
                k = k + 1;
            },
        }
    }
    match failed {
        Some(x) => Err(x),
        None => Ok((atoms, q)),
    }
}

/// Read every token of every line from the one at `p` as a value (see
/// [`tokens_of_lines_from`]).
fn read_values_at(cs: &Vec<char>, p: usize, checks: &mut Vec<FloatCheck>) -> (r: Vec<(usize, usize)>)
    requires
        p <= cs@.len(),
    ensures
        r@ == spans_of(tokens_of_lines_from(cs@, p as int)),
        final(checks)@ == old(checks)@ + number_checks(r@),
{
    let ghost base = checks@;
    let ghost all = spans_of(tokens_of_lines_from(cs@, p as int));
    let mut values: Vec<(usize, usize)> = Vec::new();
    let mut line_start: usize = p;
    proof {
        assert(all =~= values@ + spans_of(tokens_of_lines_from(cs@, line_start as int)));
        assert(checks@ =~= base + number_checks(values@));
    }
    loop
        invariant
            line_start <= cs@.len(),
            all == spans_of(tokens_of_lines_from(cs@, p as int)),
            all == values@ + spans_of(tokens_of_lines_from(cs@, line_start as int)),
            checks@ == base + number_checks(values@),
        ensures
            all == values@,
            checks@ == base + number_checks(values@),
        decreases cs@.len() - line_start,
    {
        let (a, b, n) = match find_line(cs, line_start) {
            None => {
                proof {
                    assert(tokens_of_lines_from(cs@, line_start as int) =~= Seq::<(int, int)>::empty());
                    assert(all =~= values@);
                }
                break;
            },
            Some(l) => l,
        };
        proof {
            lemma_spans_of_add(
                tokens_in(cs@, a as int, b as int),
                tokens_of_lines_from(cs@, n as int),
            );
            assert(all =~= values@ + spans_of(tokens_in(cs@, a as int, b as int)) + spans_of(
                tokens_of_lines_from(cs@, n as int),
            ));
        }
        let mut q: usize = a;
        loop
            invariant
                a <= q <= b <= cs@.len(),
                line_start < n <= cs@.len(),
                all == values@ + spans_of(tokens_in(cs@, q as int, b as int)) + spans_of(
                    tokens_of_lines_from(cs@, n as int),
                ),
                checks@ == base + number_checks(values@),
            ensures
                all == values@ + spans_of(tokens_of_lines_from(cs@, n as int)),
                checks@ == base + number_checks(values@),
            decreases b - q,
        {
            match find_token(cs, q, b) {
                None => {
                    proof {
                        assert(tokens_in(cs@, q as int, b as int) =~= Seq::<(int, int)>::empty());
                        assert(spans_of(tokens_in(cs@, q as int, b as int)) =~= Seq::<(usize, usize)>::empty());
                        assert(all =~= values@ + spans_of(tokens_of_lines_from(cs@, n as int)));
                    }
                    break;
                },
                Some((x, e)) => {
                    let ghost rest = tokens_in(cs@, e as int, b as int);
                    proof {
                        assert(tokens_in(cs@, q as int, b as int) == seq![(x as int, e as int)] + rest);
                        lemma_spans_of_add(seq![(x as int, e as int)], rest);
                        assert(spans_of(seq![(x as int, e as int)]) =~= seq![(x, e)]);
                    }
                    values.push((x, e));
                    checks.push(FloatCheck::Number(x, e));
                    proof {
                        assert(checks@ =~= base + number_checks(values@));
                        assert(all =~= values@ + spans_of(rest) + spans_of(
                            tokens_of_lines_from(cs@, n as int),
                        ));
                    }
                    q = e;
                },
            }
        }
        line_start = n;
    }
    values
}

/// Reading `k` axis lines gives `k` axes.
proof fn lemma_read_axes_len(s: Seq<char>, p: int, k: nat)
    ensures
        read_axes(s, p, k).1 matches Ok((axes, _)) ==> axes.len() == k,
    decreases k,
{
    if k > 0 {
        lemma_read_axes_len(s, p, (k - 1) as nat);
    }
}

/// Read a cube file up to its values (see [`read_cube_head`]).
fn read_cube_head_at(text: &str, cs: &Vec<char>, checks: &mut Vec<FloatCheck>) -> (r: Result<
    (String, String, [(usize, usize); 3], Vec<AxisLayout>, Vec<AtomLayout>, u32, usize),
    ParseCubeError,
>)
    requires
        cs@ == text@,
    ensures
        final(checks)@ == old(checks)@ + read_cube_head(cs@).0,
        match read_cube_head(cs@).1 {
            Ok(h) => r matches Ok((c1, c2, o, ax, at, mo, n)) && c1@ == h.comment_1 && c2@
                == h.comment_2 && o == h.initial_point && ax@ == h.axes && at@ == h.atoms && mo
                == h.mo_number && n == h.values_start,
            Err(x) => r matches Err(y) && y == x,
        },
        r matches Ok((c1, c2, o, ax, at, mo, n)) ==> n <= cs@.len() && ax@.len() == 3,
{
    let ghost base = checks@;
    let (comment_1, comment_2, p2) = match read_comments_at(text, cs) {
        Err(x) => {
            proof {
                assert(checks@ =~= base + read_cube_head(cs@).0);
            }
            return Err(x);
        },
        Ok(v) => v,
    };
    let (atom_count, initial_point, p3) = match read_header_at(cs, p2, checks) {
        Err(x) => return Err(x),
        Ok(v) => v,
    };
    let (axes, p4) = match read_axes_at(cs, p3, checks) {
        Err(x) => {
            proof {
                assert(checks@ =~= base + read_cube_head(cs@).0);
            }
            return Err(x);
        },
        Ok(v) => v,
    };
    proof {
        lemma_read_axes_len(cs@, p3 as int, 3);
    }
    let (atoms, p5) = match read_atoms_at(cs, p4, atom_count, checks) {
        Err(x) => {
            proof {
                assert(checks@ =~= base + read_cube_head(cs@).0);
            }
            return Err(x);
        },
        Ok(v) => v,
    };
    let (mo_number, p6) = match read_mo_at(cs, p5) {
        Err(x) => {
            proof {
                assert(checks@ =~= base + read_cube_head(cs@).0);
            }
            return Err(x);
        },
        Ok(v) => v,
    };
    proof {
        assert(checks@ =~= base + read_cube_head(cs@).0);
    }
    Ok((comment_1, comment_2, initial_point, axes, atoms, mo_number, p6))
}

/// Read a cube file; `None` when the number of points of its grid does not fit in a `usize`.
fn read_cube_chars(text: &str, cs: &Vec<char>) -> (r: Result<CubeParse, CubeOverflow>)
    requires
        cs@ == text@,
    ensures
        r is Err <==> cube_point_total_overflows(cs@),
        r matches Err(o) ==> o.checks@ == read_cube_head(cs@).0,
        r matches Ok(c) ==> c.checks@ == read_cube(cs@).0 && c.outcome_view() == read_cube(
            cs@,
        ).1,
{
    let mut checks: Vec<FloatCheck> = Vec::new();
    let head = read_cube_head_at(text, cs, &mut checks);
    proof {
        assert(checks@ =~= read_cube_head(cs@).0);
    }
    match head {
        Err(x) => Ok(CubeParse { checks, outcome: Err(x) }),
        Ok((comment_1, comment_2, initial_point, axes, atoms, mo_number, p6)) => {
            let ghost h = read_cube_head(cs@).1->Ok_0;
            let c0 = axes[0].count;
            let c1 = axes[1].count;
            let c2 = axes[2].count;
            proof {
                assert(h.axes[0].count == c0 && h.axes[1].count == c1 && h.axes[2].count == c2);
            }
            let expected = match c0.checked_mul(c1) {
                None => return Err(CubeOverflow { checks }),
                Some(m) => match m.checked_mul(c2) {
                    None => return Err(CubeOverflow { checks }),
                    Some(t) => t,
                },
            };
            let values = read_values_at(cs, p6, &mut checks);
            if expected != values.len() {
                Ok(
                    CubeParse {
                        checks,
                        outcome: Err(ParseCubeError::IncorrectValueCount(expected, values.len())),
                    },
                )
            } else {
                let layout = CubeLayout {
                    comment_1,
                    comment_2,
                    initial_point,
                    axes: [axes[0], axes[1], axes[2]],
                    atoms,
                    mo_number,
                    values,
                };
                proof {
                    assert(layout@ == read_cube(cs@).1->Ok_0);
                }
                Ok(CubeParse { checks, outcome: Ok(layout) })
            }
        },
    }
}

/// A cube file that reads without error lists one value per point of its grid, and the checks
/// on its floating-point numbers end with one check per value.
pub proof fn lemma_cube_value_count(s: Seq<char>)
    ensures
        read_cube(s).1 matches Ok(c) ==> {
            &&& c.values.len() == c.axes[0].count * c.axes[1].count * c.axes[2].count
            &&& read_cube(s).0.len() >= c.values.len()
            &&& forall|i: int|
                0 <= i < c.values.len() ==> read_cube(s).0[read_cube(s).0.len() - c.values.len()
                    + i] == FloatCheck::Number(c.values[i].0, c.values[i].1)
        },
{
}

/// Read a cube file (see [`read_cube`]). When the number of points of its grid, multiplied out
/// axis by axis, leaves the range of `usize`, the reading stops there, with the checks on the
/// floating-point numbers met before (those of the lines up to that of the molecular orbital).
pub fn try_parse_cube(text: &str) -> (r: Result<CubeParse, CubeOverflow>)
    ensures
        r is Err <==> cube_point_total_overflows(text@),
        r matches Err(o) ==> o.checks@ == read_cube_head(text@).0,
        r matches Ok(c) ==> c.checks@ == read_cube(text@).0 && c.outcome_view() == read_cube(
            text@,
        ).1,
{
    let cs = chars_of(text);
    read_cube_chars(text, &cs)
}

/// Read a cube file (see [`read_cube`]): the checks on its floating-point numbers, in the order
/// in which a reader meets them, and what it holds or the first error that needs no
/// floating-point number to find.
pub fn parse_cube(text: &str) -> (r: CubeParse)
    requires
        !cube_point_total_overflows(text@),
    ensures
        r.checks@ == read_cube(text@).0,
        r.outcome_view() == read_cube(text@).1,
{
    match try_parse_cube(text) {
        Ok(c) => c,
        Err(_) => CubeParse { checks: Vec::new(), outcome: Err(ParseCubeError::UnexpectedEof) },
    }
}

} // verus!
