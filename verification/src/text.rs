//! Plain-text building blocks for the renderers: runs of repeated characters,
//! decimal representations of line and column numbers, and the tab-aware
//! column widths used to align underlines and arrows.

use vstd::prelude::*;
use vstd::string::StrSliceExecFns;

verus! {

/// A run of `n` copies of the character `c`.
pub open spec fn repeat_char(c: char, n: nat) -> Seq<char> {
    Seq::new(n, |i: int| c)
}

/// Builds a run of `n` copies of `c`.
pub fn repeat_chars(c: char, n: usize) -> (r: Vec<char>)
    ensures
        r@ == repeat_char(c, n as nat),
{
    let mut r: Vec<char> = Vec::new();
    let mut i: usize = 0;
    while i < n
        invariant
            i <= n,
            r@ == repeat_char(c, i as nat),
        decreases n - i,
    {
        r.push(c);
        proof {
            assert(r@ =~= repeat_char(c, (i + 1) as nat));
        }
        i = i + 1;
    }
    r
}

/// The character for a single decimal digit.
pub open spec fn digit_char(d: nat) -> char {
    ((48 + d) as u8) as char
}

/// The decimal representation of `n`, most significant digit first.
pub open spec fn dec_rep(n: nat) -> Seq<char>
    decreases n,
{
    if n < 10 {
        seq![digit_char(n)]
    } else {
        dec_rep(n / 10).push(digit_char(n % 10))
    }
}

fn digit_of(d: usize) -> (c: char)
    requires
        d < 10,
    ensures
        c == digit_char(d as nat),
{
    ((48 + d) as u8) as char
}

/// Builds the decimal representation of `n`.
pub fn dec_chars(n: usize) -> (r: Vec<char>)
    ensures
        r@ == dec_rep(n as nat),
    decreases n,
{
    if n < 10 {
        let mut r: Vec<char> = Vec::new();
        r.push(digit_of(n));
        proof {
            assert(r@ =~= seq![digit_char(n as nat)]);
        }
        r
    } else {
        let mut r = dec_chars(n / 10);
        r.push(digit_of(n % 10));
        r
    }
}

/// `n` rendered in decimal and right-justified to width `w` with spaces.
pub open spec fn pad_num(n: nat, w: nat) -> Seq<char> {
    let d = dec_rep(n);
    let pad: nat = if d.len() <= w {
        (w - d.len()) as nat
    } else {
        0
    };
    repeat_char(' ', pad) + d
}

/// Builds `n` in decimal, right-justified to width `w`.
pub fn pad_num_chars(n: usize, w: usize) -> (r: Vec<char>)
    ensures
        r@ == pad_num(n as nat, w as nat),
{
    let mut d = dec_chars(n);
    let pad: usize = if d.len() <= w {
        w - d.len()
    } else {
        0
    };
    let mut r = repeat_chars(' ', pad);
    r.append(&mut d);
    r
}

/// The display width of one character: a tab spans 8 columns, every other
/// character spans 1.
pub open spec fn col_width(c: char) -> nat {
    if c == '\t' {
        8
    } else {
        1
    }
}

/// The total display width of the characters of `line` at indices
/// `[from, to)` (0 when `from >= to`).
pub open spec fn width_range(line: Seq<char>, from: int, to: int) -> nat
    decreases to - from,
{
    if from >= to {
        0
    } else {
        (width_range(line, from, to - 1) + col_width(line[to - 1])) as nat
    }
}

/// A range with no tab characters is as wide as it is long.
pub proof fn lemma_width_no_tabs(line: Seq<char>, from: int, to: int)
    requires
        0 <= from <= to <= line.len(),
        forall|j: int| from <= j < to ==> line[j] != '\t',
    ensures
        width_range(line, from, to) == to - from,
    decreases to - from,
{
    if from < to {
        lemma_width_no_tabs(line, from, to - 1);
    }
}

/// A single tab character spans 8 columns.
pub proof fn lemma_width_single_tab(line: Seq<char>, at: int)
    requires
        0 <= at < line.len(),
        line[at] == '\t',
    ensures
        width_range(line, at, at + 1) == 8,
{
    assert(width_range(line, at, at + 1) == width_range(line, at, at) + col_width(line[at]));
}

/// Builds a run of the marker `m`, one copy per display column of the
/// characters of `line` at indices `[from, to)`.
pub fn marker_chars(line: &Vec<char>, from: usize, to: usize, m: char) -> (r: Vec<char>)
    requires
        to <= line@.len(),
    ensures
        r@ == repeat_char(m, width_range(line@, from as int, to as int)),
{
    let mut r: Vec<char> = Vec::new();
    if from >= to {
        proof {
            assert(r@ =~= repeat_char(m, width_range(line@, from as int, to as int)));
        }
        return r;
    }
    let mut i: usize = from;
    while i < to
        invariant
            from <= i <= to,
            to <= line@.len(),
            r@ == repeat_char(m, width_range(line@, from as int, i as int)),
        decreases to - i,
    {
        let cw: usize = if line[i] == '\t' {
            8
        } else {
            1
        };
        let mut add = repeat_chars(m, cw);
        r.append(&mut add);
        proof {
            assert(r@ =~= repeat_char(m, width_range(line@, from as int, (i + 1) as int)));
        }
        i = i + 1;
    }
    r
}

/// Copies the characters of a string slice into a vector.
pub fn str_to_chars(s: &str) -> (r: Vec<char>)
    ensures
        r@ == s@,
{
    let n = s.unicode_len();
    let mut r: Vec<char> = Vec::new();
    let mut i: usize = 0;
    while i < n
        invariant
            i <= n,
            n == s@.len(),
            r@ == s@.take(i as int),
        decreases n - i,
    {
        let c = s.get_char(i);
        r.push(c);
        proof {
            assert(r@ =~= s@.take((i + 1) as int));
        }
        i = i + 1;
    }
    proof {
        assert(s@.take(n as int) =~= s@);
    }
    r
}

/// Copies the characters of `line` at indices `[from, to)`.
pub fn sub_chars(line: &Vec<char>, from: usize, to: usize) -> (r: Vec<char>)
    requires
        from <= to,
        to <= line@.len(),
    ensures
        r@ == line@.subrange(from as int, to as int),
{
    let mut r: Vec<char> = Vec::new();
    let mut i: usize = from;
    while i < to
        invariant
            from <= i <= to,
            to <= line@.len(),
            r@ == line@.subrange(from as int, i as int),
        decreases to - i,
    {
        r.push(line[i]);
        proof {
            assert(r@ =~= line@.subrange(from as int, (i + 1) as int));
        }
        i = i + 1;
    }
    r
}

/// Copies a vector of characters.
pub fn copy_chars(line: &Vec<char>) -> (r: Vec<char>)
    ensures
        r@ == line@,
{
    let mut r: Vec<char> = Vec::new();
    let mut i: usize = 0;
    let n = line.len();
    while i < n
        invariant
            i <= n,
            n == line@.len(),
            r@ == line@.take(i as int),
        decreases n - i,
    {
        r.push(line[i]);
        proof {
            assert(r@ =~= line@.take((i + 1) as int));
        }
        i = i + 1;
    }
    proof {
        assert(line@.take(n as int) =~= line@);
    }
    r
}

} // verus!
