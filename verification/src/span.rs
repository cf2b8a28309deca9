//! Spans: a pair of character references delimiting the region under
//! diagnosis, and the validation that builds one.

use crate::code_reference::{lines_view, CharRef, CodeLines};
use vstd::prelude::*;

verus! {

/// The failures of span construction and rendering: `InvalidSpan` when the
/// endpoints cross buffers or the start is positioned after the end,
/// `CoordinateOutOfRange` when a coordinate lies beyond the buffer extent.
#[derive(Clone, Copy, Debug, PartialEq, Eq, Structural)]
pub enum RenderError {
    InvalidSpan,
    CoordinateOutOfRange,
}

/// A start/end pair of character references delimiting the diagnosed region;
/// the end column is the first column not underlined.
#[derive(Debug)]
pub struct Span {
    /// The first character of the region.
    pub first: CharRef,
    /// The reference whose column is the exclusive end of the region.
    pub last: CharRef,
}

/// Whether position `(l1, c1)` lies strictly after `(l2, c2)` in
/// (line, column) order.
pub open spec fn position_after(l1: nat, c1: nat, l2: nat, c2: nat) -> bool {
    l1 > l2 || (l1 == l2 && c1 > c2)
}

/// Whether two character vectors hold the same characters.
fn chars_equal(a: &Vec<char>, b: &Vec<char>) -> (r: bool)
    ensures
        r == (a@ == b@),
{
    if a.len() != b.len() {
        return false;
    }
    let n = a.len();
    let mut i: usize = 0;
    while i < n
        invariant
            i <= n,
            n == a@.len() == b@.len(),
            forall|j: int| 0 <= j < i ==> a@[j] == b@[j],
        decreases n - i,
    {
        if a[i] != b[i] {
            return false;
        }
        i = i + 1;
    }
    proof {
        assert(a@ =~= b@);
    }
    true
}

/// Whether two line vectors hold the same lines.
fn lines_equal(a: &Vec<Vec<char>>, b: &Vec<Vec<char>>) -> (r: bool)
    ensures
        r == (lines_view(a@) == lines_view(b@)),
{
    if a.len() != b.len() {
        assert(lines_view(a@).len() != lines_view(b@).len());
        return false;
    }
    let n = a.len();
    let mut i: usize = 0;
    while i < n
        invariant
            i <= n,
            n == a@.len() == b@.len(),
            forall|j: int| 0 <= j < i ==> a@[j]@ == b@[j]@,
        decreases n - i,
    {
        if !chars_equal(&a[i], &b[i]) {
            assert(lines_view(a@)[i as int] != lines_view(b@)[i as int]);
            return false;
        }
        i = i + 1;
    }
    proof {
        assert(lines_view(a@) =~= lines_view(b@));
    }
    true
}

/// Whether two buffers hold the same name and the same lines.
fn buffers_equal(a: &CodeLines, b: &CodeLines) -> (r: bool)
    ensures
        r == (a@ == b@),
{
    let same = a.name == b.name && lines_equal(&a.code, &b.code);
    proof {
        if same {
            assert(a@ =~= b@);
        }
    }
    same
}

/// Builds a span from two endpoint references.
///
/// Fails with `InvalidSpan` exactly when the endpoints reference different
/// buffers or `first` is positioned strictly after `last`; a span with
/// `first == last` in line and `last` one column further is a
/// single-character region, the end column being exclusive.
pub fn make_span(first: CharRef, last: CharRef) -> (r: Result<Span, RenderError>)
    ensures
        match r {
            Ok(s) => {
                &&& s.first == first
                &&& s.last == last
                &&& first.origin@ == last.origin@
                &&& !position_after(
                    first.line as nat,
                    first.pos as nat,
                    last.line as nat,
                    last.pos as nat,
                )
            },
            Err(e) => {
                &&& e == RenderError::InvalidSpan
                &&& (first.origin@ != last.origin@ || position_after(
                    first.line as nat,
                    first.pos as nat,
                    last.line as nat,
                    last.pos as nat,
                ))
            },
        },
{
    if !buffers_equal(&first.origin, &last.origin) {
        return Err(RenderError::InvalidSpan);
    }
    if first.line > last.line || (first.line == last.line && first.pos > last.pos) {
        return Err(RenderError::InvalidSpan);
    }
    Ok(Span { first, last })
}

} // verus!
