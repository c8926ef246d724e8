//! Resolving a byte offset into a line number, column and line slice.
//!
//! The resolver works on raw bytes: the input need not be valid UTF-8,
//! and a line is delimited by newline bytes (0x0A). All scans are local
//! to the line containing the failure, except the newline count, which
//! walks the consumed prefix once.

use vstd::prelude::*;
use vstd::slice::{slice_index_get, slice_subrange};

verus! {

/// Number of newline bytes in `s`.
pub open spec fn count_newlines(s: Seq<u8>) -> nat
    decreases s.len(),
{
    if s.len() == 0 {
        0
    } else {
        count_newlines(s.drop_last()) + if s.last() == 10 {
            1nat
        } else {
            0nat
        }
    }
}

/// Index at which the line containing byte position `offset` begins:
/// right after the last newline strictly before `offset`, or at the
/// start of the input when no such newline exists.
pub open spec fn line_start(input: Seq<u8>, offset: int) -> int
    decreases offset,
{
    if offset <= 0 {
        0
    } else if input[offset - 1] == 10 {
        offset
    } else {
        line_start(input, offset - 1)
    }
}

/// Index at which the line beginning at `from` ends: the position of
/// the next newline at or after `from`, or the end of the input. The
/// newline itself is not part of the line.
pub open spec fn line_end(input: Seq<u8>, from: int) -> int
    decreases input.len() - from,
{
    if from >= input.len() {
        input.len() as int
    } else if input[from] == 10 {
        from
    } else {
        line_end(input, from + 1)
    }
}

pub proof fn lemma_line_start_bounds(input: Seq<u8>, offset: int)
    requires
        0 <= offset,
    ensures
        0 <= line_start(input, offset) <= offset,
    decreases offset,
{
    if offset > 0 && input[offset - 1] != 10 {
        lemma_line_start_bounds(input, offset - 1);
    }
}

pub proof fn lemma_line_end_bounds(input: Seq<u8>, from: int)
    requires
        0 <= from <= input.len(),
    ensures
        from <= line_end(input, from) <= input.len(),
    decreases input.len() - from,
{
    if from < input.len() && input[from] != 10 {
        lemma_line_end_bounds(input, from + 1);
    }
}

/// No byte of the line `[from, line_end(input, from))` is a newline.
pub proof fn lemma_line_has_no_newline(input: Seq<u8>, from: int)
    requires
        0 <= from <= input.len(),
    ensures
        forall|i: int| from <= i < line_end(input, from) ==> input[i] != 10,
    decreases input.len() - from,
{
    if from < input.len() && input[from] != 10 {
        lemma_line_has_no_newline(input, from + 1);
    }
}

/// No byte in `[line_start(input, offset), offset)` is a newline: the
/// failure offset lies on (or just past the end of) its own line.
pub proof fn lemma_no_newline_after_line_start(input: Seq<u8>, offset: int)
    requires
        0 <= offset,
    ensures
        forall|i: int| line_start(input, offset) <= i < offset ==> input[i] != 10,
    decreases offset,
{
    if offset > 0 && input[offset - 1] != 10 {
        lemma_no_newline_after_line_start(input, offset - 1);
    }
}

/// The failure offset is never past the end of the line that contains it.
pub proof fn lemma_offset_within_line(input: Seq<u8>, offset: int)
    requires
        0 <= offset <= input.len(),
    ensures
        line_start(input, offset) <= offset <= line_end(input, line_start(input, offset)),
    decreases offset - line_start(input, offset),
{
    lemma_line_start_bounds(input, offset);
    lemma_no_newline_after_line_start(input, offset);
    lemma_line_end_unchanged_while_no_newline(input, line_start(input, offset), offset);
    lemma_line_end_bounds(input, offset);
}

/// Stepping the start of the scan past non-newline bytes does not move
/// the end of the line.
pub proof fn lemma_line_end_unchanged_while_no_newline(input: Seq<u8>, from: int, to: int)
    requires
        0 <= from <= to <= input.len(),
        forall|i: int| from <= i < to ==> input[i] != 10,
    ensures
        line_end(input, from) == line_end(input, to),
    decreases to - from,
{
    if from < to {
        lemma_line_end_unchanged_while_no_newline(input, from + 1, to);
    }
}

proof fn lemma_count_newlines_step(s: Seq<u8>, j: int)
    requires
        0 <= j < s.len(),
    ensures
        count_newlines(s.take(j + 1)) == count_newlines(s.take(j)) + if s[j] == 10 {
            1nat
        } else {
            0nat
        },
{
    assert(s.take(j + 1).drop_last() =~= s.take(j));
    assert(s.take(j + 1).last() == s[j]);
}

/// A location in the parser input.
#[derive(Debug, Clone, PartialEq, Eq, Structural)]
pub struct Location {
    line: usize,
    column: usize,
    offset: usize,
}

impl Location {
    /// The one-based line number.
    pub closed spec fn spec_line(&self) -> usize {
        self.line
    }

    /// The one-based column number, in bytes within the line.
    pub closed spec fn spec_column(&self) -> usize {
        self.column
    }

    /// The zero-based byte offset from the start of the input.
    pub closed spec fn spec_offset(&self) -> usize {
        self.offset
    }

    /// Returns the line number (one-based) in the parser input.
    pub fn line(&self) -> (r: usize)
        ensures
            r == self.spec_line(),
    {
        self.line
    }

    /// Returns the column number (one-based) in the parser input.
    pub fn column(&self) -> (r: usize)
        ensures
            r == self.spec_column(),
    {
        self.column
    }

    /// Returns the byte offset (zero-based) in the parser input.
    pub fn offset(&self) -> (r: usize)
        ensures
            r == self.spec_offset(),
    {
        self.offset
    }
}

/// Two locations that agree on line, column and offset are equal.
pub proof fn lemma_location_ext(a: Location, b: Location)
    requires
        a.spec_line() == b.spec_line(),
        a.spec_column() == b.spec_column(),
        a.spec_offset() == b.spec_offset(),
    ensures
        a == b,
{
}

/// Resolves the failure byte `offset` within `input` to the full line
/// containing it (newline excluded) and its `Location`.
///
/// The line number is one plus the number of newline bytes strictly
/// before `offset`; the column is the one-based position of `offset`
/// within its line; a failure exactly on a newline byte reports the
/// line that the newline terminates.
pub fn locate_error<'a>(input: &'a [u8], offset: usize) -> (res: (&'a [u8], Location))
    requires
        offset <= input@.len(),
        // a byte slice over half the address space cannot exist
        input@.len() < usize::MAX,
    ensures
        res.1.spec_offset() == offset,
        res.1.spec_line() == count_newlines(input@.take(offset as int)) + 1,
        res.1.spec_column() == offset - line_start(input@, offset as int) + 1,
        res.0@ == input@.subrange(
            line_start(input@, offset as int),
            line_end(input@, line_start(input@, offset as int)),
        ),
        forall|i: int| 0 <= i < res.0@.len() ==> res.0@[i] != 10,
        // the failure lies on the reported line, at worst just past its end
        res.1.spec_column() <= res.0@.len() + 1,
{
    proof {
        lemma_line_start_bounds(input@, offset as int);
        lemma_offset_within_line(input@, offset as int);
    }
    // Scan backward for the nearest newline before `offset`; the line
    // begins right after it.
    let mut begin: usize = offset;
    while begin > 0 && *slice_index_get(input, begin - 1) != 10
        invariant
            begin <= offset <= input@.len(),
            line_start(input@, offset as int) == line_start(input@, begin as int),
        decreases begin,
    {
        begin = begin - 1;
    }
    proof {
        assert(line_start(input@, begin as int) == begin);
    }

    // Scan forward from the line start for the terminating newline.
    let n = input.len();
    let mut end: usize = begin;
    while end < n && *slice_index_get(input, end) != 10
        invariant
            begin <= end <= n == input@.len(),
            line_end(input@, begin as int) == line_end(input@, end as int),
        decreases n - end,
    {
        end = end + 1;
    }
    proof {
        assert(line_end(input@, end as int) == end);
        lemma_line_has_no_newline(input@, begin as int);
    }

    // Count the newline bytes in the consumed prefix.
    let mut newlines: usize = 0;
    let mut j: usize = 0;
    while j < offset
        invariant
            j <= offset <= input@.len(),
            newlines <= j,
            newlines == count_newlines(input@.take(j as int)),
        decreases offset - j,
    {
        proof {
            lemma_count_newlines_step(input@, j as int);
        }
        if *slice_index_get(input, j) == 10 {
            newlines = newlines + 1;
        }
        j = j + 1;
    }

    let line_slice = slice_subrange(input, begin, end);
    let location = Location { line: newlines + 1, column: offset - begin + 1, offset };
    (line_slice, location)
}

/// The location resolved for offset 0 is always line 1, column 1:
/// no newline lies before the start of the input, and the first line
/// begins there.
pub proof fn lemma_location_at_offset_zero(input: Seq<u8>)
    ensures
        count_newlines(input.take(0)) + 1 == 1,
        line_start(input, 0) == 0,
        0 - line_start(input, 0) + 1 == 1,
{
    assert(input.take(0).len() == 0);
}

} // verus!
