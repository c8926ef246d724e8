//! The diagnostic returned to callers once a parse has failed for good:
//! the resolved location, the source line copied out of the input, and
//! the rendered message, all independent of the input buffer.

use crate::context::{cause_view, expected_texts, first_label, message_text, ContextError};
use crate::location::{
    count_newlines, lemma_line_end_bounds, lemma_line_start_bounds, line_end, line_start,
    locate_error, Location,
};
use vstd::prelude::*;
use vstd::string::{StrSliceExecFns, StringExecFns};

verus! {

/// The decimal digit character for `d` (`d < 10`).
pub open spec fn digit_char(d: nat) -> char {
    if d == 0 {
        '0'
    } else if d == 1 {
        '1'
    } else if d == 2 {
        '2'
    } else if d == 3 {
        '3'
    } else if d == 4 {
        '4'
    } else if d == 5 {
        '5'
    } else if d == 6 {
        '6'
    } else if d == 7 {
        '7'
    } else if d == 8 {
        '8'
    } else {
        '9'
    }
}

/// The decimal rendering of `n`, most significant digit first.
pub open spec fn dec_str(n: nat) -> Seq<char>
    decreases n,
{
    if n < 10 {
        seq![digit_char(n)]
    } else {
        dec_str(n / 10).push(digit_char(n % 10))
    }
}

/// `n` space characters.
pub open spec fn spaces(n: nat) -> Seq<char> {
    Seq::new(n, |i: int| ' ')
}

fn digit_string(d: usize) -> (r: String)
    requires
        d < 10,
    ensures
        r@ == seq![digit_char(d as nat)],
{
    let r = if d == 0 {
        String::from_str("0")
    } else if d == 1 {
        String::from_str("1")
    } else if d == 2 {
        String::from_str("2")
    } else if d == 3 {
        String::from_str("3")
    } else if d == 4 {
        String::from_str("4")
    } else if d == 5 {
        String::from_str("5")
    } else if d == 6 {
        String::from_str("6")
    } else if d == 7 {
        String::from_str("7")
    } else if d == 8 {
        String::from_str("8")
    } else {
        String::from_str("9")
    };
    proof {
        reveal_strlit("0");
        reveal_strlit("1");
        reveal_strlit("2");
        reveal_strlit("3");
        reveal_strlit("4");
        reveal_strlit("5");
        reveal_strlit("6");
        reveal_strlit("7");
        reveal_strlit("8");
        reveal_strlit("9");
        assert(r@ =~= seq![digit_char(d as nat)]);
    }
    r
}

fn usize_to_string(n: usize) -> (r: String)
    ensures
        r@ == dec_str(n as nat),
    decreases n,
{
    if n < 10 {
        digit_string(n)
    } else {
        assert(n / 10 < n) by (nonlinear_arith)
            requires
                n >= 10,
        ;
        let mut s = usize_to_string(n / 10);
        let d = digit_string(n % 10);
        s.append(d.as_str());
        proof {
            assert(s@ =~= dec_str(n as nat));
        }
        s
    }
}

fn space_string(n: usize) -> (r: String)
    ensures
        r@ == spaces(n as nat),
{
    let mut s = String::new();
    let mut i: usize = 0;
    while i < n
        invariant
            i <= n,
            s@ == spaces(i as nat),
        decreases n - i,
    {
        s.append(" ");
        proof {
            reveal_strlit(" ");
            assert(s@ =~= spaces(i as nat + 1));
        }
        i = i + 1;
    }
    s
}

/// What `String::from_utf8_lossy` returns for the given bytes: a pure
/// function of the bytes alone.
pub uninterp spec fn lossy_decode(bytes: Seq<u8>) -> Seq<char>;

/// Relies on String::from_utf8_lossy: decodes the bytes as UTF-8,
/// replacing invalid sequences with U+FFFD; the result depends on the
/// bytes alone.
#[verifier::external_body]
fn utf8_lossy(bytes: &[u8]) -> (r: String)
    ensures
        r@ == lossy_decode(bytes@),
{
    String::from_utf8_lossy(bytes).into_owned()
}

/// The rendered diagnostic block: a gutter as wide as the printed line
/// number, a header naming the line and column, the source line, a
/// caret right-aligned under the failing column followed by three
/// dashes, and the message.
pub open spec fn block_text(
    message: Seq<char>,
    line_text: Seq<char>,
    line: nat,
    column: nat,
) -> Seq<char>
    recommends
        column >= 1,
{
    let l = dec_str(line);
    let s = spaces(l.len());
    s + "--> HCL parse error in line "@ + l + ", column "@ + dec_str(column) + "\n"@ + s + " |\n"@
        + l + " | "@ + line_text + "\n"@ + s + " | "@ + spaces((column - 1) as nat) + "^---\n"@ + s
        + " |\n"@ + s + " = "@ + message
}

#[derive(Debug, Clone)]
struct ErrorInner {
    message: String,
    line: String,
    location: Location,
}

impl ErrorInner {
    /// Well-formed: the one-based column is at least one, so the caret
    /// can be placed under it.
    spec fn wf(&self) -> bool {
        self.location.spec_column() >= 1
    }

    fn from_parse_error(input: &[u8], err: &ContextError) -> (r: ErrorInner)
        requires
            err.spec_offset() <= input@.len(),
            input@.len() < usize::MAX,
        ensures
            r.wf(),
            r.location.spec_offset() == err.spec_offset(),
            r.location.spec_line() == count_newlines(input@.take(err.spec_offset() as int)) + 1,
            r.location.spec_column() == err.spec_offset() - line_start(
                input@,
                err.spec_offset() as int,
            ) + 1,
            r.line@ == lossy_decode(
                input@.subrange(
                    line_start(input@, err.spec_offset() as int),
                    line_end(input@, line_start(input@, err.spec_offset() as int)),
                ),
            ),
            r.message@ == message_text(
                first_label(err.spec_context()),
                expected_texts(err.spec_context()),
                cause_view(err.spec_cause()),
            ),
    {
        proof {
            lemma_line_start_bounds(input@, err.spec_offset() as int);
            lemma_line_end_bounds(input@, line_start(input@, err.spec_offset() as int));
        }
        let (line_slice, location) = locate_error(input, err.offset());
        ErrorInner { message: err.message(), line: utf8_lossy(line_slice), location }
    }

    /// The left gutter: as many spaces as the printed line number is wide.
    fn spacing(&self) -> (r: String)
        ensures
            r@ == spaces(dec_str(self.location.spec_line() as nat).len()),
    {
        let l = usize_to_string(self.location.line());
        space_string(l.as_str().unicode_len())
    }

    /// Renders the full diagnostic block.
    fn render(&self) -> (r: String)
        requires
            self.wf(),
        ensures
            r@ == block_text(
                self.message@,
                self.line@,
                self.location.spec_line() as nat,
                self.location.spec_column() as nat,
            ),
    {
        let s = self.spacing();
        let l = usize_to_string(self.location.line());
        let c = usize_to_string(self.location.column());
        let caret_pad = space_string(self.location.column() - 1);
        let mut out = String::new();
        out.append(s.as_str());
        out.append("--> HCL parse error in line ");
        out.append(l.as_str());
        out.append(", column ");
        out.append(c.as_str());
        out.append("\n");
        out.append(s.as_str());
        out.append(" |\n");
        out.append(l.as_str());
        out.append(" | ");
        out.append(self.line.as_str());
        out.append("\n");
        out.append(s.as_str());
        out.append(" | ");
        out.append(caret_pad.as_str());
        out.append("^---\n");
        out.append(s.as_str());
        out.append(" |\n");
        out.append(s.as_str());
        out.append(" = ");
        out.append(self.message.as_str());
        proof {
            assert(out@ =~= block_text(
                self.message@,
                self.line@,
                self.location.spec_line() as nat,
                self.location.spec_column() as nat,
            ));
        }
        out
    }
}

/// The diagnostic built when the parser has exhausted every alternative:
/// the only value this library hands to application callers.
#[derive(Debug, Clone)]
pub struct Error {
    inner: Box<ErrorInner>,
}

impl Error {
    /// The rendered message.
    pub closed spec fn spec_message(&self) -> Seq<char> {
        self.inner.message@
    }

    /// The extracted source line.
    pub closed spec fn spec_line(&self) -> Seq<char> {
        self.inner.line@
    }

    /// The resolved location.
    pub closed spec fn spec_location(&self) -> Location {
        self.inner.location
    }

    /// Well-formed: the column is one-based.
    pub closed spec fn wf(&self) -> bool {
        self.inner.wf()
    }

    fn new(inner: ErrorInner) -> (r: Error)
        ensures
            r.inner == inner,
    {
        Error { inner: Box::new(inner) }
    }

    /// Builds the diagnostic for a failure of `err` within `input`: the
    /// location and line are resolved from the failure's byte offset,
    /// and the message is rendered from its accumulated context.
    pub fn from_parse_error(input: &[u8], err: &ContextError) -> (r: Error)
        requires
            err.spec_offset() <= input@.len(),
            // a byte slice over half the address space cannot exist
            input@.len() < usize::MAX,
        ensures
            r.wf(),
            resolves(input@, *err, r),
    {
        Error::new(ErrorInner::from_parse_error(input, err))
    }

    /// Returns the line from the input where the error occurred.
    ///
    /// This is the full line containing the invalid input; `location`
    /// gives the column in which the error starts.
    pub fn line(&self) -> (r: &str)
        ensures
            r@ == self.spec_line(),
    {
        self.inner.line.as_str()
    }

    /// Returns the location in the input at which the error occurred.
    pub fn location(&self) -> (r: &Location)
        ensures
            *r == self.spec_location(),
    {
        &self.inner.location
    }

    /// The full diagnostic block, as the `Display` form of the error.
    pub fn to_display_string(&self) -> (r: String)
        requires
            self.wf(),
        ensures
            r@ == block_text(
                self.spec_message(),
                self.spec_line(),
                self.spec_location().spec_line() as nat,
                self.spec_location().spec_column() as nat,
            ),
    {
        self.inner.render()
    }
}

/// What `from_parse_error` promises of its result: the location is
/// resolved from the failure offset, the line is the lossy decoding of
/// the line slice containing it, and the message is rendered from the
/// accumulated context.
pub open spec fn resolves(input: Seq<u8>, err: ContextError, r: Error) -> bool {
    &&& r.spec_location().spec_offset() == err.spec_offset()
    &&& r.spec_location().spec_line() == count_newlines(input.take(err.spec_offset() as int)) + 1
    &&& r.spec_location().spec_column() == err.spec_offset() - line_start(
        input,
        err.spec_offset() as int,
    ) + 1
    &&& r.spec_line() == lossy_decode(
        input.subrange(
            line_start(input, err.spec_offset() as int),
            line_end(input, line_start(input, err.spec_offset() as int)),
        ),
    )
    &&& r.spec_message() == message_text(
        first_label(err.spec_context()),
        expected_texts(err.spec_context()),
        cause_view(err.spec_cause()),
    )
}

/// Building a diagnostic is deterministic: two diagnostics resolved
/// from the same input and the same failure are structurally equal.
pub proof fn lemma_resolve_deterministic(input: Seq<u8>, err: ContextError, r1: Error, r2: Error)
    requires
        resolves(input, err, r1),
        resolves(input, err, r2),
    ensures
        error_eq(r1, r2),
{
    crate::location::lemma_location_ext(r1.spec_location(), r2.spec_location());
}

/// Structural equality of two diagnostics: same message, same line
/// text, same location.
pub open spec fn error_eq(a: Error, b: Error) -> bool {
    &&& a.spec_message() == b.spec_message()
    &&& a.spec_line() == b.spec_line()
    &&& a.spec_location() == b.spec_location()
}

impl PartialEq for Error {
    fn eq(&self, other: &Self) -> (r: bool) {
        self.inner.message == other.inner.message && self.inner.line == other.inner.line
            && self.inner.location == other.inner.location
    }
}

impl vstd::std_specs::cmp::PartialEqSpecImpl for Error {
    open spec fn obeys_eq_spec() -> bool {
        true
    }

    open spec fn eq_spec(&self, other: &Self) -> bool {
        error_eq(*self, *other)
    }
}

} // verus!
