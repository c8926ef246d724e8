//! The failure value that a grammar engine threads through backtracking,
//! and the rendering of its accumulated context into a message.
//!
//! A failure starts empty at the byte offset where a rule first failed
//! and is only ever extended: fragments are appended, and a cause is set
//! once (the innermost failure's cause wins). Each alternative that a
//! backtracking engine tries owns its failure value outright, so a
//! discarded branch cannot touch the failure of a sibling.

use vstd::prelude::*;
use vstd::string::StringExecFns;

verus! {

/// One piece of context attached to a failure: either the name of the
/// grammar construct being parsed, or one admissible token at the
/// failure point.
#[derive(Debug, Clone)]
pub enum StrContext {
    /// Names the grammar construct that failed, e.g. "attribute".
    Label(String),
    /// Names one expected token or construct at the failure point.
    Expected(String),
}

/// Structural equality of two fragments: same variant, same text.
pub open spec fn frag_eq(a: StrContext, b: StrContext) -> bool {
    match (a, b) {
        (StrContext::Label(x), StrContext::Label(y)) => x@ == y@,
        (StrContext::Expected(x), StrContext::Expected(y)) => x@ == y@,
        _ => false,
    }
}

impl PartialEq for StrContext {
    fn eq(&self, other: &Self) -> (r: bool) {
        match (self, other) {
            (StrContext::Label(x), StrContext::Label(y)) => *x == *y,
            (StrContext::Expected(x), StrContext::Expected(y)) => *x == *y,
            _ => false,
        }
    }
}

impl vstd::std_specs::cmp::PartialEqSpecImpl for StrContext {
    open spec fn obeys_eq_spec() -> bool {
        true
    }

    open spec fn eq_spec(&self, other: &Self) -> bool {
        frag_eq(*self, *other)
    }
}

/// The text of the first `Label` fragment, if any.
pub open spec fn first_label(ctx: Seq<StrContext>) -> Option<Seq<char>>
    decreases ctx.len(),
{
    if ctx.len() == 0 {
        None
    } else {
        match ctx[0] {
            StrContext::Label(l) => Some(l@),
            StrContext::Expected(_) => first_label(ctx.drop_first()),
        }
    }
}

/// The texts of all `Expected` fragments, in accumulation order.
pub open spec fn expected_texts(ctx: Seq<StrContext>) -> Seq<Seq<char>>
    decreases ctx.len(),
{
    if ctx.len() == 0 {
        Seq::empty()
    } else {
        expected_texts(ctx.drop_last()) + (match ctx.last() {
            StrContext::Expected(e) => seq![e@],
            StrContext::Label(_) => Seq::<Seq<char>>::empty(),
        })
    }
}

/// The alternatives joined with ", " between them.
pub open spec fn comma_join(es: Seq<Seq<char>>) -> Seq<char>
    decreases es.len(),
{
    if es.len() == 0 {
        Seq::empty()
    } else if es.len() == 1 {
        es[0]
    } else {
        comma_join(es.drop_last()) + ", "@ + es.last()
    }
}

/// The "expected ..." part of the message: "unexpected token" when no
/// alternative was recorded; otherwise the alternatives joined with
/// commas and a final " or " (no comma before the "or").
pub open spec fn expected_message(es: Seq<Seq<char>>) -> Seq<char> {
    if es.len() == 0 {
        "unexpected token"@
    } else if es.len() == 1 {
        "expected "@ + es[0]
    } else {
        "expected "@ + comma_join(es.drop_last()) + " or "@ + es.last()
    }
}

/// The whole message: an "invalid <label>; " prefix when a label was
/// recorded, the expected part, and "; <cause>" appended when a cause
/// was attached.
pub open spec fn message_text(
    label: Option<Seq<char>>,
    es: Seq<Seq<char>>,
    cause: Option<Seq<char>>,
) -> Seq<char> {
    (match label {
        Some(l) => "invalid "@ + l + "; "@,
        None => Seq::<char>::empty(),
    }) + expected_message(es) + (match cause {
        Some(c) => "; "@ + c,
        None => Seq::<char>::empty(),
    })
}

/// Attaching a cause appends "; <cause text>" to the rendered message,
/// whatever labels and expected alternatives were accumulated.
pub proof fn lemma_cause_appends(label: Option<Seq<char>>, es: Seq<Seq<char>>, c: Seq<char>)
    ensures
        message_text(label, es, Some(c)) == message_text(label, es, None) + "; "@ + c,
{
    assert(message_text(label, es, Some(c)) =~= message_text(label, es, None) + "; "@ + c);
}

/// The view of an optional cause: its text.
pub open spec fn cause_view(c: Option<String>) -> Option<Seq<char>> {
    match c {
        Some(s) => Some(s@),
        None => None,
    }
}

/// A failure being accumulated while a backtracking parse unwinds.
///
/// It records the byte offset at which the failing rule stopped, the
/// ordered context fragments attached by enclosing rules, and at most
/// one externally supplied cause, kept in its string form.
#[derive(Debug, Clone)]
pub struct ContextError {
    offset: usize,
    context: Vec<StrContext>,
    cause: Option<String>,
}

impl ContextError {
    /// The byte offset from the start of the input at which the parse failed.
    pub closed spec fn spec_offset(&self) -> usize {
        self.offset
    }

    /// The accumulated fragments, in insertion order.
    pub closed spec fn spec_context(&self) -> Seq<StrContext> {
        self.context@
    }

    /// The attached cause, if any.
    pub closed spec fn spec_cause(&self) -> Option<String> {
        self.cause
    }

    /// Returns the byte offset at which the parse failed.
    pub fn offset(&self) -> (r: usize)
        ensures
            r == self.spec_offset(),
    {
        self.offset
    }

    /// An empty failure at byte offset `offset`: no fragments, no cause.
    pub fn new(offset: usize) -> (r: ContextError)
        ensures
            r.spec_offset() == offset,
            r.spec_context() == Seq::<StrContext>::empty(),
            r.spec_cause() is None,
    {
        ContextError { offset, context: Vec::new(), cause: None }
    }

    /// A failure at byte offset `offset` caused by an external error,
    /// carried in its string form: no fragments, the cause set.
    pub fn from_external_error(offset: usize, cause: String) -> (r: ContextError)
        ensures
            r.spec_offset() == offset,
            r.spec_context() == Seq::<StrContext>::empty(),
            cause_view(r.spec_cause()) == Some(cause@),
    {
        ContextError { offset, context: Vec::new(), cause: Some(cause) }
    }

    /// Appends one context fragment; everything else is kept.
    pub fn add_context(self, ctx: StrContext) -> (r: ContextError)
        ensures
            r.spec_offset() == self.spec_offset(),
            r.spec_context() == self.spec_context().push(ctx),
            r.spec_cause() == self.spec_cause(),
    {
        let mut r = self;
        r.context.push(ctx);
        r
    }

    /// Appends a `Label` fragment naming the construct being parsed.
    pub fn annotate_label(&mut self, text: String)
        ensures
            final(self).spec_offset() == old(self).spec_offset(),
            final(self).spec_context() == old(self).spec_context().push(
                StrContext::Label(text),
            ),
            final(self).spec_cause() == old(self).spec_cause(),
    {
        self.context.push(StrContext::Label(text));
    }

    /// Appends an `Expected` fragment naming one admissible alternative.
    /// Duplicates are kept: rendering reproduces the accumulation order.
    pub fn annotate_expected(&mut self, text: String)
        ensures
            final(self).spec_offset() == old(self).spec_offset(),
            final(self).spec_context() == old(self).spec_context().push(
                StrContext::Expected(text),
            ),
            final(self).spec_cause() == old(self).spec_cause(),
    {
        self.context.push(StrContext::Expected(text));
    }

    /// Sets the cause, unless one is already present: the innermost
    /// failure's cause wins and is not overwritten by outer frames.
    pub fn attach_cause(&mut self, cause: String)
        ensures
            final(self).spec_offset() == old(self).spec_offset(),
            final(self).spec_context() == old(self).spec_context(),
            final(self).spec_cause() == (match old(self).spec_cause() {
                Some(c) => Some(c),
                None => Some(cause),
            }),
    {
        if self.cause.is_none() {
            self.cause = Some(cause);
        }
    }

    /// Renders the accumulated context into the message part of the
    /// diagnostic: the first label (if any), the expected alternatives
    /// in accumulation order, and the cause (if any).
    pub fn message(&self) -> (r: String)
        ensures
            r@ == message_text(
                first_label(self.spec_context()),
                expected_texts(self.spec_context()),
                cause_view(self.spec_cause()),
            ),
    {
        let ctx = &self.context;
        let n = ctx.len();

        // The first `Label` fragment, if any.
        let mut label: Option<&String> = None;
        let mut i: usize = 0;
        proof {
            assert(ctx@.skip(0) =~= ctx@);
        }
        while i < n && label.is_none()
            invariant
                i <= n == ctx@.len(),
                label is None ==> first_label(ctx@) == first_label(ctx@.skip(i as int)),
                label matches Some(l) ==> first_label(ctx@) == Some(l@),
            decreases n - i,
        {
            proof {
                assert(ctx@.skip(i as int)[0] == ctx@[i as int]);
                assert(ctx@.skip(i as int).drop_first() =~= ctx@.skip(i as int + 1));
            }
            match &ctx[i] {
                StrContext::Label(l) => {
                    label = Some(l);
                },
                StrContext::Expected(_) => {},
            }
            i = i + 1;
        }
        proof {
            if label is None {
                assert(ctx@.skip(n as int).len() == 0);
            }
        }

        // All `Expected` fragments, in order.
        let mut exps: Vec<&String> = Vec::new();
        let mut i: usize = 0;
        proof {
            assert(ctx@.take(0) =~= Seq::<StrContext>::empty());
        }
        while i < n
            invariant
                i <= n == ctx@.len(),
                ref_texts(exps@) =~= expected_texts(ctx@.take(i as int)),
            decreases n - i,
        {
            let ghost prev = exps@;
            match &ctx[i] {
                StrContext::Expected(e) => {
                    exps.push(e);
                    proof {
                        assert(ref_texts(exps@) =~= ref_texts(prev).push(e@));
                    }
                },
                StrContext::Label(_) => {},
            }
            proof {
                assert(ctx@.take(i as int + 1).drop_last() =~= ctx@.take(i as int));
                assert(ctx@.take(i as int + 1).last() == ctx@[i as int]);
            }
            i = i + 1;
        }
        proof {
            assert(ctx@.take(n as int) =~= ctx@);
        }
        let ghost es = expected_texts(ctx@);

        let mut out = String::new();
        if let Some(l) = label {
            out.append("invalid ");
            out.append(l.as_str());
            out.append("; ");
        }
        let ghost label_part = out@;
        proof {
            assert(label_part =~= (match first_label(ctx@) {
                Some(t) => "invalid "@ + t + "; "@,
                None => Seq::<char>::empty(),
            }));
        }

        let m = exps.len();
        if m == 0 {
            out.append("unexpected token");
        } else {
            out.append("expected ");
            out.append(exps[0].as_str());
            proof {
                assert(comma_join(es.take(1)) =~= es[0]);
            }
            let mut k: usize = 1;
            while k < m
                invariant
                    1 <= k <= m == es.len(),
                    ref_texts(exps@) =~= es,
                    k < m ==> out@ == label_part + "expected "@ + comma_join(es.take(k as int)),
                    k == m ==> out@ == label_part + expected_message(es),
                decreases m - k,
            {
                if k == m - 1 {
                    out.append(" or ");
                } else {
                    out.append(", ");
                }
                out.append(exps[k].as_str());
                proof {
                    assert(es.take(k as int + 1).drop_last() =~= es.take(k as int));
                    assert(es.take(k as int + 1).last() == es[k as int]);
                    if k == m - 1 {
                        assert(es.take(k as int) =~= es.drop_last());
                        assert(out@ =~= label_part + expected_message(es));
                    } else {
                        assert(out@ =~= label_part + "expected "@ + comma_join(
                            es.take(k as int + 1),
                        ));
                    }
                }
                k = k + 1;
            }
        }
        proof {
            assert(out@ =~= label_part + expected_message(es));
        }

        if let Some(c) = &self.cause {
            out.append("; ");
            out.append(c.as_str());
        }
        proof {
            assert(out@ =~= message_text(
                first_label(ctx@),
                expected_texts(ctx@),
                cause_view(self.spec_cause()),
            ));
        }
        out
    }
}

/// The views of a sequence of borrowed strings.
pub open spec fn ref_texts(ss: Seq<&String>) -> Seq<Seq<char>> {
    ss.map_values(|s: &String| s@)
}

/// Pointwise structural equality of two fragment sequences.
pub open spec fn ctx_seq_eq(a: Seq<StrContext>, b: Seq<StrContext>) -> bool {
    a.len() == b.len() && (forall|i: int| 0 <= i < a.len() ==> frag_eq(a[i], b[i]))
}

/// Structural equality of two accumulated failures: same offset, equal
/// fragments in the same order, and causes with the same string form.
pub open spec fn ctx_err_eq(a: ContextError, b: ContextError) -> bool {
    &&& a.spec_offset() == b.spec_offset()
    &&& ctx_seq_eq(a.spec_context(), b.spec_context())
    &&& match (a.spec_cause(), b.spec_cause()) {
        (Some(x), Some(y)) => x@ == y@,
        (None, None) => true,
        _ => false,
    }
}

impl PartialEq for ContextError {
    fn eq(&self, other: &Self) -> (r: bool) {
        if self.offset != other.offset {
            return false;
        }
        let n = self.context.len();
        if n != other.context.len() {
            return false;
        }
        let mut i: usize = 0;
        while i < n
            invariant
                i <= n == self.context@.len() == other.context@.len(),
                forall|j: int| 0 <= j < i ==> frag_eq(self.context@[j], other.context@[j]),
            decreases n - i,
        {
            if !(self.context[i] == other.context[i]) {
                return false;
            }
            i = i + 1;
        }
        match (&self.cause, &other.cause) {
            (Some(x), Some(y)) => *x == *y,
            (None, None) => true,
            _ => false,
        }
    }
}

impl vstd::std_specs::cmp::PartialEqSpecImpl for ContextError {
    open spec fn obeys_eq_spec() -> bool {
        true
    }

    open spec fn eq_spec(&self, other: &Self) -> bool {
        ctx_err_eq(*self, *other)
    }
}

} // verus!
