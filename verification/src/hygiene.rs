//! Marks on source positions that tell inferred types from written ones.
//!
//! A position carries a syntax context; `swc_common` keeps, for each context,
//! the mark applied last and the context it was applied to. Following those
//! links from a context gives the chain of marks on a position.

use crate::span::Span;
use swc_common::{Globals, Mark, SyntaxContext, GLOBALS};
use vstd::prelude::*;

verus! {

/// The mark that every chain ends in.
pub const ROOT_MARK: u32 = 0;

/// The context that carries no mark.
pub const EMPTY_CTXT: u32 = 0;

/// `swc_common::Globals`, the tables behind marks and syntax contexts. Nothing
/// is seen of its inside; what it holds goes by the two names below.
#[verifier::external_type_specification]
#[verifier::external_body]
pub struct ExGlobals(swc_common::Globals);

/// The context table of a `Globals`: entry `c` is the pair of the outermost
/// mark of context `c` and the context that the mark was applied to.
pub uninterp spec fn context_table(g: Globals) -> Seq<(u32, u32)>;

/// How many marks a `Globals` has handed out, the root mark included.
pub uninterp spec fn mark_count(g: Globals) -> nat;

/// `Globals::new`: the table holds the empty context alone, which carries the
/// root mark and leads to itself, and the root mark is the only mark.
#[verifier::external_body]
fn globals_new() -> (g: Globals)
    ensures
        context_table(g) == seq![(ROOT_MARK, EMPTY_CTXT)],
        mark_count(g) == 1,
{
    Globals::new()
}

/// `Mark::fresh` under the given globals: the new mark is the number of marks
/// handed out before, so it differs from each of them; the context table
/// stays as it was.
#[verifier::external_body]
fn mark_fresh(g: &mut Globals) -> (m: u32)
    requires
        mark_count(*old(g)) < u32::MAX,
    ensures
        m == mark_count(*old(g)),
        mark_count(*final(g)) == mark_count(*old(g)) + 1,
        context_table(*final(g)) == context_table(*old(g)),
{
    GLOBALS.set(g, || Mark::fresh(Mark::root()).as_u32())
}

/// `SyntaxContext::apply_mark` under the given globals: the result is a
/// context whose entry is `(mark, ctxt)`, either one that the table held
/// already or a new one at its end; no other entry changes.
#[verifier::external_body]
fn ctxt_apply_mark(g: &mut Globals, ctxt: u32, mark: u32) -> (r: u32)
    requires
        mark != ROOT_MARK,
        context_table(*old(g)).len() <= u32::MAX,
    ensures
        mark_count(*final(g)) == mark_count(*old(g)),
        r < context_table(*old(g)).len() ==> context_table(*final(g)) == context_table(*old(g))
            && context_table(*old(g))[r as int] == (mark, ctxt),
        r >= context_table(*old(g)).len() ==> r == context_table(*old(g)).len()
            && context_table(*final(g)) == context_table(*old(g)).push((mark, ctxt)),
{
    GLOBALS.set(g, || SyntaxContext::from_u32(ctxt).apply_mark(Mark::from_u32(mark)).as_u32())
}

/// `SyntaxContext::remove_mark` under the given globals: the mark that comes
/// off and the context that is left are the two halves of the context's entry.
#[verifier::external_body]
fn ctxt_remove_mark(g: &Globals, ctxt: u32) -> (r: (u32, u32))
    requires
        ctxt < context_table(*g).len(),
    ensures
        r == context_table(*g)[ctxt as int],
{
    let mut rest = SyntaxContext::from_u32(ctxt);
    let mark = GLOBALS.set(g, || rest.remove_mark());
    (mark.as_u32(), rest.as_u32())
}

/// The marks that the table hangs on context `c`, outermost first. The
/// empty context, and a context that the table does not hold, carry none.
pub open spec fn chain_of(table: Seq<(u32, u32)>, c: u32) -> Seq<u32>
    decreases c,
{
    if c == EMPTY_CTXT || c >= table.len() || table[c as int].1 >= c {
        Seq::empty()
    } else {
        seq![table[c as int].0] + chain_of(table, table[c as int].1)
    }
}

/// What holds of every table that this module has grown: it starts with the
/// empty context, and every other context carries a mark other than the root's
/// and leads to a context made before it.
pub open spec fn table_wf(table: Seq<(u32, u32)>) -> bool {
    &&& 1 <= table.len() <= u32::MAX
    &&& table[0] == (ROOT_MARK, EMPTY_CTXT)
    &&& forall|i: int| 1 <= i < table.len() ==> (#[trigger] table[i]).1 < i && table[i].0 != ROOT_MARK
}

/// A new entry changes the chain of no context that the table held before.
pub proof fn lemma_chain_push(table: Seq<(u32, u32)>, entry: (u32, u32), c: u32)
    requires
        table_wf(table),
        c < table.len(),
    ensures
        chain_of(table.push(entry), c) == chain_of(table, c),
    decreases c,
{
    if c != EMPTY_CTXT {
        assert(table.push(entry)[c as int] == table[c as int]);
        lemma_chain_push(table, entry, table[c as int].1);
    }
}

/// The hygiene state of one checker: the table of contexts and the mark that
/// says "this type was inferred, not written".
pub struct Hygiene {
    globals: Globals,
    /// How many contexts the table holds.
    contexts: u32,
    /// How many marks were handed out, the root mark included.
    marks: u32,
    implicit_type_mark: u32,
}

impl Hygiene {
    /// The table of contexts.
    pub closed spec fn table(&self) -> Seq<(u32, u32)> {
        context_table(self.globals)
    }

    /// How many marks were handed out, the root mark included. A mark is
    /// one of this table alone: another `Hygiene` counts its own.
    pub closed spec fn marks_made(&self) -> nat {
        mark_count(self.globals)
    }

    /// The mark that stands for "inferred".
    pub closed spec fn implicit_mark(&self) -> u32 {
        self.implicit_type_mark
    }

    /// The state is one that `new` and the methods can have left behind.
    pub closed spec fn wf(&self) -> bool {
        &&& table_wf(self.table())
        &&& self.contexts == self.table().len()
        &&& self.marks == self.marks_made()
        &&& self.implicit_type_mark != ROOT_MARK
        &&& self.implicit_type_mark < self.marks
    }

    /// The marks on a context, outermost first.
    pub open spec fn chain(&self, ctxt: u32) -> Seq<u32> {
        chain_of(self.table(), ctxt)
    }

    /// Whether the table holds the context.
    pub open spec fn spec_knows(&self, ctxt: u32) -> bool {
        ctxt < self.table().len()
    }

    /// Whether one more mark can be put on the span: the table holds its
    /// context and has room for another.
    pub open spec fn spec_can_mark(&self, span: Span) -> bool {
        self.spec_knows(span.ctxt) && self.table().len() < u32::MAX
    }

    /// Whether the span carries the mark for "inferred" anywhere in its chain.
    pub open spec fn implicit(&self, span: Span) -> bool {
        self.chain(span.ctxt).contains(self.implicit_mark())
    }

    /// A fresh table with a fresh mark for "inferred": no context carries a
    /// mark yet, and the root mark and the mark for "inferred" are the only
    /// marks.
    pub fn new() -> (h: Hygiene)
        ensures
            h.wf(),
            h.table() == seq![(ROOT_MARK, EMPTY_CTXT)],
            h.marks_made() == 2,
            h.implicit_mark() == 1,
            forall|c: u32| h.chain(c) == Seq::<u32>::empty(),
    {
        let mut globals = globals_new();
        let mark = mark_fresh(&mut globals);
        Hygiene { globals, contexts: 1, marks: 2, implicit_type_mark: mark }
    }

    #[verifier::when_used_as_spec(spec_knows)]
    pub fn knows(&self, ctxt: u32) -> (b: bool)
        requires
            self.wf(),
        ensures
            b == self.spec_knows(ctxt),
    {
        ctxt < self.contexts
    }

    #[verifier::when_used_as_spec(spec_can_mark)]
    pub fn can_mark(&self, span: Span) -> (b: bool)
        requires
            self.wf(),
        ensures
            b == self.spec_can_mark(span),
    {
        span.ctxt < self.contexts && self.contexts < u32::MAX
    }

    /// Hands out a mark that was never handed out before, so one that is on
    /// no position yet and is neither the root mark nor the mark for
    /// "inferred". There is none left once as many were handed out as a
    /// `u32` can count; nothing changes then.
    pub fn fresh_mark(&mut self) -> (m: Option<u32>)
        requires
            old(self).wf(),
        ensures
            final(self).wf(),
            final(self).table() == old(self).table(),
            final(self).implicit_mark() == old(self).implicit_mark(),
            m is Some <==> old(self).marks_made() < u32::MAX,
            m matches Some(v) ==> v == old(self).marks_made() && v != ROOT_MARK && v != old(
                self,
            ).implicit_mark() && final(self).marks_made() == old(self).marks_made() + 1,
            m is None ==> final(self).marks_made() == old(self).marks_made(),
    {
        if self.marks == u32::MAX {
            None
        } else {
            let v = mark_fresh(&mut self.globals);
            self.marks = self.marks + 1;
            Some(v)
        }
    }

    /// Puts a mark on a span. The region stays. The context of the result
    /// is one whose entry is the mark over the old context: one that the
    /// table held already, or one new entry at its end. So its chain is the
    /// old chain with the mark in front, and the chains of all contexts that
    /// the table held stay as they were.
    pub fn apply_mark(&mut self, span: Span, mark: u32) -> (r: Span)
        requires
            old(self).wf(),
            old(self).spec_can_mark(span),
            mark != ROOT_MARK,
        ensures
            final(self).wf(),
            final(self).implicit_mark() == old(self).implicit_mark(),
            final(self).marks_made() == old(self).marks_made(),
            r.lo == span.lo,
            r.hi == span.hi,
            final(self).table() == old(self).table() || final(self).table() == old(self).table().push(
                (mark, span.ctxt),
            ),
            final(self).spec_knows(r.ctxt),
            r.ctxt != EMPTY_CTXT,
            final(self).table()[r.ctxt as int] == (mark, span.ctxt),
            final(self).chain(r.ctxt) == seq![mark] + old(self).chain(span.ctxt),
            forall|c: u32|
                old(self).spec_knows(c) ==> final(self).spec_knows(c) && final(self).chain(c) == old(
                    self,
                ).chain(c),
    {
        let ghost before = self.table();
        let ghost entry = (mark, span.ctxt);
        let ctxt = ctxt_apply_mark(&mut self.globals, span.ctxt, mark);
        if ctxt >= self.contexts {
            self.contexts = self.contexts + 1;
            proof {
                assert(self.table() == before.push(entry));
                assert forall|c: u32| c < before.len() implies chain_of(self.table(), c) == chain_of(
                    before,
                    c,
                ) by {
                    lemma_chain_push(before, entry, c);
                }
                assert(self.table()[ctxt as int] == entry);
            }
        } else {
            proof {
                assert(before[ctxt as int] == entry);
                assert(ctxt != EMPTY_CTXT);
            }
        }
        span.with_ctxt(ctxt)
    }

    /// Puts the mark for "inferred" on a span, as `apply_mark` puts any.
    pub fn mark(&mut self, span: Span) -> (r: Span)
        requires
            old(self).wf(),
            old(self).spec_can_mark(span),
        ensures
            final(self).wf(),
            final(self).implicit_mark() == old(self).implicit_mark(),
            final(self).marks_made() == old(self).marks_made(),
            r.lo == span.lo,
            r.hi == span.hi,
            final(self).table() == old(self).table() || final(self).table() == old(self).table().push(
                (old(self).implicit_mark(), span.ctxt),
            ),
            final(self).spec_knows(r.ctxt),
            final(self).chain(r.ctxt) == seq![old(self).implicit_mark()] + old(self).chain(span.ctxt),
            forall|c: u32|
                old(self).spec_knows(c) ==> final(self).spec_knows(c) && final(self).chain(c) == old(
                    self,
                ).chain(c),
    {
        let mark = self.implicit_type_mark;
        self.apply_mark(span, mark)
    }

    /// Whether the mark for "inferred" is anywhere in the chain of the span,
    /// under whatever other marks. A span whose context the table does not
    /// hold carries no mark.
    pub fn is_marked(&self, span: Span) -> (b: bool)
        requires
            self.wf(),
        ensures
            b == self.implicit(span),
    {
        let mut ctxt = span.ctxt;
        if ctxt >= self.contexts {
            return false;
        }
        loop
            invariant
                self.wf(),
                ctxt < self.contexts,
                self.implicit(span) == self.chain(ctxt).contains(self.implicit_mark()),
            decreases ctxt,
        {
            let (mark, rest) = ctxt_remove_mark(&self.globals, ctxt);
            if mark == ROOT_MARK {
                return false;
            }
            if mark == self.implicit_type_mark {
                proof {
                    assert(self.chain(ctxt)[0] == mark);
                }
                return true;
            }
            proof {
                let tail = self.chain(rest);
                assert(self.chain(ctxt) == seq![mark] + tail);
                assert forall|m: u32| m != mark implies (seq![mark] + tail).contains(m)
                    == tail.contains(m) by {
                    if (seq![mark] + tail).contains(m) {
                        let k = choose|k: int| 0 <= k < (seq![mark] + tail).len() && (seq![mark] + tail)[k] == m;
                        assert(tail[k - 1] == m);
                    }
                    if tail.contains(m) {
                        let k = choose|k: int| 0 <= k < tail.len() && tail[k] == m;
                        assert((seq![mark] + tail)[k + 1] == m);
                    }
                }
            }
            ctxt = rest;
        }
    }
}

} // verus!
