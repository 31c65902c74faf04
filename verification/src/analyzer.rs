//! The analyzer: the state of one check pass, and the validation of
//! parameters and patterns against it.

use crate::ast::{AssignPat, Param, Pat, RestPat, SpecExpr, SpecPat, TypeAnn};
use crate::errors::Diagnostic;
use crate::hygiene::{Hygiene, EMPTY_CTXT, ROOT_MARK};
use crate::names::{names_of, pat_names};
use crate::rules::{
    assign_pat_diags, check_assign_pat, check_expr, check_pat, check_rest_pat, expr_diags,
    pat_diags, rest_pat_diags,
};
use crate::scope::{bindings_for, declare_conflict, Scope, VarDeclKind, VarInfo};
use crate::span::Span;
use crate::symbol::Sym;
use crate::ty::Type;
use vstd::prelude::*;

verus! {

/// What a pattern is validated for.
#[derive(Clone, Copy, Debug, PartialEq, Eq, Hash, Structural)]
pub enum PatMode {
    /// The target of an assignment expression.
    Assign,
    /// A variable declaration, a function parameter or the parameter of a
    /// catch clause.
    Decl,
}

/// The context of a validation. A nested validation works under a copy with
/// some fields changed; the caller's context is back when it returns.
#[derive(Clone, Copy, Debug, PartialEq, Eq, Hash, Structural)]
pub struct Ctx {
    pub pat_mode: PatMode,
    /// Whether validation stands inside the arguments of a call.
    pub in_argument: bool,
}

/// What validating a pattern gives.
#[derive(Debug, PartialEq, Eq)]
pub struct FnParam {
    pub span: Span,
    /// The pattern as validation left it.
    pub pat: Pat,
    pub required: bool,
    pub ty: Type,
}

pub struct SpecFnParam {
    pub span: Span,
    pub pat: SpecPat,
    pub required: bool,
    pub ty: Type,
}

impl View for FnParam {
    type V = SpecFnParam;

    open spec fn view(&self) -> SpecFnParam {
        SpecFnParam { span: self.span, pat: self.pat@, required: self.required, ty: self.ty }
    }
}

/// The type that a pattern resolves to under a context: what its annotation
/// resolved to, if it has one; else `unknown` inside the arguments of a call
/// and `any` elsewhere, standing at the pattern.
pub open spec fn resolved_type(p: SpecPat, ctx: Ctx) -> Result<Type, Diagnostic> {
    match p.type_ann() {
        Some(ann) => ann.resolved,
        None => Ok(
            if ctx.in_argument {
                Type::spec_unknown(p.span())
            } else {
                Type::spec_any(p.span())
            },
        ),
    }
}

/// The pattern as validation leaves it: a pattern without an attached type
/// gets the type it resolved to; one with an attached type stays as it is.
pub open spec fn typed(p: SpecPat, ctx: Ctx) -> SpecPat {
    match p.type_ann() {
        Some(_) => p,
        None => p.with_type_ann(Some(TypeAnn { span: p.span(), resolved: resolved_type(p, ctx) })),
    }
}

/// Whether validating the pattern registers its names: in declaration mode,
/// where its type resolves and the pattern can be declared with it.
pub open spec fn registers(p: SpecPat, ctx: Ctx) -> bool {
    &&& ctx.pat_mode is Decl
    &&& resolved_type(p, ctx) is Ok
    &&& declare_conflict(p, Some(resolved_type(p, ctx)->Ok_0)) is None
}

/// The bindings that validating the pattern adds to the scope.
pub open spec fn registered(p: SpecPat, ctx: Ctx) -> Seq<VarInfo> {
    if registers(p, ctx) {
        bindings_for(pat_names(p), VarDeclKind::Let, resolved_type(p, ctx)->Ok_0)
    } else {
        Seq::empty()
    }
}

/// What declaring the names of the pattern reports: in declaration mode,
/// where the type resolves, the reason why the pattern cannot be declared
/// with it, if there is one.
pub open spec fn declare_diags(p: SpecPat, ctx: Ctx) -> Seq<Diagnostic> {
    if ctx.pat_mode is Decl && resolved_type(p, ctx) is Ok && declare_conflict(
        p,
        Some(resolved_type(p, ctx)->Ok_0),
    ) is Some {
        seq![declare_conflict(p, Some(resolved_type(p, ctx)->Ok_0))->0]
    } else {
        Seq::empty()
    }
}

/// The names marked as being declared once the pattern is validated: in
/// declaration mode none of the pattern's names, whatever was marked before.
pub open spec fn declaring_after(before: Set<Sym>, p: SpecPat, ctx: Ctx) -> Set<Sym> {
    if ctx.pat_mode is Decl {
        before.difference(pat_names(p).to_set())
    } else {
        before
    }
}

/// What visiting a run of expressions reports.
pub open spec fn exprs_diags(es: Seq<SpecExpr>) -> Seq<Diagnostic>
    decreases es.len(),
{
    if es.len() == 0 {
        Seq::empty()
    } else {
        exprs_diags(es.drop_last()) + expr_diags(es.last())
    }
}

/// The context of a parameter's pattern: the caller's, in declaration mode.
pub open spec fn param_ctx(ctx: Ctx) -> Ctx {
    Ctx { pat_mode: PatMode::Decl, ..ctx }
}

pub struct Analyzer {
    hygiene: Hygiene,
    scope: Scope,
    errors: Vec<Diagnostic>,
    ctx: Ctx,
}

impl Analyzer {
    pub closed spec fn spec_hygiene(&self) -> Hygiene {
        self.hygiene
    }

    pub closed spec fn spec_scope(&self) -> Scope {
        self.scope
    }

    /// The diagnostics collected so far, oldest first.
    pub closed spec fn spec_errors(&self) -> Seq<Diagnostic> {
        self.errors@
    }

    pub closed spec fn spec_ctx(&self) -> Ctx {
        self.ctx
    }

    /// The analyzer is one that `new` and its methods can have left behind.
    pub open spec fn wf(&self) -> bool {
        self.spec_hygiene().wf()
    }

    /// An analyzer with an empty scope, no diagnostics and no marks.
    pub fn new(ctx: Ctx) -> (a: Analyzer)
        ensures
            a.wf(),
            a.spec_ctx() == ctx,
            a.spec_errors() == Seq::<Diagnostic>::empty(),
            a.spec_scope().vars() == Seq::<VarInfo>::empty(),
            a.spec_scope().declaring() == Set::<Sym>::empty(),
            a.spec_hygiene().table() == seq![(ROOT_MARK, EMPTY_CTXT)],
            a.spec_hygiene().marks_made() == 2,
            a.spec_hygiene().implicit_mark() == 1,
            forall|c: u32| a.spec_hygiene().chain(c) == Seq::<u32>::empty(),
    {
        Analyzer { hygiene: Hygiene::new(), scope: Scope::new(), errors: Vec::new(), ctx }
    }

    pub fn hygiene(&self) -> (h: &Hygiene)
        ensures
            *h == self.spec_hygiene(),
    {
        &self.hygiene
    }

    pub fn scope(&self) -> (s: &Scope)
        ensures
            *s == self.spec_scope(),
    {
        &self.scope
    }

    pub fn errors(&self) -> (e: &Vec<Diagnostic>)
        ensures
            e@ == self.spec_errors(),
    {
        &self.errors
    }

    #[verifier::when_used_as_spec(spec_ctx)]
    pub fn ctx(&self) -> (c: Ctx)
        ensures
            c == self.spec_ctx(),
    {
        self.ctx
    }

    /// Puts the analyzer under another context and gives back the one it
    /// was under.
    pub fn set_ctx(&mut self, ctx: Ctx) -> (before: Ctx)
        ensures
            before == old(self).spec_ctx(),
            final(self).spec_ctx() == ctx,
            final(self).spec_hygiene() == old(self).spec_hygiene(),
            final(self).spec_scope() == old(self).spec_scope(),
            final(self).spec_errors() == old(self).spec_errors(),
    {
        let before = self.ctx;
        self.ctx = ctx;
        before
    }

    /// Ends the pass: the diagnostics it collected and the scope it filled.
    pub fn finish(self) -> (r: (Vec<Diagnostic>, Scope))
        ensures
            r.0@ == self.spec_errors(),
            r.1 == self.spec_scope(),
    {
        (self.errors, self.scope)
    }

    /// Marks each of `names` as being declared.
    pub fn extend_declaring(&mut self, names: &Vec<Sym>)
        ensures
            final(self).spec_scope().declaring() == old(self).spec_scope().declaring().union(
                names@.to_set(),
            ),
            final(self).spec_scope().vars() == old(self).spec_scope().vars(),
            final(self).spec_errors() == old(self).spec_errors(),
            final(self).spec_hygiene() == old(self).spec_hygiene(),
            final(self).spec_ctx() == old(self).spec_ctx(),
    {
        self.scope.extend_declaring(names);
    }

    /// Takes the mark off each of `names`.
    pub fn remove_declaring(&mut self, names: &Vec<Sym>)
        ensures
            final(self).spec_scope().declaring() == old(self).spec_scope().declaring().difference(
                names@.to_set(),
            ),
            final(self).spec_scope().vars() == old(self).spec_scope().vars(),
            final(self).spec_errors() == old(self).spec_errors(),
            final(self).spec_hygiene() == old(self).spec_hygiene(),
            final(self).spec_ctx() == old(self).spec_ctx(),
    {
        self.scope.remove_declaring(names);
    }

    /// Appends a diagnostic to those collected.
    pub fn report(&mut self, d: Diagnostic)
        ensures
            final(self).spec_errors() == old(self).spec_errors().push(d),
            final(self).spec_hygiene() == old(self).spec_hygiene(),
            final(self).spec_scope() == old(self).spec_scope(),
            final(self).spec_ctx() == old(self).spec_ctx(),
    {
        self.errors.push(d);
    }

    /// Stamps a type as inferred: its position gets the mark for "inferred"
    /// in front of the marks it carries. The region of the position stays,
    /// and so do the marks on every other position.
    pub fn mark_as_implicit(&mut self, ty: &mut Type)
        requires
            old(self).wf(),
            old(self).spec_hygiene().spec_can_mark(old(ty).spec_span()),
        ensures
            final(self).wf(),
            final(self).spec_scope() == old(self).spec_scope(),
            final(self).spec_errors() == old(self).spec_errors(),
            final(self).spec_ctx() == old(self).spec_ctx(),
            final(self).spec_hygiene().implicit_mark() == old(self).spec_hygiene().implicit_mark(),
            *final(ty) == old(ty).respanned(final(ty).spec_span()),
            final(ty).spec_span().lo == old(ty).spec_span().lo,
            final(ty).spec_span().hi == old(ty).spec_span().hi,
            final(self).spec_hygiene().spec_knows(final(ty).spec_span().ctxt),
            final(self).spec_hygiene().chain(final(ty).spec_span().ctxt) == seq![
                old(self).spec_hygiene().implicit_mark(),
            ] + old(self).spec_hygiene().chain(old(ty).spec_span().ctxt),
            final(self).spec_hygiene().implicit(final(ty).spec_span()),
            final(self).spec_hygiene().marks_made() == old(self).spec_hygiene().marks_made(),
            final(self).spec_hygiene().table() == old(self).spec_hygiene().table() || final(self).spec_hygiene().table() == old(self).spec_hygiene().table().push(
                (old(self).spec_hygiene().implicit_mark(), old(ty).spec_span().ctxt),
            ),
            old(self).spec_hygiene().table().len() <= final(self).spec_hygiene().table().len() <= old(
                self,
            ).spec_hygiene().table().len() + 1,
            forall|c: u32|
                old(self).spec_hygiene().spec_knows(c) ==> final(self).spec_hygiene().spec_knows(c)
                    && final(self).spec_hygiene().chain(c) == old(self).spec_hygiene().chain(c),
    {
        let span = ty.span();
        let span = self.hygiene.mark(span);
        ty.respan(span);
        proof {
            let chain = self.hygiene.chain(span.ctxt);
            assert(chain[0] == self.hygiene.implicit_mark());
        }
    }

    /// Stamps a type as inferred where that can be done, and says whether it
    /// was done. It cannot where the position's context is not one that this
    /// analyzer made, or where the table of contexts is full; the type and
    /// the analyzer then stay as they were.
    pub fn try_mark_as_implicit(&mut self, ty: &mut Type) -> (marked: bool)
        requires
            old(self).wf(),
        ensures
            final(self).wf(),
            marked == old(self).spec_hygiene().spec_can_mark(old(ty).spec_span()),
            !marked ==> *final(ty) == *old(ty) && *final(self) == *old(self),
            marked ==> {
                &&& final(self).spec_scope() == old(self).spec_scope()
                &&& final(self).spec_errors() == old(self).spec_errors()
                &&& final(self).spec_ctx() == old(self).spec_ctx()
                &&& *final(ty) == old(ty).respanned(final(ty).spec_span())
                &&& final(ty).spec_span().lo == old(ty).spec_span().lo
                &&& final(ty).spec_span().hi == old(ty).spec_span().hi
                &&& final(self).spec_hygiene().chain(final(ty).spec_span().ctxt) == seq![
                    old(self).spec_hygiene().implicit_mark(),
                ] + old(self).spec_hygiene().chain(old(ty).spec_span().ctxt)
                &&& final(self).spec_hygiene().implicit(final(ty).spec_span())
                &&& final(self).spec_hygiene().implicit_mark() == old(self).spec_hygiene().implicit_mark()
                &&& final(self).spec_hygiene().marks_made() == old(self).spec_hygiene().marks_made()
                &&& old(self).spec_hygiene().table().len() <= final(self).spec_hygiene().table().len()
                    <= old(self).spec_hygiene().table().len() + 1
                &&& forall|c: u32|
                    old(self).spec_hygiene().spec_knows(c) ==> final(self).spec_hygiene().spec_knows(c)
                        && final(self).spec_hygiene().chain(c) == old(self).spec_hygiene().chain(c)
            },
    {
        if self.hygiene.can_mark(ty.span()) {
            self.mark_as_implicit(ty);
            true
        } else {
            false
        }
    }

    /// Hands out a mark that is on no position yet and is neither the root
    /// mark nor the mark for "inferred"; none where no mark is left to hand
    /// out. Nothing else changes.
    pub fn fresh_mark(&mut self) -> (m: Option<u32>)
        requires
            old(self).wf(),
        ensures
            final(self).wf(),
            final(self).spec_scope() == old(self).spec_scope(),
            final(self).spec_errors() == old(self).spec_errors(),
            final(self).spec_ctx() == old(self).spec_ctx(),
            final(self).spec_hygiene().table() == old(self).spec_hygiene().table(),
            final(self).spec_hygiene().implicit_mark() == old(self).spec_hygiene().implicit_mark(),
            m is Some <==> old(self).spec_hygiene().marks_made() < u32::MAX,
            m matches Some(v) ==> v == old(self).spec_hygiene().marks_made() && v != ROOT_MARK && v
                != old(self).spec_hygiene().implicit_mark() && final(self).spec_hygiene().marks_made()
                == old(self).spec_hygiene().marks_made() + 1,
            m is None ==> final(self).spec_hygiene().marks_made() == old(
                self,
            ).spec_hygiene().marks_made(),
    {
        self.hygiene.fresh_mark()
    }

    /// Puts a mark of the caller's on a type where that can be done, and
    /// says whether it was done: the mark goes in front of the marks that the
    /// type's position carries, and the marks below it stay. It cannot be
    /// done for the root mark, for a position whose context this analyzer
    /// never made, or where the table of contexts is full; the type and the
    /// analyzer then stay as they were.
    pub fn try_mark_with(&mut self, ty: &mut Type, mark: u32) -> (marked: bool)
        requires
            old(self).wf(),
        ensures
            final(self).wf(),
            marked == (mark != ROOT_MARK && old(self).spec_hygiene().spec_can_mark(
                old(ty).spec_span(),
            )),
            !marked ==> *final(ty) == *old(ty) && *final(self) == *old(self),
            marked ==> {
                &&& final(self).spec_scope() == old(self).spec_scope()
                &&& final(self).spec_errors() == old(self).spec_errors()
                &&& final(self).spec_ctx() == old(self).spec_ctx()
                &&& final(self).spec_hygiene().implicit_mark() == old(self).spec_hygiene().implicit_mark()
                &&& final(self).spec_hygiene().marks_made() == old(self).spec_hygiene().marks_made()
                &&& *final(ty) == old(ty).respanned(final(ty).spec_span())
                &&& final(ty).spec_span().lo == old(ty).spec_span().lo
                &&& final(ty).spec_span().hi == old(ty).spec_span().hi
                &&& final(self).spec_hygiene().spec_knows(final(ty).spec_span().ctxt)
                &&& final(self).spec_hygiene().chain(final(ty).spec_span().ctxt) == seq![mark] + old(
                    self,
                ).spec_hygiene().chain(old(ty).spec_span().ctxt)
                &&& old(self).spec_hygiene().table().len() <= final(self).spec_hygiene().table().len()
                    <= old(self).spec_hygiene().table().len() + 1
                &&& forall|c: u32|
                    old(self).spec_hygiene().spec_knows(c) ==> final(self).spec_hygiene().spec_knows(c)
                        && final(self).spec_hygiene().chain(c) == old(self).spec_hygiene().chain(c)
            },
    {
        if mark != ROOT_MARK && self.hygiene.can_mark(ty.span()) {
            let span = self.hygiene.apply_mark(ty.span(), mark);
            ty.respan(span);
            true
        } else {
            false
        }
    }

    /// Whether the type was stamped as inferred.
    pub fn is_implicitly_typed(&self, ty: &Type) -> (b: bool)
        requires
            self.wf(),
        ensures
            b == self.spec_hygiene().implicit(ty.spec_span()),
    {
        self.is_implicitly_typed_span(ty.span())
    }

    /// Whether the mark for "inferred" is anywhere among the marks on the
    /// position.
    pub fn is_implicitly_typed_span(&self, span: Span) -> (b: bool)
        requires
            self.wf(),
        ensures
            b == self.spec_hygiene().implicit(span),
    {
        self.hygiene.is_marked(span)
    }

    /// Validates a parameter: its decorators are visited first, whatever the
    /// mode; then its pattern is validated in declaration mode. The caller's
    /// context is back on return.
    pub fn validate_param(&mut self, node: &mut Param) -> (r: Result<FnParam, Diagnostic>)
        ensures
            final(self).spec_hygiene() == old(self).spec_hygiene(),
            final(self).spec_ctx() == old(self).spec_ctx(),
            final(node).span == old(node).span,
            final(node)@.decorators == old(node)@.decorators,
            final(self).spec_errors() == old(self).spec_errors() + exprs_diags(old(node)@.decorators)
                + pat_diags(old(node)@.pat) + declare_diags(
                old(node)@.pat,
                param_ctx(old(self).spec_ctx()),
            ),
            final(self).spec_scope().declaring() == declaring_after(
                old(self).spec_scope().declaring(),
                old(node)@.pat,
                param_ctx(old(self).spec_ctx()),
            ),
            final(self).spec_scope().vars() == old(self).spec_scope().vars() + registered(
                old(node)@.pat,
                param_ctx(old(self).spec_ctx()),
            ),
            match r {
                Ok(descriptor) => {
                    &&& resolved_type(old(node)@.pat, param_ctx(old(self).spec_ctx())) == Ok::<
                        Type,
                        Diagnostic,
                    >(descriptor.ty)
                    &&& final(node)@.pat == typed(old(node)@.pat, param_ctx(old(self).spec_ctx()))
                    &&& descriptor@.pat == final(node)@.pat
                    &&& descriptor.span == old(node)@.pat.span()
                    &&& descriptor.required == old(node)@.pat.required()
                },
                Err(e) => {
                    &&& resolved_type(old(node)@.pat, param_ctx(old(self).spec_ctx())) == Err::<
                        Type,
                        Diagnostic,
                    >(e)
                    &&& final(node)@.pat == old(node)@.pat
                },
            },
    {
        let ghost decorators = node@.decorators;
        let mut i: usize = 0;
        while i < node.decorators.len()
            invariant
                i <= node.decorators.len(),
                *node == *old(node),
                decorators == node@.decorators,
                self.hygiene == old(self).hygiene,
                self.scope == old(self).scope,
                self.ctx == old(self).ctx,
                self.errors@ == old(self).errors@ + exprs_diags(decorators.take(i as int)),
            decreases node.decorators.len() - i,
        {
            proof {
                assert(decorators.take(i + 1).drop_last() == decorators.take(i as int));
                assert(decorators.take(i + 1).last() == node.decorators@[i as int]@);
            }
            check_expr(&node.decorators[i], &mut self.errors);
            i += 1;
        }
        proof {
            assert(decorators.take(node.decorators.len() as int) == decorators);
        }
        let ctx = Ctx { pat_mode: PatMode::Decl, in_argument: self.ctx.in_argument };
        let before = self.set_ctx(ctx);
        let r = self.validate_pat(&mut node.pat);
        self.set_ctx(before);
        r
    }

    /// Validates a pattern. Every part of it is held to the destructuring
    /// rules. In declaration mode its names are marked as being declared
    /// while that is done, registered with the type that the pattern
    /// resolves to, and unmarked again, whatever happened in between; a
    /// failure to register is reported and does not fail the validation. A
    /// pattern without an attached type gets the resolved type attached.
    ///
    /// Validation fails where the pattern's annotation failed to resolve; the
    /// pattern then stays as it was.
    pub fn validate_pat(&mut self, p: &mut Pat) -> (r: Result<FnParam, Diagnostic>)
        ensures
            final(self).spec_hygiene() == old(self).spec_hygiene(),
            final(self).spec_ctx() == old(self).spec_ctx(),
            final(self).spec_errors() == old(self).spec_errors() + pat_diags(old(p)@)
                + declare_diags(old(p)@, old(self).spec_ctx()),
            final(self).spec_scope().declaring() == declaring_after(
                old(self).spec_scope().declaring(),
                old(p)@,
                old(self).spec_ctx(),
            ),
            final(self).spec_scope().vars() == old(self).spec_scope().vars() + registered(
                old(p)@,
                old(self).spec_ctx(),
            ),
            match r {
                Ok(descriptor) => {
                    &&& resolved_type(old(p)@, old(self).spec_ctx()) == Ok::<Type, Diagnostic>(
                        descriptor.ty,
                    )
                    &&& final(p)@ == typed(old(p)@, old(self).spec_ctx())
                    &&& descriptor@.pat == final(p)@
                    &&& descriptor.span == old(p)@.span()
                    &&& descriptor.required == old(p)@.required()
                },
                Err(e) => {
                    &&& resolved_type(old(p)@, old(self).spec_ctx()) == Err::<Type, Diagnostic>(e)
                    &&& final(p)@ == old(p)@
                },
            },
    {
        let names = names_of(p);
        let decl = match self.ctx.pat_mode {
            PatMode::Decl => true,
            PatMode::Assign => false,
        };
        if decl {
            self.scope.extend_declaring(&names);
        }
        check_pat(p, &mut self.errors);
        let span = p.span();
        let annotated: Result<Option<Type>, Diagnostic> = match p.get_ty() {
            None => Ok(None),
            Some(ann) => match &ann.resolved {
                Ok(t) => Ok(Some(t.clone())),
                Err(d) => Err(*d),
            },
        };
        match annotated {
            Err(e) => {
                if decl {
                    self.scope.remove_declaring(&names);
                    proof {
                        let marked = old(self).scope.declaring();
                        let mine = names@.to_set();
                        assert(marked.union(mine).difference(mine) =~= marked.difference(mine));
                    }
                }
                Err(e)
            },
            Ok(annotation) => {
                let attached = annotation.is_some();
                let ty = match annotation {
                    Some(t) => t,
                    None => if self.ctx.in_argument {
                        Type::unknown(span)
                    } else {
                        Type::any(span)
                    },
                };
                if decl {
                    match self.scope.declare_vars_with_ty(VarDeclKind::Let, p, Some(ty.clone())) {
                        Ok(()) => {},
                        Err(e) => {
                            self.errors.push(e);
                        },
                    }
                    self.scope.remove_declaring(&names);
                    proof {
                        let marked = old(self).scope.declaring();
                        let mine = names@.to_set();
                        assert(marked.union(mine).difference(mine) =~= marked.difference(mine));
                    }
                }
                if !attached {
                    p.set_ty(Some(TypeAnn { span: ty.span(), resolved: Ok(ty.clone()) }));
                }
                let required = p.required();
                let pat = p.clone();
                Ok(FnParam { span, pat, required, ty })
            },
        }
    }

    /// Validates a rest element: its argument first, then the rest rule.
    /// Whatever is found is reported; the validation itself never fails.
    pub fn validate_rest_pat(&mut self, p: &mut RestPat) -> (r: Result<(), Diagnostic>)
        ensures
            r is Ok,
            *final(p) == *old(p),
            final(self).spec_errors() == old(self).spec_errors() + rest_pat_diags(old(p)@),
            final(self).spec_hygiene() == old(self).spec_hygiene(),
            final(self).spec_scope() == old(self).spec_scope(),
            final(self).spec_ctx() == old(self).spec_ctx(),
    {
        check_rest_pat(p, &mut self.errors);
        Ok(())
    }

    /// Validates `left = right`: the left side first, then the default, then
    /// the excess-property rule. Whatever is found is reported; the
    /// validation itself never fails.
    pub fn validate_assign_pat(&mut self, p: &mut AssignPat) -> (r: Result<(), Diagnostic>)
        ensures
            r is Ok,
            *final(p) == *old(p),
            final(self).spec_errors() == old(self).spec_errors() + assign_pat_diags(old(p)@),
            final(self).spec_hygiene() == old(self).spec_hygiene(),
            final(self).spec_scope() == old(self).spec_scope(),
            final(self).spec_ctx() == old(self).spec_ctx(),
    {
        check_assign_pat(p, &mut self.errors);
        Ok(())
    }
}

} // verus!
