//! What holds of validation whatever the pattern: statements that tie the
//! contracts of several functions together, each proved from the definitions
//! that those contracts use.

use crate::analyzer::{
    declare_diags, declaring_after, param_ctx, registered, registers, resolved_type, typed, Ctx,
};
use crate::ast::{SpecPat, SpecRestPat};
use crate::errors::{Diagnostic, DiagnosticKind};
use crate::hygiene::{chain_of, lemma_chain_push, table_wf, ROOT_MARK};
use crate::names::pat_names;
use crate::rules::{pat_diags, rest_diags, rest_type_diags};
use crate::scope::{bindings_for, VarDeclKind};
use crate::span::Span;
use crate::symbol::Sym;
use crate::ty::Type;
use crate::ast::SpecParam;
use crate::module::{SpecStmt, SpecVarDeclarator};
use crate::visit::{
    after_declarators, after_params, after_pat, after_stmt, after_stmts, assign_ctx,
    failure_diags, Pass,
};
use vstd::prelude::*;

verus! {

/// In declaration mode no name that the pattern binds is left marked as being
/// declared once the pattern is validated, whatever was marked before and
/// whether or not the validation succeeded.
pub proof fn law_cleanup(before: Set<Sym>, p: SpecPat, ctx: Ctx, name: Sym)
    requires
        ctx.pat_mode is Decl,
        pat_names(p).contains(name),
    ensures
        !declaring_after(before, p, ctx).contains(name),
        !after_pat(Pass { errors: Seq::empty(), vars: Seq::empty(), declaring: before }, p, ctx).declaring.contains(
            name,
        ),
{
}

/// Validation marks no name that was not marked before.
pub proof fn law_declaring_never_grows(before: Set<Sym>, p: SpecPat, ctx: Ctx)
    ensures
        declaring_after(before, p, ctx).subset_of(before),
{
}

/// A pattern that carries an attached type keeps it: validating it changes
/// nothing in the pattern. So validating a second time changes nothing
/// either, under whatever context.
pub proof fn law_attached_type_stays(p: SpecPat, ctx: Ctx, again: Ctx)
    ensures
        p.type_ann() is Some ==> typed(p, ctx) == p,
        typed(p, ctx).type_ann() is Some,
        typed(typed(p, ctx), again) == typed(p, ctx),
{
}

/// A pattern is not required exactly when it is an identifier written as
/// optional; an object, array or rest pattern and a pattern with a default
/// are all required.
pub proof fn law_required_flag(p: SpecPat)
    ensures
        !p.required() <==> (p matches SpecPat::Ident(i) && i.optional),
        p is Object || p is Array || p is Rest || p is Assign ==> p.required(),
{
}

/// Attaching a type changes neither what a pattern binds nor whether it is
/// required.
pub proof fn law_typed_keeps_shape(p: SpecPat, ctx: Ctx)
    ensures
        pat_names(typed(p, ctx)) == pat_names(p),
        typed(p, ctx).required() == p.required(),
        typed(p, ctx).span() == p.span(),
{
}

/// A rest element whose type is an array type or `any` is reported nothing;
/// one of any other type is reported once, at its three dots.
pub proof fn law_rest_shape(dot3_token: Span, ty: Type)
    ensures
        ty.spec_is_array_or_any() ==> rest_type_diags(dot3_token, Ok(ty)) == Seq::<Diagnostic>::empty(),
        !ty.spec_is_array_or_any() ==> rest_type_diags(dot3_token, Ok(ty)) == seq![
            Diagnostic { kind: DiagnosticKind::TS2370, span: dot3_token },
        ],
        ty is Array ==> ty.spec_is_array_or_any(),
        ty.spec_is_any() ==> ty.spec_is_array_or_any(),
        ty matches Type::Keyword { kind, .. } && !ty.spec_is_any() ==> !ty.spec_is_array_or_any(),
{
}

/// The two sources of a rest element's type never both speak: an annotation
/// decides alone where there is one, whatever the default; the default
/// decides only where there is no annotation. Either way the rule reports at
/// most once.
pub proof fn law_rest_sources_exclusive(r: SpecRestPat)
    ensures
        r.type_ann is Some ==> rest_diags(r) == rest_type_diags(r.dot3_token, r.type_ann->0.resolved),
        r.type_ann is None ==> (*r.arg matches SpecPat::Assign(a) ==> rest_diags(r) == rest_type_diags(
            r.dot3_token,
            a.right.ty,
        )),
        r.type_ann is None && !(*r.arg is Assign) ==> rest_diags(r) == Seq::<Diagnostic>::empty(),
        rest_diags(r).len() <= 1,
{
}

/// The mode decides about the scope and about nothing else: in assignment
/// mode no name is registered and no mark is touched, in declaration mode
/// the names are registered wherever they can be; the parts of the pattern
/// are held to the same rules in both.
pub proof fn law_mode_sensitivity(st: Pass, p: SpecPat, ctx: Ctx)
    ensures
        after_pat(st, p, assign_ctx(ctx)).vars == st.vars,
        after_pat(st, p, assign_ctx(ctx)).declaring == st.declaring,
        after_pat(st, p, assign_ctx(ctx)).errors == st.errors + pat_diags(p) + failure_diags(
            p,
            assign_ctx(ctx),
        ),
        registers(p, param_ctx(ctx)) ==> after_pat(st, p, param_ctx(ctx)).vars == st.vars
            + bindings_for(pat_names(p), VarDeclKind::Let, resolved_type(p, param_ctx(ctx))->Ok_0),
        after_pat(st, p, param_ctx(ctx)).errors == st.errors + pat_diags(p) + declare_diags(
            p,
            param_ctx(ctx),
        ) + failure_diags(p, param_ctx(ctx)),
        resolved_type(p, assign_ctx(ctx)) == resolved_type(p, param_ctx(ctx)),
        failure_diags(p, assign_ctx(ctx)) == failure_diags(p, param_ctx(ctx)),
{
    assert(after_pat(st, p, assign_ctx(ctx)).vars =~= st.vars);
    assert(after_pat(st, p, assign_ctx(ctx)).errors =~= st.errors + pat_diags(p) + failure_diags(
        p,
        assign_ctx(ctx),
    ));
}

/// Visiting one run of statements after another is visiting the two as one
/// run: nothing that a statement reports or fails on keeps a later one from
/// being visited.
pub proof fn law_walk_goes_on(st: Pass, first: Seq<SpecStmt>, second: Seq<SpecStmt>, ctx: Ctx)
    ensures
        after_stmts(st, first + second, ctx) == after_stmts(after_stmts(st, first, ctx), second, ctx),
    decreases second.len(),
{
    if second.len() == 0 {
        assert(first + second == first);
    } else {
        assert((first + second).drop_last() == first + second.drop_last());
        assert((first + second).last() == second.last());
        law_walk_goes_on(st, first, second.drop_last(), ctx);
    }
}

/// The marks on a position are those that were put on it: one more mark on
/// one position changes the marks of no context that the table held.
pub proof fn law_marks_stay(table: Seq<(u32, u32)>, mark: u32, ctxt: u32, c: u32)
    requires
        table_wf(table),
        table.len() < u32::MAX,
        mark != ROOT_MARK,
        ctxt < table.len(),
        c < table.len(),
    ensures
        chain_of(table.push((mark, ctxt)), c) == chain_of(table, c),
        chain_of(table.push((mark, ctxt)), table.len() as u32) == seq![mark] + chain_of(table, ctxt),
        table_wf(table.push((mark, ctxt))),
{
    lemma_chain_push(table, (mark, ctxt), c);
    lemma_chain_push(table, (mark, ctxt), ctxt);
    assert(table.push((mark, ctxt))[table.len() as int] == (mark, ctxt));
}

/// A mark is found under whatever marks lie above it: a chain with another
/// mark put in front holds the mark for "inferred" exactly when the chain
/// below holds it, and a chain with that mark itself in front holds it.
pub proof fn law_mark_found_under_others(below: Seq<u32>, above: u32, implicit: u32)
    ensures
        above != implicit ==> (seq![above] + below).contains(implicit) == below.contains(implicit),
        (seq![implicit] + below).contains(implicit),
        !Seq::<u32>::empty().contains(implicit),
{
    let chain = seq![above] + below;
    if above != implicit {
        if chain.contains(implicit) {
            let k = choose|k: int| 0 <= k < chain.len() && chain[k] == implicit;
            assert(below[k - 1] == implicit);
        }
        if below.contains(implicit) {
            let k = choose|k: int| 0 <= k < below.len() && below[k] == implicit;
            assert(chain[k + 1] == implicit);
        }
    }
    assert((seq![implicit] + below)[0] == implicit);
}

/// What one sequence starts with, a longer one that starts with the longer
/// one starts with too.
proof fn lemma_prefix_trans(a: Seq<Diagnostic>, b: Seq<Diagnostic>, c: Seq<Diagnostic>)
    requires
        a.is_prefix_of(b),
        b.is_prefix_of(c),
    ensures
        a.is_prefix_of(c),
{
    assert(a =~= c.subrange(0, a.len() as int));
}

/// Visiting parameters only adds diagnostics.
proof fn lemma_params_only_add(st: Pass, ps: Seq<SpecParam>, ctx: Ctx)
    ensures
        st.errors.is_prefix_of(after_params(st, ps, ctx).errors),
    decreases ps.len(),
{
    if ps.len() != 0 {
        let mid = after_params(st, ps.drop_last(), ctx);
        lemma_params_only_add(st, ps.drop_last(), ctx);
        assert(mid.errors.is_prefix_of(after_params(st, ps, ctx).errors));
        lemma_prefix_trans(st.errors, mid.errors, after_params(st, ps, ctx).errors);
    }
}

/// Visiting declarators only adds diagnostics.
proof fn lemma_declarators_only_add(st: Pass, ds: Seq<SpecVarDeclarator>, ctx: Ctx)
    ensures
        st.errors.is_prefix_of(after_declarators(st, ds, ctx).errors),
    decreases ds.len(),
{
    if ds.len() != 0 {
        let mid = after_declarators(st, ds.drop_last(), ctx);
        lemma_declarators_only_add(st, ds.drop_last(), ctx);
        assert(mid.errors.is_prefix_of(after_declarators(st, ds, ctx).errors));
        lemma_prefix_trans(st.errors, mid.errors, after_declarators(st, ds, ctx).errors);
    }
}

/// A diagnostic, once reported, stays where it is: whatever a statement
/// holds, the diagnostics after visiting it start with those from before.
pub proof fn law_diagnostics_only_grow(st: Pass, s: SpecStmt, ctx: Ctx)
    ensures
        st.errors.is_prefix_of(after_stmt(st, s, ctx).errors),
    decreases s, 0nat,
{
    match s {
        SpecStmt::Expr(_) => {},
        SpecStmt::Assign(a) => {},
        SpecStmt::Decl(d) => {
            lemma_declarators_only_add(st, d.decls, ctx);
        },
        SpecStmt::Fn(f) => {
            let mid = after_params(st, f.params, ctx);
            lemma_params_only_add(st, f.params, ctx);
            law_diagnostics_only_grow_in_run(mid, f.body, ctx);
            lemma_prefix_trans(st.errors, mid.errors, after_stmt(st, s, ctx).errors);
        },
        SpecStmt::Block(b) => {
            law_diagnostics_only_grow_in_run(st, b, ctx);
        },
    }
}

/// The same of a run of statements.
pub proof fn law_diagnostics_only_grow_in_run(st: Pass, ss: Seq<SpecStmt>, ctx: Ctx)
    ensures
        st.errors.is_prefix_of(after_stmts(st, ss, ctx).errors),
    decreases ss, 1nat,
{
    if ss.len() != 0 {
        let mid = after_stmts(st, ss.drop_last(), ctx);
        law_diagnostics_only_grow_in_run(st, ss.drop_last(), ctx);
        law_diagnostics_only_grow(mid, ss.last(), ctx);
        lemma_prefix_trans(st.errors, mid.errors, after_stmts(st, ss, ctx).errors);
    }
}

} // verus!
