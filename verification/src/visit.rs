//! The walk over a file. Every node is visited once, children in source
//! order; a validation that fails is reported and the walk goes on.

use crate::analyzer::{
    declare_diags, declaring_after, exprs_diags, param_ctx, registered, resolved_type, typed,
    Analyzer, Ctx, PatMode,
};
use crate::ast::{Expr, Param, Pat, SpecExpr, SpecParam, SpecPat};
use crate::errors::Diagnostic;
use crate::module::{
    stmt_view, stmts_view, AssignStmt, Function, Module, SpecAssignStmt,
    SpecFunction, SpecModule, SpecStmt, SpecVarDecl, SpecVarDeclarator, Stmt, VarDecl,
    VarDeclarator,
};
use crate::rules::{expr_diags, pat_diags};
use crate::scope::{Scope, VarInfo};
use crate::symbol::Sym;
use vstd::prelude::*;

verus! {

/// What a check pass has gathered: the diagnostics, the bindings, and the
/// names that are being declared.
#[verifier::ext_equal]
pub struct Pass {
    pub errors: Seq<Diagnostic>,
    pub vars: Seq<VarInfo>,
    pub declaring: Set<Sym>,
}

/// The context of an assignment target: the caller's, in assignment mode.
pub open spec fn assign_ctx(ctx: Ctx) -> Ctx {
    Ctx { pat_mode: PatMode::Assign, ..ctx }
}

/// What a failed validation of the pattern reports: the diagnostic that
/// resolving its annotation raised.
pub open spec fn failure_diags(p: SpecPat, ctx: Ctx) -> Seq<Diagnostic> {
    match resolved_type(p, ctx) {
        Ok(_) => Seq::empty(),
        Err(e) => seq![e],
    }
}

/// The pass after an expression was visited.
pub open spec fn after_expr(st: Pass, e: SpecExpr) -> Pass {
    Pass { errors: st.errors + expr_diags(e), ..st }
}

/// The pass after a run of expressions was visited.
pub open spec fn after_exprs(st: Pass, es: Seq<SpecExpr>) -> Pass {
    Pass { errors: st.errors + exprs_diags(es), ..st }
}

/// The pass after a pattern was visited under a context: what its parts
/// report, what declaring it reports and what its failure reports come on
/// top of the diagnostics; its names are registered if they can be, and none
/// of them is left marked where the mode is declaration.
pub open spec fn after_pat(st: Pass, p: SpecPat, ctx: Ctx) -> Pass {
    Pass {
        errors: st.errors + pat_diags(p) + declare_diags(p, ctx) + failure_diags(p, ctx),
        vars: st.vars + registered(p, ctx),
        declaring: declaring_after(st.declaring, p, ctx),
    }
}

/// The pass after a parameter was visited: decorators first, then the
/// pattern in declaration mode.
pub open spec fn after_param(st: Pass, p: SpecParam, ctx: Ctx) -> Pass {
    after_pat(after_exprs(st, p.decorators), p.pat, param_ctx(ctx))
}

pub open spec fn after_params(st: Pass, ps: Seq<SpecParam>, ctx: Ctx) -> Pass
    decreases ps.len(),
{
    if ps.len() == 0 {
        st
    } else {
        after_param(after_params(st, ps.drop_last(), ctx), ps.last(), ctx)
    }
}

/// The pass after a declarator was visited: the initializer first, then the
/// pattern in declaration mode.
pub open spec fn after_declarator(st: Pass, d: SpecVarDeclarator, ctx: Ctx) -> Pass {
    let st = match d.init {
        Some(e) => after_expr(st, e),
        None => st,
    };
    after_pat(st, d.name, param_ctx(ctx))
}

pub open spec fn after_declarators(st: Pass, ds: Seq<SpecVarDeclarator>, ctx: Ctx) -> Pass
    decreases ds.len(),
{
    if ds.len() == 0 {
        st
    } else {
        after_declarator(after_declarators(st, ds.drop_last(), ctx), ds.last(), ctx)
    }
}

/// The pass after an assignment was visited: the target in assignment mode,
/// then the value.
pub open spec fn after_assign(st: Pass, a: SpecAssignStmt, ctx: Ctx) -> Pass {
    after_expr(after_pat(st, a.left, assign_ctx(ctx)), a.right)
}

/// The pass after a statement was visited.
pub open spec fn after_stmt(st: Pass, s: SpecStmt, ctx: Ctx) -> Pass
    decreases s, 0nat,
{
    match s {
        SpecStmt::Expr(e) => after_expr(st, e),
        SpecStmt::Assign(a) => after_assign(st, a, ctx),
        SpecStmt::Decl(d) => after_declarators(st, d.decls, ctx),
        SpecStmt::Fn(f) => after_stmts(after_params(st, f.params, ctx), f.body, ctx),
        SpecStmt::Block(b) => after_stmts(st, b, ctx),
    }
}

/// The pass after a run of statements was visited, one after the other.
pub open spec fn after_stmts(st: Pass, ss: Seq<SpecStmt>, ctx: Ctx) -> Pass
    decreases ss, 1nat,
{
    if ss.len() == 0 {
        st
    } else {
        after_stmt(after_stmts(st, ss.drop_last(), ctx), ss.last(), ctx)
    }
}

/// A parameter as the walk leaves it.
pub open spec fn typed_param(p: SpecParam, ctx: Ctx) -> SpecParam {
    SpecParam { pat: typed(p.pat, param_ctx(ctx)), ..p }
}

/// A declarator as the walk leaves it.
pub open spec fn typed_declarator(d: SpecVarDeclarator, ctx: Ctx) -> SpecVarDeclarator {
    SpecVarDeclarator { name: typed(d.name, param_ctx(ctx)), ..d }
}

/// A statement as the walk leaves it: every parameter, declarator and
/// assignment target in it that had no attached type has the type it
/// resolved to; nothing else has changed.
pub open spec fn typed_stmt(s: SpecStmt, ctx: Ctx) -> SpecStmt
    decreases s,
{
    match s {
        SpecStmt::Expr(e) => s,
        SpecStmt::Assign(a) => SpecStmt::Assign(
            SpecAssignStmt { left: typed(a.left, assign_ctx(ctx)), ..a },
        ),
        SpecStmt::Decl(d) => SpecStmt::Decl(
            SpecVarDecl { decls: Seq::new(d.decls.len(), |i: int| typed_declarator(d.decls[i], ctx)), ..d },
        ),
        SpecStmt::Fn(f) => SpecStmt::Fn(
            SpecFunction {
                span: f.span,
                params: Seq::new(f.params.len(), |i: int| typed_param(f.params[i], ctx)),
                body: Seq::new(
                    f.body.len(),
                    |i: int|
                        if 0 <= i < f.body.len() {
                            typed_stmt(f.body[i], ctx)
                        } else {
                            arbitrary()
                        },
                ),
            },
        ),
        SpecStmt::Block(b) => SpecStmt::Block(
            Seq::new(
                b.len(),
                |i: int|
                    if 0 <= i < b.len() {
                        typed_stmt(b[i], ctx)
                    } else {
                        arbitrary()
                    },
            ),
        ),
    }
}

/// A run of statements as the walk leaves it.
pub open spec fn typed_stmts(ss: Seq<SpecStmt>, ctx: Ctx) -> Seq<SpecStmt> {
    Seq::new(ss.len(), |i: int| typed_stmt(ss[i], ctx))
}

impl Analyzer {
    /// What the pass has gathered.
    pub open spec fn pass(&self) -> Pass {
        Pass {
            errors: self.spec_errors(),
            vars: self.spec_scope().vars(),
            declaring: self.spec_scope().declaring(),
        }
    }

    /// Visits an expression: what its check raised is reported.
    pub fn visit_expr(&mut self, e: &Expr)
        ensures
            final(self).pass() == after_expr(old(self).pass(), e@),
            final(self).spec_ctx() == old(self).spec_ctx(),
            final(self).spec_hygiene() == old(self).spec_hygiene(),
    {
        match &e.ty {
            Ok(_) => {},
            Err(d) => {
                self.report(*d);
            },
        }
        assert(self.pass() =~= after_expr(old(self).pass(), e@));
    }

    /// Visits a pattern in the given mode: it is validated, and a failure
    /// is reported.
    pub fn visit_pat(&mut self, p: &mut Pat, mode: PatMode)
        ensures
            final(self).pass() == after_pat(
                old(self).pass(),
                old(p)@,
                Ctx { pat_mode: mode, ..old(self).spec_ctx() },
            ),
            final(p)@ == typed(old(p)@, Ctx { pat_mode: mode, ..old(self).spec_ctx() }),
            final(self).spec_ctx() == old(self).spec_ctx(),
            final(self).spec_hygiene() == old(self).spec_hygiene(),
    {
        let ctx = Ctx { pat_mode: mode, in_argument: self.ctx().in_argument };
        let before = self.set_ctx(ctx);
        match self.validate_pat(p) {
            Ok(_) => {},
            Err(e) => {
                self.report(e);
            },
        }
        self.set_ctx(before);
        assert(self.pass() =~= after_pat(old(self).pass(), old(p)@, ctx));
    }

    /// Visits a parameter: it is validated, and a failure is reported.
    pub fn visit_param(&mut self, p: &mut Param)
        ensures
            final(self).pass() == after_param(old(self).pass(), old(p)@, old(self).spec_ctx()),
            final(p)@ == typed_param(old(p)@, old(self).spec_ctx()),
            final(self).spec_ctx() == old(self).spec_ctx(),
            final(self).spec_hygiene() == old(self).spec_hygiene(),
    {
        match self.validate_param(p) {
            Ok(_) => {},
            Err(e) => {
                self.report(e);
            },
        }
        assert(self.pass() =~= after_param(old(self).pass(), old(p)@, old(self).spec_ctx()));
    }

    /// Visits a declarator: its initializer, then its pattern in declaration
    /// mode.
    pub fn visit_var_declarator(&mut self, d: &mut VarDeclarator)
        ensures
            final(self).pass() == after_declarator(old(self).pass(), old(d)@, old(self).spec_ctx()),
            final(d)@ == typed_declarator(old(d)@, old(self).spec_ctx()),
            final(self).spec_ctx() == old(self).spec_ctx(),
            final(self).spec_hygiene() == old(self).spec_hygiene(),
    {
        match &d.init {
            Some(e) => {
                self.visit_expr(e);
            },
            None => {},
        }
        self.visit_pat(&mut d.name, PatMode::Decl);
    }

    /// Visits a variable declaration: its declarators in order.
    pub fn visit_var_decl(&mut self, d: &mut VarDecl)
        ensures
            final(self).pass() == after_declarators(
                old(self).pass(),
                old(d)@.decls,
                old(self).spec_ctx(),
            ),
            final(d)@ == (SpecVarDecl {
                decls: Seq::new(
                    old(d)@.decls.len(),
                    |i: int| typed_declarator(old(d)@.decls[i], old(self).spec_ctx()),
                ),
                ..old(d)@
            }),
            final(self).spec_ctx() == old(self).spec_ctx(),
            final(self).spec_hygiene() == old(self).spec_hygiene(),
    {
        let ghost ctx = self.spec_ctx();
        let ghost start = d@.decls;
        let n = d.decls.len();
        let mut i: usize = 0;
        while i < n
            invariant
                i <= n,
                n == d.decls@.len(),
                start.len() == n,
                d.span == old(d).span,
                d.kind == old(d).kind,
                start == old(d)@.decls,
                ctx == old(self).spec_ctx(),
                self.spec_ctx() == ctx,
                self.spec_hygiene() == old(self).spec_hygiene(),
                self.pass() == after_declarators(old(self).pass(), start.take(i as int), ctx),
                forall|j: int| 0 <= j < i ==> (#[trigger] d.decls@[j])@ == typed_declarator(start[j], ctx),
                forall|j: int| i <= j < n ==> (#[trigger] d.decls@[j])@ == start[j],
            decreases n - i,
        {
            proof {
                assert(start.take(i + 1).drop_last() == start.take(i as int));
                assert(start.take(i + 1).last() == start[i as int]);
            }
            self.visit_var_declarator(&mut d.decls[i]);
            i += 1;
        }
        proof {
            assert(start.take(n as int) == start);
            assert(d@.decls =~= Seq::new(start.len(), |i: int| typed_declarator(start[i], ctx)));
        }
    }

    /// Visits an assignment: its target in assignment mode, then its value.
    pub fn visit_assign(&mut self, a: &mut AssignStmt)
        ensures
            final(self).pass() == after_assign(old(self).pass(), old(a)@, old(self).spec_ctx()),
            final(a)@ == (SpecAssignStmt {
                left: typed(old(a)@.left, assign_ctx(old(self).spec_ctx())),
                ..old(a)@
            }),
            final(self).spec_ctx() == old(self).spec_ctx(),
            final(self).spec_hygiene() == old(self).spec_hygiene(),
    {
        self.visit_pat(&mut a.left, PatMode::Assign);
        self.visit_expr(&a.right);
    }

    /// Visits the parameters of a function in order.
    pub fn visit_params(&mut self, ps: &mut Vec<Param>)
        ensures
            final(self).pass() == after_params(
                old(self).pass(),
                Seq::new(old(ps)@.len(), |i: int| old(ps)@[i]@),
                old(self).spec_ctx(),
            ),
            final(ps)@.len() == old(ps)@.len(),
            forall|j: int|
                0 <= j < old(ps)@.len() ==> (#[trigger] final(ps)@[j])@ == typed_param(
                    old(ps)@[j]@,
                    old(self).spec_ctx(),
                ),
            final(self).spec_ctx() == old(self).spec_ctx(),
            final(self).spec_hygiene() == old(self).spec_hygiene(),
    {
        let ghost ctx = self.spec_ctx();
        let ghost start = Seq::new(ps@.len(), |i: int| ps@[i]@);
        let n = ps.len();
        let mut i: usize = 0;
        while i < n
            invariant
                i <= n,
                n == ps@.len(),
                start.len() == n,
                start == Seq::new(old(ps)@.len(), |i: int| old(ps)@[i]@),
                ctx == old(self).spec_ctx(),
                self.spec_ctx() == ctx,
                self.spec_hygiene() == old(self).spec_hygiene(),
                self.pass() == after_params(old(self).pass(), start.take(i as int), ctx),
                forall|j: int| 0 <= j < i ==> (#[trigger] ps@[j])@ == typed_param(start[j], ctx),
                forall|j: int| i <= j < n ==> (#[trigger] ps@[j])@ == start[j],
            decreases n - i,
        {
            proof {
                assert(start.take(i + 1).drop_last() == start.take(i as int));
                assert(start.take(i + 1).last() == start[i as int]);
            }
            self.visit_param(&mut ps[i]);
            i += 1;
        }
        proof {
            assert(start.take(n as int) == start);
        }
    }

    /// Visits a function: its parameters, then the statements of its body.
    pub fn visit_function(&mut self, f: &mut Function)
        ensures
            final(self).pass() == after_stmt(
                old(self).pass(),
                SpecStmt::Fn(old(f)@),
                old(self).spec_ctx(),
            ),
            SpecStmt::Fn(final(f)@) == typed_stmt(SpecStmt::Fn(old(f)@), old(self).spec_ctx()),
            final(self).spec_ctx() == old(self).spec_ctx(),
            final(self).spec_hygiene() == old(self).spec_hygiene(),
        decreases *old(f), 0nat,
    {
        let ghost ctx = self.spec_ctx();
        let ghost before = old(f)@;
        proof {
            assert(before.body =~= stmts_view(f.body@));
            assert(before.params =~= Seq::new(f.params@.len(), |i: int| f.params@[i]@));
        }
        self.visit_params(&mut f.params);
        self.visit_stmts(&mut f.body);
        proof {
            let after = typed_stmt(SpecStmt::Fn(before), ctx)->Fn_0;
            assert(f@.body =~= stmts_view(f.body@));
            assert(after.body =~= typed_stmts(before.body, ctx));
            assert(f@.params =~= after.params);
            assert(f@.body =~= after.body);
        }
    }

    /// Visits a statement.
    pub fn visit_stmt(&mut self, s: &mut Stmt)
        ensures
            final(self).pass() == after_stmt(old(self).pass(), old(s)@, old(self).spec_ctx()),
            final(s)@ == typed_stmt(old(s)@, old(self).spec_ctx()),
            final(self).spec_ctx() == old(self).spec_ctx(),
            final(self).spec_hygiene() == old(self).spec_hygiene(),
        decreases *old(s), 0nat,
    {
        let ghost ctx = self.spec_ctx();
        match s {
            Stmt::Expr(e) => {
                self.visit_expr(e);
            },
            Stmt::Assign(a) => {
                self.visit_assign(a);
            },
            Stmt::Decl(d) => {
                self.visit_var_decl(d);
            },
            Stmt::Fn(f) => {
                self.visit_function(f);
            },
            Stmt::Block(b) => {
                let ghost before = old(s)@->Block_0;
                proof {
                    assert(before =~= stmts_view(b@));
                }
                self.visit_stmts(b);
                proof {
                    assert(stmt_view(Stmt::Block(*b))->Block_0 =~= stmts_view(b@));
                    assert(typed_stmt(old(s)@, ctx)->Block_0 =~= typed_stmts(before, ctx));
                }
            },
        }
    }

    /// Visits a run of statements in order.
    pub fn visit_stmts(&mut self, v: &mut Vec<Stmt>)
        ensures
            final(self).pass() == after_stmts(
                old(self).pass(),
                stmts_view(old(v)@),
                old(self).spec_ctx(),
            ),
            stmts_view(final(v)@) == typed_stmts(stmts_view(old(v)@), old(self).spec_ctx()),
            final(self).spec_ctx() == old(self).spec_ctx(),
            final(self).spec_hygiene() == old(self).spec_hygiene(),
        decreases *old(v), 1nat,
    {
        let ghost ctx = self.spec_ctx();
        let ghost first = *v;
        let ghost start = stmts_view(v@);
        let n = v.len();
        let mut i: usize = 0;
        while i < n
            invariant
                i <= n,
                n == v@.len(),
                first == *old(v),
                start == stmts_view(first@),
                start.len() == n,
                ctx == old(self).spec_ctx(),
                self.spec_ctx() == ctx,
                self.spec_hygiene() == old(self).spec_hygiene(),
                self.pass() == after_stmts(old(self).pass(), start.take(i as int), ctx),
                forall|j: int| 0 <= j < i ==> (#[trigger] v@[j])@ == typed_stmt(start[j], ctx),
                forall|j: int| i <= j < n ==> #[trigger] v@[j] == first@[j],
            decreases n - i,
        {
            proof {
                assert(start.take(i + 1).drop_last() == start.take(i as int));
                assert(start.take(i + 1).last() == start[i as int]);
                assert(v@[i as int] == first@[i as int]);
                assert(decreases_to!(first => first[i as int]));
            }
            self.visit_stmt(&mut v[i]);
            i += 1;
        }
        proof {
            assert(start.take(n as int) == start);
            assert(stmts_view(v@) =~= typed_stmts(start, ctx));
        }
    }

    /// Visits a module: the statements of its body in order.
    pub fn visit_module(&mut self, m: &mut Module)
        ensures
            final(self).pass() == after_stmts(old(self).pass(), old(m)@.body, old(self).spec_ctx()),
            final(m)@ == (SpecModule {
                body: typed_stmts(old(m)@.body, old(self).spec_ctx()),
                ..old(m)@
            }),
            final(self).spec_ctx() == old(self).spec_ctx(),
            final(self).spec_hygiene() == old(self).spec_hygiene(),
    {
        self.visit_stmts(&mut m.body);
    }
}

/// Visiting marks no name that was not marked before: whatever a run of
/// statements holds, the names being declared after it are among those from
/// before.
pub proof fn lemma_marks_never_grow(st: Pass, ss: Seq<SpecStmt>, ctx: Ctx)
    ensures
        after_stmts(st, ss, ctx).declaring.subset_of(st.declaring),
    decreases ss, 1nat,
{
    if ss.len() != 0 {
        lemma_marks_never_grow(st, ss.drop_last(), ctx);
        lemma_marks_never_grow_in(after_stmts(st, ss.drop_last(), ctx), ss.last(), ctx);
    }
}

/// The same of one statement.
pub proof fn lemma_marks_never_grow_in(st: Pass, s: SpecStmt, ctx: Ctx)
    ensures
        after_stmt(st, s, ctx).declaring.subset_of(st.declaring),
    decreases s, 0nat,
{
    match s {
        SpecStmt::Expr(_) => {},
        SpecStmt::Assign(_) => {},
        SpecStmt::Decl(d) => {
            lemma_declarators_mark_nothing(st, d.decls, ctx);
        },
        SpecStmt::Fn(f) => {
            lemma_params_mark_nothing(st, f.params, ctx);
            lemma_marks_never_grow(after_params(st, f.params, ctx), f.body, ctx);
        },
        SpecStmt::Block(b) => {
            lemma_marks_never_grow(st, b, ctx);
        },
    }
}

proof fn lemma_params_mark_nothing(st: Pass, ps: Seq<SpecParam>, ctx: Ctx)
    ensures
        after_params(st, ps, ctx).declaring.subset_of(st.declaring),
    decreases ps.len(),
{
    if ps.len() != 0 {
        lemma_params_mark_nothing(st, ps.drop_last(), ctx);
    }
}

proof fn lemma_declarators_mark_nothing(st: Pass, ds: Seq<SpecVarDeclarator>, ctx: Ctx)
    ensures
        after_declarators(st, ds, ctx).declaring.subset_of(st.declaring),
    decreases ds.len(),
{
    if ds.len() != 0 {
        lemma_declarators_mark_nothing(st, ds.drop_last(), ctx);
    }
}

/// What checking a file gives: its diagnostics, oldest first, and the scope
/// with the bindings that its declarations registered.
pub struct Info {
    pub errors: Vec<Diagnostic>,
    pub exports: Scope,
}

/// The pass that a check starts from: nothing gathered.
pub open spec fn empty_pass() -> Pass {
    Pass { errors: Seq::empty(), vars: Seq::empty(), declaring: Set::empty() }
}

/// The context that a check starts under: declaration mode, outside the
/// arguments of any call.
pub open spec fn top_ctx() -> Ctx {
    Ctx { pat_mode: PatMode::Decl, in_argument: false }
}

/// Checks one file from start to end: every statement is visited in order
/// by a fresh analyzer. The tree comes back with the types that the walk
/// attached, beside all that the walk gathered. No diagnostic ends the
/// check early.
pub fn check(module: Module) -> (r: (Module, Info))
    ensures
        r.0@ == (SpecModule { body: typed_stmts(module@.body, top_ctx()), ..module@ }),
        r.1.errors@ == after_stmts(empty_pass(), module@.body, top_ctx()).errors,
        r.1.exports.vars() == after_stmts(empty_pass(), module@.body, top_ctx()).vars,
        r.1.exports.declaring() == Set::<Sym>::empty(),
{
    let ghost body = module@.body;
    let mut module = module;
    let mut analyzer = Analyzer::new(Ctx { pat_mode: PatMode::Decl, in_argument: false });
    assert(analyzer.pass() =~= empty_pass());
    analyzer.visit_module(&mut module);
    proof {
        lemma_marks_never_grow(empty_pass(), body, top_ctx());
        assert(analyzer.pass().declaring =~= Set::<Sym>::empty());
    }
    let (errors, exports) = analyzer.finish();
    (module, Info { errors, exports })
}

} // verus!
