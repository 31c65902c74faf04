use ts_pattern_checker::analyzer::{Analyzer, Ctx, PatMode};
use ts_pattern_checker::ast::{
    AssignPat, BindingIdent, Expr, ExprKind, KeyValuePatProp, KeyValueProp, ObjectLit, ObjectPat,
    ObjectPatProp, Param, Pat, Prop, PropKey, PropOrSpread, RestPat, TypeAnn,
};
use ts_pattern_checker::errors::{Diagnostic, DiagnosticKind};
use ts_pattern_checker::module::{AssignStmt, Function, Module, Stmt, VarDecl, VarDeclarator};
use ts_pattern_checker::scope::VarDeclKind;
use ts_pattern_checker::span::Span;
use ts_pattern_checker::symbol::Sym;
use ts_pattern_checker::ty::{KeywordKind, Type};
use ts_pattern_checker::visit::check;

fn sp(lo: u32, hi: u32) -> Span {
    Span { lo, hi, ctxt: 0 }
}

fn kw(kind: KeywordKind) -> Type {
    Type::Keyword { span: sp(50, 56), kind }
}

fn ann(ty: Type) -> Option<TypeAnn> {
    Some(TypeAnn { span: ty.span(), resolved: Ok(ty) })
}

fn ident(n: u32, lo: u32, type_ann: Option<TypeAnn>) -> Pat {
    Pat::Ident(BindingIdent { span: sp(lo, lo + 1), sym: Sym(n), optional: false, type_ann })
}

fn expr(ty: Result<Type, Diagnostic>) -> Expr {
    Expr { span: sp(70, 80), kind: ExprKind::Other, ty }
}

fn bad_rest(n: u32, lo: u32) -> Pat {
    Pat::Rest(RestPat {
        span: sp(lo, lo + 9),
        dot3_token: sp(lo, lo + 3),
        arg: Box::new(ident(n, lo + 3, None)),
        type_ann: ann(kw(KeywordKind::String)),
    })
}

fn param(pat: Pat) -> Param {
    Param { span: pat.span(), decorators: vec![], pat }
}

fn let_stmt(n: u32, lo: u32, ty: Type) -> Stmt {
    Stmt::Decl(VarDecl {
        span: sp(lo, lo + 20),
        kind: VarDeclKind::Let,
        decls: vec![VarDeclarator { span: sp(lo, lo + 20), name: ident(n, lo + 4, ann(ty)), init: Some(expr(Ok(kw(KeywordKind::Number)))) }],
    })
}

fn rest_error(lo: u32) -> Diagnostic {
    Diagnostic { kind: DiagnosticKind::TS2370, span: sp(lo, lo + 3) }
}

#[test]
fn two_malformed_patterns_give_two_diagnostics_and_all_declarations() {
    let f = Function {
        span: sp(0, 100),
        params: vec![param(ident(1, 10, ann(kw(KeywordKind::Number)))), param(bad_rest(2, 20))],
        body: vec![let_stmt(3, 40, kw(KeywordKind::Boolean))],
    };
    let g = Function {
        span: sp(100, 200),
        params: vec![param(bad_rest(4, 120))],
        body: vec![Stmt::Block(vec![let_stmt(5, 140, kw(KeywordKind::String))])],
    };
    let mut m = Module { span: sp(0, 200), body: vec![Stmt::Fn(f), Stmt::Fn(g)] };
    let mut a = Analyzer::new(Ctx { pat_mode: PatMode::Assign, in_argument: false });
    a.visit_module(&mut m);
    assert_eq!(*a.errors(), vec![rest_error(20), rest_error(120)]);
    assert_eq!(a.scope().lookup(Sym(1)).map(|v| v.ty), Some(kw(KeywordKind::Number)));
    assert_eq!(a.scope().lookup(Sym(2)).map(|v| v.ty), Some(kw(KeywordKind::String)));
    assert_eq!(a.scope().lookup(Sym(3)).map(|v| v.ty), Some(kw(KeywordKind::Boolean)));
    assert_eq!(a.scope().lookup(Sym(4)).map(|v| v.ty), Some(kw(KeywordKind::String)));
    assert_eq!(a.scope().lookup(Sym(5)).map(|v| v.ty), Some(kw(KeywordKind::String)));
    for n in 1..=5 {
        assert!(!a.scope().is_declaring(Sym(n)));
    }
    assert_eq!(a.ctx(), Ctx { pat_mode: PatMode::Assign, in_argument: false });
}

#[test]
fn failed_validation_is_reported_and_the_walk_goes_on() {
    let e = Diagnostic { kind: DiagnosticKind::TS2304, span: sp(14, 17) };
    let failing = Pat::Ident(BindingIdent {
        span: sp(10, 17),
        sym: Sym(1),
        optional: false,
        type_ann: Some(TypeAnn { span: sp(14, 17), resolved: Err(e) }),
    });
    let f = Function {
        span: sp(0, 100),
        params: vec![param(failing), param(ident(2, 20, None))],
        body: vec![],
    };
    let mut m = Module { span: sp(0, 100), body: vec![Stmt::Fn(f), let_stmt(3, 140, kw(KeywordKind::Number))] };
    let mut a = Analyzer::new(Ctx { pat_mode: PatMode::Decl, in_argument: false });
    a.visit_module(&mut m);
    assert_eq!(*a.errors(), vec![e]);
    assert_eq!(a.scope().lookup(Sym(1)), None);
    assert_eq!(a.scope().lookup(Sym(2)).map(|v| v.ty), Some(Type::any(sp(20, 21))));
    assert_eq!(a.scope().lookup(Sym(3)).map(|v| v.ty), Some(kw(KeywordKind::Number)));
}

#[test]
fn walk_attaches_types_to_untyped_patterns_only() {
    let mut m = Module {
        span: sp(0, 100),
        body: vec![
            Stmt::Decl(VarDecl {
                span: sp(0, 30),
                kind: VarDeclKind::Const,
                decls: vec![
                    VarDeclarator { span: sp(0, 9), name: ident(1, 4, None), init: None },
                    VarDeclarator { span: sp(10, 19), name: ident(2, 14, ann(kw(KeywordKind::Number))), init: None },
                ],
            }),
            Stmt::Expr(expr(Ok(kw(KeywordKind::Any)))),
        ],
    };
    let mut a = Analyzer::new(Ctx { pat_mode: PatMode::Assign, in_argument: true });
    a.visit_module(&mut m);
    let expected = Module {
        span: sp(0, 100),
        body: vec![
            Stmt::Decl(VarDecl {
                span: sp(0, 30),
                kind: VarDeclKind::Const,
                decls: vec![
                    VarDeclarator {
                        span: sp(0, 9),
                        name: ident(1, 4, Some(TypeAnn { span: sp(4, 5), resolved: Ok(Type::unknown(sp(4, 5))) })),
                        init: None,
                    },
                    VarDeclarator { span: sp(10, 19), name: ident(2, 14, ann(kw(KeywordKind::Number))), init: None },
                ],
            }),
            Stmt::Expr(expr(Ok(kw(KeywordKind::Any)))),
        ],
    };
    assert_eq!(m, expected);
    assert!(a.errors().is_empty());
}

#[test]
fn assignment_statement_checks_without_registering() {
    let left = Pat::Assign(AssignPat {
        span: sp(0, 40),
        left: Box::new(Pat::Object(ObjectPat {
            span: sp(0, 10),
            props: vec![ObjectPatProp::KeyValue(KeyValuePatProp {
                key: PropKey::Ident(Sym(1)),
                value: Box::new(ident(1, 2, None)),
            })],
            type_ann: None,
        })),
        right: Box::new(Expr {
            span: sp(20, 40),
            kind: ExprKind::Object(ObjectLit {
                span: sp(20, 40),
                props: vec![PropOrSpread::Prop(Prop::KeyValue(KeyValueProp { span: sp(22, 26), key: PropKey::Ident(Sym(8)) }))],
            }),
            ty: Ok(kw(KeywordKind::Any)),
        }),
        type_ann: None,
    });
    let value_error = Diagnostic { kind: DiagnosticKind::TS2304, span: sp(70, 80) };
    let mut s = Stmt::Assign(AssignStmt { span: sp(0, 80), left, right: expr(Err(value_error)) });
    let mut a = Analyzer::new(Ctx { pat_mode: PatMode::Decl, in_argument: false });
    a.extend_declaring(&vec![Sym(1)]);
    a.visit_stmt(&mut s);
    assert_eq!(
        *a.errors(),
        vec![Diagnostic { kind: DiagnosticKind::TS2353, span: sp(22, 26) }, value_error]
    );
    assert_eq!(a.scope().lookup(Sym(1)), None);
    assert!(a.scope().is_declaring(Sym(1)));
    assert_eq!(a.ctx(), Ctx { pat_mode: PatMode::Decl, in_argument: false });
}

#[test]
fn declarator_visits_its_initializer_before_its_pattern() {
    let init_error = Diagnostic { kind: DiagnosticKind::TS2304, span: sp(70, 80) };
    let mut d = VarDeclarator { span: sp(0, 30), name: bad_rest(1, 4), init: Some(expr(Err(init_error))) };
    let mut a = Analyzer::new(Ctx { pat_mode: PatMode::Assign, in_argument: false });
    a.visit_var_declarator(&mut d);
    assert_eq!(*a.errors(), vec![init_error, rest_error(4)]);
    assert!(a.scope().lookup(Sym(1)).is_some());
}

#[test]
fn visiting_single_nodes() {
    let mut a = Analyzer::new(Ctx { pat_mode: PatMode::Assign, in_argument: false });
    let e = Diagnostic { kind: DiagnosticKind::TS2304, span: sp(70, 80) };
    a.visit_expr(&expr(Err(e)));
    a.visit_expr(&expr(Ok(kw(KeywordKind::Any))));
    let mut p = ident(1, 0, None);
    a.visit_pat(&mut p, PatMode::Decl);
    let mut q = ident(2, 5, None);
    a.visit_pat(&mut q, PatMode::Assign);
    let mut prm = param(ident(3, 9, None));
    a.visit_param(&mut prm);
    assert_eq!(*a.errors(), vec![e]);
    assert!(a.scope().lookup(Sym(1)).is_some());
    assert_eq!(a.scope().lookup(Sym(2)), None);
    assert!(a.scope().lookup(Sym(3)).is_some());
    assert!(q.get_ty().is_some());
    let mut params = vec![param(ident(4, 12, None))];
    a.visit_params(&mut params);
    assert!(a.scope().lookup(Sym(4)).is_some());
    let mut stmts = vec![let_stmt(5, 20, kw(KeywordKind::Number))];
    a.visit_stmts(&mut stmts);
    assert!(a.scope().lookup(Sym(5)).is_some());
}

#[test]
fn check_gives_tree_diagnostics_and_bindings() {
    let f = Function {
        span: sp(0, 100),
        params: vec![param(bad_rest(2, 20)), param(ident(1, 10, None))],
        body: vec![],
    };
    let module = Module { span: sp(0, 200), body: vec![Stmt::Fn(f), let_stmt(3, 140, kw(KeywordKind::Number))] };
    let (tree, info) = check(module);
    assert_eq!(info.errors, vec![rest_error(20)]);
    let names: Vec<Sym> = info.exports.bindings().iter().map(|v| v.name).collect();
    assert_eq!(names, vec![Sym(2), Sym(1), Sym(3)]);
    assert_eq!(info.exports.bindings()[1].kind, VarDeclKind::Let);
    assert_eq!(info.exports.bindings()[1].ty, Type::any(sp(10, 11)));
    for n in 1..=3 {
        assert!(!info.exports.is_declaring(Sym(n)));
    }
    match &tree.body[0] {
        Stmt::Fn(f) => {
            assert_eq!(
                *f.params[1].pat.get_ty(),
                Some(TypeAnn { span: sp(10, 11), resolved: Ok(Type::any(sp(10, 11))) })
            );
            assert_eq!(*f.params[0].pat.get_ty(), ann(kw(KeywordKind::String)));
        }
        other => panic!("a function was expected, not {:?}", other),
    }
}

#[test]
fn finish_hands_out_what_was_gathered() {
    let mut a = Analyzer::new(Ctx { pat_mode: PatMode::Decl, in_argument: false });
    let mut p = bad_rest(7, 0);
    a.visit_pat(&mut p, PatMode::Decl);
    let (errors, scope) = a.finish();
    assert_eq!(errors, vec![rest_error(0)]);
    assert_eq!(scope.bindings().len(), 1);
    assert_eq!(scope.lookup(Sym(7)).map(|v| v.ty), Some(kw(KeywordKind::String)));
}
