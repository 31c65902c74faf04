//! Statements and modules, as far as the walk over a file looks into them.

use crate::ast::{Expr, Param, Pat, SpecExpr, SpecParam, SpecPat};
use crate::scope::VarDeclKind;
use crate::span::Span;
use vstd::prelude::*;

verus! {

/// `name = init` in a variable declaration.
#[derive(Debug, PartialEq, Eq)]
pub struct VarDeclarator {
    pub span: Span,
    pub name: Pat,
    pub init: Option<Expr>,
}

pub struct SpecVarDeclarator {
    pub span: Span,
    pub name: SpecPat,
    pub init: Option<SpecExpr>,
}

impl View for VarDeclarator {
    type V = SpecVarDeclarator;

    open spec fn view(&self) -> SpecVarDeclarator {
        SpecVarDeclarator {
            span: self.span,
            name: self.name@,
            init: match self.init {
                Some(e) => Some(e@),
                None => None,
            },
        }
    }
}

/// `let a = 1, [b] = c;`
#[derive(Debug, PartialEq, Eq)]
pub struct VarDecl {
    pub span: Span,
    pub kind: VarDeclKind,
    pub decls: Vec<VarDeclarator>,
}

pub struct SpecVarDecl {
    pub span: Span,
    pub kind: VarDeclKind,
    pub decls: Seq<SpecVarDeclarator>,
}

impl View for VarDecl {
    type V = SpecVarDecl;

    open spec fn view(&self) -> SpecVarDecl {
        SpecVarDecl {
            span: self.span,
            kind: self.kind,
            decls: Seq::new(self.decls@.len(), |i: int| self.decls@[i]@),
        }
    }
}

/// `left = right` as a statement, where the left side is a pattern.
#[derive(Debug, PartialEq, Eq)]
pub struct AssignStmt {
    pub span: Span,
    pub left: Pat,
    pub right: Expr,
}

pub struct SpecAssignStmt {
    pub span: Span,
    pub left: SpecPat,
    pub right: SpecExpr,
}

impl View for AssignStmt {
    type V = SpecAssignStmt;

    open spec fn view(&self) -> SpecAssignStmt {
        SpecAssignStmt { span: self.span, left: self.left@, right: self.right@ }
    }
}

/// A function: its parameters and the statements of its body.
#[derive(Debug, PartialEq, Eq)]
pub struct Function {
    pub span: Span,
    pub params: Vec<Param>,
    pub body: Vec<Stmt>,
}

#[derive(Debug, PartialEq, Eq)]
pub enum Stmt {
    Expr(Expr),
    Assign(AssignStmt),
    Decl(VarDecl),
    Fn(Function),
    Block(Vec<Stmt>),
}

pub struct SpecFunction {
    pub span: Span,
    pub params: Seq<SpecParam>,
    pub body: Seq<SpecStmt>,
}

pub enum SpecStmt {
    Expr(SpecExpr),
    Assign(SpecAssignStmt),
    Decl(SpecVarDecl),
    Fn(SpecFunction),
    Block(Seq<SpecStmt>),
}

pub open spec fn stmt_view(s: Stmt) -> SpecStmt
    decreases s,
{
    match s {
        Stmt::Expr(e) => SpecStmt::Expr(e@),
        Stmt::Assign(a) => SpecStmt::Assign(a@),
        Stmt::Decl(d) => SpecStmt::Decl(d@),
        Stmt::Fn(f) => SpecStmt::Fn(function_view(f)),
        Stmt::Block(b) => SpecStmt::Block(
            Seq::new(
                b@.len(),
                |i: int|
                    if 0 <= i < b@.len() {
                        stmt_view(b@[i])
                    } else {
                        arbitrary()
                    },
            ),
        ),
    }
}

pub open spec fn function_view(f: Function) -> SpecFunction
    decreases f,
{
    SpecFunction {
        span: f.span,
        params: Seq::new(f.params@.len(), |i: int| f.params@[i]@),
        body: Seq::new(
            f.body@.len(),
            |i: int|
                if 0 <= i < f.body@.len() {
                    stmt_view(f.body@[i])
                } else {
                    arbitrary()
                },
        ),
    }
}

/// The views of a run of statements.
pub open spec fn stmts_view(v: Seq<Stmt>) -> Seq<SpecStmt> {
    Seq::new(v.len(), |i: int| stmt_view(v[i]))
}

impl View for Stmt {
    type V = SpecStmt;

    open spec fn view(&self) -> SpecStmt {
        stmt_view(*self)
    }
}

impl View for Function {
    type V = SpecFunction;

    open spec fn view(&self) -> SpecFunction {
        function_view(*self)
    }
}

/// One source file.
#[derive(Debug, PartialEq, Eq)]
pub struct Module {
    pub span: Span,
    pub body: Vec<Stmt>,
}

pub struct SpecModule {
    pub span: Span,
    pub body: Seq<SpecStmt>,
}

impl View for Module {
    type V = SpecModule;

    open spec fn view(&self) -> SpecModule {
        SpecModule { span: self.span, body: stmts_view(self.body@) }
    }
}

} // verus!
