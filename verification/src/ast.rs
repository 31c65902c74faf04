//! The syntax that pattern validation reads: binding patterns, and of
//! expressions and type annotations what validation needs to know.
//!
//! Each node type that owns a `Vec` has a mathematical twin (`Spec..`) that
//! holds a `Seq` in its place; `@` takes a node to its twin. Contracts speak
//! of the twins.

use crate::errors::Diagnostic;
use crate::span::Span;
use crate::symbol::Sym;
use crate::ty::Type;
use vstd::prelude::*;

verus! {

/// The key of a property, without its position: two keys are structurally
/// equal exactly when they are equal as values of this type.
#[derive(Clone, Copy, Debug, PartialEq, Eq, Hash, Structural)]
pub enum PropKey {
    /// `name`
    Ident(Sym),
    /// `"name"`
    Str(Sym),
    /// A numeric literal, by the bits of its value.
    Num(u64),
    /// A big integer literal, by its digits.
    BigInt(Sym),
    /// `[expr]`, by the shape of the expression.
    Computed(Sym),
}

/// A type annotation as the resolver left it: the type it denotes, or the
/// diagnostic that resolving it raised.
#[derive(Debug, PartialEq, Eq)]
pub struct TypeAnn {
    pub span: Span,
    pub resolved: Result<Type, Diagnostic>,
}

impl Clone for TypeAnn {
    fn clone(&self) -> (r: TypeAnn)
        ensures
            r == *self,
    {
        let resolved = match &self.resolved {
            Ok(t) => Ok(t.clone()),
            Err(d) => Err(*d),
        };
        TypeAnn { span: self.span, resolved }
    }
}

/// Copies an optional annotation.
pub fn clone_type_ann(a: &Option<TypeAnn>) -> (r: Option<TypeAnn>)
    ensures
        r == *a,
{
    match a {
        Some(t) => Some(t.clone()),
        None => None,
    }
}

/// `key: value` in an object literal. The value plays no part in pattern
/// validation and is not kept.
#[derive(Clone, Copy, Debug, PartialEq, Eq, Hash, Structural)]
pub struct KeyValueProp {
    pub span: Span,
    pub key: PropKey,
}

/// `...expr` in an object literal.
#[derive(Clone, Copy, Debug, PartialEq, Eq, Hash, Structural)]
pub struct SpreadElement {
    pub span: Span,
}

/// A property of an object literal that is neither `key: value` nor a
/// spread: a shorthand, an accessor or a method.
#[derive(Clone, Copy, Debug, PartialEq, Eq, Hash, Structural)]
pub struct OtherProp {
    pub span: Span,
}

/// A property of an object literal that is no spread.
#[derive(Clone, Copy, Debug, PartialEq, Eq, Hash, Structural)]
pub enum Prop {
    KeyValue(KeyValueProp),
    Other(OtherProp),
}

#[derive(Clone, Copy, Debug, PartialEq, Eq, Hash, Structural)]
pub enum PropOrSpread {
    Prop(Prop),
    Spread(SpreadElement),
}

/// `{ a: 1, ...b }`
#[derive(Debug, PartialEq, Eq)]
pub struct ObjectLit {
    pub span: Span,
    pub props: Vec<PropOrSpread>,
}

pub struct SpecObjectLit {
    pub span: Span,
    pub props: Seq<PropOrSpread>,
}

impl View for ObjectLit {
    type V = SpecObjectLit;

    open spec fn view(&self) -> SpecObjectLit {
        SpecObjectLit { span: self.span, props: self.props@ }
    }
}

impl Clone for ObjectLit {
    fn clone(&self) -> (r: ObjectLit)
        ensures
            r@ == self@,
    {
        let mut props: Vec<PropOrSpread> = Vec::new();
        let mut i: usize = 0;
        while i < self.props.len()
            invariant
                i <= self.props.len(),
                props@ == self.props@.take(i as int),
            decreases self.props.len() - i,
        {
            props.push(self.props[i]);
            proof {
                assert(self.props@.take(i + 1) == self.props@.take(i as int).push(self.props@[i as int]));
            }
            i += 1;
        }
        proof {
            assert(self.props@.take(self.props.len() as int) == self.props@);
        }
        ObjectLit { span: self.span, props }
    }
}

#[derive(Debug, PartialEq, Eq)]
pub enum ExprKind {
    Object(ObjectLit),
    /// Any other expression.
    Other,
}

pub enum SpecExprKind {
    Object(SpecObjectLit),
    Other,
}

/// An expression as the expression checker left it.
#[derive(Debug, PartialEq, Eq)]
pub struct Expr {
    pub span: Span,
    pub kind: ExprKind,
    /// What checking the expression gave: its type, or the diagnostic that
    /// its check raised.
    pub ty: Result<Type, Diagnostic>,
}

pub struct SpecExpr {
    pub span: Span,
    pub kind: SpecExprKind,
    pub ty: Result<Type, Diagnostic>,
}

impl View for Expr {
    type V = SpecExpr;

    open spec fn view(&self) -> SpecExpr {
        SpecExpr {
            span: self.span,
            kind: match self.kind {
                ExprKind::Object(o) => SpecExprKind::Object(o@),
                ExprKind::Other => SpecExprKind::Other,
            },
            ty: self.ty,
        }
    }
}

impl Clone for Expr {
    fn clone(&self) -> (r: Expr)
        ensures
            r@ == self@,
    {
        let kind = match &self.kind {
            ExprKind::Object(o) => ExprKind::Object(o.clone()),
            ExprKind::Other => ExprKind::Other,
        };
        let ty = match &self.ty {
            Ok(t) => Ok(t.clone()),
            Err(d) => Err(*d),
        };
        Expr { span: self.span, kind, ty }
    }
}

/// `name` or `name?`, with its annotation.
#[derive(Debug, PartialEq, Eq)]
pub struct BindingIdent {
    pub span: Span,
    pub sym: Sym,
    pub optional: bool,
    pub type_ann: Option<TypeAnn>,
}

/// `[a, , b]`: a hole is `None`.
#[derive(Debug, PartialEq, Eq)]
pub struct ArrayPat {
    pub span: Span,
    pub elems: Vec<Option<Pat>>,
    pub type_ann: Option<TypeAnn>,
}

/// `...arg`
#[derive(Debug, PartialEq, Eq)]
pub struct RestPat {
    pub span: Span,
    /// The span of the three dots.
    pub dot3_token: Span,
    pub arg: Box<Pat>,
    pub type_ann: Option<TypeAnn>,
}

/// `key: value` in an object pattern. The shorthand `{ a }` is `a: a`.
#[derive(Debug, PartialEq, Eq)]
pub struct KeyValuePatProp {
    pub key: PropKey,
    pub value: Box<Pat>,
}

#[derive(Debug, PartialEq, Eq)]
pub enum ObjectPatProp {
    KeyValue(KeyValuePatProp),
    Rest(RestPat),
}

/// `{ a, b: c, ...d }`
#[derive(Debug, PartialEq, Eq)]
pub struct ObjectPat {
    pub span: Span,
    pub props: Vec<ObjectPatProp>,
    pub type_ann: Option<TypeAnn>,
}

/// `left = right`: a pattern with the value it takes where none is given.
#[derive(Debug, PartialEq, Eq)]
pub struct AssignPat {
    pub span: Span,
    pub left: Box<Pat>,
    pub right: Box<Expr>,
    pub type_ann: Option<TypeAnn>,
}

/// A binding pattern.
#[derive(Debug, PartialEq, Eq)]
pub enum Pat {
    Ident(BindingIdent),
    Array(ArrayPat),
    Rest(RestPat),
    Object(ObjectPat),
    Assign(AssignPat),
}

pub struct SpecArrayPat {
    pub span: Span,
    pub elems: Seq<Option<SpecPat>>,
    pub type_ann: Option<TypeAnn>,
}

pub struct SpecRestPat {
    pub span: Span,
    pub dot3_token: Span,
    pub arg: Box<SpecPat>,
    pub type_ann: Option<TypeAnn>,
}

pub struct SpecKeyValuePatProp {
    pub key: PropKey,
    pub value: Box<SpecPat>,
}

pub enum SpecObjectPatProp {
    KeyValue(SpecKeyValuePatProp),
    Rest(SpecRestPat),
}

pub struct SpecObjectPat {
    pub span: Span,
    pub props: Seq<SpecObjectPatProp>,
    pub type_ann: Option<TypeAnn>,
}

pub struct SpecAssignPat {
    pub span: Span,
    pub left: Box<SpecPat>,
    pub right: SpecExpr,
    pub type_ann: Option<TypeAnn>,
}

pub enum SpecPat {
    Ident(BindingIdent),
    Array(SpecArrayPat),
    Rest(SpecRestPat),
    Object(SpecObjectPat),
    Assign(SpecAssignPat),
}

pub open spec fn pat_view(p: Pat) -> SpecPat
    decreases p,
{
    match p {
        Pat::Ident(i) => SpecPat::Ident(i),
        Pat::Array(a) => SpecPat::Array(
            SpecArrayPat {
                span: a.span,
                elems: Seq::new(
                    a.elems@.len(),
                    |i: int|
                        if 0 <= i < a.elems@.len() {
                            match a.elems@[i] {
                                Some(q) => Some(pat_view(q)),
                                None => None,
                            }
                        } else {
                            None
                        },
                ),
                type_ann: a.type_ann,
            },
        ),
        Pat::Rest(r) => SpecPat::Rest(rest_view(r)),
        Pat::Object(o) => SpecPat::Object(
            SpecObjectPat {
                span: o.span,
                props: Seq::new(
                    o.props@.len(),
                    |i: int|
                        if 0 <= i < o.props@.len() {
                            prop_view(o.props@[i])
                        } else {
                            arbitrary()
                        },
                ),
                type_ann: o.type_ann,
            },
        ),
        Pat::Assign(a) => SpecPat::Assign(assign_view(a)),
    }
}

pub open spec fn rest_view(r: RestPat) -> SpecRestPat
    decreases r,
{
    SpecRestPat {
        span: r.span,
        dot3_token: r.dot3_token,
        arg: Box::new(pat_view(*r.arg)),
        type_ann: r.type_ann,
    }
}

pub open spec fn prop_view(p: ObjectPatProp) -> SpecObjectPatProp
    decreases p,
{
    match p {
        ObjectPatProp::KeyValue(kv) => SpecObjectPatProp::KeyValue(
            SpecKeyValuePatProp { key: kv.key, value: Box::new(pat_view(*kv.value)) },
        ),
        ObjectPatProp::Rest(r) => SpecObjectPatProp::Rest(rest_view(r)),
    }
}

pub open spec fn assign_view(a: AssignPat) -> SpecAssignPat
    decreases a,
{
    SpecAssignPat {
        span: a.span,
        left: Box::new(pat_view(*a.left)),
        right: (*a.right)@,
        type_ann: a.type_ann,
    }
}

impl View for Pat {
    type V = SpecPat;

    open spec fn view(&self) -> SpecPat {
        pat_view(*self)
    }
}

impl View for RestPat {
    type V = SpecRestPat;

    open spec fn view(&self) -> SpecRestPat {
        rest_view(*self)
    }
}

impl View for ObjectPatProp {
    type V = SpecObjectPatProp;

    open spec fn view(&self) -> SpecObjectPatProp {
        prop_view(*self)
    }
}

impl View for AssignPat {
    type V = SpecAssignPat;

    open spec fn view(&self) -> SpecAssignPat {
        assign_view(*self)
    }
}

impl SpecPat {
    /// Where the pattern stands.
    pub open spec fn span(self) -> Span {
        match self {
            SpecPat::Ident(i) => i.span,
            SpecPat::Array(a) => a.span,
            SpecPat::Rest(r) => r.span,
            SpecPat::Object(o) => o.span,
            SpecPat::Assign(a) => a.span,
        }
    }

    /// The type attached to the pattern, if any.
    pub open spec fn type_ann(self) -> Option<TypeAnn> {
        match self {
            SpecPat::Ident(i) => i.type_ann,
            SpecPat::Array(a) => a.type_ann,
            SpecPat::Rest(r) => r.type_ann,
            SpecPat::Object(o) => o.type_ann,
            SpecPat::Assign(a) => a.type_ann,
        }
    }

    /// The same pattern with `ann` attached in place of what was there.
    pub open spec fn with_type_ann(self, ann: Option<TypeAnn>) -> SpecPat {
        match self {
            SpecPat::Ident(i) => SpecPat::Ident(BindingIdent { type_ann: ann, ..i }),
            SpecPat::Array(a) => SpecPat::Array(SpecArrayPat { type_ann: ann, ..a }),
            SpecPat::Rest(r) => SpecPat::Rest(SpecRestPat { type_ann: ann, ..r }),
            SpecPat::Object(o) => SpecPat::Object(SpecObjectPat { type_ann: ann, ..o }),
            SpecPat::Assign(a) => SpecPat::Assign(SpecAssignPat { type_ann: ann, ..a }),
        }
    }

    /// Whether a value must be given for the pattern: always, except for an
    /// identifier written with `?`.
    pub open spec fn required(self) -> bool {
        match self {
            SpecPat::Ident(i) => !i.optional,
            _ => true,
        }
    }
}

impl Pat {
    pub fn span(&self) -> (s: Span)
        ensures
            s == self@.span(),
    {
        proof {
            reveal_with_fuel(pat_view, 2);
        }
        match self {
            Pat::Ident(i) => i.span,
            Pat::Array(a) => a.span,
            Pat::Rest(r) => r.span,
            Pat::Object(o) => o.span,
            Pat::Assign(a) => a.span,
        }
    }

    /// The type attached to the pattern.
    pub fn get_ty(&self) -> (t: &Option<TypeAnn>)
        ensures
            *t == self@.type_ann(),
    {
        proof {
            reveal_with_fuel(pat_view, 2);
        }
        match self {
            Pat::Ident(i) => &i.type_ann,
            Pat::Array(a) => &a.type_ann,
            Pat::Rest(r) => &r.type_ann,
            Pat::Object(o) => &o.type_ann,
            Pat::Assign(a) => &a.type_ann,
        }
    }

    /// Attaches a type to the pattern, in place of what was there.
    pub fn set_ty(&mut self, ann: Option<TypeAnn>)
        ensures
            final(self)@ == old(self)@.with_type_ann(ann),
    {
        proof {
            reveal_with_fuel(pat_view, 2);
        }
        match self {
            Pat::Ident(i) => {
                i.type_ann = ann;
            },
            Pat::Array(a) => {
                a.type_ann = ann;
                assert(pat_view(Pat::Array(*a))->Array_0.elems =~= old(self)@->Array_0.elems);
            },
            Pat::Rest(r) => {
                r.type_ann = ann;
            },
            Pat::Object(o) => {
                o.type_ann = ann;
                assert(pat_view(Pat::Object(*o))->Object_0.props =~= old(self)@->Object_0.props);
            },
            Pat::Assign(a) => {
                a.type_ann = ann;
            },
        }
    }

    /// Whether a value must be given for the pattern.
    pub fn required(&self) -> (b: bool)
        ensures
            b == self@.required(),
    {
        match self {
            Pat::Ident(i) => !i.optional,
            _ => true,
        }
    }
}

impl Clone for Pat {
    fn clone(&self) -> (r: Pat)
        ensures
            r@ == self@,
        decreases self,
    {
        match self {
            Pat::Ident(i) => Pat::Ident(
                BindingIdent {
                    span: i.span,
                    sym: i.sym,
                    optional: i.optional,
                    type_ann: clone_type_ann(&i.type_ann),
                },
            ),
            Pat::Array(a) => {
                let mut elems: Vec<Option<Pat>> = Vec::new();
                let mut i: usize = 0;
                while i < a.elems.len()
                    invariant
                        i <= a.elems.len(),
                        elems@.len() == i,
                        *self == Pat::Array(*a),
                        forall|j: int|
                            0 <= j < i ==> (#[trigger] elems@[j] matches Some(q) ==> a.elems@[j] is Some
                                && q@ == a.elems@[j]->0@),
                        forall|j: int| 0 <= j < i ==> (#[trigger] elems@[j] is None ==> a.elems@[j] is None),
                    decreases a.elems.len() - i,
                {
                    let e = match &a.elems[i] {
                        Some(q) => {
                            proof {
                                assert(self->Array_0 == *a);
                                assert(decreases_to!(*self => self->Array_0));
                                assert(decreases_to!(*a => a.elems));
                                assert(decreases_to!(a.elems => a.elems[i as int]));
                                assert(a.elems[i as int]->0 == *q);
                                assert(decreases_to!(a.elems[i as int] => a.elems[i as int]->0));
                            }
                            Some(q.clone())
                        },
                        None => None,
                    };
                    elems.push(e);
                    i += 1;
                }
                let r = Pat::Array(
                    ArrayPat { span: a.span, elems, type_ann: clone_type_ann(&a.type_ann) },
                );
                proof {
                    assert(r@->Array_0.elems =~= self@->Array_0.elems);
                }
                r
            },
            Pat::Rest(r) => Pat::Rest(r.clone()),
            Pat::Object(o) => {
                let mut props: Vec<ObjectPatProp> = Vec::new();
                let mut i: usize = 0;
                while i < o.props.len()
                    invariant
                        i <= o.props.len(),
                        props@.len() == i,
                        *self == Pat::Object(*o),
                        forall|j: int| 0 <= j < i ==> (#[trigger] props@[j])@ == o.props@[j]@,
                    decreases o.props.len() - i,
                {
                    proof {
                        assert(self->Object_0 == *o);
                        assert(decreases_to!(*self => self->Object_0));
                        assert(decreases_to!(*o => o.props));
                        assert(decreases_to!(o.props => o.props[i as int]));
                    }
                    let e = o.props[i].clone();
                    props.push(e);
                    i += 1;
                }
                let r = Pat::Object(
                    ObjectPat { span: o.span, props, type_ann: clone_type_ann(&o.type_ann) },
                );
                proof {
                    assert(r@->Object_0.props =~= self@->Object_0.props);
                }
                r
            },
            Pat::Assign(a) => Pat::Assign(a.clone()),
        }
    }
}

impl Clone for RestPat {
    fn clone(&self) -> (r: RestPat)
        ensures
            r@ == self@,
        decreases self,
    {
        RestPat {
            span: self.span,
            dot3_token: self.dot3_token,
            arg: Box::new((*self.arg).clone()),
            type_ann: clone_type_ann(&self.type_ann),
        }
    }
}

impl Clone for ObjectPatProp {
    fn clone(&self) -> (r: ObjectPatProp)
        ensures
            r@ == self@,
        decreases self,
    {
        match self {
            ObjectPatProp::KeyValue(kv) => ObjectPatProp::KeyValue(
                KeyValuePatProp { key: kv.key, value: Box::new((*kv.value).clone()) },
            ),
            ObjectPatProp::Rest(r) => ObjectPatProp::Rest(r.clone()),
        }
    }
}

impl Clone for AssignPat {
    fn clone(&self) -> (r: AssignPat)
        ensures
            r@ == self@,
        decreases self,
    {
        AssignPat {
            span: self.span,
            left: Box::new((*self.left).clone()),
            right: Box::new((*self.right).clone()),
            type_ann: clone_type_ann(&self.type_ann),
        }
    }
}

/// The views of a run of expressions.
pub open spec fn exprs_view(es: Seq<Expr>) -> Seq<SpecExpr> {
    Seq::new(es.len(), |i: int| es[i]@)
}

/// A parameter of a function: its decorators and its pattern.
#[derive(Debug, PartialEq, Eq)]
pub struct Param {
    pub span: Span,
    pub decorators: Vec<Expr>,
    pub pat: Pat,
}

pub struct SpecParam {
    pub span: Span,
    pub decorators: Seq<SpecExpr>,
    pub pat: SpecPat,
}

impl View for Param {
    type V = SpecParam;

    open spec fn view(&self) -> SpecParam {
        SpecParam { span: self.span, decorators: exprs_view(self.decorators@), pat: self.pat@ }
    }
}

} // verus!
