//! Resolved types, as far as pattern validation looks into them.

use crate::span::Span;
use crate::symbol::Sym;
use vstd::prelude::*;

verus! {

#[derive(Clone, Copy, Debug, PartialEq, Eq, Hash, Structural)]
pub enum KeywordKind {
    Any,
    Unknown,
    Number,
    String,
    Boolean,
}

/// A resolved type.
#[derive(Debug, PartialEq, Eq)]
pub enum Type {
    /// One of the built-in types.
    Keyword { span: Span, kind: KeywordKind },
    /// `elem[]`.
    Array { span: Span, elem: Box<Type> },
    /// A named alias, together with the type it stands for.
    Alias { span: Span, name: Sym, target: Box<Type> },
    /// `left | right`.
    Union { span: Span, left: Box<Type>, right: Box<Type> },
}

impl Clone for Type {
    fn clone(&self) -> (r: Type)
        ensures
            r == *self,
        decreases self,
    {
        match self {
            Type::Keyword { span, kind } => Type::Keyword { span: *span, kind: *kind },
            Type::Array { span, elem } => {
                let e = (**elem).clone();
                Type::Array { span: *span, elem: Box::new(e) }
            },
            Type::Alias { span, name, target } => {
                let t = (**target).clone();
                Type::Alias { span: *span, name: *name, target: Box::new(t) }
            },
            Type::Union { span, left, right } => {
                let l = (**left).clone();
                let r = (**right).clone();
                Type::Union { span: *span, left: Box::new(l), right: Box::new(r) }
            },
        }
    }
}

impl Type {
    /// The dynamic type `any`, standing at `span`.
    pub open spec fn spec_any(span: Span) -> Type {
        Type::Keyword { span, kind: KeywordKind::Any }
    }

    #[verifier::when_used_as_spec(spec_any)]
    pub fn any(span: Span) -> (t: Type)
        ensures
            t == Type::spec_any(span),
    {
        Type::Keyword { span, kind: KeywordKind::Any }
    }

    /// The type `unknown`, standing at `span`.
    pub open spec fn spec_unknown(span: Span) -> Type {
        Type::Keyword { span, kind: KeywordKind::Unknown }
    }

    #[verifier::when_used_as_spec(spec_unknown)]
    pub fn unknown(span: Span) -> (t: Type)
        ensures
            t == Type::spec_unknown(span),
    {
        Type::Keyword { span, kind: KeywordKind::Unknown }
    }

    /// Where the type stands.
    pub open spec fn spec_span(&self) -> Span {
        match self {
            Type::Keyword { span, .. } => *span,
            Type::Array { span, .. } => *span,
            Type::Alias { span, .. } => *span,
            Type::Union { span, .. } => *span,
        }
    }

    #[verifier::when_used_as_spec(spec_span)]
    pub fn span(&self) -> (s: Span)
        ensures
            s == self.spec_span(),
    {
        match self {
            Type::Keyword { span, .. } => *span,
            Type::Array { span, .. } => *span,
            Type::Alias { span, .. } => *span,
            Type::Union { span, .. } => *span,
        }
    }

    /// The same type standing at `span`. Only the outermost node moves.
    pub open spec fn respanned(self, span: Span) -> Type {
        match self {
            Type::Keyword { kind, .. } => Type::Keyword { span, kind },
            Type::Array { elem, .. } => Type::Array { span, elem },
            Type::Alias { name, target, .. } => Type::Alias { span, name, target },
            Type::Union { left, right, .. } => Type::Union { span, left, right },
        }
    }

    /// Moves the type to `span`.
    pub fn respan(&mut self, span: Span)
        ensures
            *final(self) == old(self).respanned(span),
    {
        match self {
            Type::Keyword { span: s, .. } => {
                *s = span;
            },
            Type::Array { span: s, .. } => {
                *s = span;
            },
            Type::Alias { span: s, .. } => {
                *s = span;
            },
            Type::Union { span: s, .. } => {
                *s = span;
            },
        }
    }

    /// Whether the type is `any` itself.
    pub open spec fn spec_is_any(&self) -> bool {
        self matches Type::Keyword { kind: KeywordKind::Any, .. }
    }

    #[verifier::when_used_as_spec(spec_is_any)]
    pub fn is_any(&self) -> (b: bool)
        ensures
            b == self.spec_is_any(),
    {
        match self {
            Type::Keyword { kind: KeywordKind::Any, .. } => true,
            _ => false,
        }
    }

    /// The shape that the type has once names are looked through: an alias
    /// is the type it stands for, and a union with `any` on either side is
    /// that `any`. Every other type is its own normal form.
    pub open spec fn normalized(self) -> Type
        decreases self,
    {
        match self {
            Type::Alias { target, .. } => (*target).normalized(),
            Type::Union { left, right, .. } => {
                if (*left).normalized().spec_is_any() {
                    (*left).normalized()
                } else if (*right).normalized().spec_is_any() {
                    (*right).normalized()
                } else {
                    self
                }
            },
            _ => self,
        }
    }

    /// Looks through aliases and unions with `any`.
    pub fn normalize(&self) -> (n: &Type)
        ensures
            *n == self.normalized(),
        decreases self,
    {
        match self {
            Type::Alias { target, .. } => target.normalize(),
            Type::Union { left, right, .. } => {
                let l = left.normalize();
                if l.is_any() {
                    l
                } else {
                    let r = right.normalize();
                    if r.is_any() {
                        r
                    } else {
                        self
                    }
                }
            },
            _ => self,
        }
    }

    /// Whether a rest element may have this type: its normal form is an
    /// array type or `any`.
    pub open spec fn spec_is_array_or_any(&self) -> bool {
        self.normalized() is Array || self.normalized().spec_is_any()
    }

    #[verifier::when_used_as_spec(spec_is_array_or_any)]
    pub fn is_array_or_any(&self) -> (b: bool)
        ensures
            b == self.spec_is_array_or_any(),
    {
        match self.normalize() {
            Type::Array { .. } => true,
            Type::Keyword { kind: KeywordKind::Any, .. } => true,
            _ => false,
        }
    }
}

/// A normal form is never an alias, and normalizing it again changes nothing.
pub proof fn lemma_normalized_idempotent(t: Type)
    ensures
        !(t.normalized() is Alias),
        t.normalized().normalized() == t.normalized(),
    decreases t,
{
    match t {
        Type::Alias { target, .. } => {
            lemma_normalized_idempotent(*target);
        },
        Type::Union { left, right, .. } => {
            lemma_normalized_idempotent(*left);
            lemma_normalized_idempotent(*right);
        },
        _ => {},
    }
}

} // verus!
