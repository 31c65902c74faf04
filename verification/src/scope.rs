//! The scope binder: which names are being declared, and which have a type.

use crate::ast::{Pat, SpecPat};
use crate::errors::{Diagnostic, DiagnosticKind};
use crate::names::{names_of, pat_names};
use crate::symbol::Sym;
use crate::ty::{KeywordKind, Type};
use vstd::prelude::*;

verus! {

#[derive(Clone, Copy, Debug, PartialEq, Eq, Hash, Structural)]
pub enum VarDeclKind {
    Var,
    Let,
    Const,
}

/// One registered binding.
#[derive(Debug, PartialEq, Eq)]
pub struct VarInfo {
    pub name: Sym,
    pub kind: VarDeclKind,
    pub ty: Type,
}

impl Clone for VarInfo {
    fn clone(&self) -> (r: VarInfo)
        ensures
            r == *self,
    {
        VarInfo { name: self.name, kind: self.kind, ty: self.ty.clone() }
    }
}

/// Whether `names` holds `name`.
pub fn has_name(names: &Vec<Sym>, name: Sym) -> (b: bool)
    ensures
        b == names@.contains(name),
{
    let mut i: usize = 0;
    while i < names.len()
        invariant
            i <= names.len(),
            forall|j: int| 0 <= j < i ==> names@[j] != name,
        decreases names.len() - i,
    {
        if names[i] == name {
            return true;
        }
        i += 1;
    }
    false
}

/// The type under which a pattern's names are registered: the one given, or
/// `any` at the pattern's position where none is given.
pub open spec fn declared_type(p: SpecPat, ty: Option<Type>) -> Type {
    match ty {
        Some(t) => t,
        None => Type::spec_any(p.span()),
    }
}

/// Why a pattern cannot be declared with a type, if it cannot: an array
/// pattern takes a type whose normal form is an array type, `any` or
/// `unknown`. The diagnostic stands at the pattern.
pub open spec fn declare_conflict(p: SpecPat, ty: Option<Type>) -> Option<Diagnostic> {
    if p is Array && ty is Some && !takes_array_pattern(ty->0.normalized()) {
        Some(Diagnostic { kind: DiagnosticKind::TS2461, span: p.span() })
    } else {
        None
    }
}

/// Whether a type in normal form can be taken apart by an array pattern.
pub open spec fn takes_array_pattern(t: Type) -> bool {
    ||| t is Array
    ||| t matches Type::Keyword { kind: KeywordKind::Any, .. }
    ||| t matches Type::Keyword { kind: KeywordKind::Unknown, .. }
}

/// The bindings that declaring `names` with one kind and one type adds, in
/// the order of the names.
pub open spec fn bindings_for(names: Seq<Sym>, kind: VarDeclKind, ty: Type) -> Seq<VarInfo> {
    Seq::new(names.len(), |i: int| VarInfo { name: names[i], kind, ty })
}

/// The binding that a lookup of `name` finds among `vars`: the one
/// registered last.
pub open spec fn find_binding(vars: Seq<VarInfo>, name: Sym) -> Option<VarInfo>
    decreases vars.len(),
{
    if vars.len() == 0 {
        None
    } else if vars.last().name == name {
        Some(vars.last())
    } else {
        find_binding(vars.drop_last(), name)
    }
}

/// One lexical scope.
pub struct Scope {
    declaring: Vec<Sym>,
    vars: Vec<VarInfo>,
}

impl Scope {
    /// The names that are being declared.
    pub closed spec fn declaring(&self) -> Set<Sym> {
        self.declaring@.to_set()
    }

    /// The bindings registered so far, oldest first.
    pub closed spec fn vars(&self) -> Seq<VarInfo> {
        self.vars@
    }

    /// The binding of a name, if it has one.
    pub open spec fn binding(&self, name: Sym) -> Option<VarInfo> {
        find_binding(self.vars(), name)
    }

    /// An empty scope.
    pub fn new() -> (s: Scope)
        ensures
            s.declaring() == Set::<Sym>::empty(),
            s.vars() == Seq::<VarInfo>::empty(),
    {
        let s = Scope { declaring: Vec::new(), vars: Vec::new() };
        assert(s.declaring@.to_set() =~= Set::<Sym>::empty());
        s
    }

    /// The bindings registered so far, oldest first.
    pub fn bindings(&self) -> (v: &Vec<VarInfo>)
        ensures
            v@ == self.vars(),
    {
        &self.vars
    }

    /// Whether a name is being declared.
    pub fn is_declaring(&self, name: Sym) -> (b: bool)
        ensures
            b == self.declaring().contains(name),
    {
        has_name(&self.declaring, name)
    }

    /// Marks each of `names` as being declared. A name that is marked
    /// already stays marked.
    pub fn extend_declaring(&mut self, names: &Vec<Sym>)
        ensures
            final(self).declaring() == old(self).declaring().union(names@.to_set()),
            final(self).vars() == old(self).vars(),
    {
        let mut i: usize = 0;
        while i < names.len()
            invariant
                i <= names.len(),
                self.vars == old(self).vars,
                self.declaring@.to_set() == old(self).declaring@.to_set().union(
                    names@.take(i as int).to_set(),
                ),
            decreases names.len() - i,
        {
            let ghost before = self.declaring@;
            self.declaring.push(names[i]);
            proof {
                let x = names@[i as int];
                assert(names@.take(i + 1) == names@.take(i as int).push(x));
                lemma_push_to_set(before, x);
                lemma_push_to_set(names@.take(i as int), x);
                assert(self.declaring@.to_set() =~= old(self).declaring@.to_set().union(
                    names@.take(i + 1).to_set(),
                ));
            }
            i += 1;
        }
        proof {
            assert(names@.take(names.len() as int) == names@);
        }
    }

    /// Takes the mark off each of `names`. A name that is not marked is
    /// passed over.
    pub fn remove_declaring(&mut self, names: &Vec<Sym>)
        ensures
            final(self).declaring() == old(self).declaring().difference(names@.to_set()),
            final(self).vars() == old(self).vars(),
    {
        let mut kept: Vec<Sym> = Vec::new();
        let mut i: usize = 0;
        while i < self.declaring.len()
            invariant
                i <= self.declaring.len(),
                *self == *old(self),
                kept@.to_set() == self.declaring@.take(i as int).to_set().difference(names@.to_set()),
            decreases self.declaring.len() - i,
        {
            let x = self.declaring[i];
            let ghost before = kept@;
            proof {
                assert(self.declaring@.take(i + 1) == self.declaring@.take(i as int).push(x));
                lemma_push_to_set(self.declaring@.take(i as int), x);
            }
            if !has_name(names, x) {
                kept.push(x);
                proof {
                    lemma_push_to_set(before, x);
                }
            }
            proof {
                assert(kept@.to_set() =~= self.declaring@.take(i + 1).to_set().difference(
                    names@.to_set(),
                ));
            }
            i += 1;
        }
        proof {
            assert(self.declaring@.take(self.declaring.len() as int) == self.declaring@);
        }
        self.declaring = kept;
    }

    /// Registers every name that the pattern binds, with the type given, or
    /// with `any` where none is given. Where the pattern cannot be declared
    /// with the type, nothing is registered and the reason comes back.
    pub fn declare_vars_with_ty(&mut self, kind: VarDeclKind, p: &Pat, ty: Option<Type>) -> (r: Result<
        (),
        Diagnostic,
    >)
        ensures
            final(self).declaring() == old(self).declaring(),
            match r {
                Ok(_) => declare_conflict(p@, ty) is None && final(self).vars() == old(self).vars()
                    + bindings_for(pat_names(p@), kind, declared_type(p@, ty)),
                Err(d) => declare_conflict(p@, ty) == Some(d) && final(self).vars() == old(
                    self,
                ).vars(),
            },
    {
        let span = p.span();
        let is_array = match p {
            Pat::Array(_) => true,
            _ => false,
        };
        let ty = match ty {
            Some(t) => {
                if is_array && !can_take_array_pattern(&t) {
                    return Err(Diagnostic { kind: DiagnosticKind::TS2461, span });
                }
                t
            },
            None => Type::any(span),
        };
        let names = names_of(p);
        let ghost added = bindings_for(names@, kind, ty);
        let mut i: usize = 0;
        while i < names.len()
            invariant
                i <= names.len(),
                self.declaring == old(self).declaring,
                added == bindings_for(names@, kind, ty),
                self.vars@ == old(self).vars@ + added.take(i as int),
            decreases names.len() - i,
        {
            self.vars.push(VarInfo { name: names[i], kind, ty: ty.clone() });
            proof {
                assert(added.take(i + 1) == added.take(i as int).push(added[i as int]));
            }
            i += 1;
        }
        proof {
            assert(added.take(names.len() as int) == added);
        }
        Ok(())
    }

    /// The binding that a name has, if it has one.
    pub fn lookup(&self, name: Sym) -> (r: Option<VarInfo>)
        ensures
            r == self.binding(name),
    {
        let mut i: usize = self.vars.len();
        proof {
            assert(self.vars@.take(i as int) == self.vars@);
        }
        while i > 0
            invariant
                i <= self.vars.len(),
                find_binding(self.vars@, name) == find_binding(self.vars@.take(i as int), name),
            decreases i,
        {
            proof {
                let s = self.vars@.take(i as int);
                assert(s.last() == self.vars@[i - 1]);
                assert(s.drop_last() == self.vars@.take(i - 1));
            }
            if self.vars[i - 1].name == name {
                return Some(self.vars[i - 1].clone());
            }
            i -= 1;
        }
        proof {
            assert(self.vars@.take(self.vars.len() as int) == self.vars@);
        }
        None
    }
}

/// Whether an array pattern can take the type apart.
pub fn can_take_array_pattern(t: &Type) -> (b: bool)
    ensures
        b == takes_array_pattern(t.normalized()),
{
    match t.normalize() {
        Type::Array { .. } => true,
        Type::Keyword { kind: KeywordKind::Any, .. } => true,
        Type::Keyword { kind: KeywordKind::Unknown, .. } => true,
        _ => false,
    }
}

/// The set of a sequence with one more item is the set of the sequence with
/// that item put in.
pub proof fn lemma_push_to_set<A>(s: Seq<A>, x: A)
    ensures
        s.push(x).to_set() == s.to_set().insert(x),
{
    assert forall|a: A| #[trigger] s.push(x).to_set().contains(a) <==> s.to_set().insert(x).contains(a) by {
        if s.push(x).contains(a) {
            let k = choose|k: int| 0 <= k < s.push(x).len() && s.push(x)[k] == a;
            if k < s.len() {
                assert(s[k] == a);
            }
        }
        if s.contains(a) {
            let k = choose|k: int| 0 <= k < s.len() && s[k] == a;
            assert(s.push(x)[k] == a);
        }
        if a == x {
            assert(s.push(x)[s.len() as int] == a);
        }
    }
    assert(s.push(x).to_set() =~= s.to_set().insert(x));
}

} // verus!
