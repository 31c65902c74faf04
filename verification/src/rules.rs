//! The rules that destructuring adds to type checking, and the walk that
//! applies them to every part of a pattern.

use crate::ast::{
    assign_view, pat_view, prop_view, rest_view, AssignPat, Expr, ExprKind, ObjectPatProp, Pat,
    Prop, PropKey, PropOrSpread, RestPat, SpecAssignPat, SpecExpr, SpecExprKind, SpecObjectPatProp,
    SpecPat, SpecRestPat,
};
use crate::errors::{Diagnostic, DiagnosticKind};
use crate::span::Span;
use crate::ty::Type;
use vstd::prelude::*;

verus! {

/// What checking an expression adds to the diagnostics: the diagnostic that
/// its check raised, if it raised one.
pub open spec fn expr_diags(e: SpecExpr) -> Seq<Diagnostic> {
    match e.ty {
        Ok(_) => Seq::empty(),
        Err(d) => seq![d],
    }
}

/// Whether an object pattern has a key-value property with this key.
pub open spec fn has_key(props: Seq<SpecObjectPatProp>, key: PropKey) -> bool {
    exists|i: int| 0 <= i < props.len() && is_key_value_for(#[trigger] props[i], key)
}

/// Whether the property is `key: ..`.
pub open spec fn is_key_value_for(p: SpecObjectPatProp, key: PropKey) -> bool {
    p matches SpecObjectPatProp::KeyValue(kv) && kv.key == key
}

/// The excess-property diagnostic of one property of a literal: a plain
/// `key: value` property whose key the pattern lacks is reported at the
/// property. A spread is not held to the rule, nor is a property of another
/// form.
pub open spec fn excess_of(props: Seq<SpecObjectPatProp>, lit: PropOrSpread) -> Seq<Diagnostic> {
    match lit {
        PropOrSpread::Prop(Prop::KeyValue(kv)) => if has_key(props, kv.key) {
            Seq::empty()
        } else {
            seq![Diagnostic { kind: DiagnosticKind::TS2353, span: kv.span }]
        },
        PropOrSpread::Prop(Prop::Other(_)) => Seq::empty(),
        PropOrSpread::Spread(_) => Seq::empty(),
    }
}

/// The excess-property diagnostics of a literal against the properties of an
/// object pattern, in the order of the literal's properties.
pub open spec fn excess_in(props: Seq<SpecObjectPatProp>, lits: Seq<PropOrSpread>) -> Seq<Diagnostic>
    decreases lits.len(),
{
    if lits.len() == 0 {
        Seq::empty()
    } else {
        excess_in(props, lits.drop_last()) + excess_of(props, lits.last())
    }
}

/// The excess-property rule for `left = right`: it applies where the left
/// side is an object pattern and the right side an object literal, and
/// nowhere else.
pub open spec fn excess_diags(left: SpecPat, right: SpecExpr) -> Seq<Diagnostic> {
    match (left, right.kind) {
        (SpecPat::Object(o), SpecExprKind::Object(lit)) => excess_in(o.props, lit.props),
        _ => Seq::empty(),
    }
}

/// What a rest element says of the type it was found to have: nothing where
/// the type is an array type or `any`, else that a rest element must be of an
/// array type, at the three dots. Where finding the type failed, the failure.
pub open spec fn rest_type_diags(dot3_token: Span, ty: Result<Type, Diagnostic>) -> Seq<Diagnostic> {
    match ty {
        Ok(t) => if t.spec_is_array_or_any() {
            Seq::empty()
        } else {
            seq![Diagnostic { kind: DiagnosticKind::TS2370, span: dot3_token }]
        },
        Err(d) => seq![d],
    }
}

/// The rest rule. Where the element has an annotation of its own, the type
/// it resolved to decides, and a default is not looked at; else the type of
/// its default decides, if it has one. An element with neither is not held
/// to the rule.
pub open spec fn rest_diags(r: SpecRestPat) -> Seq<Diagnostic> {
    match r.type_ann {
        Some(ann) => rest_type_diags(r.dot3_token, ann.resolved),
        None => match *r.arg {
            SpecPat::Assign(a) => rest_type_diags(r.dot3_token, a.right.ty),
            _ => Seq::empty(),
        },
    }
}

/// The diagnostics of a pattern's parts: those of every rest element and of
/// every default in it, the inner ones first.
pub open spec fn pat_diags(p: SpecPat) -> Seq<Diagnostic>
    decreases p,
{
    match p {
        SpecPat::Ident(_) => Seq::empty(),
        SpecPat::Array(a) => elems_diags(a.elems),
        SpecPat::Rest(r) => rest_pat_diags(r),
        SpecPat::Object(o) => props_diags(o.props),
        SpecPat::Assign(a) => assign_pat_diags(a),
    }
}

pub open spec fn elems_diags(elems: Seq<Option<SpecPat>>) -> Seq<Diagnostic>
    decreases elems,
{
    if elems.len() == 0 {
        Seq::empty()
    } else {
        elems_diags(elems.drop_last()) + match elems.last() {
            Some(q) => pat_diags(q),
            None => Seq::empty(),
        }
    }
}

pub open spec fn prop_diags(p: SpecObjectPatProp) -> Seq<Diagnostic>
    decreases p,
{
    match p {
        SpecObjectPatProp::KeyValue(kv) => pat_diags(*kv.value),
        SpecObjectPatProp::Rest(r) => rest_pat_diags(r),
    }
}

pub open spec fn props_diags(props: Seq<SpecObjectPatProp>) -> Seq<Diagnostic>
    decreases props,
{
    if props.len() == 0 {
        Seq::empty()
    } else {
        props_diags(props.drop_last()) + prop_diags(props.last())
    }
}

/// All that validating a rest element reports: what its argument reports,
/// then what the rest rule says.
pub open spec fn rest_pat_diags(r: SpecRestPat) -> Seq<Diagnostic>
    decreases r,
{
    pat_diags(*r.arg) + rest_diags(r)
}

/// All that validating `left = right` reports: what the left side reports,
/// what the default reports, then what the excess-property rule says.
pub open spec fn assign_pat_diags(a: SpecAssignPat) -> Seq<Diagnostic>
    decreases a,
{
    pat_diags(*a.left) + expr_diags(a.right) + excess_diags(*a.left, a.right)
}

/// Records what checking the expression raised.
pub fn check_expr(e: &Expr, out: &mut Vec<Diagnostic>)
    ensures
        final(out)@ == old(out)@ + expr_diags(e@),
{
    match &e.ty {
        Ok(_) => {},
        Err(d) => {
            out.push(*d);
        },
    }
}

/// Whether the properties of an object pattern hold `key: ..`.
pub fn pattern_has_key(props: &Vec<ObjectPatProp>, key: PropKey) -> (b: bool)
    ensures
        b == has_key(Seq::new(props@.len(), |i: int| prop_view(props@[i])), key),
{
    let ghost views = Seq::new(props@.len(), |i: int| prop_view(props@[i]));
    let mut i: usize = 0;
    while i < props.len()
        invariant
            i <= props.len(),
            views == Seq::new(props@.len(), |i: int| prop_view(props@[i])),
            forall|j: int| 0 <= j < i ==> !is_key_value_for(#[trigger] views[j], key),
        decreases props.len() - i,
    {
        proof {
            assert(views[i as int] == prop_view(props@[i as int]));
        }
        match &props[i] {
            ObjectPatProp::KeyValue(kv) => {
                if kv.key == key {
                    assert(is_key_value_for(views[i as int], key));
                    return true;
                }
            },
            ObjectPatProp::Rest(_) => {},
        }
        i += 1;
    }
    false
}

/// The excess-property rule: reports every key-value property of the
/// default that the object pattern on the left has no key for.
pub fn check_excess_properties(left: &Pat, right: &Expr, out: &mut Vec<Diagnostic>)
    ensures
        final(out)@ == old(out)@ + excess_diags(left@, right@),
{
    match left {
        Pat::Object(o) => match &right.kind {
            ExprKind::Object(lit) => {
                let ghost props = left@->Object_0.props;
                proof {
                    assert(props =~= Seq::new(o.props@.len(), |i: int| prop_view(o.props@[i])));
                }
                let mut i: usize = 0;
                while i < lit.props.len()
                    invariant
                        i <= lit.props.len(),
                        props == Seq::new(o.props@.len(), |i: int| prop_view(o.props@[i])),
                        out@ == old(out)@ + excess_in(props, lit.props@.take(i as int)),
                    decreases lit.props.len() - i,
                {
                    proof {
                        assert(lit.props@.take(i + 1).drop_last() == lit.props@.take(i as int));
                        assert(lit.props@.take(i + 1).last() == lit.props@[i as int]);
                    }
                    match lit.props[i] {
                        PropOrSpread::Prop(Prop::KeyValue(kv)) => {
                            if !pattern_has_key(&o.props, kv.key) {
                                out.push(Diagnostic { kind: DiagnosticKind::TS2353, span: kv.span });
                            }
                        },
                        PropOrSpread::Prop(Prop::Other(_)) => {},
                        PropOrSpread::Spread(_) => {},
                    }
                    i += 1;
                }
                proof {
                    assert(lit.props@.take(lit.props.len() as int) == lit.props@);
                }
            },
            ExprKind::Other => {},
        },
        _ => {},
    }
}

/// Holds a rest element to the type it was found to have.
pub fn check_rest_type(dot3_token: Span, ty: &Result<Type, Diagnostic>, out: &mut Vec<Diagnostic>)
    ensures
        final(out)@ == old(out)@ + rest_type_diags(dot3_token, *ty),
{
    match ty {
        Ok(t) => {
            if !t.is_array_or_any() {
                out.push(Diagnostic { kind: DiagnosticKind::TS2370, span: dot3_token });
            }
        },
        Err(d) => {
            out.push(*d);
        },
    }
}

/// The rest rule.
pub fn check_rest(r: &RestPat, out: &mut Vec<Diagnostic>)
    ensures
        final(out)@ == old(out)@ + rest_diags(r@),
{
    proof {
        reveal_with_fuel(rest_view, 3);
    }
    match &r.type_ann {
        Some(ann) => {
            check_rest_type(r.dot3_token, &ann.resolved, out);
        },
        None => match &*r.arg {
            Pat::Assign(a) => {
                check_rest_type(r.dot3_token, &a.right.ty, out);
            },
            _ => {},
        },
    }
}

/// Applies the rules to every part of a pattern, the inner parts first.
pub fn check_pat(p: &Pat, out: &mut Vec<Diagnostic>)
    ensures
        final(out)@ == old(out)@ + pat_diags(p@),
    decreases p, 0nat,
{
    proof {
        reveal_with_fuel(pat_view, 2);
    }
    match p {
        Pat::Ident(_) => {},
        Pat::Array(a) => {
            let ghost elems = p@->Array_0.elems;
            let mut i: usize = 0;
            while i < a.elems.len()
                invariant
                    i <= a.elems.len(),
                    *p == Pat::Array(*a),
                    elems == p@->Array_0.elems,
                    elems.len() == a.elems@.len(),
                    out@ == old(out)@ + elems_diags(elems.take(i as int)),
                decreases a.elems.len() - i,
            {
                proof {
                    assert(elems.take(i + 1).drop_last() == elems.take(i as int));
                    assert(elems.take(i + 1).last() == elems[i as int]);
                }
                match &a.elems[i] {
                    Some(q) => {
                        proof {
                            assert(p->Array_0 == *a);
                            assert(decreases_to!(*p => p->Array_0));
                            assert(decreases_to!(*a => a.elems));
                            assert(decreases_to!(a.elems => a.elems[i as int]));
                            assert(a.elems[i as int]->0 == *q);
                            assert(decreases_to!(a.elems[i as int] => a.elems[i as int]->0));
                        }
                        check_pat(q, out);
                    },
                    None => {},
                }
                i += 1;
            }
            proof {
                assert(elems.take(a.elems.len() as int) == elems);
            }
        },
        Pat::Rest(r) => {
            check_rest_pat(r, out);
        },
        Pat::Object(o) => {
            let ghost props = p@->Object_0.props;
            let mut i: usize = 0;
            while i < o.props.len()
                invariant
                    i <= o.props.len(),
                    *p == Pat::Object(*o),
                    props == p@->Object_0.props,
                    props.len() == o.props@.len(),
                    out@ == old(out)@ + props_diags(props.take(i as int)),
                decreases o.props.len() - i,
            {
                proof {
                    reveal_with_fuel(pat_view, 3);
                    assert(props.take(i + 1).drop_last() == props.take(i as int));
                    assert(props.take(i + 1).last() == props[i as int]);
                    assert(props[i as int] == prop_view(o.props@[i as int]));
                    assert(p->Object_0 == *o);
                    assert(decreases_to!(*p => p->Object_0));
                    assert(decreases_to!(*o => o.props));
                    assert(decreases_to!(o.props => o.props[i as int]));
                }
                match &o.props[i] {
                    ObjectPatProp::KeyValue(kv) => {
                        proof {
                            assert(o.props[i as int]->KeyValue_0 == *kv);
                            assert(decreases_to!(o.props[i as int] => o.props[i as int]->KeyValue_0));
                        }
                        check_pat(&kv.value, out);
                        proof {
                            assert(prop_diags(props[i as int]) == pat_diags(kv.value@));
                        }
                    },
                    ObjectPatProp::Rest(r) => {
                        proof {
                            assert(o.props[i as int]->Rest_0 == *r);
                            assert(decreases_to!(o.props[i as int] => o.props[i as int]->Rest_0));
                        }
                        check_rest_pat(r, out);
                        proof {
                            assert(prop_diags(props[i as int]) == rest_pat_diags(r@));
                        }
                    },
                }
                i += 1;
            }
            proof {
                assert(props.take(o.props.len() as int) == props);
            }
        },
        Pat::Assign(a) => {
            check_assign_pat(a, out);
        },
    }
}

/// Validates a rest element: its argument first, then the rest rule.
pub fn check_rest_pat(r: &RestPat, out: &mut Vec<Diagnostic>)
    ensures
        final(out)@ == old(out)@ + rest_pat_diags(r@),
    decreases r, 1nat,
{
    proof {
        reveal_with_fuel(rest_view, 2);
    }
    check_pat(&r.arg, out);
    check_rest(r, out);
}

/// Validates `left = right`: the left side first, then the default, then
/// the excess-property rule.
pub fn check_assign_pat(a: &AssignPat, out: &mut Vec<Diagnostic>)
    ensures
        final(out)@ == old(out)@ + assign_pat_diags(a@),
    decreases a, 1nat,
{
    proof {
        reveal_with_fuel(assign_view, 2);
    }
    check_pat(&a.left, out);
    check_expr(&a.right, out);
    check_excess_properties(&a.left, &a.right, out);
}

} // verus!
