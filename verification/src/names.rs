//! The names that a pattern binds.

use crate::ast::{pat_view, prop_view, ObjectPatProp, Pat, SpecObjectPatProp, SpecPat};
use crate::symbol::Sym;
use vstd::prelude::*;

verus! {

/// Every name that the pattern introduces, in source order: through object
/// properties, array slots, rest elements and the left sides of defaults.
pub open spec fn pat_names(p: SpecPat) -> Seq<Sym>
    decreases p,
{
    match p {
        SpecPat::Ident(i) => seq![i.sym],
        SpecPat::Array(a) => elems_names(a.elems),
        SpecPat::Rest(r) => pat_names(*r.arg),
        SpecPat::Object(o) => props_names(o.props),
        SpecPat::Assign(a) => pat_names(*a.left),
    }
}

/// The names bound by the slots of an array pattern.
pub open spec fn elems_names(elems: Seq<Option<SpecPat>>) -> Seq<Sym>
    decreases elems,
{
    if elems.len() == 0 {
        Seq::empty()
    } else {
        elems_names(elems.drop_last()) + match elems.last() {
            Some(q) => pat_names(q),
            None => Seq::empty(),
        }
    }
}

/// The names bound by one property of an object pattern.
pub open spec fn prop_names(p: SpecObjectPatProp) -> Seq<Sym>
    decreases p,
{
    match p {
        SpecObjectPatProp::KeyValue(kv) => pat_names(*kv.value),
        SpecObjectPatProp::Rest(r) => pat_names(*r.arg),
    }
}

/// The names bound by the properties of an object pattern.
pub open spec fn props_names(props: Seq<SpecObjectPatProp>) -> Seq<Sym>
    decreases props,
{
    if props.len() == 0 {
        Seq::empty()
    } else {
        props_names(props.drop_last()) + prop_names(props.last())
    }
}

/// Appends the names that the pattern binds to `out`.
pub fn collect_names(p: &Pat, out: &mut Vec<Sym>)
    ensures
        final(out)@ == old(out)@ + pat_names(p@),
    decreases p,
{
    proof {
        reveal_with_fuel(pat_view, 2);
    }
    match p {
        Pat::Ident(i) => {
            out.push(i.sym);
        },
        Pat::Array(a) => {
            let ghost elems = p@->Array_0.elems;
            let mut i: usize = 0;
            while i < a.elems.len()
                invariant
                    i <= a.elems.len(),
                    *p == Pat::Array(*a),
                    elems == p@->Array_0.elems,
                    elems.len() == a.elems@.len(),
                    out@ == old(out)@ + elems_names(elems.take(i as int)),
                decreases a.elems.len() - i,
            {
                proof {
                    assert(elems.take(i + 1).drop_last() == elems.take(i as int));
                    assert(elems.take(i + 1).last() == elems[i as int]);
                }
                match &a.elems[i] {
                    Some(q) => {
                        proof {
                            assert(p->Array_0 == *a);
                            assert(decreases_to!(*p => p->Array_0));
                            assert(decreases_to!(*a => a.elems));
                            assert(decreases_to!(a.elems => a.elems[i as int]));
                            assert(a.elems[i as int]->0 == *q);
                            assert(decreases_to!(a.elems[i as int] => a.elems[i as int]->0));
                        }
                        collect_names(q, out);
                    },
                    None => {},
                }
                i += 1;
            }
            proof {
                assert(elems.take(a.elems.len() as int) == elems);
            }
        },
        Pat::Rest(r) => {
            collect_names(&r.arg, out);
        },
        Pat::Object(o) => {
            let ghost props = p@->Object_0.props;
            let mut i: usize = 0;
            while i < o.props.len()
                invariant
                    i <= o.props.len(),
                    *p == Pat::Object(*o),
                    props == p@->Object_0.props,
                    props.len() == o.props@.len(),
                    out@ == old(out)@ + props_names(props.take(i as int)),
                decreases o.props.len() - i,
            {
                proof {
                    reveal_with_fuel(pat_view, 3);
                    assert(props.take(i + 1).drop_last() == props.take(i as int));
                    assert(props.take(i + 1).last() == props[i as int]);
                    assert(p->Object_0 == *o);
                    assert(decreases_to!(*p => p->Object_0));
                    assert(decreases_to!(*o => o.props));
                    assert(decreases_to!(o.props => o.props[i as int]));
                }
                match &o.props[i] {
                    ObjectPatProp::KeyValue(kv) => {
                        proof {
                            assert(o.props[i as int]->KeyValue_0 == *kv);
                            assert(decreases_to!(o.props[i as int] => o.props[i as int]->KeyValue_0));
                        }
                        collect_names(&kv.value, out);
                        proof {
                            assert(props[i as int] == prop_view(o.props@[i as int]));
                            assert(prop_names(props[i as int]) == pat_names(kv.value@));
                        }
                    },
                    ObjectPatProp::Rest(r) => {
                        proof {
                            assert(o.props[i as int]->Rest_0 == *r);
                            assert(decreases_to!(o.props[i as int] => o.props[i as int]->Rest_0));
                        }
                        collect_names(&r.arg, out);
                        proof {
                            assert(props[i as int] == prop_view(o.props@[i as int]));
                            assert(prop_names(props[i as int]) == pat_names(r.arg@));
                        }
                    },
                }
                i += 1;
            }
            proof {
                assert(props.take(o.props.len() as int) == props);
            }
        },
        Pat::Assign(a) => {
            collect_names(&a.left, out);
        },
    }
}

/// The names that the pattern binds.
pub fn names_of(p: &Pat) -> (names: Vec<Sym>)
    ensures
        names@ == pat_names(p@),
{
    let mut names: Vec<Sym> = Vec::new();
    collect_names(p, &mut names);
    names
}

} // verus!
