use ts_pattern_checker::span::Span;
use ts_pattern_checker::symbol::Sym;
use ts_pattern_checker::ty::{KeywordKind, Type};

fn sp(lo: u32, hi: u32) -> Span {
    Span { lo, hi, ctxt: 0 }
}

fn kw(kind: KeywordKind) -> Type {
    Type::Keyword { span: sp(0, 1), kind }
}

fn array_of(elem: Type) -> Type {
    Type::Array { span: sp(0, 3), elem: Box::new(elem) }
}

#[test]
fn any_and_unknown_stand_at_the_span() {
    assert_eq!(Type::any(sp(4, 8)), Type::Keyword { span: sp(4, 8), kind: KeywordKind::Any });
    assert_eq!(Type::unknown(sp(4, 8)), Type::Keyword { span: sp(4, 8), kind: KeywordKind::Unknown });
}

#[test]
fn dummy_span_is_all_zero() {
    assert_eq!(Span::dummy(), Span { lo: 0, hi: 0, ctxt: 0 });
    assert_eq!(sp(3, 4).with_ctxt(9), Span { lo: 3, hi: 4, ctxt: 9 });
}

#[test]
fn respan_moves_only_the_outermost_node() {
    let mut t = array_of(kw(KeywordKind::Number));
    t.respan(sp(10, 20));
    assert_eq!(t.span(), sp(10, 20));
    assert_eq!(t, Type::Array { span: sp(10, 20), elem: Box::new(kw(KeywordKind::Number)) });
}

#[test]
fn clone_is_equal() {
    let t = Type::Union {
        span: sp(0, 9),
        left: Box::new(array_of(kw(KeywordKind::String))),
        right: Box::new(Type::Alias { span: sp(5, 9), name: Sym(3), target: Box::new(kw(KeywordKind::Boolean)) }),
    };
    assert_eq!(t.clone(), t);
}

#[test]
fn normalize_looks_through_aliases() {
    let inner = array_of(kw(KeywordKind::Number));
    let alias = Type::Alias { span: sp(7, 9), name: Sym(1), target: Box::new(inner.clone()) };
    let twice = Type::Alias { span: sp(8, 9), name: Sym(2), target: Box::new(alias.clone()) };
    assert_eq!(*alias.normalize(), inner);
    assert_eq!(*twice.normalize(), inner);
    assert_eq!(*inner.normalize(), inner);
}

#[test]
fn normalize_collapses_a_union_with_any() {
    let any = kw(KeywordKind::Any);
    let left = Type::Union { span: sp(0, 5), left: Box::new(any.clone()), right: Box::new(kw(KeywordKind::Number)) };
    let right = Type::Union { span: sp(0, 5), left: Box::new(kw(KeywordKind::Number)), right: Box::new(any.clone()) };
    let none = Type::Union {
        span: sp(0, 5),
        left: Box::new(kw(KeywordKind::Number)),
        right: Box::new(kw(KeywordKind::String)),
    };
    assert_eq!(*left.normalize(), any);
    assert_eq!(*right.normalize(), any);
    assert_eq!(*none.normalize(), none);
}

#[test]
fn array_or_any_classification() {
    assert!(array_of(kw(KeywordKind::Number)).is_array_or_any());
    assert!(kw(KeywordKind::Any).is_array_or_any());
    assert!(!kw(KeywordKind::Unknown).is_array_or_any());
    assert!(!kw(KeywordKind::Number).is_array_or_any());
    assert!(!kw(KeywordKind::String).is_array_or_any());
    let alias = Type::Alias { span: sp(0, 1), name: Sym(1), target: Box::new(array_of(kw(KeywordKind::Any))) };
    assert!(alias.is_array_or_any());
    assert!(kw(KeywordKind::Any).is_any());
    assert!(!kw(KeywordKind::Boolean).is_any());
}
