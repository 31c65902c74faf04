use ts_pattern_checker::analyzer::{Analyzer, Ctx, PatMode};
use ts_pattern_checker::hygiene::Hygiene;
use ts_pattern_checker::span::Span;
use ts_pattern_checker::ty::{KeywordKind, Type};

fn analyzer() -> Analyzer {
    Analyzer::new(Ctx { pat_mode: PatMode::Decl, in_argument: false })
}

fn number_at(lo: u32, hi: u32) -> Type {
    Type::Keyword { span: Span { lo, hi, ctxt: 0 }, kind: KeywordKind::Number }
}

#[test]
fn written_type_is_not_implicit() {
    let a = analyzer();
    let ty = number_at(3, 9);
    assert!(!a.is_implicitly_typed(&ty));
    assert!(!a.is_implicitly_typed_span(Span { lo: 3, hi: 9, ctxt: 0 }));
}

#[test]
fn marked_type_is_implicit_and_keeps_its_region() {
    let mut a = analyzer();
    let mut ty = number_at(3, 9);
    a.mark_as_implicit(&mut ty);
    assert!(a.is_implicitly_typed(&ty));
    let span = ty.span();
    assert_eq!(span.lo, 3);
    assert_eq!(span.hi, 9);
    assert_ne!(span.ctxt, 0);
    assert!(matches!(ty, Type::Keyword { kind: KeywordKind::Number, .. }));
    assert!(a.is_implicitly_typed_span(span));
}

#[test]
fn marking_one_type_leaves_others_unmarked() {
    let mut a = analyzer();
    let mut inferred = number_at(1, 2);
    let written = number_at(1, 2);
    a.mark_as_implicit(&mut inferred);
    assert!(a.is_implicitly_typed(&inferred));
    assert!(!a.is_implicitly_typed(&written));
}

#[test]
fn marking_twice_keeps_both_marks_in_the_chain() {
    let mut a = analyzer();
    let mut ty = number_at(5, 6);
    a.mark_as_implicit(&mut ty);
    let once = ty.span().ctxt;
    a.mark_as_implicit(&mut ty);
    let twice = ty.span().ctxt;
    assert_ne!(once, twice);
    assert!(a.is_implicitly_typed(&ty));
    assert!(a.is_implicitly_typed_span(Span { lo: 0, hi: 0, ctxt: once }));
}

#[test]
fn same_position_marked_again_gets_the_same_context() {
    let mut a = analyzer();
    let mut first = number_at(5, 6);
    let mut second = number_at(7, 8);
    a.mark_as_implicit(&mut first);
    a.mark_as_implicit(&mut second);
    assert_eq!(first.span().ctxt, second.span().ctxt);
    assert_eq!(second.span().lo, 7);
}

#[test]
fn try_mark_refuses_a_context_it_never_made() {
    let mut a = analyzer();
    let mut ty = Type::Keyword { span: Span { lo: 1, hi: 2, ctxt: 40 }, kind: KeywordKind::String };
    let before = ty.clone();
    assert!(!a.try_mark_as_implicit(&mut ty));
    assert_eq!(ty, before);
    assert!(!a.is_implicitly_typed(&ty));
}

#[test]
fn try_mark_marks_where_it_can() {
    let mut a = analyzer();
    let mut ty = number_at(1, 2);
    assert!(a.try_mark_as_implicit(&mut ty));
    assert!(a.is_implicitly_typed(&ty));
}

#[test]
fn unknown_context_carries_no_mark() {
    let a = analyzer();
    assert!(!a.is_implicitly_typed_span(Span { lo: 0, hi: 0, ctxt: 7 }));
}

#[test]
fn hygiene_knows_only_what_it_made() {
    let mut h = Hygiene::new();
    assert!(h.knows(0));
    assert!(!h.knows(1));
    let sp = Span { lo: 10, hi: 20, ctxt: 0 };
    assert!(h.can_mark(sp));
    let marked = h.mark(sp);
    assert_eq!(marked.lo, 10);
    assert_eq!(marked.hi, 20);
    assert_eq!(marked.ctxt, 1);
    assert!(h.knows(1));
    assert!(h.is_marked(marked));
    assert!(!h.is_marked(sp));
    let again = h.mark(marked);
    assert_eq!(again.ctxt, 2);
    assert!(h.is_marked(again));
}

#[test]
fn a_fresh_analyzer_holds_no_context_of_another() {
    let mut a = analyzer();
    let b = analyzer();
    let mut ty = number_at(1, 2);
    a.mark_as_implicit(&mut ty);
    assert!(a.is_implicitly_typed(&ty));
    assert!(!b.hygiene().knows(ty.span().ctxt));
    assert!(!b.is_implicitly_typed(&ty));
}

#[test]
fn fresh_marks_are_new_each_time() {
    let mut a = analyzer();
    assert_eq!(a.fresh_mark(), Some(2));
    assert_eq!(a.fresh_mark(), Some(3));
    let mut h = Hygiene::new();
    assert_eq!(h.fresh_mark(), Some(2));
}

#[test]
fn implicit_mark_below_another_is_still_found() {
    let mut a = analyzer();
    let foreign = a.fresh_mark().unwrap();
    let mut ty = number_at(4, 8);
    a.mark_as_implicit(&mut ty);
    let below = ty.span().ctxt;
    assert!(a.try_mark_with(&mut ty, foreign));
    assert_ne!(ty.span().ctxt, below);
    assert_eq!(ty.span().lo, 4);
    assert_eq!(ty.span().hi, 8);
    assert!(a.is_implicitly_typed(&ty));
}

#[test]
fn implicit_mark_above_another_is_found() {
    let mut a = analyzer();
    let foreign = a.fresh_mark().unwrap();
    let mut ty = number_at(4, 8);
    assert!(a.try_mark_with(&mut ty, foreign));
    assert!(!a.is_implicitly_typed(&ty));
    a.mark_as_implicit(&mut ty);
    assert!(a.is_implicitly_typed(&ty));
}

#[test]
fn a_foreign_mark_alone_is_not_the_implicit_mark() {
    let mut a = analyzer();
    let first = a.fresh_mark().unwrap();
    let second = a.fresh_mark().unwrap();
    let mut ty = number_at(4, 8);
    assert!(a.try_mark_with(&mut ty, first));
    assert!(a.try_mark_with(&mut ty, second));
    assert!(!a.is_implicitly_typed(&ty));
}

#[test]
fn try_mark_with_refuses_the_root_mark_and_unknown_contexts() {
    let mut a = analyzer();
    let mut ty = number_at(4, 8);
    let before = ty.clone();
    assert!(!a.try_mark_with(&mut ty, 0));
    assert_eq!(ty, before);
    let mut elsewhere = Type::Keyword { span: Span { lo: 1, hi: 2, ctxt: 9 }, kind: KeywordKind::Any };
    assert!(!a.try_mark_with(&mut elsewhere, 5));
    assert_eq!(elsewhere.span().ctxt, 9);
}

#[test]
fn apply_mark_puts_any_mark() {
    let mut h = Hygiene::new();
    let foreign = h.fresh_mark().unwrap();
    let sp = Span { lo: 10, hi: 20, ctxt: 0 };
    let marked = h.apply_mark(sp, foreign);
    assert_eq!((marked.lo, marked.hi), (10, 20));
    assert_ne!(marked.ctxt, 0);
    assert!(!h.is_marked(marked));
    let both = h.mark(marked);
    assert!(h.is_marked(both));
    let above = h.apply_mark(both, foreign);
    assert!(h.is_marked(above));
    assert_eq!(h.apply_mark(sp, foreign).ctxt, marked.ctxt);
}
