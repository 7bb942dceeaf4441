use unifier::substitution::{apply, Substitution};
use unifier::unification::unify;

#[test]
fn new_substitution_is_empty() {
    let sub = Substitution::new();
    assert_eq!(sub.len(), 0);
    assert!(sub.get("x1").is_none());
    assert_eq!(apply(&sub, "f(x1, y2)"), "f(x1, y2)");
}

#[test]
fn single_substitution_binds_one_variable() {
    let sub = Substitution::single("x1", "f(a, b)");
    assert_eq!(sub.len(), 1);
    assert_eq!(sub.get("x1").unwrap(), "f(a, b)");
    assert!(sub.get("x2").is_none());
}

#[test]
fn compose_is_right_biased_and_keeps_positions() {
    let mut sub = Substitution::single("x1", "a1");
    let rebind = Substitution::single("x1", "f(b1, b1)");
    sub.compose(&rebind);
    assert_eq!(sub.len(), 1);
    assert_eq!(sub.get("x1").unwrap(), "f(b1, b1)");

    let extra = Substitution::single("y1", "c1");
    sub.compose(&extra);
    assert_eq!(sub.len(), 2);
    assert_eq!(sub.key_at(0), "x1");
    assert_eq!(sub.key_at(1), "y1");
    assert_eq!(sub.value_at(1), "c1");
}

#[test]
fn apply_does_not_rewrite_inside_longer_identifiers() {
    let sub = Substitution::single("x1", "a");
    assert_eq!(apply(&sub, "g(x1, x10, x11, ax1)"), "g(a, x10, x11, ax1)");
}

#[test]
fn unify_two_distinct_variables_is_symmetric_up_to_orientation() {
    let left = unify("x1", "y1").unwrap();
    let right = unify("y1", "x1").unwrap();
    assert_eq!(left.len(), 1);
    assert_eq!(right.len(), 1);
    assert_eq!(left.get("x1").unwrap(), "y1");
    assert_eq!(right.get("y1").unwrap(), "x1");
}
