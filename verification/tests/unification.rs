use unifier::entities::UnificationError;
use unifier::h_terms_generator::generate_h_terms;
use unifier::substitution::{apply, Substitution};
use unifier::unification::{occurs, unify, unify_with_depth};

fn apply_to_fixpoint(substitution: &Substitution, term: &str) -> String {
    let mut current = term.to_string();
    loop {
        let next = apply(substitution, &current);
        if next == current {
            return next;
        }
        current = next;
    }
}

fn total_binding_size(substitution: &Substitution) -> usize {
    let mut total = 0;
    let mut i = 0;
    while i < substitution.len() {
        total += substitution.key_at(i).len() + substitution.value_at(i).len();
        i += 1;
    }
    total
}

#[test]
fn unify_identical_terms_yields_empty_substitution() {
    let cases = ["a", "x1", "f(x1, g(a, y2))", ""];
    for term in cases {
        let sub = unify(term, term).unwrap();
        assert_eq!(sub.len(), 0);
    }
}

#[test]
fn unify_variable_with_compound_binds_it_from_either_side() {
    let left = unify("x1", "f(a, b)").unwrap();
    let right = unify("f(a, b)", "x1").unwrap();

    assert_eq!(left.len(), 1);
    assert_eq!(right.len(), 1);
    assert_eq!(left.get("x1").unwrap(), "f(a, b)");
    assert_eq!(right.get("x1").unwrap(), "f(a, b)");
}

#[test]
fn unify_variable_with_contained_variable_fails_occurs_check() {
    let res = unify("x1", "f(x1, x1)");
    match res {
        Err(UnificationError::OccursCheckFailure { variable, term }) => {
            assert_eq!(variable, "x1");
            assert_eq!(term, "f(x1, x1)");
        }
        other => panic!("expected an occurs-check failure, got {:?}", other),
    }
}

#[test]
fn occurs_check_matches_whole_tokens_only() {
    assert!(occurs("x1", "f(x1, y0)"));
    assert!(!occurs("x1", "f(x10, y0)"));

    let sub = unify("x1", "f(x10, x10)").unwrap();
    assert_eq!(sub.len(), 1);
    assert_eq!(sub.get("x1").unwrap(), "f(x10, x10)");
}

#[test]
fn unify_distinct_constants_fails_with_mismatch() {
    let res = unify("a", "b");
    match res {
        Err(UnificationError::ConstantOrEmptyMismatch { term1, term2 }) => {
            assert_eq!(term1, "a");
            assert_eq!(term2, "b");
        }
        other => panic!("expected a constant mismatch, got {:?}", other),
    }

    let trivial = unify("a", "a").unwrap();
    assert_eq!(trivial.len(), 0);
}

#[test]
fn unify_variable_with_constant_fails_with_mismatch() {
    let res = unify("x1", "a");
    assert!(matches!(
        res,
        Err(UnificationError::ConstantOrEmptyMismatch { .. })
    ));
}

#[test]
fn unify_empty_term_fails_with_mismatch() {
    let res = unify("", "a");
    assert!(matches!(
        res,
        Err(UnificationError::ConstantOrEmptyMismatch { .. })
    ));
}

#[test]
fn unify_mismatched_arity_fails_through_empty_sentinel() {
    let res = unify("h()", "h(a)");
    assert!(matches!(
        res,
        Err(UnificationError::ConstantOrEmptyMismatch { .. })
    ));
}

#[test]
fn unify_compounds_collects_all_bindings() {
    let sub = unify("g(x1, y1)", "g(f(a, a), f(b, b))").unwrap();
    assert_eq!(sub.len(), 2);
    assert_eq!(sub.get("x1").unwrap(), "f(a, a)");
    assert_eq!(sub.get("y1").unwrap(), "f(b, b)");
    assert!(sub.get("z1").is_none());
}

#[test]
fn apply_rewrites_whole_tokens_in_order() {
    let sub = unify("x1", "f(a, b)").unwrap();
    let rewritten = apply(&sub, "g(x1, x10, x1)");
    assert_eq!(rewritten, "g(f(a, b), x10, f(a, b))");
}

#[test]
fn apply_is_sequential_in_insertion_order() {
    // unifying these heads first binds x1, then y1, then y0; a later binding
    // rewrites what an earlier one inserted only on the next pass.
    let sub = unify("g(x1, y1)", "g(y1, f(a, a))").unwrap();
    assert_eq!(sub.len(), 2);
    assert_eq!(sub.get("x1").unwrap(), "y1");
    assert_eq!(sub.get("y1").unwrap(), "f(a, a)");
    let rewritten = apply(&sub, "x1");
    assert_eq!(rewritten, "f(a, a)");
}

#[test]
fn unify_with_depth_zero_reports_resource_exhaustion() {
    let res = unify_with_depth("h(x1)", "h(y1)", 0);
    assert!(matches!(res, Err(UnificationError::ResourceExhaustion)));
}

#[test]
fn unify_with_depth_one_exhausts_on_compounds_but_not_on_variables() {
    let compound = unify_with_depth("h(x1)", "h(y1)", 1);
    assert!(matches!(
        compound,
        Err(UnificationError::ResourceExhaustion)
    ));

    let variables = unify_with_depth("x1", "y1", 1).unwrap();
    assert_eq!(variables.len(), 1);
}

#[test]
fn end_to_end_benchmark_pair_unifies_to_common_instance() {
    let (term1, term2) = generate_h_terms(1).unwrap();
    let sub = unify(&term1, &term2).unwrap();

    let instance1 = apply_to_fixpoint(&sub, &term1);
    let instance2 = apply_to_fixpoint(&sub, &term2);
    assert_eq!(instance1, instance2);
}

#[test]
fn end_to_end_substitution_outgrows_its_inputs() {
    let (term1, term2) = generate_h_terms(2).unwrap();
    let sub = unify(&term1, &term2).unwrap();

    let instance1 = apply_to_fixpoint(&sub, &term1);
    let instance2 = apply_to_fixpoint(&sub, &term2);
    assert_eq!(instance1, instance2);

    assert!(total_binding_size(&sub) > term1.len() + term2.len());
}
