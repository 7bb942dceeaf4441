use unifier::entities::UnificationError;
use unifier::h_terms_generator::generate_h_terms;

#[test]
#[allow(non_snake_case)]
fn generate_h_terms__n_equals_1__should_return_correct_terms() {
    let (term1, term2) = generate_h_terms(1).unwrap();
    assert_eq!(term1, "h(x1, f(y0, y0), y1)");
    assert_eq!(term2, "h(f(x0, x0), y1, x1)");
}

#[test]
#[allow(non_snake_case)]
fn generate_h_terms__n_equals_2__should_return_correct_terms() {
    let (term1, term2) = generate_h_terms(2).unwrap();
    assert_eq!(term1, "h(x1, x2, f(y0, y0), f(y1, y1), y2)");
    assert_eq!(term2, "h(f(x0, x0), f(x1, x1), y1, y2, x2)");
}

#[test]
#[allow(non_snake_case)]
fn generate_h_terms__n_equals_3__should_return_correct_terms() {
    let (term1, term2) = generate_h_terms(3).unwrap();
    assert_eq!(term1, "h(x1, x2, x3, f(y0, y0), f(y1, y1), f(y2, y2), y3)");
    assert_eq!(term2, "h(f(x0, x0), f(x1, x1), f(x2, x2), y1, y2, y3, x3)");
}

#[test]
fn generate_h_terms_rejects_zero() {
    let res = generate_h_terms(0);
    assert!(matches!(res, Err(UnificationError::InvalidGeneratorParameter)));
}

#[test]
fn generate_h_terms_handles_multi_digit_indices() {
    let (term1, term2) = generate_h_terms(11).unwrap();
    assert!(term1.starts_with("h(x1, x2, x3, x4, x5, x6, x7, x8, x9, x10, x11, f(y0, y0)"));
    assert!(term1.ends_with("f(y10, y10), y11)"));
    assert!(term2.starts_with("h(f(x0, x0), f(x1, x1)"));
    assert!(term2.ends_with("y10, y11, x11)"));
}
