use unifier::function_parser::{parse_head_and_tail_of_functional_term, ParserOutput};

#[test]
#[allow(non_snake_case)]
fn parse_head_and_tail_of_functional_term__complex_function__should_return_correct_head_and_tail() {
    let func = "h(f(x0, g(x1, x1)), f(x1, x1), y1, y2, x2)";
    let expected_head = "f(x0, g(x1, x1))";
    let expected_tail = "d(f(x1, x1), y1, y2, x2)";

    let ParserOutput { head, tail } = parse_head_and_tail_of_functional_term(func);

    assert_eq!(head, expected_head);
    assert_eq!(tail, expected_tail);
}

#[test]
#[allow(non_snake_case)]
fn parse_head_and_tail_of_functional_term__empty_function__should_return_correct_head_and_tail() {
    let func = "h()";
    let expected_head = "";
    let expected_tail = "d()";

    let ParserOutput { head, tail } = parse_head_and_tail_of_functional_term(func);

    assert_eq!(head, expected_head);
    assert_eq!(tail, expected_tail);
}

#[test]
#[allow(non_snake_case)]
fn parse_head_and_tail_of_functional_term__function_with_one_argument__should_return_correct_head_and_tail() {
    let func = "h(f(x0, g(x1, x1)))";
    let expected_head = "f(x0, g(x1, x1))";
    let expected_tail = "d()";

    let ParserOutput { head, tail } = parse_head_and_tail_of_functional_term(func);

    assert_eq!(head, expected_head);
    assert_eq!(tail, expected_tail);
}

#[test]
fn parse_head_and_tail_respects_nested_commas() {
    let func = "g(p(a, q(b, c)), r(s(t0, t1), u2))";

    let ParserOutput { head, tail } = parse_head_and_tail_of_functional_term(func);

    assert_eq!(head, "p(a, q(b, c))");
    assert_eq!(tail, "d(r(s(t0, t1), u2))");
}

#[test]
fn parse_head_and_tail_trims_argument_whitespace() {
    let func = "h(  x1 ,   f(y0, y0) , y1  )";

    let ParserOutput { head, tail } = parse_head_and_tail_of_functional_term(func);

    assert_eq!(head, "x1");
    assert_eq!(tail, "d(f(y0, y0), y1)");
}
