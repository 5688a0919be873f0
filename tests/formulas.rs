use grapher::formula::parse;

fn eval_at(text: &str, x: f64, y: f64) -> f64 {
    let formula = match parse(text) {
        Ok(f) => f,
        Err(_) => panic!("formula should parse"),
    };
    let mut ctx = meval::Context::new();
    ctx.var("x", x);
    ctx.var("y", y);
    formula.expr.eval_with_context(ctx).unwrap()
}

#[test]
fn parses_a_product_of_trig_functions() {
    assert!(parse("sin(x)*cos(y)").is_ok());
}

#[test]
fn rejects_two_operators_in_a_row() {
    assert!(parse("x +* y").is_err());
}

#[test]
fn rejects_the_empty_text() {
    assert!(parse("").is_err());
}

#[test]
fn rejects_unbalanced_parentheses() {
    assert!(parse("sin(x").is_err());
    assert!(parse("x)").is_err());
}

#[test]
fn parse_error_carries_a_reason() {
    match parse("x +* y") {
        Ok(_) => panic!("should not parse"),
        Err(e) => assert!(!format!("{}", e.cause.unwrap()).is_empty()),
    }
}

#[test]
fn evaluates_sum_of_squares() {
    assert_eq!(eval_at("x^2+y^2", 3.0, 4.0), 25.0);
}

#[test]
fn reciprocal_at_zero_is_not_finite() {
    assert!(!eval_at("1/x", 0.0, 0.0).is_finite());
}

#[test]
fn rejects_blank_text() {
    assert!(parse(" ").is_err());
    assert!(parse("\t").is_err());
    assert!(parse("  \n").is_err());
    assert!(parse("\r\n \t").is_err());
}

#[test]
fn accepts_surrounding_whitespace() {
    assert!(parse("  x + y  ").is_ok());
    assert!(parse("\tsin(x) * cos(y)\n").is_ok());
}

#[test]
fn rejects_unknown_identifiers() {
    assert!(parse("x + z").is_err());
    assert!(parse("foo(x)").is_err());
    match parse("x * w") {
        Ok(_) => panic!("should not parse"),
        Err(e) => assert!(e.cause.is_some()),
    }
}

#[test]
fn accepts_constants_and_built_in_functions() {
    assert!(parse("pi * x + e").is_ok());
    assert!(parse("asin(x) + acos(y) + atan(x) + sinh(y) + cosh(x) + tanh(y)").is_ok());
    assert!(parse("exp(x) + ln(y) + abs(y) + sqrt(x) + tan(y)").is_ok());
    assert!(parse("x % 2 - y / 3").is_ok());
}

#[test]
fn rejects_truncated_formulas() {
    assert!(parse("x +").is_err());
    assert!(parse("x + ").is_err());
    assert!(parse("sin").is_err());
    assert!(parse("()").is_err());
    assert!(parse("1e").is_err());
}

#[test]
fn blank_text_has_no_meval_cause() {
    match parse("   ") {
        Ok(_) => panic!("should not parse"),
        Err(e) => assert!(e.cause.is_none()),
    }
}
