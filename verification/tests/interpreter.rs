use goudale::Parser;

fn eval(source: &str) -> f64 {
    let expr = Parser::new(source.as_bytes())
        .expect("scanning the first token failed")
        .parse()
        .expect("parsing failed");
    let value = expr.interpret().expect("evaluation failed");
    f64::from_bits(value.to_bits())
}

#[test]
fn interpreter_test_value() {
    assert_eq!(eval("1"), 1.);
    assert_eq!(eval("4000.53"), 4000.53);
}

#[test]
fn interpreter_test_unary() {
    assert_eq!(eval("-1"), -1.);
}

#[test]
fn test_binary() {
    let test_values = [
        ("1 + 1", 2.),
        ("5 - 1", 4.),
        ("2 * 3", 6.),
        ("6 / 3", 2.),
        ("1 / 2", 0.5),
        ("2 + 3 * 2", 8.),
        ("2 + (3 * 2)", 8.),
        ("2 * (3 + 2)", 10.),
        ("2 (3 + 2)", 10.),
    ];

    for (input, output) in test_values {
        println!("parsing {input}");
        assert_eq!(eval(input), output);
    }
}

#[test]
fn test_unary_precedence() {
    assert_eq!(eval("--1"), 1.);
    assert_eq!(eval("-1 + 2"), 1.);
    assert_eq!(eval("-(1 + 2)"), -3.);
}

#[test]
fn test_left_associativity() {
    assert_eq!(eval("1 - 2 - 3"), -4.);
    assert_eq!(eval("8 / 2 / 2"), 2.);
}

#[test]
fn test_juxtaposition_matches_explicit_star() {
    assert_eq!(eval("2 (3 + 2)"), eval("2 * (3 + 2)"));
    assert_eq!(eval("3 (2) (2)"), 12.);
}

#[test]
fn test_division_by_zero_follows_ieee() {
    assert_eq!(eval("1 / 0"), f64::INFINITY);
    assert_eq!(eval("-1 / 0"), f64::NEG_INFINITY);
    assert!(eval("0 / 0").is_nan());
}

#[test]
fn test_literal_parsing_is_not_identity() {
    // The number parser must really convert digits to a float: the bits of
    // the value of "2" are those of 2.0, not the digit byte.
    let expr = Parser::new("2".as_bytes()).unwrap().parse().unwrap();
    let value = expr.interpret().unwrap();
    assert_eq!(value.to_bits(), 2.0f64.to_bits());
    assert_ne!(value.to_bits(), b'2' as u64);
}
