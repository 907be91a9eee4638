use goudale::{Expr, ParseErrorKind, Parser, TokenType};

#[test]
fn parser_test_value() {
    let expr = Parser::new("1".as_bytes()).unwrap().parse().unwrap();
    assert!(matches!(expr, Expr::Literal { value } if f64::from_bits(value.bits) == 1.0));
    let expr = Parser::new("4000.53".as_bytes()).unwrap().parse().unwrap();
    assert!(matches!(expr, Expr::Literal { value } if f64::from_bits(value.bits) == 4000.53));

    // A second decimal point is a lexical error, not a silent truncation.
    let result = Parser::new("4000.53.10".as_bytes()).and_then(|p| p.parse());
    assert!(result.is_err());

    // Here the error comes before parse is even called, because the parser
    // scans its first lookahead token during construction.
    let result = Parser::new("a".as_bytes()).map(|p| p.parse());
    assert!(result.is_err());

    let result = Parser::new("400a".as_bytes()).and_then(|p| p.parse());
    assert!(result.is_err());
}

#[test]
fn parser_test_unary() {
    let expr = Parser::new("-1".as_bytes()).unwrap().parse().unwrap();
    match expr {
        Expr::Unary { operator, right } => {
            assert_eq!(operator.ty, TokenType::Minus);
            assert!(
                matches!(*right, Expr::Literal { value } if f64::from_bits(value.bits) == 1.0)
            );
        },
        other => panic!("expected a unary node, got {other:?}"),
    }
}

#[test]
fn test_left_leaning_tree() {
    // "1 - 2 - 3" parses as "(1 - 2) - 3".
    let expr = Parser::new("1 - 2 - 3".as_bytes()).unwrap().parse().unwrap();
    match expr {
        Expr::Binary { left, operator, right } => {
            assert_eq!(operator.ty, TokenType::Minus);
            assert!(matches!(*left, Expr::Binary { .. }));
            assert!(
                matches!(*right, Expr::Literal { value } if f64::from_bits(value.bits) == 3.0)
            );
        },
        other => panic!("expected a binary node, got {other:?}"),
    }
}

#[test]
fn test_grouping_preserved() {
    // Parentheses stay in the tree as a grouping node.
    let expr = Parser::new("(1)".as_bytes()).unwrap().parse().unwrap();
    match expr {
        Expr::Grouping { expression } => {
            assert!(
                matches!(*expression, Expr::Literal { value } if f64::from_bits(value.bits) == 1.0)
            );
        },
        other => panic!("expected a grouping node, got {other:?}"),
    }
}

#[test]
fn test_juxtaposition_operator_is_left_paren() {
    // "2 (3)" is multiplication; the operator token recorded in the tree is
    // the left parenthesis that triggered it.
    let expr = Parser::new("2 (3)".as_bytes()).unwrap().parse().unwrap();
    match expr {
        Expr::Binary { left, operator, right } => {
            assert_eq!(operator.ty, TokenType::LeftParen);
            assert!(matches!(*left, Expr::Literal { .. }));
            assert!(matches!(*right, Expr::Grouping { .. }));
        },
        other => panic!("expected a binary node, got {other:?}"),
    }
}

#[test]
fn test_unmatched_paren_expects_closing() {
    let err = Parser::new("(1".as_bytes()).unwrap().parse().unwrap_err();
    assert!(matches!(
        err.kind,
        ParseErrorKind::Expected { expected: TokenType::RightParen, found: TokenType::EoF }
    ));
}

#[test]
fn test_trailing_input_is_an_error() {
    // Two bare numbers in sequence trigger no juxtaposition: that needs a
    // parenthesis, so the leftover token is a trailing-input error.
    let err = Parser::new("1 2".as_bytes()).unwrap().parse().unwrap_err();
    assert!(matches!(err.kind, ParseErrorKind::TrailingInput));
    assert_eq!(err.span.offset, 2);
}

#[test]
fn test_unexpected_token_at_primary() {
    let err = Parser::new("* 1".as_bytes()).unwrap().parse().unwrap_err();
    assert!(matches!(err.kind, ParseErrorKind::UnexpectedToken { found: TokenType::Star }));
}

#[test]
fn test_unexpected_character_reported_with_position() {
    let err = Parser::new("400a".as_bytes()).unwrap().parse().unwrap_err();
    assert!(matches!(err.kind, ParseErrorKind::UnexpectedChar { byte: b'a' }));
    assert_eq!(err.span.offset, 3);

    let err = match Parser::new("a".as_bytes()) {
        Err(e) => e,
        Ok(_) => panic!("expected a lexical error at construction"),
    };
    assert!(matches!(err.kind, ParseErrorKind::UnexpectedChar { byte: b'a' }));
}

#[test]
fn test_empty_input_is_rejected() {
    let err = Parser::new("".as_bytes()).unwrap().parse().unwrap_err();
    assert!(matches!(err.kind, ParseErrorKind::UnexpectedToken { found: TokenType::EoF }));
}
