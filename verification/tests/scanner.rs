use goudale::{ScanError, Scanner, TokenType};

#[test]
fn test_single_character_tokens() {
    let source = "()-+/*".as_bytes();
    let mut scanner = Scanner::new(source);
    let expected = [
        TokenType::LeftParen,
        TokenType::RightParen,
        TokenType::Minus,
        TokenType::Plus,
        TokenType::Slash,
        TokenType::Star,
        TokenType::EoF,
    ];
    for (i, ty) in expected.iter().enumerate() {
        let token = scanner.scan_token().unwrap();
        assert_eq!(token.ty, *ty);
        if *ty != TokenType::EoF {
            assert_eq!(token.span.offset, i);
            assert_eq!(token.span.size, 1);
        }
    }
}

#[test]
fn test_whitespace_has_no_lexical_meaning() {
    let source = " \t\r\n 7 \n".as_bytes();
    let mut scanner = Scanner::new(source);
    let token = scanner.scan_token().unwrap();
    assert_eq!(token.ty, TokenType::Number);
    assert_eq!(token.span.offset, 5);
    assert_eq!(token.span.size, 1);
    assert_eq!(scanner.scan_token().unwrap().ty, TokenType::EoF);
}

#[test]
fn test_number_lexeme() {
    let source = "4000.53".as_bytes();
    let mut scanner = Scanner::new(source);
    let token = scanner.scan_token().unwrap();
    assert_eq!(token.ty, TokenType::Number);
    assert_eq!(token.lexeme(source), "4000.53".as_bytes());
}

#[test]
fn test_trailing_dot_is_left_unconsumed() {
    // "1." lexes as the number "1"; the dot is left for the next call,
    // which then fails on it.
    let source = "1.".as_bytes();
    let mut scanner = Scanner::new(source);
    let token = scanner.scan_token().unwrap();
    assert_eq!(token.ty, TokenType::Number);
    assert_eq!(token.span.size, 1);
    let err = scanner.scan_token().unwrap_err();
    assert_eq!(err, ScanError::UnexpectedChar { byte: b'.', offset: 1 });
}

#[test]
fn test_unexpected_character() {
    let mut scanner = Scanner::new("4 _".as_bytes());
    assert_eq!(scanner.scan_token().unwrap().ty, TokenType::Number);
    let err = scanner.scan_token().unwrap_err();
    assert_eq!(err, ScanError::UnexpectedChar { byte: b'_', offset: 2 });
}

#[test]
fn test_end_of_input_is_idempotent() {
    let mut scanner = Scanner::new("1".as_bytes());
    assert_eq!(scanner.scan_token().unwrap().ty, TokenType::Number);
    for _ in 0..5 {
        let token = scanner.scan_token().unwrap();
        assert_eq!(token.ty, TokenType::EoF);
        assert_eq!(token.span.offset, 1);
        assert_eq!(token.span.size, 0);
    }
}

#[test]
fn test_rest_exposes_unconsumed_tail() {
    let source = "1 + 2".as_bytes();
    let mut scanner = Scanner::new(source);
    scanner.scan_token().unwrap();
    scanner.scan_token().unwrap();
    assert_eq!(scanner.rest(), "+ 2".as_bytes());
}
