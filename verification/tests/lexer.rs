use calc::lexer::Lexer;
use calc::num::Num;
use calc::token::Token;

#[test]
fn test_lexer() {
    let mut lexer = Lexer::new("2 + 2 * 2.5");
    loop {
        let (token, location) = lexer.next_token().expect("Failed to tokenize");
        println!("token {:?} at {:?}", token, location);
        if token == Token::Eof {
            break;
        }
    }
}

#[test]
fn test_lexer_error() {
    let mut lexer = Lexer::new("2 + @");
    assert!(lexer.next_token().is_ok()); // 2
    assert!(lexer.next_token().is_ok()); // +
    let err = lexer.next_token();
    assert!(err.is_err());
    let err = err.unwrap_err();
    assert_eq!(err.location.line, 1);
    assert_eq!(err.location.column, 5);
}

#[test]
fn test_lexer_multiline() {
    let mut lexer = Lexer::new("1 +\n2");
    assert!(lexer.next_token().is_ok()); // 1
    assert!(lexer.next_token().is_ok()); // +
    let (token, location) = lexer.next_token().unwrap();
    assert_eq!(token, Token::Number(Num { bits: 2.0f64.to_bits() }));
    assert_eq!(location.line, 2);
}

#[test]
fn test_lexer_tokens_and_values() {
    let mut lexer = Lexer::new("2 + 2 * 2.5");
    let (t, l) = lexer.next_token().unwrap();
    assert_eq!(t, Token::Number(Num { bits: 2.0f64.to_bits() }));
    assert_eq!((l.line, l.column), (1, 1));
    let (t, l) = lexer.next_token().unwrap();
    assert_eq!(t, Token::Plus);
    assert_eq!((l.line, l.column), (1, 3));
    let (t, _) = lexer.next_token().unwrap();
    assert_eq!(t, Token::Number(Num { bits: 2.0f64.to_bits() }));
    let (t, _) = lexer.next_token().unwrap();
    assert_eq!(t, Token::Star);
    let (t, l) = lexer.next_token().unwrap();
    assert_eq!(t, Token::Number(Num { bits: 2.5f64.to_bits() }));
    assert_eq!((l.line, l.column), (1, 9));
    let (t, _) = lexer.next_token().unwrap();
    assert_eq!(t, Token::Eof);
}

#[test]
fn test_lexer_eof_repeats() {
    let mut lexer = Lexer::new("  ");
    let (t, l) = lexer.next_token().unwrap();
    assert_eq!(t, Token::Eof);
    assert_eq!((l.line, l.column), (1, 3));
    let (t, _) = lexer.next_token().unwrap();
    assert_eq!(t, Token::Eof);
}

#[test]
fn test_lexer_decimal_point_error() {
    let mut lexer = Lexer::new("3.");
    let err = lexer.next_token().unwrap_err();
    assert_eq!(err.message, "Expected digits after decimal point");
    assert_eq!(err.location.line, 1);
    assert_eq!(err.location.column, 1);
}

#[test]
fn test_lexer_symbols() {
    let mut lexer = Lexer::new("()-/");
    assert_eq!(lexer.next_token().unwrap().0, Token::LeftParen);
    assert_eq!(lexer.next_token().unwrap().0, Token::RightParen);
    assert_eq!(lexer.next_token().unwrap().0, Token::Minus);
    assert_eq!(lexer.next_token().unwrap().0, Token::Slash);
    assert_eq!(lexer.next_token().unwrap().0, Token::Eof);
}

#[test]
fn test_lexer_unexpected_character_message() {
    let mut lexer = Lexer::new("@");
    let err = lexer.next_token().unwrap_err();
    assert_eq!(err.message, "Unexpected character: '@'");
    assert_eq!(err.location.column, 1);
}
