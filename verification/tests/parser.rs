use calc::parser::Parser;

#[test]
fn test_parser() {
    let inputs = [
        "2 + 3",
        "2 + 3 * 4",
        "10 - 2 - 3",
        "(2 + 3) * 4",
        "-5",
        "--5",
        "2 * -3",
    ];
    for input in inputs {
        let mut parser = Parser::new(input).expect("Failed to create parser");
        match parser.parse() {
            Ok(expr) => {
                let result = expr.eval();
                match result {
                    Ok(value) => {
                        println!("expr: {:?} = {:?}", expr.to_string(), f64::from_bits(value.bits))
                    }
                    Err(e) => println!("eval error: {:?}", e),
                }
            }
            Err(e) => println!("parse error: {} at {:?}", e.message, e.location),
        }
    }
}

#[test]
fn test_parser_error_location() {
    // "2 ++ 3" - the second '+' does not start an operand; it is reported
    // at its own column, 4.
    let result = Parser::new("2 ++ 3");
    assert!(result.is_ok());
    let mut parser = result.unwrap();
    let err = parser.parse();
    assert!(err.is_err());
    let err = err.unwrap_err();
    assert_eq!(err.location.column, 4);
}

#[test]
fn test_parser_unbalanced_paren() {
    let mut parser = Parser::new("(2 + 3").expect("Failed to create parser");
    let err = parser.parse();
    assert!(err.is_err());
    let err = err.unwrap_err();
    assert!(err.message.contains("Expected RightParen"));
}

#[test]
fn test_parser_lexer_error() {
    let mut parser = Parser::new("2 + @").expect("Failed to create parser");
    let err = parser.parse();
    assert!(err.is_err());
}

#[test]
fn test_parser_trailing_input() {
    let mut parser = Parser::new("2 3").expect("Failed to create parser");
    let err = parser.parse().unwrap_err();
    assert!(err.message.contains("Expected end of input"));
    assert_eq!(err.location.column, 3);
}

#[test]
fn test_parser_first_token_lexer_error() {
    match Parser::new("@") {
        Ok(_) => panic!("expected a lexer error"),
        Err(err) => {
            assert_eq!(err.message, "Unexpected character: '@'");
            assert_eq!(err.location.column, 1);
        }
    }
}
