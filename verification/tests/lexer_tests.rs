use tpl_lang::lexer::Lexer;
use tpl_lang::token::{Token, TokenType};

fn sym(ch: char, token_type: TokenType) -> Token {
    Token::new(token_type, String::from(ch), 0)
}

#[test]
fn std_symbols_lexing() {
    let input = String::from("+ - * / = ! < > . , ; ( ) [ ] { }");
    let mut lexer = Lexer::new(input, "tests".to_string());

    let result = lexer.tokenize().unwrap();

    assert_eq!(
        result,
        vec![
            sym('+', TokenType::Plus),
            sym('-', TokenType::Minus),
            sym('*', TokenType::Multiply),
            sym('/', TokenType::Divide),
            sym('=', TokenType::Equal),
            sym('!', TokenType::Not),
            sym('<', TokenType::Lt),
            sym('>', TokenType::Bt),
            sym('.', TokenType::Dot),
            sym(',', TokenType::Comma),
            sym(';', TokenType::Semicolon),
            sym('(', TokenType::LParen),
            sym(')', TokenType::RParen),
            sym('[', TokenType::LBrack),
            sym(']', TokenType::RBrack),
            sym('{', TokenType::LBrace),
            sym('}', TokenType::RBrace),
            Token::new(TokenType::EOF, "".to_string(), 0)
        ]
    );
}

#[test]
fn strings_lexing() {
    let input = String::from(" \"This is an interesting string\" ");
    let expected = String::from("This is an interesting string");
    let mut lexer = Lexer::new(input, "tests".to_string());

    let result = lexer.tokenize().unwrap();

    assert_eq!(result[0].value, expected);
}

#[test]
fn test_std_functions_lexing() {
    let input = String::from("print concat");
    let mut lexer = Lexer::new(input, "tests".to_string());

    let result = lexer.tokenize().unwrap();

    assert_eq!(
        result,
        vec![
            Token::new(TokenType::Identifier, String::from("print"), 0),
            Token::new(TokenType::Identifier, String::from("concat"), 0),
            Token::new(TokenType::EOF, String::from(""), 0),
        ]
    );
}

#[test]
fn test_constructions() {
    let input = String::from("if else while for in break");
    let mut lexer = Lexer::new(input, "tests".to_string());

    let result = lexer.tokenize().unwrap();

    assert_eq!(
        result,
        vec![
            Token::new(TokenType::Keyword, String::from("if"), 0),
            Token::new(TokenType::Keyword, String::from("else"), 0),
            Token::new(TokenType::Keyword, String::from("while"), 0),
            Token::new(TokenType::Keyword, String::from("for"), 0),
            Token::new(TokenType::Keyword, String::from("in"), 0),
            Token::new(TokenType::Keyword, String::from("break"), 0),
            Token::new(TokenType::EOF, String::from(""), 0),
        ]
    );
}

#[test]
fn test_functional_keywords() {
    let input = String::from("define return import");
    let mut lexer = Lexer::new(input, "tests".to_string());

    let result = lexer.tokenize().unwrap();

    assert_eq!(
        result,
        vec![
            Token::new(TokenType::Keyword, String::from("define"), 0),
            Token::new(TokenType::Keyword, String::from("return"), 0),
            Token::new(TokenType::Keyword, String::from("import"), 0),
            Token::new(TokenType::EOF, String::from(""), 0),
        ]
    );
}

#[test]
fn test_datatypes() {
    let input = String::from("int8 int16 int32 int64 auto void bool str fn");
    let mut lexer = Lexer::new(input, "tests".to_string());

    let result = lexer.tokenize().unwrap();

    assert_eq!(
        result,
        vec![
            Token::new(TokenType::Keyword, String::from("int8"), 0),
            Token::new(TokenType::Keyword, String::from("int16"), 0),
            Token::new(TokenType::Keyword, String::from("int32"), 0),
            Token::new(TokenType::Keyword, String::from("int64"), 0),
            Token::new(TokenType::Keyword, String::from("auto"), 0),
            Token::new(TokenType::Keyword, String::from("void"), 0),
            Token::new(TokenType::Keyword, String::from("bool"), 0),
            Token::new(TokenType::Keyword, String::from("str"), 0),
            Token::new(TokenType::Keyword, String::from("fn"), 0),
            Token::new(TokenType::EOF, String::from(""), 0),
        ]
    );
}

#[test]
fn test_identifiers() {
    let input = String::from("id1 id2 a b c abc camel_case");
    let mut lexer = Lexer::new(input, "tests".to_string());

    let result = lexer.tokenize().unwrap();

    assert_eq!(
        result,
        vec![
            Token::new(TokenType::Identifier, String::from("id1"), 0),
            Token::new(TokenType::Identifier, String::from("id2"), 0),
            Token::new(TokenType::Identifier, String::from("a"), 0),
            Token::new(TokenType::Identifier, String::from("b"), 0),
            Token::new(TokenType::Identifier, String::from("c"), 0),
            Token::new(TokenType::Identifier, String::from("abc"), 0),
            Token::new(TokenType::Identifier, String::from("camel_case"), 0),
            Token::new(TokenType::EOF, String::from(""), 0),
        ]
    );
}

#[test]
fn test_numbers() {
    let input = String::from("1 2 3 1000 1_000_000");
    let mut lexer = Lexer::new(input, "tests".to_string());

    let result = lexer.tokenize().unwrap();

    assert_eq!(
        result,
        vec![
            Token::new(TokenType::Number, String::from("1"), 0),
            Token::new(TokenType::Number, String::from("2"), 0),
            Token::new(TokenType::Number, String::from("3"), 0),
            Token::new(TokenType::Number, String::from("1000"), 0),
            Token::new(TokenType::Number, String::from("1000000"), 0),
            Token::new(TokenType::EOF, String::from(""), 0),
        ]
    );
}

#[test]
fn test_negative_numbers() {
    let input = String::from("-1 -2 -3 -1000 -1_000_000");
    let mut lexer = Lexer::new(input, "tests".to_string());

    let result = lexer.tokenize().unwrap();

    assert_eq!(
        result,
        vec![
            Token::new(TokenType::Number, String::from("-1"), 0),
            Token::new(TokenType::Number, String::from("-2"), 0),
            Token::new(TokenType::Number, String::from("-3"), 0),
            Token::new(TokenType::Number, String::from("-1000"), 0),
            Token::new(TokenType::Number, String::from("-1000000"), 0),
            Token::new(TokenType::EOF, String::from(""), 0),
        ]
    );
}

#[test]
fn test_lines() {
    let input = String::from("line0 \n line1 \n line2");
    let mut lexer = Lexer::new(input, "tests".to_string());

    let result = lexer.tokenize().unwrap();

    assert_eq!(
        result,
        vec![
            Token::new(TokenType::Identifier, String::from("line0"), 0),
            Token::new(TokenType::Identifier, String::from("line1"), 1),
            Token::new(TokenType::Identifier, String::from("line2"), 2),
            Token::new(TokenType::EOF, String::from(""), 0),
        ]
    );
}

#[test]
fn test_booleans() {
    let input = String::from("true false");
    let mut lexer = Lexer::new(input, "tests".to_string());

    let result = lexer.tokenize().unwrap();

    assert_eq!(
        result,
        vec![
            Token::new(TokenType::Boolean, String::from("true"), 0),
            Token::new(TokenType::Boolean, String::from("false"), 0),
            Token::new(TokenType::EOF, String::from(""), 0),
        ]
    );
}

#[test]
fn test_compare_operators() {
    let input = String::from("> < == !=");
    let mut lexer = Lexer::new(input, "tests".to_string());

    let result = lexer.tokenize().unwrap();

    assert_eq!(
        result,
        vec![
            Token::new(TokenType::Bt, String::from(">"), 0),
            Token::new(TokenType::Lt, String::from("<"), 0),
            Token::new(TokenType::Eq, String::from("=="), 0),
            Token::new(TokenType::Ne, String::from("!="), 0),
            Token::new(TokenType::EOF, String::from(""), 0),
        ]
    );
}

#[test]
fn test_undefined_char() {
    let input = String::from("😃");
    let mut lexer = Lexer::new(input, "tests".to_string());

    let result = lexer.tokenize();

    assert!(result.is_err());
}

#[test]
fn get_integer_test() {
    let input = String::from("50");
    let mut lexer = Lexer::new(input, "tests".to_string());

    let num = lexer.get_integer();

    assert_eq!(num, 50i64);
}

#[test]
fn is_eof_test() {
    let input = String::from("\0");
    let lexer = Lexer::new(input, "tests".to_string());

    let is_eof = lexer.is_eof();

    assert!(is_eof);
}

#[test]
fn getc_test() {
    let input = String::from("50");
    let mut lexer = Lexer::new(input, "tests".to_string());

    assert_eq!(lexer.current_char(), '5');

    lexer.getc();

    assert_eq!(lexer.current_char(), '0');
}

#[test]
fn logical_or_test() {
    let input = String::from("a || b");
    let mut lexer = Lexer::new(input, "tests".to_string());

    let tokens = lexer.tokenize().unwrap();

    assert_eq!(
        tokens,
        vec![
            Token::new(TokenType::Identifier, String::from("a"), 0),
            Token::new(TokenType::Or, String::from("||"), 0),
            Token::new(TokenType::Identifier, String::from("b"), 0),
            Token::new(TokenType::EOF, String::from(""), 0),
        ]
    );
}

#[test]
fn logical_and_test() {
    let input = String::from("a && b");
    let mut lexer = Lexer::new(input, "tests".to_string());

    let tokens = lexer.tokenize().unwrap();

    assert_eq!(
        tokens,
        vec![
            Token::new(TokenType::Identifier, String::from("a"), 0),
            Token::new(TokenType::And, String::from("&&"), 0),
            Token::new(TokenType::Identifier, String::from("b"), 0),
            Token::new(TokenType::EOF, String::from(""), 0),
        ]
    );
}

#[test]
fn bitwise_operators_test() {
    let input = String::from("& | << >> ^");
    let mut lexer = Lexer::new(input, "tests".to_string());

    let tokens = lexer.tokenize().unwrap();

    assert_eq!(
        tokens,
        vec![
            Token::new(TokenType::Ampersand, String::from("&"), 0),
            Token::new(TokenType::Verbar, String::from("|"), 0),
            Token::new(TokenType::LShift, String::from("<<"), 0),
            Token::new(TokenType::RShift, String::from(">>"), 0),
            Token::new(TokenType::Xor, String::from("^"), 0),
            Token::new(TokenType::EOF, String::from(""), 0),
        ]
    );
}

#[test]
fn token_lines_follow_source_lines() {
    let mut lexer = Lexer::new(String::from("a\n\nb c\nif 7\n\"s\""), "tests".to_string());
    let result = lexer.tokenize().unwrap();
    assert_eq!(
        result,
        vec![
            Token::new(TokenType::Identifier, String::from("a"), 0),
            Token::new(TokenType::Identifier, String::from("b"), 2),
            Token::new(TokenType::Identifier, String::from("c"), 2),
            Token::new(TokenType::Keyword, String::from("if"), 0),
            Token::new(TokenType::Number, String::from("7"), 3),
            Token::new(TokenType::String, String::from("s"), 4),
            Token::new(TokenType::EOF, String::from(""), 0),
        ]
    );
}

#[test]
fn newline_inside_string_literal_is_not_counted() {
    let mut lexer = Lexer::new(String::from("\"a\nb\" c"), "tests".to_string());
    let result = lexer.tokenize().unwrap();
    assert_eq!(
        result,
        vec![
            Token::new(TokenType::String, String::from("a\nb"), 0),
            Token::new(TokenType::Identifier, String::from("c"), 0),
            Token::new(TokenType::EOF, String::from(""), 0),
        ]
    );
}

#[test]
fn tokenize_reports_errors_when_any() {
    let mut lexer = Lexer::new(String::from("a $ b"), "tests".to_string());
    let result = lexer.tokenize();
    assert!(result.is_err());
    let handler = match result {
        Err(h) => h,
        Ok(_) => unreachable!(),
    };
    assert!(!handler.is_empty());
    assert!(!lexer.errors().is_empty());
}
