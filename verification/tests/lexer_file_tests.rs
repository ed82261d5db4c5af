use tpl_lang::lexer::Lexer;
use tpl_lang::token::{Token, TokenType};

#[test]
fn handling_error_object() {
    let input = String::from("¤");

    // initializing lexer
    let mut lexer = Lexer::new(input, String::from("error_handling.tpl"));

    let tokens = lexer.tokenize();

    // checking if variable is error-handler
    match tokens {
        Ok(_) => panic!("`tokens` variable isn't error!"),
        Err(_) => {}
    }
}

#[test]
#[should_panic]
fn unwrapping_error() {
    let input = String::from("¤");

    // initializing lexer
    let mut lexer = Lexer::new(input, String::from("error_handling.tpl"));

    let tokens = lexer.tokenize();

    // catching panic

    tokens.unwrap();
}

#[test]
fn printing_error_info() {
    let input = String::from("¤");

    // initializing lexer
    let mut lexer = Lexer::new(input, String::from("error_handling.tpl"));

    let tokens = lexer.tokenize();

    // checking if variable is error-handler
    match tokens {
        Ok(_) => panic!("`tokens` variable isn't error!"),
        Err(err) => {
            println!("{}", err.informate());
        }
    }
}

#[test]
fn printing_multiple_errors_info() {
    let input = String::from("¤\n▐\n \n╚\n╟");

    // initializing lexer
    let mut lexer = Lexer::new(input, String::from("error_handling.tpl"));

    let tokens = lexer.tokenize();

    // checking if variable is error-handler
    match tokens {
        Ok(_) => panic!("`tokens` variable isn't error!"),
        Err(err) => {
            println!("{}", err.informate());
        }
    }
}


#[test]
fn tokenize_id() {
    let input = String::from("a");

    // initializing lexer
    let mut lexer = Lexer::new(input, String::from("identifiers.tpl"));

    let tokens = lexer.tokenize().unwrap();

    // expected tokens
    let expected = vec![
        Token::new(TokenType::Identifier, String::from("a"), 0),
        Token::new(TokenType::EOF, String::new(), 0),
    ];

    println!("{:#?}", tokens);
    assert_eq!(tokens, expected);
}

#[test]
fn tokenize_longer_id() {
    let input = String::from("abcdefgh");

    // initializing lexer
    let mut lexer = Lexer::new(input, String::from("identifiers.tpl"));

    let tokens = lexer.tokenize().unwrap();

    // expected tokens
    let expected = vec![
        Token::new(TokenType::Identifier, String::from("abcdefgh"), 0),
        Token::new(TokenType::EOF, String::new(), 0),
    ];

    println!("{:#?}", tokens);
    assert_eq!(tokens, expected);
}

#[test]
fn tokenize_numeric_id() {
    let input = String::from("a123");

    // initializing lexer
    let mut lexer = Lexer::new(input, String::from("identifiers.tpl"));

    let tokens = lexer.tokenize().unwrap();

    // expected tokens
    let expected = vec![
        Token::new(TokenType::Identifier, String::from("a123"), 0),
        Token::new(TokenType::EOF, String::new(), 0),
    ];

    println!("{:#?}", tokens);
    assert_eq!(tokens, expected);
}

#[test]
fn tokenize_harder_id() {
    let input = String::from("example_identifier-1");

    // initializing lexer
    let mut lexer = Lexer::new(input, String::from("identifiers.tpl"));

    let tokens = lexer.tokenize().unwrap();

    // expected tokens
    let expected = vec![
        Token::new(TokenType::Identifier, String::from("example_identifier-1"), 0),
        Token::new(TokenType::EOF, String::new(), 0),
    ];

    println!("{:#?}", tokens);
    assert_eq!(tokens, expected);
}

#[test]
fn tokenize_multiple_ids() {
    let input = String::from("id1 id2 id3");

    // initializing lexer
    let mut lexer = Lexer::new(input, String::from("identifiers.tpl"));

    let tokens = lexer.tokenize().unwrap();

    // expected tokens
    let expected = vec![
        Token::new(TokenType::Identifier, String::from("id1"), 0),
        Token::new(TokenType::Identifier, String::from("id2"), 0),
        Token::new(TokenType::Identifier, String::from("id3"), 0),
        Token::new(TokenType::EOF, String::new(), 0),
    ];

    println!("{:#?}", tokens);
    assert_eq!(tokens, expected);
}


#[test]
fn tokenize_numbers() {
    let input = String::from("1 2 3 123");

    // initializing lexer
    let mut lexer = Lexer::new(input, String::from("numbers.tpl"));

    let tokens = lexer.tokenize().unwrap();

    // expected tokens
    let expected = vec![
        Token::new(TokenType::Number, String::from("1"), 0),
        Token::new(TokenType::Number, String::from("2"), 0),
        Token::new(TokenType::Number, String::from("3"), 0),
        Token::new(TokenType::Number, String::from("123"), 0),
        Token::new(TokenType::EOF, String::new(), 0),
    ];

    println!("{:#?}", tokens);
    assert_eq!(tokens, expected);
}

#[test]
fn tokenize_negative_numbers() {
    let input = String::from("-1 -2 -3 -123");

    // initializing lexer
    let mut lexer = Lexer::new(input, String::from("numbers.tpl"));

    let tokens = lexer.tokenize().unwrap();

    // expected tokens
    let expected = vec![
        Token::new(TokenType::Number, String::from("-1"), 0),
        Token::new(TokenType::Number, String::from("-2"), 0),
        Token::new(TokenType::Number, String::from("-3"), 0),
        Token::new(TokenType::Number, String::from("-123"), 0),
        Token::new(TokenType::EOF, String::new(), 0),
    ];

    println!("{:#?}", tokens);
    assert_eq!(tokens, expected);
}

#[test]
fn tokenize_numbers_with_underlines() {
    let input = String::from("100_000 1_000_000");

    // initializing lexer
    let mut lexer = Lexer::new(input, String::from("numbers.tpl"));

    let tokens = lexer.tokenize().unwrap();

    // expected tokens
    let expected = vec![
        Token::new(TokenType::Number, String::from("100000"), 0),
        Token::new(TokenType::Number, String::from("1000000"), 0),
        Token::new(TokenType::EOF, String::new(), 0),
    ];

    println!("{:#?}", tokens);
    assert_eq!(tokens, expected);
}

#[test]
fn tokenize_negative_numbers_with_underlines() {
    let input = String::from("-100_000 -1_000_000");

    // initializing lexer
    let mut lexer = Lexer::new(input, String::from("tokenize_numbers.tpl"));

    let tokens = lexer.tokenize().unwrap();

    // expected tokens
    let expected = vec![
        Token::new(TokenType::Number, String::from("-100000"), 0),
        Token::new(TokenType::Number, String::from("-1000000"), 0),
        Token::new(TokenType::EOF, String::new(), 0),
    ];

    println!("{:#?}", tokens);
    assert_eq!(tokens, expected);
}


#[test]
fn tokenize_string() {
    let input = String::from("\"hello world\"");

    // initializing lexer
    let mut lexer = Lexer::new(input, String::from("strings.tpl"));

    let tokens = lexer.tokenize().unwrap();

    // expected tokens
    let expected = vec![
        Token::new(TokenType::String, String::from("hello world"), 0),
        Token::new(TokenType::EOF, String::new(), 0),
    ];

    println!("{:#?}", tokens);
    assert_eq!(tokens, expected);
}

#[test]
fn tokenize_difficult_string() {
    let input = String::from("\"█string║ \n\r\"");

    // initializing lexer
    let mut lexer = Lexer::new(input, String::from("strings.tpl"));

    let tokens = lexer.tokenize().unwrap();

    // expected tokens
    let expected = vec![
        Token::new(TokenType::String, String::from("█string║ \n\r"), 0),
        Token::new(TokenType::EOF, String::new(), 0),
    ];

    println!("{:#?}", tokens);
    assert_eq!(tokens, expected);
}

#[test]
fn tokenize_multiple_strings() {
    let input = String::from("\"hello world\" \"hey hey\" \"hola hola\"");

    // initializing lexer
    let mut lexer = Lexer::new(input, String::from("strings.tpl"));

    let tokens = lexer.tokenize().unwrap();

    // expected tokens
    let expected = vec![
        Token::new(TokenType::String, String::from("hello world"), 0),
        Token::new(TokenType::String, String::from("hey hey"), 0),
        Token::new(TokenType::String, String::from("hola hola"), 0),
        Token::new(TokenType::EOF, String::new(), 0),
    ];

    println!("{:#?}", tokens);
    assert_eq!(tokens, expected);
}
