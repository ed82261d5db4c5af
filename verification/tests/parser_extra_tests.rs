use tpl_lang::ast::{Expressions, Statements, Value};
use tpl_lang::lexer::Lexer;
use tpl_lang::parser::Parser;
use tpl_lang::token::{Token, TokenType};

fn tokens_of(input: &str) -> Vec<Token> {
    let mut lexer = Lexer::new(input.to_string(), "test".to_string());
    match lexer.tokenize() {
        Ok(t) => t,
        Err(_) => panic!("Lexer side error occured!"),
    }
}

fn parse_text(input: &str) -> Option<Result<Vec<Statements>, tpl_lang::parse_error::ParseErrorHandler>> {
    let mut parser = Parser::new(tokens_of(input), "test".to_string(), input.to_string());
    parser.parse_checked()
}

#[test]
fn tokens_end_with_the_end_token() {
    for input in ["", "a", "int8 a = 5;", "if 1 < 2 { print(\"x\") };", "a\nb\nc"] {
        let tokens = tokens_of(input);
        let last = tokens.last().unwrap();
        assert_eq!(*last, Token::new(TokenType::EOF, String::new(), 0));
        let ends = tokens.iter().filter(|t| t.token_type == TokenType::EOF).count();
        assert_eq!(ends, 1);
    }
}

#[test]
fn failed_parse_reports_every_error() {
    colored::control::set_override(false);
    let r = parse_text("int0 a;\nx y;");
    let errors = match r {
        Some(Err(e)) => e,
        _ => panic!("expected errors"),
    };
    assert!(!errors.is_empty());
    let text = errors.format_all();
    assert_eq!(text.matches("[ParseError]:").count(), 4);
    assert!(text.contains("Unexpected expression/statement after identifier"));
    assert!(errors.informate().starts_with("---- parsing-analyzer found 4 errors! ----\n"));
}

#[test]
fn error_report_points_at_the_line() {
    colored::control::set_override(false);
    let r = parse_text("a = 1;\nfor 5;");
    let errors = match r {
        Some(Err(e)) => e,
        _ => panic!("expected errors"),
    };
    let text = errors.format_all();
    assert!(text.starts_with("[ParseError]: Variable name expected after keyword `for`!\n--> test\n"));
}

#[test]
fn empty_token_list_cannot_be_parsed() {
    let mut parser = Parser::new(Vec::new(), "test".to_string(), String::new());
    assert!(parser.parse_checked().is_none());
}

#[test]
fn statement_without_progress_never_ends() {
    assert!(parse_text("else x").is_none());
}

#[test]
fn too_big_literal_cannot_be_parsed() {
    assert!(parse_text("a = 3000000000;").is_none());
}

#[test]
fn increments_and_decrements() {
    let ast = parse_text("a++;").unwrap().unwrap();
    assert_eq!(
        ast[0],
        Statements::BinaryAssignStatement {
            identifier: "a".to_string(),
            operand: "+".to_string(),
            value: Some(Box::new(Expressions::Value(Value::Integer(1)))),
            line: 0
        }
    );
    let tokens = vec![
        Token::new(TokenType::Identifier, "b".to_string(), 0),
        Token::new(TokenType::Minus, "-".to_string(), 0),
        Token::new(TokenType::Minus, "-".to_string(), 0),
        Token::new(TokenType::Semicolon, ";".to_string(), 0),
        Token::new(TokenType::EOF, String::new(), 0),
    ];
    let mut parser = Parser::new(tokens, "test".to_string(), "b--;".to_string());
    let ast = parser.parse().unwrap();
    assert_eq!(
        ast[0],
        Statements::BinaryAssignStatement {
            identifier: "b".to_string(),
            operand: "-".to_string(),
            value: Some(Box::new(Expressions::Value(Value::Integer(1)))),
            line: 0
        }
    );
    assert!(matches!(parse_text("a+-;"), Some(Err(_))));
}

#[test]
fn priority_operator_takes_the_left_operand() {
    let ast = parse_text("2 * 3 + 4;").unwrap().unwrap();
    assert_eq!(
        ast[0],
        Statements::Expression(Expressions::Binary {
            operand: "+".to_string(),
            lhs: Box::new(Expressions::Binary {
                operand: "*".to_string(),
                lhs: Box::new(Expressions::Value(Value::Integer(2))),
                rhs: Box::new(Expressions::Value(Value::Integer(3))),
                line: 0
            }),
            rhs: Box::new(Expressions::Value(Value::Integer(4))),
            line: 0
        })
    );
}

#[test]
fn nested_annotation_type() {
    let ast = parse_text("fn<int8> f;").unwrap().unwrap();
    assert_eq!(
        ast[0],
        Statements::AnnotationStatement {
            identifier: "f".to_string(),
            datatype: "fn<int8>".to_string(),
            value: None,
            line: 0
        }
    );
}

#[test]
fn call_statement_with_arguments() {
    let ast = parse_text("print(1, x);").unwrap().unwrap();
    assert_eq!(
        ast[0],
        Statements::FunctionCallStatement {
            function_name: "print".to_string(),
            arguments: vec![
                Expressions::Value(Value::Integer(1)),
                Expressions::Value(Value::Identifier("x".to_string()))
            ],
            line: 0
        }
    );
    assert_eq!(ast.len(), 1);
}

#[test]
fn name_statement_leaves_its_semicolon() {
    let mut parser = Parser::new(tokens_of("y;"), "test".to_string(), "y;".to_string());
    assert!(matches!(parser.parse_checked(), Some(Err(_))));
}

#[test]
fn import_needs_a_string() {
    assert!(matches!(parse_text("import 5;"), Some(Err(_))));
}

#[test]
fn lines_are_kept() {
    let ast = parse_text("a = 1;\nb = 2;").unwrap().unwrap();
    assert_eq!(
        ast[1],
        Statements::AssignStatement {
            identifier: "b".to_string(),
            value: Some(Box::new(Expressions::Value(Value::Integer(2)))),
            line: 1
        }
    );
}
