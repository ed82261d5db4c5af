use tpl_lang::gen_error::{ErrorType, GenError, ImportError, ImportErrorType};
use tpl_lang::lexer_error::{LexerError, LexerErrorHandler};
use tpl_lang::parse_error::{ParseError, ParseErrorHandler};

#[test]
fn parse_error_report_plain() {
    colored::control::set_override(false);
    let e = ParseError::new(
        "main.tpl".to_string(),
        "Something went wrong".to_string(),
        "int0 a;".to_string(),
        12,
        4,
    );
    assert_eq!(e.get_description(), "Something went wrong");
    assert_eq!(e.error_description(), "[ParseError]: Something went wrong");
    assert_eq!(
        e.format_error(),
        "[ParseError]: Something went wrong\n--> main.tpl\n    |\n 12 | int0 a;\n    |\n"
    );
}

#[test]
fn parse_error_report_coloured() {
    colored::control::set_override(true);
    let e = ParseError::new("f".to_string(), "d".to_string(), "l".to_string(), 0, 0);
    assert_eq!(e.error_description(), "\x1b[31m[ParseError]:\x1b[0m d");
    assert_eq!(
        e.format_error(),
        "\x1b[31m[ParseError]:\x1b[0m d\n\x1b[36m--> f\x1b[0m\n   \x1b[36m|\x1b[0m\n 0 \x1b[36m|\x1b[0m l\n   \x1b[36m|\x1b[0m\n"
    );
}

#[test]
fn parse_error_debug_message() {
    let e = ParseError::new(
        "f".to_string(),
        "say \"hi\"".to_string(),
        "line".to_string(),
        1,
        3,
    );
    assert_eq!(
        e.debug_message(),
        "Description: \"say \\\"hi\\\"\"\n            Line: \"line\"\n            Position: 3"
    );
}

#[test]
fn parse_error_handler_summary() {
    colored::control::set_override(false);
    let mut h = ParseErrorHandler::new();
    assert!(h.is_empty());
    h.attach(ParseError::new("f".to_string(), "a".to_string(), "x".to_string(), 0, 0));
    h.attach(ParseError::new("f".to_string(), "b".to_string(), "y".to_string(), 1, 2));
    assert!(!h.is_empty());
    let one = "[ParseError]: a\n--> f\n   |\n 0 | x\n   |\n";
    let two = "[ParseError]: b\n--> f\n   |\n 1 | y\n   |\n";
    assert_eq!(h.format_all(), format!("{}{}", one, two));
    assert_eq!(
        h.informate(),
        format!("---- parsing-analyzer found 2 errors! ----\n{}{}", one, two)
    );
}

#[test]
fn lexer_error_report_plain() {
    colored::control::set_override(false);
    let e = LexerError::new(
        "lex.tpl".to_string(),
        "Undefined char found: $".to_string(),
        "a $ b".to_string(),
        7,
        3,
        '$',
    );
    assert_eq!(e.error_description(), "[LexerError]: Undefined char found: $");
    assert_eq!(
        e.format_error(),
        "[LexerError]: Undefined char found: $\n--> lex.tpl\n   |\n 7 | a $ b\n   |\n"
    );
    assert_eq!(
        e.debug_message(),
        "Description: \"Undefined char found: $\"\n            Line: \"a $ b\"\n            Position: 3\n            Char: '$'"
    );
    let mut h = LexerErrorHandler::new();
    h.attach(e);
    assert!(!h.is_empty());
    assert!(h.informate().starts_with("---- lexing-analyzer found 1 errors! ----\n"));
}

#[test]
fn codegen_report_plain() {
    colored::control::set_override(false);
    let r = GenError::format(
        "Undefined variable with id: `x`!".to_string(),
        ErrorType::NotDefined.name().to_string(),
        "main.tpl".to_string(),
        "int8 a = 1;\nprint(x);".to_string(),
        1,
    );
    assert_eq!(
        r,
        "[CodeGen][NotDefined][main.tpl]: Undefined variable with id: `x`!\n   |\n 2 | print(x);\n   |"
    );
}

#[test]
fn codegen_report_pads_by_the_line_index() {
    colored::control::set_override(false);
    let mut source = String::new();
    for i in 0..10 {
        source.push_str(&format!("line{}\n", i));
    }
    let r = GenError::format(
        "bad".to_string(),
        "TypeError".to_string(),
        "m".to_string(),
        source,
        9,
    );
    assert_eq!(r, "[CodeGen][TypeError][m]: bad\n   |\n 10 | line9\n   |");
}

#[test]
fn codegen_report_coloured() {
    colored::control::set_override(true);
    let r = GenError::format(
        "d".to_string(),
        "BuildError".to_string(),
        "m".to_string(),
        "x".to_string(),
        0,
    );
    assert_eq!(
        r,
        "\x1b[31m[CodeGen][BuildError][m]:\x1b[0m d\n   \x1b[36m|\x1b[0m\n 1 \x1b[36m|\x1b[0m x\n   \x1b[36m|\x1b[0m"
    );
}

#[test]
fn error_type_names() {
    assert_eq!(ErrorType::NotDefined.name(), "NotDefined");
    assert_eq!(ErrorType::NotSupported.name(), "NotSupported");
    assert_eq!(ErrorType::NotExpected.name(), "NotExpected");
    assert_eq!(ErrorType::VerificationFailure.name(), "VerificationFailure");
    assert_eq!(ErrorType::ImportError.name(), "ImportError");
    assert_eq!(ErrorType::TypeError.name(), "TypeError");
    assert_eq!(ErrorType::MemoryError.name(), "MemoryError");
    assert_eq!(ErrorType::BuildError.name(), "BuildError");
    assert_eq!(format!("{:?}", ErrorType::TypeError), ErrorType::TypeError.name());
    assert_eq!(ImportErrorType::PathError.name(), "PathError");
    assert_eq!(ImportErrorType::FormatError.name(), "FormatError");
    assert_eq!(ImportErrorType::ReadFailure.name(), "ReadFailure");
    assert_eq!(format!("{:?}", ImportErrorType::ReadFailure), ImportErrorType::ReadFailure.name());
}

#[test]
fn import_report() {
    colored::control::set_override(false);
    assert_eq!(
        ImportError::format(
            "Module `std.tpl` does not exists!".to_string(),
            "PathError".to_string()
        ),
        "[ImportError][PathError]: Module `std.tpl` does not exists!"
    );
    colored::control::set_override(true);
    assert_eq!(
        ImportError::format("x".to_string(), "ReadFailure".to_string()),
        "\x1b[31m[ImportError][ReadFailure]:\x1b[0m x"
    );
}

#[test]
fn attaching_appends_the_report() {
    colored::control::set_override(false);
    let mut h = LexerErrorHandler::new();
    h.attach(LexerError::new("f".to_string(), "a".to_string(), "x".to_string(), 0, 1, 'x'));
    let before = h.format_all();
    let e = LexerError::new("f".to_string(), "b".to_string(), "y".to_string(), 0, 2, 'y');
    let report = e.format_error();
    h.attach(e);
    assert!(!h.is_empty());
    assert_eq!(h.format_all(), before + &report);

    let mut p = ParseErrorHandler::new();
    let before = p.format_all();
    let e = ParseError::new("f".to_string(), "c".to_string(), "z".to_string(), 0, 0);
    let report = e.format_error();
    p.attach(e);
    assert_eq!(p.format_all(), before + &report);
}
