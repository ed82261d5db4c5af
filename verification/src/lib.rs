//! A toy programming language front end: a lexer that turns source text into
//! tokens, a parser that turns tokens into statements, and the error reports,
//! type names and command line texts that the compiler around them relies on.

pub mod text;
pub mod number;
pub mod report;
pub mod source;
pub mod token;
pub mod lexer_error;
pub mod lexer;
pub mod ast;
pub mod parse_error;
pub mod parser_spec;
pub mod parser;
pub mod parser_laws;
pub mod types;
pub mod call_check;
pub mod type_shape;
pub mod builtins;
pub mod gen_error;
pub mod import;
pub mod cli;
