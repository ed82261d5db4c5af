//! The meaning of parsing: spec functions that read the token list exactly
//! as the executable parser does.
//!
//! Each function takes the parser's place (`PState`) and answers what it
//! builds and the place after it, or `None` where the parser would panic
//! (reading past the last token, an integer literal outside `i32`, a source
//! without the line an error points at) or would never finish (a loop that
//! makes no progress).

use vstd::prelude::*;
use crate::ast::{SExpr, SStmt, SValue};
use crate::number::parse_i32;
use crate::parse_error::ParseErrorView;
use crate::report::debug_text;
use crate::source::source_lines;
use crate::text::is_white_space;
use crate::token::{TokenType, TokenView};

verus! {

/// What does not change while parsing.
pub struct PCtx {
    pub tokens: Seq<TokenView>,
    pub filename: Seq<char>,
    pub source: Seq<char>,
}

/// The parser's place: the index of the current token, the errors found so
/// far, and whether the end token was reached by a statement.
pub struct PState {
    pub pos: int,
    pub errors: Seq<ParseErrorView>,
    pub eof: bool,
}

/// The current token exists.
pub open spec fn valid(c: PCtx, s: PState) -> bool {
    0 <= s.pos < c.tokens.len()
}

/// The current token.
pub open spec fn cur(c: PCtx, s: PState) -> TokenView {
    c.tokens[s.pos]
}

/// Moves to the next token; `None` past the last one.
pub open spec fn bump(c: PCtx, s: PState) -> Option<PState> {
    if 0 <= s.pos && s.pos + 1 < c.tokens.len() {
        Some(PState { pos: s.pos + 1, ..s })
    } else {
        None
    }
}

/// `s1` lies at or after `s` and has a current token.
pub open spec fn moved(c: PCtx, s: PState, s1: PState) -> bool {
    s.pos <= s1.pos < c.tokens.len()
}

/// Records an error at the current token.
pub open spec fn perr(c: PCtx, s: PState, description: Seq<char>) -> Option<PState> {
    if !valid(c, s) {
        None
    } else {
        let line = cur(c, s).line;
        let lines = source_lines(c.source);
        if line < lines.len() {
            Some(
                PState {
                    errors: s.errors.push(
                        ParseErrorView {
                            filename: c.filename,
                            description,
                            line: lines[line as int],
                            line_number: line,
                            position: s.pos as usize,
                        },
                    ),
                    ..s
                },
            )
        } else {
            None
        }
    }
}

/// Records an error and gives up on the statement.
pub open spec fn fail_stmt(c: PCtx, s: PState, description: Seq<char>) -> Option<(SStmt, PState)> {
    match perr(c, s, description) {
        None => None,
        Some(s1) => Some((SStmt::Nothing, s1)),
    }
}

/// Records an error, moves on one token and gives up on the statement.
pub open spec fn fail_stmt_next(c: PCtx, s: PState, description: Seq<char>) -> Option<
    (SStmt, PState),
> {
    match perr(c, s, description) {
        None => None,
        Some(s1) => match bump(c, s1) {
            None => None,
            Some(s2) => Some((SStmt::Nothing, s2)),
        },
    }
}

/// Records an error, moves on one token and gives up on the expression.
pub open spec fn fail_expr_next(c: PCtx, s: PState, description: Seq<char>) -> Option<
    (SExpr, PState),
> {
    match perr(c, s, description) {
        None => None,
        Some(s1) => match bump(c, s1) {
            None => None,
            Some(s2) => Some((SExpr::Nothing, s2)),
        },
    }
}

/// Moves past a `;` when it is the current token.
pub open spec fn skip_eos(c: PCtx, s: PState) -> Option<PState> {
    if !valid(c, s) {
        None
    } else if cur(c, s).token_type == TokenType::Semicolon {
        bump(c, s)
    } else {
        Some(s)
    }
}

/// The type names.
pub open spec fn is_datatype(v: Seq<char>) -> bool {
    v == "int8"@ || v == "int16"@ || v == "int32"@ || v == "int64"@ || v == "int128"@ || v
        == "str"@ || v == "bool"@ || v == "auto"@ || v == "void"@ || v == "fn"@
}

/// The token kinds of binary operators.
pub open spec fn is_binary_operator(t: TokenType) -> bool {
    t == TokenType::Plus || t == TokenType::Minus || t == TokenType::Divide || t
        == TokenType::Multiply || t == TokenType::Lt || t == TokenType::Bt || t == TokenType::Eq
        || t == TokenType::Ne
}

/// The operators that bind tighter than the others.
pub open spec fn is_priority_operator(v: Seq<char>) -> bool {
    v == "*"@ || v == "/"@
}

/// `s` without leading whitespace.
pub open spec fn trim_start(s: Seq<char>) -> Seq<char>
    decreases s.len(),
{
    if s.len() > 0 && is_white_space(s[0]) {
        trim_start(s.drop_first())
    } else {
        s
    }
}

/// `s` without trailing whitespace.
pub open spec fn trim_end(s: Seq<char>) -> Seq<char>
    decreases s.len(),
{
    if s.len() > 0 && is_white_space(s.last()) {
        trim_end(s.drop_last())
    } else {
        s
    }
}

/// `str::trim`.
pub open spec fn trim(s: Seq<char>) -> Seq<char> {
    trim_end(trim_start(s))
}

/// Every expression is an argument declaration `type name`.
pub open spec fn all_arguments(args: Seq<SExpr>) -> bool {
    forall|i: int| 0 <= i < args.len() ==> #[trigger] args[i] is Argument
}

/// The `(name, type)` pairs of argument declarations.
pub open spec fn argument_pairs(args: Seq<SExpr>) -> Seq<(Seq<char>, Seq<char>)> {
    Seq::new(
        args.len(),
        |i: int|
            match args[i] {
                SExpr::Argument { name, datatype } => (name, datatype),
                _ => (seq![], seq![]),
            },
    )
}

pub open spec fn msg_not_arguments() -> Seq<char> {
    "All arguments in definition must be `type name` (example: `int32 a`)"@
}

/// Skips tokens up to a `;`.
pub open spec fn skip_to_semicolon(c: PCtx, s: PState) -> Option<PState>
    decreases c.tokens.len() - s.pos,
{
    if !valid(c, s) {
        None
    } else if cur(c, s).token_type == TokenType::Semicolon {
        Some(s)
    } else {
        match bump(c, s) {
            None => None,
            Some(s1) => skip_to_semicolon(c, s1),
        }
    }
}

/// A statement.
pub open spec fn sp_statement(c: PCtx, s: PState) -> Option<(SStmt, PState)>
    decreases c.tokens.len() - s.pos, 7int,
{
    if !valid(c, s) {
        None
    } else {
        let t = cur(c, s);
        match t.token_type {
            TokenType::Keyword => {
                if is_datatype(t.value) {
                    sp_annotation(c, s)
                } else if t.value == "import"@ {
                    sp_import(c, s)
                } else if t.value == "if"@ {
                    sp_if(c, s)
                } else if t.value == "else"@ {
                    fail_stmt(
                        c,
                        s,
                        "Unexpected `else` usage. Please use it in `if/else` construction!"@,
                    )
                } else if t.value == "while"@ {
                    sp_while(c, s)
                } else if t.value == "for"@ {
                    sp_for(c, s)
                } else if t.value == "define"@ {
                    sp_define(c, s)
                } else if t.value == "return"@ {
                    sp_return(c, s)
                } else if t.value == "break"@ {
                    match bump(c, s) {
                        None => None,
                        Some(s1) => match skip_eos(c, s1) {
                            None => None,
                            Some(s2) => Some((SStmt::BreakStatement { line: t.line }, s2)),
                        },
                    }
                } else {
                    Some((SStmt::Nothing, s))
                }
            },
            TokenType::Function => sp_function_call_statement(c, s, t.value),
            TokenType::Identifier => match bump(c, s) {
                None => None,
                Some(s1) => {
                    let nt = cur(c, s1);
                    if nt.token_type == TokenType::Equal {
                        sp_assign(c, s1, t.value)
                    } else if nt.token_type == TokenType::LParen {
                        sp_call_statement(c, s1, t.value)
                    } else if is_binary_operator(nt.token_type) {
                        match bump(c, s1) {
                            None => None,
                            Some(s2) => {
                                let nt2 = cur(c, s2);
                                if nt2.token_type == TokenType::Equal {
                                    sp_binary_assign(c, s2, t.value, nt.value)
                                } else if nt2.token_type == TokenType::Plus || nt2.token_type
                                    == TokenType::Minus {
                                    if nt.value != nt2.value {
                                        fail_stmt(
                                            c,
                                            s2,
                                            "Unexpected variation of increment/decrement found!"@,
                                        )
                                    } else {
                                        match bump(c, s2) {
                                            None => None,
                                            Some(s3) => match skip_eos(c, s3) {
                                                None => None,
                                                Some(s4) => Some(
                                                    (
                                                        SStmt::BinaryAssignStatement {
                                                            identifier: t.value,
                                                            operand: nt.value,
                                                            value: Some(
                                                                SExpr::Value(SValue::Integer(1)),
                                                            ),
                                                            line: t.line,
                                                        },
                                                        s4,
                                                    ),
                                                ),
                                            },
                                        }
                                    }
                                } else {
                                    fail_stmt(
                                        c,
                                        s2,
                                        "Unexpected Binary Operation in statement found!"@,
                                    )
                                }
                            },
                        }
                    } else if nt.token_type == TokenType::Semicolon {
                        Some((SStmt::Expression(SExpr::Value(SValue::Identifier(t.value))), s1))
                    } else {
                        fail_stmt_next(c, s1, "Unexpected expression/statement after identifier"@)
                    }
                },
            },
            TokenType::EOF => Some((SStmt::Nothing, PState { eof: true, ..s })),
            _ => match sp_expression(c, s) {
                None => None,
                Some((e, s1)) => Some((SStmt::Expression(e), s1)),
            },
        }
    }
}

/// A term: a literal, a name, a call or an argument declaration.
pub open spec fn sp_term(c: PCtx, s: PState) -> Option<(SExpr, PState)>
    decreases c.tokens.len() - s.pos, 3int,
{
    if !valid(c, s) {
        None
    } else {
        let t = cur(c, s);
        match t.token_type {
            TokenType::Number => match parse_i32(trim(t.value)) {
                None => None,
                Some(v) => match bump(c, s) {
                    None => None,
                    Some(s1) => Some((SExpr::Value(SValue::Integer(v)), s1)),
                },
            },
            TokenType::String => match bump(c, s) {
                None => None,
                Some(s1) => Some((SExpr::Value(SValue::String(t.value)), s1)),
            },
            TokenType::Boolean => match bump(c, s) {
                None => None,
                Some(s1) => Some((SExpr::Value(SValue::Boolean(t.value == "true"@)), s1)),
            },
            TokenType::Identifier => match bump(c, s) {
                None => None,
                Some(s1) => if cur(c, s1).token_type == TokenType::LParen {
                    sp_call_expression(c, s1, t.value)
                } else {
                    Some((SExpr::Value(SValue::Identifier(t.value)), s1))
                },
            },
            _ => if is_datatype(t.value) {
                match bump(c, s) {
                    None => None,
                    Some(s1) => {
                        let identifier = cur(c, s1);
                        if identifier.token_type != TokenType::Identifier {
                            Some((SExpr::Value(SValue::Keyword(t.value)), s1))
                        } else {
                            match bump(c, s1) {
                                None => None,
                                Some(s2) => Some(
                                    (
                                        SExpr::Argument {
                                            name: identifier.value,
                                            datatype: t.value,
                                        },
                                        s2,
                                    ),
                                ),
                            }
                        }
                    },
                }
            } else if t.token_type == TokenType::Function {
                sp_call_expression(c, s, t.value)
            } else if t.token_type == TokenType::Keyword {
                Some((SExpr::Value(SValue::Keyword(t.value)), s))
            } else {
                fail_expr_next(c, s, "Unexpected term '"@ + debug_text(t.value) + "' found"@)
            },
        }
    }
}

/// An expression: a term, possibly followed by a binary operator and the
/// rest, or a lambda `type (arguments) { statements }`.
pub open spec fn sp_expression(c: PCtx, s: PState) -> Option<(SExpr, PState)>
    decreases c.tokens.len() - s.pos, 4int,
{
    match sp_term(c, s) {
        None => None,
        Some((node, s1)) => if !moved(c, s, s1) {
            None
        } else {
            let t = cur(c, s1);
            if is_binary_operator(t.token_type) {
                sp_binary_expression(c, s1, node)
            } else if t.token_type == TokenType::LParen {
                match node {
                    SExpr::Value(SValue::Keyword(keyword)) => if !is_datatype(keyword) {
                        fail_expr_next(
                            c,
                            s1,
                            "Unexpected keyword `"@ + keyword + "` in expression"@,
                        )
                    } else {
                        match sp_expressions_enum(
                            c,
                            s1,
                            TokenType::LParen,
                            TokenType::RParen,
                            TokenType::Comma,
                        ) {
                            None => None,
                            Some((args, s2)) => if !moved(c, s1, s2) {
                                None
                            } else if !all_arguments(args) {
                                match perr(c, s2, msg_not_arguments()) {
                                    None => None,
                                    Some(s3) => Some((SExpr::Nothing, s3)),
                                }
                            } else if cur(c, s2).token_type != TokenType::LBrace {
                                fail_expr_next(
                                    c,
                                    s2,
                                    "Expected block after lambda function definition!"@,
                                )
                            } else {
                                match bump(c, s2) {
                                    None => None,
                                    Some(s3) => match sp_lambda_body(c, s3, seq![]) {
                                        None => None,
                                        Some((stmts, s4)) => match bump(c, s4) {
                                            None => None,
                                            Some(s5) => Some(
                                                (
                                                    SExpr::Lambda {
                                                        arguments: argument_pairs(args),
                                                        statements: stmts,
                                                        ftype: keyword,
                                                        line: t.line,
                                                    },
                                                    s5,
                                                ),
                                            ),
                                        },
                                    },
                                }
                            },
                        }
                    },
                    _ => fail_expr_next(c, s1, "Unexpected parentheses in expression found"@),
                }
            } else if t.token_type == TokenType::Semicolon {
                match bump(c, s1) {
                    None => None,
                    Some(s2) => Some((node, s2)),
                }
            } else {
                Some((node, s1))
            }
        },
    }
}

/// The statements of a lambda, up to the closing brace (left current).
pub open spec fn sp_lambda_body(c: PCtx, s: PState, acc: Seq<SStmt>) -> Option<
    (Seq<SStmt>, PState),
>
    decreases c.tokens.len() - s.pos, 8int,
{
    if !valid(c, s) {
        None
    } else if cur(c, s).token_type == TokenType::RBrace {
        Some((acc, s))
    } else {
        match sp_statement(c, s) {
            None => None,
            Some((st, s1)) => if s1.pos <= s.pos || s1.pos >= c.tokens.len() {
                None
            } else {
                sp_lambda_body(c, s1, acc.push(st))
            },
        }
    }
}

/// The rest of a binary expression whose left side is `node`; the current
/// token is the operator.
pub open spec fn sp_binary_expression(c: PCtx, s: PState, node: SExpr) -> Option<(SExpr, PState)>
    decreases c.tokens.len() - s.pos, 1int,
{
    if !valid(c, s) {
        None
    } else {
        let t = cur(c, s);
        if is_binary_operator(t.token_type) {
            match bump(c, s) {
                None => None,
                Some(s1) => match sp_expression(c, s1) {
                    None => None,
                    Some((rhs, s2)) => if is_priority_operator(t.value) && rhs is Binary {
                        match rhs {
                            SExpr::Binary { operand, lhs, rhs: rest, line } => Some(
                                (
                                    SExpr::Binary {
                                        lhs: Box::new(
                                            SExpr::Binary {
                                                lhs: Box::new(node),
                                                rhs: lhs,
                                                operand: t.value,
                                                line: t.line,
                                            },
                                        ),
                                        rhs: rest,
                                        operand,
                                        line: t.line,
                                    },
                                    s2,
                                ),
                            ),
                            _ => None,
                        }
                    } else {
                        Some(
                            (
                                SExpr::Binary {
                                    operand: t.value,
                                    lhs: Box::new(node),
                                    rhs: Box::new(rhs),
                                    line: t.line,
                                },
                                s2,
                            ),
                        )
                    },
                },
            }
        } else {
            fail_expr_next(c, s, "Unexpected token at binary expression!"@)
        }
    }
}

/// A call expression of `name`: skips names up to `(`, then the arguments.
pub open spec fn sp_call_expression(c: PCtx, s: PState, name: Seq<char>) -> Option<
    (SExpr, PState),
>
    decreases c.tokens.len() - s.pos, 2int,
{
    if !valid(c, s) {
        None
    } else {
        let t = cur(c, s);
        if t.token_type == TokenType::Identifier || t.token_type == TokenType::Function {
            match bump(c, s) {
                None => None,
                Some(s1) => sp_call_expression(c, s1, name),
            }
        } else if t.token_type == TokenType::LParen {
            match sp_expressions_enum(c, s, TokenType::LParen, TokenType::RParen, TokenType::Comma) {
                None => None,
                Some((args, s1)) => match skip_eos(c, s1) {
                    None => None,
                    Some(s2) => Some(
                        (SExpr::Call { function_name: name, arguments: args, line: t.line }, s2),
                    ),
                },
            }
        } else {
            match perr(c, s, "Unexpected variation of call expression!"@) {
                None => None,
                Some(s1) => Some((SExpr::Nothing, s1)),
            }
        }
    }
}

/// A call statement of a built-in function `name`.
pub open spec fn sp_function_call_statement(c: PCtx, s: PState, name: Seq<char>) -> Option<
    (SStmt, PState),
>
    decreases c.tokens.len() - s.pos, 3int,
{
    if !valid(c, s) {
        None
    } else {
        let t = cur(c, s);
        if t.token_type == TokenType::Function {
            match bump(c, s) {
                None => None,
                Some(s1) => sp_function_call_statement(c, s1, name),
            }
        } else if t.token_type == TokenType::LParen {
            match sp_expressions_enum(c, s, TokenType::LParen, TokenType::RParen, TokenType::Comma) {
                None => None,
                Some((args, s1)) => if !valid(c, s1) {
                    None
                } else {
                    let s2 = if cur(c, s1).token_type == TokenType::Semicolon {
                        bump(c, s1)
                    } else {
                        Some(s1)
                    };
                    match s2 {
                        None => None,
                        Some(s2) => Some(
                            (
                                SStmt::FunctionCallStatement {
                                    function_name: name,
                                    arguments: args,
                                    line: t.line,
                                },
                                s2,
                            ),
                        ),
                    }
                },
            }
        } else {
            match perr(c, s, "Unexpected usage of `"@ + name + "` statement"@) {
                None => None,
                Some(s1) => match skip_to_semicolon(c, s1) {
                    None => None,
                    Some(s2) => Some((SStmt::Nothing, s2)),
                },
            }
        }
    }
}

/// A variable annotation `type name = value;` or `type name;`.
pub open spec fn sp_annotation(c: PCtx, s: PState) -> Option<(SStmt, PState)>
    decreases c.tokens.len() - s.pos, 5int,
{
    if !valid(c, s) {
        None
    } else {
        let t = cur(c, s);
        if !is_datatype(t.value) {
            Some((SStmt::Nothing, s))
        } else {
            match bump(c, s) {
                None => None,
                Some(s1) => if cur(c, s1).token_type == TokenType::Lt {
                    match bump(c, s1) {
                        None => None,
                        Some(s2) => if cur(c, s2).token_type != TokenType::Keyword {
                            fail_stmt_next(c, s2, "Unexpected nested datatype found!"@)
                        } else {
                            let subtype = cur(c, s2).value;
                            match bump(c, s2) {
                                None => None,
                                Some(s3) => if cur(c, s3).token_type != TokenType::Bt {
                                    fail_stmt_next(
                                        c,
                                        s3,
                                        "Wrong nested type definition! Must be like: fn<int32>"@,
                                    )
                                } else {
                                    match bump(c, s3) {
                                        None => None,
                                        Some(s4) => sp_annotation_named(
                                            c,
                                            s4,
                                            t.value + seq!['<'] + subtype + seq!['>'],
                                            t.line,
                                        ),
                                    }
                                },
                            }
                        },
                    }
                } else {
                    sp_annotation_named(c, s1, t.value, t.line)
                },
            }
        }
    }
}

/// The rest of an annotation after its type.
pub open spec fn sp_annotation_named(c: PCtx, s: PState, datatype: Seq<char>, line: usize) -> Option<
    (SStmt, PState),
>
    decreases c.tokens.len() - s.pos, 5int,
{
    if !valid(c, s) {
        None
    } else if cur(c, s).token_type != TokenType::Identifier {
        fail_stmt_next(c, s, "Identifier expected after type keyword!"@)
    } else {
        let id = cur(c, s).value;
        match bump(c, s) {
            None => None,
            Some(s1) => {
                let nt = cur(c, s1);
                if nt.token_type == TokenType::Equal {
                    match bump(c, s1) {
                        None => None,
                        Some(s2) => match sp_expression(c, s2) {
                            None => None,
                            Some((v, s3)) => match skip_eos(c, s3) {
                                None => None,
                                Some(s4) => Some(
                                    (
                                        SStmt::AnnotationStatement {
                                            identifier: id,
                                            datatype,
                                            value: Some(v),
                                            line,
                                        },
                                        s4,
                                    ),
                                ),
                            },
                        },
                    }
                } else if nt.token_type == TokenType::Semicolon {
                    match skip_eos(c, s1) {
                        None => None,
                        Some(s2) => Some(
                            (
                                SStmt::AnnotationStatement {
                                    identifier: id,
                                    datatype,
                                    value: None,
                                    line,
                                },
                                s2,
                            ),
                        ),
                    }
                } else {
                    fail_stmt_next(c, s1, "Expected `=` or `;` after variable annotation"@)
                }
            },
        }
    }
}

/// An assignment `name = value` to `identifier`, from the `=` on.
pub open spec fn sp_assign(c: PCtx, s: PState, identifier: Seq<char>) -> Option<(SStmt, PState)>
    decreases c.tokens.len() - s.pos, 5int,
{
    if !valid(c, s) {
        None
    } else {
        let t = cur(c, s);
        if t.token_type == TokenType::Equal {
            match bump(c, s) {
                None => None,
                Some(s1) => sp_assign(c, s1, identifier),
            }
        } else if t.token_type == TokenType::Semicolon {
            fail_stmt_next(c, s, "Expressions expected in assign statement, but `;` found!"@)
        } else {
            match sp_expression(c, s) {
                None => None,
                Some((v, s1)) => Some(
                    (SStmt::AssignStatement { identifier, value: Some(v), line: t.line }, s1),
                ),
            }
        }
    }
}

/// A binary assignment `name op= value`, from the `=` on.
pub open spec fn sp_binary_assign(
    c: PCtx,
    s: PState,
    identifier: Seq<char>,
    operand: Seq<char>,
) -> Option<(SStmt, PState)>
    decreases c.tokens.len() - s.pos, 5int,
{
    if !valid(c, s) {
        None
    } else {
        let t = cur(c, s);
        if t.token_type == TokenType::Equal {
            match bump(c, s) {
                None => None,
                Some(s1) => sp_binary_assign(c, s1, identifier, operand),
            }
        } else if t.token_type == TokenType::Semicolon {
            fail_stmt_next(c, s, "Expressions expected in binary assignment, but `;` found!"@)
        } else {
            match sp_expression(c, s) {
                None => None,
                Some((v, s1)) => Some(
                    (
                        SStmt::BinaryAssignStatement {
                            identifier,
                            operand,
                            value: Some(v),
                            line: t.line,
                        },
                        s1,
                    ),
                ),
            }
        }
    }
}

/// The statements of a block, up to the closing brace (left current).
/// `Some((None, _))` when the end token comes first: an error with
/// `message` is recorded.
pub open spec fn sp_block(c: PCtx, s: PState, acc: Seq<SStmt>, message: Seq<char>) -> Option<
    (Option<Seq<SStmt>>, PState),
>
    decreases c.tokens.len() - s.pos, 8int,
{
    if !valid(c, s) {
        None
    } else if cur(c, s).token_type == TokenType::RBrace {
        Some((Some(acc), s))
    } else if cur(c, s).token_type == TokenType::EOF {
        match perr(c, s, message) {
            None => None,
            Some(s1) => Some((None, s1)),
        }
    } else {
        match sp_statement(c, s) {
            None => None,
            Some((st, s1)) => if s1.pos <= s.pos || s1.pos >= c.tokens.len() {
                None
            } else {
                sp_block(c, s1, acc.push(st), message)
            },
        }
    }
}

/// Moves past the closing brace that ends a block.
pub open spec fn close_block(c: PCtx, s: PState) -> Option<PState> {
    if !valid(c, s) {
        None
    } else if cur(c, s).token_type == TokenType::RBrace {
        bump(c, s)
    } else {
        Some(s)
    }
}

/// A condition followed by a block: the parts of `if`, `while` and `for`.
/// `Some((None, _))` after an error.
pub open spec fn sp_guarded_block(c: PCtx, s: PState, message: Seq<char>) -> Option<
    (Option<(SExpr, Seq<SStmt>)>, PState),
>
    decreases c.tokens.len() - s.pos, 5int,
{
    match sp_expression(c, s) {
        None => None,
        Some((cond, s1)) => if !moved(c, s, s1) {
            None
        } else if cur(c, s1).token_type != TokenType::LBrace {
            match perr(c, s1, "New block expected after condition!"@) {
                None => None,
                Some(s2) => Some((None, s2)),
            }
        } else {
            match bump(c, s1) {
                None => None,
                Some(s2) => match sp_block(c, s2, seq![], message) {
                    None => None,
                    Some((None, s3)) => Some((None, s3)),
                    Some((Some(stmts), s3)) => match close_block(c, s3) {
                        None => None,
                        Some(s4) => Some((Some((cond, stmts)), s4)),
                    },
                },
            }
        },
    }
}

/// An `if` statement, with an optional `else` block.
pub open spec fn sp_if(c: PCtx, s: PState) -> Option<(SStmt, PState)>
    decreases c.tokens.len() - s.pos, 6int,
{
    if !valid(c, s) {
        None
    } else if cur(c, s).token_type == TokenType::Keyword {
        match bump(c, s) {
            None => None,
            Some(s1) => sp_if(c, s1),
        }
    } else {
        let line = cur(c, s).line;
        match sp_guarded_block(
            c,
            s,
            "Unexpected end-of-file in block after `if` statement. Please add '}'!"@,
        ) {
            None => None,
            Some((None, s1)) => Some((SStmt::Nothing, s1)),
            Some((Some((cond, stmts)), s1)) => if !moved(c, s, s1) {
                None
            } else {
                let t = cur(c, s1);
                if t.token_type == TokenType::Keyword {
                    if t.value != "else"@ {
                        fail_stmt(
                            c,
                            s1,
                            "Unexpected keyword after `if` statement. Please add ';' for ending statement!"@,
                        )
                    } else {
                        match bump(c, s1) {
                            None => None,
                            Some(s2) => if cur(c, s2).token_type != TokenType::LBrace {
                                fail_stmt(c, s2, "New block expected after `else` keyword!"@)
                            } else {
                                match bump(c, s2) {
                                    None => None,
                                    Some(s3) => match sp_block(
                                        c,
                                        s3,
                                        seq![],
                                        "Unexpected end-of-file in block after `else` statement. Please add '}'!"@,
                                    ) {
                                        None => None,
                                        Some((None, s4)) => Some((SStmt::Nothing, s4)),
                                        Some((Some(else_stmts), s4)) => match close_block(c, s4) {
                                            None => None,
                                            Some(s5) => if !valid(c, s5) {
                                                None
                                            } else if cur(c, s5).token_type
                                                != TokenType::Semicolon {
                                                fail_stmt(
                                                    c,
                                                    s5,
                                                    "Semicolon expected after `if/else` construction!"@,
                                                )
                                            } else {
                                                match skip_eos(c, s5) {
                                                    None => None,
                                                    Some(s6) => Some(
                                                        (
                                                            SStmt::IfStatement {
                                                                condition: cond,
                                                                then_block: stmts,
                                                                else_block: Some(else_stmts),
                                                                line,
                                                            },
                                                            s6,
                                                        ),
                                                    ),
                                                }
                                            },
                                        },
                                    },
                                }
                            },
                        }
                    }
                } else {
                    match skip_eos(c, s1) {
                        None => None,
                        Some(s2) => Some(
                            (
                                SStmt::IfStatement {
                                    condition: cond,
                                    then_block: stmts,
                                    else_block: None,
                                    line,
                                },
                                s2,
                            ),
                        ),
                    }
                }
            },
        }
    }
}

/// A `while` loop.
pub open spec fn sp_while(c: PCtx, s: PState) -> Option<(SStmt, PState)>
    decreases c.tokens.len() - s.pos, 6int,
{
    if !valid(c, s) {
        None
    } else if cur(c, s).token_type == TokenType::Keyword {
        match bump(c, s) {
            None => None,
            Some(s1) => sp_while(c, s1),
        }
    } else {
        let line = cur(c, s).line;
        match sp_guarded_block(
            c,
            s,
            "Unexpected end-of-file in block after `while` statement. Please add '}'!"@,
        ) {
            None => None,
            Some((None, s1)) => Some((SStmt::Nothing, s1)),
            Some((Some((cond, stmts)), s1)) => match skip_eos(c, s1) {
                None => None,
                Some(s2) => Some(
                    (SStmt::WhileStatement { condition: cond, block: stmts, line }, s2),
                ),
            },
        }
    }
}

/// A `for name in object { ... }` loop.
pub open spec fn sp_for(c: PCtx, s: PState) -> Option<(SStmt, PState)>
    decreases c.tokens.len() - s.pos, 6int,
{
    if !valid(c, s) {
        None
    } else if cur(c, s).token_type == TokenType::Keyword {
        match bump(c, s) {
            None => None,
            Some(s1) => sp_for(c, s1),
        }
    } else if cur(c, s).token_type != TokenType::Identifier {
        fail_stmt(c, s, "Variable name expected after keyword `for`!"@)
    } else {
        let line = cur(c, s).line;
        let varname = cur(c, s).value;
        match bump(c, s) {
            None => None,
            Some(s1) => {
                let keyword = cur(c, s1);
                if keyword.token_type == TokenType::Keyword && keyword.value == "in"@ {
                    match bump(c, s1) {
                        None => None,
                        Some(s2) => match sp_guarded_block(
                            c,
                            s2,
                            "Unexpected end-of-file in block after `for` statement. Please add '}'!"@,
                        ) {
                            None => None,
                            Some((None, s3)) => Some((SStmt::Nothing, s3)),
                            Some((Some((object, stmts)), s3)) => match skip_eos(c, s3) {
                                None => None,
                                Some(s4) => Some(
                                    (
                                        SStmt::ForStatement {
                                            varname,
                                            iterable_object: object,
                                            block: stmts,
                                            line,
                                        },
                                        s4,
                                    ),
                                ),
                            },
                        },
                    }
                } else {
                    fail_stmt(
                        c,
                        s1,
                        "Expected keyword 'in` after variable name in `for` statement!"@,
                    )
                }
            },
        }
    }
}

/// A call statement `name(arguments)` of a user function `name`.
pub open spec fn sp_call_statement(c: PCtx, s: PState, name: Seq<char>) -> Option<
    (SStmt, PState),
>
    decreases c.tokens.len() - s.pos, 3int,
{
    if !valid(c, s) {
        None
    } else {
        let t = cur(c, s);
        if t.token_type == TokenType::Identifier {
            match bump(c, s) {
                None => None,
                Some(s1) => sp_call_statement(c, s1, name),
            }
        } else if t.token_type == TokenType::LParen {
            match sp_expressions_enum(c, s, TokenType::LParen, TokenType::RParen, TokenType::Comma) {
                None => None,
                Some((args, s1)) => match skip_eos(c, s1) {
                    None => None,
                    Some(s2) => Some(
                        (
                            SStmt::FunctionCallStatement {
                                function_name: name,
                                arguments: args,
                                line: t.line,
                            },
                            s2,
                        ),
                    ),
                },
            }
        } else {
            fail_stmt(c, s, "Unexpected variation of call statement!"@)
        }
    }
}

/// A function definition `define type name(arguments) { ... }`.
pub open spec fn sp_define(c: PCtx, s: PState) -> Option<(SStmt, PState)>
    decreases c.tokens.len() - s.pos, 5int,
{
    if !valid(c, s) {
        None
    } else if cur(c, s).token_type != TokenType::Keyword {
        fail_stmt(c, s, "Unexpected variation of defining function"@)
    } else {
        let line = cur(c, s).line;
        let s1 = if cur(c, s).value == "define"@ {
            bump(c, s)
        } else {
            Some(s)
        };
        match s1 {
            None => None,
            Some(s1) => if !is_datatype(cur(c, s1).value) {
                fail_stmt(c, s1, "Unexpected keyword found after `define`!"@)
            } else {
                let function_type = cur(c, s1).value;
                match bump(c, s1) {
                    None => None,
                    Some(s2) => if cur(c, s2).token_type != TokenType::Identifier {
                        fail_stmt(
                            c,
                            s2,
                            "Identifier for function expected, but found anything else!"@,
                        )
                    } else {
                        let function_name = cur(c, s2).value;
                        match bump(c, s2) {
                            None => None,
                            Some(s3) => match sp_expressions_enum(
                                c,
                                s3,
                                TokenType::LParen,
                                TokenType::RParen,
                                TokenType::Comma,
                            ) {
                                None => None,
                                Some((args, s4)) => if !moved(c, s, s4) {
                                    None
                                } else if !all_arguments(args) {
                                    fail_stmt(c, s4, msg_not_arguments())
                                } else if cur(c, s4).token_type != TokenType::LBrace {
                                    fail_stmt(
                                        c,
                                        s4,
                                        "Expected block with code after function declaration!"@,
                                    )
                                } else {
                                    match bump(c, s4) {
                                        None => None,
                                        Some(s5) => match sp_block(
                                            c,
                                            s5,
                                            seq![],
                                            "Unexpected end-of-file in block after `for` statement. Please add '}'!"@,
                                        ) {
                                            None => None,
                                            Some((None, s6)) => Some((SStmt::Nothing, s6)),
                                            Some((Some(stmts), s6)) => match close_block(c, s6) {
                                                None => None,
                                                Some(s7) => match skip_eos(c, s7) {
                                                    None => None,
                                                    Some(s8) => Some(
                                                        (
                                                            SStmt::FunctionDefineStatement {
                                                                function_name,
                                                                function_type,
                                                                arguments: argument_pairs(args),
                                                                block: stmts,
                                                                line,
                                                            },
                                                            s8,
                                                        ),
                                                    ),
                                                },
                                            },
                                        },
                                    }
                                },
                            },
                        }
                    },
                }
            },
        }
    }
}

/// A `return value` statement.
pub open spec fn sp_return(c: PCtx, s: PState) -> Option<(SStmt, PState)>
    decreases c.tokens.len() - s.pos, 5int,
{
    if !valid(c, s) {
        None
    } else {
        let s1 = if cur(c, s).token_type == TokenType::Keyword {
            bump(c, s)
        } else {
            Some(s)
        };
        match s1 {
            None => None,
            Some(s1) => match sp_expression(c, s1) {
                None => None,
                Some((v, s2)) => match skip_eos(c, s2) {
                    None => None,
                    Some(s3) => Some((SStmt::ReturnStatement { value: v, line: cur(c, s1).line }, s3)),
                },
            },
        }
    }
}

/// An `import "path"` statement.
pub open spec fn sp_import(c: PCtx, s: PState) -> Option<(SStmt, PState)>
    decreases c.tokens.len() - s.pos, 5int,
{
    if !valid(c, s) {
        None
    } else {
        let s1 = if cur(c, s).token_type == TokenType::Keyword {
            bump(c, s)
        } else {
            Some(s)
        };
        match s1 {
            None => None,
            Some(s1) => match sp_expression(c, s1) {
                None => None,
                Some((path, s2)) => match skip_eos(c, s2) {
                    None => None,
                    Some(s3) => match path {
                        SExpr::Value(SValue::String(_)) => Some(
                            (SStmt::ImportStatement { path, line: cur(c, s1).line }, s3),
                        ),
                        _ => fail_stmt(c, s3, "Unexpected import value found!"@),
                    },
                },
            },
        }
    }
}

/// A list of expressions between `start` and `end`, separated by `sep`.
/// The first token is skipped whatever it is (it is meant to be `start`).
pub open spec fn sp_expressions_enum(
    c: PCtx,
    s: PState,
    start: TokenType,
    end: TokenType,
    sep: TokenType,
) -> Option<(Seq<SExpr>, PState)>
    decreases c.tokens.len() - s.pos, 1int,
{
    if !valid(c, s) {
        None
    } else {
        match bump(c, s) {
            None => None,
            Some(s1) => match sp_enum_items(c, s1, cur(c, s1).token_type, end, sep, seq![]) {
                None => None,
                Some((items, s2)) => match close_enum(c, s2, end) {
                    None => None,
                    Some(s3) => Some((items, s3)),
                },
            },
        }
    }
}

/// Moves past the `end` token of a list when it is current.
pub open spec fn close_enum(c: PCtx, s: PState, end: TokenType) -> Option<PState> {
    if !valid(c, s) {
        None
    } else if cur(c, s).token_type == end {
        bump(c, s)
    } else {
        Some(s)
    }
}

/// The items of a list. `last` is the kind of the token the loop looked at
/// last: the loop stops when it is `end`.
pub open spec fn sp_enum_items(
    c: PCtx,
    s: PState,
    last: TokenType,
    end: TokenType,
    sep: TokenType,
    acc: Seq<SExpr>,
) -> Option<(Seq<SExpr>, PState)>
    decreases c.tokens.len() - s.pos, 5int,
{
    if last == end {
        Some((acc, s))
    } else if !valid(c, s) {
        None
    } else {
        let t = cur(c, s);
        if t.token_type == sep {
            match bump(c, s) {
                None => None,
                Some(s1) => sp_enum_items(c, s1, t.token_type, end, sep, acc),
            }
        } else if t.token_type == end {
            Some((acc, s))
        } else {
            match sp_expression(c, s) {
                None => None,
                Some((e, s1)) => if s1.pos <= s.pos || s1.pos >= c.tokens.len() {
                    None
                } else {
                    sp_enum_items(c, s1, t.token_type, end, sep, acc.push(e))
                },
            }
        }
    }
}

/// The main loop of `parse`: statements until the last token or until a
/// statement reaches the end token.
pub open spec fn sp_parse_loop(c: PCtx, s: PState, acc: Seq<SStmt>) -> Option<(Seq<SStmt>, PState)>
    decreases c.tokens.len() - s.pos,
{
    if c.tokens.len() == 0 || s.pos < 0 {
        None
    } else if s.pos >= c.tokens.len() - 1 {
        Some((acc, s))
    } else {
        match sp_statement(c, s) {
            None => None,
            Some((st, s1)) => if s1.eof {
                Some((acc.push(st), s1))
            } else if s1.pos <= s.pos || s1.pos >= c.tokens.len() {
                None
            } else {
                sp_parse_loop(c, s1, acc.push(st))
            },
        }
    }
}

/// What `parse` gives: the place it ends at, and the statements or, when
/// any error was recorded, the errors.
pub open spec fn sp_parse(c: PCtx, s: PState) -> Option<
    (PState, Result<Seq<SStmt>, Seq<ParseErrorView>>),
> {
    match sp_parse_loop(c, s, seq![]) {
        None => None,
        Some((stmts, f)) => Some(
            (
                f,
                if f.errors.len() == 0 {
                    Ok(stmts)
                } else {
                    Err(f.errors)
                },
            ),
        ),
    }
}

/// A parse fails exactly when it has recorded an error, and then it hands
/// back every error recorded, in the order found.
pub proof fn parse_fails_iff_errors(c: PCtx, s: PState)
    ensures
        match sp_parse(c, s) {
            Some((f, Ok(_))) => f.errors.len() == 0,
            Some((f, Err(errors))) => errors.len() > 0 && errors == f.errors,
            None => true,
        },
{
}

} // verus!
