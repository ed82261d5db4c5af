//! What every step of the parser keeps: it never moves back over the
//! tokens, and it never loses or changes an error recorded before.

use vstd::prelude::*;
use crate::ast::{SExpr, SStmt, SValue};
use crate::parser_spec::{
    all_arguments, bump, close_block, close_enum, cur, fail_expr_next, fail_stmt, fail_stmt_next,
    is_binary_operator, is_datatype, moved, msg_not_arguments, perr, skip_eos, skip_to_semicolon,
    sp_annotation, sp_annotation_named, sp_assign, sp_binary_assign, sp_binary_expression,
    sp_block, sp_call_expression, sp_call_statement, sp_define, sp_enum_items, sp_expression,
    sp_expressions_enum, sp_for, sp_function_call_statement, sp_guarded_block, sp_if, sp_import,
    sp_lambda_body, sp_parse, sp_parse_loop, sp_return, sp_statement, sp_term, sp_while, valid,
    PCtx, PState,
};
use crate::token::TokenType;

verus! {

/// `s1` lies at or after `s` and holds the errors of `s` as its first ones.
pub open spec fn keeps(s: PState, s1: PState) -> bool {
    &&& s.pos <= s1.pos
    &&& s.errors.len() <= s1.errors.len()
    &&& forall|i: int| 0 <= i < s.errors.len() ==> #[trigger] s1.errors[i] == s.errors[i]
}

/// The outcome of a statement step keeps what came before.
pub open spec fn stmt_keeps(s: PState, r: Option<(SStmt, PState)>) -> bool {
    match r {
        Some((_, s1)) => keeps(s, s1),
        None => true,
    }
}

/// The outcome of an expression step keeps what came before.
pub open spec fn expr_keeps(s: PState, r: Option<(SExpr, PState)>) -> bool {
    match r {
        Some((_, s1)) => keeps(s, s1),
        None => true,
    }
}

proof fn lemma_keeps_trans(a: PState, b: PState, c: PState)
    requires
        keeps(a, b),
        keeps(b, c),
    ensures
        keeps(a, c),
{
    assert forall|i: int| 0 <= i < a.errors.len() implies #[trigger] c.errors[i] == a.errors[i] by {
        assert(c.errors[i] == b.errors[i]);
    }
}

proof fn lemma_perr_keeps(c: PCtx, s: PState, d: Seq<char>)
    ensures
        match perr(c, s, d) {
            Some(s1) => keeps(s, s1),
            None => true,
        },
{
    match perr(c, s, d) {
        Some(s1) => {
            assert forall|i: int| 0 <= i < s.errors.len() implies #[trigger] s1.errors[i]
                == s.errors[i] by {}
        },
        None => {},
    }
}

proof fn lemma_fail_keeps(c: PCtx, s: PState, d: Seq<char>)
    ensures
        stmt_keeps(s, fail_stmt(c, s, d)),
        stmt_keeps(s, fail_stmt_next(c, s, d)),
        expr_keeps(s, fail_expr_next(c, s, d)),
{
    lemma_perr_keeps(c, s, d);
}

proof fn lemma_skip_to_semicolon_keeps(c: PCtx, s: PState)
    ensures
        match skip_to_semicolon(c, s) {
            Some(s1) => keeps(s, s1),
            None => true,
        },
    decreases c.tokens.len() - s.pos,
{
    if valid(c, s) && cur(c, s).token_type != TokenType::Semicolon {
        match bump(c, s) {
            None => {},
            Some(s1) => {
                lemma_skip_to_semicolon_keeps(c, s1);
            },
        }
    }
}

proof fn lemma_statement_keeps(c: PCtx, s: PState)
    ensures
        stmt_keeps(s, sp_statement(c, s)),
    decreases c.tokens.len() - s.pos, 7int,
{
    if valid(c, s) {
        let t = cur(c, s);
        match t.token_type {
            TokenType::Keyword => {
                if is_datatype(t.value) {
                    lemma_annotation_keeps(c, s);
                } else if t.value == "import"@ {
                    lemma_import_keeps(c, s);
                } else if t.value == "if"@ {
                    lemma_if_keeps(c, s);
                } else if t.value == "else"@ {
                    lemma_fail_keeps(
                        c,
                        s,
                        "Unexpected `else` usage. Please use it in `if/else` construction!"@,
                    );
                } else if t.value == "while"@ {
                    lemma_while_keeps(c, s);
                } else if t.value == "for"@ {
                    lemma_for_keeps(c, s);
                } else if t.value == "define"@ {
                    lemma_define_keeps(c, s);
                } else if t.value == "return"@ {
                    lemma_return_keeps(c, s);
                }
            },
            TokenType::Function => {
                lemma_function_call_statement_keeps(c, s, t.value);
            },
            TokenType::Identifier => match bump(c, s) {
                None => {},
                Some(s1) => {
                    let nt = cur(c, s1);
                    if nt.token_type == TokenType::Equal {
                        lemma_assign_keeps(c, s1, t.value);
                        if sp_assign(c, s1, t.value) is Some {
                            lemma_keeps_trans(s, s1, (sp_assign(c, s1, t.value)->0).1);
                        }
                    } else if nt.token_type == TokenType::LParen {
                        lemma_call_statement_keeps(c, s1, t.value);
                        if sp_call_statement(c, s1, t.value) is Some {
                            lemma_keeps_trans(s, s1, (sp_call_statement(c, s1, t.value)->0).1);
                        }
                    } else if is_binary_operator(nt.token_type) {
                        match bump(c, s1) {
                            None => {},
                            Some(s2) => {
                                let nt2 = cur(c, s2);
                                if nt2.token_type == TokenType::Equal {
                                    lemma_binary_assign_keeps(c, s2, t.value, nt.value);
                                    if sp_binary_assign(c, s2, t.value, nt.value) is Some {
                                        lemma_keeps_trans(
                                            s,
                                            s2,
                                            (sp_binary_assign(c, s2, t.value, nt.value)->0).1,
                                        );
                                    }
                                } else if nt2.token_type == TokenType::Plus || nt2.token_type
                                    == TokenType::Minus {
                                    if nt.value != nt2.value {
                                        lemma_fail_keeps(
                                            c,
                                            s2,
                                            "Unexpected variation of increment/decrement found!"@,
                                        );
                                        if fail_stmt(
                                            c,
                                            s2,
                                            "Unexpected variation of increment/decrement found!"@,
                                        ) is Some {
                                            lemma_keeps_trans(
                                                s,
                                                s2,
                                                (fail_stmt(
                                                    c,
                                                    s2,
                                                    "Unexpected variation of increment/decrement found!"@,
                                                )->0).1,
                                            );
                                        }
                                    }
                                } else {
                                    lemma_fail_keeps(
                                        c,
                                        s2,
                                        "Unexpected Binary Operation in statement found!"@,
                                    );
                                    if fail_stmt(
                                        c,
                                        s2,
                                        "Unexpected Binary Operation in statement found!"@,
                                    ) is Some {
                                        lemma_keeps_trans(
                                            s,
                                            s2,
                                            (fail_stmt(
                                                c,
                                                s2,
                                                "Unexpected Binary Operation in statement found!"@,
                                            )->0).1,
                                        );
                                    }
                                }
                            },
                        }
                    } else if nt.token_type != TokenType::Semicolon {
                        lemma_fail_keeps(
                            c,
                            s1,
                            "Unexpected expression/statement after identifier"@,
                        );
                        if fail_stmt_next(
                            c,
                            s1,
                            "Unexpected expression/statement after identifier"@,
                        ) is Some {
                            lemma_keeps_trans(
                                s,
                                s1,
                                (fail_stmt_next(
                                    c,
                                    s1,
                                    "Unexpected expression/statement after identifier"@,
                                )->0).1,
                            );
                        }
                    }
                },
            },
            TokenType::EOF => {},
            _ => {
                lemma_expression_keeps(c, s);
            },
        }
    }
}

proof fn lemma_term_keeps(c: PCtx, s: PState)
    ensures
        expr_keeps(s, sp_term(c, s)),
    decreases c.tokens.len() - s.pos, 3int,
{
    if valid(c, s) {
        let t = cur(c, s);
        match t.token_type {
            TokenType::Number => {},
            TokenType::String => {},
            TokenType::Boolean => {},
            TokenType::Identifier => match bump(c, s) {
                None => {},
                Some(s1) => {
                    if cur(c, s1).token_type == TokenType::LParen {
                        lemma_call_expression_keeps(c, s1, t.value);
                        if sp_call_expression(c, s1, t.value) is Some {
                            lemma_keeps_trans(s, s1, (sp_call_expression(c, s1, t.value)->0).1);
                        }
                    }
                },
            },
            _ => {
                if is_datatype(t.value) {
                } else if t.token_type == TokenType::Function {
                    lemma_call_expression_keeps(c, s, t.value);
                } else if t.token_type == TokenType::Keyword {
                } else {
                    lemma_fail_keeps(c, s, "Unexpected term '"@ + crate::report::debug_text(t.value) + "' found"@);
                }
            },
        }
    }
}

proof fn lemma_expression_keeps(c: PCtx, s: PState)
    ensures
        expr_keeps(s, sp_expression(c, s)),
    decreases c.tokens.len() - s.pos, 4int,
{
    lemma_term_keeps(c, s);
    match sp_term(c, s) {
        None => {},
        Some((node, s1)) => {
            if moved(c, s, s1) {
                let t = cur(c, s1);
                if is_binary_operator(t.token_type) {
                    lemma_binary_expression_keeps(c, s1, node);
                    if sp_binary_expression(c, s1, node) is Some {
                        lemma_keeps_trans(s, s1, (sp_binary_expression(c, s1, node)->0).1);
                    }
                } else if t.token_type == TokenType::LParen {
                    match node {
                        SExpr::Value(crate::ast::SValue::Keyword(keyword)) => {
                            if !is_datatype(keyword) {
                                let d = "Unexpected keyword `"@ + keyword + "` in expression"@;
                                lemma_fail_keeps(c, s1, d);
                                if fail_expr_next(c, s1, d) is Some {
                                    lemma_keeps_trans(s, s1, (fail_expr_next(c, s1, d)->0).1);
                                }
                            } else {
                                lemma_expressions_enum_keeps(
                                    c,
                                    s1,
                                    TokenType::LParen,
                                    TokenType::RParen,
                                    TokenType::Comma,
                                );
                                match sp_expressions_enum(
                                    c,
                                    s1,
                                    TokenType::LParen,
                                    TokenType::RParen,
                                    TokenType::Comma,
                                ) {
                                    None => {},
                                    Some((args, s2)) => {
                                        lemma_keeps_trans(s, s1, s2);
                                        if moved(c, s1, s2) {
                                            if !all_arguments(args) {
                                                lemma_perr_keeps(c, s2, msg_not_arguments());
                                                if perr(c, s2, msg_not_arguments()) is Some {
                                                    lemma_keeps_trans(
                                                        s,
                                                        s2,
                                                        perr(c, s2, msg_not_arguments())->0,
                                                    );
                                                }
                                            } else if cur(c, s2).token_type != TokenType::LBrace {
                                                let d = "Expected block after lambda function definition!"@;
                                                lemma_fail_keeps(c, s2, d);
                                                if fail_expr_next(c, s2, d) is Some {
                                                    lemma_keeps_trans(
                                                        s,
                                                        s2,
                                                        (fail_expr_next(c, s2, d)->0).1,
                                                    );
                                                }
                                            } else {
                                                match bump(c, s2) {
                                                    None => {},
                                                    Some(s3) => {
                                                        lemma_lambda_body_keeps(c, s3, seq![]);
                                                        match sp_lambda_body(c, s3, seq![]) {
                                                            None => {},
                                                            Some((_, s4)) => {
                                                                lemma_keeps_trans(s, s2, s3);
                                                                lemma_keeps_trans(s, s3, s4);
                                                                match bump(c, s4) {
                                                                    None => {},
                                                                    Some(s5) => {
                                                                        lemma_keeps_trans(s, s4, s5);
                                                                    },
                                                                }
                                                            },
                                                        }
                                                    },
                                                }
                                            }
                                        }
                                    },
                                }
                            }
                        },
                        _ => {
                            let d = "Unexpected parentheses in expression found"@;
                            lemma_fail_keeps(c, s1, d);
                            if fail_expr_next(c, s1, d) is Some {
                                lemma_keeps_trans(s, s1, (fail_expr_next(c, s1, d)->0).1);
                            }
                        },
                    }
                } else if t.token_type == TokenType::Semicolon {
                    match bump(c, s1) {
                        None => {},
                        Some(s2) => {
                            lemma_keeps_trans(s, s1, s2);
                        },
                    }
                }
            }
        },
    }
}

proof fn lemma_lambda_body_keeps(c: PCtx, s: PState, acc: Seq<SStmt>)
    ensures
        match sp_lambda_body(c, s, acc) {
            Some((_, s1)) => keeps(s, s1),
            None => true,
        },
    decreases c.tokens.len() - s.pos, 8int,
{
    if valid(c, s) && cur(c, s).token_type != TokenType::RBrace {
        lemma_statement_keeps(c, s);
        match sp_statement(c, s) {
            None => {},
            Some((st, s1)) => {
                if !(s1.pos <= s.pos || s1.pos >= c.tokens.len()) {
                    lemma_lambda_body_keeps(c, s1, acc.push(st));
                    if sp_lambda_body(c, s1, acc.push(st)) is Some {
                        lemma_keeps_trans(s, s1, (sp_lambda_body(c, s1, acc.push(st))->0).1);
                    }
                }
            },
        }
    }
}

proof fn lemma_binary_expression_keeps(c: PCtx, s: PState, node: SExpr)
    ensures
        expr_keeps(s, sp_binary_expression(c, s, node)),
    decreases c.tokens.len() - s.pos, 1int,
{
    if valid(c, s) {
        let t = cur(c, s);
        if is_binary_operator(t.token_type) {
            match bump(c, s) {
                None => {},
                Some(s1) => {
                    lemma_expression_keeps(c, s1);
                    if sp_expression(c, s1) is Some {
                        lemma_keeps_trans(s, s1, (sp_expression(c, s1)->0).1);
                    }
                },
            }
        } else {
            lemma_fail_keeps(c, s, "Unexpected token at binary expression!"@);
        }
    }
}

proof fn lemma_call_expression_keeps(c: PCtx, s: PState, name: Seq<char>)
    ensures
        expr_keeps(s, sp_call_expression(c, s, name)),
    decreases c.tokens.len() - s.pos, 2int,
{
    if valid(c, s) {
        let t = cur(c, s);
        if t.token_type == TokenType::Identifier || t.token_type == TokenType::Function {
            match bump(c, s) {
                None => {},
                Some(s1) => {
                    lemma_call_expression_keeps(c, s1, name);
                    if sp_call_expression(c, s1, name) is Some {
                        lemma_keeps_trans(s, s1, (sp_call_expression(c, s1, name)->0).1);
                    }
                },
            }
        } else if t.token_type == TokenType::LParen {
            lemma_expressions_enum_keeps(
                c,
                s,
                TokenType::LParen,
                TokenType::RParen,
                TokenType::Comma,
            );
            match sp_expressions_enum(c, s, TokenType::LParen, TokenType::RParen, TokenType::Comma) {
                None => {},
                Some((_, s1)) => match skip_eos(c, s1) {
                    None => {},
                    Some(s2) => {
                        lemma_keeps_trans(s, s1, s2);
                    },
                },
            }
        } else {
            lemma_perr_keeps(c, s, "Unexpected variation of call expression!"@);
        }
    }
}

proof fn lemma_function_call_statement_keeps(c: PCtx, s: PState, name: Seq<char>)
    ensures
        stmt_keeps(s, sp_function_call_statement(c, s, name)),
    decreases c.tokens.len() - s.pos, 3int,
{
    if valid(c, s) {
        let t = cur(c, s);
        if t.token_type == TokenType::Function {
            match bump(c, s) {
                None => {},
                Some(s1) => {
                    lemma_function_call_statement_keeps(c, s1, name);
                    if sp_function_call_statement(c, s1, name) is Some {
                        lemma_keeps_trans(s, s1, (sp_function_call_statement(c, s1, name)->0).1);
                    }
                },
            }
        } else if t.token_type == TokenType::LParen {
            lemma_expressions_enum_keeps(
                c,
                s,
                TokenType::LParen,
                TokenType::RParen,
                TokenType::Comma,
            );
            match sp_expressions_enum(c, s, TokenType::LParen, TokenType::RParen, TokenType::Comma) {
                None => {},
                Some((_, s1)) => {
                    if valid(c, s1) && cur(c, s1).token_type == TokenType::Semicolon {
                        match bump(c, s1) {
                            None => {},
                            Some(s2) => {
                                lemma_keeps_trans(s, s1, s2);
                            },
                        }
                    }
                },
            }
        } else {
            let d = "Unexpected usage of `"@ + name + "` statement"@;
            lemma_perr_keeps(c, s, d);
            match perr(c, s, d) {
                None => {},
                Some(s1) => {
                    lemma_skip_to_semicolon_keeps(c, s1);
                    if skip_to_semicolon(c, s1) is Some {
                        lemma_keeps_trans(s, s1, skip_to_semicolon(c, s1)->0);
                    }
                },
            }
        }
    }
}

proof fn lemma_annotation_keeps(c: PCtx, s: PState)
    ensures
        stmt_keeps(s, sp_annotation(c, s)),
    decreases c.tokens.len() - s.pos, 5int,
{
    if valid(c, s) && is_datatype(cur(c, s).value) {
        let t = cur(c, s);
        match bump(c, s) {
            None => {},
            Some(s1) => {
                if cur(c, s1).token_type == TokenType::Lt {
                    match bump(c, s1) {
                        None => {},
                        Some(s2) => {
                            if cur(c, s2).token_type != TokenType::Keyword {
                                lemma_fail_keeps(c, s2, "Unexpected nested datatype found!"@);
                                if fail_stmt_next(c, s2, "Unexpected nested datatype found!"@) is Some {
                                    lemma_keeps_trans(
                                        s,
                                        s2,
                                        (fail_stmt_next(c, s2, "Unexpected nested datatype found!"@)->0).1,
                                    );
                                }
                            } else {
                                let subtype = cur(c, s2).value;
                                match bump(c, s2) {
                                    None => {},
                                    Some(s3) => {
                                        let d = "Wrong nested type definition! Must be like: fn<int32>"@;
                                        if cur(c, s3).token_type != TokenType::Bt {
                                            lemma_fail_keeps(c, s3, d);
                                            if fail_stmt_next(c, s3, d) is Some {
                                                lemma_keeps_trans(
                                                    s,
                                                    s3,
                                                    (fail_stmt_next(c, s3, d)->0).1,
                                                );
                                            }
                                        } else {
                                            match bump(c, s3) {
                                                None => {},
                                                Some(s4) => {
                                                    let dt = t.value + seq!['<'] + subtype + seq!['>'];
                                                    lemma_annotation_named_keeps(c, s4, dt, t.line);
                                                    if sp_annotation_named(c, s4, dt, t.line) is Some {
                                                        lemma_keeps_trans(
                                                            s,
                                                            s4,
                                                            (sp_annotation_named(c, s4, dt, t.line)->0).1,
                                                        );
                                                    }
                                                },
                                            }
                                        }
                                    },
                                }
                            }
                        },
                    }
                } else {
                    lemma_annotation_named_keeps(c, s1, t.value, t.line);
                    if sp_annotation_named(c, s1, t.value, t.line) is Some {
                        lemma_keeps_trans(s, s1, (sp_annotation_named(c, s1, t.value, t.line)->0).1);
                    }
                }
            },
        }
    }
}

proof fn lemma_annotation_named_keeps(c: PCtx, s: PState, datatype: Seq<char>, line: usize)
    ensures
        stmt_keeps(s, sp_annotation_named(c, s, datatype, line)),
    decreases c.tokens.len() - s.pos, 5int,
{
    if valid(c, s) {
        if cur(c, s).token_type != TokenType::Identifier {
            lemma_fail_keeps(c, s, "Identifier expected after type keyword!"@);
        } else {
            match bump(c, s) {
                None => {},
                Some(s1) => {
                    let nt = cur(c, s1);
                    if nt.token_type == TokenType::Equal {
                        match bump(c, s1) {
                            None => {},
                            Some(s2) => {
                                lemma_expression_keeps(c, s2);
                                match sp_expression(c, s2) {
                                    None => {},
                                    Some((_, s3)) => {
                                        lemma_keeps_trans(s, s2, s3);
                                        match skip_eos(c, s3) {
                                            None => {},
                                            Some(s4) => {
                                                lemma_keeps_trans(s, s3, s4);
                                            },
                                        }
                                    },
                                }
                            },
                        }
                    } else if nt.token_type != TokenType::Semicolon {
                        let d = "Expected `=` or `;` after variable annotation"@;
                        lemma_fail_keeps(c, s1, d);
                        if fail_stmt_next(c, s1, d) is Some {
                            lemma_keeps_trans(s, s1, (fail_stmt_next(c, s1, d)->0).1);
                        }
                    }
                },
            }
        }
    }
}

proof fn lemma_assign_keeps(c: PCtx, s: PState, identifier: Seq<char>)
    ensures
        stmt_keeps(s, sp_assign(c, s, identifier)),
    decreases c.tokens.len() - s.pos, 5int,
{
    if valid(c, s) {
        let t = cur(c, s);
        if t.token_type == TokenType::Equal {
            match bump(c, s) {
                None => {},
                Some(s1) => {
                    lemma_assign_keeps(c, s1, identifier);
                    if sp_assign(c, s1, identifier) is Some {
                        lemma_keeps_trans(s, s1, (sp_assign(c, s1, identifier)->0).1);
                    }
                },
            }
        } else if t.token_type == TokenType::Semicolon {
            lemma_fail_keeps(c, s, "Expressions expected in assign statement, but `;` found!"@);
        } else {
            lemma_expression_keeps(c, s);
        }
    }
}

proof fn lemma_binary_assign_keeps(
    c: PCtx,
    s: PState,
    identifier: Seq<char>,
    operand: Seq<char>,
)
    ensures
        stmt_keeps(s, sp_binary_assign(c, s, identifier, operand)),
    decreases c.tokens.len() - s.pos, 5int,
{
    if valid(c, s) {
        let t = cur(c, s);
        if t.token_type == TokenType::Equal {
            match bump(c, s) {
                None => {},
                Some(s1) => {
                    lemma_binary_assign_keeps(c, s1, identifier, operand);
                    if sp_binary_assign(c, s1, identifier, operand) is Some {
                        lemma_keeps_trans(s, s1, (sp_binary_assign(c, s1, identifier, operand)->0).1);
                    }
                },
            }
        } else if t.token_type == TokenType::Semicolon {
            lemma_fail_keeps(c, s, "Expressions expected in binary assignment, but `;` found!"@);
        } else {
            lemma_expression_keeps(c, s);
        }
    }
}

proof fn lemma_block_keeps(c: PCtx, s: PState, acc: Seq<SStmt>, message: Seq<char>)
    ensures
        match sp_block(c, s, acc, message) {
            Some((_, s1)) => keeps(s, s1),
            None => true,
        },
    decreases c.tokens.len() - s.pos, 8int,
{
    if valid(c, s) && cur(c, s).token_type != TokenType::RBrace {
        if cur(c, s).token_type == TokenType::EOF {
            lemma_perr_keeps(c, s, message);
        } else {
            lemma_statement_keeps(c, s);
            match sp_statement(c, s) {
                None => {},
                Some((st, s1)) => {
                    if !(s1.pos <= s.pos || s1.pos >= c.tokens.len()) {
                        lemma_block_keeps(c, s1, acc.push(st), message);
                        if sp_block(c, s1, acc.push(st), message) is Some {
                            lemma_keeps_trans(s, s1, (sp_block(c, s1, acc.push(st), message)->0).1);
                        }
                    }
                },
            }
        }
    }
}

proof fn lemma_guarded_block_keeps(c: PCtx, s: PState, message: Seq<char>)
    ensures
        match sp_guarded_block(c, s, message) {
            Some((_, s1)) => keeps(s, s1),
            None => true,
        },
    decreases c.tokens.len() - s.pos, 5int,
{
    lemma_expression_keeps(c, s);
    match sp_expression(c, s) {
        None => {},
        Some((_, s1)) => {
            if moved(c, s, s1) {
                if cur(c, s1).token_type != TokenType::LBrace {
                    lemma_perr_keeps(c, s1, "New block expected after condition!"@);
                    if perr(c, s1, "New block expected after condition!"@) is Some {
                        lemma_keeps_trans(s, s1, perr(c, s1, "New block expected after condition!"@)->0);
                    }
                } else {
                    match bump(c, s1) {
                        None => {},
                        Some(s2) => {
                            lemma_keeps_trans(s, s1, s2);
                            lemma_block_keeps(c, s2, seq![], message);
                            match sp_block(c, s2, seq![], message) {
                                None => {},
                                Some((_, s3)) => {
                                    lemma_keeps_trans(s, s2, s3);
                                    match close_block(c, s3) {
                                        None => {},
                                        Some(s4) => {
                                            lemma_keeps_trans(s, s3, s4);
                                        },
                                    }
                                },
                            }
                        },
                    }
                }
            }
        },
    }
}

proof fn lemma_if_keeps(c: PCtx, s: PState)
    ensures
        stmt_keeps(s, sp_if(c, s)),
    decreases c.tokens.len() - s.pos, 6int,
{
    if valid(c, s) {
        if cur(c, s).token_type == TokenType::Keyword {
            match bump(c, s) {
                None => {},
                Some(s1) => {
                    lemma_if_keeps(c, s1);
                    if sp_if(c, s1) is Some {
                        lemma_keeps_trans(s, s1, (sp_if(c, s1)->0).1);
                    }
                },
            }
        } else {
            let m = "Unexpected end-of-file in block after `if` statement. Please add '}'!"@;
            lemma_guarded_block_keeps(c, s, m);
            match sp_guarded_block(c, s, m) {
                None => {},
                Some((None, _)) => {},
                Some((Some(_), s1)) => {
                    if moved(c, s, s1) {
                        let t = cur(c, s1);
                        if t.token_type == TokenType::Keyword {
                            if t.value != "else"@ {
                                let d = "Unexpected keyword after `if` statement. Please add ';' for ending statement!"@;
                                lemma_fail_keeps(c, s1, d);
                                if fail_stmt(c, s1, d) is Some {
                                    lemma_keeps_trans(s, s1, (fail_stmt(c, s1, d)->0).1);
                                }
                            } else {
                                match bump(c, s1) {
                                    None => {},
                                    Some(s2) => {
                                        lemma_keeps_trans(s, s1, s2);
                                        if cur(c, s2).token_type != TokenType::LBrace {
                                            let d = "New block expected after `else` keyword!"@;
                                            lemma_fail_keeps(c, s2, d);
                                            if fail_stmt(c, s2, d) is Some {
                                                lemma_keeps_trans(s, s2, (fail_stmt(c, s2, d)->0).1);
                                            }
                                        } else {
                                            match bump(c, s2) {
                                                None => {},
                                                Some(s3) => {
                                                    lemma_keeps_trans(s, s2, s3);
                                                    let m2 = "Unexpected end-of-file in block after `else` statement. Please add '}'!"@;
                                                    lemma_block_keeps(c, s3, seq![], m2);
                                                    match sp_block(c, s3, seq![], m2) {
                                                        None => {},
                                                        Some((None, s4)) => {
                                                            lemma_keeps_trans(s, s3, s4);
                                                        },
                                                        Some((Some(_), s4)) => {
                                                            lemma_keeps_trans(s, s3, s4);
                                                            match close_block(c, s4) {
                                                                None => {},
                                                                Some(s5) => {
                                                                    lemma_keeps_trans(s, s4, s5);
                                                                    if valid(c, s5) {
                                                                        let d = "Semicolon expected after `if/else` construction!"@;
                                                                        lemma_fail_keeps(c, s5, d);
                                                                        if cur(c, s5).token_type
                                                                            != TokenType::Semicolon {
                                                                            if fail_stmt(c, s5, d) is Some {
                                                                                lemma_keeps_trans(
                                                                                    s,
                                                                                    s5,
                                                                                    (fail_stmt(c, s5, d)->0).1,
                                                                                );
                                                                            }
                                                                        } else {
                                                                            match skip_eos(c, s5) {
                                                                                None => {},
                                                                                Some(s6) => {
                                                                                    lemma_keeps_trans(s, s5, s6);
                                                                                },
                                                                            }
                                                                        }
                                                                    }
                                                                },
                                                            }
                                                        },
                                                    }
                                                },
                                            }
                                        }
                                    },
                                }
                            }
                        } else {
                            match skip_eos(c, s1) {
                                None => {},
                                Some(s2) => {
                                    lemma_keeps_trans(s, s1, s2);
                                },
                            }
                        }
                    }
                },
            }
        }
    }
}

proof fn lemma_while_keeps(c: PCtx, s: PState)
    ensures
        stmt_keeps(s, sp_while(c, s)),
    decreases c.tokens.len() - s.pos, 6int,
{
    if valid(c, s) {
        if cur(c, s).token_type == TokenType::Keyword {
            match bump(c, s) {
                None => {},
                Some(s1) => {
                    lemma_while_keeps(c, s1);
                    if sp_while(c, s1) is Some {
                        lemma_keeps_trans(s, s1, (sp_while(c, s1)->0).1);
                    }
                },
            }
        } else {
            let m = "Unexpected end-of-file in block after `while` statement. Please add '}'!"@;
            lemma_guarded_block_keeps(c, s, m);
            match sp_guarded_block(c, s, m) {
                None => {},
                Some((None, _)) => {},
                Some((Some(_), s1)) => match skip_eos(c, s1) {
                    None => {},
                    Some(s2) => {
                        lemma_keeps_trans(s, s1, s2);
                    },
                },
            }
        }
    }
}

proof fn lemma_for_keeps(c: PCtx, s: PState)
    ensures
        stmt_keeps(s, sp_for(c, s)),
    decreases c.tokens.len() - s.pos, 6int,
{
    if valid(c, s) {
        if cur(c, s).token_type == TokenType::Keyword {
            match bump(c, s) {
                None => {},
                Some(s1) => {
                    lemma_for_keeps(c, s1);
                    if sp_for(c, s1) is Some {
                        lemma_keeps_trans(s, s1, (sp_for(c, s1)->0).1);
                    }
                },
            }
        } else if cur(c, s).token_type != TokenType::Identifier {
            lemma_fail_keeps(c, s, "Variable name expected after keyword `for`!"@);
        } else {
            match bump(c, s) {
                None => {},
                Some(s1) => {
                    let keyword = cur(c, s1);
                    if keyword.token_type == TokenType::Keyword && keyword.value == "in"@ {
                        match bump(c, s1) {
                            None => {},
                            Some(s2) => {
                                lemma_keeps_trans(s, s1, s2);
                                let m = "Unexpected end-of-file in block after `for` statement. Please add '}'!"@;
                                lemma_guarded_block_keeps(c, s2, m);
                                match sp_guarded_block(c, s2, m) {
                                    None => {},
                                    Some((None, s3)) => {
                                        lemma_keeps_trans(s, s2, s3);
                                    },
                                    Some((Some(_), s3)) => {
                                        lemma_keeps_trans(s, s2, s3);
                                        match skip_eos(c, s3) {
                                            None => {},
                                            Some(s4) => {
                                                lemma_keeps_trans(s, s3, s4);
                                            },
                                        }
                                    },
                                }
                            },
                        }
                    } else {
                        let d = "Expected keyword 'in` after variable name in `for` statement!"@;
                        lemma_fail_keeps(c, s1, d);
                        if fail_stmt(c, s1, d) is Some {
                            lemma_keeps_trans(s, s1, (fail_stmt(c, s1, d)->0).1);
                        }
                    }
                },
            }
        }
    }
}

proof fn lemma_call_statement_keeps(c: PCtx, s: PState, name: Seq<char>)
    ensures
        stmt_keeps(s, sp_call_statement(c, s, name)),
    decreases c.tokens.len() - s.pos, 3int,
{
    if valid(c, s) {
        let t = cur(c, s);
        if t.token_type == TokenType::Identifier {
            match bump(c, s) {
                None => {},
                Some(s1) => {
                    lemma_call_statement_keeps(c, s1, name);
                    if sp_call_statement(c, s1, name) is Some {
                        lemma_keeps_trans(s, s1, (sp_call_statement(c, s1, name)->0).1);
                    }
                },
            }
        } else if t.token_type == TokenType::LParen {
            lemma_expressions_enum_keeps(
                c,
                s,
                TokenType::LParen,
                TokenType::RParen,
                TokenType::Comma,
            );
            match sp_expressions_enum(c, s, TokenType::LParen, TokenType::RParen, TokenType::Comma) {
                None => {},
                Some((_, s1)) => match skip_eos(c, s1) {
                    None => {},
                    Some(s2) => {
                        lemma_keeps_trans(s, s1, s2);
                    },
                },
            }
        } else {
            lemma_fail_keeps(c, s, "Unexpected variation of call statement!"@);
        }
    }
}

proof fn lemma_define_keeps(c: PCtx, s: PState)
    ensures
        stmt_keeps(s, sp_define(c, s)),
    decreases c.tokens.len() - s.pos, 5int,
{
    if valid(c, s) {
        if cur(c, s).token_type != TokenType::Keyword {
            lemma_fail_keeps(c, s, "Unexpected variation of defining function"@);
        } else {
            let s1 = if cur(c, s).value == "define"@ {
                bump(c, s)
            } else {
                Some(s)
            };
            match s1 {
                None => {},
                Some(s1) => {
                    if !is_datatype(cur(c, s1).value) {
                        let d = "Unexpected keyword found after `define`!"@;
                        lemma_fail_keeps(c, s1, d);
                        if fail_stmt(c, s1, d) is Some {
                            lemma_keeps_trans(s, s1, (fail_stmt(c, s1, d)->0).1);
                        }
                    } else {
                        match bump(c, s1) {
                            None => {},
                            Some(s2) => {
                                lemma_keeps_trans(s, s1, s2);
                                if cur(c, s2).token_type != TokenType::Identifier {
                                    let d = "Identifier for function expected, but found anything else!"@;
                                    lemma_fail_keeps(c, s2, d);
                                    if fail_stmt(c, s2, d) is Some {
                                        lemma_keeps_trans(s, s2, (fail_stmt(c, s2, d)->0).1);
                                    }
                                } else {
                                    match bump(c, s2) {
                                        None => {},
                                        Some(s3) => {
                                            lemma_keeps_trans(s, s2, s3);
                                            lemma_expressions_enum_keeps(
                                                c,
                                                s3,
                                                TokenType::LParen,
                                                TokenType::RParen,
                                                TokenType::Comma,
                                            );
                                            match sp_expressions_enum(
                                                c,
                                                s3,
                                                TokenType::LParen,
                                                TokenType::RParen,
                                                TokenType::Comma,
                                            ) {
                                                None => {},
                                                Some((args, s4)) => {
                                                    lemma_keeps_trans(s, s3, s4);
                                                    if moved(c, s, s4) {
                                                        if !all_arguments(args) {
                                                            lemma_fail_keeps(c, s4, msg_not_arguments());
                                                            if fail_stmt(c, s4, msg_not_arguments()) is Some {
                                                                lemma_keeps_trans(
                                                                    s,
                                                                    s4,
                                                                    (fail_stmt(c, s4, msg_not_arguments())->0).1,
                                                                );
                                                            }
                                                        } else if cur(c, s4).token_type
                                                            != TokenType::LBrace {
                                                            let d = "Expected block with code after function declaration!"@;
                                                            lemma_fail_keeps(c, s4, d);
                                                            if fail_stmt(c, s4, d) is Some {
                                                                lemma_keeps_trans(
                                                                    s,
                                                                    s4,
                                                                    (fail_stmt(c, s4, d)->0).1,
                                                                );
                                                            }
                                                        } else {
                                                            match bump(c, s4) {
                                                                None => {},
                                                                Some(s5) => {
                                                                    lemma_keeps_trans(s, s4, s5);
                                                                    let m = "Unexpected end-of-file in block after `for` statement. Please add '}'!"@;
                                                                    lemma_block_keeps(c, s5, seq![], m);
                                                                    match sp_block(c, s5, seq![], m) {
                                                                        None => {},
                                                                        Some((None, s6)) => {
                                                                            lemma_keeps_trans(s, s5, s6);
                                                                        },
                                                                        Some((Some(_), s6)) => {
                                                                            lemma_keeps_trans(s, s5, s6);
                                                                            match close_block(c, s6) {
                                                                                None => {},
                                                                                Some(s7) => {
                                                                                    lemma_keeps_trans(s, s6, s7);
                                                                                    match skip_eos(c, s7) {
                                                                                        None => {},
                                                                                        Some(s8) => {
                                                                                            lemma_keeps_trans(s, s7, s8);
                                                                                        },
                                                                                    }
                                                                                },
                                                                            }
                                                                        },
                                                                    }
                                                                },
                                                            }
                                                        }
                                                    }
                                                },
                                            }
                                        },
                                    }
                                }
                            },
                        }
                    }
                },
            }
        }
    }
}

proof fn lemma_return_keeps(c: PCtx, s: PState)
    ensures
        stmt_keeps(s, sp_return(c, s)),
    decreases c.tokens.len() - s.pos, 5int,
{
    if valid(c, s) {
        let s1 = if cur(c, s).token_type == TokenType::Keyword {
            bump(c, s)
        } else {
            Some(s)
        };
        match s1 {
            None => {},
            Some(s1) => {
                lemma_expression_keeps(c, s1);
                match sp_expression(c, s1) {
                    None => {},
                    Some((_, s2)) => {
                        lemma_keeps_trans(s, s1, s2);
                        match skip_eos(c, s2) {
                            None => {},
                            Some(s3) => {
                                lemma_keeps_trans(s, s2, s3);
                            },
                        }
                    },
                }
            },
        }
    }
}

proof fn lemma_import_keeps(c: PCtx, s: PState)
    ensures
        stmt_keeps(s, sp_import(c, s)),
    decreases c.tokens.len() - s.pos, 5int,
{
    if valid(c, s) {
        let s1 = if cur(c, s).token_type == TokenType::Keyword {
            bump(c, s)
        } else {
            Some(s)
        };
        match s1 {
            None => {},
            Some(s1) => {
                lemma_expression_keeps(c, s1);
                match sp_expression(c, s1) {
                    None => {},
                    Some((_, s2)) => {
                        lemma_keeps_trans(s, s1, s2);
                        match skip_eos(c, s2) {
                            None => {},
                            Some(s3) => {
                                lemma_keeps_trans(s, s2, s3);
                                lemma_fail_keeps(c, s3, "Unexpected import value found!"@);
                                if fail_stmt(c, s3, "Unexpected import value found!"@) is Some {
                                    lemma_keeps_trans(
                                        s,
                                        s3,
                                        (fail_stmt(c, s3, "Unexpected import value found!"@)->0).1,
                                    );
                                }
                            },
                        }
                    },
                }
            },
        }
    }
}

proof fn lemma_expressions_enum_keeps(
    c: PCtx,
    s: PState,
    start: TokenType,
    end: TokenType,
    sep: TokenType,
)
    ensures
        match sp_expressions_enum(c, s, start, end, sep) {
            Some((_, s1)) => keeps(s, s1),
            None => true,
        },
    decreases c.tokens.len() - s.pos, 1int,
{
    if valid(c, s) {
        match bump(c, s) {
            None => {},
            Some(s1) => {
                lemma_enum_items_keeps(c, s1, cur(c, s1).token_type, end, sep, seq![]);
                match sp_enum_items(c, s1, cur(c, s1).token_type, end, sep, seq![]) {
                    None => {},
                    Some((_, s2)) => {
                        lemma_keeps_trans(s, s1, s2);
                        match close_enum(c, s2, end) {
                            None => {},
                            Some(s3) => {
                                lemma_keeps_trans(s, s2, s3);
                            },
                        }
                    },
                }
            },
        }
    }
}

proof fn lemma_enum_items_keeps(
    c: PCtx,
    s: PState,
    last: TokenType,
    end: TokenType,
    sep: TokenType,
    acc: Seq<SExpr>,
)
    ensures
        match sp_enum_items(c, s, last, end, sep, acc) {
            Some((_, s1)) => keeps(s, s1),
            None => true,
        },
    decreases c.tokens.len() - s.pos, 5int,
{
    if last != end && valid(c, s) {
        let t = cur(c, s);
        if t.token_type == sep {
            match bump(c, s) {
                None => {},
                Some(s1) => {
                    lemma_enum_items_keeps(c, s1, t.token_type, end, sep, acc);
                    if sp_enum_items(c, s1, t.token_type, end, sep, acc) is Some {
                        lemma_keeps_trans(
                            s,
                            s1,
                            (sp_enum_items(c, s1, t.token_type, end, sep, acc)->0).1,
                        );
                    }
                },
            }
        } else if t.token_type != end {
            lemma_expression_keeps(c, s);
            match sp_expression(c, s) {
                None => {},
                Some((e, s1)) => {
                    if !(s1.pos <= s.pos || s1.pos >= c.tokens.len()) {
                        lemma_enum_items_keeps(c, s1, t.token_type, end, sep, acc.push(e));
                        if sp_enum_items(c, s1, t.token_type, end, sep, acc.push(e)) is Some {
                            lemma_keeps_trans(
                                s,
                                s1,
                                (sp_enum_items(c, s1, t.token_type, end, sep, acc.push(e))->0).1,
                            );
                        }
                    }
                },
            }
        }
    }
}

proof fn lemma_parse_loop_keeps(c: PCtx, s: PState, acc: Seq<SStmt>)
    ensures
        match sp_parse_loop(c, s, acc) {
            Some((_, s1)) => keeps(s, s1),
            None => true,
        },
    decreases c.tokens.len() - s.pos,
{
    if c.tokens.len() > 0 && s.pos >= 0 && s.pos < c.tokens.len() - 1 {
        lemma_statement_keeps(c, s);
        match sp_statement(c, s) {
            None => {},
            Some((st, s1)) => {
                if !s1.eof && !(s1.pos <= s.pos || s1.pos >= c.tokens.len()) {
                    lemma_parse_loop_keeps(c, s1, acc.push(st));
                    if sp_parse_loop(c, s1, acc.push(st)) is Some {
                        lemma_keeps_trans(s, s1, (sp_parse_loop(c, s1, acc.push(st))->0).1);
                    }
                }
            },
        }
    }
}

/// Parsing never moves back over the tokens and never drops or changes an
/// error recorded before it started: the errors it hands back begin with
/// those the parser already held.
pub proof fn parsing_keeps_earlier_errors(c: PCtx, s: PState)
    ensures
        match sp_parse(c, s) {
            Some((f, res)) => {
                &&& keeps(s, f)
                &&& res is Err <==> f.errors.len() > 0
                &&& s.errors.len() > 0 ==> res is Err
            },
            None => true,
        },
{
    lemma_parse_loop_keeps(c, s, seq![]);
}

/// Each statement step never moves back and keeps the errors found before.
pub proof fn statement_keeps_earlier_errors(c: PCtx, s: PState)
    ensures
        stmt_keeps(s, sp_statement(c, s)),
{
    lemma_statement_keeps(c, s);
}

/// A boolean token is read as the truth value it names: `true` as true and
/// `false` as false (any other text, which the lexer never gives a boolean
/// token, as false). Reading it moves on one token.
pub proof fn boolean_token_reads_its_value(c: PCtx, s: PState)
    requires
        valid(c, s),
        cur(c, s).token_type == TokenType::Boolean,
        bump(c, s) is Some,
    ensures
        cur(c, s).value == "true"@ ==> sp_term(c, s) == Some(
            (SExpr::Value(SValue::Boolean(true)), bump(c, s)->0),
        ),
        cur(c, s).value == "false"@ ==> sp_term(c, s) == Some(
            (SExpr::Value(SValue::Boolean(false)), bump(c, s)->0),
        ),
        cur(c, s).value != "true"@ ==> sp_term(c, s) == Some(
            (SExpr::Value(SValue::Boolean(false)), bump(c, s)->0),
        ),
{
    reveal_strlit("true");
    reveal_strlit("false");
    assert("true"@[0] != "false"@[0]);
}

/// A compound assignment keeps the variable and the operator it was given:
/// what it reads is an assignment to that variable with that operator, or
/// nothing after an error.
pub proof fn binary_assign_keeps_operator(
    c: PCtx,
    s: PState,
    identifier: Seq<char>,
    operand: Seq<char>,
)
    ensures
        match sp_binary_assign(c, s, identifier, operand) {
            Some((SStmt::BinaryAssignStatement { identifier: i, operand: o, value, .. }, _)) => {
                &&& i == identifier
                &&& o == operand
                &&& value is Some
            },
            Some((st, _)) => st == SStmt::Nothing,
            None => true,
        },
    decreases c.tokens.len() - s.pos,
{
    if valid(c, s) && cur(c, s).token_type == TokenType::Equal {
        if bump(c, s) is Some {
            binary_assign_keeps_operator(c, bump(c, s)->0, identifier, operand);
        }
    }
}

/// A statement `x op= e` is read as an assignment to `x` with the operator
/// `op` as written after it (`a -= 5` subtracts, `a *= 5` multiplies), or
/// as nothing after an error.
pub proof fn compound_assignment_keeps_operator(c: PCtx, s: PState)
    requires
        valid(c, s),
        cur(c, s).token_type == TokenType::Identifier,
        bump(c, s) is Some,
        is_binary_operator(cur(c, bump(c, s)->0).token_type),
        bump(c, bump(c, s)->0) is Some,
        cur(c, bump(c, bump(c, s)->0)->0).token_type == TokenType::Equal,
    ensures
        match sp_statement(c, s) {
            Some((SStmt::BinaryAssignStatement { identifier, operand, .. }, _)) => {
                &&& identifier == cur(c, s).value
                &&& operand == cur(c, bump(c, s)->0).value
            },
            Some((st, _)) => st == SStmt::Nothing,
            None => true,
        },
{
    let s1 = bump(c, s)->0;
    let s2 = bump(c, s1)->0;
    binary_assign_keeps_operator(c, s2, cur(c, s).value, cur(c, s1).value);
}

} // verus!
