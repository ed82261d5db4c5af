//! The parser: turns the lexer's tokens into statements.
//!
//! Every method that reads tokens is stated against the spec function of
//! `parser_spec` with the same name: it returns `None` exactly where that
//! function does (where the parser would panic or never finish), and
//! otherwise the tree whose view the spec function gives, at the place it
//! gives.

use vstd::prelude::*;
use vstd::string::*;
use crate::ast::{
    expr_view, exprs_view, pairs_view, stmt_view, stmts_view, Expressions, SExpr, SStmt,
    SValue, Statements, Value,
};
use crate::number::parse_i32_text;
use crate::parse_error::{ParseError, ParseErrorHandler, ParseErrorView};
use crate::parser_spec::{
    all_arguments, argument_pairs, bump, close_block, close_enum, cur, fail_expr_next, fail_stmt,
    fail_stmt_next, is_binary_operator, is_datatype, is_priority_operator, moved,
    msg_not_arguments, perr, skip_eos, skip_to_semicolon, sp_annotation, sp_annotation_named,
    sp_assign, sp_binary_assign, sp_binary_expression, sp_block, sp_call_expression,
    sp_call_statement, sp_define, sp_enum_items, sp_expression, sp_expressions_enum, sp_for,
    sp_function_call_statement, sp_guarded_block, sp_if, sp_import, sp_lambda_body, sp_parse,
    sp_parse_loop, sp_return, sp_statement, sp_term, sp_while, trim, trim_end, trim_start, valid,
    PCtx, PState,
};
use crate::report::debug_str;
use crate::source::nth_line;
use crate::text::{append_str, char_is_white_space, chars_of, push_char, str_eq};
use crate::token::{tokens_view, Token, TokenType};

verus! {

/// `r` is what the statement spec function `spec` describes, and `after`
/// the place it ends at.
pub open spec fn stmt_result(spec: Option<(SStmt, PState)>, r: Option<Statements>, after: PState) -> bool {
    match spec {
        None => r is None,
        Some((v, s1)) => match r {
            Some(x) => stmt_view(x) == v && after == s1,
            None => false,
        },
    }
}

/// `r` is what the expression spec function `spec` describes, and `after`
/// the place it ends at.
pub open spec fn expr_result(spec: Option<(SExpr, PState)>, r: Option<Expressions>, after: PState) -> bool {
    match spec {
        None => r is None,
        Some((v, s1)) => match r {
            Some(x) => expr_view(x) == v && after == s1,
            None => false,
        },
    }
}

/// `r` is the list of statements that `spec` describes.
pub open spec fn stmts_result(
    spec: Option<(Seq<SStmt>, PState)>,
    r: Option<Vec<Statements>>,
    after: PState,
) -> bool {
    match spec {
        None => r is None,
        Some((v, s1)) => match r {
            Some(x) => stmts_view(x@) == v && after == s1,
            None => false,
        },
    }
}

/// `r` is the list of expressions that `spec` describes.
pub open spec fn exprs_result(
    spec: Option<(Seq<SExpr>, PState)>,
    r: Option<Vec<Expressions>>,
    after: PState,
) -> bool {
    match spec {
        None => r is None,
        Some((v, s1)) => match r {
            Some(x) => exprs_view(x@) == v && after == s1,
            None => false,
        },
    }
}

/// `r` is the outcome of a block that `spec` describes: `Some(None)` after
/// an error.
pub open spec fn block_result(
    spec: Option<(Option<Seq<SStmt>>, PState)>,
    r: Option<Option<Vec<Statements>>>,
    after: PState,
) -> bool {
    match spec {
        None => r is None,
        Some((v, s1)) => after == s1 && match r {
            Some(Some(x)) => v == Some(stmts_view(x@)),
            Some(None) => v is None,
            None => false,
        },
    }
}

/// `r` is the condition and block that `spec` describes: `Some(None)` after
/// an error.
pub open spec fn guarded_result(
    spec: Option<(Option<(SExpr, Seq<SStmt>)>, PState)>,
    r: Option<Option<(Expressions, Vec<Statements>)>>,
    after: PState,
) -> bool {
    match spec {
        None => r is None,
        Some((v, s1)) => after == s1 && match r {
            Some(Some((e, b))) => v == Some((expr_view(e), stmts_view(b@))),
            Some(None) => v is None,
            None => false,
        },
    }
}

/// `v` is `s` without leading and trailing whitespace (`str::trim`).
pub(crate) fn trimmed(s: &str) -> (v: Vec<char>)
    ensures
        v@ == trim(s@),
{
    let chars = chars_of(s);
    let n = chars.len();
    let mut lo: usize = 0;
    assert(s@.subrange(0, n as int) =~= s@);
    while lo < n && char_is_white_space(chars[lo])
        invariant
            n == chars@.len(),
            chars@ == s@,
            lo <= n,
            trim_start(s@) == trim_start(s@.subrange(lo as int, n as int)),
        decreases n - lo,
    {
        assert(s@.subrange(lo as int, n as int).drop_first() =~= s@.subrange(
            lo + 1,
            n as int,
        ));
        lo = lo + 1;
    }
    assert(trim_start(s@) == s@.subrange(lo as int, n as int));
    let ghost t = s@.subrange(lo as int, n as int);
    let mut hi: usize = n;
    while hi > lo && char_is_white_space(chars[hi - 1])
        invariant
            n == chars@.len(),
            chars@ == s@,
            lo <= hi <= n,
            t == s@.subrange(lo as int, n as int),
            trim_end(t) == trim_end(s@.subrange(lo as int, hi as int)),
        decreases hi,
    {
        assert(s@.subrange(lo as int, hi as int).drop_last() =~= s@.subrange(
            lo as int,
            hi - 1,
        ));
        hi = hi - 1;
    }
    assert(trim_end(t) == s@.subrange(lo as int, hi as int));
    let mut v: Vec<char> = Vec::new();
    let mut i = lo;
    while i < hi
        invariant
            n == chars@.len(),
            chars@ == s@,
            lo <= i <= hi <= n,
            v@ == s@.subrange(lo as int, i as int),
        decreases hi - i,
    {
        v.push(chars[i]);
        i = i + 1;
        assert(v@ =~= s@.subrange(lo as int, i as int));
    }
    v
}

/// `v` is one of the type names.
fn is_datatype_name(v: &str) -> (r: bool)
    ensures
        r == is_datatype(v@),
{
    str_eq(v, "int8") || str_eq(v, "int16") || str_eq(v, "int32") || str_eq(v, "int64")
        || str_eq(v, "int128") || str_eq(v, "str") || str_eq(v, "bool") || str_eq(v, "auto")
        || str_eq(v, "void") || str_eq(v, "fn")
}

/// `t` is the kind of a binary operator.
fn is_binary_kind(t: TokenType) -> (r: bool)
    ensures
        r == is_binary_operator(t),
{
    t == TokenType::Plus || t == TokenType::Minus || t == TokenType::Divide || t
        == TokenType::Multiply || t == TokenType::Lt || t == TokenType::Bt || t == TokenType::Eq
        || t == TokenType::Ne
}

/// `v` is `*` or `/`.
fn is_priority_name(v: &str) -> (r: bool)
    ensures
        r == is_priority_operator(v@),
{
    str_eq(v, "*") || str_eq(v, "/")
}

/// The `(name, type)` pairs of a list of argument declarations, or `None`
/// when one of them is no declaration.
fn argument_list(args: &Vec<Expressions>) -> (r: Option<Vec<(String, String)>>)
    ensures
        match r {
            Some(p) => all_arguments(exprs_view(args@)) && pairs_view(p@) == argument_pairs(
                exprs_view(args@),
            ),
            None => !all_arguments(exprs_view(args@)),
        },
{
    let mut pairs: Vec<(String, String)> = Vec::new();
    let mut i: usize = 0;
    while i < args.len()
        invariant
            i <= args.len(),
            pairs@.len() == i,
            pairs_view(pairs@) == argument_pairs(exprs_view(args@)).take(i as int),
            forall|k: int| 0 <= k < i ==> #[trigger] exprs_view(args@)[k] is Argument,
        decreases args.len() - i,
    {
        match &args[i] {
            Expressions::Argument { name, datatype } => {
                let ghost before = pairs@;
                let n1 = name.clone();
                let d1 = datatype.clone();
                assert(exprs_view(args@)[i as int] == expr_view(args@[i as int]));
                assert(expr_view(args@[i as int]) == (SExpr::Argument { name: n1@, datatype: d1@ }));
                assert(argument_pairs(exprs_view(args@))[i as int] == (n1@, d1@));
                pairs.push((n1, d1));
                assert(pairs@ == before.push((n1, d1)));
                assert forall|k: int| 0 <= k < i + 1 implies #[trigger] pairs_view(pairs@)[k]
                    == argument_pairs(exprs_view(args@))[k] by {
                    if k < i {
                        assert(pairs_view(before)[k] == argument_pairs(exprs_view(args@)).take(
                            i as int,
                        )[k]);
                        assert(pairs@[k] == before[k]);
                    }
                }
                assert(pairs_view(pairs@) =~= argument_pairs(exprs_view(args@)).take(
                    i + 1,
                ));
            },
            _ => {
                assert(exprs_view(args@)[i as int] == expr_view(args@[i as int]));
                assert(!(exprs_view(args@)[i as int] is Argument));
                return None;
            },
        }
        i = i + 1;
    }
    assert(argument_pairs(exprs_view(args@)).take(i as int) =~= argument_pairs(
        exprs_view(args@),
    ));
    Some(pairs)
}

/// The parser over one token list.
#[derive(Debug, Clone, PartialEq, Eq)]
pub struct Parser {
    filename: String,
    source: String,
    tokens: Vec<Token>,
    position: usize,
    errors: ParseErrorHandler,
    eof: bool,
}

impl Parser {
    /// The tokens, the file name and the source text.
    pub closed spec fn ctx(&self) -> PCtx {
        PCtx { tokens: tokens_view(self.tokens@), filename: self.filename@, source: self.source@ }
    }

    /// The current place.
    pub closed spec fn st(&self) -> PState {
        PState { pos: self.position as int, errors: self.errors@, eof: self.eof }
    }

    /// A parser at the first token, with no errors.
    pub fn new(tokens: Vec<Token>, filename: String, source: String) -> (r: Self)
        ensures
            r.ctx() == (PCtx {
                tokens: tokens_view(tokens@),
                filename: filename@,
                source: source@,
            }),
            r.st() == (PState { pos: 0, errors: Seq::empty(), eof: false }),
    {
        Parser {
            filename,
            source,
            tokens,
            position: 0,
            errors: ParseErrorHandler::new(),
            eof: false,
        }
    }

    /// There is a current token.
    fn has_current(&self) -> (r: bool)
        ensures
            r == valid(self.ctx(), self.st()),
    {
        self.position < self.tokens.len()
    }

    /// The kind of the current token.
    fn kind(&self) -> (r: TokenType)
        requires
            valid(self.ctx(), self.st()),
        ensures
            r == cur(self.ctx(), self.st()).token_type,
    {
        self.tokens[self.position].token_type
    }

    /// The line of the current token.
    fn line_here(&self) -> (r: usize)
        requires
            valid(self.ctx(), self.st()),
        ensures
            r == cur(self.ctx(), self.st()).line,
    {
        self.tokens[self.position].line
    }

    /// The text of the current token.
    fn value_here(&self) -> (r: String)
        requires
            valid(self.ctx(), self.st()),
        ensures
            r@ == cur(self.ctx(), self.st()).value,
    {
        self.tokens[self.position].value.clone()
    }

    /// Moves to the next token; `false` (and nothing changed) past the last
    /// one.
    fn advance(&mut self) -> (ok: bool)
        ensures
            final(self).ctx() == old(self).ctx(),
            match bump(old(self).ctx(), old(self).st()) {
                Some(s1) => ok && final(self).st() == s1,
                None => !ok && final(self).st() == old(self).st(),
            },
    {
        if self.position < self.tokens.len() && self.position + 1 < self.tokens.len() {
            self.position = self.position + 1;
            true
        } else {
            false
        }
    }

    /// Records an error at the current token; `false` (and nothing changed)
    /// where there is no current token or the source has no line with its
    /// line number.
    fn error(&mut self, description: String) -> (ok: bool)
        ensures
            final(self).ctx() == old(self).ctx(),
            match perr(old(self).ctx(), old(self).st(), description@) {
                Some(s1) => ok && final(self).st() == s1,
                None => !ok && final(self).st() == old(self).st(),
            },
    {
        if self.position >= self.tokens.len() {
            return false;
        }
        let line = self.tokens[self.position].line;
        let chars = chars_of(self.source.as_str());
        match nth_line(&chars, line) {
            None => false,
            Some(text) => {
                let e = ParseError::new(
                    self.filename.clone(),
                    description,
                    text,
                    line,
                    self.position,
                );
                self.errors.attach(e);
                true
            },
        }
    }

    /// Moves past a `;` when it is the current token.
    fn skip_eos_checked(&mut self) -> (ok: bool)
        ensures
            final(self).ctx() == old(self).ctx(),
            match skip_eos(old(self).ctx(), old(self).st()) {
                Some(s1) => ok && final(self).st() == s1,
                None => !ok,
            },
    {
        if !self.has_current() {
            return false;
        }
        if self.kind() == TokenType::Semicolon {
            self.advance()
        } else {
            true
        }
    }

    /// Records an error and gives up on the statement.
    fn fail_stmt(&mut self, description: &str) -> (r: Option<Statements>)
        ensures
            final(self).ctx() == old(self).ctx(),
            stmt_result(fail_stmt(old(self).ctx(), old(self).st(), description@), r, final(self).st()),
    {
        if self.error(String::from_str(description)) {
            Some(Statements::Nothing)
        } else {
            None
        }
    }

    /// Records an error, moves on one token and gives up on the statement.
    fn fail_stmt_next(&mut self, description: &str) -> (r: Option<Statements>)
        ensures
            final(self).ctx() == old(self).ctx(),
            stmt_result(
                fail_stmt_next(old(self).ctx(), old(self).st(), description@),
                r,
                final(self).st(),
            ),
    {
        if self.error(String::from_str(description)) && self.advance() {
            Some(Statements::Nothing)
        } else {
            None
        }
    }

    /// Records an error, moves on one token and gives up on the expression.
    fn fail_expr_next(&mut self, description: String) -> (r: Option<Expressions>)
        ensures
            final(self).ctx() == old(self).ctx(),
            expr_result(
                fail_expr_next(old(self).ctx(), old(self).st(), description@),
                r,
                final(self).st(),
            ),
    {
        if self.error(description) && self.advance() {
            Some(Expressions::Nothing)
        } else {
            None
        }
    }

    /// Skips tokens up to a `;`.
    fn skip_to_semicolon_checked(&mut self) -> (ok: bool)
        ensures
            final(self).ctx() == old(self).ctx(),
            match skip_to_semicolon(old(self).ctx(), old(self).st()) {
                Some(s1) => ok && final(self).st() == s1,
                None => !ok,
            },
    {
        let ghost c = self.ctx();
        let ghost total = skip_to_semicolon(c, self.st());
        loop
            invariant
                self.ctx() == c,
                c == old(self).ctx(),
                total == skip_to_semicolon(old(self).ctx(), old(self).st()),
                skip_to_semicolon(c, self.st()) == total,
            decreases self.tokens.len() - self.position,
        {
            if !self.has_current() {
                return false;
            }
            if self.kind() == TokenType::Semicolon {
                return true;
            }
            if !self.advance() {
                return false;
            }
        }
    }
}

impl Parser {
    /// A statement, dispatched on the current token.
    fn statement(&mut self) -> (r: Option<Statements>)
        ensures
            final(self).ctx() == old(self).ctx(),
            stmt_result(sp_statement(old(self).ctx(), old(self).st()), r, final(self).st()),
        decreases old(self).ctx().tokens.len() - old(self).st().pos, 7int,
    {
        if !self.has_current() {
            return None;
        }
        let kind = self.kind();
        let line = self.line_here();
        let value = self.value_here();
        match kind {
            TokenType::Keyword => {
                if is_datatype_name(value.as_str()) {
                    self.annotation_statement()
                } else if str_eq(value.as_str(), "import") {
                    self.import_statement()
                } else if str_eq(value.as_str(), "if") {
                    self.if_statement()
                } else if str_eq(value.as_str(), "else") {
                    self.fail_stmt(
                        "Unexpected `else` usage. Please use it in `if/else` construction!",
                    )
                } else if str_eq(value.as_str(), "while") {
                    self.while_statement()
                } else if str_eq(value.as_str(), "for") {
                    self.for_statement()
                } else if str_eq(value.as_str(), "define") {
                    self.define_statement()
                } else if str_eq(value.as_str(), "return") {
                    self.return_statement()
                } else if str_eq(value.as_str(), "break") {
                    if !self.advance() {
                        return None;
                    }
                    if !self.skip_eos_checked() {
                        return None;
                    }
                    Some(Statements::BreakStatement { line })
                } else {
                    Some(Statements::Nothing)
                }
            },
            TokenType::Function => self.function_call_statement(value),
            TokenType::Identifier => {
                if !self.advance() {
                    return None;
                }
                let next_kind = self.kind();
                let next_value = self.value_here();
                if next_kind == TokenType::Equal {
                    self.assign_statement(value)
                } else if next_kind == TokenType::LParen {
                    self.call_statement(value)
                } else if is_binary_kind(next_kind) {
                    if !self.advance() {
                        return None;
                    }
                    let third = self.kind();
                    if third == TokenType::Equal {
                        self.binary_assign_statement(value, next_value)
                    } else if third == TokenType::Plus || third == TokenType::Minus {
                        let third_value = self.value_here();
                        if !str_eq(next_value.as_str(), third_value.as_str()) {
                            self.fail_stmt("Unexpected variation of increment/decrement found!")
                        } else {
                            if !self.advance() {
                                return None;
                            }
                            if !self.skip_eos_checked() {
                                return None;
                            }
                            let one = Expressions::Value(Value::Integer(1));
                            assert(expr_view(one) == SExpr::Value(SValue::Integer(1)));
                            Some(
                                Statements::BinaryAssignStatement {
                                    identifier: value,
                                    operand: next_value,
                                    value: Some(Box::new(one)),
                                    line,
                                },
                            )
                        }
                    } else {
                        self.fail_stmt("Unexpected Binary Operation in statement found!")
                    }
                } else if next_kind == TokenType::Semicolon {
                    Some(Statements::Expression(Expressions::Value(Value::Identifier(value))))
                } else {
                    self.fail_stmt_next("Unexpected expression/statement after identifier")
                }
            },
            TokenType::EOF => {
                self.eof = true;
                Some(Statements::Nothing)
            },
            _ => match self.expression() {
                None => None,
                Some(e) => Some(Statements::Expression(e)),
            },
        }
    }

    /// A term: a literal, a name, a call or an argument declaration.
    fn term(&mut self) -> (r: Option<Expressions>)
        ensures
            final(self).ctx() == old(self).ctx(),
            expr_result(sp_term(old(self).ctx(), old(self).st()), r, final(self).st()),
        decreases old(self).ctx().tokens.len() - old(self).st().pos, 3int,
    {
        if !self.has_current() {
            return None;
        }
        let kind = self.kind();
        let value = self.value_here();
        match kind {
            TokenType::Number => {
                let digits = trimmed(value.as_str());
                match parse_i32_text(&digits) {
                    None => None,
                    Some(v) => {
                        if !self.advance() {
                            return None;
                        }
                        Some(Expressions::Value(Value::Integer(v)))
                    },
                }
            },
            TokenType::String => {
                if !self.advance() {
                    return None;
                }
                Some(Expressions::Value(Value::String(value)))
            },
            TokenType::Boolean => {
                if !self.advance() {
                    return None;
                }
                Some(Expressions::Value(Value::Boolean(str_eq(value.as_str(), "true"))))
            },
            TokenType::Identifier => {
                if !self.advance() {
                    return None;
                }
                if self.kind() == TokenType::LParen {
                    self.call_expression(value)
                } else {
                    Some(Expressions::Value(Value::Identifier(value)))
                }
            },
            _ => {
                if is_datatype_name(value.as_str()) {
                    if !self.advance() {
                        return None;
                    }
                    if self.kind() != TokenType::Identifier {
                        Some(Expressions::Value(Value::Keyword(value)))
                    } else {
                        let name = self.value_here();
                        if !self.advance() {
                            return None;
                        }
                        Some(Expressions::Argument { name, datatype: value })
                    }
                } else if kind == TokenType::Function {
                    self.call_expression(value)
                } else if kind == TokenType::Keyword {
                    Some(Expressions::Value(Value::Keyword(value)))
                } else {
                    let mut description = String::from_str("Unexpected term '");
                    let shown = debug_str(value.as_str());
                    append_str(&mut description, shown.as_str());
                    append_str(&mut description, "' found");
                    self.fail_expr_next(description)
                }
            },
        }
    }

    /// An expression: a term, possibly followed by a binary operator and the
    /// rest, or a lambda `type (arguments) { statements }`.
    fn expression(&mut self) -> (r: Option<Expressions>)
        ensures
            final(self).ctx() == old(self).ctx(),
            expr_result(sp_expression(old(self).ctx(), old(self).st()), r, final(self).st()),
        decreases old(self).ctx().tokens.len() - old(self).st().pos, 4int,
    {
        let start = self.position;
        let node = match self.term() {
            None => {
                return None;
            },
            Some(n) => n,
        };
        if !(start <= self.position && self.position < self.tokens.len()) {
            return None;
        }
        let kind = self.kind();
        let line = self.line_here();
        if is_binary_kind(kind) {
            self.binary_expression(node)
        } else if kind == TokenType::LParen {
            match node {
                Expressions::Value(Value::Keyword(keyword)) => {
                    if !is_datatype_name(keyword.as_str()) {
                        let mut description = String::from_str("Unexpected keyword `");
                        append_str(&mut description, keyword.as_str());
                        append_str(&mut description, "` in expression");
                        return self.fail_expr_next(description);
                    }
                    let mid = self.position;
                    let args = match self.enumeration(
                        TokenType::LParen,
                        TokenType::RParen,
                        TokenType::Comma,
                    ) {
                        None => {
                            return None;
                        },
                        Some(a) => a,
                    };
                    if !(mid <= self.position && self.position < self.tokens.len()) {
                        return None;
                    }
                    match argument_list(&args) {
                        None => {
                            if self.error(String::from_str(
                                "All arguments in definition must be `type name` (example: `int32 a`)",
                            )) {
                                Some(Expressions::Nothing)
                            } else {
                                None
                            }
                        },
                        Some(pairs) => {
                            if self.kind() != TokenType::LBrace {
                                return self.fail_expr_next(
                                    String::from_str(
                                        "Expected block after lambda function definition!",
                                    ),
                                );
                            }
                            if !self.advance() {
                                return None;
                            }
                            let statements = match self.lambda_body() {
                                None => {
                                    return None;
                                },
                                Some(b) => b,
                            };
                            if !self.advance() {
                                return None;
                            }
                            Some(
                                Expressions::Lambda {
                                    arguments: pairs,
                                    statements,
                                    ftype: keyword,
                                    line,
                                },
                            )
                        },
                    }
                },
                _ => self.fail_expr_next(
                    String::from_str("Unexpected parentheses in expression found"),
                ),
            }
        } else if kind == TokenType::Semicolon {
            if !self.advance() {
                return None;
            }
            Some(node)
        } else {
            Some(node)
        }
    }

    /// The statements of a lambda, up to its closing brace (left current).
    fn lambda_body(&mut self) -> (r: Option<Vec<Statements>>)
        ensures
            final(self).ctx() == old(self).ctx(),
            stmts_result(
                sp_lambda_body(old(self).ctx(), old(self).st(), seq![]),
                r,
                final(self).st(),
            ),
        decreases old(self).ctx().tokens.len() - old(self).st().pos, 8int,
    {
        let ghost c = self.ctx();
        let ghost total = sp_lambda_body(c, self.st(), seq![]);
        let mut statements: Vec<Statements> = Vec::new();
        assert(stmts_view(statements@) =~= Seq::<SStmt>::empty());
        loop
            invariant
                self.ctx() == c,
                c == old(self).ctx(),
                old(self).st().pos <= self.st().pos,
                total == sp_lambda_body(old(self).ctx(), old(self).st(), seq![]),
                sp_lambda_body(c, self.st(), stmts_view(statements@)) == total,
            decreases self.tokens.len() - self.position,
        {
            if !self.has_current() {
                return None;
            }
            if self.kind() == TokenType::RBrace {
                return Some(statements);
            }
            let before = self.position;
            let ghost s0 = self.st();
            let st = match self.statement() {
                None => {
                    return None;
                },
                Some(x) => x,
            };
            if self.position <= before || self.position >= self.tokens.len() {
                return None;
            }
            let ghost old_view = stmts_view(statements@);
            let ghost v = stmt_view(st);
            statements.push(st);
            assert(stmts_view(statements@) =~= old_view.push(v));
        }
    }

    /// The rest of a binary expression whose left side is `node`; the
    /// current token is the operator.
    fn binary_expression(&mut self, node: Expressions) -> (r: Option<Expressions>)
        ensures
            final(self).ctx() == old(self).ctx(),
            expr_result(
                sp_binary_expression(old(self).ctx(), old(self).st(), expr_view(node)),
                r,
                final(self).st(),
            ),
        decreases old(self).ctx().tokens.len() - old(self).st().pos, 1int,
    {
        if !self.has_current() {
            return None;
        }
        let kind = self.kind();
        let operator = self.value_here();
        let line = self.line_here();
        if !is_binary_kind(kind) {
            return self.fail_expr_next(String::from_str("Unexpected token at binary expression!"));
        }
        if !self.advance() {
            return None;
        }
        let rhs = match self.expression() {
            None => {
                return None;
            },
            Some(e) => e,
        };
        let ghost right = expr_view(rhs);
        let ghost left = expr_view(node);
        let ghost op = operator@;
        if is_priority_name(operator.as_str()) {
            match rhs {
                Expressions::Binary { operand, lhs, rhs: rest, line: l } => {
                    let ghost inner_left = expr_view(*lhs);
                    let ghost inner_right = expr_view(*rest);
                    let ghost inner_op = operand@;
                    assert(right == SExpr::Binary {
                        operand: inner_op,
                        lhs: Box::new(inner_left),
                        rhs: Box::new(inner_right),
                        line: l,
                    });
                    let priority = Expressions::Binary {
                        lhs: Box::new(node),
                        rhs: lhs,
                        operand: operator,
                        line,
                    };
                    assert(expr_view(priority) == SExpr::Binary {
                        lhs: Box::new(left),
                        rhs: Box::new(inner_left),
                        operand: op,
                        line,
                    });
                    let ghost gp = expr_view(priority);
                    let result = Expressions::Binary {
                        lhs: Box::new(priority),
                        rhs: rest,
                        operand,
                        line,
                    };
                    assert(expr_view(result) == SExpr::Binary {
                        lhs: Box::new(gp),
                        rhs: Box::new(inner_right),
                        operand: inner_op,
                        line,
                    });
                    Some(result)
                },
                other => Some(
                    Expressions::Binary {
                        operand: operator,
                        lhs: Box::new(node),
                        rhs: Box::new(other),
                        line,
                    },
                ),
            }
        } else {
            Some(Expressions::Binary { operand: operator, lhs: Box::new(node), rhs: Box::new(rhs), line })
        }
    }

    /// A call expression of `function_name`: skips names up to `(`, then
    /// reads the arguments.
    fn call_expression(&mut self, function_name: String) -> (r: Option<Expressions>)
        ensures
            final(self).ctx() == old(self).ctx(),
            expr_result(
                sp_call_expression(old(self).ctx(), old(self).st(), function_name@),
                r,
                final(self).st(),
            ),
        decreases old(self).ctx().tokens.len() - old(self).st().pos, 2int,
    {
        if !self.has_current() {
            return None;
        }
        let kind = self.kind();
        let line = self.line_here();
        if kind == TokenType::Identifier || kind == TokenType::Function {
            if !self.advance() {
                return None;
            }
            self.call_expression(function_name)
        } else if kind == TokenType::LParen {
            let arguments = match self.enumeration(
                TokenType::LParen,
                TokenType::RParen,
                TokenType::Comma,
            ) {
                None => {
                    return None;
                },
                Some(a) => a,
            };
            if !self.skip_eos_checked() {
                return None;
            }
            Some(Expressions::Call { function_name, arguments, line })
        } else {
            if self.error(String::from_str("Unexpected variation of call expression!")) {
                Some(Expressions::Nothing)
            } else {
                None
            }
        }
    }

    /// A list of expressions between `start` and `end`, separated by `sep`;
    /// the first token is skipped whatever it is.
    fn enumeration(&mut self, start: TokenType, end: TokenType, sep: TokenType) -> (r: Option<
        Vec<Expressions>,
    >)
        ensures
            final(self).ctx() == old(self).ctx(),
            exprs_result(
                sp_expressions_enum(old(self).ctx(), old(self).st(), start, end, sep),
                r,
                final(self).st(),
            ),
        decreases old(self).ctx().tokens.len() - old(self).st().pos, 1int,
    {
        if !self.has_current() {
            return None;
        }
        if !self.advance() {
            return None;
        }
        let ghost c = self.ctx();
        let ghost s1 = self.st();
        let mut last = self.kind();
        let ghost total = sp_enum_items(c, s1, last, end, sep, seq![]);
        let mut output: Vec<Expressions> = Vec::new();
        assert(exprs_view(output@) =~= Seq::<SExpr>::empty());
        loop
            invariant
                self.ctx() == c,
                c == old(self).ctx(),
                old(self).st().pos < self.st().pos,
                valid(c, old(self).st()),
                bump(c, old(self).st()) == Some(s1),
                valid(c, s1),
                total == sp_enum_items(c, s1, cur(c, s1).token_type, end, sep, seq![]),
                sp_enum_items(c, self.st(), last, end, sep, exprs_view(output@)) == total,
            ensures
                self.ctx() == c,
                total == Some((exprs_view(output@), self.st())),
            decreases self.tokens.len() - self.position,
        {
            if last == end {
                break;
            }
            if !self.has_current() {
                return None;
            }
            let kind = self.kind();
            if kind == sep {
                if !self.advance() {
                    return None;
                }
                last = kind;
            } else if kind == end {
                break;
            } else {
                let before = self.position;
                let e = match self.expression() {
                    None => {
                        return None;
                    },
                    Some(x) => x,
                };
                if self.position <= before || self.position >= self.tokens.len() {
                    return None;
                }
                let ghost old_view = exprs_view(output@);
                let ghost v = expr_view(e);
                output.push(e);
                assert(exprs_view(output@) =~= old_view.push(v));
                last = kind;
            }
        }
        if !self.has_current() {
            return None;
        }
        if self.kind() == end {
            if !self.advance() {
                return None;
            }
        }
        Some(output)
    }

    /// A call statement of the built-in function `function_name`.
    fn function_call_statement(&mut self, function_name: String) -> (r: Option<Statements>)
        ensures
            final(self).ctx() == old(self).ctx(),
            stmt_result(
                sp_function_call_statement(old(self).ctx(), old(self).st(), function_name@),
                r,
                final(self).st(),
            ),
        decreases old(self).ctx().tokens.len() - old(self).st().pos, 3int,
    {
        if !self.has_current() {
            return None;
        }
        let kind = self.kind();
        let line = self.line_here();
        if kind == TokenType::Function {
            if !self.advance() {
                return None;
            }
            self.function_call_statement(function_name)
        } else if kind == TokenType::LParen {
            let arguments = match self.enumeration(
                TokenType::LParen,
                TokenType::RParen,
                TokenType::Comma,
            ) {
                None => {
                    return None;
                },
                Some(a) => a,
            };
            if !self.skip_eos_checked() {
                return None;
            }
            Some(Statements::FunctionCallStatement { function_name, arguments, line })
        } else {
            let mut description = String::from_str("Unexpected usage of `");
            append_str(&mut description, function_name.as_str());
            append_str(&mut description, "` statement");
            if !self.error(description) {
                return None;
            }
            if !self.skip_to_semicolon_checked() {
                return None;
            }
            Some(Statements::Nothing)
        }
    }

    /// A variable annotation `type name = value;` or `type name;`, the type
    /// possibly nested as `fn<int32>`.
    fn annotation_statement(&mut self) -> (r: Option<Statements>)
        ensures
            final(self).ctx() == old(self).ctx(),
            stmt_result(sp_annotation(old(self).ctx(), old(self).st()), r, final(self).st()),
        decreases old(self).ctx().tokens.len() - old(self).st().pos, 5int,
    {
        if !self.has_current() {
            return None;
        }
        let line = self.line_here();
        let datatype = self.value_here();
        if !is_datatype_name(datatype.as_str()) {
            return Some(Statements::Nothing);
        }
        if !self.advance() {
            return None;
        }
        if self.kind() == TokenType::Lt {
            if !self.advance() {
                return None;
            }
            if self.kind() != TokenType::Keyword {
                return self.fail_stmt_next("Unexpected nested datatype found!");
            }
            let subtype = self.value_here();
            if !self.advance() {
                return None;
            }
            if self.kind() != TokenType::Bt {
                return self.fail_stmt_next("Wrong nested type definition! Must be like: fn<int32>");
            }
            if !self.advance() {
                return None;
            }
            let ghost outer = datatype@;
            let mut nested = datatype;
            push_char(&mut nested, '<');
            append_str(&mut nested, subtype.as_str());
            push_char(&mut nested, '>');
            assert(nested@ =~= outer + seq!['<'] + subtype@ + seq!['>']);
            self.annotation_named(nested, line)
        } else {
            self.annotation_named(datatype, line)
        }
    }

    /// The rest of an annotation after its type.
    fn annotation_named(&mut self, datatype: String, line: usize) -> (r: Option<Statements>)
        ensures
            final(self).ctx() == old(self).ctx(),
            stmt_result(
                sp_annotation_named(old(self).ctx(), old(self).st(), datatype@, line),
                r,
                final(self).st(),
            ),
        decreases old(self).ctx().tokens.len() - old(self).st().pos, 5int,
    {
        if !self.has_current() {
            return None;
        }
        if self.kind() != TokenType::Identifier {
            return self.fail_stmt_next("Identifier expected after type keyword!");
        }
        let identifier = self.value_here();
        if !self.advance() {
            return None;
        }
        let kind = self.kind();
        if kind == TokenType::Equal {
            if !self.advance() {
                return None;
            }
            let value = match self.expression() {
                None => {
                    return None;
                },
                Some(e) => e,
            };
            if !self.skip_eos_checked() {
                return None;
            }
            Some(
                Statements::AnnotationStatement {
                    identifier,
                    datatype,
                    value: Some(Box::new(value)),
                    line,
                },
            )
        } else if kind == TokenType::Semicolon {
            if !self.skip_eos_checked() {
                return None;
            }
            Some(Statements::AnnotationStatement { identifier, datatype, value: None, line })
        } else {
            self.fail_stmt_next("Expected `=` or `;` after variable annotation")
        }
    }

    /// An assignment to `identifier`, from its `=` on.
    fn assign_statement(&mut self, identifier: String) -> (r: Option<Statements>)
        ensures
            final(self).ctx() == old(self).ctx(),
            stmt_result(
                sp_assign(old(self).ctx(), old(self).st(), identifier@),
                r,
                final(self).st(),
            ),
        decreases old(self).ctx().tokens.len() - old(self).st().pos, 5int,
    {
        if !self.has_current() {
            return None;
        }
        let kind = self.kind();
        let line = self.line_here();
        if kind == TokenType::Equal {
            if !self.advance() {
                return None;
            }
            self.assign_statement(identifier)
        } else if kind == TokenType::Semicolon {
            self.fail_stmt_next("Expressions expected in assign statement, but `;` found!")
        } else {
            match self.expression() {
                None => None,
                Some(v) => Some(
                    Statements::AssignStatement { identifier, value: Some(Box::new(v)), line },
                ),
            }
        }
    }

    /// A binary assignment `identifier operand= value`, from its `=` on.
    fn binary_assign_statement(&mut self, identifier: String, operand: String) -> (r: Option<
        Statements,
    >)
        ensures
            final(self).ctx() == old(self).ctx(),
            stmt_result(
                sp_binary_assign(old(self).ctx(), old(self).st(), identifier@, operand@),
                r,
                final(self).st(),
            ),
        decreases old(self).ctx().tokens.len() - old(self).st().pos, 5int,
    {
        if !self.has_current() {
            return None;
        }
        let kind = self.kind();
        let line = self.line_here();
        if kind == TokenType::Equal {
            if !self.advance() {
                return None;
            }
            self.binary_assign_statement(identifier, operand)
        } else if kind == TokenType::Semicolon {
            self.fail_stmt_next("Expressions expected in binary assignment, but `;` found!")
        } else {
            match self.expression() {
                None => None,
                Some(v) => Some(
                    Statements::BinaryAssignStatement {
                        identifier,
                        operand,
                        value: Some(Box::new(v)),
                        line,
                    },
                ),
            }
        }
    }

    /// The statements of a block, up to its closing brace (left current);
    /// `Some(None)` when the end token comes first, after recording an error
    /// with `message`.
    fn block(&mut self, message: &str) -> (r: Option<Option<Vec<Statements>>>)
        ensures
            final(self).ctx() == old(self).ctx(),
            block_result(
                sp_block(old(self).ctx(), old(self).st(), seq![], message@),
                r,
                final(self).st(),
            ),
        decreases old(self).ctx().tokens.len() - old(self).st().pos, 8int,
    {
        let ghost c = self.ctx();
        let ghost total = sp_block(c, self.st(), seq![], message@);
        let mut statements: Vec<Statements> = Vec::new();
        assert(stmts_view(statements@) =~= Seq::<SStmt>::empty());
        loop
            invariant
                self.ctx() == c,
                c == old(self).ctx(),
                old(self).st().pos <= self.st().pos,
                total == sp_block(old(self).ctx(), old(self).st(), seq![], message@),
                sp_block(c, self.st(), stmts_view(statements@), message@) == total,
            decreases self.tokens.len() - self.position,
        {
            if !self.has_current() {
                return None;
            }
            let kind = self.kind();
            if kind == TokenType::RBrace {
                return Some(Some(statements));
            }
            if kind == TokenType::EOF {
                if self.error(String::from_str(message)) {
                    return Some(None);
                } else {
                    return None;
                }
            }
            let before = self.position;
            let st = match self.statement() {
                None => {
                    return None;
                },
                Some(x) => x,
            };
            if self.position <= before || self.position >= self.tokens.len() {
                return None;
            }
            let ghost old_view = stmts_view(statements@);
            let ghost v = stmt_view(st);
            statements.push(st);
            assert(stmts_view(statements@) =~= old_view.push(v));
        }
    }

    /// Moves past the closing brace of a block when it is current.
    fn close_block_checked(&mut self) -> (ok: bool)
        ensures
            final(self).ctx() == old(self).ctx(),
            match close_block(old(self).ctx(), old(self).st()) {
                Some(s1) => ok && final(self).st() == s1,
                None => !ok,
            },
    {
        if !self.has_current() {
            return false;
        }
        if self.kind() == TokenType::RBrace {
            self.advance()
        } else {
            true
        }
    }

    /// A condition followed by a block; `Some(None)` after an error.
    fn guarded_block(&mut self, message: &str) -> (r: Option<Option<(Expressions, Vec<Statements>)>>)
        ensures
            final(self).ctx() == old(self).ctx(),
            guarded_result(
                sp_guarded_block(old(self).ctx(), old(self).st(), message@),
                r,
                final(self).st(),
            ),
        decreases old(self).ctx().tokens.len() - old(self).st().pos, 5int,
    {
        let start = self.position;
        let condition = match self.expression() {
            None => {
                return None;
            },
            Some(e) => e,
        };
        if !(start <= self.position && self.position < self.tokens.len()) {
            return None;
        }
        if self.kind() != TokenType::LBrace {
            if self.error(String::from_str("New block expected after condition!")) {
                return Some(None);
            } else {
                return None;
            }
        }
        if !self.advance() {
            return None;
        }
        match self.block(message) {
            None => None,
            Some(None) => Some(None),
            Some(Some(statements)) => {
                if !self.close_block_checked() {
                    return None;
                }
                Some(Some((condition, statements)))
            },
        }
    }

    /// An `if` statement, with an optional `else` block.
    fn if_statement(&mut self) -> (r: Option<Statements>)
        ensures
            final(self).ctx() == old(self).ctx(),
            stmt_result(sp_if(old(self).ctx(), old(self).st()), r, final(self).st()),
        decreases old(self).ctx().tokens.len() - old(self).st().pos, 6int,
    {
        if !self.has_current() {
            return None;
        }
        if self.kind() == TokenType::Keyword {
            if !self.advance() {
                return None;
            }
            return self.if_statement();
        }
        let line = self.line_here();
        let start = self.position;
        let (condition, then_block) = match self.guarded_block(
            "Unexpected end-of-file in block after `if` statement. Please add '}'!",
        ) {
            None => {
                return None;
            },
            Some(None) => {
                return Some(Statements::Nothing);
            },
            Some(Some(parts)) => parts,
        };
        if !(start <= self.position && self.position < self.tokens.len()) {
            return None;
        }
        if self.kind() == TokenType::Keyword {
            let word = self.value_here();
            if !str_eq(word.as_str(), "else") {
                return self.fail_stmt(
                    "Unexpected keyword after `if` statement. Please add ';' for ending statement!",
                );
            }
            if !self.advance() {
                return None;
            }
            if self.kind() != TokenType::LBrace {
                return self.fail_stmt("New block expected after `else` keyword!");
            }
            if !self.advance() {
                return None;
            }
            let else_block = match self.block(
                "Unexpected end-of-file in block after `else` statement. Please add '}'!",
            ) {
                None => {
                    return None;
                },
                Some(None) => {
                    return Some(Statements::Nothing);
                },
                Some(Some(b)) => b,
            };
            if !self.close_block_checked() {
                return None;
            }
            if !self.has_current() {
                return None;
            }
            if self.kind() != TokenType::Semicolon {
                return self.fail_stmt("Semicolon expected after `if/else` construction!");
            }
            if !self.skip_eos_checked() {
                return None;
            }
            Some(
                Statements::IfStatement {
                    condition,
                    then_block,
                    else_block: Some(else_block),
                    line,
                },
            )
        } else {
            if !self.skip_eos_checked() {
                return None;
            }
            Some(Statements::IfStatement { condition, then_block, else_block: None, line })
        }
    }

    /// A `while` loop.
    fn while_statement(&mut self) -> (r: Option<Statements>)
        ensures
            final(self).ctx() == old(self).ctx(),
            stmt_result(sp_while(old(self).ctx(), old(self).st()), r, final(self).st()),
        decreases old(self).ctx().tokens.len() - old(self).st().pos, 6int,
    {
        if !self.has_current() {
            return None;
        }
        if self.kind() == TokenType::Keyword {
            if !self.advance() {
                return None;
            }
            return self.while_statement();
        }
        let line = self.line_here();
        match self.guarded_block(
            "Unexpected end-of-file in block after `while` statement. Please add '}'!",
        ) {
            None => None,
            Some(None) => Some(Statements::Nothing),
            Some(Some((condition, block))) => {
                if !self.skip_eos_checked() {
                    return None;
                }
                Some(Statements::WhileStatement { condition, block, line })
            },
        }
    }

    /// A `for name in object { ... }` loop.
    fn for_statement(&mut self) -> (r: Option<Statements>)
        ensures
            final(self).ctx() == old(self).ctx(),
            stmt_result(sp_for(old(self).ctx(), old(self).st()), r, final(self).st()),
        decreases old(self).ctx().tokens.len() - old(self).st().pos, 6int,
    {
        if !self.has_current() {
            return None;
        }
        let kind = self.kind();
        if kind == TokenType::Keyword {
            if !self.advance() {
                return None;
            }
            return self.for_statement();
        }
        if kind != TokenType::Identifier {
            return self.fail_stmt("Variable name expected after keyword `for`!");
        }
        let line = self.line_here();
        let varname = self.value_here();
        if !self.advance() {
            return None;
        }
        let word = self.value_here();
        if !(self.kind() == TokenType::Keyword && str_eq(word.as_str(), "in")) {
            return self.fail_stmt("Expected keyword 'in` after variable name in `for` statement!");
        }
        if !self.advance() {
            return None;
        }
        match self.guarded_block(
            "Unexpected end-of-file in block after `for` statement. Please add '}'!",
        ) {
            None => None,
            Some(None) => Some(Statements::Nothing),
            Some(Some((iterable_object, block))) => {
                if !self.skip_eos_checked() {
                    return None;
                }
                Some(Statements::ForStatement { varname, iterable_object, block, line })
            },
        }
    }

    /// A call statement `name(arguments)` of the user function
    /// `function_name`.
    fn call_statement(&mut self, function_name: String) -> (r: Option<Statements>)
        ensures
            final(self).ctx() == old(self).ctx(),
            stmt_result(
                sp_call_statement(old(self).ctx(), old(self).st(), function_name@),
                r,
                final(self).st(),
            ),
        decreases old(self).ctx().tokens.len() - old(self).st().pos, 3int,
    {
        if !self.has_current() {
            return None;
        }
        let kind = self.kind();
        let line = self.line_here();
        if kind == TokenType::Identifier {
            if !self.advance() {
                return None;
            }
            self.call_statement(function_name)
        } else if kind == TokenType::LParen {
            let arguments = match self.enumeration(
                TokenType::LParen,
                TokenType::RParen,
                TokenType::Comma,
            ) {
                None => {
                    return None;
                },
                Some(a) => a,
            };
            if !self.skip_eos_checked() {
                return None;
            }
            Some(Statements::FunctionCallStatement { function_name, arguments, line })
        } else {
            self.fail_stmt("Unexpected variation of call statement!")
        }
    }

    /// A function definition `define type name(arguments) { ... }`.
    fn define_statement(&mut self) -> (r: Option<Statements>)
        ensures
            final(self).ctx() == old(self).ctx(),
            stmt_result(sp_define(old(self).ctx(), old(self).st()), r, final(self).st()),
        decreases old(self).ctx().tokens.len() - old(self).st().pos, 5int,
    {
        if !self.has_current() {
            return None;
        }
        if self.kind() != TokenType::Keyword {
            return self.fail_stmt("Unexpected variation of defining function");
        }
        let line = self.line_here();
        let start = self.position;
        let word = self.value_here();
        if str_eq(word.as_str(), "define") {
            if !self.advance() {
                return None;
            }
        }
        let function_type = self.value_here();
        if !is_datatype_name(function_type.as_str()) {
            return self.fail_stmt("Unexpected keyword found after `define`!");
        }
        if !self.advance() {
            return None;
        }
        if self.kind() != TokenType::Identifier {
            return self.fail_stmt("Identifier for function expected, but found anything else!");
        }
        let function_name = self.value_here();
        if !self.advance() {
            return None;
        }
        let args = match self.enumeration(TokenType::LParen, TokenType::RParen, TokenType::Comma) {
            None => {
                return None;
            },
            Some(a) => a,
        };
        if !(start <= self.position && self.position < self.tokens.len()) {
            return None;
        }
        let arguments = match argument_list(&args) {
            None => {
                return self.fail_stmt(
                    "All arguments in definition must be `type name` (example: `int32 a`)",
                );
            },
            Some(p) => p,
        };
        if self.kind() != TokenType::LBrace {
            return self.fail_stmt("Expected block with code after function declaration!");
        }
        if !self.advance() {
            return None;
        }
        let block = match self.block(
            "Unexpected end-of-file in block after `for` statement. Please add '}'!",
        ) {
            None => {
                return None;
            },
            Some(None) => {
                return Some(Statements::Nothing);
            },
            Some(Some(b)) => b,
        };
        if !self.close_block_checked() {
            return None;
        }
        if !self.skip_eos_checked() {
            return None;
        }
        Some(
            Statements::FunctionDefineStatement {
                function_name,
                function_type,
                arguments,
                block,
                line,
            },
        )
    }

    /// A `return value` statement.
    fn return_statement(&mut self) -> (r: Option<Statements>)
        ensures
            final(self).ctx() == old(self).ctx(),
            stmt_result(sp_return(old(self).ctx(), old(self).st()), r, final(self).st()),
        decreases old(self).ctx().tokens.len() - old(self).st().pos, 5int,
    {
        if !self.has_current() {
            return None;
        }
        if self.kind() == TokenType::Keyword {
            if !self.advance() {
                return None;
            }
        }
        let line = self.line_here();
        let value = match self.expression() {
            None => {
                return None;
            },
            Some(e) => e,
        };
        if !self.skip_eos_checked() {
            return None;
        }
        Some(Statements::ReturnStatement { value, line })
    }

    /// An `import "path"` statement.
    fn import_statement(&mut self) -> (r: Option<Statements>)
        ensures
            final(self).ctx() == old(self).ctx(),
            stmt_result(sp_import(old(self).ctx(), old(self).st()), r, final(self).st()),
        decreases old(self).ctx().tokens.len() - old(self).st().pos, 5int,
    {
        if !self.has_current() {
            return None;
        }
        if self.kind() == TokenType::Keyword {
            if !self.advance() {
                return None;
            }
        }
        let line = self.line_here();
        let path = match self.expression() {
            None => {
                return None;
            },
            Some(e) => e,
        };
        if !self.skip_eos_checked() {
            return None;
        }
        match path {
            Expressions::Value(Value::String(p)) => Some(
                Statements::ImportStatement { path: Expressions::Value(Value::String(p)), line },
            ),
            _ => self.fail_stmt("Unexpected import value found!"),
        }
    }
}

impl Parser {
    /// Moves `step` tokens on and returns the token reached.
    pub fn peek(&mut self, step: usize) -> (r: Token)
        requires
            old(self).st().pos + step < old(self).ctx().tokens.len(),
        ensures
            final(self).ctx() == old(self).ctx(),
            final(self).st() == (PState { pos: old(self).st().pos + step, ..old(self).st() }),
            r@ == cur(final(self).ctx(), final(self).st()),
    {
        let n = self.tokens.len();
        assert(self.ctx().tokens.len() == n);
        self.position = self.position + step;
        self.tokens[self.position].duplicate()
    }

    /// Moves to the next token and returns it.
    pub fn next(&mut self) -> (r: Token)
        requires
            bump(old(self).ctx(), old(self).st()) is Some,
        ensures
            final(self).ctx() == old(self).ctx(),
            Some(final(self).st()) == bump(old(self).ctx(), old(self).st()),
            r@ == cur(final(self).ctx(), final(self).st()),
    {
        self.peek(1)
    }

    /// The current token.
    pub fn current(&self) -> (r: Token)
        requires
            valid(self.ctx(), self.st()),
        ensures
            r@ == cur(self.ctx(), self.st()),
    {
        self.tokens[self.position].duplicate()
    }

    /// The current token is of kind `expected`.
    pub fn expect(&self, expected: TokenType) -> (r: bool)
        requires
            valid(self.ctx(), self.st()),
        ensures
            r == (cur(self.ctx(), self.st()).token_type == expected),
    {
        self.kind() == expected
    }

    /// `token_type` is the kind of a binary operator.
    pub fn is_binary_operand(&self, token_type: TokenType) -> (r: bool)
        ensures
            r == is_binary_operator(token_type),
    {
        is_binary_kind(token_type)
    }

    /// `operand` binds tighter than the other binary operators.
    pub fn is_priority_binary_operand(&self, operand: String) -> (r: bool)
        ensures
            r == is_priority_operator(operand@),
    {
        is_priority_name(operand.as_str())
    }

    /// Moves past the end of a statement (a `;`) when it is the current
    /// token.
    pub fn skip_eos(&mut self)
        requires
            skip_eos(old(self).ctx(), old(self).st()) is Some,
        ensures
            final(self).ctx() == old(self).ctx(),
            Some(final(self).st()) == skip_eos(old(self).ctx(), old(self).st()),
    {
        let _ = self.skip_eos_checked();
    }

    /// Reads a list of expressions between `start_token_type` and
    /// `end_token_type`, separated by `separator`, and moves past its end.
    /// The current token is taken to be the opening one, whatever it is.
    pub fn expressions_enum(
        &mut self,
        start_token_type: TokenType,
        end_token_type: TokenType,
        separator: TokenType,
    ) -> (r: Vec<Expressions>)
        requires
            sp_expressions_enum(
                old(self).ctx(),
                old(self).st(),
                start_token_type,
                end_token_type,
                separator,
            ) is Some,
        ensures
            final(self).ctx() == old(self).ctx(),
            sp_expressions_enum(
                old(self).ctx(),
                old(self).st(),
                start_token_type,
                end_token_type,
                separator,
            ) == Some((exprs_view(r@), final(self).st())),
    {
        match self.enumeration(start_token_type, end_token_type, separator) {
            Some(v) => v,
            None => Vec::new(),
        }
    }

    /// Parses statements from the current place to the end. `None` where
    /// the parser would panic or never finish; otherwise the statements, or
    /// the errors when any was found.
    pub fn parse_checked(&mut self) -> (r: Option<Result<Vec<Statements>, ParseErrorHandler>>)
        ensures
            final(self).ctx() == old(self).ctx(),
            match sp_parse(old(self).ctx(), old(self).st()) {
                None => r is None,
                Some((f, res)) => final(self).st() == f && match r {
                    Some(Ok(v)) => res == Ok::<Seq<SStmt>, Seq<ParseErrorView>>(stmts_view(v@)),
                    Some(Err(e)) => res == Err::<Seq<SStmt>, Seq<ParseErrorView>>(e@),
                    None => false,
                },
            },
    {
        if self.tokens.len() == 0 {
            return None;
        }
        let ghost c = self.ctx();
        let ghost total = sp_parse_loop(c, self.st(), seq![]);
        let mut output: Vec<Statements> = Vec::new();
        assert(stmts_view(output@) =~= Seq::<SStmt>::empty());
        while self.position < self.tokens.len() - 1
            invariant_except_break
                self.tokens.len() > 0,
                self.ctx() == c,
                c == old(self).ctx(),
                total == sp_parse_loop(old(self).ctx(), old(self).st(), seq![]),
                sp_parse_loop(c, self.st(), stmts_view(output@)) == total,
            ensures
                self.ctx() == c,
                c == old(self).ctx(),
                total == sp_parse_loop(old(self).ctx(), old(self).st(), seq![]),
                total == Some((stmts_view(output@), self.st())),
            decreases self.tokens.len() - self.position,
        {
            let before = self.position;
            let ghost s0 = self.st();
            let statement = match self.statement() {
                None => {
                    return None;
                },
                Some(x) => x,
            };
            let ghost old_view = stmts_view(output@);
            let ghost v = stmt_view(statement);
            output.push(statement);
            assert(stmts_view(output@) =~= old_view.push(v));
            if self.eof {
                break;
            }
            if self.position <= before || self.position >= self.tokens.len() {
                return None;
            }
        }
        if !self.errors.is_empty() {
            return Some(Err(self.errors.duplicate()));
        }
        Some(Ok(output))
    }

    /// Parses statements from the current place to the end: the statements,
    /// or the errors when any was found.
    pub fn parse(&mut self) -> (r: Result<Vec<Statements>, ParseErrorHandler>)
        requires
            sp_parse(old(self).ctx(), old(self).st()) is Some,
        ensures
            final(self).ctx() == old(self).ctx(),
            match sp_parse(old(self).ctx(), old(self).st()) {
                None => false,
                Some((f, res)) => final(self).st() == f && match r {
                    Ok(v) => res == Ok::<Seq<SStmt>, Seq<ParseErrorView>>(stmts_view(v@)),
                    Err(e) => res == Err::<Seq<SStmt>, Seq<ParseErrorView>>(e@),
                },
            },
    {
        match self.parse_checked() {
            Some(res) => res,
            None => Err(ParseErrorHandler::new()),
        }
    }
}

} // verus!
