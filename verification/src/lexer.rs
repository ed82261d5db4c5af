//! The lexer: turns source text into tokens.
//!
//! The meaning of lexing is given by the spec functions below, which read
//! the input one character at a time exactly as the executable lexer does.
//! A spec function answers `None` where the lexer would never finish (a
//! string literal that is not closed) or would panic.

use vstd::prelude::*;
use vstd::string::*;
use crate::lexer_error::{LexerError, LexerErrorHandler, LexerErrorView};
use crate::number::{all_digits, digit_value, digits_value, parse_unsigned, parse_unsigned_radix};
use crate::source::{nth_line, source_lines};
use crate::text::{
    char_is_alphabetic, char_is_alphanumeric, char_is_digit, char_is_hex_letter,
    char_is_white_space, i64_to_string, is_digit, is_hex_letter, is_white_space, push_char,
    signed_decimal, str_eq, alphabetic, alphanumeric,
};
use crate::token::{token_view, tokens_view, Token, TokenType, TokenView};

verus! {

/// What does not change while lexing: the input characters and the file name.
pub struct LexCtx {
    pub input: Seq<char>,
    pub filename: Seq<char>,
}

/// Where the lexer stands: the index of the current character, the line
/// counter and the errors found so far.
pub struct LexPos {
    pub index: int,
    pub line: int,
    pub errors: Seq<LexerErrorView>,
}

/// The character at `i`; `\0` past the end of the input.
pub open spec fn at(input: Seq<char>, i: int) -> char {
    if 0 <= i < input.len() {
        input[i]
    } else {
        '\0'
    }
}

/// The index after reading one character; it stays at the end of the input.
pub open spec fn advance(input: Seq<char>, i: int) -> int {
    if i < input.len() {
        i + 1
    } else {
        input.len() as int
    }
}

/// The number of characters read so far when the current index is `i`.
pub open spec fn position_of(input: Seq<char>, i: int) -> usize {
    (if i < input.len() {
        i + 1
    } else {
        input.len() as int
    }) as usize
}

/// Records an error at the current place. `None` when the source has no
/// line with the current line number (the report quotes that line, and
/// reading a missing one is a panic).
pub open spec fn lex_error(c: LexCtx, p: LexPos, description: Seq<char>) -> Option<LexPos> {
    let lines = source_lines(c.input);
    if 0 <= p.line < lines.len() {
        Some(
            LexPos {
                errors: p.errors.push(
                    LexerErrorView {
                        filename: c.filename,
                        description,
                        line: lines[p.line],
                        line_number: p.line as usize,
                        position: position_of(c.input, p.index),
                        character: at(c.input, p.index),
                    },
                ),
                ..p
            },
        )
    } else {
        None
    }
}

/// The kind of the one-character symbols.
pub open spec fn symbol_kind(ch: char) -> Option<TokenType> {
    if ch == '+' {
        Some(TokenType::Plus)
    } else if ch == '-' {
        Some(TokenType::Minus)
    } else if ch == '*' {
        Some(TokenType::Multiply)
    } else if ch == '/' {
        Some(TokenType::Divide)
    } else if ch == '=' {
        Some(TokenType::Equal)
    } else if ch == '!' {
        Some(TokenType::Not)
    } else if ch == '^' {
        Some(TokenType::Xor)
    } else if ch == '<' {
        Some(TokenType::Lt)
    } else if ch == '>' {
        Some(TokenType::Bt)
    } else if ch == '.' {
        Some(TokenType::Dot)
    } else if ch == ',' {
        Some(TokenType::Comma)
    } else if ch == '"' {
        Some(TokenType::Quote)
    } else if ch == '\'' {
        Some(TokenType::SingleQuote)
    } else if ch == ';' {
        Some(TokenType::Semicolon)
    } else if ch == '&' {
        Some(TokenType::Ampersand)
    } else if ch == '|' {
        Some(TokenType::Verbar)
    } else if ch == '(' {
        Some(TokenType::LParen)
    } else if ch == ')' {
        Some(TokenType::RParen)
    } else if ch == '[' {
        Some(TokenType::LBrack)
    } else if ch == ']' {
        Some(TokenType::RBrack)
    } else if ch == '{' {
        Some(TokenType::LBrace)
    } else if ch == '}' {
        Some(TokenType::RBrace)
    } else {
        None
    }
}

/// The reserved words: keywords, the two booleans and `null`.
pub open spec fn word_kind(w: Seq<char>) -> Option<TokenType> {
    if w == "true"@ || w == "false"@ {
        Some(TokenType::Boolean)
    } else if w == "if"@ || w == "else"@ || w == "while"@ || w == "for"@ || w == "in"@ || w
        == "break"@ || w == "define"@ || w == "return"@ || w == "import"@ || w == "int8"@ || w
        == "int16"@ || w == "int32"@ || w == "int64"@ || w == "int128"@ || w == "auto"@ || w
        == "fn"@ || w == "void"@ || w == "str"@ || w == "char"@ || w == "bool"@ || w
        == "null"@ {
        Some(TokenType::Keyword)
    } else {
        None
    }
}

pub open spec fn msg_radix_clash() -> Seq<char> {
    "Unexpected binary/hexadecimal number found!"@
}

pub open spec fn msg_bad_binary() -> Seq<char> {
    "Error with parsing binary number!"@
}

pub open spec fn msg_bad_hexadecimal() -> Seq<char> {
    "Error with parsing hexadecimal number!"@
}

pub open spec fn msg_too_big() -> Seq<char> {
    "Too big integer found! Max supported number is 64-bit integer: from −9,223,372,036,854,775,808 to 9,223,372,036,854,775,807"@
}

pub open spec fn msg_wrong_char() -> Seq<char> {
    "Wrong char found! For strings use `str` type!"@
}

pub open spec fn msg_undefined_char(ch: char) -> Seq<char> {
    "Undefined char found: "@ + seq![ch]
}

/// A character that may continue a number literal.
pub open spec fn number_char(ch: char) -> bool {
    is_digit(ch) || ch == '_' || ch == 'x' || ch == 'b' || is_hex_letter(ch)
}

/// Reads the rest of a number literal. `value` holds the digits read so far
/// and `mode` the base chosen by a `0b` (1) or `0x` (2) prefix. Answers the
/// place after the literal and its value (0 after an error).
pub open spec fn number_scan(c: LexCtx, p: LexPos, value: Seq<char>, mode: int) -> Option<
    (LexPos, i64),
>
    decreases c.input.len() - p.index,
{
    let ch = at(c.input, p.index);
    if p.index < 0 || p.index > c.input.len() {
        None
    } else if number_char(ch) {
        if ch == '0' {
            let i1 = p.index + 1;
            let ch1 = at(c.input, i1);
            if ch1 == 'b' || ch1 == 'x' {
                if mode != 0 || value.len() > 0 {
                    match lex_error(c, LexPos { index: i1, ..p }, msg_radix_clash()) {
                        None => None,
                        Some(p2) => Some((p2, 0)),
                    }
                } else {
                    number_scan(
                        c,
                        LexPos { index: advance(c.input, i1), ..p },
                        value,
                        if ch1 == 'b' {
                            1
                        } else {
                            2
                        },
                    )
                }
            } else {
                number_scan(c, LexPos { index: i1, ..p }, value.push('0'), mode)
            }
        } else {
            number_scan(
                c,
                LexPos { index: p.index + 1, ..p },
                if ch != '_' {
                    value.push(ch)
                } else {
                    value
                },
                mode,
            )
        }
    } else {
        number_finish(c, p, value, mode)
    }
}

/// The value of the digits of a number literal in the chosen base, or an
/// error and 0.
pub open spec fn number_finish(c: LexCtx, p: LexPos, value: Seq<char>, mode: int) -> Option<
    (LexPos, i64),
> {
    let (radix, message) = if mode == 1 {
        (2nat, msg_bad_binary())
    } else if mode == 2 {
        (16nat, msg_bad_hexadecimal())
    } else {
        (10nat, msg_too_big())
    };
    match parse_unsigned(value, radix) {
        Some(v) => Some((p, v)),
        None => match lex_error(c, p, message) {
            None => None,
            Some(p2) => Some((p2, 0)),
        },
    }
}

/// A character that may continue an identifier: a letter or digit, `_` or
/// `-` (so `example_identifier-1` is one identifier).
pub open spec fn identifier_char(ch: char) -> bool {
    alphanumeric(ch) || ch == '_' || ch == '-'
}

/// Reads an identifier from `i` on. `None` where the lexer would not finish.
pub open spec fn ident_scan(c: LexCtx, i: int, acc: Seq<char>) -> Option<(int, Seq<char>)>
    decreases c.input.len() - i,
{
    let ch = at(c.input, i);
    if i < 0 || i > c.input.len() {
        None
    } else if identifier_char(ch) {
        if i >= c.input.len() {
            None
        } else {
            ident_scan(c, i + 1, acc.push(ch))
        }
    } else {
        Some((i, acc))
    }
}

/// Reads the text of a string literal from `i` up to the closing quote.
/// `None` when no quote closes it: the lexer would never finish.
pub open spec fn string_scan(c: LexCtx, i: int, acc: Seq<char>) -> Option<(int, Seq<char>)>
    decreases c.input.len() - i,
{
    if i < 0 || i >= c.input.len() {
        None
    } else if c.input[i] == '"' {
        Some((i, acc))
    } else {
        string_scan(c, i + 1, acc.push(c.input[i]))
    }
}

/// One step for a one-character symbol `ch` of kind `kind` at the current
/// place: the next place and the token read.
pub open spec fn symbol_step(c: LexCtx, p: LexPos, kind: TokenType, ch: char) -> Option<
    (LexPos, Option<TokenView>),
> {
    let nx = p.index + 1;
    let next = at(c.input, nx);
    let line = p.line as usize;
    let plain = token_view(kind, seq![ch], line);
    match kind {
        TokenType::Quote => match string_scan(c, nx, seq![]) {
            None => None,
            Some((j, text)) => Some(
                (
                    LexPos { index: advance(c.input, j), ..p },
                    Some(token_view(TokenType::String, text, line)),
                ),
            ),
        },
        TokenType::SingleQuote => {
            let i2 = advance(c.input, nx);
            let tok = token_view(TokenType::Char, seq![next], line);
            if at(c.input, i2) != '\'' {
                match lex_error(c, LexPos { index: i2, ..p }, msg_wrong_char()) {
                    None => None,
                    Some(p3) => Some(
                        (
                            LexPos { index: advance(c.input, advance(c.input, i2)), ..p3 },
                            Some(tok),
                        ),
                    ),
                }
            } else {
                Some((LexPos { index: advance(c.input, i2), ..p }, Some(tok)))
            }
        },
        TokenType::Equal => if next == '=' {
            Some(
                (
                    LexPos { index: advance(c.input, nx), ..p },
                    Some(token_view(TokenType::Eq, "=="@, line)),
                ),
            )
        } else {
            Some((LexPos { index: nx, ..p }, Some(plain)))
        },
        TokenType::Lt => if next == '<' {
            Some(
                (
                    LexPos { index: advance(c.input, nx), ..p },
                    Some(token_view(TokenType::LShift, "<<"@, line)),
                ),
            )
        } else {
            Some((LexPos { index: nx, ..p }, Some(plain)))
        },
        TokenType::Bt => if next == '>' {
            Some(
                (
                    LexPos { index: advance(c.input, nx), ..p },
                    Some(token_view(TokenType::RShift, ">>"@, line)),
                ),
            )
        } else {
            Some((LexPos { index: nx, ..p }, Some(plain)))
        },
        TokenType::Not => if next == '=' {
            Some(
                (
                    LexPos { index: advance(c.input, nx), ..p },
                    Some(token_view(TokenType::Ne, "!="@, line)),
                ),
            )
        } else {
            Some((LexPos { index: nx, ..p }, Some(plain)))
        },
        TokenType::Verbar => if next == '|' {
            Some(
                (
                    LexPos { index: advance(c.input, nx), ..p },
                    Some(token_view(TokenType::Or, "||"@, line)),
                ),
            )
        } else {
            Some((LexPos { index: nx, ..p }, Some(plain)))
        },
        TokenType::Ampersand => if next == '&' {
            Some(
                (
                    LexPos { index: advance(c.input, nx), ..p },
                    Some(token_view(TokenType::And, "&&"@, line)),
                ),
            )
        } else if next == ' ' {
            Some((LexPos { index: nx, ..p }, Some(plain)))
        } else {
            Some((LexPos { index: nx, ..p }, Some(token_view(TokenType::Ref, "&"@, line))))
        },
        _ => Some((LexPos { index: nx, ..p }, Some(plain))),
    }
}

/// One pass of the main loop at a character that is not `\0`: the next
/// place and the token read, if any.
pub open spec fn lex_step(c: LexCtx, p: LexPos) -> Option<(LexPos, Option<TokenView>)> {
    let ch = at(c.input, p.index);
    let nx = p.index + 1;
    let line = p.line as usize;
    if ch == '\n' {
        Some((LexPos { index: nx, line: p.line + 1, ..p }, None))
    } else if is_white_space(ch) {
        Some((LexPos { index: nx, ..p }, None))
    } else if ch == '-' {
        if is_digit(at(c.input, nx)) {
            match number_scan(c, LexPos { index: nx, ..p }, seq![], 0) {
                None => None,
                Some((p2, v)) => Some(
                    (
                        LexPos { index: advance(c.input, p2.index), ..p2 },
                        Some(
                            token_view(
                                TokenType::Number,
                                signed_decimal(-(v as int)),
                                p2.line as usize,
                            ),
                        ),
                    ),
                ),
            }
        } else {
            Some(
                (
                    LexPos { index: advance(c.input, nx), ..p },
                    Some(token_view(TokenType::Minus, "-"@, 0)),
                ),
            )
        }
    } else if symbol_kind(ch) is Some {
        symbol_step(c, p, symbol_kind(ch)->0, ch)
    } else if is_digit(ch) {
        match number_scan(c, p, seq![], 0) {
            None => None,
            Some((p2, v)) => Some(
                (
                    p2,
                    Some(token_view(TokenType::Number, signed_decimal(v as int), p2.line as usize)),
                ),
            ),
        }
    } else if alphabetic(ch) {
        match ident_scan(c, p.index, seq![]) {
            None => None,
            Some((j, id)) => Some(
                (
                    LexPos { index: j, ..p },
                    Some(
                        match word_kind(id) {
                            Some(k) => token_view(k, id, 0),
                            None => token_view(TokenType::Identifier, id, line),
                        },
                    ),
                ),
            ),
        }
    } else {
        match lex_error(c, p, msg_undefined_char(ch)) {
            None => None,
            Some(p2) => Some((LexPos { index: nx, ..p2 }, None)),
        }
    }
}

/// The main loop: reads until the current character is `\0`, adding the
/// tokens read to `toks`. `None` where the lexer would not finish or would
/// panic.
pub open spec fn lex_run(c: LexCtx, p: LexPos, toks: Seq<TokenView>) -> Option<
    (LexPos, Seq<TokenView>),
>
    decreases c.input.len() - p.index,
{
    if p.index < 0 || p.index > c.input.len() {
        None
    } else if at(c.input, p.index) == '\0' {
        Some((p, toks))
    } else {
        match lex_step(c, p) {
            None => None,
            Some((p1, t)) => if p1.index <= p.index || p1.index > c.input.len() {
                None
            } else {
                lex_run(
                    c,
                    p1,
                    match t {
                        Some(x) => toks.push(x),
                        None => toks,
                    },
                )
            },
        }
    }
}

/// No token in `toks` is of the end kind.
pub open spec fn no_end_token(toks: Seq<TokenView>) -> bool {
    forall|i: int| 0 <= i < toks.len() ==> #[trigger] toks[i].token_type != TokenType::EOF
}

/// One step of the lexer never reads an end token.
proof fn lemma_step_no_end_token(c: LexCtx, p: LexPos)
    ensures
        match lex_step(c, p) {
            Some((_, Some(t))) => t.token_type != TokenType::EOF,
            _ => true,
        },
{
    let ch = at(c.input, p.index);
    if symbol_kind(ch) is Some {
        assert(symbol_kind(ch)->0 != TokenType::EOF);
    }
}

/// The main loop adds no end token to a list that holds none.
proof fn lemma_run_no_end_token(c: LexCtx, p: LexPos, toks: Seq<TokenView>)
    requires
        no_end_token(toks),
    ensures
        match lex_run(c, p, toks) {
            Some((_, out)) => no_end_token(out),
            None => true,
        },
    decreases c.input.len() - p.index,
{
    if p.index < 0 || p.index > c.input.len() {
    } else if at(c.input, p.index) == '\0' {
    } else {
        lemma_step_no_end_token(c, p);
        match lex_step(c, p) {
            None => {},
            Some((p1, t)) => {
                if p1.index <= p.index || p1.index > c.input.len() {
                } else {
                    let next = match t {
                        Some(x) => toks.push(x),
                        None => toks,
                    };
                    assert(no_end_token(next)) by {
                        assert forall|i: int| 0 <= i < next.len() implies #[trigger] next[i].token_type
                            != TokenType::EOF by {
                            if i < toks.len() {
                                assert(next[i] == toks[i]);
                            }
                        }
                    }
                    lemma_run_no_end_token(c, p1, next);
                }
            },
        }
    }
}

/// The token that ends every token list.
pub open spec fn eof_token() -> TokenView {
    token_view(TokenType::EOF, seq![], 0)
}

/// What `tokenize` gives from place `p`: the place it ends at, and the
/// tokens followed by the end token, or the errors when there are any.
/// `None` where the lexer would not finish or would panic.
pub open spec fn lex_outcome(c: LexCtx, p: LexPos) -> Option<
    (LexPos, Result<Seq<TokenView>, Seq<LexerErrorView>>),
> {
    match lex_run(c, p, seq![]) {
        None => None,
        Some((f, toks)) => {
            let all = if toks.contains(eof_token()) {
                toks
            } else {
                toks.push(eof_token())
            };
            Some(
                (
                    f,
                    if f.errors.len() == 0 {
                        Ok(all)
                    } else {
                        Err(f.errors)
                    },
                ),
            )
        },
    }
}

/// The kind of a one-character symbol.
pub fn symbol_of(ch: char) -> (r: Option<TokenType>)
    ensures
        r == symbol_kind(ch),
{
    if ch == '+' {
        Some(TokenType::Plus)
    } else if ch == '-' {
        Some(TokenType::Minus)
    } else if ch == '*' {
        Some(TokenType::Multiply)
    } else if ch == '/' {
        Some(TokenType::Divide)
    } else if ch == '=' {
        Some(TokenType::Equal)
    } else if ch == '!' {
        Some(TokenType::Not)
    } else if ch == '^' {
        Some(TokenType::Xor)
    } else if ch == '<' {
        Some(TokenType::Lt)
    } else if ch == '>' {
        Some(TokenType::Bt)
    } else if ch == '.' {
        Some(TokenType::Dot)
    } else if ch == ',' {
        Some(TokenType::Comma)
    } else if ch == '"' {
        Some(TokenType::Quote)
    } else if ch == '\'' {
        Some(TokenType::SingleQuote)
    } else if ch == ';' {
        Some(TokenType::Semicolon)
    } else if ch == '&' {
        Some(TokenType::Ampersand)
    } else if ch == '|' {
        Some(TokenType::Verbar)
    } else if ch == '(' {
        Some(TokenType::LParen)
    } else if ch == ')' {
        Some(TokenType::RParen)
    } else if ch == '[' {
        Some(TokenType::LBrack)
    } else if ch == ']' {
        Some(TokenType::RBrack)
    } else if ch == '{' {
        Some(TokenType::LBrace)
    } else if ch == '}' {
        Some(TokenType::RBrace)
    } else {
        None
    }
}

/// The kind of a reserved word, if `w` is one.
pub fn word_of(w: &str) -> (r: Option<TokenType>)
    ensures
        r == word_kind(w@),
{
    if str_eq(w, "true") || str_eq(w, "false") {
        Some(TokenType::Boolean)
    } else if str_eq(w, "if") || str_eq(w, "else") || str_eq(w, "while") || str_eq(w, "for")
        || str_eq(w, "in") || str_eq(w, "break") || str_eq(w, "define") || str_eq(w, "return")
        || str_eq(w, "import") || str_eq(w, "int8") || str_eq(w, "int16") || str_eq(w, "int32")
        || str_eq(w, "int64") || str_eq(w, "int128") || str_eq(w, "auto") || str_eq(w, "fn")
        || str_eq(w, "void") || str_eq(w, "str") || str_eq(w, "char") || str_eq(w, "bool")
        || str_eq(w, "null") {
        Some(TokenType::Keyword)
    } else {
        None
    }
}

fn one_char_string(ch: char) -> (r: String)
    ensures
        r@ == seq![ch],
{
    let mut s = String::new();
    push_char(&mut s, ch);
    s
}

/// A successful lexing ends its token list with the end token, and the end
/// token occurs nowhere else in it; a failed one reports at least one error.
pub proof fn tokens_end_with_end_token(c: LexCtx, p: LexPos)
    ensures
        match lex_outcome(c, p) {
            Some((_, Ok(toks))) => {
                &&& toks.len() >= 1
                &&& toks.last() == eof_token()
                &&& no_end_token(toks.drop_last())
            },
            Some((_, Err(errors))) => errors.len() > 0,
            None => true,
        },
{
    lemma_run_no_end_token(c, p, seq![]);
    match lex_run(c, p, seq![]) {
        None => {},
        Some((f, toks)) => {
            if toks.contains(eof_token()) {
                let i = choose|i: int| 0 <= i < toks.len() && toks[i] == eof_token();
                assert(toks[i].token_type == TokenType::EOF);
            }
            assert(toks.push(eof_token()).drop_last() =~= toks);
        },
    }
}

/// The number of newline characters in `s`.
pub open spec fn newline_count(s: Seq<char>) -> nat
    decreases s.len(),
{
    if s.len() == 0 {
        0
    } else {
        newline_count(s.drop_last()) + if s.last() == '\n' {
            1nat
        } else {
            0nat
        }
    }
}

/// Each token stands on line 0 or on a line no earlier than that of every
/// token before it.
pub open spec fn lines_in_order(toks: Seq<TokenView>) -> bool {
    forall|i: int, j: int|
        0 <= i < j < toks.len() ==> toks[j].line == 0 || toks[i].line <= toks[j].line
}

/// A text holds no more newlines than characters, and a longer prefix holds
/// no fewer newlines than a shorter one.
proof fn lemma_newlines_prefix(s: Seq<char>, i: int, j: int)
    requires
        0 <= i <= j <= s.len(),
    ensures
        newline_count(s.subrange(0, i)) <= newline_count(s.subrange(0, j)),
        newline_count(s.subrange(0, j)) <= j,
    decreases j,
{
    if j == 0 {
        assert(s.subrange(0, 0) =~= Seq::<char>::empty());
    } else {
        assert(s.subrange(0, j).drop_last() =~= s.subrange(0, j - 1));
        if i < j {
            lemma_newlines_prefix(s, i, j - 1);
        } else {
            lemma_newlines_prefix(s, j - 1, j - 1);
        }
    }
}

/// Reading a newline adds one to the newlines before the current index.
proof fn lemma_newlines_step(s: Seq<char>, i: int)
    requires
        0 <= i < s.len(),
    ensures
        newline_count(s.subrange(0, i + 1)) == newline_count(s.subrange(0, i)) + if s[i]
            == '\n' {
            1nat
        } else {
            0nat
        },
{
    assert(s.subrange(0, i + 1).drop_last() =~= s.subrange(0, i));
}

/// Reading a number literal leaves the line counter as it was.
proof fn lemma_number_scan_line(c: LexCtx, p: LexPos, value: Seq<char>, mode: int)
    ensures
        match number_scan(c, p, value, mode) {
            Some((p2, _)) => p2.line == p.line,
            None => true,
        },
    decreases c.input.len() - p.index,
{
    let ch = at(c.input, p.index);
    if p.index < 0 || p.index > c.input.len() {
    } else if number_char(ch) {
        if ch == '0' {
            let i1 = p.index + 1;
            let ch1 = at(c.input, i1);
            if ch1 == 'b' || ch1 == 'x' {
                if mode != 0 || value.len() > 0 {
                } else {
                    lemma_number_scan_line(
                        c,
                        LexPos { index: advance(c.input, i1), ..p },
                        value,
                        if ch1 == 'b' {
                            1
                        } else {
                            2
                        },
                    );
                }
            } else {
                lemma_number_scan_line(c, LexPos { index: i1, ..p }, value.push('0'), mode);
            }
        } else {
            lemma_number_scan_line(
                c,
                LexPos { index: p.index + 1, ..p },
                if ch != '_' {
                    value.push(ch)
                } else {
                    value
                },
                mode,
            );
        }
    }
}

/// One step of the lexer moves to the next line only on a newline, and the
/// token it reads stands on line 0 or on the current line.
proof fn lemma_step_line(c: LexCtx, p: LexPos)
    ensures
        match lex_step(c, p) {
            Some((p1, t)) => {
                &&& (p1.line == p.line || (at(c.input, p.index) == '\n' && p1.line == p.line + 1
                    && p1.index == p.index + 1))
                &&& match t {
                    Some(x) => x.line == 0 || x.line == p.line as usize,
                    None => true,
                }
            },
            None => true,
        },
{
    lemma_number_scan_line(c, p, seq![], 0);
    lemma_number_scan_line(c, LexPos { index: p.index + 1, ..p }, seq![], 0);
}

/// The main loop keeps the line counter within the newlines read and the
/// token lines in order below it.
proof fn lemma_run_lines(c: LexCtx, p: LexPos, toks: Seq<TokenView>)
    requires
        c.input.len() <= usize::MAX,
        0 <= p.index <= c.input.len(),
        0 <= p.line <= newline_count(c.input.subrange(0, p.index)),
        forall|i: int| 0 <= i < toks.len() ==> #[trigger] toks[i].line <= p.line,
        lines_in_order(toks),
    ensures
        match lex_run(c, p, toks) {
            Some((f, out)) => {
                &&& 0 <= f.index <= c.input.len()
                &&& 0 <= f.line <= newline_count(c.input.subrange(0, f.index))
                &&& forall|i: int| 0 <= i < out.len() ==> #[trigger] out[i].line <= f.line
                &&& lines_in_order(out)
            },
            None => true,
        },
    decreases c.input.len() - p.index,
{
    if at(c.input, p.index) == '\0' {
    } else {
        lemma_step_line(c, p);
        match lex_step(c, p) {
            None => {},
            Some((p1, t)) => {
                if p1.index <= p.index || p1.index > c.input.len() {
                } else {
                    lemma_newlines_prefix(c.input, p.index, p1.index);
                    lemma_newlines_prefix(c.input, p.index, p.index);
                    if p1.line != p.line {
                        lemma_newlines_step(c.input, p.index);
                    }
                    let next = match t {
                        Some(x) => toks.push(x),
                        None => toks,
                    };
                    assert forall|i: int| 0 <= i < next.len() implies #[trigger] next[i].line
                        <= p1.line by {
                        if i < toks.len() {
                            assert(next[i] == toks[i]);
                        }
                    }
                    assert(lines_in_order(next)) by {
                        assert forall|i: int, j: int| 0 <= i < j < next.len() implies next[j].line
                            == 0 || next[i].line <= next[j].line by {
                            if j < toks.len() {
                                assert(next[i] == toks[i] && next[j] == toks[j]);
                            } else {
                                assert(next[i] == toks[i]);
                                assert(toks[i].line <= p.line);
                            }
                        }
                    }
                    lemma_run_lines(c, p1, next);
                }
            },
        }
    }
}

/// Token lines follow the newlines of the source: lexing a source from its
/// start, each token stands on line 0 (keywords, booleans, `null`, a lone
/// `-` and the end token always do) or on a line no earlier than that of
/// every token before it, and no token stands on a line past the number of
/// newline characters in the source.
pub proof fn token_lines_follow_newlines(c: LexCtx)
    requires
        c.input.len() <= usize::MAX,
    ensures
        match lex_outcome(c, LexPos { index: 0, line: 0, errors: Seq::empty() }) {
            Some((_, Ok(toks))) => {
                &&& forall|i: int| 0 <= i < toks.len() ==> #[trigger] toks[i].line <= newline_count(c.input)
                &&& lines_in_order(toks)
            },
            _ => true,
        },
{
    let p = LexPos { index: 0, line: 0, errors: Seq::<LexerErrorView>::empty() };
    lemma_newlines_prefix(c.input, 0, 0);
    lemma_run_lines(c, p, seq![]);
    match lex_run(c, p, seq![]) {
        None => {},
        Some((f, toks)) => {
            lemma_newlines_prefix(c.input, f.index, c.input.len() as int);
            assert(c.input.subrange(0, c.input.len() as int) =~= c.input);
            if !toks.contains(eof_token()) {
                let all = toks.push(eof_token());
                assert forall|i: int| 0 <= i < all.len() implies #[trigger] all[i].line <= f.line by {
                    if i < toks.len() {
                        assert(all[i] == toks[i]);
                    }
                }
                assert forall|i: int, j: int| 0 <= i < j < all.len() implies all[j].line == 0
                    || all[i].line <= all[j].line by {
                    if j < toks.len() {
                        assert(all[i] == toks[i] && all[j] == toks[j]);
                    }
                }
            }
        },
    }
}

/// Past a `0x` prefix, the lexer reads a run of hexadecimal digits (with no
/// `0` right before a `b`) up to index `j` and then finishes the literal in
/// base 16 with those digits after the ones already read.
proof fn lemma_hex_run(c: LexCtx, p: LexPos, value: Seq<char>, j: int)
    requires
        0 <= p.index <= j <= c.input.len(),
        forall|k: int|
            p.index <= k < j ==> is_digit(#[trigger] c.input[k]) || is_hex_letter(c.input[k]),
        forall|k: int| p.index <= k < j && #[trigger] c.input[k] == '0' ==> at(c.input, k + 1) != 'b',
        !number_char(at(c.input, j)),
    ensures
        number_scan(c, p, value, 2) == number_finish(
            c,
            LexPos { index: j, ..p },
            value + c.input.subrange(p.index, j),
            2,
        ),
    decreases j - p.index,
{
    let i = p.index;
    if i == j {
        assert(value + c.input.subrange(i, j) =~= value);
        assert(p == LexPos { index: j, ..p });
    } else {
        let ch = c.input[i];
        assert(is_digit(ch) || is_hex_letter(ch));
        let next = value.push(ch);
        assert(next + c.input.subrange(i + 1, j) =~= value + c.input.subrange(i, j));
        if ch == '0' {
            assert(at(c.input, i + 1) != 'b');
            if i + 1 < j {
                assert(is_digit(c.input[i + 1]) || is_hex_letter(c.input[i + 1]));
            }
        }
        lemma_hex_run(c, LexPos { index: i + 1, ..p }, next, j);
    }
}

/// A number literal written `0x` and hexadecimal digits is read in base 16:
/// lexing `0x10` gives the number 16 and `0x1F` gives 31. (The digits must
/// not hold a `0` right before a `b`, which the lexer takes for a second
/// base prefix, and their value must fit in an `i64`.)
pub proof fn hexadecimal_literal_value(c: LexCtx, p: LexPos, j: int)
    requires
        0 <= p.index,
        p.index + 2 < j <= c.input.len(),
        c.input[p.index] == '0',
        c.input[p.index + 1] == 'x',
        forall|k: int|
            p.index + 2 <= k < j ==> is_digit(#[trigger] c.input[k]) || is_hex_letter(c.input[k]),
        forall|k: int|
            p.index + 2 <= k < j && #[trigger] c.input[k] == '0' ==> at(c.input, k + 1) != 'b',
        !number_char(at(c.input, j)),
        digits_value(c.input.subrange(p.index + 2, j), 16) <= i64::MAX,
    ensures
        lex_step(c, p) == Some(
            (
                LexPos { index: j, ..p },
                Some(
                    token_view(
                        TokenType::Number,
                        signed_decimal(digits_value(c.input.subrange(p.index + 2, j), 16) as int),
                        p.line as usize,
                    ),
                ),
            ),
        ),
{
    let d = c.input.subrange(p.index + 2, j);
    let q = LexPos { index: p.index + 2, ..p };
    lemma_hex_run(c, q, seq![], j);
    assert(seq![] + d =~= d);
    assert forall|i: int| 0 <= i < d.len() implies #[trigger] digit_value(d[i], 16) is Some by {
        assert(d[i] == c.input[p.index + 2 + i]);
        assert(is_digit(c.input[p.index + 2 + i]) || is_hex_letter(c.input[p.index + 2 + i]));
    }
    assert(all_digits(d, 16));
    assert(parse_unsigned(d, 16) == Some(digits_value(d, 16) as i64));
    assert(number_scan(c, p, seq![], 0) == number_scan(c, q, seq![], 2));
}

/// The lexer over one source text.
pub struct Lexer {
    filename: String,
    input: Vec<char>,
    index: usize,
    line: usize,
    errors: LexerErrorHandler,
}

/// Whatever a lexer has read, its place lies within its input: the index
/// runs from the start to the end of the input, and the line counter from
/// zero to the index.
pub proof fn position_in_input(l: &Lexer)
    requires
        l.wf(),
    ensures
        0 <= l.pos().line <= l.pos().index <= l.ctx().input.len(),
{
}

impl Lexer {
    /// The input and the file name.
    pub closed spec fn ctx(&self) -> LexCtx {
        LexCtx { input: self.input@, filename: self.filename@ }
    }

    /// The current place.
    pub closed spec fn pos(&self) -> LexPos {
        LexPos { index: self.index as int, line: self.line as int, errors: self.errors@ }
    }

    /// The index stays within the input, and the line counter never
    /// exceeds the number of characters read.
    pub closed spec fn wf(&self) -> bool {
        &&& self.index <= self.input.len()
        &&& self.line <= self.index
    }

    /// A lexer at the start of `source`: its current character is the first
    /// one.
    pub fn new(source: String, filename: String) -> (r: Self)
        ensures
            r.wf(),
            r.ctx() == (LexCtx { input: source@, filename: filename@ }),
            r.pos() == (LexPos { index: 0, line: 0, errors: Seq::empty() }),
    {
        let input = crate::text::chars_of(source.as_str());
        Lexer { filename, input, index: 0, line: 0, errors: LexerErrorHandler::new() }
    }

    /// The current character (`\0` at the end).
    pub fn current_char(&self) -> (r: char)
        requires
            self.wf(),
        ensures
            r == at(self.ctx().input, self.pos().index),
    {
        if self.index < self.input.len() {
            self.input[self.index]
        } else {
            '\0'
        }
    }

    /// The errors found so far.
    pub fn errors(&self) -> (r: &LexerErrorHandler)
        ensures
            r@ == self.pos().errors,
    {
        &self.errors
    }

    /// Reads one character.
    pub fn getc(&mut self)
        requires
            old(self).wf(),
        ensures
            final(self).wf(),
            final(self).ctx() == old(self).ctx(),
            final(self).pos() == (LexPos {
                index: advance(old(self).ctx().input, old(self).pos().index),
                ..old(self).pos()
            }),
    {
        if self.index < self.input.len() {
            self.index = self.index + 1;
        }
    }

    /// The current character is `\0`.
    pub fn is_eof(&self) -> (r: bool)
        requires
            self.wf(),
        ensures
            r == (at(self.ctx().input, self.pos().index) == '\0'),
    {
        self.current_char() == '\0'
    }

    /// `value` is one of `a`..`f`, of either case.
    pub fn is_hexadecimal_literal(&self, value: char) -> (r: bool)
        ensures
            r == is_hex_letter(value),
    {
        char_is_hex_letter(value)
    }

    /// Records an error at the current place; `false` (and nothing changed)
    /// where the source has no line with the current line number.
    fn error(&mut self, description: String) -> (ok: bool)
        requires
            old(self).wf(),
        ensures
            final(self).wf(),
            final(self).ctx() == old(self).ctx(),
            match lex_error(old(self).ctx(), old(self).pos(), description@) {
                Some(p) => ok && final(self).pos() == p,
                None => !ok && final(self).pos() == old(self).pos(),
            },
    {
        match nth_line(&self.input, self.line) {
            None => false,
            Some(text) => {
                let position = if self.index < self.input.len() {
                    self.index + 1
                } else {
                    self.input.len()
                };
                let ch = self.current_char();
                self.errors.attach(
                    LexerError::new(
                        self.filename.clone(),
                        description,
                        text,
                        self.line,
                        position,
                        ch,
                    ),
                );
                true
            },
        }
    }

    /// Reads a number literal from the current place: its value, or 0 after
    /// an error. `None` where reading it would panic.
    fn scan_integer(&mut self) -> (r: Option<i64>)
        requires
            old(self).wf(),
        ensures
            final(self).wf(),
            final(self).ctx() == old(self).ctx(),
            match number_scan(old(self).ctx(), old(self).pos(), seq![], 0) {
                Some((p, v)) => r == Some(v) && final(self).pos() == p && v >= 0,
                None => r is None,
            },
            r is Some ==> final(self).pos().index >= old(self).pos().index,
            r is Some && number_char(at(old(self).ctx().input, old(self).pos().index))
                ==> final(self).pos().index > old(self).pos().index,
    {
        let ghost c = self.ctx();
        let ghost total = number_scan(c, self.pos(), seq![], 0);
        let mut value: Vec<char> = Vec::new();
        let mut mode: u8 = 0;
        loop
            invariant
                self.wf(),
                self.ctx() == c,
                c == old(self).ctx(),
                total == number_scan(old(self).ctx(), old(self).pos(), seq![], 0),
                mode <= 2,
                number_scan(c, self.pos(), value@, mode as int) == total,
                self.index >= old(self).index,
            ensures
                self.wf(),
                self.ctx() == c,
                mode <= 2,
                number_scan(c, self.pos(), value@, mode as int) == total,
                !number_char(at(c.input, self.pos().index)),
                self.index >= old(self).index,
            decreases c.input.len() - self.pos().index,
        {
            let ch = self.current_char();
            if char_is_digit(ch) || ch == '_' || ch == 'x' || ch == 'b' || self.is_hexadecimal_literal(
                ch,
            ) {
                if ch == '0' {
                    self.getc();
                    let ch1 = self.current_char();
                    if ch1 == 'b' || ch1 == 'x' {
                        if mode != 0 || value.len() > 0 {
                            let ok = self.error(String::from_str(
                                "Unexpected binary/hexadecimal number found!",
                            ));
                            if ok {
                                return Some(0);
                            } else {
                                return None;
                            }
                        }
                        mode = if ch1 == 'b' {
                            1
                        } else {
                            2
                        };
                        self.getc();
                    } else {
                        value.push('0');
                    }
                } else {
                    if ch != '_' {
                        value.push(ch);
                    }
                    self.getc();
                }
            } else {
                break ;
            }
        }
        let (radix, message) = if mode == 1 {
            (2u32, "Error with parsing binary number!")
        } else if mode == 2 {
            (16u32, "Error with parsing hexadecimal number!")
        } else {
            (
                10u32,
                "Too big integer found! Max supported number is 64-bit integer: from −9,223,372,036,854,775,808 to 9,223,372,036,854,775,807",
            )
        };
        match parse_unsigned_radix(&value, radix) {
            Some(v) => Some(v),
            None => {
                if self.error(String::from_str(message)) {
                    Some(0)
                } else {
                    None
                }
            },
        }
    }

    /// Reads a number literal from the current place (see `scan_integer`).
    pub fn get_integer(&mut self) -> (r: i64)
        requires
            old(self).wf(),
            number_scan(old(self).ctx(), old(self).pos(), seq![], 0) is Some,
        ensures
            final(self).wf(),
            final(self).ctx() == old(self).ctx(),
            number_scan(old(self).ctx(), old(self).pos(), seq![], 0) == Some(
                (final(self).pos(), r),
            ),
    {
        match self.scan_integer() {
            Some(v) => v,
            None => 0,
        }
    }
}

impl Lexer {
    /// Reads an identifier from the current place. `None` where reading it
    /// would not finish.
    fn scan_identifier(&mut self) -> (r: Option<String>)
        requires
            old(self).wf(),
        ensures
            final(self).wf(),
            final(self).ctx() == old(self).ctx(),
            match ident_scan(old(self).ctx(), old(self).pos().index, seq![]) {
                Some((j, id)) => r is Some && r->0@ == id && final(self).pos() == (LexPos {
                    index: j,
                    ..old(self).pos()
                }) && j >= old(self).pos().index && !identifier_char(at(old(self).ctx().input, j)),
                None => r is None,
            },
    {
        let ghost c = self.ctx();
        let ghost total = ident_scan(c, self.pos().index, seq![]);
        let mut id = String::new();
        loop
            invariant
                self.wf(),
                self.ctx() == c,
                c == old(self).ctx(),
                total == ident_scan(old(self).ctx(), old(self).pos().index, seq![]),
                self.pos() == (LexPos { index: self.pos().index, ..old(self).pos() }),
                ident_scan(c, self.pos().index, id@) == total,
                self.index >= old(self).index,
            ensures
                self.index >= old(self).index,
                !identifier_char(at(c.input, self.pos().index)),
                self.wf(),
                self.ctx() == c,
                self.pos() == (LexPos { index: self.pos().index, ..old(self).pos() }),
                total == Some((self.pos().index, id@)),
            decreases c.input.len() - self.pos().index,
        {
            let ch = self.current_char();
            if char_is_alphanumeric(ch) || ch == '_' || ch == '-' {
                if self.index >= self.input.len() {
                    return None;
                }
                push_char(&mut id, ch);
                self.getc();
            } else {
                break ;
            }
        }
        Some(id)
    }

    /// Reads the text of a string literal from the current place up to the
    /// closing quote, leaving the quote current. `None` when no quote closes
    /// it.
    fn scan_string(&mut self) -> (r: Option<String>)
        requires
            old(self).wf(),
        ensures
            final(self).wf(),
            final(self).ctx() == old(self).ctx(),
            match string_scan(old(self).ctx(), old(self).pos().index, seq![]) {
                Some((j, text)) => r is Some && r->0@ == text && final(self).pos() == (LexPos {
                    index: j,
                    ..old(self).pos()
                }) && j >= old(self).pos().index,
                None => r is None,
            },
    {
        let ghost c = self.ctx();
        let ghost total = string_scan(c, self.pos().index, seq![]);
        let mut text = String::new();
        loop
            invariant
                self.wf(),
                self.ctx() == c,
                c == old(self).ctx(),
                total == string_scan(old(self).ctx(), old(self).pos().index, seq![]),
                self.pos() == (LexPos { index: self.pos().index, ..old(self).pos() }),
                string_scan(c, self.pos().index, text@) == total,
                self.index >= old(self).index,
            ensures
                self.index >= old(self).index,
                self.wf(),
                self.ctx() == c,
                self.pos() == (LexPos { index: self.pos().index, ..old(self).pos() }),
                total == Some((self.pos().index, text@)),
            decreases c.input.len() - self.pos().index,
        {
            if self.index >= self.input.len() {
                return None;
            }
            let ch = self.input[self.index];
            if ch == '"' {
                break ;
            }
            push_char(&mut text, ch);
            self.getc();
        }
        Some(text)
    }

    /// One step at a one-character symbol `ch` of kind `kind`.
    fn symbol_token(&mut self, kind: TokenType, ch: char) -> (r: Option<Token>)
        requires
            old(self).wf(),
            at(old(self).ctx().input, old(self).pos().index) == ch,
            ch != '\0',
        ensures
            final(self).wf(),
            final(self).ctx() == old(self).ctx(),
            match symbol_step(old(self).ctx(), old(self).pos(), kind, ch) {
                Some((p, t)) => r is Some && t == Some(r->0@) && final(self).pos() == p
                    && final(self).pos().index > old(self).pos().index,
                None => r is None,
            },
    {
        let line = self.line;
        self.getc();
        let next = self.current_char();
        match kind {
            TokenType::Quote => {
                match self.scan_string() {
                    None => None,
                    Some(text) => {
                        self.getc();
                        Some(Token::new(TokenType::String, text, line))
                    },
                }
            },
            TokenType::SingleQuote => {
                self.getc();
                if self.current_char() != '\'' {
                    if !self.error(String::from_str(
                        "Wrong char found! For strings use `str` type!",
                    )) {
                        return None;
                    }
                    self.getc();
                }
                self.getc();
                Some(Token::new(TokenType::Char, one_char_string(next), line))
            },
            TokenType::Equal => {
                if next == '=' {
                    self.getc();
                    Some(Token::new(TokenType::Eq, String::from_str("=="), line))
                } else {
                    Some(Token::new(kind, one_char_string(ch), line))
                }
            },
            TokenType::Lt => {
                if next == '<' {
                    self.getc();
                    Some(Token::new(TokenType::LShift, String::from_str("<<"), line))
                } else {
                    Some(Token::new(kind, one_char_string(ch), line))
                }
            },
            TokenType::Bt => {
                if next == '>' {
                    self.getc();
                    Some(Token::new(TokenType::RShift, String::from_str(">>"), line))
                } else {
                    Some(Token::new(kind, one_char_string(ch), line))
                }
            },
            TokenType::Not => {
                if next == '=' {
                    self.getc();
                    Some(Token::new(TokenType::Ne, String::from_str("!="), line))
                } else {
                    Some(Token::new(kind, one_char_string(ch), line))
                }
            },
            TokenType::Verbar => {
                if next == '|' {
                    self.getc();
                    Some(Token::new(TokenType::Or, String::from_str("||"), line))
                } else {
                    Some(Token::new(kind, one_char_string(ch), line))
                }
            },
            TokenType::Ampersand => {
                if next == '&' {
                    self.getc();
                    Some(Token::new(TokenType::And, String::from_str("&&"), line))
                } else if next == ' ' {
                    Some(Token::new(kind, one_char_string(ch), line))
                } else {
                    Some(Token::new(TokenType::Ref, String::from_str("&"), line))
                }
            },
            _ => Some(Token::new(kind, one_char_string(ch), line)),
        }
    }

    /// One pass of the main loop at a current character that is not `\0`:
    /// `None` where the lexer would not finish or would panic, otherwise
    /// the token read, if any.
    fn step(&mut self) -> (r: Option<Option<Token>>)
        requires
            old(self).wf(),
            at(old(self).ctx().input, old(self).pos().index) != '\0',
        ensures
            final(self).wf(),
            final(self).ctx() == old(self).ctx(),
            match lex_step(old(self).ctx(), old(self).pos()) {
                Some((p, t)) => r is Some && final(self).pos() == p && final(self).pos().index
                    > old(self).pos().index && match r->0 {
                    Some(tok) => t == Some(tok@),
                    None => t is None,
                },
                None => r is None,
            },
    {
        let ch = self.current_char();
        if ch == '\n' {
            self.getc();
            self.line = self.line + 1;
            Some(None)
        } else if char_is_white_space(ch) {
            self.getc();
            Some(None)
        } else if ch == '-' {
            self.getc();
            if char_is_digit(self.current_char()) {
                match self.scan_integer() {
                    None => None,
                    Some(v) => {
                        let text = i64_to_string(-v);
                        let line = self.line;
                        self.getc();
                        Some(Some(Token::new(TokenType::Number, text, line)))
                    },
                }
            } else {
                self.getc();
                Some(Some(Token::new(TokenType::Minus, String::from_str("-"), 0)))
            }
        } else if let Some(kind) = symbol_of(ch) {
            match self.symbol_token(kind, ch) {
                None => None,
                Some(t) => Some(Some(t)),
            }
        } else if char_is_digit(ch) {
            match self.scan_integer() {
                None => None,
                Some(v) => {
                    let text = i64_to_string(v);
                    Some(Some(Token::new(TokenType::Number, text, self.line)))
                },
            }
        } else if char_is_alphabetic(ch) {
            let line = self.line;
            proof {
                assert(alphabetic(ch));
            }
            let first_ok = char_is_alphanumeric(ch);
            match self.scan_identifier() {
                None => None,
                Some(id) => {
                    match word_of(id.as_str()) {
                        Some(k) => Some(Some(Token::new(k, id, 0))),
                        None => Some(Some(Token::new(TokenType::Identifier, id, line))),
                    }
                },
            }
        } else {
            let mut description = String::from_str("Undefined char found: ");
            push_char(&mut description, ch);
            assert(description@ =~= msg_undefined_char(ch));
            if self.error(description) {
                self.getc();
                Some(None)
            } else {
                None
            }
        }
    }
}

/// The token list holds the end token.
fn holds_eof(tokens: &Vec<Token>) -> (r: bool)
    ensures
        r == tokens_view(tokens@).contains(eof_token()),
{
    let mut i: usize = 0;
    while i < tokens.len()
        invariant
            i <= tokens.len(),
            forall|k: int| 0 <= k < i ==> tokens@[k]@ != eof_token(),
        decreases tokens.len() - i,
    {
        let t = &tokens[i];
        if t.token_type == TokenType::EOF && t.value.unicode_len() == 0 && t.line == 0 {
            assert(t@.value =~= Seq::<char>::empty());
            assert(t@ == eof_token());
            assert(tokens_view(tokens@)[i as int] == eof_token());
            return true;
        }
        assert(t@.value.len() != 0 ==> t@.value != Seq::<char>::empty());
        i = i + 1;
    }
    assert forall|k: int| 0 <= k < tokens_view(tokens@).len() implies tokens_view(tokens@)[k]
        != eof_token() by {
        assert(tokens_view(tokens@)[k] == tokens@[k]@);
    }
    false
}

impl Lexer {
    /// Lexes from the current place to the end. `None` where lexing would
    /// never finish (an unclosed string literal) or would panic;
    /// otherwise the tokens, ended by the end token, or the errors found.
    pub fn tokenize_checked(&mut self) -> (r: Option<Result<Vec<Token>, LexerErrorHandler>>)
        requires
            old(self).wf(),
        ensures
            final(self).wf(),
            final(self).ctx() == old(self).ctx(),
            match lex_outcome(old(self).ctx(), old(self).pos()) {
                None => r is None,
                Some((p, res)) => r is Some && final(self).pos() == p && match r->0 {
                    Ok(tokens) => res == Ok::<Seq<TokenView>, Seq<LexerErrorView>>(
                        tokens_view(tokens@),
                    ),
                    Err(errors) => res == Err::<Seq<TokenView>, Seq<LexerErrorView>>(errors@),
                },
            },
            match r {
                Some(Ok(tokens)) => {
                    &&& final(self).pos().errors.len() == 0
                    &&& tokens@.len() >= 1
                    &&& tokens_view(tokens@).last() == eof_token()
                    &&& no_end_token(tokens_view(tokens@).drop_last())
                },
                Some(Err(errors)) => errors@.len() > 0 && errors@ == final(self).pos().errors,
                None => true,
            },
    {
        let ghost c = self.ctx();
        let ghost total = lex_run(c, self.pos(), seq![]);
        proof {
            tokens_end_with_end_token(c, self.pos());
        }
        let mut output: Vec<Token> = Vec::new();
        assert(tokens_view(output@) =~= Seq::<TokenView>::empty());
        while !self.is_eof()
            invariant
                self.wf(),
                self.ctx() == c,
                c == old(self).ctx(),
                total == lex_run(old(self).ctx(), old(self).pos(), seq![]),
                lex_run(c, self.pos(), tokens_view(output@)) == total,
            decreases c.input.len() - self.pos().index,
        {
            let ghost before = self.pos();
            match self.step() {
                None => {
                    return None;
                },
                Some(t) => {
                    match t {
                        Some(tok) => {
                            let ghost old_out = output@;
                            output.push(tok);
                            assert(tokens_view(output@) =~= tokens_view(old_out).push(tok@));
                        },
                        None => {},
                    }
                },
            }
        }
        let eof = holds_eof(&output);
        if !eof {
            let ghost old_out = output@;
            output.push(Token::new(TokenType::EOF, String::new(), 0));
            assert(tokens_view(output@) =~= tokens_view(old_out).push(eof_token()));
        }
        if !self.errors.is_empty() {
            return Some(Err(self.errors.duplicate()));
        }
        Some(Ok(output))
    }

    /// Lexes from the current place to the end: the tokens, ended by the
    /// end token, or the errors found.
    pub fn tokenize(&mut self) -> (r: Result<Vec<Token>, LexerErrorHandler>)
        requires
            old(self).wf(),
            lex_outcome(old(self).ctx(), old(self).pos()) is Some,
        ensures
            final(self).wf(),
            final(self).ctx() == old(self).ctx(),
            match lex_outcome(old(self).ctx(), old(self).pos()) {
                None => false,
                Some((p, res)) => final(self).pos() == p && match r {
                    Ok(tokens) => res == Ok::<Seq<TokenView>, Seq<LexerErrorView>>(
                        tokens_view(tokens@),
                    ),
                    Err(errors) => res == Err::<Seq<TokenView>, Seq<LexerErrorView>>(errors@),
                },
            },
            (r is Ok) <==> final(self).pos().errors.len() == 0,
            match r {
                Ok(tokens) => {
                    &&& tokens@.len() >= 1
                    &&& tokens_view(tokens@).last() == eof_token()
                    &&& no_end_token(tokens_view(tokens@).drop_last())
                },
                Err(errors) => errors@.len() > 0 && errors@ == final(self).pos().errors,
            },
    {
        let ghost c = self.ctx();
        let ghost p = self.pos();
        proof {
            tokens_end_with_end_token(c, p);
        }
        match self.tokenize_checked() {
            Some(res) => res,
            None => Err(LexerErrorHandler::new()),
        }
    }
}

} // verus!
