//! Tokens: what the lexer hands to the parser.

use vstd::prelude::*;

verus! {

/// The kind of a token.
#[derive(Debug, Eq, PartialEq, Clone, Copy, Structural)]
pub enum TokenType {
    Identifier,
    Number,
    String,
    Boolean,
    Char,
    Equal,
    Plus,
    Minus,
    Multiply,
    Divide,
    Not,
    Xor,
    Lt,
    Bt,
    Eq,
    Ne,
    LShift,
    RShift,
    Or,
    And,
    Ampersand,
    Verbar,
    Ref,
    Semicolon,
    Dot,
    Comma,
    Quote,
    SingleQuote,
    LParen,
    RParen,
    LBrace,
    RBrace,
    LBrack,
    RBrack,
    Function,
    Keyword,
    EOF,
}

/// The variant's name.
pub open spec fn kind_name(t: TokenType) -> Seq<char> {
    match t {
        TokenType::Identifier => "Identifier"@,
        TokenType::Number => "Number"@,
        TokenType::String => "String"@,
        TokenType::Boolean => "Boolean"@,
        TokenType::Char => "Char"@,
        TokenType::Equal => "Equal"@,
        TokenType::Plus => "Plus"@,
        TokenType::Minus => "Minus"@,
        TokenType::Multiply => "Multiply"@,
        TokenType::Divide => "Divide"@,
        TokenType::Not => "Not"@,
        TokenType::Xor => "Xor"@,
        TokenType::Lt => "Lt"@,
        TokenType::Bt => "Bt"@,
        TokenType::Eq => "Eq"@,
        TokenType::Ne => "Ne"@,
        TokenType::LShift => "LShift"@,
        TokenType::RShift => "RShift"@,
        TokenType::Or => "Or"@,
        TokenType::And => "And"@,
        TokenType::Ampersand => "Ampersand"@,
        TokenType::Verbar => "Verbar"@,
        TokenType::Ref => "Ref"@,
        TokenType::Semicolon => "Semicolon"@,
        TokenType::Dot => "Dot"@,
        TokenType::Comma => "Comma"@,
        TokenType::Quote => "Quote"@,
        TokenType::SingleQuote => "SingleQuote"@,
        TokenType::LParen => "LParen"@,
        TokenType::RParen => "RParen"@,
        TokenType::LBrace => "LBrace"@,
        TokenType::RBrace => "RBrace"@,
        TokenType::LBrack => "LBrack"@,
        TokenType::RBrack => "RBrack"@,
        TokenType::Function => "Function"@,
        TokenType::Keyword => "Keyword"@,
        TokenType::EOF => "EOF"@,
    }
}

impl TokenType {
    /// The variant's name, as `{:?}` (and so `{}`) prints it.
    pub fn name(&self) -> (r: &'static str)
        ensures
            r@ == kind_name(*self),
    {
        match self {
            TokenType::Identifier => "Identifier",
            TokenType::Number => "Number",
            TokenType::String => "String",
            TokenType::Boolean => "Boolean",
            TokenType::Char => "Char",
            TokenType::Equal => "Equal",
            TokenType::Plus => "Plus",
            TokenType::Minus => "Minus",
            TokenType::Multiply => "Multiply",
            TokenType::Divide => "Divide",
            TokenType::Not => "Not",
            TokenType::Xor => "Xor",
            TokenType::Lt => "Lt",
            TokenType::Bt => "Bt",
            TokenType::Eq => "Eq",
            TokenType::Ne => "Ne",
            TokenType::LShift => "LShift",
            TokenType::RShift => "RShift",
            TokenType::Or => "Or",
            TokenType::And => "And",
            TokenType::Ampersand => "Ampersand",
            TokenType::Verbar => "Verbar",
            TokenType::Ref => "Ref",
            TokenType::Semicolon => "Semicolon",
            TokenType::Dot => "Dot",
            TokenType::Comma => "Comma",
            TokenType::Quote => "Quote",
            TokenType::SingleQuote => "SingleQuote",
            TokenType::LParen => "LParen",
            TokenType::RParen => "RParen",
            TokenType::LBrace => "LBrace",
            TokenType::RBrace => "RBrace",
            TokenType::LBrack => "LBrack",
            TokenType::RBrack => "RBrack",
            TokenType::Function => "Function",
            TokenType::Keyword => "Keyword",
            TokenType::EOF => "EOF",
        }
    }
}

/// A token: its kind, its text and the source line it was read on.
#[derive(Debug, Clone, Eq, PartialEq)]
pub struct Token {
    pub value: String,
    pub token_type: TokenType,
    pub line: usize,
}

/// The mathematical content of a token.
pub struct TokenView {
    pub token_type: TokenType,
    pub value: Seq<char>,
    pub line: usize,
}

/// Builds the view of a token from its parts.
pub open spec fn token_view(token_type: TokenType, value: Seq<char>, line: usize) -> TokenView {
    TokenView { token_type, value, line }
}

impl View for Token {
    type V = TokenView;

    open spec fn view(&self) -> TokenView {
        TokenView { token_type: self.token_type, value: self.value@, line: self.line }
    }
}

/// The views of a sequence of tokens.
pub open spec fn tokens_view(tokens: Seq<Token>) -> Seq<TokenView> {
    tokens.map_values(|t: Token| t@)
}

impl Token {
    pub fn new(token_type: TokenType, value: String, line: usize) -> (r: Self)
        ensures
            r@ == token_view(token_type, value@, line),
    {
        Token { value, token_type, line }
    }

    /// A copy of the token, equal to it.
    pub fn duplicate(&self) -> (r: Self)
        ensures
            r == *self,
            r@ == self@,
    {
        Token { value: self.value.clone(), token_type: self.token_type, line: self.line }
    }
}

} // verus!
