//! Tokens: a kind, with the value of a literal or the symbol of a name,
//! and the snippet of source it was read from.

use vstd::prelude::*;

use crate::context::symbol_interner::SymbolId;
use crate::source::snippet::Snippet;

verus! {

/// A token and the snippet it covers.
#[derive(Debug, Clone, Copy, PartialEq, Eq, Structural)]
pub struct Token {
    pub snippet: Snippet,
    pub kind: TokenKind,
}

impl Token {
    /// The token of kind `kind` over `snippet`.
    pub fn new(snippet: Snippet, kind: TokenKind) -> (res: Self)
        ensures
            res == (Token { snippet, kind }),
    {
        Self { snippet, kind }
    }
}

/// The kinds of tokens.
#[derive(Debug, Clone, Copy, PartialEq, Eq, Structural)]
pub enum TokenKind {
    EndOfFile,
    Int(i64),
    Boolean(bool),
    Identifer(SymbolId),
    LeftParenthesis,
    RightParenthesis,
    LeftCurlyBrace,
    RightCurlyBrace,
    LeftAngleBracket,
    RightAngleBracket,
    Plus,
    Minus,
    Star,
    Slash,
    Percent,
    Equal,
    ColonEqual,
    ExclamationEqual,
    LessThanEqual,
    GreaterThanEqual,
    Comma,
    Colon,
    SemiColon,
    ColonColon,
    Not,
    Or,
    And,
    Let,
    If,
    Then,
    Else,
    While,
    Define,
    Return,
}

impl TokenKind {
    /// How messages name the kind.
    pub open spec fn text(self) -> Seq<char> {
        match self {
            TokenKind::EndOfFile => "end of file"@,
            TokenKind::Int(_) => "int"@,
            TokenKind::Boolean(_) => "boolean"@,
            TokenKind::Identifer(_) => "identifier"@,
            TokenKind::LeftParenthesis => "left parenthesis"@,
            TokenKind::RightParenthesis => "right parenthesis"@,
            TokenKind::LeftCurlyBrace => "left curly bracket"@,
            TokenKind::RightCurlyBrace => "right curly bracket"@,
            TokenKind::LeftAngleBracket => "left angle bracket"@,
            TokenKind::RightAngleBracket => "right curly bracket"@,
            TokenKind::Plus => "plus sign"@,
            TokenKind::Minus => "minus sign"@,
            TokenKind::Star => "star sign"@,
            TokenKind::Slash => "slash sign"@,
            TokenKind::Percent => "percentage sign"@,
            TokenKind::Equal => "equal sign"@,
            TokenKind::ColonEqual => "colon equal sign"@,
            TokenKind::ExclamationEqual => "exclamation equal sign"@,
            TokenKind::LessThanEqual => "less than equal sign"@,
            TokenKind::GreaterThanEqual => "greater than equal sign"@,
            TokenKind::Comma => "comma"@,
            TokenKind::Colon => "colon"@,
            TokenKind::SemiColon => "semi-colon"@,
            TokenKind::ColonColon => "double colon sign"@,
            TokenKind::Not => "not keyword"@,
            TokenKind::Or => "or keyword"@,
            TokenKind::And => "and keyword"@,
            TokenKind::Let => "let keyword"@,
            TokenKind::If => "if keyword"@,
            TokenKind::Then => "then keyword"@,
            TokenKind::Else => "else keyword"@,
            TokenKind::While => "while keyword"@,
            TokenKind::Define => "define keyword"@,
            TokenKind::Return => "return keyword"@,
        }
    }

    /// How messages name the kind (what `Display` writes).
    pub fn description(&self) -> (res: &'static str)
        ensures
            res@ == self.text(),
    {
        match self {
            TokenKind::EndOfFile => "end of file",
            TokenKind::Int(_) => "int",
            TokenKind::Boolean(_) => "boolean",
            TokenKind::Identifer(_) => "identifier",
            TokenKind::LeftParenthesis => "left parenthesis",
            TokenKind::RightParenthesis => "right parenthesis",
            TokenKind::LeftCurlyBrace => "left curly bracket",
            TokenKind::RightCurlyBrace => "right curly bracket",
            TokenKind::LeftAngleBracket => "left angle bracket",
            TokenKind::RightAngleBracket => "right curly bracket",
            TokenKind::Plus => "plus sign",
            TokenKind::Minus => "minus sign",
            TokenKind::Star => "star sign",
            TokenKind::Slash => "slash sign",
            TokenKind::Percent => "percentage sign",
            TokenKind::Equal => "equal sign",
            TokenKind::ColonEqual => "colon equal sign",
            TokenKind::ExclamationEqual => "exclamation equal sign",
            TokenKind::LessThanEqual => "less than equal sign",
            TokenKind::GreaterThanEqual => "greater than equal sign",
            TokenKind::Comma => "comma",
            TokenKind::Colon => "colon",
            TokenKind::SemiColon => "semi-colon",
            TokenKind::ColonColon => "double colon sign",
            TokenKind::Not => "not keyword",
            TokenKind::Or => "or keyword",
            TokenKind::And => "and keyword",
            TokenKind::Let => "let keyword",
            TokenKind::If => "if keyword",
            TokenKind::Then => "then keyword",
            TokenKind::Else => "else keyword",
            TokenKind::While => "while keyword",
            TokenKind::Define => "define keyword",
            TokenKind::Return => "return keyword",
        }
    }
}

} // verus!
