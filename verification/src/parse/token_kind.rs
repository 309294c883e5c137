//! The kinds of tokens the token stream of the parser produces, and how
//! messages name them.

use vstd::prelude::*;

verus! {

/// A kind of token. `Dummy` stands for no token: the parser starts with it
/// as its current token.
#[derive(Debug, Clone, Copy, PartialEq, Eq, Structural)]
pub enum TokenKind {
    Whitespace,
    Int,
    Boolean,
    Identifer,
    IntType,
    BooleanType,
    LeftParenthesis,
    RightParenthesis,
    LeftCurlyBrace,
    RightCurlyBrace,
    LeftAngleBracket,
    RightAngleBracket,
    Plus,
    Minus,
    Star,
    Slash,
    Percent,
    Equal,
    ColonEqual,
    ExclamationEqual,
    LessThanEqual,
    GreaterThanEqual,
    Period,
    Comma,
    Colon,
    SemiColon,
    ColonColon,
    Not,
    Or,
    And,
    Let,
    If,
    Then,
    Else,
    While,
    Define,
    Return,
    EndOfFile,
    Dummy,
}

impl TokenKind {
    /// How messages name the kind; `Dummy` has no name.
    pub open spec fn text(self) -> Seq<char> {
        match self {
            TokenKind::Whitespace => "a whitespace"@,
            TokenKind::Int => "an integer"@,
            TokenKind::Boolean => "a boolean"@,
            TokenKind::Identifer => "an identifier"@,
            TokenKind::IntType => "the integer type"@,
            TokenKind::BooleanType => "the boolean type"@,
            TokenKind::LeftParenthesis => "a left parenthesis"@,
            TokenKind::RightParenthesis => "a right parenthesis"@,
            TokenKind::LeftCurlyBrace => "a left curly bracket"@,
            TokenKind::RightCurlyBrace => "a right curly bracket"@,
            TokenKind::LeftAngleBracket => "a left angle bracket"@,
            TokenKind::RightAngleBracket => "a right curly bracket"@,
            TokenKind::Plus => "a plus sign"@,
            TokenKind::Minus => "a minus sign"@,
            TokenKind::Star => "a star sign"@,
            TokenKind::Slash => "a slash sign"@,
            TokenKind::Percent => "a percentage sign"@,
            TokenKind::Equal => "an equal sign"@,
            TokenKind::ColonEqual => "a colon equal sign"@,
            TokenKind::ExclamationEqual => "an exclamation equal sign"@,
            TokenKind::LessThanEqual => "a less than equal sign"@,
            TokenKind::GreaterThanEqual => "a greater than equal sign"@,
            TokenKind::Period => "a period"@,
            TokenKind::Comma => "a comma"@,
            TokenKind::Colon => "a colon"@,
            TokenKind::SemiColon => "a semi-colon"@,
            TokenKind::ColonColon => "a double colon sign"@,
            TokenKind::Not => "the not keyword"@,
            TokenKind::Or => "the or keyword"@,
            TokenKind::And => "the and keyword"@,
            TokenKind::Let => "the let keyword"@,
            TokenKind::If => "the if keyword"@,
            TokenKind::Then => "the then keyword"@,
            TokenKind::Else => "the else keyword"@,
            TokenKind::While => "the while keyword"@,
            TokenKind::Define => "the define keyword"@,
            TokenKind::Return => "the return keyword"@,
            TokenKind::EndOfFile => "the end of the file"@,
            TokenKind::Dummy => Seq::empty(),
        }
    }

    /// How messages name the kind (what `Display` writes). `Dummy` is never
    /// shown.
    pub fn description(&self) -> (res: &'static str)
        requires
            !(*self is Dummy),
        ensures
            res@ == self.text(),
    {
        match self {
            TokenKind::Whitespace => "a whitespace",
            TokenKind::Int => "an integer",
            TokenKind::Boolean => "a boolean",
            TokenKind::Identifer => "an identifier",
            TokenKind::IntType => "the integer type",
            TokenKind::BooleanType => "the boolean type",
            TokenKind::LeftParenthesis => "a left parenthesis",
            TokenKind::RightParenthesis => "a right parenthesis",
            TokenKind::LeftCurlyBrace => "a left curly bracket",
            TokenKind::RightCurlyBrace => "a right curly bracket",
            TokenKind::LeftAngleBracket => "a left angle bracket",
            TokenKind::RightAngleBracket => "a right curly bracket",
            TokenKind::Plus => "a plus sign",
            TokenKind::Minus => "a minus sign",
            TokenKind::Star => "a star sign",
            TokenKind::Slash => "a slash sign",
            TokenKind::Percent => "a percentage sign",
            TokenKind::Equal => "an equal sign",
            TokenKind::ColonEqual => "a colon equal sign",
            TokenKind::ExclamationEqual => "an exclamation equal sign",
            TokenKind::LessThanEqual => "a less than equal sign",
            TokenKind::GreaterThanEqual => "a greater than equal sign",
            TokenKind::Period => "a period",
            TokenKind::Comma => "a comma",
            TokenKind::Colon => "a colon",
            TokenKind::SemiColon => "a semi-colon",
            TokenKind::ColonColon => "a double colon sign",
            TokenKind::Not => "the not keyword",
            TokenKind::Or => "the or keyword",
            TokenKind::And => "the and keyword",
            TokenKind::Let => "the let keyword",
            TokenKind::If => "the if keyword",
            TokenKind::Then => "the then keyword",
            TokenKind::Else => "the else keyword",
            TokenKind::While => "the while keyword",
            TokenKind::Define => "the define keyword",
            TokenKind::Return => "the return keyword",
            TokenKind::EndOfFile => "the end of the file",
            TokenKind::Dummy => "",
        }
    }
}

} // verus!
