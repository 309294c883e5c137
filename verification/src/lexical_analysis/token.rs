//! The tokens of the byte lexer.

use vstd::prelude::*;

use crate::lexical_analysis::span::Span;

verus! {

/// A token: its span and its kind.
pub type Token = (Span, TokenKind);

/// The kinds of tokens, with the values of literals and the names of
/// identifiers.
#[derive(Debug)]
pub enum TokenKind {
    Whitespace,
    Void,
    Any,
    Int,
    Float,
    Boolean,
    String,
    IntegerLiteral(i64),
    /// A float literal, held as the two integers it is written with: its
    /// value is the number written `whole.decimals`.
    FloatLiteral { whole: i64, decimals: i64 },
    BooleanLiteral(bool),
    StringLiteral(String),
    Identifier(String),
    LeftParenthesis,
    RightParenthesis,
    LeftCurlyBrace,
    RightCurlyBrace,
    LeftAngleBracket,
    RightAngleBracket,
    Plus,
    Minus,
    Star,
    Slash,
    PercentSign,
    EqualSign,
    ColonEqualSign,
    ExclamationEqualSign,
    LessThanEqualSign,
    GreaterThanEqualSign,
    Comma,
    Colon,
    ColonColon,
    Not,
    Or,
    And,
    Let,
    If,
    Then,
    Else,
    While,
    Define,
}

/// A token kind with the texts it holds as sequences of characters.
pub enum KindView {
    Whitespace,
    Void,
    Any,
    Int,
    Float,
    Boolean,
    String,
    IntegerLiteral(i64),
    FloatLiteral { whole: i64, decimals: i64 },
    BooleanLiteral(bool),
    StringLiteral(Seq<char>),
    Identifier(Seq<char>),
    LeftParenthesis,
    RightParenthesis,
    LeftCurlyBrace,
    RightCurlyBrace,
    LeftAngleBracket,
    RightAngleBracket,
    Plus,
    Minus,
    Star,
    Slash,
    PercentSign,
    EqualSign,
    ColonEqualSign,
    ExclamationEqualSign,
    LessThanEqualSign,
    GreaterThanEqualSign,
    Comma,
    Colon,
    ColonColon,
    Not,
    Or,
    And,
    Let,
    If,
    Then,
    Else,
    While,
    Define,
}

impl View for TokenKind {
    type V = KindView;

    open spec fn view(&self) -> KindView {
        match self {
            TokenKind::Whitespace => KindView::Whitespace,
            TokenKind::Void => KindView::Void,
            TokenKind::Any => KindView::Any,
            TokenKind::Int => KindView::Int,
            TokenKind::Float => KindView::Float,
            TokenKind::Boolean => KindView::Boolean,
            TokenKind::String => KindView::String,
            TokenKind::IntegerLiteral(v) => KindView::IntegerLiteral(*v),
            TokenKind::FloatLiteral { whole, decimals } => KindView::FloatLiteral { whole: *whole, decimals: *decimals },
            TokenKind::BooleanLiteral(b) => KindView::BooleanLiteral(*b),
            TokenKind::StringLiteral(s) => KindView::StringLiteral(s@),
            TokenKind::Identifier(s) => KindView::Identifier(s@),
            TokenKind::LeftParenthesis => KindView::LeftParenthesis,
            TokenKind::RightParenthesis => KindView::RightParenthesis,
            TokenKind::LeftCurlyBrace => KindView::LeftCurlyBrace,
            TokenKind::RightCurlyBrace => KindView::RightCurlyBrace,
            TokenKind::LeftAngleBracket => KindView::LeftAngleBracket,
            TokenKind::RightAngleBracket => KindView::RightAngleBracket,
            TokenKind::Plus => KindView::Plus,
            TokenKind::Minus => KindView::Minus,
            TokenKind::Star => KindView::Star,
            TokenKind::Slash => KindView::Slash,
            TokenKind::PercentSign => KindView::PercentSign,
            TokenKind::EqualSign => KindView::EqualSign,
            TokenKind::ColonEqualSign => KindView::ColonEqualSign,
            TokenKind::ExclamationEqualSign => KindView::ExclamationEqualSign,
            TokenKind::LessThanEqualSign => KindView::LessThanEqualSign,
            TokenKind::GreaterThanEqualSign => KindView::GreaterThanEqualSign,
            TokenKind::Comma => KindView::Comma,
            TokenKind::Colon => KindView::Colon,
            TokenKind::ColonColon => KindView::ColonColon,
            TokenKind::Not => KindView::Not,
            TokenKind::Or => KindView::Or,
            TokenKind::And => KindView::And,
            TokenKind::Let => KindView::Let,
            TokenKind::If => KindView::If,
            TokenKind::Then => KindView::Then,
            TokenKind::Else => KindView::Else,
            TokenKind::While => KindView::While,
            TokenKind::Define => KindView::Define,
        }
    }
}


impl TokenKind {
    /// How the kind of token is named in messages.
    pub open spec fn name(&self) -> Seq<char> {
        match self {
            TokenKind::Whitespace => "A Whitespace"@,
            TokenKind::Void => "The Void Type"@,
            TokenKind::Any => "The Any Type"@,
            TokenKind::Int => "The Int Type"@,
            TokenKind::Float => "The Float Type"@,
            TokenKind::Boolean => "The Boolean Type"@,
            TokenKind::String => "The String Type"@,
            TokenKind::IntegerLiteral(_) => "An Int"@,
            TokenKind::FloatLiteral { .. } => "A Float"@,
            TokenKind::BooleanLiteral(_) => "A Boolean"@,
            TokenKind::StringLiteral(_) => "A String"@,
            TokenKind::Identifier(_) => "An Identifier"@,
            TokenKind::LeftParenthesis => "A Left Parenthesis"@,
            TokenKind::RightParenthesis => "A Right Parenthesis"@,
            TokenKind::LeftCurlyBrace => "A Left Curly Brace"@,
            TokenKind::RightCurlyBrace => "A Right Curly Brace"@,
            TokenKind::LeftAngleBracket => "A Left Angle Bracket"@,
            TokenKind::RightAngleBracket => "A Right Angle Bracket"@,
            TokenKind::Plus => "A Plus Sign"@,
            TokenKind::Minus => "A Minus Sign"@,
            TokenKind::Star => "A Star"@,
            TokenKind::Slash => "A Slash"@,
            TokenKind::PercentSign => "A Percent Sign"@,
            TokenKind::EqualSign => "An Equal Sign"@,
            TokenKind::ColonEqualSign => "A Colon Equal Sign"@,
            TokenKind::ExclamationEqualSign => "An Exclamation Equal Sign"@,
            TokenKind::LessThanEqualSign => "A Less Than Equal Sign"@,
            TokenKind::GreaterThanEqualSign => "A Greater Than Equal Sign"@,
            TokenKind::Comma => "A Comma"@,
            TokenKind::Colon => "A Colon"@,
            TokenKind::ColonColon => "A Double Colon"@,
            TokenKind::Not => "The Not Keyword"@,
            TokenKind::Or => "The Or Keyword"@,
            TokenKind::And => "The And Keyword"@,
            TokenKind::Let => "The Let Keyword"@,
            TokenKind::If => "The If Keyword"@,
            TokenKind::Then => "The Then Keyword"@,
            TokenKind::Else => "The Else Keyword"@,
            TokenKind::While => "The While Keyword"@,
            TokenKind::Define => "The Define Keyword"@,
        }
    }

    /// How the kind of token is named in messages.
    pub fn get_name(&self) -> (res: String)
        ensures
            res@ == self.name(),
    {
        match self {
            TokenKind::Whitespace => "A Whitespace".to_owned(),
            TokenKind::Void => "The Void Type".to_owned(),
            TokenKind::Any => "The Any Type".to_owned(),
            TokenKind::Int => "The Int Type".to_owned(),
            TokenKind::Float => "The Float Type".to_owned(),
            TokenKind::Boolean => "The Boolean Type".to_owned(),
            TokenKind::String => "The String Type".to_owned(),
            TokenKind::IntegerLiteral(_) => "An Int".to_owned(),
            TokenKind::FloatLiteral { .. } => "A Float".to_owned(),
            TokenKind::BooleanLiteral(_) => "A Boolean".to_owned(),
            TokenKind::StringLiteral(_) => "A String".to_owned(),
            TokenKind::Identifier(_) => "An Identifier".to_owned(),
            TokenKind::LeftParenthesis => "A Left Parenthesis".to_owned(),
            TokenKind::RightParenthesis => "A Right Parenthesis".to_owned(),
            TokenKind::LeftCurlyBrace => "A Left Curly Brace".to_owned(),
            TokenKind::RightCurlyBrace => "A Right Curly Brace".to_owned(),
            TokenKind::LeftAngleBracket => "A Left Angle Bracket".to_owned(),
            TokenKind::RightAngleBracket => "A Right Angle Bracket".to_owned(),
            TokenKind::Plus => "A Plus Sign".to_owned(),
            TokenKind::Minus => "A Minus Sign".to_owned(),
            TokenKind::Star => "A Star".to_owned(),
            TokenKind::Slash => "A Slash".to_owned(),
            TokenKind::PercentSign => "A Percent Sign".to_owned(),
            TokenKind::EqualSign => "An Equal Sign".to_owned(),
            TokenKind::ColonEqualSign => "A Colon Equal Sign".to_owned(),
            TokenKind::ExclamationEqualSign => "An Exclamation Equal Sign".to_owned(),
            TokenKind::LessThanEqualSign => "A Less Than Equal Sign".to_owned(),
            TokenKind::GreaterThanEqualSign => "A Greater Than Equal Sign".to_owned(),
            TokenKind::Comma => "A Comma".to_owned(),
            TokenKind::Colon => "A Colon".to_owned(),
            TokenKind::ColonColon => "A Double Colon".to_owned(),
            TokenKind::Not => "The Not Keyword".to_owned(),
            TokenKind::Or => "The Or Keyword".to_owned(),
            TokenKind::And => "The And Keyword".to_owned(),
            TokenKind::Let => "The Let Keyword".to_owned(),
            TokenKind::If => "The If Keyword".to_owned(),
            TokenKind::Then => "The Then Keyword".to_owned(),
            TokenKind::Else => "The Else Keyword".to_owned(),
            TokenKind::While => "The While Keyword".to_owned(),
            TokenKind::Define => "The Define Keyword".to_owned(),
        }
    }
}

} // verus!
