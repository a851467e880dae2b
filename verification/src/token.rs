//! The token model: an exhaustive enumeration of the lexical categories.

use vstd::prelude::*;

verus! {

/// One classified unit of lexical input.
///
/// Numeric literals carry their lexeme text (a run of decimal digits with at
/// most one decimal point) rather than a parsed machine number, so that the
/// token is an exact image of the input.  Tokens carry no position
/// information.
#[derive(Debug, PartialEq)]
pub enum Token {
    // structural keywords for data definition
    Table,
    Create,
    Drop,
    // structural keywords for data manipulation
    Insert,
    Select,
    Update,
    Delete,
    Into,
    From,
    Where,
    SetKw,
    Values,
    // punctuation
    Equal,
    Semicolon,
    Comma,
    LeftParen,
    RightParen,
    Asterisk,
    // literals
    Identifier(String),
    StringLiteral(String),
    NumericLiteral(String),
    // sentinels
    EOF,
    Unknown(char),
}

/// The mathematical image of a `Token`: text is a sequence of characters.
#[verifier::ext_equal]
pub ghost enum TokenV {
    Table,
    Create,
    Drop,
    Insert,
    Select,
    Update,
    Delete,
    Into,
    From,
    Where,
    SetKw,
    Values,
    Equal,
    Semicolon,
    Comma,
    LeftParen,
    RightParen,
    Asterisk,
    Identifier(Seq<char>),
    StringLiteral(Seq<char>),
    NumericLiteral(Seq<char>),
    EOF,
    Unknown(char),
}

impl View for Token {
    type V = TokenV;

    open spec fn view(&self) -> TokenV {
        match self {
            Token::Table => TokenV::Table,
            Token::Create => TokenV::Create,
            Token::Drop => TokenV::Drop,
            Token::Insert => TokenV::Insert,
            Token::Select => TokenV::Select,
            Token::Update => TokenV::Update,
            Token::Delete => TokenV::Delete,
            Token::Into => TokenV::Into,
            Token::From => TokenV::From,
            Token::Where => TokenV::Where,
            Token::SetKw => TokenV::SetKw,
            Token::Values => TokenV::Values,
            Token::Equal => TokenV::Equal,
            Token::Semicolon => TokenV::Semicolon,
            Token::Comma => TokenV::Comma,
            Token::LeftParen => TokenV::LeftParen,
            Token::RightParen => TokenV::RightParen,
            Token::Asterisk => TokenV::Asterisk,
            Token::Identifier(s) => TokenV::Identifier(s@),
            Token::StringLiteral(s) => TokenV::StringLiteral(s@),
            Token::NumericLiteral(s) => TokenV::NumericLiteral(s@),
            Token::EOF => TokenV::EOF,
            Token::Unknown(c) => TokenV::Unknown(*c),
        }
    }
}

impl DeepView for Token {
    type V = TokenV;

    open spec fn deep_view(&self) -> TokenV {
        self.view()
    }
}

impl Clone for Token {
    fn clone(&self) -> (res: Self)
        ensures
            res@ == self@,
    {
        match self {
            Token::Table => Token::Table,
            Token::Create => Token::Create,
            Token::Drop => Token::Drop,
            Token::Insert => Token::Insert,
            Token::Select => Token::Select,
            Token::Update => Token::Update,
            Token::Delete => Token::Delete,
            Token::Into => Token::Into,
            Token::From => Token::From,
            Token::Where => Token::Where,
            Token::SetKw => Token::SetKw,
            Token::Values => Token::Values,
            Token::Equal => Token::Equal,
            Token::Semicolon => Token::Semicolon,
            Token::Comma => Token::Comma,
            Token::LeftParen => Token::LeftParen,
            Token::RightParen => Token::RightParen,
            Token::Asterisk => Token::Asterisk,
            Token::Identifier(s) => Token::Identifier(s.clone()),
            Token::StringLiteral(s) => Token::StringLiteral(s.clone()),
            Token::NumericLiteral(s) => Token::NumericLiteral(s.clone()),
            Token::EOF => Token::EOF,
            Token::Unknown(c) => Token::Unknown(*c),
        }
    }
}

impl Token {
    /// Whether this token is the end-of-input sentinel.
    pub fn is_eof(&self) -> (r: bool)
        ensures
            r == (self@ == TokenV::EOF),
    {
        matches!(self, Token::EOF)
    }
}

} // verus!
