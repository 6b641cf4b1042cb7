//! Tokens, their positions, and the mathematical values they stand for.
use vstd::prelude::*;

verus! {

/// One lexical unit of the language.
#[derive(Debug, PartialEq)]
pub enum Token {
    /// A name that is not a reserved word.
    Ident(String),
    /// An integer literal, as written (underscores kept).
    Int(String),
    /// A literal with one decimal point, as written.
    Float(String),
    /// The text between the quotes of a string literal; nothing is unescaped.
    Str(String),
    Dot,
    Comma,
    LParen,
    RParen,
    LBrace,
    RBrace,
    LBracket,
    RBracket,
    Assign,
    Colon,
    Semicolon,
    Less,
    And,
    Or,
    Plus,
    Minus,
    Star,
    Slash,
    Tilda,
    Le,
    Greater,
    Ge,
    Equal,
    NotEqual,
    RArrow,
    KwMethod,
    KwGiven,
    KwWhen,
    KwDefault,
    KwTrue,
    KwFalse,
    /// A lexical failure; the message starts with `line:column: `.
    Error(String),
    /// The end of the input.
    Eof,
}

/// What a token stands for: its text payload as a sequence of characters.
/// Tokens without text stand for themselves.
pub ghost enum TokenView {
    Ident(Seq<char>),
    Int(Seq<char>),
    Float(Seq<char>),
    Str(Seq<char>),
    Error(Seq<char>),
    Plain(Token),
}

impl View for Token {
    type V = TokenView;

    open spec fn view(&self) -> TokenView {
        match self {
            Token::Ident(s) => TokenView::Ident(s@),
            Token::Int(s) => TokenView::Int(s@),
            Token::Float(s) => TokenView::Float(s@),
            Token::Str(s) => TokenView::Str(s@),
            Token::Error(s) => TokenView::Error(s@),
            _ => TokenView::Plain(*self),
        }
    }
}

/// A token with the position of its first character; line and column count
/// from 1.
#[derive(Debug, PartialEq)]
pub struct TokenAt {
    pub token: Token,
    pub line: usize,
    pub col: usize,
}

/// The value of a [`TokenAt`].
pub ghost struct TokenAtView {
    pub token: TokenView,
    pub line: nat,
    pub col: nat,
}

impl View for TokenAt {
    type V = TokenAtView;

    open spec fn view(&self) -> TokenAtView {
        TokenAtView { token: self.token@, line: self.line as nat, col: self.col as nat }
    }
}

} // verus!
