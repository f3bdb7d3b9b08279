//! Tokens of the scanned language, and their spec-level model.

use vstd::prelude::*;

verus! {

/// A token of the language. `Ident` borrows its spelling from the input
/// buffer that the scanner was built over; no text is copied.
#[derive(PartialEq, Debug)]
pub enum Token<'a> {
    // Basic syntax blocks
    Assign,
    Comma,
    Semicolon,
    LParen,
    RParen,
    LBrace,
    RBrace,
    // Arithmetic
    Plus,
    Minus,
    Asterisk,
    Slash,
    // Single-character comparators
    LT,
    GT,
    Bang,
    // Two-character comparators
    LTE,
    GTE,
    Eq,
    NotEq,
    // Name- and value-bearing tokens
    Ident(&'a str),
    Int(i64),
    // Keywords
    Function,
    Let,
    True,
    False,
    If,
    Else,
    Return,
    // Sentinels
    Illegal,
    EOF,
}

/// The spec-level model of a token: the same variants, with the identifier's
/// spelling as a character sequence.
pub enum Tok {
    Assign,
    Comma,
    Semicolon,
    LParen,
    RParen,
    LBrace,
    RBrace,
    Plus,
    Minus,
    Asterisk,
    Slash,
    LT,
    GT,
    Bang,
    LTE,
    GTE,
    Eq,
    NotEq,
    Ident(Seq<char>),
    Int(i64),
    Function,
    Let,
    True,
    False,
    If,
    Else,
    Return,
    Illegal,
    EOF,
}

impl<'a> View for Token<'a> {
    type V = Tok;

    open spec fn view(&self) -> Tok {
        match self {
            Token::Assign => Tok::Assign,
            Token::Comma => Tok::Comma,
            Token::Semicolon => Tok::Semicolon,
            Token::LParen => Tok::LParen,
            Token::RParen => Tok::RParen,
            Token::LBrace => Tok::LBrace,
            Token::RBrace => Tok::RBrace,
            Token::Plus => Tok::Plus,
            Token::Minus => Tok::Minus,
            Token::Asterisk => Tok::Asterisk,
            Token::Slash => Tok::Slash,
            Token::LT => Tok::LT,
            Token::GT => Tok::GT,
            Token::Bang => Tok::Bang,
            Token::LTE => Tok::LTE,
            Token::GTE => Tok::GTE,
            Token::Eq => Tok::Eq,
            Token::NotEq => Tok::NotEq,
            Token::Ident(s) => Tok::Ident(s@),
            Token::Int(v) => Tok::Int(*v),
            Token::Function => Tok::Function,
            Token::Let => Tok::Let,
            Token::True => Tok::True,
            Token::False => Tok::False,
            Token::If => Tok::If,
            Token::Else => Tok::Else,
            Token::Return => Tok::Return,
            Token::Illegal => Tok::Illegal,
            Token::EOF => Tok::EOF,
        }
    }
}

/// The reserved spellings of the language.
pub open spec fn is_keyword_spelling(w: Seq<char>) -> bool {
    ||| w == "fn"@
    ||| w == "let"@
    ||| w == "true"@
    ||| w == "if"@
    ||| w == "else"@
    ||| w == "false"@
    ||| w == "return"@
}

/// Classification of a scanned word: a reserved spelling maps to its keyword
/// token, every other word becomes an identifier carrying exactly that word.
pub open spec fn classify_word(w: Seq<char>) -> Tok {
    if w == "fn"@ {
        Tok::Function
    } else if w == "let"@ {
        Tok::Let
    } else if w == "true"@ {
        Tok::True
    } else if w == "if"@ {
        Tok::If
    } else if w == "else"@ {
        Tok::Else
    } else if w == "false"@ {
        Tok::False
    } else if w == "return"@ {
        Tok::Return
    } else {
        Tok::Ident(w)
    }
}

} // verus!
