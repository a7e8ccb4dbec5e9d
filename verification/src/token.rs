//! The closed set of lexical tokens.

use vstd::prelude::*;
use crate::text::{push_int, push_text, int_text};

verus! {

/// One lexical unit of source text.
#[derive(Debug, Clone, PartialEq)]
pub enum Token {
    Eof,
    Illegal,
    Comment,
    // Literals
    Ident(String),
    Int(i32),
    String(String),
    Boolean(bool),
    // Operators
    Assign,
    Plus,
    Minus,
    Bang,
    Asterisk,
    Slash,
    Percent,
    Anew,
    // Comparison
    Less,
    Greater,
    LessEqual,
    GreaterEqual,
    Equals,
    NotEquals,
    // Delimiters
    Comma,
    Colon,
    Semicolon,
    LeftParen,
    RightParen,
    LeftBrace,
    RightBrace,
    LeftBracket,
    RightBracket,
    // Keywords
    Let,
    Func,
    If,
    Else,
    Return,
    Include,
}

/// The mathematical value of a [`Token`]: the same variants, with text as
/// sequences of characters.
pub enum TokenV {
    Eof,
    Illegal,
    Comment,
    Ident(Seq<char>),
    Int(i32),
    String(Seq<char>),
    Boolean(bool),
    Assign,
    Plus,
    Minus,
    Bang,
    Asterisk,
    Slash,
    Percent,
    Anew,
    Less,
    Greater,
    LessEqual,
    GreaterEqual,
    Equals,
    NotEquals,
    Comma,
    Colon,
    Semicolon,
    LeftParen,
    RightParen,
    LeftBrace,
    RightBrace,
    LeftBracket,
    RightBracket,
    Let,
    Func,
    If,
    Else,
    Return,
    Include,
}

impl View for Token {
    type V = TokenV;

    open spec fn view(&self) -> TokenV {
        match self {
            Token::Eof => TokenV::Eof,
            Token::Illegal => TokenV::Illegal,
            Token::Comment => TokenV::Comment,
            Token::Ident(s) => TokenV::Ident(s@),
            Token::Int(i) => TokenV::Int(*i),
            Token::String(s) => TokenV::String(s@),
            Token::Boolean(b) => TokenV::Boolean(*b),
            Token::Assign => TokenV::Assign,
            Token::Plus => TokenV::Plus,
            Token::Minus => TokenV::Minus,
            Token::Bang => TokenV::Bang,
            Token::Asterisk => TokenV::Asterisk,
            Token::Slash => TokenV::Slash,
            Token::Percent => TokenV::Percent,
            Token::Anew => TokenV::Anew,
            Token::Less => TokenV::Less,
            Token::Greater => TokenV::Greater,
            Token::LessEqual => TokenV::LessEqual,
            Token::GreaterEqual => TokenV::GreaterEqual,
            Token::Equals => TokenV::Equals,
            Token::NotEquals => TokenV::NotEquals,
            Token::Comma => TokenV::Comma,
            Token::Colon => TokenV::Colon,
            Token::Semicolon => TokenV::Semicolon,
            Token::LeftParen => TokenV::LeftParen,
            Token::RightParen => TokenV::RightParen,
            Token::LeftBrace => TokenV::LeftBrace,
            Token::RightBrace => TokenV::RightBrace,
            Token::LeftBracket => TokenV::LeftBracket,
            Token::RightBracket => TokenV::RightBracket,
            Token::Let => TokenV::Let,
            Token::Func => TokenV::Func,
            Token::If => TokenV::If,
            Token::Else => TokenV::Else,
            Token::Return => TokenV::Return,
            Token::Include => TokenV::Include,
        }
    }
}

/// How a token is written in messages: the name of its kind, followed for a
/// literal by what it holds, in round brackets.
#[verifier::opaque]
pub open spec fn token_text(t: TokenV) -> Seq<char> {
    match t {
        TokenV::Eof => "Eof"@,
        TokenV::Illegal => "Illegal"@,
        TokenV::Comment => "Comment"@,
        TokenV::Ident(s) => "Ident("@ + s + ")"@,
        TokenV::Int(i) => "Int("@ + int_text(i as int) + ")"@,
        TokenV::String(s) => "String("@ + s + ")"@,
        TokenV::Boolean(b) => if b {
            "Boolean(true)"@
        } else {
            "Boolean(false)"@
        },
        TokenV::Assign => "Assign"@,
        TokenV::Plus => "Plus"@,
        TokenV::Minus => "Minus"@,
        TokenV::Bang => "Bang"@,
        TokenV::Asterisk => "Asterisk"@,
        TokenV::Slash => "Slash"@,
        TokenV::Percent => "Percent"@,
        TokenV::Anew => "Anew"@,
        TokenV::Less => "Less"@,
        TokenV::Greater => "Greater"@,
        TokenV::LessEqual => "LessEqual"@,
        TokenV::GreaterEqual => "GreaterEqual"@,
        TokenV::Equals => "Equals"@,
        TokenV::NotEquals => "NotEquals"@,
        TokenV::Comma => "Comma"@,
        TokenV::Colon => "Colon"@,
        TokenV::Semicolon => "Semicolon"@,
        TokenV::LeftParen => "LeftParen"@,
        TokenV::RightParen => "RightParen"@,
        TokenV::LeftBrace => "LeftBrace"@,
        TokenV::RightBrace => "RightBrace"@,
        TokenV::LeftBracket => "LeftBracket"@,
        TokenV::RightBracket => "RightBracket"@,
        TokenV::Let => "Let"@,
        TokenV::Func => "Func"@,
        TokenV::If => "If"@,
        TokenV::Else => "Else"@,
        TokenV::Return => "Return"@,
        TokenV::Include => "Include"@,
    }
}

impl Token {
    /// A copy of the token.
    pub fn copy(&self) -> (t: Token)
        ensures
            t@ == self@,
    {
        match self {
            Token::Eof => Token::Eof,
            Token::Illegal => Token::Illegal,
            Token::Comment => Token::Comment,
            Token::Ident(s) => Token::Ident(s.clone()),
            Token::Int(i) => Token::Int(*i),
            Token::String(s) => Token::String(s.clone()),
            Token::Boolean(b) => Token::Boolean(*b),
            Token::Assign => Token::Assign,
            Token::Plus => Token::Plus,
            Token::Minus => Token::Minus,
            Token::Bang => Token::Bang,
            Token::Asterisk => Token::Asterisk,
            Token::Slash => Token::Slash,
            Token::Percent => Token::Percent,
            Token::Anew => Token::Anew,
            Token::Less => Token::Less,
            Token::Greater => Token::Greater,
            Token::LessEqual => Token::LessEqual,
            Token::GreaterEqual => Token::GreaterEqual,
            Token::Equals => Token::Equals,
            Token::NotEquals => Token::NotEquals,
            Token::Comma => Token::Comma,
            Token::Colon => Token::Colon,
            Token::Semicolon => Token::Semicolon,
            Token::LeftParen => Token::LeftParen,
            Token::RightParen => Token::RightParen,
            Token::LeftBrace => Token::LeftBrace,
            Token::RightBrace => Token::RightBrace,
            Token::LeftBracket => Token::LeftBracket,
            Token::RightBracket => Token::RightBracket,
            Token::Let => Token::Let,
            Token::Func => Token::Func,
            Token::If => Token::If,
            Token::Else => Token::Else,
            Token::Return => Token::Return,
            Token::Include => Token::Include,
        }
    }

    /// The token as it is written in messages.
    pub fn to_text(&self) -> (s: String)
        ensures
            s@ == token_text(self@),
    {
        reveal(token_text);
        let mut s = String::new();
        match self {
            Token::Eof => push_text(&mut s, "Eof"),
            Token::Illegal => push_text(&mut s, "Illegal"),
            Token::Comment => push_text(&mut s, "Comment"),
            Token::Ident(t) => {
                push_text(&mut s, "Ident(");
                push_text(&mut s, t.as_str());
                push_text(&mut s, ")");
            },
            Token::Int(i) => {
                push_text(&mut s, "Int(");
                push_int(&mut s, *i);
                push_text(&mut s, ")");
            },
            Token::String(t) => {
                push_text(&mut s, "String(");
                push_text(&mut s, t.as_str());
                push_text(&mut s, ")");
            },
            Token::Boolean(b) => {
                if *b {
                    push_text(&mut s, "Boolean(true)");
                } else {
                    push_text(&mut s, "Boolean(false)");
                }
            },
            Token::Assign => push_text(&mut s, "Assign"),
            Token::Plus => push_text(&mut s, "Plus"),
            Token::Minus => push_text(&mut s, "Minus"),
            Token::Bang => push_text(&mut s, "Bang"),
            Token::Asterisk => push_text(&mut s, "Asterisk"),
            Token::Slash => push_text(&mut s, "Slash"),
            Token::Percent => push_text(&mut s, "Percent"),
            Token::Anew => push_text(&mut s, "Anew"),
            Token::Less => push_text(&mut s, "Less"),
            Token::Greater => push_text(&mut s, "Greater"),
            Token::LessEqual => push_text(&mut s, "LessEqual"),
            Token::GreaterEqual => push_text(&mut s, "GreaterEqual"),
            Token::Equals => push_text(&mut s, "Equals"),
            Token::NotEquals => push_text(&mut s, "NotEquals"),
            Token::Comma => push_text(&mut s, "Comma"),
            Token::Colon => push_text(&mut s, "Colon"),
            Token::Semicolon => push_text(&mut s, "Semicolon"),
            Token::LeftParen => push_text(&mut s, "LeftParen"),
            Token::RightParen => push_text(&mut s, "RightParen"),
            Token::LeftBrace => push_text(&mut s, "LeftBrace"),
            Token::RightBrace => push_text(&mut s, "RightBrace"),
            Token::LeftBracket => push_text(&mut s, "LeftBracket"),
            Token::RightBracket => push_text(&mut s, "RightBracket"),
            Token::Let => push_text(&mut s, "Let"),
            Token::Func => push_text(&mut s, "Func"),
            Token::If => push_text(&mut s, "If"),
            Token::Else => push_text(&mut s, "Else"),
            Token::Return => push_text(&mut s, "Return"),
            Token::Include => push_text(&mut s, "Include"),
        }
        assert(s@ =~= token_text(self@));
        s
    }
}

} // verus!
