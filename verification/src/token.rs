//! Tokens produced by the lexer.

use vstd::prelude::*;

verus! {

/// One token of the source language. `Bof` and `Eof` are sentinels; a
/// `Separator` is a newline, `;` or comment; `Space` is a run of blanks.
#[derive(Debug, Clone, PartialEq)]
pub enum Token {
    Bof,
    Eof,
    Space,
    Separator,
    UpperWord(String),
    LowerWord(String),
    IVar(String),
    Number(String),
    Str(String),
    LParen,
    RParen,
    LSqBracket,
    RSqBracket,
    LBrace,
    RBrace,
    UnaryPlus,
    BinaryPlus,
    RightArrow,
    UnaryMinus,
    BinaryMinus,
    Mul,
    Div,
    Mod,
    EqEq,
    NotEq,
    LessThan,
    GreaterThan,
    LessEq,
    GreaterEq,
    Equal,
    Bang,
    Dot,
    At,
    Tilde,
    Question,
    Comma,
    Colon,
    ColonColon,
    AndAnd,
    OrOr,
    And,
    Or,
    Xor,
    LShift,
    RShift,
    UPlusMethod,
    UMinusMethod,
    KwClass,
    KwEnd,
    KwDef,
    KwVar,
    KwAnd,
    KwOr,
    KwNot,
    KwIf,
    KwUnless,
    KwWhile,
    KwBreak,
    KwThen,
    KwElse,
    KwSelf,
    KwTrue,
    KwFalse,
}

/// The closed table behind [`Token::value_starts`]: whether a value may
/// begin with the token. `Space` has no entry (the table is never
/// consulted on it) and is mapped to `false` here.
pub open spec fn value_starts_spec(t: Token) -> bool {
    match t {
        Token::Bof => false,
        Token::Eof => false,
        Token::Space => false,
        Token::Separator => false,
        Token::UpperWord(_) => true,
        Token::LowerWord(_) => true,
        Token::IVar(_) => true,
        Token::Number(_) => true,
        Token::Str(_) => true,
        Token::LParen => true,
        Token::RParen => false,
        Token::LSqBracket => true,
        Token::RSqBracket => false,
        Token::LBrace => false,
        Token::RBrace => false,
        Token::UnaryPlus => true,
        Token::BinaryPlus => false,
        Token::RightArrow => false,
        Token::UnaryMinus => true,
        Token::BinaryMinus => false,
        Token::Mul => false,
        Token::Div => false,
        Token::Mod => false,
        Token::EqEq => false,
        Token::NotEq => false,
        Token::LessThan => false,
        Token::GreaterThan => false,
        Token::LessEq => false,
        Token::GreaterEq => false,
        Token::Equal => false,
        Token::Bang => true,
        Token::Dot => false,
        Token::At => true,
        Token::Tilde => true,
        Token::Question => false,
        Token::Comma => false,
        Token::Colon => true,
        Token::ColonColon => true,
        Token::AndAnd => false,
        Token::OrOr => false,
        Token::And => false,
        Token::Or => false,
        Token::Xor => false,
        Token::LShift => false,
        Token::RShift => false,
        Token::UPlusMethod => false,
        Token::UMinusMethod => false,
        Token::KwClass => false,
        Token::KwEnd => false,
        Token::KwDef => false,
        Token::KwVar => false,
        Token::KwAnd => false,
        Token::KwOr => false,
        Token::KwNot => true,
        Token::KwIf => true,
        Token::KwUnless => true,
        Token::KwWhile => true,
        Token::KwBreak => false,
        Token::KwThen => false,
        Token::KwElse => false,
        Token::KwSelf => true,
        Token::KwTrue => true,
        Token::KwFalse => true,
    }
}

/// Whether a value may *end* with the token. The lexer consults this
/// table on the token before a `+` or `-` to pick its unary or binary
/// reading.
pub open spec fn value_ends_spec(t: Token) -> bool {
    match t {
        Token::UpperWord(_) => true,
        Token::LowerWord(_) => true,
        Token::IVar(_) => true,
        Token::Number(_) => true,
        Token::Str(_) => true,
        Token::RParen => true,
        Token::RSqBracket => true,
        Token::RBrace => true,
        Token::KwSelf => true,
        Token::KwTrue => true,
        Token::KwFalse => true,
        Token::KwEnd => true,
        _ => false,
    }
}

impl Token {
    pub fn upper_word(s: &str) -> (t: Token)
        ensures
            t matches Token::UpperWord(w) && w@ == s@,
    {
        Token::UpperWord(s.to_owned())
    }

    pub fn lower_word(s: &str) -> (t: Token)
        ensures
            t matches Token::LowerWord(w) && w@ == s@,
    {
        Token::LowerWord(s.to_owned())
    }

    pub fn number(s: &str) -> (t: Token)
        ensures
            t matches Token::Number(w) && w@ == s@,
    {
        Token::Number(s.to_owned())
    }

    /// Return true if a value may start with this token.
    ///
    /// The table is closed and exhaustive; it is never consulted on
    /// `Space`.
    pub fn value_starts(&self) -> (r: bool)
        requires
            !(self is Space),
        ensures
            r == value_starts_spec(*self),
    {
        match self {
            Token::UpperWord(_) => true,
            Token::LowerWord(_) => true,
            Token::IVar(_) => true,
            Token::Number(_) => true,
            Token::Str(_) => true,
            Token::LParen => true,
            Token::LSqBracket => true,
            Token::UnaryPlus => true,
            Token::UnaryMinus => true,
            Token::Bang => true,
            Token::At => true,
            Token::Tilde => true,
            Token::Colon => true,
            Token::ColonColon => true,
            Token::KwNot => true,
            Token::KwIf => true,
            Token::KwUnless => true,
            Token::KwWhile => true,
            Token::KwSelf => true,
            Token::KwTrue => true,
            Token::KwFalse => true,
            _ => false,
        }
    }

    /// Return true if a value may end with this token (see
    /// [`value_ends_spec`]).
    pub fn value_ends(&self) -> (r: bool)
        ensures
            r == value_ends_spec(*self),
    {
        match self {
            Token::UpperWord(_) => true,
            Token::LowerWord(_) => true,
            Token::IVar(_) => true,
            Token::Number(_) => true,
            Token::Str(_) => true,
            Token::RParen => true,
            Token::RSqBracket => true,
            Token::RBrace => true,
            Token::KwSelf => true,
            Token::KwTrue => true,
            Token::KwFalse => true,
            Token::KwEnd => true,
            _ => false,
        }
    }
}

} // verus!
