//! Tokens of the language and the source spans they cover.
use vstd::prelude::*;

verus! {

/// A range of byte offsets into the source text: `lo` inclusive, `hi` exclusive.
#[derive(Debug, Clone, Copy, PartialEq, Eq, Structural)]
pub struct Span {
    /// The first byte of the range.
    pub lo: usize,
    /// The byte after the last one of the range.
    pub hi: usize,
}

impl Span {
    /// The span from `lo` up to `hi`.
    pub fn new(lo: usize, hi: usize) -> (r: Span)
        ensures
            r.lo == lo,
            r.hi == hi,
    {
        Span { lo, hi }
    }

    /// The empty span at `pos`.
    pub fn empty(pos: usize) -> (r: Span)
        ensures
            r.lo == pos,
            r.hi == pos,
    {
        Span { lo: pos, hi: pos }
    }
}

/// A lexical token.
#[derive(Debug, PartialEq)]
pub enum Token {
    Plus,
    Minus,
    RArrow,
    Star,
    Slash,
    Colon,
    DoubleColon,
    Eq,
    EqEq,
    FatArrow,
    Semicolon,
    Dot,
    Ellipsis,
    LParen,
    Comma,
    RParen,
    LBrace,
    RBrace,
    Ampersand,
    AndAnd,
    Pipe,
    OrOr,
    Bang,
    BangEq,
    Lt,
    Le,
    Gt,
    Ge,
    Pound,
    LBracket,
    RBracket,
    /// A string literal, with its escape sequences replaced.
    StrLit(String),
    /// An integer literal.
    IntLit(i64),
    /// An integer literal with a type name right behind it, such as `255u8`.
    IntSuffixLit(i64, Box<Token>),
    /// A floating-point literal, as the digits it was written with.
    FloatLit(String),
    /// A floating-point literal with a type name right behind it.
    FloatSuffixLit(String, Box<Token>),
    /// A name that is no keyword.
    Ident(String),
    Fn,
    Let,
    Mod,
    Mut,
    Const,
    Use,
    Extern,
    As,
    I8,
    I16,
    I32,
    I64,
    U8,
    U16,
    U32,
    U64,
    Usize,
    Isize,
    F32,
    F64,
    Str,
    Bool,
    True,
    False,
    If,
    Else,
    Loop,
    While,
    Match,
    Return,
    Enum,
    Pub,
    Struct,
    Type,
    Impl,
    Trait,
    For,
    In,
    Self_,
    SelfType,
    Underscore,
    /// The end of the source.
    Eof,
}

impl Clone for Token {
    fn clone(&self) -> (r: Token)
        ensures
            r == *self,
        decreases self,
    {
        match self {
            Token::StrLit(s) => Token::StrLit(s.clone()),
            Token::IntLit(v) => Token::IntLit(*v),
            Token::IntSuffixLit(v, t) => Token::IntSuffixLit(*v, Box::new((&**t).clone())),
            Token::FloatLit(s) => Token::FloatLit(s.clone()),
            Token::FloatSuffixLit(s, t) => Token::FloatSuffixLit(
                s.clone(),
                Box::new((&**t).clone()),
            ),
            Token::Ident(s) => Token::Ident(s.clone()),
            Token::Plus => Token::Plus,
            Token::Minus => Token::Minus,
            Token::RArrow => Token::RArrow,
            Token::Star => Token::Star,
            Token::Slash => Token::Slash,
            Token::Colon => Token::Colon,
            Token::DoubleColon => Token::DoubleColon,
            Token::Eq => Token::Eq,
            Token::EqEq => Token::EqEq,
            Token::FatArrow => Token::FatArrow,
            Token::Semicolon => Token::Semicolon,
            Token::Dot => Token::Dot,
            Token::Ellipsis => Token::Ellipsis,
            Token::LParen => Token::LParen,
            Token::Comma => Token::Comma,
            Token::RParen => Token::RParen,
            Token::LBrace => Token::LBrace,
            Token::RBrace => Token::RBrace,
            Token::Ampersand => Token::Ampersand,
            Token::AndAnd => Token::AndAnd,
            Token::Pipe => Token::Pipe,
            Token::OrOr => Token::OrOr,
            Token::Bang => Token::Bang,
            Token::BangEq => Token::BangEq,
            Token::Lt => Token::Lt,
            Token::Le => Token::Le,
            Token::Gt => Token::Gt,
            Token::Ge => Token::Ge,
            Token::Pound => Token::Pound,
            Token::LBracket => Token::LBracket,
            Token::RBracket => Token::RBracket,
            Token::Fn => Token::Fn,
            Token::Let => Token::Let,
            Token::Mod => Token::Mod,
            Token::Mut => Token::Mut,
            Token::Const => Token::Const,
            Token::Use => Token::Use,
            Token::Extern => Token::Extern,
            Token::As => Token::As,
            Token::I8 => Token::I8,
            Token::I16 => Token::I16,
            Token::I32 => Token::I32,
            Token::I64 => Token::I64,
            Token::U8 => Token::U8,
            Token::U16 => Token::U16,
            Token::U32 => Token::U32,
            Token::U64 => Token::U64,
            Token::Usize => Token::Usize,
            Token::Isize => Token::Isize,
            Token::F32 => Token::F32,
            Token::F64 => Token::F64,
            Token::Str => Token::Str,
            Token::Bool => Token::Bool,
            Token::True => Token::True,
            Token::False => Token::False,
            Token::If => Token::If,
            Token::Else => Token::Else,
            Token::Loop => Token::Loop,
            Token::While => Token::While,
            Token::Match => Token::Match,
            Token::Return => Token::Return,
            Token::Enum => Token::Enum,
            Token::Pub => Token::Pub,
            Token::Struct => Token::Struct,
            Token::Type => Token::Type,
            Token::Impl => Token::Impl,
            Token::Trait => Token::Trait,
            Token::For => Token::For,
            Token::In => Token::In,
            Token::Self_ => Token::Self_,
            Token::SelfType => Token::SelfType,
            Token::Underscore => Token::Underscore,
            Token::Eof => Token::Eof,
        }
    }
}

/// What a token is, with its text as a sequence of characters.
pub enum TokenView {
    /// A token that carries no data.
    Plain(Token),
    StrLit(Seq<char>),
    IntLit(i64),
    IntSuffixLit(i64, Token),
    FloatLit(Seq<char>),
    FloatSuffixLit(Seq<char>, Token),
    Ident(Seq<char>),
}

impl View for Token {
    type V = TokenView;

    open spec fn view(&self) -> TokenView {
        match *self {
            Token::StrLit(s) => TokenView::StrLit(s@),
            Token::IntLit(v) => TokenView::IntLit(v),
            Token::IntSuffixLit(v, t) => TokenView::IntSuffixLit(v, *t),
            Token::FloatLit(s) => TokenView::FloatLit(s@),
            Token::FloatSuffixLit(s, t) => TokenView::FloatSuffixLit(s@, *t),
            Token::Ident(s) => TokenView::Ident(s@),
            t => TokenView::Plain(t),
        }
    }
}

} // verus!
