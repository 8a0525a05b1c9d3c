use vstd::prelude::*;

verus! {

/// A token of the surface language.
#[derive(Debug, Clone, PartialEq, Eq)]
pub enum Token {
    Int(u64),
    HexInt(u64),
    Identifier(String),
    String(String),
    ShortString(String),
    PlusPlus,
    DoubleEq,
    DoubleStar,
    Neq,
    Arrow,
    At,
    Comma,
    Colon,
    Felt,
    CodeOffset,
    Star,
    LParen,
    RParen,
    Equal,
    Plus,
    Minus,
    Slash,
    Ampersand,
    New,
    Dot,
    NonDet,
    LBracket,
    RBracket,
    Cast,
    Ap,
    Fp,
    And,
    Local,
    Ret,
    Call,
    Rel,
    Abs,
    Jmp,
    If,
    Else,
    PlusEq,
    Dw,
    LBrace,
    RBrace,
    Import,
    From,
    As,
    Func,
    With,
    Struct,
    Namespace,
    WithAttr,
    Semicolon,
    Const,
    Let,
    TempVar,
    Assert,
    StaticAssert,
    Return,
    Using,
    AllocLocals,
}

/// The kind of a token, without its payload.
#[derive(Debug, Clone, Copy, PartialEq, Eq, Structural)]
pub enum TokenType {
    Int,
    HexInt,
    Identifier,
    String,
    ShortString,
    PlusPlus,
    DoubleEq,
    DoubleStar,
    Neq,
    Arrow,
    At,
    Comma,
    Colon,
    Felt,
    CodeOffset,
    Star,
    LParen,
    RParen,
    Equal,
    Plus,
    Minus,
    Slash,
    Ampersand,
    New,
    Dot,
    NonDet,
    LBracket,
    RBracket,
    Cast,
    Ap,
    Fp,
    And,
    Local,
    Ret,
    Call,
    Rel,
    Abs,
    Jmp,
    If,
    Else,
    PlusEq,
    Dw,
    LBrace,
    RBrace,
    Import,
    From,
    As,
    Func,
    With,
    Struct,
    Namespace,
    WithAttr,
    Semicolon,
    Const,
    Let,
    TempVar,
    Assert,
    StaticAssert,
    Return,
    Using,
    AllocLocals,
}

impl Token {
    pub open spec fn kind(&self) -> TokenType {
        match self {
            Token::Int(_) => TokenType::Int,
            Token::HexInt(_) => TokenType::HexInt,
            Token::Identifier(_) => TokenType::Identifier,
            Token::String(_) => TokenType::String,
            Token::ShortString(_) => TokenType::ShortString,
            Token::PlusPlus => TokenType::PlusPlus,
            Token::DoubleEq => TokenType::DoubleEq,
            Token::DoubleStar => TokenType::DoubleStar,
            Token::Neq => TokenType::Neq,
            Token::Arrow => TokenType::Arrow,
            Token::At => TokenType::At,
            Token::Comma => TokenType::Comma,
            Token::Colon => TokenType::Colon,
            Token::Felt => TokenType::Felt,
            Token::CodeOffset => TokenType::CodeOffset,
            Token::Star => TokenType::Star,
            Token::LParen => TokenType::LParen,
            Token::RParen => TokenType::RParen,
            Token::Equal => TokenType::Equal,
            Token::Plus => TokenType::Plus,
            Token::Minus => TokenType::Minus,
            Token::Slash => TokenType::Slash,
            Token::Ampersand => TokenType::Ampersand,
            Token::New => TokenType::New,
            Token::Dot => TokenType::Dot,
            Token::NonDet => TokenType::NonDet,
            Token::LBracket => TokenType::LBracket,
            Token::RBracket => TokenType::RBracket,
            Token::Cast => TokenType::Cast,
            Token::Ap => TokenType::Ap,
            Token::Fp => TokenType::Fp,
            Token::And => TokenType::And,
            Token::Local => TokenType::Local,
            Token::Ret => TokenType::Ret,
            Token::Call => TokenType::Call,
            Token::Rel => TokenType::Rel,
            Token::Abs => TokenType::Abs,
            Token::Jmp => TokenType::Jmp,
            Token::If => TokenType::If,
            Token::Else => TokenType::Else,
            Token::PlusEq => TokenType::PlusEq,
            Token::Dw => TokenType::Dw,
            Token::LBrace => TokenType::LBrace,
            Token::RBrace => TokenType::RBrace,
            Token::Import => TokenType::Import,
            Token::From => TokenType::From,
            Token::As => TokenType::As,
            Token::Func => TokenType::Func,
            Token::With => TokenType::With,
            Token::Struct => TokenType::Struct,
            Token::Namespace => TokenType::Namespace,
            Token::WithAttr => TokenType::WithAttr,
            Token::Semicolon => TokenType::Semicolon,
            Token::Const => TokenType::Const,
            Token::Let => TokenType::Let,
            Token::TempVar => TokenType::TempVar,
            Token::Assert => TokenType::Assert,
            Token::StaticAssert => TokenType::StaticAssert,
            Token::Return => TokenType::Return,
            Token::Using => TokenType::Using,
            Token::AllocLocals => TokenType::AllocLocals,
        }
    }

    pub fn token_type(&self) -> (r: TokenType)
        ensures
            r == self.kind(),
    {
        match self {
            Token::Int(_) => TokenType::Int,
            Token::HexInt(_) => TokenType::HexInt,
            Token::Identifier(_) => TokenType::Identifier,
            Token::String(_) => TokenType::String,
            Token::ShortString(_) => TokenType::ShortString,
            Token::PlusPlus => TokenType::PlusPlus,
            Token::DoubleEq => TokenType::DoubleEq,
            Token::DoubleStar => TokenType::DoubleStar,
            Token::Neq => TokenType::Neq,
            Token::Arrow => TokenType::Arrow,
            Token::At => TokenType::At,
            Token::Comma => TokenType::Comma,
            Token::Colon => TokenType::Colon,
            Token::Felt => TokenType::Felt,
            Token::CodeOffset => TokenType::CodeOffset,
            Token::Star => TokenType::Star,
            Token::LParen => TokenType::LParen,
            Token::RParen => TokenType::RParen,
            Token::Equal => TokenType::Equal,
            Token::Plus => TokenType::Plus,
            Token::Minus => TokenType::Minus,
            Token::Slash => TokenType::Slash,
            Token::Ampersand => TokenType::Ampersand,
            Token::New => TokenType::New,
            Token::Dot => TokenType::Dot,
            Token::NonDet => TokenType::NonDet,
            Token::LBracket => TokenType::LBracket,
            Token::RBracket => TokenType::RBracket,
            Token::Cast => TokenType::Cast,
            Token::Ap => TokenType::Ap,
            Token::Fp => TokenType::Fp,
            Token::And => TokenType::And,
            Token::Local => TokenType::Local,
            Token::Ret => TokenType::Ret,
            Token::Call => TokenType::Call,
            Token::Rel => TokenType::Rel,
            Token::Abs => TokenType::Abs,
            Token::Jmp => TokenType::Jmp,
            Token::If => TokenType::If,
            Token::Else => TokenType::Else,
            Token::PlusEq => TokenType::PlusEq,
            Token::Dw => TokenType::Dw,
            Token::LBrace => TokenType::LBrace,
            Token::RBrace => TokenType::RBrace,
            Token::Import => TokenType::Import,
            Token::From => TokenType::From,
            Token::As => TokenType::As,
            Token::Func => TokenType::Func,
            Token::With => TokenType::With,
            Token::Struct => TokenType::Struct,
            Token::Namespace => TokenType::Namespace,
            Token::WithAttr => TokenType::WithAttr,
            Token::Semicolon => TokenType::Semicolon,
            Token::Const => TokenType::Const,
            Token::Let => TokenType::Let,
            Token::TempVar => TokenType::TempVar,
            Token::Assert => TokenType::Assert,
            Token::StaticAssert => TokenType::StaticAssert,
            Token::Return => TokenType::Return,
            Token::Using => TokenType::Using,
            Token::AllocLocals => TokenType::AllocLocals,
        }
    }
}

} // verus!
