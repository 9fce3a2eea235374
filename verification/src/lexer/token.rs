use vstd::prelude::*;
use crate::lexer::token::keyword::Keyword;

pub mod keyword;

verus! {

/// The smallest classified unit of source text.
#[derive(Debug, PartialEq, Eq)]
pub enum Token {
    /// An identifier: a letter followed by letters and digits.
    Identifier(String),
    /// A reserved word.
    Keyword(Keyword),
    /// A negative integer literal, its sign included.
    SignedLiteral(i64),
    /// An integer literal without a sign.
    UnsignedLiteral(u64),
    /// A floating-point literal, held as the IEEE 754 binary64 bit pattern of its
    /// value. The tokenizer never yields one: a digit run stops before a decimal point.
    FloatLiteral(u64),
    /// A string literal, with its escapes decoded.
    StringLiteral(String),
    /// A character literal.
    CharLiteral(char),
    /// `(`
    OpenParen,
    /// `)`
    CloseParen,
    /// `{`
    OpenBrace,
    /// `}`
    CloseBrace,
    /// `[`
    OpenBracket,
    /// `]`
    CloseBracket,
    /// `a + b`
    Add,
    /// `a - b`
    Sub,
    /// `a * b`
    Mul,
    /// `a / b`
    Div,
    /// `a % b`
    Mod,
    /// `a ** b`
    Pow,
    /// `a & b`
    BitAnd,
    /// `a | b`
    BitOr,
    /// `a ^ b`
    BitXor,
    /// `a << b`
    Shl,
    /// `a >> b`
    Shr,
    /// `a && b`
    And,
    /// `a || b`
    Or,
    /// `!a`
    Not,
    /// `a == b`
    Eq,
    /// `a != b`
    Ne,
    /// `a < b`
    Lt,
    /// `a <= b`
    Le,
    /// `a > b`
    Gt,
    /// `a >= b`
    Ge,
    /// `a = b`
    Assign,
    /// `a += b`
    AddAssign,
    /// `a -= b`
    SubAssign,
    /// `a *= b`
    MulAssign,
    /// `a /= b`
    DivAssign,
    /// `a %= b`
    ModAssign,
    /// `a **= b`
    PowAssign,
    /// `a &= b`
    BitAndAssign,
    /// `a |= b`
    BitOrAssign,
    /// `a ^= b`
    BitXorAssign,
    /// `a <<= b`
    ShlAssign,
    /// `a >>= b`
    ShrAssign,
    /// `->`
    Arrow,
    /// `,`
    Comma,
    /// `;`
    Semicolon,
    /// `:`
    Colon,
    /// `.`
    Dot,
}

/// What a [`Token`] stands for: the same variants, with text held as a sequence of
/// characters.
pub enum TokenView {
    Identifier(Seq<char>),
    Keyword(Keyword),
    SignedLiteral(i64),
    UnsignedLiteral(u64),
    FloatLiteral(u64),
    StringLiteral(Seq<char>),
    CharLiteral(char),
    OpenParen,
    CloseParen,
    OpenBrace,
    CloseBrace,
    OpenBracket,
    CloseBracket,
    Add,
    Sub,
    Mul,
    Div,
    Mod,
    Pow,
    BitAnd,
    BitOr,
    BitXor,
    Shl,
    Shr,
    And,
    Or,
    Not,
    Eq,
    Ne,
    Lt,
    Le,
    Gt,
    Ge,
    Assign,
    AddAssign,
    SubAssign,
    MulAssign,
    DivAssign,
    ModAssign,
    PowAssign,
    BitAndAssign,
    BitOrAssign,
    BitXorAssign,
    ShlAssign,
    ShrAssign,
    Arrow,
    Comma,
    Semicolon,
    Colon,
    Dot,
}

impl View for Token {
    type V = TokenView;

    open spec fn view(&self) -> TokenView {
        match self {
            Token::Identifier(text) => TokenView::Identifier(text@),
            Token::Keyword(value) => TokenView::Keyword(*value),
            Token::SignedLiteral(value) => TokenView::SignedLiteral(*value),
            Token::UnsignedLiteral(value) => TokenView::UnsignedLiteral(*value),
            Token::FloatLiteral(value) => TokenView::FloatLiteral(*value),
            Token::StringLiteral(text) => TokenView::StringLiteral(text@),
            Token::CharLiteral(value) => TokenView::CharLiteral(*value),
            Token::OpenParen => TokenView::OpenParen,
            Token::CloseParen => TokenView::CloseParen,
            Token::OpenBrace => TokenView::OpenBrace,
            Token::CloseBrace => TokenView::CloseBrace,
            Token::OpenBracket => TokenView::OpenBracket,
            Token::CloseBracket => TokenView::CloseBracket,
            Token::Add => TokenView::Add,
            Token::Sub => TokenView::Sub,
            Token::Mul => TokenView::Mul,
            Token::Div => TokenView::Div,
            Token::Mod => TokenView::Mod,
            Token::Pow => TokenView::Pow,
            Token::BitAnd => TokenView::BitAnd,
            Token::BitOr => TokenView::BitOr,
            Token::BitXor => TokenView::BitXor,
            Token::Shl => TokenView::Shl,
            Token::Shr => TokenView::Shr,
            Token::And => TokenView::And,
            Token::Or => TokenView::Or,
            Token::Not => TokenView::Not,
            Token::Eq => TokenView::Eq,
            Token::Ne => TokenView::Ne,
            Token::Lt => TokenView::Lt,
            Token::Le => TokenView::Le,
            Token::Gt => TokenView::Gt,
            Token::Ge => TokenView::Ge,
            Token::Assign => TokenView::Assign,
            Token::AddAssign => TokenView::AddAssign,
            Token::SubAssign => TokenView::SubAssign,
            Token::MulAssign => TokenView::MulAssign,
            Token::DivAssign => TokenView::DivAssign,
            Token::ModAssign => TokenView::ModAssign,
            Token::PowAssign => TokenView::PowAssign,
            Token::BitAndAssign => TokenView::BitAndAssign,
            Token::BitOrAssign => TokenView::BitOrAssign,
            Token::BitXorAssign => TokenView::BitXorAssign,
            Token::ShlAssign => TokenView::ShlAssign,
            Token::ShrAssign => TokenView::ShrAssign,
            Token::Arrow => TokenView::Arrow,
            Token::Comma => TokenView::Comma,
            Token::Semicolon => TokenView::Semicolon,
            Token::Colon => TokenView::Colon,
            Token::Dot => TokenView::Dot,
        }
    }
}

impl Clone for Token {
    fn clone(&self) -> (r: Token)
        ensures
            r == *self,
    {
        match self {
            Token::Identifier(text) => Token::Identifier(text.clone()),
            Token::Keyword(value) => Token::Keyword(*value),
            Token::SignedLiteral(value) => Token::SignedLiteral(*value),
            Token::UnsignedLiteral(value) => Token::UnsignedLiteral(*value),
            Token::FloatLiteral(value) => Token::FloatLiteral(*value),
            Token::StringLiteral(text) => Token::StringLiteral(text.clone()),
            Token::CharLiteral(value) => Token::CharLiteral(*value),
            Token::OpenParen => Token::OpenParen,
            Token::CloseParen => Token::CloseParen,
            Token::OpenBrace => Token::OpenBrace,
            Token::CloseBrace => Token::CloseBrace,
            Token::OpenBracket => Token::OpenBracket,
            Token::CloseBracket => Token::CloseBracket,
            Token::Add => Token::Add,
            Token::Sub => Token::Sub,
            Token::Mul => Token::Mul,
            Token::Div => Token::Div,
            Token::Mod => Token::Mod,
            Token::Pow => Token::Pow,
            Token::BitAnd => Token::BitAnd,
            Token::BitOr => Token::BitOr,
            Token::BitXor => Token::BitXor,
            Token::Shl => Token::Shl,
            Token::Shr => Token::Shr,
            Token::And => Token::And,
            Token::Or => Token::Or,
            Token::Not => Token::Not,
            Token::Eq => Token::Eq,
            Token::Ne => Token::Ne,
            Token::Lt => Token::Lt,
            Token::Le => Token::Le,
            Token::Gt => Token::Gt,
            Token::Ge => Token::Ge,
            Token::Assign => Token::Assign,
            Token::AddAssign => Token::AddAssign,
            Token::SubAssign => Token::SubAssign,
            Token::MulAssign => Token::MulAssign,
            Token::DivAssign => Token::DivAssign,
            Token::ModAssign => Token::ModAssign,
            Token::PowAssign => Token::PowAssign,
            Token::BitAndAssign => Token::BitAndAssign,
            Token::BitOrAssign => Token::BitOrAssign,
            Token::BitXorAssign => Token::BitXorAssign,
            Token::ShlAssign => Token::ShlAssign,
            Token::ShrAssign => Token::ShrAssign,
            Token::Arrow => Token::Arrow,
            Token::Comma => Token::Comma,
            Token::Semicolon => Token::Semicolon,
            Token::Colon => Token::Colon,
            Token::Dot => Token::Dot,
        }
    }
}

impl TokenView {
    /// Whether the token is an operator that stands between two operands, the
    /// assignment operators and `!` included.
    pub open spec fn is_binary_op(self) -> bool {
        self is Add
        || self is Sub
        || self is Mul
        || self is Div
        || self is Mod
        || self is Pow
        || self is BitAnd
        || self is BitOr
        || self is BitXor
        || self is Shl
        || self is Shr
        || self is And
        || self is Or
        || self is Not
        || self is Eq
        || self is Ne
        || self is Lt
        || self is Le
        || self is Gt
        || self is Ge
        || self is Assign
        || self is AddAssign
        || self is SubAssign
        || self is MulAssign
        || self is DivAssign
        || self is ModAssign
        || self is PowAssign
        || self is BitAndAssign
        || self is BitOrAssign
        || self is BitXorAssign
        || self is ShlAssign
        || self is ShrAssign
    }

    /// Whether the token is a prefix operator: `!` or `-`.
    pub open spec fn is_unary_op(self) -> bool {
        self is Not || self is Sub
    }

    /// Whether the token is `=` or one of the compound assignment operators.
    pub open spec fn is_assign_op(self) -> bool {
        self is Assign
        || self is AddAssign
        || self is SubAssign
        || self is MulAssign
        || self is DivAssign
        || self is ModAssign
        || self is PowAssign
        || self is BitAndAssign
        || self is BitOrAssign
        || self is BitXorAssign
        || self is ShlAssign
        || self is ShrAssign
    }
}

impl Token {
    pub fn is_binary_op(&self) -> (r: bool)
        ensures
            r == self@.is_binary_op(),
    {
        matches!(
            self,
            Token::Add
                | Token::Sub
                | Token::Mul
                | Token::Div
                | Token::Mod
                | Token::Pow
                | Token::BitAnd
                | Token::BitOr
                | Token::BitXor
                | Token::Shl
                | Token::Shr
                | Token::And
                | Token::Or
                | Token::Not
                | Token::Eq
                | Token::Ne
                | Token::Lt
                | Token::Le
                | Token::Gt
                | Token::Ge
                | Token::Assign
                | Token::AddAssign
                | Token::SubAssign
                | Token::MulAssign
                | Token::DivAssign
                | Token::ModAssign
                | Token::PowAssign
                | Token::BitAndAssign
                | Token::BitOrAssign
                | Token::BitXorAssign
                | Token::ShlAssign
                | Token::ShrAssign
        )
    }

    pub fn is_unary_op(&self) -> (r: bool)
        ensures
            r == self@.is_unary_op(),
    {
        matches!(
            self,
            Token::Not
                | Token::Sub
        )
    }

    pub fn is_assign_op(&self) -> (r: bool)
        ensures
            r == self@.is_assign_op(),
    {
        matches!(
            self,
            Token::Assign
                | Token::AddAssign
                | Token::SubAssign
                | Token::MulAssign
                | Token::DivAssign
                | Token::ModAssign
                | Token::PowAssign
                | Token::BitAndAssign
                | Token::BitOrAssign
                | Token::BitXorAssign
                | Token::ShlAssign
                | Token::ShrAssign
        )
    }
}

} // verus!
