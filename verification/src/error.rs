use vstd::prelude::*;
use crate::lexer::Span;

pub mod report;

verus! {

/// What went wrong, for every way in which tokenizing or parsing can fail.
#[derive(Clone, Copy, Debug, PartialEq, Eq, Structural)]
pub enum ErrorKind {
    /// A string literal with no closing quote before the end of input.
    UnterminatedString,
    /// A backslash in a string literal followed by something that is no escape.
    InvalidEscapeSequence,
    /// A character literal that is not one character between two quotes.
    InvalidCharacterLiteral,
    /// The input ends where a character literal needs its character.
    UnexpectedEndOfInput,
    /// A character that can start no token.
    UnexpectedCharacter,
    /// An integer literal too large for its 64-bit type.
    LiteralOutOfRange,
    /// A declaration without its name.
    ExpectedIdentifier,
    /// A function declaration without `(` after its name.
    ExpectedOpenParen,
    /// A parameter list, argument list or group that `)` does not close.
    ExpectedCloseParen,
    /// A class declaration without `{` after its name.
    ExpectedOpenBrace,
    /// A block, class body or import group that `}` does not close.
    ExpectedCloseBrace,
    /// A parameter without `:` after its name.
    ExpectedColon,
    /// Two parameters or arguments with no `,` between them.
    ExpectedComma,
    /// A statement without its terminating `;`.
    ExpectedSemicolon,
    /// An operand, type, body or initializer that is missing.
    ExpectedExpression,
    /// An expression other than a dotted path where only a path may stand.
    ExpectedPath,
    /// Two dots in a row inside a path.
    UnexpectedDot,
    /// A class member that is neither a function nor a variable declaration.
    InvalidClassMember,
    /// A variable declaration with neither a type nor an initial value.
    MissingTypeOrInitializer,
}

/// A failure to tokenize or parse: what went wrong and where in the source text.
#[derive(Clone, Copy, Debug, PartialEq, Eq, Structural)]
pub struct SyntaxError {
    pub kind: ErrorKind,
    pub span: Span,
}

impl ErrorKind {
    /// The sentence shown to the user for this kind of error.
    pub open spec fn message_text(self) -> Seq<char> {
        match self {
            ErrorKind::UnterminatedString => "Unterminated string"@,
            ErrorKind::InvalidEscapeSequence => "Invalid escape sequence"@,
            ErrorKind::InvalidCharacterLiteral => "Invalid character literal"@,
            ErrorKind::UnexpectedEndOfInput => "Unexpected end of input"@,
            ErrorKind::UnexpectedCharacter => "Unexpected character"@,
            ErrorKind::LiteralOutOfRange => "Integer literal out of range"@,
            ErrorKind::ExpectedIdentifier => "Expected identifier"@,
            ErrorKind::ExpectedOpenParen => "Expected opening paren"@,
            ErrorKind::ExpectedCloseParen => "Expected closing paren"@,
            ErrorKind::ExpectedOpenBrace => "Expected opening brace"@,
            ErrorKind::ExpectedCloseBrace => "Expected closing brace"@,
            ErrorKind::ExpectedColon => "Expected colon"@,
            ErrorKind::ExpectedComma => "Expected comma"@,
            ErrorKind::ExpectedSemicolon => "Expected semicolon"@,
            ErrorKind::ExpectedExpression => "Expected expression"@,
            ErrorKind::ExpectedPath => "Expected path"@,
            ErrorKind::UnexpectedDot => "Unexpected dot"@,
            ErrorKind::InvalidClassMember => "Only functions and variables can be members of classes"@,
            ErrorKind::MissingTypeOrInitializer => "Variables must have either an explicit type or an initial value"@,
        }
    }

    /// The sentence shown to the user for this kind of error.
    pub fn message(&self) -> (r: &'static str)
        ensures
            r@ == self.message_text(),
    {
        match self {
            ErrorKind::UnterminatedString => "Unterminated string",
            ErrorKind::InvalidEscapeSequence => "Invalid escape sequence",
            ErrorKind::InvalidCharacterLiteral => "Invalid character literal",
            ErrorKind::UnexpectedEndOfInput => "Unexpected end of input",
            ErrorKind::UnexpectedCharacter => "Unexpected character",
            ErrorKind::LiteralOutOfRange => "Integer literal out of range",
            ErrorKind::ExpectedIdentifier => "Expected identifier",
            ErrorKind::ExpectedOpenParen => "Expected opening paren",
            ErrorKind::ExpectedCloseParen => "Expected closing paren",
            ErrorKind::ExpectedOpenBrace => "Expected opening brace",
            ErrorKind::ExpectedCloseBrace => "Expected closing brace",
            ErrorKind::ExpectedColon => "Expected colon",
            ErrorKind::ExpectedComma => "Expected comma",
            ErrorKind::ExpectedSemicolon => "Expected semicolon",
            ErrorKind::ExpectedExpression => "Expected expression",
            ErrorKind::ExpectedPath => "Expected path",
            ErrorKind::UnexpectedDot => "Unexpected dot",
            ErrorKind::InvalidClassMember => "Only functions and variables can be members of classes",
            ErrorKind::MissingTypeOrInitializer => "Variables must have either an explicit type or an initial value",
        }
    }
}

impl SyntaxError {
    /// The sentence shown to the user for this error.
    pub fn message(&self) -> (r: &'static str)
        ensures
            r@ == self.kind.message_text(),
    {
        self.kind.message()
    }
}

} // verus!
