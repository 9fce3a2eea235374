use vstd::prelude::*;
use crate::error::{ErrorKind, SyntaxError};
use crate::lexer::chars::{alphabetic, alphanumeric, digit_value, hex_value, is_digit, is_scalar, whitespace};
use crate::lexer::token::keyword::Keyword;
use crate::lexer::token::TokenView;
use crate::lexer::Span;

verus! {

/// The outcome of scanning for one token: where the scan stopped, and the token
/// with its span, `None` at the end of input, or the error.
pub struct Lexeme {
    pub end: int,
    pub out: Result<Option<(TokenView, Span)>, SyntaxError>,
}

/// The outcome of scanning the body of a string literal: where the scan stopped,
/// and the decoded text or the kind of error.
pub struct TextScan {
    pub end: int,
    pub out: Result<Seq<char>, ErrorKind>,
}

/// The span `[start, end)`.
pub open spec fn span(start: int, end: int) -> Span {
    Span { start: start as usize, end: end as usize }
}

/// The character at `pos` is `c`.
pub open spec fn has(src: Seq<char>, pos: int, c: char) -> bool {
    0 <= pos < src.len() && src[pos] == c
}

/// The token of one character that `c` is by itself, if it is a bracket or a
/// delimiter.
pub open spec fn delimiter(c: char) -> Option<TokenView> {
    if c == '(' {
        Some(TokenView::OpenParen)
    } else if c == ')' {
        Some(TokenView::CloseParen)
    } else if c == '{' {
        Some(TokenView::OpenBrace)
    } else if c == '}' {
        Some(TokenView::CloseBrace)
    } else if c == '[' {
        Some(TokenView::OpenBracket)
    } else if c == ']' {
        Some(TokenView::CloseBracket)
    } else if c == ',' {
        Some(TokenView::Comma)
    } else if c == ';' {
        Some(TokenView::Semicolon)
    } else if c == '.' {
        Some(TokenView::Dot)
    } else if c == ':' {
        Some(TokenView::Colon)
    } else {
        None
    }
}

/// The operator that starts at `pos`, with the number of characters it takes: the
/// longest one that the characters there spell. Comments and negative literals,
/// which also start with an operator character, are not told apart here.
pub open spec fn operator_at(src: Seq<char>, pos: int) -> Option<(TokenView, int)> {
    if has(src, pos, '+') {
        if has(src, pos + 1, '=') {
            Some((TokenView::AddAssign, 2))
        } else {
            Some((TokenView::Add, 1))
        }
    } else if has(src, pos, '-') {
        if has(src, pos + 1, '=') {
            Some((TokenView::SubAssign, 2))
        } else if has(src, pos + 1, '>') {
            Some((TokenView::Arrow, 2))
        } else {
            Some((TokenView::Sub, 1))
        }
    } else if has(src, pos, '*') {
        if has(src, pos + 1, '=') {
            Some((TokenView::MulAssign, 2))
        } else if has(src, pos + 1, '*') {
            if has(src, pos + 2, '=') {
                Some((TokenView::PowAssign, 3))
            } else {
                Some((TokenView::Pow, 2))
            }
        } else {
            Some((TokenView::Mul, 1))
        }
    } else if has(src, pos, '/') {
        if has(src, pos + 1, '=') {
            Some((TokenView::DivAssign, 2))
        } else {
            Some((TokenView::Div, 1))
        }
    } else if has(src, pos, '%') {
        if has(src, pos + 1, '=') {
            Some((TokenView::ModAssign, 2))
        } else {
            Some((TokenView::Mod, 1))
        }
    } else if has(src, pos, '&') {
        if has(src, pos + 1, '=') {
            Some((TokenView::BitAndAssign, 2))
        } else if has(src, pos + 1, '&') {
            Some((TokenView::And, 2))
        } else {
            Some((TokenView::BitAnd, 1))
        }
    } else if has(src, pos, '|') {
        if has(src, pos + 1, '=') {
            Some((TokenView::BitOrAssign, 2))
        } else if has(src, pos + 1, '|') {
            Some((TokenView::Or, 2))
        } else {
            Some((TokenView::BitOr, 1))
        }
    } else if has(src, pos, '^') {
        if has(src, pos + 1, '=') {
            Some((TokenView::BitXorAssign, 2))
        } else {
            Some((TokenView::BitXor, 1))
        }
    } else if has(src, pos, '!') {
        if has(src, pos + 1, '=') {
            Some((TokenView::Ne, 2))
        } else {
            Some((TokenView::Not, 1))
        }
    } else if has(src, pos, '=') {
        if has(src, pos + 1, '=') {
            Some((TokenView::Eq, 2))
        } else {
            Some((TokenView::Assign, 1))
        }
    } else if has(src, pos, '<') {
        if has(src, pos + 1, '=') {
            Some((TokenView::Le, 2))
        } else {
            Some((TokenView::Lt, 1))
        }
    } else if has(src, pos, '>') {
        if has(src, pos + 1, '=') {
            Some((TokenView::Ge, 2))
        } else {
            Some((TokenView::Gt, 1))
        }
    } else {
        None
    }
}

/// The number of characters of the line comment whose text starts at `pos`: all
/// up to and including the next line feed, or up to the end of input.
pub open spec fn line_comment_len(src: Seq<char>, pos: int) -> nat
    decreases src.len() - pos,
{
    if pos < 0 || pos >= src.len() {
        0
    } else if src[pos] == '\n' {
        1
    } else {
        1 + line_comment_len(src, pos + 1)
    }
}

/// The number of characters of the block comment whose text starts at `pos`: all
/// up to and including the first `*/`, or up to the end of input where none
/// follows.
pub open spec fn block_comment_len(src: Seq<char>, pos: int) -> nat
    decreases src.len() - pos,
{
    if pos < 0 || pos >= src.len() {
        0
    } else if src[pos] == '*' && has(src, pos + 1, '/') {
        2
    } else {
        1 + block_comment_len(src, pos + 1)
    }
}

/// The length of the longest run of ASCII digits that starts at `pos`.
pub open spec fn digit_run(src: Seq<char>, pos: int) -> nat
    decreases src.len() - pos,
{
    if 0 <= pos < src.len() && is_digit(src[pos]) {
        1 + digit_run(src, pos + 1)
    } else {
        0
    }
}

/// The length of the longest run of letters and digits that starts at `pos`.
pub open spec fn word_run(src: Seq<char>, pos: int) -> nat
    decreases src.len() - pos,
{
    if 0 <= pos < src.len() && alphanumeric(src[pos]) {
        1 + word_run(src, pos + 1)
    } else {
        0
    }
}

/// The number that a run of ASCII digits writes in base ten.
pub open spec fn decimal_value(digits: Seq<char>) -> nat
    decreases digits.len(),
{
    if digits.len() == 0 {
        0
    } else {
        (decimal_value(digits.drop_last()) * 10 + digit_value(digits.last())) as nat
    }
}

/// The code point that the four hexadecimal digits at `pos` write, if the four
/// characters there are hexadecimal digits.
pub open spec fn code_point(src: Seq<char>, pos: int) -> Option<int>
    recommends
        0 <= pos,
        pos + 4 <= src.len(),
{
    match (hex_value(src[pos]), hex_value(src[pos + 1]), hex_value(src[pos + 2]), hex_value(src[pos + 3])) {
        (Some(a), Some(b), Some(c), Some(d)) => Some(((a * 16 + b) * 16 + c) * 16 + d),
        _ => None,
    }
}

/// The character that a backslash before `c` stands for, for the escapes of one
/// character.
pub open spec fn simple_escape(c: char) -> Option<char> {
    if c == 'n' {
        Some('\n')
    } else if c == 'r' {
        Some('\r')
    } else if c == 't' {
        Some('\t')
    } else if c == '\\' {
        Some('\\')
    } else if c == '"' {
        Some('"')
    } else {
        None
    }
}

/// `scan` with `c` put before its text.
pub open spec fn after_char(c: char, scan: TextScan) -> TextScan {
    TextScan {
        end: scan.end,
        out: match scan.out {
            Ok(text) => Ok(seq![c] + text),
            Err(kind) => Err(kind),
        },
    }
}

/// Scans the body of a string literal from `pos`, the position after the opening
/// quote or after what was scanned before. The text ends at the first quote
/// that no backslash escapes; the scan stops behind that quote, behind an
/// escape that is not valid, or at the end of input.
pub open spec fn string_body(src: Seq<char>, pos: int) -> TextScan
    decreases src.len() - pos,
{
    if pos < 0 || pos >= src.len() {
        TextScan { end: src.len() as int, out: Err(ErrorKind::UnterminatedString) }
    } else if src[pos] == '"' {
        TextScan { end: pos + 1, out: Ok(Seq::empty()) }
    } else if src[pos] != '\\' {
        after_char(src[pos], string_body(src, pos + 1))
    } else if pos + 1 >= src.len() {
        TextScan { end: src.len() as int, out: Err(ErrorKind::UnterminatedString) }
    } else if src[pos + 1] == 'u' {
        if pos + 6 > src.len() {
            TextScan { end: src.len() as int, out: Err(ErrorKind::UnterminatedString) }
        } else {
            match code_point(src, pos + 2) {
                Some(v) => if is_scalar(v) {
                    after_char(v as char, string_body(src, pos + 6))
                } else {
                    TextScan { end: pos + 6, out: Err(ErrorKind::InvalidEscapeSequence) }
                },
                None => TextScan { end: pos + 6, out: Err(ErrorKind::InvalidEscapeSequence) },
            }
        }
    } else {
        match simple_escape(src[pos + 1]) {
            Some(c) => after_char(c, string_body(src, pos + 2)),
            None => TextScan { end: pos + 2, out: Err(ErrorKind::InvalidEscapeSequence) },
        }
    }
}

/// A token that was scanned from `start` to `end`.
pub open spec fn token(kind: TokenView, start: int, end: int) -> Lexeme {
    Lexeme { end, out: Ok(Some((kind, span(start, end)))) }
}

/// An error found in the characters from `start` to `end`.
pub open spec fn failure(kind: ErrorKind, start: int, end: int) -> Lexeme {
    Lexeme { end, out: Err(SyntaxError { kind, span: span(start, end) }) }
}

/// The string literal whose opening quote is at `pos`.
pub open spec fn string_at(src: Seq<char>, pos: int) -> Lexeme {
    let body = string_body(src, pos + 1);
    match body.out {
        Ok(text) => token(TokenView::StringLiteral(text), pos, body.end),
        Err(kind) => failure(kind, pos, body.end),
    }
}

/// The character literal whose opening quote is at `pos`: one character, taken
/// as it stands, and a closing quote.
pub open spec fn char_at(src: Seq<char>, pos: int) -> Lexeme {
    if pos + 1 >= src.len() {
        failure(ErrorKind::UnexpectedEndOfInput, pos, src.len() as int)
    } else if has(src, pos + 2, '\'') {
        token(TokenView::CharLiteral(src[pos + 1]), pos, pos + 3)
    } else {
        failure(ErrorKind::InvalidCharacterLiteral, pos, pos + 2)
    }
}

/// The unsigned integer literal that starts with the digit at `pos`: the whole
/// run of digits there, which must fit in 64 bits.
pub open spec fn number_at(src: Seq<char>, pos: int) -> Lexeme {
    let end = pos + digit_run(src, pos);
    let value = decimal_value(src.subrange(pos, end));
    if value <= u64::MAX {
        token(TokenView::UnsignedLiteral(value as u64), pos, end)
    } else {
        failure(ErrorKind::LiteralOutOfRange, pos, end)
    }
}

/// The negative integer literal whose minus sign is at `pos`, directly before a
/// digit: the sign and the whole run of digits, which must fit in 64 bits.
pub open spec fn negative_at(src: Seq<char>, pos: int) -> Lexeme {
    let end = pos + 1 + digit_run(src, pos + 1);
    let value = decimal_value(src.subrange(pos + 1, end));
    if value <= 0x8000_0000_0000_0000 {
        token(TokenView::SignedLiteral((-value) as i64), pos, end)
    } else {
        failure(ErrorKind::LiteralOutOfRange, pos, end)
    }
}

/// The keyword or identifier that starts with the letter at `pos`: that letter
/// and the whole run of letters and digits behind it.
pub open spec fn word_at(src: Seq<char>, pos: int) -> Lexeme {
    let end = pos + 1 + word_run(src, pos + 1);
    let text = src.subrange(pos, end);
    match Keyword::from_spelling(text) {
        Some(keyword) => token(TokenView::Keyword(keyword), pos, end),
        None => token(TokenView::Identifier(text), pos, end),
    }
}

/// A line comment opens at `pos`.
pub open spec fn opens_line_comment(src: Seq<char>, pos: int) -> bool {
    has(src, pos, '/') && has(src, pos + 1, '/')
}

/// A block comment opens at `pos`.
pub open spec fn opens_block_comment(src: Seq<char>, pos: int) -> bool {
    has(src, pos, '/') && has(src, pos + 1, '*')
}

/// A negative literal starts at `pos`: a minus sign directly before a digit.
pub open spec fn opens_negative(src: Seq<char>, pos: int) -> bool {
    has(src, pos, '-') && 0 <= pos + 1 < src.len() && is_digit(src[pos + 1])
}

/// The number of characters of `src` from `pos` on.
pub open spec fn left(src: Seq<char>, pos: int) -> nat {
    if pos < src.len() {
        (src.len() - pos) as nat
    } else {
        0
    }
}

/// The next token of `src` at or after `pos`. Whitespace and comments before it
/// yield nothing; at the end of input there is no token. The first error ends
/// the scan.
pub open spec fn lex_at(src: Seq<char>, pos: int) -> Lexeme
    decreases left(src, pos),
{
    if pos < 0 || pos >= src.len() {
        Lexeme { end: pos, out: Ok(None) }
    } else if opens_line_comment(src, pos) {
        lex_at(src, pos + 2 + line_comment_len(src, pos + 2))
    } else if opens_block_comment(src, pos) {
        lex_at(src, pos + 2 + block_comment_len(src, pos + 2))
    } else if opens_negative(src, pos) {
        negative_at(src, pos)
    } else if let Some(found) = operator_at(src, pos) {
        token(found.0, pos, pos + found.1)
    } else if let Some(kind) = delimiter(src[pos]) {
        token(kind, pos, pos + 1)
    } else if src[pos] == '"' {
        string_at(src, pos)
    } else if src[pos] == '\'' {
        char_at(src, pos)
    } else if is_digit(src[pos]) {
        number_at(src, pos)
    } else if alphabetic(src[pos]) {
        word_at(src, pos)
    } else if whitespace(src[pos]) {
        lex_at(src, pos + 1)
    } else {
        failure(ErrorKind::UnexpectedCharacter, pos, pos + 1)
    }
}

/// Every token takes at least one character, and no scan goes back or past the
/// end of the text.
#[verifier::rlimit(40)]
pub proof fn lemma_lex_at_advances(src: Seq<char>, pos: int)
    requires
        0 <= pos <= src.len(),
    ensures
        pos <= lex_at(src, pos).end <= src.len(),
        lex_at(src, pos).out matches Ok(Some(found)) ==> pos < lex_at(src, pos).end,
        lex_at(src, pos).out == Ok::<Option<(TokenView, Span)>, SyntaxError>(None) ==> lex_at(
            src,
            pos,
        ).end == src.len(),
    decreases left(src, pos),
{
    if pos < src.len() {
        if opens_line_comment(src, pos) {
            lemma_line_comment_bounded(src, pos + 2);
            lemma_lex_at_advances(src, pos + 2 + line_comment_len(src, pos + 2));
        } else if opens_block_comment(src, pos) {
            lemma_block_comment_bounded(src, pos + 2);
            lemma_lex_at_advances(src, pos + 2 + block_comment_len(src, pos + 2));
        } else if opens_negative(src, pos) {
            lemma_digit_run_bounded(src, pos + 1);
        } else if operator_at(src, pos).is_some() {
        } else if delimiter(src[pos]).is_some() {
        } else if src[pos] == '"' {
            lemma_string_body_bounded(src, pos + 1);
        } else if src[pos] == '\'' {
        } else if is_digit(src[pos]) {
            lemma_digit_run_bounded(src, pos);
        } else if alphabetic(src[pos]) {
            lemma_word_run_bounded(src, pos + 1);
        } else if whitespace(src[pos]) {
            lemma_lex_at_advances(src, pos + 1);
        }
    }
}

/// A line comment ends within the text.
pub proof fn lemma_line_comment_bounded(src: Seq<char>, pos: int)
    requires
        0 <= pos <= src.len(),
    ensures
        pos + line_comment_len(src, pos) <= src.len(),
    decreases src.len() - pos,
{
    if pos < src.len() && src[pos] != '\n' {
        lemma_line_comment_bounded(src, pos + 1);
    }
}

/// A block comment ends within the text.
pub proof fn lemma_block_comment_bounded(src: Seq<char>, pos: int)
    requires
        0 <= pos <= src.len(),
    ensures
        pos + block_comment_len(src, pos) <= src.len(),
    decreases src.len() - pos,
{
    if pos < src.len() && !(src[pos] == '*' && has(src, pos + 1, '/')) {
        lemma_block_comment_bounded(src, pos + 1);
    }
}

/// A run of digits ends within the text.
pub proof fn lemma_digit_run_bounded(src: Seq<char>, pos: int)
    requires
        0 <= pos <= src.len(),
    ensures
        pos + digit_run(src, pos) <= src.len(),
    decreases src.len() - pos,
{
    if pos < src.len() && is_digit(src[pos]) {
        lemma_digit_run_bounded(src, pos + 1);
    }
}

/// A run of letters and digits ends within the text.
pub proof fn lemma_word_run_bounded(src: Seq<char>, pos: int)
    requires
        0 <= pos <= src.len(),
    ensures
        pos + word_run(src, pos) <= src.len(),
    decreases src.len() - pos,
{
    if pos < src.len() && alphanumeric(src[pos]) {
        lemma_word_run_bounded(src, pos + 1);
    }
}

/// The scan of a string body stops behind where it started and within the text.
pub proof fn lemma_string_body_bounded(src: Seq<char>, pos: int)
    requires
        0 <= pos <= src.len(),
    ensures
        pos <= string_body(src, pos).end <= src.len(),
        string_body(src, pos).out.is_ok() ==> pos < string_body(src, pos).end,
    decreases src.len() - pos,
{
    if pos < src.len() && src[pos] != '"' {
        if src[pos] != '\\' {
            lemma_string_body_bounded(src, pos + 1);
        } else if pos + 1 < src.len() {
            if src[pos + 1] == 'u' {
                if pos + 6 <= src.len() {
                    lemma_string_body_bounded(src, pos + 6);
                }
            } else if simple_escape(src[pos + 1]).is_some() {
                lemma_string_body_bounded(src, pos + 2);
            }
        }
    }
}

/// The span of a token lies in the text, is not empty, and ends where the scan
/// stops; the span of an error lies in the text and starts no later than it
/// ends.
#[verifier::rlimit(40)]
pub proof fn lemma_spans_are_ranges(src: Seq<char>, pos: int)
    requires
        0 <= pos <= src.len() <= usize::MAX,
    ensures
        lex_at(src, pos).out matches Ok(Some(found)) ==> pos <= found.1.start < found.1.end
            == lex_at(src, pos).end,
        lex_at(src, pos).out matches Err(error) ==> pos <= error.span.start <= error.span.end
            == lex_at(src, pos).end,
        lex_at(src, pos).end <= src.len(),
    decreases left(src, pos),
{
    lemma_lex_at_advances(src, pos);
    if pos < src.len() {
        if opens_line_comment(src, pos) {
            lemma_line_comment_bounded(src, pos + 2);
            lemma_spans_are_ranges(src, pos + 2 + line_comment_len(src, pos + 2));
        } else if opens_block_comment(src, pos) {
            lemma_block_comment_bounded(src, pos + 2);
            lemma_spans_are_ranges(src, pos + 2 + block_comment_len(src, pos + 2));
        } else if opens_negative(src, pos) {
            lemma_digit_run_bounded(src, pos + 1);
        } else if operator_at(src, pos).is_some() {
        } else if delimiter(src[pos]).is_some() {
        } else if src[pos] == '"' {
            lemma_string_body_bounded(src, pos + 1);
        } else if src[pos] == '\'' {
        } else if is_digit(src[pos]) {
            lemma_digit_run_bounded(src, pos);
        } else if alphabetic(src[pos]) {
            lemma_word_run_bounded(src, pos + 1);
        } else if whitespace(src[pos]) {
            lemma_spans_are_ranges(src, pos + 1);
        }
    }
}

/// `rest` with `first` put before its tokens.
pub open spec fn after_token(
    first: (TokenView, Span),
    rest: Result<Seq<(TokenView, Span)>, SyntaxError>,
) -> Result<Seq<(TokenView, Span)>, SyntaxError> {
    match rest {
        Ok(tokens) => Ok(seq![first] + tokens),
        Err(error) => Err(error),
    }
}

/// All the tokens of `src` from `pos` on, in order, or the first error that the
/// scan meets.
pub open spec fn lex_all(src: Seq<char>, pos: int) -> Result<Seq<(TokenView, Span)>, SyntaxError>
    decreases left(src, pos),
    when 0 <= pos <= src.len()
    via lex_all_decreases
{
    let step = lex_at(src, pos);
    match step.out {
        Ok(Some(found)) => after_token(found, lex_all(src, step.end)),
        Ok(None) => Ok(Seq::empty()),
        Err(error) => Err(error),
    }
}

/// Where the scan of all the tokens from `pos` on stops: at the end of the text, or
/// behind the first error.
pub open spec fn lex_stop(src: Seq<char>, pos: int) -> int
    decreases left(src, pos),
    when 0 <= pos <= src.len()
    via lex_stop_decreases
{
    let step = lex_at(src, pos);
    match step.out {
        Ok(Some(_)) => lex_stop(src, step.end),
        _ => step.end,
    }
}

#[via_fn]
proof fn lex_stop_decreases(src: Seq<char>, pos: int) {
    lemma_lex_at_advances(src, pos);
}

#[via_fn]
proof fn lex_all_decreases(src: Seq<char>, pos: int) {
    lemma_lex_at_advances(src, pos);
}

/// The way a bracket, a delimiter or an operator of the tokenizer is written; empty
/// for every other token.
pub open spec fn spelling(kind: TokenView) -> Seq<char> {
    match kind {
        TokenView::OpenParen => seq!['('],
        TokenView::CloseParen => seq![')'],
        TokenView::OpenBrace => seq!['{'],
        TokenView::CloseBrace => seq!['}'],
        TokenView::OpenBracket => seq!['['],
        TokenView::CloseBracket => seq![']'],
        TokenView::Comma => seq![','],
        TokenView::Semicolon => seq![';'],
        TokenView::Colon => seq![':'],
        TokenView::Dot => seq!['.'],
        TokenView::Add => seq!['+'],
        TokenView::Sub => seq!['-'],
        TokenView::Mul => seq!['*'],
        TokenView::Div => seq!['/'],
        TokenView::Mod => seq!['%'],
        TokenView::Pow => seq!['*', '*'],
        TokenView::BitAnd => seq!['&'],
        TokenView::BitOr => seq!['|'],
        TokenView::BitXor => seq!['^'],
        TokenView::And => seq!['&', '&'],
        TokenView::Or => seq!['|', '|'],
        TokenView::Not => seq!['!'],
        TokenView::Eq => seq!['=', '='],
        TokenView::Ne => seq!['!', '='],
        TokenView::Lt => seq!['<'],
        TokenView::Le => seq!['<', '='],
        TokenView::Gt => seq!['>'],
        TokenView::Ge => seq!['>', '='],
        TokenView::Assign => seq!['='],
        TokenView::AddAssign => seq!['+', '='],
        TokenView::SubAssign => seq!['-', '='],
        TokenView::MulAssign => seq!['*', '='],
        TokenView::DivAssign => seq!['/', '='],
        TokenView::ModAssign => seq!['%', '='],
        TokenView::PowAssign => seq!['*', '*', '='],
        TokenView::BitAndAssign => seq!['&', '='],
        TokenView::BitOrAssign => seq!['|', '='],
        TokenView::BitXorAssign => seq!['^', '='],
        TokenView::Arrow => seq!['-', '>'],
        _ => Seq::empty(),
    }
}

/// The characters of `word`, which is not empty, stand in `src` at `pos`.
pub open spec fn spells_at(src: Seq<char>, pos: int, word: Seq<char>) -> bool {
    &&& word.len() > 0
    &&& 0 <= pos
    &&& pos + word.len() <= src.len()
    &&& forall|i: int| 0 <= i < word.len() ==> src[pos + i] == #[trigger] word[i]
}

/// Maximal munch: where the spelling of a bracket, delimiter or operator stands at
/// `pos`, and neither a comment nor a negative literal starts there, the
/// tokenizer yields one token whose own spelling stands at `pos`, which covers
/// exactly that spelling, and which is at least as long as the given one. So
/// `+=` is never read as `+` and `=`, nor `**=` as `**` and `=`.
#[verifier::rlimit(40)]
pub proof fn lemma_maximal_munch(src: Seq<char>, pos: int, kind: TokenView)
    requires
        src.len() <= usize::MAX,
        spells_at(src, pos, spelling(kind)),
        !opens_line_comment(src, pos),
        !opens_block_comment(src, pos),
        !opens_negative(src, pos),
    ensures
        lex_at(src, pos).out matches Ok(Some(found)) && {
            &&& spells_at(src, pos, spelling(found.0))
            &&& spelling(found.0).len() >= spelling(kind).len()
            &&& found.1 == span(pos, pos + spelling(found.0).len())
            &&& lex_at(src, pos).end == pos + spelling(found.0).len()
        },
{
    let word = spelling(kind);
    assert(src[pos + 0] == word[0]);
    if word.len() >= 2 {
        assert(src[pos + 1] == word[1]);
    }
    if word.len() >= 3 {
        assert(src[pos + 2] == word[2]);
    }
    let found = lex_at(src, pos).out->Ok_0->Some_0;
    let own = spelling(found.0);
    assert forall|i: int| 0 <= i < own.len() implies src[pos + i] == #[trigger] own[i] by {
        if i == 0 {
        } else if i == 1 {
        } else {
        }
    }
}

} // verus!
