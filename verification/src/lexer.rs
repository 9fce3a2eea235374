use vstd::prelude::*;
use vstd::std_specs::convert::FromSpecImpl;
use crate::error::{ErrorKind, SyntaxError};
use crate::lexer::chars::{alphanumeric, char_from_code, digit_of, hex_digit_of, is_alphabetic, is_alphanumeric, is_scalar, is_whitespace, push_char, whitespace};
use crate::lexer::rules::{after_token, char_at, lemma_lex_at_advances, lex_all, lex_stop, opens_block_comment, opens_line_comment, span, token, word_at, block_comment_len, code_point, decimal_value, delimiter, digit_run, lex_at, line_comment_len, operator_at, string_body, word_run, after_char, TextScan};
use crate::lexer::token::keyword::Keyword;
use crate::lexer::token::{Token, TokenView};

pub mod chars;
pub mod rules;
pub mod token;

verus! {

/// A half-open range `[start, end)` of character offsets into the source text.
#[derive(Clone, Copy, Debug, PartialEq, Eq, Structural)]
pub struct Span {
    pub start: usize,
    pub end: usize,
}

/// What a [`LexerInput`] stands for: the whole source text and the offset of the
/// next character to read.
pub struct SourceView {
    pub text: Seq<char>,
    pub pos: int,
}

/// A cursor over the characters of a source text. It moves forward only, and
/// never past the end of the text.
pub struct LexerInput {
    data: Vec<char>,
    pos: usize,
}

impl View for LexerInput {
    type V = SourceView;

    closed spec fn view(&self) -> SourceView {
        SourceView { text: self.data@, pos: self.pos as int }
    }
}

/// `word` stands in `text` at offset `pos`.
pub open spec fn occurs_at(text: Seq<char>, pos: int, word: Seq<char>) -> bool {
    &&& 0 <= pos
    &&& pos + word.len() <= text.len()
    &&& text.subrange(pos, pos + word.len()) == word
}

impl LexerInput {
    #[verifier::type_invariant]
    spec fn in_bounds(&self) -> bool {
        self.pos <= self.data.len()
    }

    /// The length of the text fits the machine's integers.
    pub proof fn lemma_text_fits(&self)
        ensures
            self@.text.len() <= usize::MAX,
    {
        assert(self@.text.len() == self.data.len());
    }

    /// The offset of the next character to read, which is at most the length of
    /// the text.
    pub fn position(&self) -> (r: usize)
        ensures
            r == self@.pos,
            r <= self@.text.len(),
    {
        proof {
            use_type_invariant(self);
        }
        self.pos
    }

    /// The number of characters of the whole text.
    pub fn len(&self) -> (r: usize)
        ensures
            r == self@.text.len(),
            self@.pos <= r,
    {
        proof {
            use_type_invariant(self);
        }
        self.data.len()
    }

    /// The character at offset `i` of the text.
    pub fn char_at(&self, i: usize) -> (r: char)
        requires
            i < self@.text.len(),
        ensures
            r == self@.text[i as int],
    {
        self.data[i]
    }

    /// Reads the next character and moves behind it; at the end of the text
    /// there is none, and the cursor stays.
    pub fn next(&mut self) -> (r: Option<char>)
        ensures
            final(self)@.text == old(self)@.text,
            0 <= old(self)@.pos <= old(self)@.text.len(),
            old(self)@.pos < old(self)@.text.len() ==> r == Some(old(self)@.text[old(self)@.pos])
                && final(self)@.pos == old(self)@.pos + 1,
            old(self)@.pos == old(self)@.text.len() ==> r.is_none() && final(self)@.pos == old(
                self,
            )@.pos,
    {
        proof {
            use_type_invariant(&*self);
        }
        if self.pos < self.data.len() {
            let c = self.data[self.pos];
            self.pos = self.pos + 1;
            Some(c)
        } else {
            None
        }
    }

    /// Moves behind the next character if it is `c`, and says whether it did.
    pub fn peek_for(&mut self, c: char) -> (r: bool)
        ensures
            final(self)@.text == old(self)@.text,
            0 <= old(self)@.pos <= old(self)@.text.len(),
            r == (old(self)@.pos < old(self)@.text.len() && old(self)@.text[old(self)@.pos] == c),
            final(self)@.pos == old(self)@.pos + (if r {
                1int
            } else {
                0int
            }),
    {
        proof {
            use_type_invariant(&*self);
        }
        if self.pos < self.data.len() && self.data[self.pos] == c {
            self.pos = self.pos + 1;
            true
        } else {
            false
        }
    }

    /// Moves behind the characters of `s` if they are the next ones, and says
    /// whether it did. Otherwise the cursor stays.
    #[verifier::rlimit(40)]
    pub fn peek_for_str(&mut self, s: &str) -> (r: bool)
        ensures
            final(self)@.text == old(self)@.text,
            r == occurs_at(old(self)@.text, old(self)@.pos, s@),
            final(self)@.pos == old(self)@.pos + (if r {
                s@.len() as int
            } else {
                0int
            }),
    {
        proof {
            use_type_invariant(&*self);
        }
        let mut i = self.pos;
        for c in it: s.chars()
            invariant
                *self == *old(self),
                it.seq() == s@,
                i == self.pos + it.index(),
                i <= self.data.len(),
                self.pos <= self.data.len(),
                self.data@.subrange(self.pos as int, i as int) == s@.take(it.index() as int),
        {
            if i < self.data.len() && self.data[i] == c {
                i = i + 1;
                assert(self.data@.subrange(self.pos as int, i as int) =~= s@.take(it.index() + 1));
            } else {
                proof {
                    let k = it.index() as int;
                    if occurs_at(self.data@, self.pos as int, s@) {
                        assert(self.data@.subrange(self.pos as int, self.pos + s@.len())[k] == s@[k]);
                    }
                }
                return false;
            }
        }
        assert(s@.take(s@.len() as int) =~= s@);
        self.pos = i;
        true
    }

    /// Tests the next character with `func`, without moving. At the end of the
    /// text the answer is `false`.
    pub fn peek<F>(&mut self, func: F) -> (r: bool) where F: Fn(&char) -> bool
        requires
            forall|c: &char| call_requires(func, (c,)),
        ensures
            *final(self) == *old(self),
            0 <= old(self)@.pos <= old(self)@.text.len(),
            old(self)@.pos < old(self)@.text.len() ==> call_ensures(
                func,
                (&old(self)@.text[old(self)@.pos],),
                r,
            ),
            old(self)@.pos == old(self)@.text.len() ==> !r,
    {
        proof {
            use_type_invariant(&*self);
        }
        if self.pos < self.data.len() {
            func(&self.data[self.pos])
        } else {
            false
        }
    }
}

impl Clone for LexerInput {
    /// An independent cursor at the start of the same text.
    fn clone(&self) -> (r: LexerInput)
        ensures
            r@ == (SourceView { text: self@.text, pos: 0 }),
    {
        LexerInput { data: self.data.clone(), pos: 0 }
    }
}

impl From<&str> for LexerInput {
    /// A cursor at the start of the text `s`.
    fn from(s: &str) -> (r: LexerInput)
        ensures
            r@ == (SourceView { text: s@, pos: 0 }),
    {
        let mut data: Vec<char> = Vec::new();
        for c in it: s.chars()
            invariant
                data@ == it.seq().take(it.index() as int),
        {
            data.push(c);
        }
        assert(data@ =~= s@);
        LexerInput { data, pos: 0 }
    }
}

/// The contract of this conversion stands on `from` itself: a cursor cannot be
/// written down as a value in a contract, only described by its view.
impl FromSpecImpl<&str> for LexerInput {
    open spec fn obeys_from_spec() -> bool {
        false
    }

    open spec fn from_spec(s: &str) -> LexerInput {
        arbitrary()
    }
}

/// The contract of this conversion stands on `from` itself: a cursor cannot be
/// written down as a value in a contract, only described by its view.
impl FromSpecImpl<String> for LexerInput {
    open spec fn obeys_from_spec() -> bool {
        false
    }

    open spec fn from_spec(s: String) -> LexerInput {
        arbitrary()
    }
}

impl From<String> for LexerInput {
    /// A cursor at the start of the text `s`.
    fn from(s: String) -> (r: LexerInput)
        ensures
            r@ == (SourceView { text: s@, pos: 0 }),
    {
        LexerInput::from(s.as_str())
    }
}

/// What the outcome of one step of the tokenizer stands for.
pub open spec fn lexed(
    r: Result<Option<(Token, Span)>, SyntaxError>,
) -> Result<Option<(TokenView, Span)>, SyntaxError> {
    match r {
        Ok(Some(found)) => Ok(Some((found.0@, found.1))),
        Ok(None) => Ok(None),
        Err(error) => Err(error),
    }
}

/// Reads the longest run of ASCII digits at the cursor and gives the number it
/// writes in base ten, or `None` where that number does not fit in 64 bits. The
/// cursor stops behind the last digit either way.
#[verifier::rlimit(40)]
pub fn parse_number(input: &mut LexerInput) -> (r: Option<u64>)
    ensures
        final(input)@.text == old(input)@.text,
        final(input)@.pos == old(input)@.pos + digit_run(old(input)@.text, old(input)@.pos),
        final(input)@.pos <= old(input)@.text.len(),
        r == ({
            let value = decimal_value(
                old(input)@.text.subrange(old(input)@.pos, final(input)@.pos),
            );
            if value <= u64::MAX {
                Some(value as u64)
            } else {
                None
            }
        }),
{
    let ghost text = input@.text;
    let ghost start = input@.pos;
    let mut value: u64 = 0;
    let mut fits = true;
    proof {
        use_type_invariant(&*input);
        assert(text.subrange(start, start) =~= Seq::<char>::empty());
    }
    loop
        invariant
            input@.text == text,
            0 <= start <= input@.pos <= text.len(),
            digit_run(text, start) == (input@.pos - start) + digit_run(text, input@.pos),
            fits ==> value == decimal_value(text.subrange(start, input@.pos)),
            !fits ==> decimal_value(text.subrange(start, input@.pos)) > u64::MAX,
        ensures
            digit_run(text, input@.pos) == 0,
        decreases text.len() - input@.pos,
    {
        let at = input.position();
        if at >= input.len() {
            break ;
        }
        let digit = match digit_of(input.char_at(at)) {
            Some(digit) => digit,
            None => {
                break ;
            },
        };
        input.next();
        proof {
            let before = text.subrange(start, at as int);
            let now = text.subrange(start, at + 1);
            assert(now.drop_last() =~= before);
            assert(now.last() == text[at as int]);
        }
        if fits {
            match value.checked_mul(10) {
                Some(shifted) => match shifted.checked_add(digit as u64) {
                    Some(sum) => {
                        value = sum;
                    },
                    None => {
                        fits = false;
                    },
                },
                None => {
                    fits = false;
                },
            }
        }
    }
    if fits {
        Some(value)
    } else {
        None
    }
}

/// `scan` with `prefix` put before its text.
pub open spec fn after_text(prefix: Seq<char>, scan: TextScan) -> TextScan {
    TextScan {
        end: scan.end,
        out: match scan.out {
            Ok(text) => Ok(prefix + text),
            Err(kind) => Err(kind),
        },
    }
}

proof fn lemma_after_text_step(prefix: Seq<char>, c: char, scan: TextScan)
    ensures
        after_text(prefix, after_char(c, scan)) == after_text(prefix.push(c), scan),
{
    match scan.out {
        Ok(text) => {
            assert(prefix + (seq![c] + text) =~= prefix.push(c) + text);
        },
        Err(_) => {},
    }
}

/// Moves behind the rest of a line comment: behind the next line feed, or to the
/// end of the text.
fn skip_line_comment(input: &mut LexerInput)
    ensures
        final(input)@.text == old(input)@.text,
        final(input)@.pos == old(input)@.pos + line_comment_len(old(input)@.text, old(input)@.pos),
{
    let ghost text = input@.text;
    let ghost start = input@.pos;
    proof {
        use_type_invariant(&*input);
    }
    loop
        invariant_except_break
            input@.text == text,
            0 <= start <= input@.pos <= text.len(),
            line_comment_len(text, start) == (input@.pos - start) + line_comment_len(
                text,
                input@.pos,
            ),
        ensures
            input@.text == text,
            input@.pos == start + line_comment_len(text, start),
        decreases text.len() - input@.pos,
    {
        match input.next() {
            Some(c) => {
                if c == '\n' {
                    break ;
                }
            },
            None => {
                break ;
            },
        }
    }
}

/// Moves behind the rest of a block comment: behind the first `*/`, or to the
/// end of the text where the comment is never closed.
fn skip_block_comment(input: &mut LexerInput)
    ensures
        final(input)@.text == old(input)@.text,
        final(input)@.pos == old(input)@.pos + block_comment_len(
            old(input)@.text,
            old(input)@.pos,
        ),
{
    let ghost text = input@.text;
    let ghost start = input@.pos;
    proof {
        use_type_invariant(&*input);
    }
    loop
        invariant_except_break
            input@.text == text,
            0 <= start <= input@.pos <= text.len(),
            block_comment_len(text, start) == (input@.pos - start) + block_comment_len(
                text,
                input@.pos,
            ),
        ensures
            input@.text == text,
            input@.pos == start + block_comment_len(text, start),
        decreases text.len() - input@.pos,
    {
        match input.next() {
            Some(c) => {
                if c == '*' && input.peek_for('/') {
                    break ;
                }
            },
            None => {
                break ;
            },
        }
    }
}

/// Reads the operator at the cursor, the longest that the characters there
/// spell. Where no operator starts there, the cursor stays.
#[verifier::rlimit(40)]
fn operator(input: &mut LexerInput) -> (r: Option<Token>)
    ensures
        final(input)@.text == old(input)@.text,
        match operator_at(old(input)@.text, old(input)@.pos) {
            Some(found) => r matches Some(kind) && kind@ == found.0 && final(input)@.pos == old(
                input,
            )@.pos + found.1,
            None => r.is_none() && final(input)@.pos == old(input)@.pos,
        },
{
    if input.peek_for('+') {
        if input.peek_for('=') {
            Some(Token::AddAssign)
        } else {
            Some(Token::Add)
        }
    } else if input.peek_for('-') {
        if input.peek_for('=') {
            Some(Token::SubAssign)
        } else if input.peek_for('>') {
            Some(Token::Arrow)
        } else {
            Some(Token::Sub)
        }
    } else if input.peek_for('*') {
        if input.peek_for('=') {
            Some(Token::MulAssign)
        } else if input.peek_for('*') {
            if input.peek_for('=') {
                Some(Token::PowAssign)
            } else {
                Some(Token::Pow)
            }
        } else {
            Some(Token::Mul)
        }
    } else if input.peek_for('/') {
        if input.peek_for('=') {
            Some(Token::DivAssign)
        } else {
            Some(Token::Div)
        }
    } else if input.peek_for('%') {
        if input.peek_for('=') {
            Some(Token::ModAssign)
        } else {
            Some(Token::Mod)
        }
    } else if input.peek_for('&') {
        if input.peek_for('=') {
            Some(Token::BitAndAssign)
        } else if input.peek_for('&') {
            Some(Token::And)
        } else {
            Some(Token::BitAnd)
        }
    } else if input.peek_for('|') {
        if input.peek_for('=') {
            Some(Token::BitOrAssign)
        } else if input.peek_for('|') {
            Some(Token::Or)
        } else {
            Some(Token::BitOr)
        }
    } else if input.peek_for('^') {
        if input.peek_for('=') {
            Some(Token::BitXorAssign)
        } else {
            Some(Token::BitXor)
        }
    } else if input.peek_for('!') {
        if input.peek_for('=') {
            Some(Token::Ne)
        } else {
            Some(Token::Not)
        }
    } else if input.peek_for('=') {
        if input.peek_for('=') {
            Some(Token::Eq)
        } else {
            Some(Token::Assign)
        }
    } else if input.peek_for('<') {
        if input.peek_for('=') {
            Some(Token::Le)
        } else {
            Some(Token::Lt)
        }
    } else if input.peek_for('>') {
        if input.peek_for('=') {
            Some(Token::Ge)
        } else {
            Some(Token::Gt)
        }
    } else {
        None
    }
}

/// The bracket or delimiter that `c` is by itself.
fn delimiter_token(c: char) -> (r: Option<Token>)
    ensures
        match delimiter(c) {
            Some(kind) => r matches Some(found) && found@ == kind,
            None => r.is_none(),
        },
{
    if c == '(' {
        Some(Token::OpenParen)
    } else if c == ')' {
        Some(Token::CloseParen)
    } else if c == '{' {
        Some(Token::OpenBrace)
    } else if c == '}' {
        Some(Token::CloseBrace)
    } else if c == '[' {
        Some(Token::OpenBracket)
    } else if c == ']' {
        Some(Token::CloseBracket)
    } else if c == ',' {
        Some(Token::Comma)
    } else if c == ';' {
        Some(Token::Semicolon)
    } else if c == '.' {
        Some(Token::Dot)
    } else if c == ':' {
        Some(Token::Colon)
    } else {
        None
    }
}

/// Reads what stands behind `\u` in a string literal: four hexadecimal digits
/// that write the code point of one character.
fn unicode_escape(input: &mut LexerInput) -> (r: Result<char, ErrorKind>)
    ensures
        final(input)@.text == old(input)@.text,
        0 <= old(input)@.pos <= old(input)@.text.len(),
        old(input)@.pos + 4 > old(input)@.text.len() ==> r == Err::<char, ErrorKind>(
            ErrorKind::UnterminatedString,
        ) && final(input)@.pos == old(input)@.text.len(),
        old(input)@.pos + 4 <= old(input)@.text.len() ==> final(input)@.pos == old(input)@.pos + 4
            && r == (match code_point(old(input)@.text, old(input)@.pos) {
            Some(v) => if is_scalar(v) {
                Ok(v as char)
            } else {
                Err(ErrorKind::InvalidEscapeSequence)
            },
            None => Err(ErrorKind::InvalidEscapeSequence),
        }),
{
    let a = match input.next() {
        Some(c) => c,
        None => {
            return Err(ErrorKind::UnterminatedString);
        },
    };
    let b = match input.next() {
        Some(c) => c,
        None => {
            return Err(ErrorKind::UnterminatedString);
        },
    };
    let c = match input.next() {
        Some(c) => c,
        None => {
            return Err(ErrorKind::UnterminatedString);
        },
    };
    let d = match input.next() {
        Some(c) => c,
        None => {
            return Err(ErrorKind::UnterminatedString);
        },
    };
    match (hex_digit_of(a), hex_digit_of(b), hex_digit_of(c), hex_digit_of(d)) {
        (Some(a), Some(b), Some(c), Some(d)) => {
            let v: u32 = ((a as u32 * 16 + b as u32) * 16 + c as u32) * 16 + d as u32;
            match char_from_code(v) {
                Some(found) => Ok(found),
                None => Err(ErrorKind::InvalidEscapeSequence),
            }
        },
        _ => Err(ErrorKind::InvalidEscapeSequence),
    }
}

/// Reads the body of a string literal, the opening quote being read already:
/// the text up to the closing quote, with its escapes decoded.
#[verifier::rlimit(40)]
fn string_literal(input: &mut LexerInput) -> (r: Result<String, ErrorKind>)
    ensures
        final(input)@.text == old(input)@.text,
        final(input)@.pos == string_body(old(input)@.text, old(input)@.pos).end,
        match r {
            Ok(text) => string_body(old(input)@.text, old(input)@.pos).out == Ok::<
                Seq<char>,
                ErrorKind,
            >(text@),
            Err(kind) => string_body(old(input)@.text, old(input)@.pos).out == Err::<
                Seq<char>,
                ErrorKind,
            >(kind),
        },
{
    let ghost src = input@.text;
    let ghost start = input@.pos;
    let mut text = String::new();
    proof {
        use_type_invariant(&*input);
        assert(Seq::<char>::empty() + Seq::<char>::empty() =~= Seq::<char>::empty());
        match string_body(src, start).out {
            Ok(t) => {
                assert(Seq::<char>::empty() + t =~= t);
            },
            Err(_) => {},
        }
    }
    loop
        invariant
            src == old(input)@.text,
            start == old(input)@.pos,
            input@.text == src,
            0 <= input@.pos <= src.len(),
            string_body(src, start) == after_text(text@, string_body(src, input@.pos)),
        decreases src.len() - input@.pos,
    {
        let ghost at = input@.pos;
        let c = match input.next() {
            Some(c) => c,
            None => {
                return Err(ErrorKind::UnterminatedString);
            },
        };
        if c == '"' {
            proof {
                assert(text@ + Seq::<char>::empty() =~= text@);
            }
            return Ok(text);
        }
        let decoded = if c == '\\' {
            let escape = match input.next() {
                Some(c) => c,
                None => {
                    return Err(ErrorKind::UnterminatedString);
                },
            };
            if escape == 'u' {
                match unicode_escape(input) {
                    Ok(found) => found,
                    Err(kind) => {
                        return Err(kind);
                    },
                }
            } else if escape == 'n' {
                '\n'
            } else if escape == 'r' {
                '\r'
            } else if escape == 't' {
                '\t'
            } else if escape == '\\' {
                '\\'
            } else if escape == '"' {
                '"'
            } else {
                return Err(ErrorKind::InvalidEscapeSequence);
            }
        } else {
            c
        };
        proof {
            lemma_after_text_step(text@, decoded, string_body(src, input@.pos));
        }
        push_char(&mut text, decoded);
    }
}

/// Reads the character literal at the cursor, whose opening quote is at `start`
/// and read already.
fn char_literal(input: &mut LexerInput, start: usize) -> (r: Result<(Token, Span), SyntaxError>)
    requires
        old(input)@.pos == start + 1,
    ensures
        final(input)@.text == old(input)@.text,
        final(input)@.pos == char_at(old(input)@.text, start as int).end,
        lexed(
            match r {
                Ok(found) => Ok(Some(found)),
                Err(error) => Err(error),
            },
        ) == char_at(old(input)@.text, start as int).out,
{
    match input.next() {
        Some(c) => {
            if input.peek_for('\'') {
                Ok((Token::CharLiteral(c), Span { start, end: input.position() }))
            } else {
                Err(
                    SyntaxError {
                        kind: ErrorKind::InvalidCharacterLiteral,
                        span: Span { start, end: input.position() },
                    },
                )
            }
        },
        None => Err(
            SyntaxError {
                kind: ErrorKind::UnexpectedEndOfInput,
                span: Span { start, end: input.position() },
            },
        ),
    }
}

/// Reads the keyword or identifier at the cursor, which stands before a letter.
#[verifier::rlimit(40)]
fn word(input: &mut LexerInput) -> (r: Token)
    requires
        old(input)@.pos < old(input)@.text.len(),
    ensures
        final(input)@.text == old(input)@.text,
        token(r@, old(input)@.pos, final(input)@.pos) == word_at(
            old(input)@.text,
            old(input)@.pos,
        ),
{
    let ghost src = input@.text;
    let ghost start = input@.pos;
    let mut text = String::new();
    match input.next() {
        Some(c) => {
            push_char(&mut text, c);
        },
        None => {},
    }
    proof {
        assert(text@ =~= src.subrange(start, start + 1));
    }
    loop
        invariant
            input@.text == src,
            0 <= start < input@.pos <= src.len(),
            text@ == src.subrange(start, input@.pos),
            word_run(src, start + 1) == (input@.pos - start - 1) + word_run(src, input@.pos),
        ensures
            word_run(src, input@.pos) == 0,
        decreases src.len() - input@.pos,
    {
        let more = input.peek(
            |c: &char| -> (b: bool)
                ensures b == alphanumeric(*c)
                { is_alphanumeric(*c) }
        );
        if !more {
            break ;
        }
        let ghost at = input@.pos;
        match input.next() {
            Some(c) => {
                push_char(&mut text, c);
            },
            None => {},
        }
        proof {
            assert(text@ =~= src.subrange(start, at + 1));
        }
    }
    match Keyword::from_str(text.as_str()) {
        Ok(keyword) => Token::Keyword(keyword),
        Err(_) => Token::Identifier(text),
    }
}

/// Turns source text into tokens, one at a time.
pub struct Lexer {
    pub input: LexerInput,
}

impl Lexer {
    /// A tokenizer at the start of `input`.
    pub fn new<T: Into<LexerInput>>(input: T) -> (r: Lexer)
        requires
            call_requires(T::into, (input,)),
        ensures
            call_ensures(T::into, (input,), r.input),
    {
        Lexer { input: input.into() }
    }

    /// Reads the next token, passing over whitespace and comments before it.
    /// At the end of the text there is none. After an error the cursor stands
    /// behind the characters that the error's span covers.
    pub fn next(&mut self) -> (r: Result<Option<(Token, Span)>, SyntaxError>)
        ensures
            final(self).input@.text == old(self).input@.text,
            final(self).input@.pos == lex_at(old(self).input@.text, old(self).input@.pos).end,
            lexed(r) == lex_at(old(self).input@.text, old(self).input@.pos).out,
            r matches Ok(Some(found)) ==> old(self).input@.pos <= found.1.start < found.1.end
                <= old(self).input@.text.len(),
            r matches Err(error) ==> old(self).input@.pos <= error.span.start <= error.span.end
                <= old(self).input@.text.len(),
    {
        let ghost src = self.input@.text;
        let ghost origin = self.input@.pos;
        proof {
            self.input.lemma_text_fits();
            use_type_invariant(&self.input);
            crate::lexer::rules::lemma_spans_are_ranges(src, origin);
        }
        self.scan()
    }

    /// Reads the next token as [`Lexer::next`] does.
    #[verifier::rlimit(40)]
    fn scan(&mut self) -> (r: Result<Option<(Token, Span)>, SyntaxError>)
        ensures
            final(self).input@.text == old(self).input@.text,
            final(self).input@.pos == lex_at(old(self).input@.text, old(self).input@.pos).end,
            lexed(r) == lex_at(old(self).input@.text, old(self).input@.pos).out,
    {
        let ghost src = self.input@.text;
        let ghost origin = self.input@.pos;
        proof {
            use_type_invariant(&self.input);
        }
        loop
            invariant
                src == old(self).input@.text,
                origin == old(self).input@.pos,
                self.input@.text == src,
                0 <= self.input@.pos <= src.len(),
                lex_at(src, self.input@.pos) == lex_at(src, origin),
            decreases src.len() - self.input@.pos,
        {
            let start = self.input.position();
            if start >= self.input.len() {
                return Ok(None);
            }
            let c = self.input.char_at(start);
            if c == '/' {
                if self.input.peek_for_str("//") {
                    proof {
                        reveal_strlit("//");
                        assert(src.subrange(start as int, start + 2)[0] == '/');
                        assert(src.subrange(start as int, start + 2)[1] == '/');
                        crate::lexer::rules::lemma_line_comment_bounded(src, start + 2);
                    }
                    skip_line_comment(&mut self.input);
                    continue ;
                }
                if self.input.peek_for_str("/*") {
                    proof {
                        reveal_strlit("/*");
                        assert(src.subrange(start as int, start + 2)[0] == '/');
                        assert(src.subrange(start as int, start + 2)[1] == '*');
                        crate::lexer::rules::lemma_block_comment_bounded(src, start + 2);
                    }
                    skip_block_comment(&mut self.input);
                    continue ;
                }
                proof {
                    reveal_strlit("//");
                    reveal_strlit("/*");
                    if opens_line_comment(src, start as int) {
                        assert(src.subrange(start as int, start + 2) =~= "//"@);
                    }
                    if opens_block_comment(src, start as int) {
                        assert(src.subrange(start as int, start + 2) =~= "/*"@);
                    }
                }
            }
            if c == '-' && start + 1 < self.input.len() && digit_of(
                self.input.char_at(start + 1),
            ).is_some() {
                self.input.next();
                return match parse_number(&mut self.input) {
                    Some(magnitude) => {
                        if magnitude <= 0x7fff_ffff_ffff_ffff {
                            Ok(
                                Some(
                                    (
                                        Token::SignedLiteral(-(magnitude as i64)),
                                        Span { start, end: self.input.position() },
                                    ),
                                ),
                            )
                        } else if magnitude == 0x8000_0000_0000_0000 {
                            Ok(
                                Some(
                                    (
                                        Token::SignedLiteral(i64::MIN),
                                        Span { start, end: self.input.position() },
                                    ),
                                ),
                            )
                        } else {
                            Err(
                                SyntaxError {
                                    kind: ErrorKind::LiteralOutOfRange,
                                    span: Span { start, end: self.input.position() },
                                },
                            )
                        }
                    },
                    None => Err(
                        SyntaxError {
                            kind: ErrorKind::LiteralOutOfRange,
                            span: Span { start, end: self.input.position() },
                        },
                    ),
                };
            }
            match operator(&mut self.input) {
                Some(kind) => {
                    return Ok(Some((kind, Span { start, end: self.input.position() })));
                },
                None => {},
            }
            match delimiter_token(c) {
                Some(kind) => {
                    self.input.next();
                    return Ok(Some((kind, Span { start, end: self.input.position() })));
                },
                None => {},
            }
            if c == '"' {
                self.input.next();
                return match string_literal(&mut self.input) {
                    Ok(text) => Ok(
                        Some((Token::StringLiteral(text), Span { start, end: self.input.position() })),
                    ),
                    Err(kind) => Err(
                        SyntaxError { kind, span: Span { start, end: self.input.position() } },
                    ),
                };
            }
            if c == '\'' {
                self.input.next();
                return match char_literal(&mut self.input, start) {
                    Ok(found) => Ok(Some(found)),
                    Err(error) => Err(error),
                };
            }
            if digit_of(c).is_some() {
                return match parse_number(&mut self.input) {
                    Some(value) => Ok(
                        Some(
                            (Token::UnsignedLiteral(value), Span { start, end: self.input.position() }),
                        ),
                    ),
                    None => Err(
                        SyntaxError {
                            kind: ErrorKind::LiteralOutOfRange,
                            span: Span { start, end: self.input.position() },
                        },
                    ),
                };
            }
            if is_alphabetic(c) {
                let kind = word(&mut self.input);
                return Ok(Some((kind, Span { start, end: self.input.position() })));
            }
            self.input.next();
            if !is_whitespace(c) {
                return Err(
                    SyntaxError {
                        kind: ErrorKind::UnexpectedCharacter,
                        span: Span { start, end: self.input.position() },
                    },
                );
            }
        }
    }

    /// Reads all the tokens that are left, in order. The first error ends the
    /// scan and is returned in their place.
    #[verifier::rlimit(40)]
    pub fn tokens(&mut self) -> (r: Result<Vec<(Token, Span)>, SyntaxError>)
        ensures
            final(self).input@.text == old(self).input@.text,
            final(self).input@.pos == lex_stop(old(self).input@.text, old(self).input@.pos),
            match r {
                Ok(found) => lex_all(old(self).input@.text, old(self).input@.pos) == Ok::<
                    Seq<(TokenView, Span)>,
                    SyntaxError,
                >(stream_view(found@)) && final(self).input@.pos == old(self).input@.text.len(),
                Err(error) => lex_all(old(self).input@.text, old(self).input@.pos) == Err::<
                    Seq<(TokenView, Span)>,
                    SyntaxError,
                >(error),
            },
    {
        let ghost src = self.input@.text;
        let ghost origin = self.input@.pos;
        let mut found: Vec<(Token, Span)> = Vec::new();
        proof {
            use_type_invariant(&self.input);
            assert(stream_view(found@) =~= Seq::empty());
            lemma_after_tokens_empty(lex_all(src, origin));
        }
        loop
            invariant
                src == old(self).input@.text,
                origin == old(self).input@.pos,
                self.input@.text == src,
                0 <= self.input@.pos <= src.len(),
                lex_stop(src, origin) == lex_stop(src, self.input@.pos),
                lex_all(src, origin) == after_tokens(
                    stream_view(found@),
                    lex_all(src, self.input@.pos),
                ),
            decreases src.len() - self.input@.pos,
        {
            let ghost at = self.input@.pos;
            proof {
                lemma_lex_at_advances(src, at);
            }
            match self.next() {
                Ok(Some(next)) => {
                    proof {
                        lemma_after_tokens_step(
                            stream_view(found@),
                            (next.0@, next.1),
                            lex_all(src, self.input@.pos),
                        );
                        assert(stream_view(found@.push(next)) =~= stream_view(found@).push(
                            (next.0@, next.1),
                        ));
                    }
                    found.push(next);
                },
                Ok(None) => {
                    proof {
                        assert(stream_view(found@) + Seq::empty() =~= stream_view(found@));
                    }
                    return Ok(found);
                },
                Err(error) => {
                    return Err(error);
                },
            }
        }
    }
}

/// What a sequence of tokens with their spans stands for.
pub open spec fn stream_view(tokens: Seq<(Token, Span)>) -> Seq<(TokenView, Span)> {
    Seq::new(tokens.len(), |i: int| (tokens[i].0@, tokens[i].1))
}

/// `rest` with `prefix` put before its tokens.
pub open spec fn after_tokens(
    prefix: Seq<(TokenView, Span)>,
    rest: Result<Seq<(TokenView, Span)>, SyntaxError>,
) -> Result<Seq<(TokenView, Span)>, SyntaxError> {
    match rest {
        Ok(tokens) => Ok(prefix + tokens),
        Err(error) => Err(error),
    }
}

proof fn lemma_after_tokens_empty(rest: Result<Seq<(TokenView, Span)>, SyntaxError>)
    ensures
        after_tokens(Seq::empty(), rest) == rest,
{
    match rest {
        Ok(tokens) => {
            assert(Seq::<(TokenView, Span)>::empty() + tokens =~= tokens);
        },
        Err(_) => {},
    }
}

proof fn lemma_after_tokens_step(
    prefix: Seq<(TokenView, Span)>,
    first: (TokenView, Span),
    rest: Result<Seq<(TokenView, Span)>, SyntaxError>,
)
    ensures
        after_tokens(prefix, after_token(first, rest)) == after_tokens(prefix.push(first), rest),
{
    match rest {
        Ok(tokens) => {
            assert(prefix + (seq![first] + tokens) =~= prefix.push(first) + tokens);
        },
        Err(_) => {},
    }
}

} // verus!
