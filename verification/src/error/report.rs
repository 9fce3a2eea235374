use vstd::prelude::*;
use crate::error::SyntaxError;
use crate::lexer::chars::{is_digit, push_char};
use crate::lexer::rules::decimal_value;
use crate::lexer::{LexerInput, Span};

verus! {

/// The offset that a report is anchored at: `offset`, or the end of the text where
/// `offset` lies behind it.
pub open spec fn anchor(text: Seq<char>, offset: int) -> int {
    if offset < 0 {
        0
    } else if offset > text.len() {
        text.len() as int
    } else {
        offset
    }
}

/// The number of line feeds among the first `upto` characters of `text`.
pub open spec fn line_feeds(text: Seq<char>, upto: int) -> nat
    decreases upto,
{
    if upto <= 0 || upto > text.len() {
        0
    } else if text[upto - 1] == '\n' {
        1 + line_feeds(text, upto - 1)
    } else {
        line_feeds(text, upto - 1)
    }
}

/// The offset at which the line that holds offset `upto` begins: behind the last
/// line feed before `upto`, or at the start of the text.
pub open spec fn line_begin(text: Seq<char>, upto: int) -> int
    decreases upto,
{
    if upto <= 0 || upto > text.len() {
        0
    } else if text[upto - 1] == '\n' {
        upto
    } else {
        line_begin(text, upto - 1)
    }
}

/// The number of characters from `from` up to the next line feed or the end of the
/// text.
pub open spec fn line_rest(text: Seq<char>, from: int) -> nat
    decreases text.len() - from,
{
    if from < 0 || from >= text.len() || text[from] == '\n' {
        0
    } else {
        1 + line_rest(text, from + 1)
    }
}

/// A count that starts at one, as far as the machine's integers reach.
pub open spec fn one_based(n: int) -> usize {
    if n < usize::MAX {
        (n + 1) as usize
    } else {
        usize::MAX
    }
}

/// The digits that write `n` in base ten, without leading zeros.
pub open spec fn decimal_digits(n: nat) -> Seq<char>
    decreases n,
{
    if n < 10 {
        seq![(n + '0' as nat) as char]
    } else {
        decimal_digits(n / 10).push((n % 10 + '0' as nat) as char)
    }
}

/// Where an offset lies in the source text.
#[derive(Clone, Copy, Debug, PartialEq, Eq, Structural)]
pub struct Location {
    /// The number of the line, the first being 1.
    pub line: usize,
    /// The number of the character in its line, the first being 1.
    pub column: usize,
    /// The offset at which the line begins.
    pub line_start: usize,
}

/// The line and column of `offset` in `text`.
pub open spec fn location(text: Seq<char>, offset: int) -> Location {
    let at = anchor(text, offset);
    Location {
        line: one_based(line_feeds(text, at) as int),
        column: one_based(at - line_begin(text, at)),
        line_start: line_begin(text, at) as usize,
    }
}

/// The whole line of `text` that holds `offset`, without its line feed.
pub open spec fn excerpt(text: Seq<char>, offset: int) -> Seq<char> {
    let begin = line_begin(text, anchor(text, offset));
    text.subrange(begin, begin + line_rest(text, begin))
}

/// The number of carets that mark `span` in its line: as many as the span has
/// characters, but no more than the line has left from the span's start.
pub open spec fn caret_count(text: Seq<char>, span: Span) -> nat {
    let at = anchor(text, span.start as int);
    let begin = line_begin(text, at);
    let left = line_rest(text, begin) - (at - begin);
    let wanted = if span.end >= span.start {
        span.end - span.start
    } else {
        0
    };
    if wanted <= left {
        wanted as nat
    } else if left >= 0 {
        left as nat
    } else {
        0
    }
}

/// The line under the excerpt: spaces up to the column of the span's start, then
/// the carets.
pub open spec fn underline(text: Seq<char>, span: Span) -> Seq<char> {
    let at = anchor(text, span.start as int);
    Seq::new((at - line_begin(text, at)) as nat, |i: int| ' ') + Seq::new(
        caret_count(text, span),
        |i: int| '^',
    )
}

/// The last line of a report: line and column, the span too where `verbose` is
/// set, and the message.
pub open spec fn summary(text: Seq<char>, span: Span, message: Seq<char>, verbose: bool) -> Seq<
    char,
> {
    let place = location(text, span.start as int);
    let head = decimal_digits(place.line as nat) + seq![':'] + decimal_digits(place.column as nat);
    if verbose {
        head + seq![' ', '('] + decimal_digits(span.start as nat) + seq!['.', '.'] + decimal_digits(
            span.end as nat,
        ) + seq![')', ':', ' '] + message
    } else {
        head + seq![':', ' '] + message
    }
}

/// Writing a number in base ten and reading the digits back gives the number.
pub proof fn lemma_decimal_round_trip(n: nat)
    ensures
        decimal_value(decimal_digits(n)) == n,
        decimal_digits(n).len() >= 1,
        forall|i: int| 0 <= i < decimal_digits(n).len() ==> is_digit(#[trigger] decimal_digits(n)[i]),
    decreases n,
{
    reveal_with_fuel(decimal_value, 2);
    if n < 10 {
        let one = decimal_digits(n);
        assert(one.drop_last() =~= Seq::<char>::empty());
    } else {
        lemma_decimal_round_trip(n / 10);
        let digit = ((n % 10) + '0' as nat) as char;
        assert(decimal_digits(n).drop_last() =~= decimal_digits(n / 10));
        assert(decimal_digits(n).last() == digit);
    }
}

proof fn lemma_line_begin_bounds(text: Seq<char>, upto: int)
    requires
        0 <= upto <= text.len(),
    ensures
        0 <= line_begin(text, upto) <= upto,
        line_feeds(text, upto) <= upto,
    decreases upto,
{
    if upto > 0 {
        lemma_line_begin_bounds(text, upto - 1);
    }
}

proof fn lemma_line_rest_covers(text: Seq<char>, begin: int, at: int)
    requires
        0 <= begin <= at <= text.len(),
        forall|i: int| begin <= i < at ==> text[i] != '\n',
    ensures
        line_rest(text, begin) == (at - begin) + line_rest(text, at),
        begin + line_rest(text, begin) <= text.len(),
    decreases at - begin,
{
    if begin < at {
        lemma_line_rest_covers(text, begin + 1, at);
    } else {
        lemma_line_rest_bounded(text, at);
    }
}

proof fn lemma_line_rest_bounded(text: Seq<char>, from: int)
    requires
        0 <= from <= text.len(),
    ensures
        from + line_rest(text, from) <= text.len(),
    decreases text.len() - from,
{
    if from < text.len() && text[from] != '\n' {
        lemma_line_rest_bounded(text, from + 1);
    }
}

proof fn lemma_line_has_no_feed(text: Seq<char>, upto: int)
    requires
        0 <= upto <= text.len(),
    ensures
        forall|i: int| line_begin(text, upto) <= i < upto ==> text[i] != '\n',
    decreases upto,
{
    if upto > 0 && text[upto - 1] != '\n' {
        lemma_line_has_no_feed(text, upto - 1);
    }
}

/// Finds the line and column of `offset` in the text of `source`, counting both
/// from 1. An offset behind the end of the text counts as the end.
#[verifier::rlimit(40)]
pub fn locate(source: &LexerInput, offset: usize) -> (r: Location)
    ensures
        r == location(source@.text, offset as int),
        r.line_start == line_begin(source@.text, anchor(source@.text, offset as int)),
        r.line_start <= anchor(source@.text, offset as int) <= source@.text.len(),
{
    let ghost text = source@.text;
    let len = source.len();
    let at = if offset > len {
        len
    } else {
        offset
    };
    let mut feeds: usize = 0;
    let mut begin: usize = 0;
    let mut i: usize = 0;
    while i < at
        invariant
            text == source@.text,
            i <= at <= text.len(),
            feeds == line_feeds(text, i as int),
            begin == line_begin(text, i as int),
            feeds <= i,
            begin <= i,
        decreases at - i,
    {
        if source.char_at(i) == '\n' {
            feeds = feeds + 1;
            begin = i + 1;
        }
        i = i + 1;
    }
    let line = if feeds < usize::MAX {
        feeds + 1
    } else {
        usize::MAX
    };
    let column = if at - begin < usize::MAX {
        at - begin + 1
    } else {
        usize::MAX
    };
    Location { line, column, line_start: begin }
}

/// The whole line of the text of `source` that holds `offset`, without its line
/// feed.
pub fn source_line(source: &LexerInput, offset: usize) -> (r: String)
    ensures
        r@ == excerpt(source@.text, offset as int),
{
    let ghost text = source@.text;
    let begin = locate(source, offset).line_start;
    let len = source.len();
    let mut line = String::new();
    let mut i = begin;
    proof {
        assert(text.subrange(begin as int, begin as int) =~= Seq::<char>::empty());
    }
    while i < len && source.char_at(i) != '\n'
        invariant
            text == source@.text,
            len == text.len(),
            begin <= i <= len,
            line@ == text.subrange(begin as int, i as int),
            line_rest(text, begin as int) == (i - begin) + line_rest(text, i as int),
        decreases len - i,
    {
        push_char(&mut line, source.char_at(i));
        proof {
            assert(line@ =~= text.subrange(begin as int, i + 1));
        }
        i = i + 1;
    }
    line
}

/// The line to print under the excerpt: spaces up to the column of the span's
/// start, then one caret for each character of the span that lies in the line.
#[verifier::rlimit(40)]
pub fn caret_line(source: &LexerInput, span: Span) -> (r: String)
    ensures
        r@ == underline(source@.text, span),
{
    let ghost text = source@.text;
    let len = source.len();
    let at = if span.start > len {
        len
    } else {
        span.start
    };
    let begin = locate(source, span.start).line_start;
    proof {
        lemma_line_has_no_feed(text, at as int);
        lemma_line_rest_covers(text, begin as int, at as int);
        lemma_line_rest_bounded(text, at as int);
    }
    let mut rest: usize = 0;
    while at + rest < len && source.char_at(at + rest) != '\n'
        invariant
            text == source@.text,
            len == text.len(),
            at + rest <= len,
            line_rest(text, at as int) == rest + line_rest(text, at + rest),
        decreases len - at - rest,
    {
        rest = rest + 1;
    }
    let wanted = if span.end >= span.start {
        span.end - span.start
    } else {
        0
    };
    let carets = if wanted <= rest {
        wanted
    } else {
        rest
    };
    let mut line = String::new();
    let mut i: usize = 0;
    while i < at - begin
        invariant
            begin <= at,
            i <= at - begin,
            line@ == Seq::new(i as nat, |k: int| ' '),
        decreases at - begin - i,
    {
        push_char(&mut line, ' ');
        proof {
            assert(line@ =~= Seq::new((i + 1) as nat, |k: int| ' '));
        }
        i = i + 1;
    }
    let ghost spaces = line@;
    let mut j: usize = 0;
    proof {
        assert(line@ =~= spaces + Seq::new(0, |k: int| '^'));
    }
    while j < carets
        invariant
            j <= carets,
            line@ == spaces + Seq::new(j as nat, |k: int| '^'),
        decreases carets - j,
    {
        push_char(&mut line, '^');
        proof {
            assert(line@ =~= spaces + Seq::new((j + 1) as nat, |k: int| '^'));
        }
        j = j + 1;
    }
    line
}

/// Puts the digits that write `n` in base ten at the end of `text`.
#[verifier::rlimit(40)]
pub fn push_decimal(text: &mut String, n: usize)
    ensures
        final(text)@ == old(text)@ + decimal_digits(n as nat),
    decreases n,
{
    if n >= 10 {
        push_decimal(text, n / 10);
    }
    let digit = (n % 10) as u8;
    proof {
        assert(old(text)@ + decimal_digits((n / 10) as nat).push(
            ((n % 10) as nat + '0' as nat) as char,
        ) =~= (old(text)@ + decimal_digits((n / 10) as nat)).push(
            ((n % 10) as nat + '0' as nat) as char,
        ));
        assert(old(text)@ + seq![(n as nat + '0' as nat) as char] =~= old(text)@.push(
            (n as nat + '0' as nat) as char,
        ));
    }
    push_char(text, (48u8 + digit) as char);
}

/// Puts the characters of `more` at the end of `text`.
pub fn push_text(text: &mut String, more: &str)
    ensures
        final(text)@ == old(text)@ + more@,
{
    let ghost before = text@;
    proof {
        assert(before + more@.take(0) =~= before);
    }
    for c in it: more.chars()
        invariant
            it.seq() == more@,
            text@ == before + more@.take(it.index() as int),
    {
        proof {
            assert(before + more@.take(it.index() + 1) =~= (before + more@.take(
                it.index() as int,
            )).push(c));
        }
        push_char(text, c);
    }
    proof {
        assert(more@.take(more@.len() as int) =~= more@);
    }
}

/// A report of an error, ready to be shown line by line.
pub struct Report {
    /// The line of the source text that holds the start of the error.
    pub excerpt: String,
    /// Spaces and carets that mark the error under the excerpt.
    pub underline: String,
    /// Line, column and message.
    pub summary: String,
}

/// Draws up the report of `error` in the text of `source`: the source line, the
/// carets under it, and a last line that gives line, column and message, and
/// the span too where `verbose` is set.
#[verifier::rlimit(40)]
pub fn report(source: &LexerInput, error: &SyntaxError, verbose: bool) -> (r: Report)
    ensures
        r.excerpt@ == excerpt(source@.text, error.span.start as int),
        r.underline@ == underline(source@.text, error.span),
        r.summary@ == summary(source@.text, error.span, error.kind.message_text(), verbose),
{
    let place = locate(source, error.span.start);
    let mut last = String::new();
    push_decimal(&mut last, place.line);
    push_char(&mut last, ':');
    push_decimal(&mut last, place.column);
    if verbose {
        push_text(&mut last, " (");
        push_decimal(&mut last, error.span.start);
        push_text(&mut last, "..");
        push_decimal(&mut last, error.span.end);
        push_text(&mut last, "): ");
    } else {
        push_text(&mut last, ": ");
    }
    push_text(&mut last, error.message());
    proof {
        reveal_strlit(" (");
        reveal_strlit("..");
        reveal_strlit("): ");
        reveal_strlit(": ");
        assert(" ("@ =~= seq![' ', '(']);
        assert(".."@ =~= seq!['.', '.']);
        assert("): "@ =~= seq![')', ':', ' ']);
        assert(": "@ =~= seq![':', ' ']);
        assert(Seq::<char>::empty() + decimal_digits(place.line as nat) =~= decimal_digits(
            place.line as nat,
        ));
        assert(decimal_digits(place.line as nat).push(':') =~= decimal_digits(place.line as nat)
            + seq![':']);
    }
    Report {
        excerpt: source_line(source, error.span.start),
        underline: caret_line(source, error.span),
        summary: last,
    }
}

} // verus!
