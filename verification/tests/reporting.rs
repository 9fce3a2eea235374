use openweblang::error::report::{caret_line, locate, push_decimal, report, source_line, Location};
use openweblang::error::{ErrorKind, SyntaxError};
use openweblang::lexer::{Lexer, LexerInput, Span};

#[test]
fn unterminated_string_is_anchored_at_the_opening_quote() {
    let source = "let a = 1;\nlet s = \"abc";
    let mut lexer = Lexer::new(source);
    let error = lexer.tokens().unwrap_err();
    assert_eq!(error.kind, ErrorKind::UnterminatedString);
    assert_eq!(error.span.start, 19);
    let place = locate(&lexer.input, error.span.start);
    assert_eq!(place, Location { line: 2, column: 9, line_start: 11 });
    let shown = report(&lexer.input, &error, false);
    assert_eq!(shown.excerpt, "let s = \"abc");
    assert_eq!(shown.underline, "        ^^^^");
    assert_eq!(shown.summary, "2:9: Unterminated string");
    let verbose = report(&lexer.input, &error, true);
    assert_eq!(verbose.summary, "2:9 (19..23): Unterminated string");
}

#[test]
fn locations_count_from_one() {
    let source = LexerInput::from("ab\n\ncd\n");
    assert_eq!(locate(&source, 0), Location { line: 1, column: 1, line_start: 0 });
    assert_eq!(locate(&source, 2), Location { line: 1, column: 3, line_start: 0 });
    assert_eq!(locate(&source, 3), Location { line: 2, column: 1, line_start: 3 });
    assert_eq!(locate(&source, 5), Location { line: 3, column: 2, line_start: 4 });
    assert_eq!(locate(&source, 7), Location { line: 4, column: 1, line_start: 7 });
    assert_eq!(locate(&source, 700), Location { line: 4, column: 1, line_start: 7 });
    assert_eq!(locate(&LexerInput::from(""), 3), Location { line: 1, column: 1, line_start: 0 });
}

#[test]
fn excerpt_is_the_whole_line() {
    let source = LexerInput::from("first\nsecond line\nthird");
    assert_eq!(source_line(&source, 0), "first");
    assert_eq!(source_line(&source, 5), "first");
    assert_eq!(source_line(&source, 9), "second line");
    assert_eq!(source_line(&source, 20), "third");
    assert_eq!(source_line(&source, 99), "third");
}

#[test]
fn carets_stop_at_the_end_of_the_line() {
    let source = LexerInput::from("abc def\nghi");
    assert_eq!(caret_line(&source, Span { start: 4, end: 7 }), "    ^^^");
    assert_eq!(caret_line(&source, Span { start: 4, end: 40 }), "    ^^^");
    assert_eq!(caret_line(&source, Span { start: 0, end: 1 }), "^");
    assert_eq!(caret_line(&source, Span { start: 9, end: 9 }), " ");
    assert_eq!(caret_line(&source, Span { start: 9, end: 3 }), " ");
    assert_eq!(caret_line(&source, Span { start: 7, end: 9 }), "       ");
}

#[test]
fn decimal_digits() {
    let mut text = String::from("n=");
    push_decimal(&mut text, 0);
    push_decimal(&mut text, 7);
    push_decimal(&mut text, 10);
    push_decimal(&mut text, 4096);
    assert_eq!(text, "n=07104096");
    let mut big = String::new();
    push_decimal(&mut big, usize::MAX);
    assert_eq!(big, usize::MAX.to_string());
}

#[test]
fn every_kind_has_its_message() {
    let span = Span { start: 0, end: 0 };
    let messages = [
        (ErrorKind::UnterminatedString, "Unterminated string"),
        (ErrorKind::InvalidEscapeSequence, "Invalid escape sequence"),
        (ErrorKind::InvalidCharacterLiteral, "Invalid character literal"),
        (ErrorKind::UnexpectedEndOfInput, "Unexpected end of input"),
        (ErrorKind::UnexpectedCharacter, "Unexpected character"),
        (ErrorKind::LiteralOutOfRange, "Integer literal out of range"),
        (ErrorKind::ExpectedIdentifier, "Expected identifier"),
        (ErrorKind::ExpectedOpenParen, "Expected opening paren"),
        (ErrorKind::ExpectedCloseParen, "Expected closing paren"),
        (ErrorKind::ExpectedOpenBrace, "Expected opening brace"),
        (ErrorKind::ExpectedCloseBrace, "Expected closing brace"),
        (ErrorKind::ExpectedColon, "Expected colon"),
        (ErrorKind::ExpectedComma, "Expected comma"),
        (ErrorKind::ExpectedSemicolon, "Expected semicolon"),
        (ErrorKind::ExpectedExpression, "Expected expression"),
        (ErrorKind::ExpectedPath, "Expected path"),
        (ErrorKind::UnexpectedDot, "Unexpected dot"),
        (ErrorKind::InvalidClassMember, "Only functions and variables can be members of classes"),
        (
            ErrorKind::MissingTypeOrInitializer,
            "Variables must have either an explicit type or an initial value",
        ),
    ];
    for (kind, message) in messages {
        assert_eq!(kind.message(), message);
        assert_eq!(SyntaxError { kind, span }.message(), message);
    }
}
