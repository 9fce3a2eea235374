use openweblang::error::{ErrorKind, SyntaxError};
use openweblang::lexer::token::keyword::Keyword;
use openweblang::lexer::token::Token;
use openweblang::lexer::{parse_number, Lexer, LexerInput, Span};

const SAMPLE: &str = "import std.io.{print, read};\n\n// entry point\nclass Point {\n    let x: Int;\n    function norm(self: Point) -> Int { self.x * self.x }\n}\n\nfunction main(argc: Int) -> Int {\n    let total = -5;\n    /* block // comment */\n    total += 12;\n    print(\"sum\\n\", total);\n    total\n}\n";

fn kinds(source: &str) -> Vec<Token> {
    let mut lexer = Lexer::new(source);
    lexer.tokens().unwrap().into_iter().map(|t| t.0).collect()
}

fn failure(source: &str) -> SyntaxError {
    let mut lexer = Lexer::new(source);
    lexer.tokens().unwrap_err()
}

fn ident(name: &str) -> Token {
    Token::Identifier(name.to_string())
}

#[test]
fn lexer() {
    let mut lexer = Lexer::new(SAMPLE);
    let tokens = lexer.tokens().unwrap();
    println!("{:?}", tokens);
    assert_eq!(tokens.len(), 66);
    assert_eq!(tokens[0].0, Token::Keyword(Keyword::Import));
    assert_eq!(tokens[0].1, Span { start: 0, end: 6 });
    assert_eq!(tokens[1].0, ident("std"));
    assert_eq!(tokens[65].0, Token::CloseBrace);
    for (_, span) in tokens.iter() {
        assert!(span.start < span.end);
        assert!(span.end <= SAMPLE.chars().count());
    }
    assert_eq!(lexer.input.position(), SAMPLE.chars().count());
}

#[test]
fn maximal_munch_compound_assignment() {
    assert_eq!(kinds("+="), vec![Token::AddAssign]);
    assert_eq!(kinds("-="), vec![Token::SubAssign]);
    assert_eq!(kinds("*="), vec![Token::MulAssign]);
    assert_eq!(kinds("/="), vec![Token::DivAssign]);
    assert_eq!(kinds("%="), vec![Token::ModAssign]);
    assert_eq!(kinds("&="), vec![Token::BitAndAssign]);
    assert_eq!(kinds("|="), vec![Token::BitOrAssign]);
    assert_eq!(kinds("^="), vec![Token::BitXorAssign]);
}

#[test]
fn maximal_munch_doubled_operators() {
    assert_eq!(kinds("**"), vec![Token::Pow]);
    assert_eq!(kinds("**="), vec![Token::PowAssign]);
    assert_eq!(kinds("&&"), vec![Token::And]);
    assert_eq!(kinds("||"), vec![Token::Or]);
    assert_eq!(kinds("=="), vec![Token::Eq]);
    assert_eq!(kinds("!="), vec![Token::Ne]);
    assert_eq!(kinds("<="), vec![Token::Le]);
    assert_eq!(kinds(">="), vec![Token::Ge]);
    assert_eq!(kinds("->"), vec![Token::Arrow]);
    assert_eq!(kinds("+=="), vec![Token::AddAssign, Token::Assign]);
    assert_eq!(kinds("***"), vec![Token::Pow, Token::Mul]);
}

#[test]
fn single_operators_and_delimiters() {
    assert_eq!(
        kinds("+ - * / % & | ^ ! = < >"),
        vec![
            Token::Add,
            Token::Sub,
            Token::Mul,
            Token::Div,
            Token::Mod,
            Token::BitAnd,
            Token::BitOr,
            Token::BitXor,
            Token::Not,
            Token::Assign,
            Token::Lt,
            Token::Gt
        ]
    );
    assert_eq!(
        kinds("(){}[],;.:"),
        vec![
            Token::OpenParen,
            Token::CloseParen,
            Token::OpenBrace,
            Token::CloseBrace,
            Token::OpenBracket,
            Token::CloseBracket,
            Token::Comma,
            Token::Semicolon,
            Token::Dot,
            Token::Colon
        ]
    );
}

#[test]
fn shift_spellings_are_two_tokens() {
    assert_eq!(kinds("<<"), vec![Token::Lt, Token::Lt]);
    assert_eq!(kinds(">>="), vec![Token::Gt, Token::Ge]);
}

#[test]
fn negative_literal_fusion() {
    assert_eq!(kinds("-5"), vec![Token::SignedLiteral(-5)]);
    assert_eq!(
        kinds("5 - 3"),
        vec![Token::UnsignedLiteral(5), Token::Sub, Token::UnsignedLiteral(3)]
    );
    assert_eq!(kinds("5-3"), vec![Token::UnsignedLiteral(5), Token::SignedLiteral(-3)]);
    assert_eq!(kinds("- 5"), vec![Token::Sub, Token::UnsignedLiteral(5)]);
}

#[test]
fn numbers_take_the_whole_digit_run() {
    assert_eq!(kinds("1234567890"), vec![Token::UnsignedLiteral(1234567890)]);
    assert_eq!(kinds("007"), vec![Token::UnsignedLiteral(7)]);
    assert_eq!(kinds("18446744073709551615"), vec![Token::UnsignedLiteral(u64::MAX)]);
    assert_eq!(kinds("-9223372036854775808"), vec![Token::SignedLiteral(i64::MIN)]);
    assert_eq!(kinds("-9223372036854775807"), vec![Token::SignedLiteral(-i64::MAX)]);
    assert_eq!(
        kinds("1.5"),
        vec![Token::UnsignedLiteral(1), Token::Dot, Token::UnsignedLiteral(5)]
    );
}

#[test]
fn literal_out_of_range() {
    assert_eq!(
        failure("18446744073709551616"),
        SyntaxError { kind: ErrorKind::LiteralOutOfRange, span: Span { start: 0, end: 20 } }
    );
    assert_eq!(
        failure(" -9223372036854775809;"),
        SyntaxError { kind: ErrorKind::LiteralOutOfRange, span: Span { start: 1, end: 21 } }
    );
}

#[test]
fn parse_number_reads_digits_only() {
    let mut input = LexerInput::from("42abc");
    assert_eq!(parse_number(&mut input), Some(42));
    assert_eq!(input.position(), 2);
    let mut none = LexerInput::from("x1");
    assert_eq!(parse_number(&mut none), Some(0));
    assert_eq!(none.position(), 0);
    let mut big = LexerInput::from("99999999999999999999 ");
    assert_eq!(parse_number(&mut big), None);
    assert_eq!(big.position(), 20);
}

#[test]
fn string_escapes() {
    assert_eq!(kinds("\"a\\nb\""), vec![Token::StringLiteral("a\nb".to_string())]);
    assert_eq!(kinds("\"\\u0041\""), vec![Token::StringLiteral("A".to_string())]);
    assert_eq!(
        kinds("\"\\r\\t\\\\\\\"\""),
        vec![Token::StringLiteral("\r\t\\\"".to_string())]
    );
    assert_eq!(kinds("\"\\u00e9\\u00E9\""), vec![Token::StringLiteral("éé".to_string())]);
    assert_eq!(kinds("\"\""), vec![Token::StringLiteral(String::new())]);
}

#[test]
fn comment_skipping() {
    assert_eq!(kinds("// x\nlet"), vec![Token::Keyword(Keyword::Let)]);
    assert_eq!(kinds("/* x // y */ let"), vec![Token::Keyword(Keyword::Let)]);
    assert_eq!(kinds("// only a comment"), vec![]);
    assert_eq!(kinds("/* never closed"), vec![]);
    assert_eq!(kinds("/* a **/ 1"), vec![Token::UnsignedLiteral(1)]);
    assert_eq!(kinds("/*/ 1"), vec![]);
}

#[test]
fn unterminated_string() {
    assert_eq!(
        failure("\"abc"),
        SyntaxError { kind: ErrorKind::UnterminatedString, span: Span { start: 0, end: 4 } }
    );
    assert_eq!(
        failure("x \"abc\\"),
        SyntaxError { kind: ErrorKind::UnterminatedString, span: Span { start: 2, end: 7 } }
    );
    assert_eq!(
        failure("\"\\u00"),
        SyntaxError { kind: ErrorKind::UnterminatedString, span: Span { start: 0, end: 5 } }
    );
}

#[test]
fn invalid_escape_sequence() {
    assert_eq!(
        failure("\"a\\qb\""),
        SyntaxError { kind: ErrorKind::InvalidEscapeSequence, span: Span { start: 0, end: 4 } }
    );
    assert_eq!(
        failure("\"\\u00zz\""),
        SyntaxError { kind: ErrorKind::InvalidEscapeSequence, span: Span { start: 0, end: 7 } }
    );
    assert_eq!(
        failure("\"\\ud800\""),
        SyntaxError { kind: ErrorKind::InvalidEscapeSequence, span: Span { start: 0, end: 7 } }
    );
}

#[test]
fn character_literals() {
    assert_eq!(kinds("'a'"), vec![Token::CharLiteral('a')]);
    assert_eq!(kinds("'''"), vec![Token::CharLiteral('\'')]);
    assert_eq!(
        failure("'ab'"),
        SyntaxError { kind: ErrorKind::InvalidCharacterLiteral, span: Span { start: 0, end: 2 } }
    );
    assert_eq!(
        failure(" '"),
        SyntaxError { kind: ErrorKind::UnexpectedEndOfInput, span: Span { start: 1, end: 2 } }
    );
}

#[test]
fn unexpected_character() {
    assert_eq!(
        failure("a # b"),
        SyntaxError { kind: ErrorKind::UnexpectedCharacter, span: Span { start: 2, end: 3 } }
    );
    assert_eq!(failure("_x").kind, ErrorKind::UnexpectedCharacter);
}

#[test]
fn identifiers_and_keywords() {
    assert_eq!(
        kinds("let lettuce x1 é2"),
        vec![Token::Keyword(Keyword::Let), ident("lettuce"), ident("x1"), ident("é2")]
    );
    assert_eq!(
        kinds("break continue else false let function for if loop match return true while class import"),
        vec![
            Token::Keyword(Keyword::Break),
            Token::Keyword(Keyword::Continue),
            Token::Keyword(Keyword::Else),
            Token::Keyword(Keyword::False),
            Token::Keyword(Keyword::Let),
            Token::Keyword(Keyword::Function),
            Token::Keyword(Keyword::For),
            Token::Keyword(Keyword::If),
            Token::Keyword(Keyword::Loop),
            Token::Keyword(Keyword::Match),
            Token::Keyword(Keyword::Return),
            Token::Keyword(Keyword::True),
            Token::Keyword(Keyword::While),
            Token::Keyword(Keyword::Class),
            Token::Keyword(Keyword::Import)
        ]
    );
    assert_eq!(kinds("Let"), vec![ident("Let")]);
}

#[test]
fn keyword_from_str() {
    assert_eq!(Keyword::from_str("while"), Ok(Keyword::While));
    assert_eq!(Keyword::from_str("whilst"), Err(()));
    assert_eq!(Keyword::from_str(""), Err(()));
    assert_eq!(Keyword::from_str("import"), Ok(Keyword::Import));
}

#[test]
fn whitespace_is_skipped() {
    assert_eq!(
        kinds(" \t\r\n\u{a0}x\u{2003}y "),
        vec![ident("x"), ident("y")]
    );
    assert_eq!(kinds(""), vec![]);
    assert_eq!(kinds("   "), vec![]);
}

#[test]
fn spans_are_character_offsets() {
    let mut lexer = Lexer::new("é = \"ü\";");
    let tokens = lexer.tokens().unwrap();
    let spans: Vec<Span> = tokens.iter().map(|t| t.1).collect();
    assert_eq!(
        spans,
        vec![
            Span { start: 0, end: 1 },
            Span { start: 2, end: 3 },
            Span { start: 4, end: 7 },
            Span { start: 7, end: 8 }
        ]
    );
}

#[test]
fn next_yields_tokens_one_by_one() {
    let mut lexer = Lexer::new("a+=1".to_string());
    assert_eq!(lexer.next(), Ok(Some((ident("a"), Span { start: 0, end: 1 }))));
    assert_eq!(lexer.next(), Ok(Some((Token::AddAssign, Span { start: 1, end: 3 }))));
    assert_eq!(lexer.next(), Ok(Some((Token::UnsignedLiteral(1), Span { start: 3, end: 4 }))));
    assert_eq!(lexer.next(), Ok(None));
    assert_eq!(lexer.next(), Ok(None));
}

#[test]
fn cursor_operations() {
    let mut input = LexerInput::from("ab=c");
    assert_eq!(input.len(), 4);
    assert!(input.peek(|c| *c == 'a'));
    assert!(!input.peek(|c| *c == 'b'));
    assert_eq!(input.position(), 0);
    assert!(!input.peek_for('b'));
    assert!(input.peek_for('a'));
    assert_eq!(input.position(), 1);
    assert!(!input.peek_for_str("b=="));
    assert_eq!(input.position(), 1);
    assert!(!input.peek_for_str("b=cd"));
    assert!(input.peek_for_str("b="));
    assert_eq!(input.position(), 3);
    assert_eq!(input.next(), Some('c'));
    assert_eq!(input.next(), None);
    assert_eq!(input.position(), 4);
    assert!(!input.peek(|_| true));
    assert!(input.peek_for_str(""));
    let copy = input.clone();
    assert_eq!(copy.position(), 0);
    assert_eq!(copy.char_at(2), '=');
}

#[test]
fn token_classes() {
    assert!(Token::Add.is_binary_op());
    assert!(Token::ShrAssign.is_binary_op());
    assert!(Token::Not.is_binary_op());
    assert!(!Token::Comma.is_binary_op());
    assert!(!Token::Arrow.is_binary_op());
    assert!(Token::Not.is_unary_op());
    assert!(Token::Sub.is_unary_op());
    assert!(!Token::Add.is_unary_op());
    assert!(Token::Assign.is_assign_op());
    assert!(Token::PowAssign.is_assign_op());
    assert!(!Token::Eq.is_assign_op());
    assert!(!ident("x").is_assign_op());
    let copy = Token::StringLiteral("s".to_string()).clone();
    assert_eq!(copy, Token::StringLiteral("s".to_string()));
}
