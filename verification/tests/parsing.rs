use openweblang::error::{ErrorKind, SyntaxError};
use openweblang::lexer::token::Token;
use openweblang::lexer::{Lexer, Span};
use openweblang::parser::statement::{parse_program, parse_source};
use openweblang::parser::{Expression, ParserInput, Statement};

const SAMPLE: &str = "import std.io.{print, read};\n\n// entry point\nclass Point {\n    let x: Int;\n    function norm(self: Point) -> Int { self.x * self.x }\n}\n\nfunction main(argc: Int) -> Int {\n    let total = -5;\n    /* block // comment */\n    total += 12;\n    print(\"sum\\n\", total);\n    total\n}\n";

fn cursor(source: &str) -> ParserInput {
    let mut lexer = Lexer::new(source);
    ParserInput::from(lexer.tokens().unwrap())
}

fn path(segments: &[&str]) -> Expression {
    Expression::Path(segments.iter().map(|s| s.to_string()).collect())
}

fn kind_of(source: &str) -> ErrorKind {
    parse_source(source).unwrap_err().kind
}

#[test]
fn parser() {
    let mut input = cursor(SAMPLE);
    let mut statements = Vec::new();
    while let Some(statement) = Statement::parse(&mut input).unwrap() {
        println!("{:?}", statement);
        statements.push(statement);
    }
    assert_eq!(statements.len(), 3);
    assert_eq!(input.position(), input.len());
    assert_eq!(
        statements[0],
        Statement::Import(vec![path(&["std", "io", "print"]), path(&["std", "io", "read"])])
    );
    assert_eq!(
        statements[1],
        Statement::ClassDecl(
            "Point".to_string(),
            vec![
                Statement::VariableDecl("x".to_string(), Some(path(&["Int"])), None),
                Statement::FunctionDecl(
                    "norm".to_string(),
                    Some(path(&["Int"])),
                    vec![("self".to_string(), path(&["Point"]))],
                    Expression::Block(vec![Statement::Expression(Expression::Binary(
                        Box::new(path(&["self", "x"])),
                        Token::Mul,
                        Box::new(path(&["self", "x"]))
                    ))])
                )
            ]
        )
    );
    assert_eq!(
        statements[2],
        Statement::FunctionDecl(
            "main".to_string(),
            Some(path(&["Int"])),
            vec![("argc".to_string(), path(&["Int"]))],
            Expression::Block(vec![
                Statement::VariableDecl(
                    "total".to_string(),
                    None,
                    Some(Expression::SignedLiteral(-5))
                ),
                Statement::Assign(
                    path(&["total"]),
                    Token::AddAssign,
                    Expression::UnsignedLiteral(12)
                ),
                Statement::Expression(Expression::FunctionCall(
                    vec!["print".to_string()],
                    vec![Expression::StringLiteral("sum\n".to_string()), path(&["total"])]
                )),
                Statement::Expression(path(&["total"]))
            ])
        )
    );
    assert_eq!(parse_source(SAMPLE).unwrap(), statements);
}

#[test]
fn import_expansion() {
    assert_eq!(
        parse_source("import a.b.{c, d};").unwrap(),
        vec![Statement::Import(vec![path(&["a", "b", "c"]), path(&["a", "b", "d"])])]
    );
    assert_eq!(
        parse_source("import x.y;").unwrap(),
        vec![Statement::Import(vec![path(&["x", "y"])])]
    );
    assert_eq!(
        parse_source("import a b.{c.d,} e;").unwrap(),
        vec![Statement::Import(vec![path(&["a"]), path(&["b", "c", "d"]), path(&["e"])])]
    );
}

#[test]
fn import_errors() {
    assert_eq!(kind_of("import ;"), ErrorKind::ExpectedExpression);
    assert_eq!(kind_of("import 5;"), ErrorKind::ExpectedPath);
    assert_eq!(kind_of("import a.{5};"), ErrorKind::ExpectedPath);
    assert_eq!(kind_of("import a.{b c};"), ErrorKind::ExpectedCloseBrace);
    assert_eq!(kind_of("import a.b x"), ErrorKind::ExpectedSemicolon);
}

#[test]
fn function_declaration() {
    assert_eq!(
        parse_source("function f(x: Int) -> Int { x }").unwrap(),
        vec![Statement::FunctionDecl(
            "f".to_string(),
            Some(path(&["Int"])),
            vec![("x".to_string(), path(&["Int"]))],
            Expression::Block(vec![Statement::Expression(path(&["x"]))])
        )]
    );
    assert_eq!(
        parse_source("function g() 5; function h(a: A, b: B,) {}").unwrap(),
        vec![
            Statement::FunctionDecl(
                "g".to_string(),
                None,
                vec![],
                Expression::UnsignedLiteral(5)
            ),
            Statement::FunctionDecl(
                "h".to_string(),
                None,
                vec![("a".to_string(), path(&["A"])), ("b".to_string(), path(&["B"]))],
                Expression::Block(vec![])
            )
        ]
    );
}

#[test]
fn function_declaration_errors() {
    assert_eq!(kind_of("function (x: Int) {}"), ErrorKind::ExpectedIdentifier);
    assert_eq!(kind_of("function f x: Int) {}"), ErrorKind::ExpectedOpenParen);
    assert_eq!(kind_of("function f(x Int) {}"), ErrorKind::ExpectedColon);
    assert_eq!(kind_of("function f(x: ) {}"), ErrorKind::ExpectedExpression);
    assert_eq!(kind_of("function f(x: Int y: Int) {}"), ErrorKind::ExpectedComma);
    assert_eq!(kind_of("function f(x: Int, 5) {}"), ErrorKind::ExpectedCloseParen);
    assert_eq!(kind_of("function f() -> ;"), ErrorKind::ExpectedExpression);
    assert_eq!(kind_of("function f() ; x;"), ErrorKind::ExpectedExpression);
    assert_eq!(kind_of("function f() 5 x;"), ErrorKind::ExpectedSemicolon);
    assert_eq!(
        parse_source("function f").unwrap_err(),
        SyntaxError { kind: ErrorKind::ExpectedOpenParen, span: Span { start: 9, end: 10 } }
    );
    assert_eq!(
        parse_source("function ;").unwrap_err(),
        SyntaxError { kind: ErrorKind::ExpectedIdentifier, span: Span { start: 9, end: 10 } }
    );
}

#[test]
fn variable_without_type_or_value_is_rejected() {
    assert_eq!(
        parse_source("let x;").unwrap_err(),
        SyntaxError { kind: ErrorKind::MissingTypeOrInitializer, span: Span { start: 4, end: 5 } }
    );
    let mut input = cursor("let x;");
    assert!(Statement::parse(&mut input).is_err());
    assert_eq!(kind_of("let y = 1; let x;"), ErrorKind::MissingTypeOrInitializer);
    assert_eq!(kind_of("let x += 1;"), ErrorKind::MissingTypeOrInitializer);
}

#[test]
fn variable_declarations() {
    assert_eq!(
        parse_source("let a: T; let b = 1; let c: m.T = \"s\";").unwrap(),
        vec![
            Statement::VariableDecl("a".to_string(), Some(path(&["T"])), None),
            Statement::VariableDecl("b".to_string(), None, Some(Expression::UnsignedLiteral(1))),
            Statement::VariableDecl(
                "c".to_string(),
                Some(path(&["m", "T"])),
                Some(Expression::StringLiteral("s".to_string()))
            )
        ]
    );
    assert_eq!(kind_of("let 5 = 1;"), ErrorKind::ExpectedIdentifier);
    assert_eq!(kind_of("let a: ;"), ErrorKind::ExpectedExpression);
    assert_eq!(kind_of("let a: 5;"), ErrorKind::ExpectedPath);
    assert_eq!(
        parse_source("let a = ;").unwrap_err(),
        SyntaxError { kind: ErrorKind::ExpectedExpression, span: Span { start: 4, end: 5 } }
    );
    assert_eq!(kind_of("let a = 1 let"), ErrorKind::ExpectedSemicolon);
}

#[test]
fn class_declarations() {
    assert_eq!(
        parse_source("class A { } class B { let x: Int; }").unwrap(),
        vec![
            Statement::ClassDecl("A".to_string(), vec![]),
            Statement::ClassDecl(
                "B".to_string(),
                vec![Statement::VariableDecl("x".to_string(), Some(path(&["Int"])), None)]
            )
        ]
    );
    assert_eq!(kind_of("class { }"), ErrorKind::ExpectedIdentifier);
    assert_eq!(kind_of("class A let x: Int; }"), ErrorKind::ExpectedOpenBrace);
    assert_eq!(kind_of("class A { x = 1; }"), ErrorKind::InvalidClassMember);
    assert_eq!(kind_of("class A { import a; }"), ErrorKind::InvalidClassMember);
    assert_eq!(kind_of("class A { let x: Int; ; x"), ErrorKind::ExpectedCloseBrace);
}

#[test]
fn precedence_levels() {
    let parsed = parse_source("a || b & c == d < e + f * !g;").unwrap();
    let not_g = Expression::Unary(Token::Not, Box::new(path(&["g"])));
    let product = Expression::Binary(Box::new(path(&["f"])), Token::Mul, Box::new(not_g));
    let sum = Expression::Binary(Box::new(path(&["e"])), Token::Add, Box::new(product));
    let less = Expression::Binary(Box::new(path(&["d"])), Token::Lt, Box::new(sum));
    let equal = Expression::Binary(Box::new(path(&["c"])), Token::Eq, Box::new(less));
    let masked = Expression::Binary(Box::new(path(&["b"])), Token::BitAnd, Box::new(equal));
    let either = Expression::Binary(Box::new(path(&["a"])), Token::Or, Box::new(masked));
    assert_eq!(parsed, vec![Statement::Expression(either)]);
}

#[test]
fn one_operator_per_level() {
    assert_eq!(kind_of("a + b + c;"), ErrorKind::ExpectedSemicolon);
    assert_eq!(kind_of("a + ;"), ErrorKind::ExpectedExpression);
    assert_eq!(
        parse_source("a * b + c * d;").unwrap(),
        vec![Statement::Expression(Expression::Binary(
            Box::new(Expression::Binary(
                Box::new(path(&["a"])),
                Token::Mul,
                Box::new(path(&["b"]))
            )),
            Token::Add,
            Box::new(Expression::Binary(
                Box::new(path(&["c"])),
                Token::Mul,
                Box::new(path(&["d"]))
            ))
        ))]
    );
}

#[test]
fn unary_and_grouping() {
    assert_eq!(
        parse_source("!-x; (1); -(a % 2);").unwrap(),
        vec![
            Statement::Expression(Expression::Unary(
                Token::Not,
                Box::new(Expression::Unary(Token::Sub, Box::new(path(&["x"]))))
            )),
            Statement::Expression(Expression::UnsignedLiteral(1)),
            Statement::Expression(Expression::Unary(
                Token::Sub,
                Box::new(Expression::Binary(
                    Box::new(path(&["a"])),
                    Token::Mod,
                    Box::new(Expression::UnsignedLiteral(2))
                ))
            ))
        ]
    );
    assert_eq!(kind_of("(a b);"), ErrorKind::ExpectedCloseParen);
    assert_eq!(parse_source("- ;").unwrap(), vec![]);
    assert_eq!(parse_source("( ;").unwrap(), vec![]);
}

#[test]
fn calls_and_paths() {
    assert_eq!(
        parse_source("a.b.c(1, x.y, \"s\",); f(); g(-2);").unwrap(),
        vec![
            Statement::Expression(Expression::FunctionCall(
                vec!["a".to_string(), "b".to_string(), "c".to_string()],
                vec![
                    Expression::UnsignedLiteral(1),
                    path(&["x", "y"]),
                    Expression::StringLiteral("s".to_string())
                ]
            )),
            Statement::Expression(Expression::FunctionCall(vec!["f".to_string()], vec![])),
            Statement::Expression(Expression::FunctionCall(
                vec!["g".to_string()],
                vec![Expression::SignedLiteral(-2)]
            ))
        ]
    );
    assert_eq!(kind_of("f(a b);"), ErrorKind::ExpectedComma);
    assert_eq!(kind_of("f(a, ;"), ErrorKind::ExpectedCloseParen);
    assert_eq!(
        parse_source("a..b;").unwrap_err(),
        SyntaxError { kind: ErrorKind::UnexpectedDot, span: Span { start: 2, end: 3 } }
    );
    assert_eq!(parse_source("a. ;").unwrap(), vec![Statement::Expression(path(&["a"]))]);
}

#[test]
fn blocks_and_semicolons() {
    assert_eq!(
        parse_source("{ a; { b } c = 1; d } e;").unwrap(),
        vec![
            Statement::Expression(Expression::Block(vec![
                Statement::Expression(path(&["a"])),
                Statement::Expression(Expression::Block(vec![Statement::Expression(path(&[
                    "b"
                ]))])),
                Statement::Assign(path(&["c"]), Token::Assign, Expression::UnsignedLiteral(1)),
                Statement::Expression(path(&["d"]))
            ])),
            Statement::Expression(path(&["e"]))
        ]
    );
    assert_eq!(
        parse_source("{ a; }; b;").unwrap(),
        vec![
            Statement::Expression(Expression::Block(vec![Statement::Expression(path(&["a"]))])),
            Statement::Expression(path(&["b"]))
        ]
    );
    assert_eq!(kind_of("{ a; b"), ErrorKind::ExpectedCloseBrace);
    assert_eq!(kind_of("{ a = 1 } b;"), ErrorKind::ExpectedSemicolon);
    assert_eq!(kind_of("a } b;"), ErrorKind::ExpectedSemicolon);
    assert_eq!(kind_of("x y;"), ErrorKind::ExpectedSemicolon);
}

#[test]
fn assignment_statements() {
    assert_eq!(
        parse_source("a.b **= 2; c -= -1;").unwrap(),
        vec![
            Statement::Assign(path(&["a", "b"]), Token::PowAssign, Expression::UnsignedLiteral(2)),
            Statement::Assign(path(&["c"]), Token::SubAssign, Expression::SignedLiteral(-1))
        ]
    );
    assert_eq!(parse_source("x = ;").unwrap(), vec![]);
}

#[test]
fn whole_program_is_consumed() {
    for source in ["", "a; b; c;", "{ } { }", "let x = 1; ; function f() {}", SAMPLE] {
        let mut input = cursor(source);
        parse_program(&mut input).unwrap();
        assert!(input.eof());
        assert_eq!(input.position(), input.len());
    }
    let mut lone = cursor("function");
    assert_eq!(parse_program(&mut lone).unwrap(), vec![]);
    assert!(lone.eof());
    assert_eq!(lone.position(), 0);
    let mut trailing = cursor("x; y");
    assert_eq!(
        parse_program(&mut trailing).unwrap(),
        vec![Statement::Expression(path(&["x"]))]
    );
    assert!(trailing.eof());
    assert_eq!(trailing.position() + 1, trailing.len());
}

#[test]
fn tokenizer_errors_come_through() {
    assert_eq!(
        parse_source("let s = \"abc").unwrap_err(),
        SyntaxError { kind: ErrorKind::UnterminatedString, span: Span { start: 8, end: 12 } }
    );
}

#[test]
fn token_cursor_operations() {
    let mut input = cursor("a ( 1");
    assert_eq!(input.len(), 3);
    assert!(!input.eof());
    assert!(input.peek(|t| matches!(t, Token::Identifier(_))));
    assert_eq!(input.span_here(), Span { start: 0, end: 1 });
    assert_eq!(
        input.next(),
        Some((Token::Identifier("a".to_string()), Span { start: 0, end: 1 }))
    );
    assert!(input.peek(|t| matches!(t, Token::OpenParen)));
    input.next();
    assert!(input.eof());
    input.rewind();
    assert_eq!(input.position(), 1);
    input.rewind();
    input.rewind();
    assert_eq!(input.position(), 0);
    input.next();
    input.next();
    assert_eq!(input.next(), Some((Token::UnsignedLiteral(1), Span { start: 4, end: 5 })));
    assert_eq!(input.next(), None);
    assert_eq!(input.position(), 3);
    assert!(!input.peek(|_| true));
    assert_eq!(input.span_here(), Span { start: 4, end: 5 });
    assert_eq!(
        input.error_here(ErrorKind::ExpectedComma),
        SyntaxError { kind: ErrorKind::ExpectedComma, span: Span { start: 4, end: 5 } }
    );
    let copy = input.clone();
    assert_eq!(copy.position(), 0);
    assert_eq!(copy.len(), 3);
    let mut empty = ParserInput::from(Vec::new());
    assert!(empty.eof());
    assert_eq!(empty.span_here(), Span { start: 0, end: 0 });
    assert_eq!(Statement::parse(&mut empty), Ok(None));
}

#[test]
fn single_rules_can_be_called_alone() {
    let mut input = cursor("1 + 2 * 3 ;");
    assert_eq!(Expression::factor(&mut input), Ok(Some(Expression::UnsignedLiteral(1))));
    let mut input = cursor("a.b ( ;");
    assert_eq!(Expression::path(&mut input), Ok(Some(path(&["a", "b"]))));
    assert_eq!(input.position(), 3);
    let mut input = cursor("x ;");
    assert_eq!(Expression::primary(&mut input), Ok(None));
    assert_eq!(input.position(), 0);
    let mut input = cursor("2.5 ;");
    assert_eq!(Expression::primary(&mut input), Ok(Some(Expression::UnsignedLiteral(2))));
    let mut floats = ParserInput::from(vec![
        (Token::FloatLiteral(2.5f64.to_bits()), Span { start: 0, end: 3 }),
        (Token::Semicolon, Span { start: 3, end: 4 }),
    ]);
    assert_eq!(
        Expression::parse(&mut floats),
        Ok(Some(Expression::FloatLiteral(2.5f64.to_bits())))
    );
    let mut input = cursor("x = 1 ;");
    assert_eq!(
        Statement::assign(&mut input),
        Ok(Some(Statement::Assign(path(&["x"]), Token::Assign, Expression::UnsignedLiteral(1))))
    );
    assert_eq!(input.position(), 3);
    let mut last = cursor("x");
    assert_eq!(Expression::parse(&mut last), Ok(None));
    assert_eq!(Expression::logic(&mut last), Ok(Some(path(&["x"]))));
}
