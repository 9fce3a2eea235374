use vstd::prelude::*;
use crate::error::{ErrorKind, SyntaxError};
use crate::lexer::rules::lex_all;
use crate::lexer::token::keyword::Keyword;
use crate::lexer::Lexer;
use crate::lexer::token::Token;
use crate::parser::grammar;
use crate::parser::grammar::{after_items, at_end, rest};
use crate::parser::{at_keyword, at_token, expression_outcome, joined, expressions_view, identifier, lemma_after_items_start, lemma_after_items_step, lemma_expressions_prefix, lemma_expressions_push, lemma_parameters_prefix, lemma_parameters_push, lemma_statements_prefix, lemma_statements_push, moved, names_view, parameters_outcome, parameters_view, required_outcome, statement_outcome, statements_outcome, statements_view, Expression, ExpressionView, ParserInput, Statement, StatementView};

verus! {

impl Statement {
    /// Parses one statement: none at the end of the tokens, else the first of
    /// the rules for a function, a class, an import, a variable, an assignment
    /// or an expression that applies.
    pub fn parse(input: &mut ParserInput) -> (r: Result<Option<Statement>, SyntaxError>)
        ensures
            moved(
                old(input)@,
                final(input)@,
                grammar::statement(old(input)@.tokens, old(input)@.pos).used,
            ),
            statement_outcome(r) == grammar::statement(old(input)@.tokens, old(input)@.pos).out,
            r.is_ok() && !at_end(old(input)@.tokens, old(input)@.pos) ==> final(input)@.pos > old(
                input,
            )@.pos,
            r matches Ok(Some(_)) ==> final(input)@.pos > old(input)@.pos,
        decreases rest(old(input)@.tokens, old(input)@.pos), 60nat,
    {
        proof {
            reveal_with_fuel(grammar::statement, 1);
            reveal_with_fuel(grammar::function_decl, 1);
        }
        if input.eof() {
            return Ok(None);
        }
        Statement::function_decl(input)
    }

    /// The parameters of a function, the opening parenthesis being read
    /// already. The cursor stops before the closing parenthesis, or where no
    /// name follows.
    #[verifier::rlimit(40)]
    fn parameters(input: &mut ParserInput) -> (r: Result<Vec<(String, Expression)>, SyntaxError>)
        ensures
            moved(
                old(input)@,
                final(input)@,
                grammar::parameters(old(input)@.tokens, old(input)@.pos).used,
            ),
            parameters_outcome(r) == grammar::parameters(old(input)@.tokens, old(input)@.pos).out,
        decreases rest(old(input)@.tokens, old(input)@.pos), 70nat,
    {
        let ghost ts = input@.tokens;
        let ghost start = input@.pos;
        let mut params: Vec<(String, Expression)> = Vec::new();
        proof {
            lemma_parameters_prefix(params@, 0);
            reveal_with_fuel(parameters_view, 2);
            assert(parameters_view(params@) =~= Seq::empty());
            lemma_after_items_start(grammar::parameters(ts, start));
        }
        loop
            invariant
                ts == old(input)@.tokens,
                start == old(input)@.pos,
                input@.tokens == ts,
                start <= input@.pos,
                grammar::parameters(ts, start) == after_items(
                    parameters_view(params@),
                    (input@.pos - start) as nat,
                    grammar::parameters(ts, input@.pos),
                ),
            decreases rest(ts, input@.pos),
        {
            let ghost at = input@.pos;
            let ghost before = parameters_view(params@);
            proof {
                reveal_with_fuel(grammar::parameters, 1);
                reveal_with_fuel(grammar::required, 1);
                assert(before + Seq::empty() =~= before);
            }
            let name = match identifier(input) {
                Ok(name) => name,
                Err(_) => {
                    return Ok(params);
                },
            };
            if !at_token(input, &Token::Colon) {
                return Err(input.error_here(ErrorKind::ExpectedColon));
            }
            input.next();
            let ty = Expression::required(input)?;
            proof {
                lemma_parameters_push(params@, (name, ty));
            }
            params.push((name, ty));
            if at_token(input, &Token::CloseParen) {
                return Ok(params);
            }
            if !at_token(input, &Token::Comma) {
                return Err(input.error_here(ErrorKind::ExpectedComma));
            }
            input.next();
            proof {
                lemma_after_items_step(
                    before,
                    (at - start) as nat,
                    seq![(name@, ty@)],
                    (input@.pos - at) as nat,
                    grammar::parameters(ts, input@.pos),
                );
            }
        }
    }

    /// The return type of a function, where `->` announces one.
    fn return_type(input: &mut ParserInput) -> (r: Result<Option<Expression>, SyntaxError>)
        ensures
            moved(
                old(input)@,
                final(input)@,
                grammar::return_type(old(input)@.tokens, old(input)@.pos).used,
            ),
            expression_outcome(r) == grammar::return_type(old(input)@.tokens, old(input)@.pos).out,
        decreases rest(old(input)@.tokens, old(input)@.pos), 70nat,
    {
        proof {
            reveal_with_fuel(grammar::return_type, 1);
            reveal_with_fuel(grammar::required, 1);
        }
        if at_token(input, &Token::Arrow) {
            input.next();
            let ty = Expression::required(input)?;
            Ok(Some(ty))
        } else {
            Ok(None)
        }
    }

    /// The body of a function, with the semicolon that must end it where it is
    /// not a block.
    fn function_body(input: &mut ParserInput) -> (r: Result<Expression, SyntaxError>)
        ensures
            moved(
                old(input)@,
                final(input)@,
                grammar::function_body(old(input)@.tokens, old(input)@.pos).used,
            ),
            required_outcome(r) == grammar::function_body(old(input)@.tokens, old(input)@.pos).out,
        decreases rest(old(input)@.tokens, old(input)@.pos), 70nat,
    {
        proof {
            reveal_with_fuel(grammar::function_body, 1);
            reveal_with_fuel(grammar::required, 1);
        }
        let body = Expression::required(input)?;
        if matches!(body, Expression::Block(_)) {
            Ok(body)
        } else if at_token(input, &Token::Semicolon) {
            input.next();
            Ok(body)
        } else {
            Err(input.error_here(ErrorKind::ExpectedSemicolon))
        }
    }

    /// A function declaration: `function`, the name, the parameters in
    /// parentheses, `->` and a return type if one is stated, and the body.
    /// Anything that does not start with `function` is left to
    /// [`Statement::class_decl`].
    #[verifier::rlimit(40)]
    pub fn function_decl(input: &mut ParserInput) -> (r: Result<Option<Statement>, SyntaxError>)
        ensures
            moved(
                old(input)@,
                final(input)@,
                grammar::function_decl(old(input)@.tokens, old(input)@.pos).used,
            ),
            statement_outcome(r) == grammar::function_decl(
                old(input)@.tokens,
                old(input)@.pos,
            ).out,
            r.is_ok() ==> final(input)@.pos > old(input)@.pos,
        decreases rest(old(input)@.tokens, old(input)@.pos), 59nat,
    {
        proof {
            reveal_with_fuel(grammar::function_decl, 1);
            reveal_with_fuel(grammar::class_decl, 1);
            reveal_with_fuel(grammar::parameters, 1);
            reveal_with_fuel(grammar::return_type, 1);
            reveal_with_fuel(grammar::function_body, 1);
        }
        if !at_keyword(input, Keyword::Function) {
            return Statement::class_decl(input);
        }
        input.next();
        let name = identifier(input)?;
        if !at_token(input, &Token::OpenParen) {
            return Err(input.error_here(ErrorKind::ExpectedOpenParen));
        }
        input.next();
        let params = Statement::parameters(input)?;
        if !at_token(input, &Token::CloseParen) {
            return Err(input.error_here(ErrorKind::ExpectedCloseParen));
        }
        input.next();
        let ret = Statement::return_type(input)?;
        let body = Statement::function_body(input)?;
        Ok(Some(Statement::FunctionDecl(name, ret, params, body)))
    }

    /// The members of a class, the opening brace being read already. The cursor
    /// stops before the closing brace, or where no statement follows.
    #[verifier::rlimit(40)]
    fn members(input: &mut ParserInput) -> (r: Result<Vec<Statement>, SyntaxError>)
        ensures
            moved(
                old(input)@,
                final(input)@,
                grammar::members(old(input)@.tokens, old(input)@.pos).used,
            ),
            statements_outcome(r) == grammar::members(old(input)@.tokens, old(input)@.pos).out,
        decreases rest(old(input)@.tokens, old(input)@.pos), 70nat,
    {
        let ghost ts = input@.tokens;
        let ghost start = input@.pos;
        let mut found: Vec<Statement> = Vec::new();
        proof {
            lemma_statements_prefix(found@, 0);
            reveal_with_fuel(statements_view, 2);
            assert(statements_view(found@) =~= Seq::empty());
            lemma_after_items_start(grammar::members(ts, start));
        }
        loop
            invariant
                ts == old(input)@.tokens,
                start == old(input)@.pos,
                input@.tokens == ts,
                start <= input@.pos,
                grammar::members(ts, start) == after_items(
                    statements_view(found@),
                    (input@.pos - start) as nat,
                    grammar::members(ts, input@.pos),
                ),
            decreases rest(ts, input@.pos),
        {
            let ghost at = input@.pos;
            let ghost before = statements_view(found@);
            proof {
                reveal_with_fuel(grammar::members, 1);
                reveal_with_fuel(grammar::statement, 1);
                assert(before + Seq::empty() =~= before);
            }
            if at_token(input, &Token::CloseBrace) || input.eof() {
                return Ok(found);
            }
            match Statement::parse(input) {
                Err(error) => {
                    return Err(error);
                },
                Ok(None) => {
                    return Ok(found);
                },
                Ok(Some(member)) => {
                    if !matches!(member, Statement::FunctionDecl(..) | Statement::VariableDecl(..)) {
                        return Err(input.error_here(ErrorKind::InvalidClassMember));
                    }
                    proof {
                        lemma_after_items_step(
                            before,
                            (at - start) as nat,
                            seq![member@],
                            (input@.pos - at) as nat,
                            grammar::members(ts, input@.pos),
                        );
                        lemma_statements_push(found@, member);
                    }
                    found.push(member);
                },
            }
        }
    }

    /// A class declaration: `class`, the name, and the members in braces.
    /// Anything that does not start with `class` is left to
    /// [`Statement::import`], and must end with a semicolon; a block needs none
    /// and takes one that follows, and an expression needs none directly
    /// before a closing brace.
    #[verifier::rlimit(40)]
    pub fn class_decl(input: &mut ParserInput) -> (r: Result<Option<Statement>, SyntaxError>)
        ensures
            moved(
                old(input)@,
                final(input)@,
                grammar::class_decl(old(input)@.tokens, old(input)@.pos).used,
            ),
            statement_outcome(r) == grammar::class_decl(old(input)@.tokens, old(input)@.pos).out,
            r.is_ok() ==> final(input)@.pos > old(input)@.pos,
        decreases rest(old(input)@.tokens, old(input)@.pos), 58nat,
    {
        proof {
            reveal_with_fuel(grammar::class_decl, 1);
            reveal_with_fuel(grammar::import, 1);
            reveal_with_fuel(grammar::members, 1);
        }
        if !at_keyword(input, Keyword::Class) {
            let found = Statement::import(input)?;
            if at_token(input, &Token::Semicolon) {
                input.next();
                return Ok(found);
            }
            let free = match &found {
                Some(Statement::Expression(Expression::Block(_))) => true,
                Some(Statement::Expression(_)) => at_token(input, &Token::CloseBrace),
                _ => false,
            };
            if free {
                return Ok(found);
            }
            return Err(input.error_here(ErrorKind::ExpectedSemicolon));
        }
        input.next();
        let name = identifier(input)?;
        if !at_token(input, &Token::OpenBrace) {
            return Err(input.error_here(ErrorKind::ExpectedOpenBrace));
        }
        input.next();
        let members = Statement::members(input)?;
        if !at_token(input, &Token::CloseBrace) {
            return Err(input.error_here(ErrorKind::ExpectedCloseBrace));
        }
        input.next();
        Ok(Some(Statement::ClassDecl(name, members)))
    }

    /// The paths of an import group, the opening brace being read already: each
    /// is `prefix` with one more path behind it, and is put at the end of
    /// `into`. The cursor stops where no comma follows a path.
    #[verifier::rlimit(40)]
    fn import_group(
        input: &mut ParserInput,
        prefix: &Vec<String>,
        into: &mut Vec<Expression>,
    ) -> (r: Result<(), SyntaxError>)
        ensures
            moved(
                old(input)@,
                final(input)@,
                grammar::import_group(old(input)@.tokens, old(input)@.pos, names_view(prefix@)).used,
            ),
            match r {
                Ok(_) => grammar::import_group(
                    old(input)@.tokens,
                    old(input)@.pos,
                    names_view(prefix@),
                ).out matches Ok(items) && expressions_view(final(into)@) == expressions_view(
                    old(into)@,
                ) + items,
                Err(error) => grammar::import_group(
                    old(input)@.tokens,
                    old(input)@.pos,
                    names_view(prefix@),
                ).out == Err::<Seq<ExpressionView>, SyntaxError>(error),
            },
        decreases rest(old(input)@.tokens, old(input)@.pos), 70nat,
    {
        let ghost ts = input@.tokens;
        let ghost start = input@.pos;
        let ghost base = expressions_view(into@);
        let ghost stem = names_view(prefix@);
        let ghost mut added: Seq<ExpressionView> = Seq::empty();
        proof {
            assert(base + added =~= base);
            lemma_after_items_start(grammar::import_group(ts, start, stem));
        }
        loop
            invariant
                ts == old(input)@.tokens,
                start == old(input)@.pos,
                base == expressions_view(old(into)@),
                stem == names_view(prefix@),
                input@.tokens == ts,
                start <= input@.pos,
                expressions_view(into@) == base + added,
                grammar::import_group(ts, start, stem) == after_items(
                    added,
                    (input@.pos - start) as nat,
                    grammar::import_group(ts, input@.pos, stem),
                ),
            decreases rest(ts, input@.pos),
        {
            let ghost at = input@.pos;
            proof {
                reveal_with_fuel(grammar::import_group, 1);
                reveal_with_fuel(grammar::expression, 1);
                assert(added + Seq::empty() =~= added);
            }
            match Expression::parse(input) {
                Err(error) => {
                    return Err(error);
                },
                Ok(None) => {
                    return Ok(());
                },
                Ok(Some(Expression::Path(segments))) => {
                    let ghost tail = names_view(segments@);
                    let whole = Expression::Path(joined(prefix, segments));
                    proof {
                        lemma_expressions_push(into@, whole);
                        assert(base + added + seq![whole@] =~= base + (added + seq![whole@]));
                        lemma_after_items_step(
                            added,
                            (at - start) as nat,
                            seq![whole@],
                            (input@.pos - at) as nat + 1,
                            grammar::import_group(ts, input@.pos + 1, stem),
                        );
                        assert(added + (seq![whole@] + Seq::empty()) =~= added + seq![whole@]);
                        added = added + seq![whole@];
                    }
                    into.push(whole);
                    if !at_token(input, &Token::Comma) {
                        return Ok(());
                    }
                    input.next();
                },
                Ok(Some(_)) => {
                    return Err(input.error_here(ErrorKind::ExpectedPath));
                },
            }
        }
    }

    /// The paths of an import, `import` being read already, one behind the
    /// other: each a path by itself, or a path and a group in braces that it is
    /// the prefix of. The flag says whether anything stood there at all.
    #[verifier::rlimit(40)]
    fn import_paths(input: &mut ParserInput) -> (r: Result<(Vec<Expression>, bool), SyntaxError>)
        ensures
            moved(
                old(input)@,
                final(input)@,
                grammar::import_paths(old(input)@.tokens, old(input)@.pos).used,
            ),
            match r {
                Ok(found) => grammar::import_paths(old(input)@.tokens, old(input)@.pos).out == Ok::<
                    Seq<ExpressionView>,
                    SyntaxError,
                >(expressions_view(found.0@)) && found.1 == !(grammar::expression(
                    old(input)@.tokens,
                    old(input)@.pos,
                ).out == Ok::<Option<ExpressionView>, SyntaxError>(None)),
                Err(error) => grammar::import_paths(old(input)@.tokens, old(input)@.pos).out
                    == Err::<Seq<ExpressionView>, SyntaxError>(error) && !(grammar::expression(
                    old(input)@.tokens,
                    old(input)@.pos,
                ).out == Ok::<Option<ExpressionView>, SyntaxError>(None)),
            },
            r matches Ok(found) && found.1 ==> final(input)@.pos > old(input)@.pos,
        decreases rest(old(input)@.tokens, old(input)@.pos), 71nat,
    {
        let ghost ts = input@.tokens;
        let ghost start = input@.pos;
        let mut paths: Vec<Expression> = Vec::new();
        let mut had = false;
        proof {
            lemma_expressions_prefix(paths@, 0);
            reveal_with_fuel(expressions_view, 2);
            assert(expressions_view(paths@) =~= Seq::empty());
            lemma_after_items_start(grammar::import_paths(ts, start));
        }
        loop
            invariant
                ts == old(input)@.tokens,
                start == old(input)@.pos,
                input@.tokens == ts,
                start <= input@.pos,
                !had ==> input@.pos == start,
                had ==> input@.pos > start,
                had ==> !(grammar::expression(ts, start).out == Ok::<
                    Option<ExpressionView>,
                    SyntaxError,
                >(None)),
                grammar::import_paths(ts, start) == after_items(
                    expressions_view(paths@),
                    (input@.pos - start) as nat,
                    grammar::import_paths(ts, input@.pos),
                ),
            decreases rest(ts, input@.pos),
        {
            let ghost at = input@.pos;
            let ghost before = expressions_view(paths@);
            proof {
                reveal_with_fuel(grammar::import_paths, 1);
                reveal_with_fuel(grammar::expression, 1);
                reveal_with_fuel(grammar::import_group, 1);
                assert(before + Seq::empty() =~= before);
            }
            if input.eof() {
                return Ok((paths, had));
            }
            match Expression::parse(input) {
                Err(error) => {
                    return Err(error);
                },
                Ok(None) => {
                    return Ok((paths, had));
                },
                Ok(Some(Expression::Path(prefix))) => {
                    if at_token(input, &Token::OpenBrace) {
                        input.next();
                        let ghost inner = input@.pos;
                        match Statement::import_group(input, &prefix, &mut paths) {
                            Err(error) => {
                                return Err(error);
                            },
                            Ok(_) => {},
                        }
                        if !at_token(input, &Token::CloseBrace) {
                            return Err(input.error_here(ErrorKind::ExpectedCloseBrace));
                        }
                        input.next();
                        proof {
                            let group = grammar::import_group(ts, inner, names_view(prefix@));
                            lemma_after_items_step(
                                before,
                                (at - start) as nat,
                                group.out->Ok_0,
                                (input@.pos - at) as nat,
                                grammar::import_paths(ts, input@.pos),
                            );
                        }
                    } else {
                        let single = Expression::Path(prefix);
                        proof {
                            lemma_expressions_push(paths@, single);
                            lemma_after_items_step(
                                before,
                                (at - start) as nat,
                                seq![single@],
                                (input@.pos - at) as nat,
                                grammar::import_paths(ts, input@.pos),
                            );
                        }
                        paths.push(single);
                    }
                    had = true;
                },
                Ok(Some(_)) => {
                    return Err(input.error_here(ErrorKind::ExpectedPath));
                },
            }
        }
    }

    /// An import: `import` and at least one path or group. Anything that does
    /// not start with `import` is left to [`Statement::variable_decl`].
    #[verifier::rlimit(40)]
    pub fn import(input: &mut ParserInput) -> (r: Result<Option<Statement>, SyntaxError>)
        ensures
            moved(
                old(input)@,
                final(input)@,
                grammar::import(old(input)@.tokens, old(input)@.pos).used,
            ),
            statement_outcome(r) == grammar::import(old(input)@.tokens, old(input)@.pos).out,
            r matches Ok(Some(_)) ==> final(input)@.pos > old(input)@.pos,
        decreases rest(old(input)@.tokens, old(input)@.pos), 57nat,
    {
        proof {
            reveal_with_fuel(grammar::import, 1);
            reveal_with_fuel(grammar::variable_decl, 1);
            reveal_with_fuel(grammar::import_paths, 1);
            reveal_with_fuel(grammar::expression, 1);
        }
        if !at_keyword(input, Keyword::Import) {
            return Statement::variable_decl(input);
        }
        input.next();
        let (paths, had) = Statement::import_paths(input)?;
        if !had {
            return Err(input.error_here(ErrorKind::ExpectedExpression));
        }
        Ok(Some(Statement::Import(paths)))
    }

    /// The type of a variable, where a colon announces one: a path.
    fn variable_type(input: &mut ParserInput) -> (r: Result<Option<Expression>, SyntaxError>)
        ensures
            moved(
                old(input)@,
                final(input)@,
                grammar::variable_type(old(input)@.tokens, old(input)@.pos).used,
            ),
            expression_outcome(r) == grammar::variable_type(
                old(input)@.tokens,
                old(input)@.pos,
            ).out,
        decreases rest(old(input)@.tokens, old(input)@.pos), 70nat,
    {
        proof {
            reveal_with_fuel(grammar::variable_type, 1);
            reveal_with_fuel(grammar::required, 1);
        }
        if !at_token(input, &Token::Colon) {
            return Ok(None);
        }
        input.next();
        let ty = Expression::required(input)?;
        if matches!(ty, Expression::Path(_)) {
            Ok(Some(ty))
        } else {
            Err(input.error_here(ErrorKind::ExpectedPath))
        }
    }

    /// A variable declaration: `let`, the name, a colon and a type if one is
    /// stated, `=` and an initial value if one is given; one of the two must be
    /// there. Anything that does not start with `let` is left to
    /// [`Statement::assign`].
    #[verifier::rlimit(40)]
    pub fn variable_decl(input: &mut ParserInput) -> (r: Result<Option<Statement>, SyntaxError>)
        ensures
            moved(
                old(input)@,
                final(input)@,
                grammar::variable_decl(old(input)@.tokens, old(input)@.pos).used,
            ),
            statement_outcome(r) == grammar::variable_decl(
                old(input)@.tokens,
                old(input)@.pos,
            ).out,
            r matches Ok(Some(_)) ==> final(input)@.pos > old(input)@.pos,
        decreases rest(old(input)@.tokens, old(input)@.pos), 56nat,
    {
        proof {
            reveal_with_fuel(grammar::variable_decl, 1);
            reveal_with_fuel(grammar::assign, 1);
            reveal_with_fuel(grammar::variable_type, 1);
            reveal_with_fuel(grammar::expression, 1);
        }
        if !at_keyword(input, Keyword::Let) {
            return Statement::assign(input);
        }
        input.next();
        let anchor = input.span_here();
        let name = identifier(input)?;
        let stated = Statement::variable_type(input)?;
        if at_token(input, &Token::Assign) {
            input.next();
            match Expression::parse(input)? {
                Some(init) => Ok(Some(Statement::VariableDecl(name, stated, Some(init)))),
                None => Err(SyntaxError { kind: ErrorKind::ExpectedExpression, span: anchor }),
            }
        } else if stated.is_some() {
            Ok(Some(Statement::VariableDecl(name, stated, None)))
        } else {
            Err(SyntaxError { kind: ErrorKind::MissingTypeOrInitializer, span: anchor })
        }
    }

    /// An expression, and an assignment where an assignment operator and a value
    /// follow it. Where the expression or the value is missing there is no
    /// statement.
    #[verifier::rlimit(40)]
    pub fn assign(input: &mut ParserInput) -> (r: Result<Option<Statement>, SyntaxError>)
        ensures
            moved(
                old(input)@,
                final(input)@,
                grammar::assign(old(input)@.tokens, old(input)@.pos).used,
            ),
            statement_outcome(r) == grammar::assign(old(input)@.tokens, old(input)@.pos).out,
            r matches Ok(Some(_)) ==> final(input)@.pos > old(input)@.pos,
        decreases rest(old(input)@.tokens, old(input)@.pos), 55nat,
    {
        proof {
            reveal_with_fuel(grammar::assign, 1);
            reveal_with_fuel(grammar::expression, 1);
        }
        let target = match Expression::parse(input)? {
            Some(target) => target,
            None => {
                return Ok(None);
            },
        };
        if !input.peek(Token::is_assign_op) {
            return Ok(Some(Statement::Expression(target)));
        }
        let op = match input.next() {
            Some(found) => found.0,
            None => {
                return Ok(Some(Statement::Expression(target)));
            },
        };
        match Expression::parse(input)? {
            Some(value) => Ok(Some(Statement::Assign(target, op, value))),
            None => Ok(None),
        }
    }
}

/// What the outcome of parsing a whole program stands for.
pub open spec fn program_outcome(
    r: Result<Vec<Statement>, SyntaxError>,
) -> Result<Seq<StatementView>, SyntaxError> {
    match r {
        Ok(statements) => Ok(statements_view(statements@)),
        Err(error) => Err(error),
    }
}

/// Parses statements one after the other until the cursor is at or past the last
/// token, and gives them in order; a lone semicolon gives none. The first
/// error ends the parse and is returned in their place. On success nothing is
/// left unread but, at most, the last token.
pub fn parse_program(input: &mut ParserInput) -> (r: Result<Vec<Statement>, SyntaxError>)
    ensures
        moved(old(input)@, final(input)@, grammar::program(old(input)@.tokens, old(input)@.pos).used),
        program_outcome(r) == grammar::program(old(input)@.tokens, old(input)@.pos).out,
        r.is_ok() ==> at_end(final(input)@.tokens, final(input)@.pos),
{
    let ghost ts = input@.tokens;
    let ghost start = input@.pos;
    let mut statements: Vec<Statement> = Vec::new();
    proof {
        lemma_statements_prefix(statements@, 0);
        reveal_with_fuel(statements_view, 2);
        assert(statements_view(statements@) =~= Seq::empty());
        lemma_after_items_start(grammar::program(ts, start));
    }
    loop
        invariant
            ts == old(input)@.tokens,
            start == old(input)@.pos,
            input@.tokens == ts,
            start <= input@.pos,
            grammar::program(ts, start) == after_items(
                statements_view(statements@),
                (input@.pos - start) as nat,
                grammar::program(ts, input@.pos),
            ),
        decreases rest(ts, input@.pos),
    {
        let ghost at = input@.pos;
        let ghost before = statements_view(statements@);
        proof {
            assert(before + Seq::empty() =~= before);
        }
        if input.eof() {
            return Ok(statements);
        }
        match Statement::parse(input) {
            Err(error) => {
                return Err(error);
            },
            Ok(None) => {
                proof {
                    lemma_after_items_step(
                        before,
                        (at - start) as nat,
                        Seq::empty(),
                        (input@.pos - at) as nat,
                        grammar::program(ts, input@.pos),
                    );
                }
            },
            Ok(Some(s)) => {
                proof {
                    lemma_after_items_step(
                        before,
                        (at - start) as nat,
                        seq![s@],
                        (input@.pos - at) as nat,
                        grammar::program(ts, input@.pos),
                    );
                    lemma_statements_push(statements@, s);
                }
                statements.push(s);
            },
        }
    }
}

/// What parsing the whole of a source text gives: the statements of its tokens,
/// or the first error of the tokenizer or the parser.
pub open spec fn source_program(text: Seq<char>) -> Result<Seq<StatementView>, SyntaxError> {
    match lex_all(text, 0) {
        Ok(tokens) => grammar::program(tokens, 0).out,
        Err(error) => Err(error),
    }
}

/// Tokenizes and parses the whole of `source`.
pub fn parse_source(source: &str) -> (r: Result<Vec<Statement>, SyntaxError>)
    ensures
        program_outcome(r) == source_program(source@),
{
    let mut lexer = Lexer::new(source);
    let tokens = lexer.tokens()?;
    let mut input = ParserInput::from(tokens);
    parse_program(&mut input)
}

} // verus!
