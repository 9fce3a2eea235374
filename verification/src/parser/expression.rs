use vstd::prelude::*;
use crate::error::{ErrorKind, SyntaxError};
use crate::lexer::token::{Token, TokenView};
use crate::parser::grammar;
use crate::parser::grammar::{after_items, kind_at, level_operator, rest};
use crate::parser::{at_identifier, at_token, expression_outcome, expressions_outcome, expressions_view, identifier, lemma_after_items_start, lemma_after_items_step, lemma_expressions_push, lemma_statements_push, moved, names_view, statements_outcome, statements_view, Expression, ExpressionView, ParserInput, Statement};

verus! {

/// Whether `t` is an operator of the binary level `level`.
fn is_level_operator(t: &Token, level: u8) -> (b: bool)
    ensures
        b == level_operator(level as nat, t@),
{
    if level == 0 {
        matches!(t, Token::Mul | Token::Div | Token::Mod)
    } else if level == 1 {
        matches!(t, Token::Add | Token::Sub)
    } else if level == 2 {
        matches!(t, Token::Shl | Token::Shr)
    } else if level == 3 {
        matches!(t, Token::Lt | Token::Le | Token::Gt | Token::Ge)
    } else if level == 4 {
        matches!(t, Token::Eq | Token::Ne)
    } else if level == 5 {
        matches!(t, Token::BitAnd | Token::BitOr | Token::BitXor)
    } else if level == 6 {
        matches!(t, Token::And | Token::Or)
    } else {
        false
    }
}

impl Expression {
    /// Parses an expression: none at the end of the tokens, else the loosest
    /// binary level.
    pub fn parse(input: &mut ParserInput) -> (r: Result<Option<Expression>, SyntaxError>)
        ensures
            moved(
                old(input)@,
                final(input)@,
                grammar::expression(old(input)@.tokens, old(input)@.pos).used,
            ),
            expression_outcome(r) == grammar::expression(old(input)@.tokens, old(input)@.pos).out,
            r matches Ok(Some(_)) ==> final(input)@.pos > old(input)@.pos,
        decreases rest(old(input)@.tokens, old(input)@.pos), 50nat,
    {
        proof {
            reveal_with_fuel(grammar::expression, 1);
            reveal_with_fuel(grammar::binary, 1);
        }
        if input.eof() {
            return Ok(None);
        }
        Expression::logic(input)
    }

    /// The expression that must stand at the cursor: its absence is an error.
    pub(crate) fn required(input: &mut ParserInput) -> (r: Result<Expression, SyntaxError>)
        ensures
            moved(
                old(input)@,
                final(input)@,
                grammar::required(old(input)@.tokens, old(input)@.pos).used,
            ),
            match r {
                Ok(e) => grammar::required(old(input)@.tokens, old(input)@.pos).out == Ok::<
                    ExpressionView,
                    SyntaxError,
                >(e@),
                Err(error) => grammar::required(old(input)@.tokens, old(input)@.pos).out == Err::<
                    ExpressionView,
                    SyntaxError,
                >(error),
            },
            r is Ok ==> final(input)@.pos > old(input)@.pos,
        decreases rest(old(input)@.tokens, old(input)@.pos), 51nat,
    {
        proof {
            reveal_with_fuel(grammar::required, 1);
            reveal_with_fuel(grammar::expression, 1);
        }
        match Expression::parse(input)? {
            Some(e) => Ok(e),
            None => Err(input.error_here(ErrorKind::ExpectedExpression)),
        }
    }

    /// The logical level: `&&` and `||`.
    pub fn logic(input: &mut ParserInput) -> (r: Result<Option<Expression>, SyntaxError>)
        ensures
            moved(
                old(input)@,
                final(input)@,
                grammar::binary(old(input)@.tokens, old(input)@.pos, 6).used,
            ),
            expression_outcome(r) == grammar::binary(old(input)@.tokens, old(input)@.pos, 6).out,
            r matches Ok(Some(_)) ==> final(input)@.pos > old(input)@.pos,
        decreases rest(old(input)@.tokens, old(input)@.pos), 49nat,
    {
        Expression::binary(input, 6)
    }

    /// The bitwise level: `&`, `|` and `^`.
    pub fn bitwise(input: &mut ParserInput) -> (r: Result<Option<Expression>, SyntaxError>)
        ensures
            moved(
                old(input)@,
                final(input)@,
                grammar::binary(old(input)@.tokens, old(input)@.pos, 5).used,
            ),
            expression_outcome(r) == grammar::binary(old(input)@.tokens, old(input)@.pos, 5).out,
            r matches Ok(Some(_)) ==> final(input)@.pos > old(input)@.pos,
        decreases rest(old(input)@.tokens, old(input)@.pos), 49nat,
    {
        Expression::binary(input, 5)
    }

    /// The equality level: `==` and `!=`.
    pub fn equality(input: &mut ParserInput) -> (r: Result<Option<Expression>, SyntaxError>)
        ensures
            moved(
                old(input)@,
                final(input)@,
                grammar::binary(old(input)@.tokens, old(input)@.pos, 4).used,
            ),
            expression_outcome(r) == grammar::binary(old(input)@.tokens, old(input)@.pos, 4).out,
            r matches Ok(Some(_)) ==> final(input)@.pos > old(input)@.pos,
        decreases rest(old(input)@.tokens, old(input)@.pos), 49nat,
    {
        Expression::binary(input, 4)
    }

    /// The comparison level: `<`, `<=`, `>` and `>=`.
    pub fn comparison(input: &mut ParserInput) -> (r: Result<Option<Expression>, SyntaxError>)
        ensures
            moved(
                old(input)@,
                final(input)@,
                grammar::binary(old(input)@.tokens, old(input)@.pos, 3).used,
            ),
            expression_outcome(r) == grammar::binary(old(input)@.tokens, old(input)@.pos, 3).out,
            r matches Ok(Some(_)) ==> final(input)@.pos > old(input)@.pos,
        decreases rest(old(input)@.tokens, old(input)@.pos), 49nat,
    {
        Expression::binary(input, 3)
    }

    /// The shift level: `<<` and `>>`.
    pub fn shift(input: &mut ParserInput) -> (r: Result<Option<Expression>, SyntaxError>)
        ensures
            moved(
                old(input)@,
                final(input)@,
                grammar::binary(old(input)@.tokens, old(input)@.pos, 2).used,
            ),
            expression_outcome(r) == grammar::binary(old(input)@.tokens, old(input)@.pos, 2).out,
            r matches Ok(Some(_)) ==> final(input)@.pos > old(input)@.pos,
        decreases rest(old(input)@.tokens, old(input)@.pos), 49nat,
    {
        Expression::binary(input, 2)
    }

    /// The additive level: `+` and `-`.
    pub fn term(input: &mut ParserInput) -> (r: Result<Option<Expression>, SyntaxError>)
        ensures
            moved(
                old(input)@,
                final(input)@,
                grammar::binary(old(input)@.tokens, old(input)@.pos, 1).used,
            ),
            expression_outcome(r) == grammar::binary(old(input)@.tokens, old(input)@.pos, 1).out,
            r matches Ok(Some(_)) ==> final(input)@.pos > old(input)@.pos,
        decreases rest(old(input)@.tokens, old(input)@.pos), 49nat,
    {
        Expression::binary(input, 1)
    }

    /// The multiplicative level: `*`, `/` and `%`.
    pub fn factor(input: &mut ParserInput) -> (r: Result<Option<Expression>, SyntaxError>)
        ensures
            moved(
                old(input)@,
                final(input)@,
                grammar::binary(old(input)@.tokens, old(input)@.pos, 0).used,
            ),
            expression_outcome(r) == grammar::binary(old(input)@.tokens, old(input)@.pos, 0).out,
            r matches Ok(Some(_)) ==> final(input)@.pos > old(input)@.pos,
        decreases rest(old(input)@.tokens, old(input)@.pos), 49nat,
    {
        Expression::binary(input, 0)
    }

    /// The operand of the binary level `level`: the next tighter level, and the
    /// unary rule for the tightest.
    fn operand(input: &mut ParserInput, level: u8) -> (r: Result<Option<Expression>, SyntaxError>)
        requires
            level <= 6,
        ensures
            moved(
                old(input)@,
                final(input)@,
                grammar::operand(old(input)@.tokens, old(input)@.pos, level as nat).used,
            ),
            expression_outcome(r) == grammar::operand(
                old(input)@.tokens,
                old(input)@.pos,
                level as nat,
            ).out,
            r matches Ok(Some(_)) ==> final(input)@.pos > old(input)@.pos,
        decreases rest(old(input)@.tokens, old(input)@.pos), 10 + 2 * level,
    {
        proof {
            reveal_with_fuel(grammar::operand, 1);
            reveal_with_fuel(grammar::unary, 1);
            reveal_with_fuel(grammar::binary, 1);
        }
        if level == 0 {
            Expression::unary(input)
        } else {
            Expression::binary(input, level - 1)
        }
    }

    /// One binary level: an operand and, where an operator of the level follows
    /// it, that operator and exactly one more operand.
    #[verifier::rlimit(40)]
    fn binary(input: &mut ParserInput, level: u8) -> (r: Result<Option<Expression>, SyntaxError>)
        requires
            level <= 6,
        ensures
            moved(
                old(input)@,
                final(input)@,
                grammar::binary(old(input)@.tokens, old(input)@.pos, level as nat).used,
            ),
            expression_outcome(r) == grammar::binary(
                old(input)@.tokens,
                old(input)@.pos,
                level as nat,
            ).out,
            r matches Ok(Some(_)) ==> final(input)@.pos > old(input)@.pos,
        decreases rest(old(input)@.tokens, old(input)@.pos), 11 + 2 * level,
    {
        proof {
            reveal_with_fuel(grammar::binary, 1);
            reveal_with_fuel(grammar::operand, 1);
        }
        let left = match Expression::operand(input, level)? {
            Some(left) => left,
            None => {
                return Ok(None);
            },
        };
        let follows = input.peek(
            |t: &Token| -> (b: bool)
                ensures b == level_operator(level as nat, t@)
                { is_level_operator(t, level) }
        );
        if !follows {
            return Ok(Some(left));
        }
        let op = match input.next() {
            Some(found) => found.0,
            None => {
                return Ok(Some(left));
            },
        };
        match Expression::operand(input, level)? {
            Some(right) => Ok(Some(Expression::Binary(Box::new(left), op, Box::new(right)))),
            None => Err(input.error_here(ErrorKind::ExpectedExpression)),
        }
    }

    /// The unary rule: a prefix operator, `!` or `-`, and its operand, which may
    /// itself have a prefix operator.
    #[verifier::rlimit(40)]
    pub fn unary(input: &mut ParserInput) -> (r: Result<Option<Expression>, SyntaxError>)
        ensures
            moved(
                old(input)@,
                final(input)@,
                grammar::unary(old(input)@.tokens, old(input)@.pos).used,
            ),
            expression_outcome(r) == grammar::unary(old(input)@.tokens, old(input)@.pos).out,
            r matches Ok(Some(_)) ==> final(input)@.pos > old(input)@.pos,
        decreases rest(old(input)@.tokens, old(input)@.pos), 9nat,
    {
        proof {
            reveal_with_fuel(grammar::unary, 1);
            reveal_with_fuel(grammar::grouping, 1);
        }
        if input.peek(Token::is_unary_op) {
            let op = match input.next() {
                Some(found) => found.0,
                None => {
                    return Ok(None);
                },
            };
            match Expression::unary(input)? {
                Some(operand) => Ok(Some(Expression::Unary(op, Box::new(operand)))),
                None => Ok(None),
            }
        } else {
            Expression::grouping(input)
        }
    }

    /// An expression in parentheses, which stands for the expression itself.
    #[verifier::rlimit(40)]
    pub fn grouping(input: &mut ParserInput) -> (r: Result<Option<Expression>, SyntaxError>)
        ensures
            moved(
                old(input)@,
                final(input)@,
                grammar::grouping(old(input)@.tokens, old(input)@.pos).used,
            ),
            expression_outcome(r) == grammar::grouping(old(input)@.tokens, old(input)@.pos).out,
            r matches Ok(Some(_)) ==> final(input)@.pos > old(input)@.pos,
        decreases rest(old(input)@.tokens, old(input)@.pos), 8nat,
    {
        proof {
            reveal_with_fuel(grammar::grouping, 1);
            reveal_with_fuel(grammar::block, 1);
            reveal_with_fuel(grammar::expression, 1);
        }
        if at_token(input, &Token::OpenParen) {
            input.next();
            let inner = match Expression::parse(input)? {
                Some(inner) => inner,
                None => {
                    return Ok(None);
                },
            };
            if at_token(input, &Token::CloseParen) {
                input.next();
                Ok(Some(inner))
            } else {
                Err(input.error_here(ErrorKind::ExpectedCloseParen))
            }
        } else {
            Expression::block(input)
        }
    }

    /// The statements of a block, the opening brace being read already. The
    /// cursor stops before the closing brace, or where no statement follows.
    #[verifier::rlimit(40)]
    fn block_items(input: &mut ParserInput) -> (r: Result<Vec<Statement>, SyntaxError>)
        ensures
            moved(
                old(input)@,
                final(input)@,
                grammar::block_items(old(input)@.tokens, old(input)@.pos).used,
            ),
            statements_outcome(r) == grammar::block_items(old(input)@.tokens, old(input)@.pos).out,
        decreases rest(old(input)@.tokens, old(input)@.pos), 70nat,
    {
        let ghost ts = input@.tokens;
        let ghost start = input@.pos;
        let mut statements: Vec<Statement> = Vec::new();
        proof {
            assert(statements_view(statements@) =~= Seq::empty());
            lemma_after_items_start(grammar::block_items(ts, start));
        }
        loop
            invariant
                ts == old(input)@.tokens,
                start == old(input)@.pos,
                input@.tokens == ts,
                start <= input@.pos,
                grammar::block_items(ts, start) == after_items(
                    statements_view(statements@),
                    (input@.pos - start) as nat,
                    grammar::block_items(ts, input@.pos),
                ),
            decreases rest(ts, input@.pos),
        {
            let ghost at = input@.pos;
            let ghost before = statements_view(statements@);
            proof {
                reveal_with_fuel(grammar::block_items, 1);
                reveal_with_fuel(grammar::statement, 1);
            }
            if at_token(input, &Token::CloseBrace) || input.eof() {
                proof {
                    assert(before + Seq::empty() =~= before);
                }
                return Ok(statements);
            }
            match Statement::parse(input) {
                Err(error) => {
                    return Err(error);
                },
                Ok(None) => {
                    proof {
                        assert(before + Seq::empty() =~= before);
                    }
                    return Ok(statements);
                },
                Ok(Some(s)) => {
                    proof {
                        lemma_after_items_step(
                            before,
                            (at - start) as nat,
                            seq![s@],
                            (input@.pos - at) as nat,
                            grammar::block_items(ts, input@.pos),
                        );
                        lemma_statements_push(statements@, s);
                    }
                    statements.push(s);
                },
            }
        }
    }

    /// A block: statements between `{` and `}`.
    #[verifier::rlimit(40)]
    pub fn block(input: &mut ParserInput) -> (r: Result<Option<Expression>, SyntaxError>)
        ensures
            moved(
                old(input)@,
                final(input)@,
                grammar::block(old(input)@.tokens, old(input)@.pos).used,
            ),
            expression_outcome(r) == grammar::block(old(input)@.tokens, old(input)@.pos).out,
            r matches Ok(Some(_)) ==> final(input)@.pos > old(input)@.pos,
        decreases rest(old(input)@.tokens, old(input)@.pos), 7nat,
    {
        proof {
            reveal_with_fuel(grammar::block, 1);
            reveal_with_fuel(grammar::function_call, 1);
            reveal_with_fuel(grammar::block_items, 1);
        }
        if at_token(input, &Token::OpenBrace) {
            input.next();
            let statements = Expression::block_items(input)?;
            if at_token(input, &Token::CloseBrace) {
                input.next();
                Ok(Some(Expression::Block(statements)))
            } else {
                Err(input.error_here(ErrorKind::ExpectedCloseBrace))
            }
        } else {
            Expression::function_call(input)
        }
    }

    /// The arguments of a call, the opening parenthesis being read already. The
    /// cursor stops before the closing parenthesis, or where no expression
    /// follows.
    #[verifier::rlimit(40)]
    fn arguments(input: &mut ParserInput) -> (r: Result<Vec<Expression>, SyntaxError>)
        ensures
            moved(
                old(input)@,
                final(input)@,
                grammar::arguments(old(input)@.tokens, old(input)@.pos).used,
            ),
            expressions_outcome(r) == grammar::arguments(old(input)@.tokens, old(input)@.pos).out,
        decreases rest(old(input)@.tokens, old(input)@.pos), 70nat,
    {
        let ghost ts = input@.tokens;
        let ghost start = input@.pos;
        let mut args: Vec<Expression> = Vec::new();
        proof {
            assert(expressions_view(args@) =~= Seq::empty());
            lemma_after_items_start(grammar::arguments(ts, start));
        }
        loop
            invariant
                ts == old(input)@.tokens,
                start == old(input)@.pos,
                input@.tokens == ts,
                start <= input@.pos,
                grammar::arguments(ts, start) == after_items(
                    expressions_view(args@),
                    (input@.pos - start) as nat,
                    grammar::arguments(ts, input@.pos),
                ),
            decreases rest(ts, input@.pos),
        {
            let ghost at = input@.pos;
            let ghost before = expressions_view(args@);
            proof {
                reveal_with_fuel(grammar::arguments, 1);
                reveal_with_fuel(grammar::expression, 1);
            }
            match Expression::parse(input) {
                Err(error) => {
                    return Err(error);
                },
                Ok(None) => {
                    proof {
                        assert(before + Seq::empty() =~= before);
                    }
                    return Ok(args);
                },
                Ok(Some(arg)) => {
                    proof {
                        lemma_expressions_push(args@, arg);
                    }
                    args.push(arg);
                    if at_token(input, &Token::CloseParen) {
                        return Ok(args);
                    }
                    if !at_token(input, &Token::Comma) {
                        return Err(input.error_here(ErrorKind::ExpectedComma));
                    }
                    input.next();
                    proof {
                        lemma_after_items_step(
                            before,
                            (at - start) as nat,
                            seq![arg@],
                            (input@.pos - at) as nat,
                            grammar::arguments(ts, input@.pos),
                        );
                    }
                },
            }
        }
    }

    /// A path, and a call where an argument list in parentheses follows it.
    #[verifier::rlimit(40)]
    pub fn function_call(input: &mut ParserInput) -> (r: Result<Option<Expression>, SyntaxError>)
        ensures
            moved(
                old(input)@,
                final(input)@,
                grammar::function_call(old(input)@.tokens, old(input)@.pos).used,
            ),
            expression_outcome(r) == grammar::function_call(
                old(input)@.tokens,
                old(input)@.pos,
            ).out,
            r matches Ok(Some(_)) ==> final(input)@.pos > old(input)@.pos,
        decreases rest(old(input)@.tokens, old(input)@.pos), 6nat,
    {
        proof {
            reveal_with_fuel(grammar::function_call, 1);
            reveal_with_fuel(grammar::arguments, 1);
        }
        match Expression::path(input)? {
            Some(Expression::Path(path)) => {
                if at_token(input, &Token::OpenParen) {
                    input.next();
                    let args = Expression::arguments(input)?;
                    if at_token(input, &Token::CloseParen) {
                        input.next();
                        Ok(Some(Expression::FunctionCall(path, args)))
                    } else {
                        Err(input.error_here(ErrorKind::ExpectedCloseParen))
                    }
                } else {
                    Ok(Some(Expression::Path(path)))
                }
            },
            other => Ok(other),
        }
    }

    /// A dotted path: an identifier and the segments behind it, each a dot and an
    /// identifier. Two dots in a row are an error. Anything that does not
    /// start with an identifier is left to [`Expression::primary`].
    #[verifier::rlimit(40)]
    pub fn path(input: &mut ParserInput) -> (r: Result<Option<Expression>, SyntaxError>)
        ensures
            moved(old(input)@, final(input)@, grammar::path(old(input)@.tokens, old(input)@.pos).used),
            expression_outcome(r) == grammar::path(old(input)@.tokens, old(input)@.pos).out,
            r matches Ok(Some(_)) ==> final(input)@.pos > old(input)@.pos,
    {
        let ghost ts = input@.tokens;
        let ghost start = input@.pos;
        if !at_identifier(input) {
            return Expression::primary(input);
        }
        let mut nodes: Vec<String> = Vec::new();
        match input.next() {
            Some((Token::Identifier(name), _)) => {
                nodes.push(name);
            },
            _ => {},
        }
        let mut had_dot = false;
        proof {
            assert(names_view(nodes@).skip(1) =~= Seq::empty());
            lemma_after_items_start(grammar::path_tail(ts, start + 1, false));
        }
        loop
            invariant
                ts == old(input)@.tokens,
                start == old(input)@.pos,
                input@.tokens == ts,
                start < input@.pos <= ts.len(),
                nodes@.len() >= 1,
                kind_at(ts, start) == Some(TokenView::Identifier(nodes@[0]@)),
                grammar::path_tail(ts, start + 1, false) == after_items(
                    names_view(nodes@).skip(1),
                    (input@.pos - start - 1) as nat,
                    grammar::path_tail(ts, input@.pos, had_dot),
                ),
            decreases rest(ts, input@.pos),
        {
            let ghost at = input@.pos;
            let ghost before = names_view(nodes@).skip(1);
            match input.next() {
                Some((Token::Dot, span)) => {
                    if had_dot {
                        input.rewind();
                        return Err(SyntaxError { kind: ErrorKind::UnexpectedDot, span });
                    }
                    had_dot = true;
                    proof {
                        lemma_after_items_step(
                            before,
                            (at - start - 1) as nat,
                            Seq::empty(),
                            1,
                            grammar::path_tail(ts, input@.pos, true),
                        );
                        assert(before + Seq::empty() =~= before);
                    }
                },
                Some((Token::Identifier(name), _)) => {
                    if !had_dot {
                        input.rewind();
                        proof {
                            assert(before + Seq::empty() =~= before);
                            assert(seq![nodes@[0]@] + before =~= names_view(nodes@));
                        }
                        return Ok(Some(Expression::Path(nodes)));
                    }
                    had_dot = false;
                    proof {
                        lemma_after_items_step(
                            before,
                            (at - start - 1) as nat,
                            seq![name@],
                            1,
                            grammar::path_tail(ts, input@.pos, false),
                        );
                        assert(names_view(nodes@.push(name)).skip(1) =~= before + seq![name@]);
                    }
                    nodes.push(name);
                },
                Some(_) => {
                    input.rewind();
                    proof {
                        assert(before + Seq::empty() =~= before);
                        assert(seq![nodes@[0]@] + before =~= names_view(nodes@));
                    }
                    return Ok(Some(Expression::Path(nodes)));
                },
                None => {
                    proof {
                        assert(before + Seq::empty() =~= before);
                        assert(seq![nodes@[0]@] + before =~= names_view(nodes@));
                    }
                    return Ok(Some(Expression::Path(nodes)));
                },
            }
        }
    }

    /// A literal token as an expression; where the next token is no literal,
    /// there is no expression and the cursor stays.
    pub fn primary(input: &mut ParserInput) -> (r: Result<Option<Expression>, SyntaxError>)
        ensures
            moved(
                old(input)@,
                final(input)@,
                grammar::primary(old(input)@.tokens, old(input)@.pos).used,
            ),
            expression_outcome(r) == grammar::primary(old(input)@.tokens, old(input)@.pos).out,
            r matches Ok(Some(_)) ==> final(input)@.pos > old(input)@.pos,
    {
        let literal = input.peek(
            |t: &Token| -> (b: bool)
                ensures b == (t@ is StringLiteral || t@ is SignedLiteral || t@ is UnsignedLiteral || t@ is FloatLiteral)
                {
                    matches!(
                        t,
                        Token::StringLiteral(_) | Token::SignedLiteral(_) | Token::UnsignedLiteral(_)
                            | Token::FloatLiteral(_)
                    )
                }
        );
        if literal {
            match input.next() {
                Some((Token::StringLiteral(text), _)) => Ok(Some(Expression::StringLiteral(text))),
                Some((Token::SignedLiteral(value), _)) => Ok(Some(Expression::SignedLiteral(value))),
                Some((Token::UnsignedLiteral(value), _)) => Ok(
                    Some(Expression::UnsignedLiteral(value)),
                ),
                Some((Token::FloatLiteral(bits), _)) => Ok(Some(Expression::FloatLiteral(bits))),
                _ => Ok(None),
            }
        } else {
            Ok(None)
        }
    }
}

} // verus!
