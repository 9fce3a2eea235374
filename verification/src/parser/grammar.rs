use vstd::prelude::*;
use crate::error::{ErrorKind, SyntaxError};
use crate::lexer::token::keyword::Keyword;
use crate::lexer::token::TokenView;
use crate::lexer::Span;
use crate::parser::{ExpressionView, StatementView};

verus! {

/// The tokens of a program with their spans, in order.
pub type Tokens = Seq<(TokenView, Span)>;

/// The outcome of one rule of the grammar applied at some position: the number of
/// tokens that the cursor moved forward, and what was parsed or the error. After
/// an error the cursor stands at the token that the error speaks of.
pub struct Step<T> {
    pub used: nat,
    pub out: Result<T, SyntaxError>,
}

/// The outcome of a rule that parses a statement, or finds none.
pub type StatementStep = Step<Option<StatementView>>;

/// The outcome of a rule that parses an expression, or finds none.
pub type ExpressionStep = Step<Option<ExpressionView>>;

/// The number of tokens from `pos` on.
pub open spec fn rest(ts: Tokens, pos: int) -> nat {
    if pos < ts.len() {
        (ts.len() - pos) as nat
    } else {
        0
    }
}

/// The token at `pos`, if there is one.
pub open spec fn kind_at(ts: Tokens, pos: int) -> Option<TokenView> {
    if 0 <= pos < ts.len() {
        Some(ts[pos].0)
    } else {
        None
    }
}

/// The token at `pos` is `kind`.
pub open spec fn is_at(ts: Tokens, pos: int, kind: TokenView) -> bool {
    kind_at(ts, pos) == Some(kind)
}

/// The span that an error at `pos` is anchored to: that of the token there, or
/// of the last token where the tokens have run out.
pub open spec fn span_at(ts: Tokens, pos: int) -> Span {
    if 0 <= pos < ts.len() {
        ts[pos].1
    } else if ts.len() > 0 {
        ts[ts.len() - 1].1
    } else {
        Span { start: 0, end: 0 }
    }
}

/// The cursor is at or past the last token.
pub open spec fn at_end(ts: Tokens, pos: int) -> bool {
    pos + 1 >= ts.len()
}

/// The error of kind `kind` that `used` tokens behind `pos` give rise to.
pub open spec fn fail<T>(ts: Tokens, pos: int, used: nat, kind: ErrorKind) -> Step<T> {
    Step { used, out: Err(SyntaxError { kind, span: span_at(ts, pos + used) }) }
}

/// The outcome `step` of a rule that was applied `skipped` tokens behind the
/// start, with `prefix` put before the items it parsed.
pub open spec fn after_items<T>(prefix: Seq<T>, skipped: nat, step: Step<Seq<T>>) -> Step<Seq<T>> {
    Step {
        used: skipped + step.used,
        out: match step.out {
            Ok(items) => Ok(prefix + items),
            Err(error) => Err(error),
        },
    }
}

/// A literal token as an expression.
pub open spec fn primary(ts: Tokens, pos: int) -> ExpressionStep {
    match kind_at(ts, pos) {
        Some(TokenView::StringLiteral(text)) => Step {
            used: 1,
            out: Ok(Some(ExpressionView::StringLiteral(text))),
        },
        Some(TokenView::SignedLiteral(value)) => Step {
            used: 1,
            out: Ok(Some(ExpressionView::SignedLiteral(value))),
        },
        Some(TokenView::UnsignedLiteral(value)) => Step {
            used: 1,
            out: Ok(Some(ExpressionView::UnsignedLiteral(value))),
        },
        Some(TokenView::FloatLiteral(bits)) => Step {
            used: 1,
            out: Ok(Some(ExpressionView::FloatLiteral(bits))),
        },
        _ => Step { used: 0, out: Ok(None) },
    }
}

/// The segments of a path that follow its first one: each a dot and an
/// identifier. `had_dot` says that a dot was read and its identifier is due. A
/// dot that no identifier follows still belongs to the path; a second dot
/// directly behind it is an error.
pub open spec fn path_tail(ts: Tokens, pos: int, had_dot: bool) -> Step<Seq<Seq<char>>>
    decreases rest(ts, pos),
{
    match kind_at(ts, pos) {
        Some(TokenView::Dot) => if had_dot {
            fail(ts, pos, 0, ErrorKind::UnexpectedDot)
        } else {
            after_items(Seq::empty(), 1, path_tail(ts, pos + 1, true))
        },
        Some(TokenView::Identifier(name)) => if had_dot {
            after_items(seq![name], 1, path_tail(ts, pos + 1, false))
        } else {
            Step { used: 0, out: Ok(Seq::empty()) }
        },
        _ => Step { used: 0, out: Ok(Seq::empty()) },
    }
}

/// A dotted path: an identifier and the segments behind it. Anything else is left
/// to [`primary`].
pub open spec fn path(ts: Tokens, pos: int) -> ExpressionStep {
    match kind_at(ts, pos) {
        Some(TokenView::Identifier(name)) => {
            let tail = path_tail(ts, pos + 1, false);
            Step {
                used: 1 + tail.used,
                out: match tail.out {
                    Ok(segments) => Ok(Some(ExpressionView::Path(seq![name] + segments))),
                    Err(error) => Err(error),
                },
            }
        },
        _ => primary(ts, pos),
    }
}

/// Whether `kind` is an operator of the binary level `level`. The levels bind
/// more tightly the lower their number: 0 is multiplicative, 1 additive, 2
/// shift, 3 comparison, 4 equality, 5 bitwise, 6 logical.
pub open spec fn level_operator(level: nat, kind: TokenView) -> bool {
    if level == 0 {
        kind is Mul || kind is Div || kind is Mod
    } else if level == 1 {
        kind is Add || kind is Sub
    } else if level == 2 {
        kind is Shl || kind is Shr
    } else if level == 3 {
        kind is Lt || kind is Le || kind is Gt || kind is Ge
    } else if level == 4 {
        kind is Eq || kind is Ne
    } else if level == 5 {
        kind is BitAnd || kind is BitOr || kind is BitXor
    } else if level == 6 {
        kind is And || kind is Or
    } else {
        false
    }
}

/// The number of the loosest binary level, the logical one.
pub open spec fn loosest() -> nat {
    6
}

/// The operator at `pos`, if it is one of the level `level`.
pub open spec fn operator_at(ts: Tokens, pos: int, level: nat) -> Option<TokenView> {
    match kind_at(ts, pos) {
        Some(kind) => if level_operator(level, kind) {
            Some(kind)
        } else {
            None
        },
        None => None,
    }
}

/// The statement rule: none at the end of the tokens, else the first of the
/// rules for a function, a class, an import, a variable, an assignment or an
/// expression that applies.
#[verifier::opaque]
pub open spec fn statement(ts: Tokens, pos: int) -> StatementStep
    decreases rest(ts, pos), 30nat,
{
    if at_end(ts, pos) {
        Step { used: 0, out: Ok(None) }
    } else {
        function_decl(ts, pos)
    }
}

/// The name that a declaration needs at `pos`.
pub open spec fn name_at(ts: Tokens, pos: int) -> Result<Seq<char>, SyntaxError> {
    match kind_at(ts, pos) {
        Some(TokenView::Identifier(name)) => Ok(name),
        _ => Err(SyntaxError { kind: ErrorKind::ExpectedIdentifier, span: span_at(ts, pos) }),
    }
}

/// The expression that must stand at `pos`: its absence is an error.
#[verifier::opaque]
pub open spec fn required(ts: Tokens, pos: int) -> Step<ExpressionView>
    decreases rest(ts, pos), 25nat,
{
    let found = expression(ts, pos);
    match found.out {
        Ok(Some(e)) => Step { used: found.used, out: Ok(e) },
        Ok(None) => fail(ts, pos, found.used, ErrorKind::ExpectedExpression),
        Err(error) => Step { used: found.used, out: Err(error) },
    }
}

/// The parameters of a function from `pos` on, each a name, a colon and a type,
/// with a comma between two of them and, if one likes, behind the last. The
/// list ends before the closing parenthesis, or where no name follows.
#[verifier::opaque]
pub open spec fn parameters(ts: Tokens, pos: int) -> Step<Seq<(Seq<char>, ExpressionView)>>
    decreases rest(ts, pos), 40nat,
{
    match kind_at(ts, pos) {
        Some(TokenView::Identifier(name)) => {
            if !is_at(ts, pos + 1, TokenView::Colon) {
                fail(ts, pos, 1, ErrorKind::ExpectedColon)
            } else {
                let ty = required(ts, pos + 2);
                let used = 2 + ty.used;
                match ty.out {
                    Err(error) => Step { used, out: Err(error) },
                    Ok(e) => if is_at(ts, pos + used, TokenView::CloseParen) {
                        Step { used, out: Ok(seq![(name, e)]) }
                    } else if is_at(ts, pos + used, TokenView::Comma) {
                        after_items(seq![(name, e)], used + 1, parameters(ts, pos + used + 1))
                    } else {
                        fail(ts, pos, used, ErrorKind::ExpectedComma)
                    },
                }
            }
        },
        _ => Step { used: 0, out: Ok(Seq::empty()) },
    }
}

/// The return type of a function, where `->` announces one at `pos`.
#[verifier::opaque]
pub open spec fn return_type(ts: Tokens, pos: int) -> ExpressionStep
    decreases rest(ts, pos), 40nat,
{
    if is_at(ts, pos, TokenView::Arrow) {
        let ty = required(ts, pos + 1);
        Step {
            used: 1 + ty.used,
            out: match ty.out {
                Ok(e) => Ok(Some(e)),
                Err(error) => Err(error),
            },
        }
    } else {
        Step { used: 0, out: Ok(None) }
    }
}

/// The body of a function at `pos`, with the semicolon that must end it where it
/// is not a block.
#[verifier::opaque]
pub open spec fn function_body(ts: Tokens, pos: int) -> Step<ExpressionView>
    decreases rest(ts, pos), 40nat,
{
    let body = required(ts, pos);
    match body.out {
        Err(error) => body,
        Ok(e) => if e is Block {
            body
        } else if is_at(ts, pos + body.used, TokenView::Semicolon) {
            Step { used: body.used + 1, out: Ok(e) }
        } else {
            fail(ts, pos, body.used, ErrorKind::ExpectedSemicolon)
        },
    }
}

/// A function declaration: `function`, the name, the parameters in
/// parentheses, `->` and a return type if one is stated, and the body.
/// Anything that does not start with `function` is left to [`class_decl`].
#[verifier::opaque]
pub open spec fn function_decl(ts: Tokens, pos: int) -> StatementStep
    decreases rest(ts, pos), 29nat,
{
    if !is_at(ts, pos, TokenView::Keyword(Keyword::Function)) {
        class_decl(ts, pos)
    } else {
        match name_at(ts, pos + 1) {
            Err(error) => Step { used: 1, out: Err(error) },
            Ok(name) => if !is_at(ts, pos + 2, TokenView::OpenParen) {
                fail(ts, pos, 2, ErrorKind::ExpectedOpenParen)
            } else {
                let params = parameters(ts, pos + 3);
                let close = 3 + params.used;
                match params.out {
                    Err(error) => Step { used: close, out: Err(error) },
                    Ok(items) => if !is_at(ts, pos + close, TokenView::CloseParen) {
                        fail(ts, pos, close, ErrorKind::ExpectedCloseParen)
                    } else {
                        let ret = return_type(ts, pos + close + 1);
                        let start = close + 1 + ret.used;
                        match ret.out {
                            Err(error) => Step { used: start, out: Err(error) },
                            Ok(ty) => {
                                let body = function_body(ts, pos + start);
                                Step {
                                    used: start + body.used,
                                    out: match body.out {
                                        Ok(e) => Ok(
                                            Some(StatementView::FunctionDecl(name, ty, items, e)),
                                        ),
                                        Err(error) => Err(error),
                                    },
                                }
                            },
                        }
                    },
                }
            },
        }
    }
}

/// Whether a statement may be a member of a class.
pub open spec fn may_be_member(s: StatementView) -> bool {
    s is FunctionDecl || s is VariableDecl
}

/// The members of a class from `pos` on. The list ends before the closing brace,
/// or where no statement follows. It would end too behind a member that took
/// no token; `laws::lemma_statement_advances` shows that there is none.
#[verifier::opaque]
pub open spec fn members(ts: Tokens, pos: int) -> Step<Seq<StatementView>>
    decreases rest(ts, pos), 40nat,
{
    if is_at(ts, pos, TokenView::CloseBrace) || at_end(ts, pos) {
        Step { used: 0, out: Ok(Seq::empty()) }
    } else {
        let member = statement(ts, pos);
        match member.out {
            Err(error) => Step { used: member.used, out: Err(error) },
            Ok(None) => Step { used: member.used, out: Ok(Seq::empty()) },
            Ok(Some(s)) => if !may_be_member(s) {
                fail(ts, pos, member.used, ErrorKind::InvalidClassMember)
            } else if member.used == 0 {
                Step { used: 0, out: Ok(seq![s]) }
            } else {
                after_items(seq![s], member.used, members(ts, pos + member.used))
            },
        }
    }
}

/// The semicolon that ends the statement `found`, which was parsed from `pos` by
/// one of the rules for an import, a variable, an assignment or an expression.
/// A block needs no semicolon and takes one that follows; an expression needs
/// none directly before a closing brace.
pub open spec fn terminated(ts: Tokens, pos: int, found: StatementStep) -> StatementStep {
    match found.out {
        Err(error) => found,
        Ok(s) => if is_at(ts, pos + found.used, TokenView::Semicolon) {
            Step { used: found.used + 1, out: Ok(s) }
        } else if s matches Some(StatementView::Expression(e)) && (e is Block || is_at(
            ts,
            pos + found.used,
            TokenView::CloseBrace,
        )) {
            found
        } else {
            fail(ts, pos, found.used, ErrorKind::ExpectedSemicolon)
        },
    }
}

/// A class declaration: `class`, the name, and the members in braces. Anything
/// that does not start with `class` is left to [`import`], and must end as
/// [`terminated`] says.
#[verifier::opaque]
pub open spec fn class_decl(ts: Tokens, pos: int) -> StatementStep
    decreases rest(ts, pos), 28nat,
{
    if !is_at(ts, pos, TokenView::Keyword(Keyword::Class)) {
        terminated(ts, pos, import(ts, pos))
    } else {
        match name_at(ts, pos + 1) {
            Err(error) => Step { used: 1, out: Err(error) },
            Ok(name) => if !is_at(ts, pos + 2, TokenView::OpenBrace) {
                fail(ts, pos, 2, ErrorKind::ExpectedOpenBrace)
            } else {
                let body = members(ts, pos + 3);
                let close = 3 + body.used;
                match body.out {
                    Err(error) => Step { used: close, out: Err(error) },
                    Ok(items) => if is_at(ts, pos + close, TokenView::CloseBrace) {
                        Step { used: close + 1, out: Ok(Some(StatementView::ClassDecl(name, items))) }
                    } else {
                        fail(ts, pos, close, ErrorKind::ExpectedCloseBrace)
                    },
                }
            },
        }
    }
}

/// The paths of an import group from `pos` on, behind the opening brace: each is
/// `prefix` with one more path behind it, and a comma stands between two of
/// them and, if one likes, behind the last.
#[verifier::opaque]
pub open spec fn import_group(ts: Tokens, pos: int, prefix: Seq<Seq<char>>) -> Step<
    Seq<ExpressionView>,
>
    decreases rest(ts, pos), 40nat,
{
    let found = expression(ts, pos);
    match found.out {
        Err(error) => Step { used: found.used, out: Err(error) },
        Ok(None) => Step { used: found.used, out: Ok(Seq::empty()) },
        Ok(Some(ExpressionView::Path(segments))) => {
            let whole = ExpressionView::Path(prefix + segments);
            if is_at(ts, pos + found.used, TokenView::Comma) {
                after_items(
                    seq![whole],
                    found.used + 1,
                    import_group(ts, pos + found.used + 1, prefix),
                )
            } else {
                Step { used: found.used, out: Ok(seq![whole]) }
            }
        },
        Ok(Some(_)) => fail(ts, pos, found.used, ErrorKind::ExpectedPath),
    }
}

/// The paths of an import from `pos` on, one behind the other: each a path by
/// itself, or a path and a group in braces that it is the prefix of. The list
/// would end too behind a path that took no token;
/// `laws::lemma_expression_advances` shows that there is none.
#[verifier::opaque]
pub open spec fn import_paths(ts: Tokens, pos: int) -> Step<Seq<ExpressionView>>
    decreases rest(ts, pos), 40nat,
{
    if at_end(ts, pos) {
        Step { used: 0, out: Ok(Seq::empty()) }
    } else {
        let found = expression(ts, pos);
        match found.out {
            Err(error) => Step { used: found.used, out: Err(error) },
            Ok(None) => Step { used: found.used, out: Ok(Seq::empty()) },
            Ok(Some(ExpressionView::Path(segments))) => {
                if is_at(ts, pos + found.used, TokenView::OpenBrace) {
                    let group = import_group(ts, pos + found.used + 1, segments);
                    let close = found.used + 1 + group.used;
                    match group.out {
                        Err(error) => Step { used: close, out: Err(error) },
                        Ok(paths) => if is_at(ts, pos + close, TokenView::CloseBrace) {
                            after_items(paths, close + 1, import_paths(ts, pos + close + 1))
                        } else {
                            fail(ts, pos, close, ErrorKind::ExpectedCloseBrace)
                        },
                    }
                } else if found.used == 0 {
                    Step { used: 0, out: Ok(seq![ExpressionView::Path(segments)]) }
                } else {
                    after_items(
                        seq![ExpressionView::Path(segments)],
                        found.used,
                        import_paths(ts, pos + found.used),
                    )
                }
            },
            Ok(Some(_)) => fail(ts, pos, found.used, ErrorKind::ExpectedPath),
        }
    }
}

/// An import: `import` and at least one path or group. Anything that does not
/// start with `import` is left to [`variable_decl`].
#[verifier::opaque]
pub open spec fn import(ts: Tokens, pos: int) -> StatementStep
    decreases rest(ts, pos), 27nat,
{
    if !is_at(ts, pos, TokenView::Keyword(Keyword::Import)) {
        variable_decl(ts, pos)
    } else {
        let first = expression(ts, pos + 1);
        if first.out == Ok::<Option<ExpressionView>, SyntaxError>(None) {
            fail(ts, pos, 1 + first.used, ErrorKind::ExpectedExpression)
        } else {
            let paths = import_paths(ts, pos + 1);
            Step {
                used: 1 + paths.used,
                out: match paths.out {
                    Ok(items) => Ok(Some(StatementView::Import(items))),
                    Err(error) => Err(error),
                },
            }
        }
    }
}

/// The type of a variable, where a colon announces one at `pos`: a path.
#[verifier::opaque]
pub open spec fn variable_type(ts: Tokens, pos: int) -> ExpressionStep
    decreases rest(ts, pos), 40nat,
{
    if is_at(ts, pos, TokenView::Colon) {
        let ty = required(ts, pos + 1);
        match ty.out {
            Err(error) => Step { used: 1 + ty.used, out: Err(error) },
            Ok(e) => if e is Path {
                Step { used: 1 + ty.used, out: Ok(Some(e)) }
            } else {
                fail(ts, pos, 1 + ty.used, ErrorKind::ExpectedPath)
            },
        }
    } else {
        Step { used: 0, out: Ok(None) }
    }
}

/// A variable declaration: `let`, the name, a colon and a type if one is
/// stated, `=` and an initial value if one is given; one of the two must be
/// there. Anything that does not start with `let` is left to [`assign`].
#[verifier::opaque]
pub open spec fn variable_decl(ts: Tokens, pos: int) -> StatementStep
    decreases rest(ts, pos), 26nat,
{
    if !is_at(ts, pos, TokenView::Keyword(Keyword::Let)) {
        assign(ts, pos)
    } else {
        match name_at(ts, pos + 1) {
            Err(error) => Step { used: 1, out: Err(error) },
            Ok(name) => {
                let ty = variable_type(ts, pos + 2);
                let used = 2 + ty.used;
                match ty.out {
                    Err(error) => Step { used, out: Err(error) },
                    Ok(stated) => if is_at(ts, pos + used, TokenView::Assign) {
                        let init = expression(ts, pos + used + 1);
                        Step {
                            used: used + 1 + init.used,
                            out: match init.out {
                                Ok(Some(e)) => Ok(
                                    Some(StatementView::VariableDecl(name, stated, Some(e))),
                                ),
                                Ok(None) => Err(
                                    SyntaxError {
                                        kind: ErrorKind::ExpectedExpression,
                                        span: span_at(ts, pos + 1),
                                    },
                                ),
                                Err(error) => Err(error),
                            },
                        }
                    } else if stated.is_some() {
                        Step { used, out: Ok(Some(StatementView::VariableDecl(name, stated, None))) }
                    } else {
                        Step {
                            used,
                            out: Err(
                                SyntaxError {
                                    kind: ErrorKind::MissingTypeOrInitializer,
                                    span: span_at(ts, pos + 1),
                                },
                            ),
                        }
                    },
                }
            },
        }
    }
}

/// An expression, and an assignment where an assignment operator and a value
/// follow it. Where the expression or the value is missing there is no
/// statement.
#[verifier::opaque]
pub open spec fn assign(ts: Tokens, pos: int) -> StatementStep
    decreases rest(ts, pos), 25nat,
{
    let target = expression(ts, pos);
    match target.out {
        Err(error) => Step { used: target.used, out: Err(error) },
        Ok(None) => Step { used: target.used, out: Ok(None) },
        Ok(Some(left)) => match kind_at(ts, pos + target.used) {
            Some(op) => if op.is_assign_op() {
                let value = expression(ts, pos + target.used + 1);
                Step {
                    used: target.used + 1 + value.used,
                    out: match value.out {
                        Ok(Some(right)) => Ok(Some(StatementView::Assign(left, op, right))),
                        Ok(None) => Ok(None),
                        Err(error) => Err(error),
                    },
                }
            } else {
                Step { used: target.used, out: Ok(Some(StatementView::Expression(left))) }
            },
            None => Step { used: target.used, out: Ok(Some(StatementView::Expression(left))) },
        },
    }
}

/// The expression rule: none at the end of the tokens, else the loosest binary
/// level.
#[verifier::opaque]
pub open spec fn expression(ts: Tokens, pos: int) -> ExpressionStep
    decreases rest(ts, pos), 24nat,
{
    if at_end(ts, pos) {
        Step { used: 0, out: Ok(None) }
    } else {
        binary(ts, pos, loosest())
    }
}

/// The operand of the binary level `level`: the next tighter level, and the
/// unary rule for the tightest.
#[verifier::opaque]
pub open spec fn operand(ts: Tokens, pos: int, level: nat) -> ExpressionStep
    decreases rest(ts, pos), 10 + 2 * level,
{
    if level == 0 {
        unary(ts, pos)
    } else {
        binary(ts, pos, (level - 1) as nat)
    }
}

/// One binary level: an operand and, where an operator of the level follows it,
/// that operator and exactly one more operand, which must be there.
#[verifier::opaque]
pub open spec fn binary(ts: Tokens, pos: int, level: nat) -> ExpressionStep
    decreases rest(ts, pos), 11 + 2 * level,
{
    let first = operand(ts, pos, level);
    match first.out {
        Ok(Some(left)) => match operator_at(ts, pos + first.used, level) {
            Some(op) => {
                let second = operand(ts, pos + first.used + 1, level);
                let used = first.used + 1 + second.used;
                match second.out {
                    Ok(Some(right)) => Step {
                        used,
                        out: Ok(Some(ExpressionView::Binary(Box::new(left), op, Box::new(right)))),
                    },
                    Ok(None) => fail(ts, pos, used, ErrorKind::ExpectedExpression),
                    Err(error) => Step { used, out: Err(error) },
                }
            },
            None => first,
        },
        _ => first,
    }
}

/// The unary rule: a prefix operator and its operand, which may itself have a
/// prefix operator. Where the operand is missing there is no expression.
/// Anything that does not start with `!` or `-` is left to [`grouping`].
#[verifier::opaque]
pub open spec fn unary(ts: Tokens, pos: int) -> ExpressionStep
    decreases rest(ts, pos), 9nat,
{
    match kind_at(ts, pos) {
        Some(op) => if op.is_unary_op() {
            let inner = unary(ts, pos + 1);
            Step {
                used: 1 + inner.used,
                out: match inner.out {
                    Ok(Some(e)) => Ok(Some(ExpressionView::Unary(op, Box::new(e)))),
                    Ok(None) => Ok(None),
                    Err(error) => Err(error),
                },
            }
        } else {
            grouping(ts, pos)
        },
        None => grouping(ts, pos),
    }
}

/// An expression in parentheses, which stands for the expression itself. Where
/// nothing stands behind `(` there is no expression. Anything that does not
/// start with `(` is left to [`block`].
#[verifier::opaque]
pub open spec fn grouping(ts: Tokens, pos: int) -> ExpressionStep
    decreases rest(ts, pos), 8nat,
{
    if !is_at(ts, pos, TokenView::OpenParen) {
        block(ts, pos)
    } else {
        let inner = expression(ts, pos + 1);
        let used = 1 + inner.used;
        match inner.out {
            Ok(Some(e)) => if is_at(ts, pos + used, TokenView::CloseParen) {
                Step { used: used + 1, out: Ok(Some(e)) }
            } else {
                fail(ts, pos, used, ErrorKind::ExpectedCloseParen)
            },
            _ => Step { used, out: inner.out },
        }
    }
}

/// The statements of a block from `pos` on. The list ends before the closing
/// brace, or where no statement follows. It would end too behind a statement
/// that took no token; `laws::lemma_statement_advances` shows that there is
/// none.
#[verifier::opaque]
pub open spec fn block_items(ts: Tokens, pos: int) -> Step<Seq<StatementView>>
    decreases rest(ts, pos), 40nat,
{
    if is_at(ts, pos, TokenView::CloseBrace) || at_end(ts, pos) {
        Step { used: 0, out: Ok(Seq::empty()) }
    } else {
        let item = statement(ts, pos);
        match item.out {
            Err(error) => Step { used: item.used, out: Err(error) },
            Ok(None) => Step { used: item.used, out: Ok(Seq::empty()) },
            Ok(Some(s)) => if item.used == 0 {
                Step { used: 0, out: Ok(seq![s]) }
            } else {
                after_items(seq![s], item.used, block_items(ts, pos + item.used))
            },
        }
    }
}

/// A block: statements between `{` and `}`. Anything that does not start with
/// `{` is left to [`function_call`].
#[verifier::opaque]
pub open spec fn block(ts: Tokens, pos: int) -> ExpressionStep
    decreases rest(ts, pos), 7nat,
{
    if !is_at(ts, pos, TokenView::OpenBrace) {
        function_call(ts, pos)
    } else {
        let items = block_items(ts, pos + 1);
        let used = 1 + items.used;
        match items.out {
            Err(error) => Step { used, out: Err(error) },
            Ok(statements) => if is_at(ts, pos + used, TokenView::CloseBrace) {
                Step { used: used + 1, out: Ok(Some(ExpressionView::Block(statements))) }
            } else {
                fail(ts, pos, used, ErrorKind::ExpectedCloseBrace)
            },
        }
    }
}

/// The arguments of a call from `pos` on, with a comma between two of them and,
/// if one likes, behind the last. The list ends before the closing
/// parenthesis, or where no expression follows.
#[verifier::opaque]
pub open spec fn arguments(ts: Tokens, pos: int) -> Step<Seq<ExpressionView>>
    decreases rest(ts, pos), 40nat,
{
    let found = expression(ts, pos);
    match found.out {
        Err(error) => Step { used: found.used, out: Err(error) },
        Ok(None) => Step { used: found.used, out: Ok(Seq::empty()) },
        Ok(Some(e)) => if is_at(ts, pos + found.used, TokenView::CloseParen) {
            Step { used: found.used, out: Ok(seq![e]) }
        } else if is_at(ts, pos + found.used, TokenView::Comma) {
            after_items(seq![e], found.used + 1, arguments(ts, pos + found.used + 1))
        } else {
            fail(ts, pos, found.used, ErrorKind::ExpectedComma)
        },
    }
}

/// A path, and a call where an argument list in parentheses follows it.
#[verifier::opaque]
pub open spec fn function_call(ts: Tokens, pos: int) -> ExpressionStep
    decreases rest(ts, pos), 6nat,
{
    let callee = path(ts, pos);
    match callee.out {
        Ok(Some(ExpressionView::Path(segments))) => if is_at(
            ts,
            pos + callee.used,
            TokenView::OpenParen,
        ) {
            let args = arguments(ts, pos + callee.used + 1);
            let used = callee.used + 1 + args.used;
            match args.out {
                Err(error) => Step { used, out: Err(error) },
                Ok(items) => if is_at(ts, pos + used, TokenView::CloseParen) {
                    Step { used: used + 1, out: Ok(Some(ExpressionView::FunctionCall(segments, items))) }
                } else {
                    fail(ts, pos, used, ErrorKind::ExpectedCloseParen)
                },
            }
        } else {
            callee
        },
        _ => callee,
    }
}

/// The statement at `pos` as a list: one item, or none for a lone semicolon.
pub open spec fn as_items(found: Option<StatementView>) -> Seq<StatementView> {
    match found {
        Some(s) => seq![s],
        None => Seq::empty(),
    }
}

/// A whole program from `pos` on: statements one after the other until the
/// cursor is at or past the last token.
pub open spec fn program(ts: Tokens, pos: int) -> Step<Seq<StatementView>>
    decreases rest(ts, pos),
    via program_decreases
{
    if at_end(ts, pos) {
        Step { used: 0, out: Ok(Seq::empty()) }
    } else {
        let first = statement(ts, pos);
        match first.out {
            Err(error) => Step { used: first.used, out: Err(error) },
            Ok(found) => after_items(as_items(found), first.used, program(ts, pos + first.used)),
        }
    }
}

#[via_fn]
proof fn program_decreases(ts: Tokens, pos: int) {
    if !at_end(ts, pos) {
        crate::parser::laws::lemma_statement_advances(ts, pos);
    }
}

} // verus!
