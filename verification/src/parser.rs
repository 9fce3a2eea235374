use vstd::prelude::*;
use crate::error::{ErrorKind, SyntaxError};
use crate::lexer::token::keyword::Keyword;
use crate::lexer::token::{Token, TokenView};
use crate::lexer::{stream_view, Span};
use crate::parser::grammar::{after_items, at_end, is_at, kind_at, rest, span_at, Step, Tokens};
use vstd::std_specs::convert::FromSpecImpl;

pub mod expression;
pub mod grammar;
pub mod laws;
pub mod statement;

verus! {

/// One statement of a program.
#[derive(Debug, PartialEq, Eq)]
pub enum Statement {
    /// A function: its name, its return type if it states one, its parameters
    /// with their types, and its body.
    FunctionDecl(String, Option<Expression>, Vec<(String, Expression)>, Expression),
    /// A class: its name and its members, each a function or a variable.
    ClassDecl(String, Vec<Statement>),
    /// An import: the paths it brings in, each an [`Expression::Path`].
    Import(Vec<Expression>),
    /// A variable: its name, its type and its initial value, of which at least
    /// one is there.
    VariableDecl(String, Option<Expression>, Option<Expression>),
    /// An assignment: the target, the assignment operator and the value.
    Assign(Expression, Token, Expression),
    /// An expression that stands as a statement.
    Expression(Expression),
}

/// One expression.
#[derive(Debug, PartialEq, Eq)]
pub enum Expression {
    /// Two operands with the operator between them.
    Binary(Box<Expression>, Token, Box<Expression>),
    /// A prefix operator and its operand.
    Unary(Token, Box<Expression>),
    /// The statements between `{` and `}`, in order.
    Block(Vec<Statement>),
    /// A call: the path of what is called and the arguments, in order.
    FunctionCall(Vec<String>, Vec<Expression>),
    /// A dotted path: its segments in order, at least one.
    Path(Vec<String>),
    StringLiteral(String),
    SignedLiteral(i64),
    UnsignedLiteral(u64),
    /// A floating-point literal, as the IEEE 754 binary64 bit pattern of its value.
    FloatLiteral(u64),
}

/// What a [`Statement`] stands for.
pub enum StatementView {
    FunctionDecl(
        Seq<char>,
        Option<ExpressionView>,
        Seq<(Seq<char>, ExpressionView)>,
        ExpressionView,
    ),
    ClassDecl(Seq<char>, Seq<StatementView>),
    Import(Seq<ExpressionView>),
    VariableDecl(Seq<char>, Option<ExpressionView>, Option<ExpressionView>),
    Assign(ExpressionView, TokenView, ExpressionView),
    Expression(ExpressionView),
}

/// What an [`Expression`] stands for.
pub enum ExpressionView {
    Binary(Box<ExpressionView>, TokenView, Box<ExpressionView>),
    Unary(TokenView, Box<ExpressionView>),
    Block(Seq<StatementView>),
    FunctionCall(Seq<Seq<char>>, Seq<ExpressionView>),
    Path(Seq<Seq<char>>),
    StringLiteral(Seq<char>),
    SignedLiteral(i64),
    UnsignedLiteral(u64),
    FloatLiteral(u64),
}

/// What the first `n` of a list of statements stand for, item by item.
pub open spec fn statements_prefix_view(items: Seq<Statement>, n: nat) -> Seq<StatementView>
    decreases items, n,
{
    if n == 0 || n > items.len() {
        Seq::empty()
    } else {
        statements_prefix_view(items, (n - 1) as nat).push(items[n - 1]@)
    }
}

/// What the first `n` of a list of expressions stand for, item by item.
pub open spec fn expressions_prefix_view(items: Seq<Expression>, n: nat) -> Seq<ExpressionView>
    decreases items, n,
{
    if n == 0 || n > items.len() {
        Seq::empty()
    } else {
        expressions_prefix_view(items, (n - 1) as nat).push(items[n - 1]@)
    }
}

/// What the first `n` of a list of parameters stand for, item by item.
pub open spec fn parameters_prefix_view(items: Seq<(String, Expression)>, n: nat) -> Seq<
    (Seq<char>, ExpressionView),
>
    decreases items, n,
{
    if n == 0 || n > items.len() {
        Seq::empty()
    } else {
        parameters_prefix_view(items, (n - 1) as nat).push((items[n - 1].0@, items[n - 1].1@))
    }
}

/// What a list of statements stands for, item by item.
pub open spec fn statements_view(items: Seq<Statement>) -> Seq<StatementView>
    decreases items, items.len() + 1,
{
    statements_prefix_view(items, items.len())
}

/// What a list of expressions stands for, item by item.
pub open spec fn expressions_view(items: Seq<Expression>) -> Seq<ExpressionView>
    decreases items, items.len() + 1,
{
    expressions_prefix_view(items, items.len())
}

/// What a list of parameters stands for, item by item.
pub open spec fn parameters_view(items: Seq<(String, Expression)>) -> Seq<
    (Seq<char>, ExpressionView),
>
    decreases items, items.len() + 1,
{
    parameters_prefix_view(items, items.len())
}

/// What a list of names stands for, item by item.
pub open spec fn names_view(items: Seq<String>) -> Seq<Seq<char>> {
    Seq::new(items.len(), |i: int| items[i]@)
}

impl View for Statement {
    type V = StatementView;

    open spec fn view(&self) -> StatementView
        decreases self,
    {
        match self {
            Statement::FunctionDecl(name, ret, params, body) => StatementView::FunctionDecl(
                name@,
                match ret {
                    Some(e) => Some(e@),
                    None => None,
                },
                parameters_view(params@),
                body@,
            ),
            Statement::ClassDecl(name, members) => StatementView::ClassDecl(
                name@,
                statements_view(members@),
            ),
            Statement::Import(paths) => StatementView::Import(expressions_view(paths@)),
            Statement::VariableDecl(name, ty, init) => StatementView::VariableDecl(
                name@,
                match ty {
                    Some(e) => Some(e@),
                    None => None,
                },
                match init {
                    Some(e) => Some(e@),
                    None => None,
                },
            ),
            Statement::Assign(target, op, value) => StatementView::Assign(target@, op@, value@),
            Statement::Expression(e) => StatementView::Expression(e@),
        }
    }
}

impl View for Expression {
    type V = ExpressionView;

    open spec fn view(&self) -> ExpressionView
        decreases self,
    {
        match self {
            Expression::Binary(left, op, right) => ExpressionView::Binary(
                Box::new((**left)@),
                op@,
                Box::new((**right)@),
            ),
            Expression::Unary(op, operand) => ExpressionView::Unary(op@, Box::new((**operand)@)),
            Expression::Block(statements) => ExpressionView::Block(statements_view(statements@)),
            Expression::FunctionCall(path, args) => ExpressionView::FunctionCall(
                names_view(path@),
                expressions_view(args@),
            ),
            Expression::Path(segments) => ExpressionView::Path(names_view(segments@)),
            Expression::StringLiteral(text) => ExpressionView::StringLiteral(text@),
            Expression::SignedLiteral(value) => ExpressionView::SignedLiteral(*value),
            Expression::UnsignedLiteral(value) => ExpressionView::UnsignedLiteral(*value),
            Expression::FloatLiteral(bits) => ExpressionView::FloatLiteral(*bits),
        }
    }
}

/// The view of the first `n` statements has `n` items, each the view of its
/// statement.
pub proof fn lemma_statements_prefix(items: Seq<Statement>, n: nat)
    requires
        n <= items.len(),
    ensures
        statements_prefix_view(items, n).len() == n,
        forall|i: int| 0 <= i < n ==> #[trigger] statements_prefix_view(items, n)[i] == items[i]@,
    decreases n,
{
    reveal_with_fuel(statements_prefix_view, 3);
    if n > 0 {
        lemma_statements_prefix(items, (n - 1) as nat);
        assert(statements_prefix_view(items, n) == statements_prefix_view(items, (n - 1) as nat).push(
            items[n - 1]@,
        ));
    } else {
        assert(statements_prefix_view(items, 0).len() == 0);
    }
}

/// The view of the first `n` expressions has `n` items, each the view of its
/// expression.
pub proof fn lemma_expressions_prefix(items: Seq<Expression>, n: nat)
    requires
        n <= items.len(),
    ensures
        expressions_prefix_view(items, n).len() == n,
        forall|i: int| 0 <= i < n ==> #[trigger] expressions_prefix_view(items, n)[i] == items[i]@,
    decreases n,
{
    reveal_with_fuel(expressions_prefix_view, 3);
    if n > 0 {
        lemma_expressions_prefix(items, (n - 1) as nat);
        assert(expressions_prefix_view(items, n) == expressions_prefix_view(items, (n - 1) as nat).push(
            items[n - 1]@,
        ));
    } else {
        assert(expressions_prefix_view(items, 0).len() == 0);
    }
}

/// The view of the first `n` parameters has `n` items, each the view of its
/// parameter.
pub proof fn lemma_parameters_prefix(items: Seq<(String, Expression)>, n: nat)
    requires
        n <= items.len(),
    ensures
        parameters_prefix_view(items, n).len() == n,
        forall|i: int|
            0 <= i < n ==> #[trigger] parameters_prefix_view(items, n)[i] == (
                items[i].0@,
                items[i].1@,
            ),
    decreases n,
{
    reveal_with_fuel(parameters_prefix_view, 3);
    if n > 0 {
        lemma_parameters_prefix(items, (n - 1) as nat);
        assert(parameters_prefix_view(items, n) == parameters_prefix_view(items, (n - 1) as nat).push(
            (items[n - 1].0@, items[n - 1].1@),
        ));
    } else {
        assert(parameters_prefix_view(items, 0).len() == 0);
    }
}

/// What a [`ParserInput`] stands for: all the tokens with their spans, and the
/// index of the next token to read.
pub struct CursorView {
    pub tokens: Tokens,
    pub pos: int,
}

/// A cursor over the tokens of a program. It never stands past the end of the
/// tokens.
pub struct ParserInput {
    tokens: Vec<(Token, Span)>,
    pos: usize,
}

impl View for ParserInput {
    type V = CursorView;

    closed spec fn view(&self) -> CursorView {
        CursorView { tokens: stream_view(self.tokens@), pos: self.pos as int }
    }
}

impl ParserInput {
    #[verifier::type_invariant]
    spec fn in_bounds(&self) -> bool {
        self.pos <= self.tokens.len()
    }

    /// The index of the next token to read, which is at most the number of
    /// tokens.
    pub fn position(&self) -> (r: usize)
        ensures
            r == self@.pos,
            r <= self@.tokens.len(),
    {
        proof {
            use_type_invariant(self);
        }
        self.pos
    }

    /// The number of tokens, read or not.
    pub fn len(&self) -> (r: usize)
        ensures
            r == self@.tokens.len(),
            self@.pos <= r,
    {
        proof {
            use_type_invariant(self);
        }
        self.tokens.len()
    }

    /// Reads the next token with its span and moves behind it; at the end of
    /// the tokens there is none, and the cursor stays.
    pub fn next(&mut self) -> (r: Option<(Token, Span)>)
        ensures
            final(self)@.tokens == old(self)@.tokens,
            0 <= old(self)@.pos <= old(self)@.tokens.len(),
            old(self)@.pos < old(self)@.tokens.len() ==> (r matches Some(found) && (
                found.0@,
                found.1,
            ) == old(self)@.tokens[old(self)@.pos] && final(self)@.pos == old(self)@.pos + 1),
            old(self)@.pos == old(self)@.tokens.len() ==> r.is_none() && final(self)@.pos == old(
                self,
            )@.pos,
    {
        proof {
            use_type_invariant(&*self);
        }
        if self.pos < self.tokens.len() {
            let found = (self.tokens[self.pos].0.clone(), self.tokens[self.pos].1);
            self.pos = self.pos + 1;
            Some(found)
        } else {
            None
        }
    }

    /// Tests the next token with `f`, without moving. At the end of the tokens
    /// the answer is `false`.
    pub fn peek<F>(&mut self, f: F) -> (r: bool) where F: Fn(&Token) -> bool
        requires
            forall|t: &Token| call_requires(f, (t,)),
        ensures
            *final(self) == *old(self),
            0 <= old(self)@.pos <= old(self)@.tokens.len(),
            old(self)@.pos < old(self)@.tokens.len() ==> exists|t: Token|
                t@ == old(self)@.tokens[old(self)@.pos].0 && call_ensures(f, (&t,), r),
            old(self)@.pos == old(self)@.tokens.len() ==> !r,
    {
        proof {
            use_type_invariant(&*self);
        }
        if self.pos < self.tokens.len() {
            let r = f(&self.tokens[self.pos].0);
            proof {
                let t = self.tokens[self.pos as int].0;
                assert(t@ == self@.tokens[self@.pos].0 && call_ensures(f, (&t,), r));
            }
            r
        } else {
            false
        }
    }

    /// Moves back by one token; at the first token the cursor stays.
    pub fn rewind(&mut self)
        ensures
            final(self)@.tokens == old(self)@.tokens,
            final(self)@.pos == (if old(self)@.pos > 0 {
                old(self)@.pos - 1
            } else {
                0
            }),
    {
        proof {
            use_type_invariant(&*self);
        }
        if self.pos > 0 {
            self.pos = self.pos - 1;
        }
    }

    /// Whether the cursor is at or past the last token.
    pub fn eof(&self) -> (r: bool)
        ensures
            r == at_end(self@.tokens, self@.pos),
    {
        proof {
            use_type_invariant(self);
        }
        self.tokens.len() - self.pos <= 1
    }

    /// The span that an error at the cursor is anchored to: that of the next
    /// token, or of the last token where none is left.
    pub fn span_here(&self) -> (r: Span)
        ensures
            r == span_at(self@.tokens, self@.pos),
    {
        proof {
            use_type_invariant(self);
        }
        if self.pos < self.tokens.len() {
            self.tokens[self.pos].1
        } else if self.tokens.len() > 0 {
            self.tokens[self.tokens.len() - 1].1
        } else {
            Span { start: 0, end: 0 }
        }
    }

    /// The error of kind `kind` at the cursor.
    pub fn error_here(&self, kind: ErrorKind) -> (r: SyntaxError)
        ensures
            r == (SyntaxError { kind, span: span_at(self@.tokens, self@.pos) }),
    {
        SyntaxError { kind, span: self.span_here() }
    }
}

impl Clone for ParserInput {
    /// An independent cursor at the first of the same tokens.
    fn clone(&self) -> (r: ParserInput)
        ensures
            r@ == (CursorView { tokens: self@.tokens, pos: 0 }),
    {
        let mut tokens: Vec<(Token, Span)> = Vec::new();
        let mut i: usize = 0;
        while i < self.tokens.len()
            invariant
                i <= self.tokens.len(),
                tokens@ == self.tokens@.take(i as int),
            decreases self.tokens.len() - i,
        {
            tokens.push((self.tokens[i].0.clone(), self.tokens[i].1));
            assert(tokens@ =~= self.tokens@.take(i + 1));
            i = i + 1;
        }
        assert(tokens@ =~= self.tokens@);
        ParserInput { tokens, pos: 0 }
    }
}

impl From<Vec<(Token, Span)>> for ParserInput {
    /// A cursor at the first of `tokens`.
    fn from(tokens: Vec<(Token, Span)>) -> (r: ParserInput)
        ensures
            r@ == (CursorView { tokens: stream_view(tokens@), pos: 0 }),
    {
        ParserInput { tokens, pos: 0 }
    }
}

/// The contract of this conversion stands on `from` itself: a cursor cannot be
/// written down as a value in a contract, only described by its view.
impl FromSpecImpl<Vec<(Token, Span)>> for ParserInput {
    open spec fn obeys_from_spec() -> bool {
        false
    }

    open spec fn from_spec(tokens: Vec<(Token, Span)>) -> ParserInput {
        arbitrary()
    }
}

/// The cursor moved forward by `used` tokens, over the same tokens.
pub open spec fn moved(before: CursorView, after: CursorView, used: nat) -> bool {
    after.tokens == before.tokens && after.pos == before.pos + used
}

/// What the outcome of a rule for expressions stands for.
pub open spec fn expression_outcome(
    r: Result<Option<Expression>, SyntaxError>,
) -> Result<Option<ExpressionView>, SyntaxError> {
    match r {
        Ok(Some(e)) => Ok(Some(e@)),
        Ok(None) => Ok(None),
        Err(error) => Err(error),
    }
}

/// What the outcome of a rule for statements stands for.
pub open spec fn statement_outcome(
    r: Result<Option<Statement>, SyntaxError>,
) -> Result<Option<StatementView>, SyntaxError> {
    match r {
        Ok(Some(s)) => Ok(Some(s@)),
        Ok(None) => Ok(None),
        Err(error) => Err(error),
    }
}

pub(crate) fn at_token(input: &mut ParserInput, kind: &Token) -> (r: bool)
    requires
        kind@ == TokenView::OpenParen || kind@ == TokenView::CloseParen || kind@
            == TokenView::OpenBrace || kind@ == TokenView::CloseBrace || kind@ == TokenView::Comma
            || kind@ == TokenView::Semicolon || kind@ == TokenView::Colon || kind@
            == TokenView::Arrow || kind@ == TokenView::Assign || kind@ == TokenView::Dot,
    ensures
        *final(input) == *old(input),
        r == is_at(old(input)@.tokens, old(input)@.pos, kind@),
{
    input.peek(
        |t: &Token| -> (b: bool)
            ensures b == (t@ == kind@)
            {
                match (t, kind) {
                    (Token::OpenParen, Token::OpenParen) => true,
                    (Token::CloseParen, Token::CloseParen) => true,
                    (Token::OpenBrace, Token::OpenBrace) => true,
                    (Token::CloseBrace, Token::CloseBrace) => true,
                    (Token::Comma, Token::Comma) => true,
                    (Token::Semicolon, Token::Semicolon) => true,
                    (Token::Colon, Token::Colon) => true,
                    (Token::Arrow, Token::Arrow) => true,
                    (Token::Assign, Token::Assign) => true,
                    (Token::Dot, Token::Dot) => true,
                    _ => false,
                }
            }
    )
}

pub(crate) fn at_keyword(input: &mut ParserInput, keyword: Keyword) -> (r: bool)
    ensures
        *final(input) == *old(input),
        r == is_at(old(input)@.tokens, old(input)@.pos, TokenView::Keyword(keyword)),
{
    input.peek(
        |t: &Token| -> (b: bool)
            ensures b == (t@ == TokenView::Keyword(keyword))
            {
                match t {
                    Token::Keyword(found) => *found == keyword,
                    _ => false,
                }
            }
    )
}

pub(crate) fn at_identifier(input: &mut ParserInput) -> (r: bool)
    ensures
        *final(input) == *old(input),
        r == (kind_at(old(input)@.tokens, old(input)@.pos) matches Some(TokenView::Identifier(_))),
{
    input.peek(
        |t: &Token| -> (b: bool)
            ensures b == (t@ is Identifier)
            { matches!(t, Token::Identifier(_)) }
    )
}

/// What the outcome of a rule for a list of expressions stands for.
pub open spec fn expressions_outcome(
    r: Result<Vec<Expression>, SyntaxError>,
) -> Result<Seq<ExpressionView>, SyntaxError> {
    match r {
        Ok(items) => Ok(expressions_view(items@)),
        Err(error) => Err(error),
    }
}

/// What the outcome of a rule for a list of statements stands for.
pub open spec fn statements_outcome(
    r: Result<Vec<Statement>, SyntaxError>,
) -> Result<Seq<StatementView>, SyntaxError> {
    match r {
        Ok(items) => Ok(statements_view(items@)),
        Err(error) => Err(error),
    }
}

/// What the outcome of the rule for parameters stands for.
pub open spec fn parameters_outcome(
    r: Result<Vec<(String, Expression)>, SyntaxError>,
) -> Result<Seq<(Seq<char>, ExpressionView)>, SyntaxError> {
    match r {
        Ok(items) => Ok(parameters_view(items@)),
        Err(error) => Err(error),
    }
}

pub(crate) proof fn lemma_statements_push(items: Seq<Statement>, s: Statement)
    ensures
        statements_view(items.push(s)) == statements_view(items) + seq![s@],
{
    reveal_with_fuel(statements_view, 2);
    lemma_statements_prefix(items, items.len());
    lemma_statements_prefix(items.push(s), items.len() + 1);
    assert(statements_view(items.push(s)) =~= statements_view(items) + seq![s@]);
}

pub(crate) proof fn lemma_expressions_push(items: Seq<Expression>, e: Expression)
    ensures
        expressions_view(items.push(e)) == expressions_view(items) + seq![e@],
{
    reveal_with_fuel(expressions_view, 2);
    lemma_expressions_prefix(items, items.len());
    lemma_expressions_prefix(items.push(e), items.len() + 1);
    assert(expressions_view(items.push(e)) =~= expressions_view(items) + seq![e@]);
}

pub(crate) proof fn lemma_parameters_push(items: Seq<(String, Expression)>, p: (String, Expression))
    ensures
        parameters_view(items.push(p)) == parameters_view(items) + seq![(p.0@, p.1@)],
{
    reveal_with_fuel(parameters_view, 2);
    lemma_parameters_prefix(items, items.len());
    lemma_parameters_prefix(items.push(p), items.len() + 1);
    assert(parameters_view(items.push(p)) =~= parameters_view(items) + seq![(p.0@, p.1@)]);
}

pub(crate) proof fn lemma_after_items_start<T>(step: Step<Seq<T>>)
    ensures
        after_items(Seq::empty(), 0, step) == step,
{
    match step.out {
        Ok(items) => {
            assert(Seq::<T>::empty() + items =~= items);
        },
        Err(_) => {},
    }
}

pub(crate) proof fn lemma_after_items_step<T>(
    prefix: Seq<T>,
    skipped: nat,
    items: Seq<T>,
    more: nat,
    step: Step<Seq<T>>,
)
    ensures
        after_items(prefix, skipped, after_items(items, more, step)) == after_items(
            prefix + items,
            skipped + more,
            step,
        ),
{
    match step.out {
        Ok(last) => {
            assert(prefix + (items + last) =~= (prefix + items) + last);
        },
        Err(_) => {},
    }
}

/// The names of `prefix` and then those of `tail`.
pub(crate) fn joined(prefix: &Vec<String>, tail: Vec<String>) -> (r: Vec<String>)
    ensures
        names_view(r@) == names_view(prefix@) + names_view(tail@),
{
    let mut whole: Vec<String> = Vec::new();
    let mut i: usize = 0;
    while i < prefix.len()
        invariant
            i <= prefix.len(),
            whole@ == prefix@.take(i as int),
        decreases prefix.len() - i,
    {
        whole.push(prefix[i].clone());
        assert(whole@ =~= prefix@.take(i + 1));
        i = i + 1;
    }
    assert(prefix@.take(prefix.len() as int) =~= prefix@);
    let ghost rest = tail@;
    let mut tail = tail;
    whole.append(&mut tail);
    assert(names_view(whole@) =~= names_view(prefix@) + names_view(rest)) by {
        assert(whole@ =~= prefix@ + rest);
    }
    whole
}

/// What the outcome of a rule for a name stands for.
pub open spec fn name_outcome(r: Result<String, SyntaxError>) -> Result<Seq<char>, SyntaxError> {
    match r {
        Ok(name) => Ok(name@),
        Err(error) => Err(error),
    }
}

/// What the outcome of a rule for an expression that must be there stands for.
pub open spec fn required_outcome(
    r: Result<Expression, SyntaxError>,
) -> Result<ExpressionView, SyntaxError> {
    match r {
        Ok(e) => Ok(e@),
        Err(error) => Err(error),
    }
}

/// Reads the name that a declaration needs at the cursor. Where the next token is
/// no identifier, the cursor stays.
pub(crate) fn identifier(input: &mut ParserInput) -> (r: Result<String, SyntaxError>)
    ensures
        final(input)@.tokens == old(input)@.tokens,
        name_outcome(r) == grammar::name_at(old(input)@.tokens, old(input)@.pos),
        final(input)@.pos == old(input)@.pos + (if r.is_ok() {
            1int
        } else {
            0int
        }),
{
    if !at_identifier(input) {
        return Err(input.error_here(ErrorKind::ExpectedIdentifier));
    }
    match input.next() {
        Some((Token::Identifier(name), _)) => Ok(name),
        _ => Err(input.error_here(ErrorKind::ExpectedIdentifier)),
    }
}

} // verus!
