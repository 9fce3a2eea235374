use vstd::prelude::*;
use crate::parser::{ExpressionView, StatementView};
use crate::lexer::token::keyword::Keyword;
use crate::lexer::token::TokenView;
use crate::parser::grammar::{
    arguments, block_items, function_body, import_group, import_paths, is_at, kind_at, members,
    name_at, operator_at, parameters, required, return_type, variable_type, may_be_member, assign, at_end, binary, block, class_decl, expression, function_call, function_decl, grouping, import, operand, path, program, rest, statement, unary, variable_decl, Tokens};

verus! {

/// A path, a literal or a call takes at least one token.
pub proof fn lemma_function_call_advances(ts: Tokens, pos: int)
    ensures
        function_call(ts, pos).out matches Ok(Some(_)) ==> function_call(ts, pos).used >= 1,
{
    reveal_with_fuel(function_call, 1);
}

/// A block, or what stands in its place, takes at least one token.
pub proof fn lemma_block_advances(ts: Tokens, pos: int)
    ensures
        block(ts, pos).out matches Ok(Some(_)) ==> block(ts, pos).used >= 1,
{
    reveal_with_fuel(block, 1);
    reveal_with_fuel(function_call, 1);
    lemma_function_call_advances(ts, pos);
}

/// An expression in parentheses, or what stands in its place, takes at least one
/// token.
pub proof fn lemma_grouping_advances(ts: Tokens, pos: int)
    ensures
        grouping(ts, pos).out matches Ok(Some(_)) ==> grouping(ts, pos).used >= 1,
{
    reveal_with_fuel(grouping, 1);
    reveal_with_fuel(block, 1);
    lemma_block_advances(ts, pos);
}

/// A unary expression takes at least one token.
pub proof fn lemma_unary_advances(ts: Tokens, pos: int)
    ensures
        unary(ts, pos).out matches Ok(Some(_)) ==> unary(ts, pos).used >= 1,
{
    reveal_with_fuel(unary, 1);
    reveal_with_fuel(grouping, 1);
    lemma_grouping_advances(ts, pos);
}

/// An expression of any binary level, and its operand, take at least one token.
pub proof fn lemma_binary_advances(ts: Tokens, pos: int, level: nat)
    ensures
        binary(ts, pos, level).out matches Ok(Some(_)) ==> binary(ts, pos, level).used >= 1,
        operand(ts, pos, level).out matches Ok(Some(_)) ==> operand(ts, pos, level).used >= 1,
    decreases level,
{
    reveal_with_fuel(binary, 1);
    reveal_with_fuel(operand, 1);
    reveal_with_fuel(unary, 1);
    if level == 0 {
        lemma_unary_advances(ts, pos);
    } else {
        lemma_binary_advances(ts, pos, (level - 1) as nat);
    }
}

/// An expression takes at least one token.
pub proof fn lemma_expression_advances(ts: Tokens, pos: int)
    ensures
        expression(ts, pos).out matches Ok(Some(_)) ==> expression(ts, pos).used >= 1,
{
    reveal_with_fuel(expression, 1);
    reveal_with_fuel(binary, 1);
    lemma_binary_advances(ts, pos, 6);
}

/// An assignment or an expression that stands as a statement takes at least one
/// token.
pub proof fn lemma_assign_advances(ts: Tokens, pos: int)
    ensures
        assign(ts, pos).out matches Ok(Some(_)) ==> assign(ts, pos).used >= 1,
{
    reveal_with_fuel(assign, 1);
    reveal_with_fuel(expression, 1);
    lemma_expression_advances(ts, pos);
}

/// A variable declaration, or what stands in its place, takes at least one token.
pub proof fn lemma_variable_decl_advances(ts: Tokens, pos: int)
    ensures
        variable_decl(ts, pos).out matches Ok(Some(_)) ==> variable_decl(ts, pos).used >= 1,
{
    reveal_with_fuel(variable_decl, 1);
    reveal_with_fuel(assign, 1);
    lemma_assign_advances(ts, pos);
}

/// An import, or what stands in its place, takes at least one token.
pub proof fn lemma_import_advances(ts: Tokens, pos: int)
    ensures
        import(ts, pos).out matches Ok(Some(_)) ==> import(ts, pos).used >= 1,
{
    reveal_with_fuel(import, 1);
    reveal_with_fuel(variable_decl, 1);
    lemma_variable_decl_advances(ts, pos);
}

/// Whatever the rule for classes accepts, a lone semicolon included, takes at
/// least one token.
pub proof fn lemma_class_decl_advances(ts: Tokens, pos: int)
    ensures
        class_decl(ts, pos).out.is_ok() ==> class_decl(ts, pos).used >= 1,
{
    reveal_with_fuel(class_decl, 1);
    reveal_with_fuel(import, 1);
    lemma_import_advances(ts, pos);
}

/// Whatever the rule for functions accepts, a lone semicolon included, takes at
/// least one token.
pub proof fn lemma_function_decl_advances(ts: Tokens, pos: int)
    ensures
        function_decl(ts, pos).out.is_ok() ==> function_decl(ts, pos).used >= 1,
{
    reveal_with_fuel(function_decl, 1);
    reveal_with_fuel(class_decl, 1);
    lemma_class_decl_advances(ts, pos);
}

/// Whatever the statement rule accepts before the end of the tokens, a lone
/// semicolon included, takes at least one token.
pub proof fn lemma_statement_advances(ts: Tokens, pos: int)
    requires
        !at_end(ts, pos),
    ensures
        statement(ts, pos).out.is_ok() ==> statement(ts, pos).used >= 1,
{
    reveal_with_fuel(statement, 1);
    reveal_with_fuel(function_decl, 1);
    lemma_function_decl_advances(ts, pos);
}

/// No token but, at most, the last is left unread: a program that parses takes
/// the cursor to the last token or past it.
pub proof fn lemma_program_reaches_end(ts: Tokens, pos: int)
    requires
        0 <= pos,
    ensures
        program(ts, pos).out.is_ok() ==> at_end(ts, pos + program(ts, pos).used),
    decreases rest(ts, pos),
{
    if !at_end(ts, pos) {
        lemma_statement_advances(ts, pos);
        if statement(ts, pos).out.is_ok() {
            lemma_program_reaches_end(ts, pos + statement(ts, pos).used);
        }
    }
}

/// A program that parses and does not stop at the last token leaves no token
/// unread.
pub proof fn lemma_program_consumes_every_token(ts: Tokens, pos: int)
    requires
        0 <= pos <= ts.len(),
        program(ts, pos).out.is_ok(),
        pos + program(ts, pos).used != ts.len() - 1,
    ensures
        pos + program(ts, pos).used >= ts.len(),
{
    lemma_program_reaches_end(ts, pos);
}

/// Whether an expression keeps the rules of the tree: no path in it is empty,
/// and the statements of its blocks keep them too.
pub open spec fn sound_expression(e: ExpressionView) -> bool
    decreases e,
{
    match e {
        ExpressionView::Binary(left, _, right) => sound_expression(*left) && sound_expression(
            *right,
        ),
        ExpressionView::Unary(_, operand) => sound_expression(*operand),
        ExpressionView::Block(statements) => forall|i: int|
            0 <= i < statements.len() ==> sound_statement(#[trigger] statements[i]),
        ExpressionView::FunctionCall(path, args) => path.len() >= 1 && forall|i: int|
            0 <= i < args.len() ==> sound_expression(#[trigger] args[i]),
        ExpressionView::Path(segments) => segments.len() >= 1,
        _ => true,
    }
}

/// Whether an expression that may be absent keeps the rules of the tree.
pub open spec fn sound_optional(e: Option<ExpressionView>) -> bool
    decreases e,
{
    match e {
        Some(found) => sound_expression(found),
        None => true,
    }
}

/// Whether a statement keeps the rules of the tree: the members of a class are
/// functions and variables, an import holds paths, a variable has a type or an
/// initial value, its type is a path, an assignment has an assignment
/// operator, and all that it holds keeps the rules too.
pub open spec fn sound_statement(s: StatementView) -> bool
    decreases s,
{
    match s {
        StatementView::FunctionDecl(_, ret, params, body) => {
            &&& sound_optional(ret)
            &&& forall|i: int| 0 <= i < params.len() ==> sound_expression((#[trigger] params[i]).1)
            &&& sound_expression(body)
        },
        StatementView::ClassDecl(_, members) => forall|i: int|
            0 <= i < members.len() ==> may_be_member(#[trigger] members[i]) && sound_statement(
                members[i],
            ),
        StatementView::Import(paths) => forall|i: int|
            0 <= i < paths.len() ==> (#[trigger] paths[i]) is Path && sound_expression(paths[i]),
        StatementView::VariableDecl(_, ty, init) => {
            &&& ty.is_some() || init.is_some()
            &&& ty matches Some(stated) ==> stated is Path
            &&& sound_optional(ty)
            &&& sound_optional(init)
        },
        StatementView::Assign(target, op, value) => {
            &&& op.is_assign_op()
            &&& sound_expression(target)
            &&& sound_expression(value)
        },
        StatementView::Expression(e) => sound_expression(e),
    }
}

/// Whether every expression of a list keeps the rules of the tree.
pub open spec fn sound_expressions(items: Seq<ExpressionView>) -> bool {
    forall|i: int| 0 <= i < items.len() ==> sound_expression(#[trigger] items[i])
}

/// Whether every statement of a list keeps the rules of the tree.
pub open spec fn sound_statements(items: Seq<StatementView>) -> bool {
    forall|i: int| 0 <= i < items.len() ==> sound_statement(#[trigger] items[i])
}

/// Whether every statement of a list may be a member of a class.
pub open spec fn all_members(items: Seq<StatementView>) -> bool {
    forall|i: int| 0 <= i < items.len() ==> may_be_member(#[trigger] items[i])
}

/// Whether every expression of a list is a path.
pub open spec fn all_paths(items: Seq<ExpressionView>) -> bool {
    forall|i: int| 0 <= i < items.len() ==> (#[trigger] items[i]) is Path
}

/// Whether the type of every parameter of a list keeps the rules of the tree.
pub open spec fn sound_parameters(items: Seq<(Seq<char>, ExpressionView)>) -> bool {
    forall|i: int| 0 <= i < items.len() ==> sound_expression((#[trigger] items[i]).1)
}

/// The expression that the rule for calls and paths gives keeps the rules of the
/// tree.
pub proof fn lemma_function_call_is_sound(ts: Tokens, pos: int)
    ensures
        function_call(ts, pos).out matches Ok(Some(e)) ==> sound_expression(e),
    decreases rest(ts, pos), 6nat,
{
    reveal_with_fuel(function_call, 1);
    reveal_with_fuel(arguments, 1);
    let callee = path(ts, pos);
    if callee.out matches Ok(Some(ExpressionView::Path(segments))) {
        if is_at(ts, pos + callee.used, TokenView::OpenParen) {
            lemma_arguments_are_sound(ts, pos + callee.used + 1);
        }
    }
}

/// The arguments that the rule for argument lists gives keep the rules of the
/// tree.
pub proof fn lemma_arguments_are_sound(ts: Tokens, pos: int)
    ensures
        arguments(ts, pos).out matches Ok(items) ==> sound_expressions(items),
    decreases rest(ts, pos), 40nat,
{
    reveal_with_fuel(arguments, 1);
    reveal_with_fuel(expression, 1);
    lemma_expression_is_sound(ts, pos);
    let found = expression(ts, pos);
    if found.out matches Ok(Some(e)) {
        if !is_at(ts, pos + found.used, TokenView::CloseParen) && is_at(
            ts,
            pos + found.used,
            TokenView::Comma,
        ) {
            lemma_arguments_are_sound(ts, pos + found.used + 1);
        }
    }
}

/// The statements that the rule for the inside of a block gives keep the rules of
/// the tree.
#[verifier::rlimit(40)]
pub proof fn lemma_block_items_are_sound(ts: Tokens, pos: int)
    ensures
        block_items(ts, pos).out matches Ok(items) ==> sound_statements(items),
    decreases rest(ts, pos), 40nat,
{
    reveal_with_fuel(block_items, 1);
    reveal_with_fuel(statement, 1);
    if !(is_at(ts, pos, TokenView::CloseBrace) || at_end(ts, pos)) {
        lemma_statement_is_sound(ts, pos);
        let item = statement(ts, pos);
        if item.out matches Ok(Some(s)) {
            if item.used != 0 {
                lemma_block_items_are_sound(ts, pos + item.used);
            }
        }
    }
}

/// The expression that the rule for blocks gives keeps the rules of the tree.
pub proof fn lemma_block_is_sound(ts: Tokens, pos: int)
    ensures
        block(ts, pos).out matches Ok(Some(e)) ==> sound_expression(e),
    decreases rest(ts, pos), 7nat,
{
    reveal_with_fuel(block, 1);
    reveal_with_fuel(function_call, 1);
    reveal_with_fuel(block_items, 1);
    if is_at(ts, pos, TokenView::OpenBrace) {
        lemma_block_items_are_sound(ts, pos + 1);
    } else {
        lemma_function_call_is_sound(ts, pos);
    }
}

/// The expression that the rule for groups gives keeps the rules of the tree.
pub proof fn lemma_grouping_is_sound(ts: Tokens, pos: int)
    ensures
        grouping(ts, pos).out matches Ok(Some(e)) ==> sound_expression(e),
    decreases rest(ts, pos), 8nat,
{
    reveal_with_fuel(grouping, 1);
    reveal_with_fuel(block, 1);
    reveal_with_fuel(expression, 1);
    if is_at(ts, pos, TokenView::OpenParen) {
        lemma_expression_is_sound(ts, pos + 1);
    } else {
        lemma_block_is_sound(ts, pos);
    }
}

/// The expression that the unary rule gives keeps the rules of the tree.
pub proof fn lemma_unary_is_sound(ts: Tokens, pos: int)
    ensures
        unary(ts, pos).out matches Ok(Some(e)) ==> sound_expression(e),
    decreases rest(ts, pos), 9nat,
{
    reveal_with_fuel(unary, 1);
    reveal_with_fuel(grouping, 1);
    match kind_at(ts, pos) {
        Some(op) => {
            if op.is_unary_op() {
                lemma_unary_is_sound(ts, pos + 1);
            } else {
                lemma_grouping_is_sound(ts, pos);
            }
        },
        None => {
            lemma_grouping_is_sound(ts, pos);
        },
    }
}

/// The expression that an operand of a binary level gives keeps the rules of the
/// tree.
pub proof fn lemma_operand_is_sound(ts: Tokens, pos: int, level: nat)
    ensures
        operand(ts, pos, level).out matches Ok(Some(e)) ==> sound_expression(e),
    decreases rest(ts, pos), 10 + 2 * level,
{
    reveal_with_fuel(operand, 1);
    reveal_with_fuel(unary, 1);
    reveal_with_fuel(binary, 1);
    if level == 0 {
        lemma_unary_is_sound(ts, pos);
    } else {
        lemma_binary_is_sound(ts, pos, (level - 1) as nat);
    }
}

/// The expression that a binary level gives keeps the rules of the tree.
#[verifier::rlimit(40)]
pub proof fn lemma_binary_is_sound(ts: Tokens, pos: int, level: nat)
    ensures
        binary(ts, pos, level).out matches Ok(Some(e)) ==> sound_expression(e),
    decreases rest(ts, pos), 11 + 2 * level,
{
    reveal_with_fuel(binary, 1);
    reveal_with_fuel(operand, 1);
    lemma_operand_is_sound(ts, pos, level);
    let first = operand(ts, pos, level);
    if first.out matches Ok(Some(left)) {
        if operator_at(ts, pos + first.used, level).is_some() {
            lemma_operand_is_sound(ts, pos + first.used + 1, level);
        }
    }
}

/// The expression that the expression rule gives keeps the rules of the tree.
pub proof fn lemma_expression_is_sound(ts: Tokens, pos: int)
    ensures
        expression(ts, pos).out matches Ok(Some(e)) ==> sound_expression(e),
    decreases rest(ts, pos), 24nat,
{
    reveal_with_fuel(expression, 1);
    reveal_with_fuel(binary, 1);
    if !at_end(ts, pos) {
        lemma_binary_is_sound(ts, pos, 6);
    }
}

/// The expression that must be there keeps the rules of the tree.
pub proof fn lemma_required_is_sound(ts: Tokens, pos: int)
    ensures
        required(ts, pos).out matches Ok(e) ==> sound_expression(e),
    decreases rest(ts, pos), 25nat,
{
    reveal_with_fuel(required, 1);
    reveal_with_fuel(expression, 1);
    lemma_expression_is_sound(ts, pos);
}

/// The statement that the rule for assignments and expressions gives keeps the
/// rules of the tree.
#[verifier::rlimit(40)]
pub proof fn lemma_assign_is_sound(ts: Tokens, pos: int)
    ensures
        assign(ts, pos).out matches Ok(Some(s)) ==> sound_statement(s),
    decreases rest(ts, pos), 25nat,
{
    reveal_with_fuel(assign, 1);
    reveal_with_fuel(expression, 1);
    lemma_expression_is_sound(ts, pos);
    let target = expression(ts, pos);
    if target.out matches Ok(Some(left)) {
        if kind_at(ts, pos + target.used) matches Some(op) && op.is_assign_op() {
            lemma_expression_is_sound(ts, pos + target.used + 1);
        }
    }
}

/// The type that the rule for the type of a variable gives is a path and keeps
/// the rules of the tree.
pub proof fn lemma_variable_type_is_sound(ts: Tokens, pos: int)
    ensures
        variable_type(ts, pos).out matches Ok(Some(e)) ==> e is Path && sound_expression(e),
    decreases rest(ts, pos), 40nat,
{
    reveal_with_fuel(variable_type, 1);
    reveal_with_fuel(required, 1);
    if is_at(ts, pos, TokenView::Colon) {
        lemma_required_is_sound(ts, pos + 1);
    }
}

/// The statement that a declaration that starts with `let` gives keeps the rules
/// of the tree.
#[verifier::rlimit(40)]
proof fn lemma_let_is_sound(ts: Tokens, pos: int)
    requires
        is_at(ts, pos, TokenView::Keyword(Keyword::Let)),
    ensures
        variable_decl(ts, pos).out matches Ok(Some(s)) ==> sound_statement(s),
    decreases rest(ts, pos), 25nat,
{
    reveal_with_fuel(variable_decl, 1);
    reveal_with_fuel(variable_type, 1);
    reveal_with_fuel(expression, 1);
    match name_at(ts, pos + 1) {
        Ok(name) => {
            lemma_variable_type_is_sound(ts, pos + 2);
            let ty = variable_type(ts, pos + 2);
            match ty.out {
                Ok(stated) => {
                    assert(sound_optional(stated));
                    if is_at(ts, pos + 2 + ty.used, TokenView::Assign) {
                        lemma_expression_is_sound(ts, pos + 2 + ty.used + 1);
                        let init = expression(ts, pos + 2 + ty.used + 1);
                        match init.out {
                            Ok(Some(e)) => {
                                assert(sound_optional(Some(e)));
                                assert(sound_statement(
                                    StatementView::VariableDecl(name, stated, Some(e)),
                                ));
                            },
                            _ => {},
                        }
                    } else if stated.is_some() {
                        assert(sound_optional(None));
                        assert(sound_statement(StatementView::VariableDecl(name, stated, None)));
                    }
                },
                Err(_) => {},
            }
        },
        Err(_) => {},
    }
}

/// The statement that the rule for variables gives keeps the rules of the tree.
pub proof fn lemma_variable_decl_is_sound(ts: Tokens, pos: int)
    ensures
        variable_decl(ts, pos).out matches Ok(Some(s)) ==> sound_statement(s),
    decreases rest(ts, pos), 26nat,
{
    if is_at(ts, pos, TokenView::Keyword(Keyword::Let)) {
        lemma_let_is_sound(ts, pos);
    } else {
        reveal_with_fuel(variable_decl, 1);
        reveal_with_fuel(assign, 1);
        lemma_assign_is_sound(ts, pos);
    }
}

/// The paths that an import group gives are paths that are not empty.
#[verifier::rlimit(40)]
pub proof fn lemma_import_group_is_sound(ts: Tokens, pos: int, prefix: Seq<Seq<char>>)
    ensures
        import_group(ts, pos, prefix).out matches Ok(items) ==> all_paths(items)
            && sound_expressions(items),
    decreases rest(ts, pos), 40nat,
{
    reveal_with_fuel(import_group, 1);
    reveal_with_fuel(expression, 1);
    lemma_expression_is_sound(ts, pos);
    let found = expression(ts, pos);
    if found.out matches Ok(Some(ExpressionView::Path(segments))) {
        if is_at(ts, pos + found.used, TokenView::Comma) {
            lemma_import_group_is_sound(ts, pos + found.used + 1, prefix);
        }
    }
}

/// The paths that the rule for the paths of an import gives are paths that are
/// not empty.
#[verifier::rlimit(40)]
pub proof fn lemma_import_paths_are_sound(ts: Tokens, pos: int)
    ensures
        import_paths(ts, pos).out matches Ok(items) ==> all_paths(items) && sound_expressions(
            items,
        ),
    decreases rest(ts, pos), 40nat,
{
    reveal_with_fuel(import_paths, 1);
    reveal_with_fuel(expression, 1);
    reveal_with_fuel(import_group, 1);
    if !at_end(ts, pos) {
        lemma_expression_is_sound(ts, pos);
        let found = expression(ts, pos);
        match found.out {
            Ok(Some(ExpressionView::Path(segments))) => {
                if is_at(ts, pos + found.used, TokenView::OpenBrace) {
                    lemma_import_group_is_sound(ts, pos + found.used + 1, segments);
                    let group = import_group(ts, pos + found.used + 1, segments);
                    let close = found.used + 1 + group.used;
                    if group.out.is_ok() && is_at(ts, pos + close, TokenView::CloseBrace) {
                        lemma_import_paths_are_sound(ts, pos + close + 1);
                    }
                } else if found.used != 0 {
                    lemma_import_paths_are_sound(ts, pos + found.used);
                }
            },
            _ => {},
        }
    }
}

/// The statement that the rule for imports gives keeps the rules of the tree.
pub proof fn lemma_import_is_sound(ts: Tokens, pos: int)
    ensures
        import(ts, pos).out matches Ok(Some(s)) ==> sound_statement(s),
    decreases rest(ts, pos), 27nat,
{
    reveal_with_fuel(import, 1);
    reveal_with_fuel(variable_decl, 1);
    reveal_with_fuel(import_paths, 1);
    reveal_with_fuel(expression, 1);
    if !is_at(ts, pos, TokenView::Keyword(Keyword::Import)) {
        lemma_variable_decl_is_sound(ts, pos);
    } else {
        lemma_import_paths_are_sound(ts, pos + 1);
    }
}

/// The members that the rule for the inside of a class gives are functions and
/// variables that keep the rules of the tree.
#[verifier::rlimit(40)]
pub proof fn lemma_members_are_sound(ts: Tokens, pos: int)
    ensures
        members(ts, pos).out matches Ok(items) ==> all_members(items) && sound_statements(items),
    decreases rest(ts, pos), 40nat,
{
    reveal_with_fuel(members, 1);
    reveal_with_fuel(statement, 1);
    if !(is_at(ts, pos, TokenView::CloseBrace) || at_end(ts, pos)) {
        lemma_statement_is_sound(ts, pos);
        let member = statement(ts, pos);
        match member.out {
            Ok(Some(s)) => {
                if may_be_member(s) && member.used != 0 {
                    lemma_members_are_sound(ts, pos + member.used);
                }
            },
            _ => {},
        }
    }
}

/// The statement that the rule for classes gives keeps the rules of the tree.
#[verifier::rlimit(40)]
pub proof fn lemma_class_decl_is_sound(ts: Tokens, pos: int)
    ensures
        class_decl(ts, pos).out matches Ok(Some(s)) ==> sound_statement(s),
    decreases rest(ts, pos), 28nat,
{
    reveal_with_fuel(class_decl, 1);
    reveal_with_fuel(import, 1);
    reveal_with_fuel(members, 1);
    if !is_at(ts, pos, TokenView::Keyword(Keyword::Class)) {
        lemma_import_is_sound(ts, pos);
    } else if name_at(ts, pos + 1).is_ok() && is_at(ts, pos + 2, TokenView::OpenBrace) {
        lemma_members_are_sound(ts, pos + 3);
    }
}

/// The parameters that the rule for parameter lists gives have types that keep
/// the rules of the tree.
#[verifier::rlimit(40)]
pub proof fn lemma_parameters_are_sound(ts: Tokens, pos: int)
    ensures
        parameters(ts, pos).out matches Ok(items) ==> sound_parameters(items),
    decreases rest(ts, pos), 40nat,
{
    reveal_with_fuel(parameters, 1);
    reveal_with_fuel(required, 1);
    if kind_at(ts, pos) matches Some(TokenView::Identifier(name)) {
        if is_at(ts, pos + 1, TokenView::Colon) {
            lemma_required_is_sound(ts, pos + 2);
            let ty = required(ts, pos + 2);
            let used = 2 + ty.used;
            if ty.out.is_ok() && !is_at(ts, pos + used, TokenView::CloseParen) && is_at(
                ts,
                pos + used,
                TokenView::Comma,
            ) {
                lemma_parameters_are_sound(ts, pos + used + 1);
            }
        }
    }
}

/// The return type that the rule for return types gives keeps the rules of the
/// tree.
pub proof fn lemma_return_type_is_sound(ts: Tokens, pos: int)
    ensures
        return_type(ts, pos).out matches Ok(found) ==> sound_optional(found),
    decreases rest(ts, pos), 40nat,
{
    reveal_with_fuel(return_type, 1);
    reveal_with_fuel(required, 1);
    if is_at(ts, pos, TokenView::Arrow) {
        lemma_required_is_sound(ts, pos + 1);
    }
}

/// The body that the rule for the body of a function gives keeps the rules of the
/// tree.
pub proof fn lemma_function_body_is_sound(ts: Tokens, pos: int)
    ensures
        function_body(ts, pos).out matches Ok(e) ==> sound_expression(e),
    decreases rest(ts, pos), 40nat,
{
    reveal_with_fuel(function_body, 1);
    reveal_with_fuel(required, 1);
    lemma_required_is_sound(ts, pos);
}

/// The statement that a declaration that starts with `function` gives keeps the
/// rules of the tree.
#[verifier::rlimit(40)]
proof fn lemma_function_is_sound(ts: Tokens, pos: int)
    requires
        is_at(ts, pos, TokenView::Keyword(Keyword::Function)),
    ensures
        function_decl(ts, pos).out matches Ok(Some(s)) ==> sound_statement(s),
    decreases rest(ts, pos), 28nat,
{
    reveal_with_fuel(function_decl, 1);
    reveal_with_fuel(parameters, 1);
    reveal_with_fuel(return_type, 1);
    reveal_with_fuel(function_body, 1);
    if name_at(ts, pos + 1).is_ok() && is_at(ts, pos + 2, TokenView::OpenParen) {
        lemma_parameters_are_sound(ts, pos + 3);
        let params = parameters(ts, pos + 3);
        let close = 3 + params.used;
        if params.out.is_ok() && is_at(ts, pos + close, TokenView::CloseParen) {
            let ret = return_type(ts, pos + close + 1);
            lemma_return_type_is_sound(ts, pos + close + 1);
            if ret.out.is_ok() {
                lemma_function_body_is_sound(ts, pos + close + 1 + ret.used);
            }
        }
    }
}

/// The statement that the rule for functions gives keeps the rules of the tree.
pub proof fn lemma_function_decl_is_sound(ts: Tokens, pos: int)
    ensures
        function_decl(ts, pos).out matches Ok(Some(s)) ==> sound_statement(s),
    decreases rest(ts, pos), 29nat,
{
    if is_at(ts, pos, TokenView::Keyword(Keyword::Function)) {
        lemma_function_is_sound(ts, pos);
    } else {
        reveal_with_fuel(function_decl, 1);
        reveal_with_fuel(class_decl, 1);
        lemma_class_decl_is_sound(ts, pos);
    }
}

/// The statement that the statement rule gives keeps the rules of the tree: no
/// path in it is empty, the members of its classes are functions and
/// variables, its imports hold paths, and each of its variables has a type or
/// an initial value.
pub proof fn lemma_statement_is_sound(ts: Tokens, pos: int)
    ensures
        statement(ts, pos).out matches Ok(Some(s)) ==> sound_statement(s),
    decreases rest(ts, pos), 30nat,
{
    reveal_with_fuel(statement, 1);
    reveal_with_fuel(function_decl, 1);
    if !at_end(ts, pos) {
        lemma_function_decl_is_sound(ts, pos);
    }
}

/// Every statement of a program that parses keeps the rules of the tree.
pub proof fn lemma_program_is_sound(ts: Tokens, pos: int)
    requires
        0 <= pos,
    ensures
        program(ts, pos).out matches Ok(items) ==> sound_statements(items),
    decreases rest(ts, pos),
{
    if !at_end(ts, pos) {
        lemma_statement_advances(ts, pos);
        lemma_statement_is_sound(ts, pos);
        if statement(ts, pos).out.is_ok() {
            lemma_program_is_sound(ts, pos + statement(ts, pos).used);
        }
    }
}

} // verus!
