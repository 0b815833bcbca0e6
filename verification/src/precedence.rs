//! The shape of parsed expressions: no operand binds weaker than the operator
//! it belongs to.

use vstd::prelude::*;
use crate::ast::{ExprView, FunctionView, Operator, StmtView};
use crate::grammar::{
    arguments, assignment, binary, binary_level, binary_rest, block, block_items, call,
    call_rest, class_decl, class_methods, combine, declaration, expr_stmt, expression,
    finish_call, for_initializer, for_stmt, function, if_stmt, level_operator, lowered_for,
    operand, optional_expression, prefix_operator, primary, print_stmt, program, program_items,
    progressed, return_stmt, statement, unary, var_decl, while_stmt,
};
use crate::named::keyword;
use crate::parser::ParserView;
use crate::token::TokenKind;

verus! {

/// The level of a binary or logical operator: 1 for `or`, 2 for `and`, 3 for
/// equality, 4 for comparison, 5 for `+` and `-`, 6 for `*` and `/`. 0 for
/// the operators that are neither.
pub open spec fn operator_level(op: Operator) -> int {
    match op {
        Operator::Or => 1,
        Operator::And => 2,
        Operator::Equal | Operator::NotEqual => 3,
        Operator::Greater | Operator::GreaterEqual | Operator::Less | Operator::LessEqual => 4,
        Operator::Plus | Operator::Minus => 5,
        Operator::Multiply | Operator::Divide => 6,
        Operator::Not => 0,
    }
}

/// How tightly an expression is bound: 0 for an assignment, 1 to 6 for the
/// binary operators from `or` to `*`, 7 for a unary operator, 8 for a call or
/// a property, 9 for what stands alone.
pub open spec fn level_of(expr: ExprView) -> int {
    match expr {
        ExprView::Assign { .. } => 0,
        ExprView::SetProp { .. } => 0,
        ExprView::Logical { op, .. } => operator_level(op.0),
        ExprView::Binary { op, .. } => operator_level(op.0),
        ExprView::Unary { .. } => 7,
        ExprView::Call { .. } => 8,
        ExprView::Get { .. } => 8,
        _ => 9,
    }
}

/// Whether `expr` is built as the grammar's table of precedence has it:
/// - the operator of a logical expression is `or` or `and`, that of a binary
///   expression one of the levels 3 to 6;
/// - the left operand binds at least as tightly as the operator and the right
///   one more tightly, so operators of one level group from the left;
/// - the operand of a unary operator is unary or binds more tightly;
/// - what is called, and what a property is read from or written to, is a
///   call, a property or what stands alone;
/// - and all parts are built that way, where anything may stand in
///   parentheses, as an argument or as an assigned value.
pub open spec fn shaped(expr: ExprView) -> bool
    decreases expr,
{
    match expr {
        ExprView::Assign { val, .. } => shaped(*val),
        ExprView::SetProp { obj, val, .. } => level_of(*obj) >= 8 && shaped(*obj) && shaped(*val),
        ExprView::Logical { left, op, right } => {
            &&& 1 <= operator_level(op.0) <= 2
            &&& level_of(*left) >= operator_level(op.0)
            &&& level_of(*right) > operator_level(op.0)
            &&& shaped(*left)
            &&& shaped(*right)
        },
        ExprView::Binary { left, op, right } => {
            &&& 3 <= operator_level(op.0) <= 6
            &&& level_of(*left) >= operator_level(op.0)
            &&& level_of(*right) > operator_level(op.0)
            &&& shaped(*left)
            &&& shaped(*right)
        },
        ExprView::Unary { op, right } => {
            &&& (op.0 == Operator::Not || op.0 == Operator::Minus)
            &&& level_of(*right) >= 7
            &&& shaped(*right)
        },
        ExprView::Call { callee, args } => {
            &&& level_of(*callee) >= 8
            &&& shaped(*callee)
            &&& forall|i: int| 0 <= i < args.len() ==> shaped(#[trigger] args[i])
        },
        ExprView::Get { obj, .. } => level_of(*obj) >= 8 && shaped(*obj),
        ExprView::Grouping { expr } => shaped(*expr),
        _ => true,
    }
}

/// Whether `result` is an expression of level `level` or tighter, built as
/// the table of precedence has it, if it is an expression at all.
pub open spec fn fits(result: Option<ExprView>, level: int) -> bool {
    result is Some ==> shaped(result->0) && level_of(result->0) >= level
}

/// Every expression that is parsed is built as the table of precedence has
/// it.
pub proof fn lemma_expression_shaped(s: ParserView)
    ensures
        fits(expression(s).0, 0),
    decreases s.remaining(), 101int,
{
    lemma_assignment_shaped(s);
}

/// What `assignment` yields is built as the table of precedence has it.
pub proof fn lemma_assignment_shaped(s: ParserView)
    ensures
        fits(assignment(s).0, 0),
    decreases s.remaining(), 100int,
{
    lemma_binary_shaped(s, 1);
    let (left, s1) = binary(s, 1);
    if left is Some {
        let s1 = s.onward(s1);
        if s1.check_kind(TokenKind::Eq) {
            lemma_assignment_shaped(s1.advance());
        }
    }
}

/// What `operand` yields binds at least as tightly as `level`.
pub proof fn lemma_operand_shaped(s: ParserView, level: int)
    ensures
        fits(operand(s, level).0, level),
    decreases s.remaining(), 100 - 2 * level + 1,
{
    if 2 <= level <= 7 {
        if level <= 6 {
            lemma_binary_shaped(s, level);
        } else {
            lemma_unary_shaped(s);
        }
    }
}

/// What `binary` yields binds at least as tightly as `level`.
pub proof fn lemma_binary_shaped(s: ParserView, level: int)
    ensures
        fits(binary(s, level).0, level),
    decreases s.remaining(), 100 - 2 * level,
{
    if binary_level(level) {
        lemma_operand_shaped(s, level + 1);
        let (left, s1) = operand(s, level + 1);
        if left is Some {
            lemma_binary_rest_shaped(s.onward(s1), left->0, level);
        }
    }
}

/// What `binary_rest` yields binds at least as tightly as `level`, if
/// `left` does.
pub proof fn lemma_binary_rest_shaped(s: ParserView, left: ExprView, level: int)
    requires
        shaped(left),
        level_of(left) >= level,
    ensures
        fits(binary_rest(s, left, level).0, level),
    decreases s.remaining(), 100 - 2 * level - 1,
{
    if binary_level(level) {
        match level_operator(s.peek(), level) {
            None => {},
            Some(op) => {
                let s1 = s.advance();
                lemma_operand_shaped(s1, level + 1);
                let (right, s2) = operand(s1, level + 1);
                if right is Some {
                    let whole = combine(
                        level,
                        left,
                        crate::ast::PosedOperator(op, s1.line),
                        right->0,
                    );
                    assert(operator_level(op) == level);
                    assert(shaped(whole));
                    lemma_binary_rest_shaped(s1.onward(s2), whole, level);
                }
            },
        }
    }
}

/// What `unary` yields is unary or binds more tightly.
pub proof fn lemma_unary_shaped(s: ParserView)
    ensures
        fits(unary(s).0, 7),
    decreases s.remaining(), 80int,
{
    match prefix_operator(s.peek()) {
        Some(op) => {
            lemma_unary_shaped(s.advance());
        },
        None => {
            lemma_call_shaped(s);
        },
    }
}

/// What `call` yields is a call, a property or what stands alone.
pub proof fn lemma_call_shaped(s: ParserView)
    ensures
        fits(call(s).0, 8),
    decreases s.remaining(), 75int,
{
    lemma_primary_shaped(s);
    let (callee, s1) = primary(s);
    if callee is Some {
        lemma_call_rest_shaped(s.onward(s1), callee->0);
    }
}

/// What `call_rest` yields is a call, a property or what stands alone, if
/// `callee` is.
pub proof fn lemma_call_rest_shaped(s: ParserView, callee: ExprView)
    requires
        shaped(callee),
        level_of(callee) >= 8,
    ensures
        fits(call_rest(s, callee).0, 8),
    decreases s.remaining(), 70int,
{
    if s.check_kind(TokenKind::OpenParen) {
        let s1 = s.advance();
        lemma_finish_call_shaped(s1, callee);
        let (called, s2) = finish_call(s1, callee);
        if called is Some {
            lemma_call_rest_shaped(s1.onward(s2), called->0);
        }
    } else if s.check_kind(TokenKind::Dot) {
        let s1 = s.advance();
        let (name, s2) = s1.consume_name("Expect property name after '.'."@);
        if name is Some {
            lemma_call_rest_shaped(
                s1.onward(s2),
                ExprView::Get { obj: Box::new(callee), name: name->0 },
            );
        }
    }
}

/// What `finish_call` yields is a call built as the table of precedence has
/// it, if `callee` is.
pub proof fn lemma_finish_call_shaped(s: ParserView, callee: ExprView)
    requires
        shaped(callee),
        level_of(callee) >= 8,
    ensures
        fits(finish_call(s, callee).0, 8),
    decreases s.remaining(), 110int,
{
    if !s.check_kind(TokenKind::CloseParen) {
        lemma_arguments_shaped(s, Seq::empty());
    }
}

/// The arguments that `arguments` yields are built as the table of
/// precedence has it, if `args` are.
pub proof fn lemma_arguments_shaped(s: ParserView, args: Seq<ExprView>)
    requires
        forall|i: int| 0 <= i < args.len() ==> shaped(#[trigger] args[i]),
    ensures
        arguments(s, args).0 is Some ==> forall|i: int|
            0 <= i < arguments(s, args).0->0.len() ==> shaped(#[trigger] arguments(s, args).0->0[i]),
    decreases s.remaining(), 105int,
{
    if args.len() < crate::grammar::MAX_ARGS {
        lemma_expression_shaped(s);
        let (arg, s1) = expression(s);
        if arg is Some {
            let s1 = s.onward(s1);
            let more = args.push(arg->0);
            assert forall|i: int| 0 <= i < more.len() implies shaped(#[trigger] more[i]) by {
                if i < args.len() {
                    assert(more[i] == args[i]);
                }
            }
            if s1.check_kind(TokenKind::Comma) {
                lemma_arguments_shaped(s1.advance(), more);
            }
        }
    }
}

/// What `primary` yields stands alone.
pub proof fn lemma_primary_shaped(s: ParserView)
    ensures
        fits(primary(s).0, 9),
    decreases s.remaining(), 60int,
{
    if s.check_kind(TokenKind::OpenParen) {
        lemma_expression_shaped(s.advance());
    }
}

/// Whether an expression that may be missing is built as the table of
/// precedence has it.
pub open spec fn optional_shaped(expr: Option<ExprView>) -> bool {
    expr is Some ==> shaped(expr->0)
}

/// Whether every expression in the statements is built as the table of
/// precedence has it.
pub open spec fn all_shaped(stmts: Seq<StmtView>) -> bool
    decreases stmts,
{
    forall|i: int| 0 <= i < stmts.len() ==> stmt_shaped(#[trigger] stmts[i])
}

/// Whether every expression in the function is built as the table of
/// precedence has it.
pub open spec fn function_shaped(decl: FunctionView) -> bool
    decreases decl,
{
    all_shaped(decl.body)
}

/// Whether every expression in the statement is built as the table of
/// precedence has it.
pub open spec fn stmt_shaped(stmt: StmtView) -> bool
    decreases stmt,
{
    match stmt {
        StmtView::Block { stmts } => all_shaped(stmts),
        StmtView::Class { methods, .. } => forall|i: int|
            0 <= i < methods.len() ==> function_shaped(#[trigger] methods[i]),
        StmtView::Expression { expr } => shaped(expr),
        StmtView::Function { decl } => function_shaped(decl),
        StmtView::If { cond, then_branch, else_branch } => {
            &&& shaped(cond)
            &&& stmt_shaped(*then_branch)
            &&& match else_branch {
                Some(e) => stmt_shaped(*e),
                None => true,
            }
        },
        StmtView::Print { expr } => shaped(expr),
        StmtView::Return { value, .. } => optional_shaped(value),
        StmtView::Variable { initializer, .. } => optional_shaped(initializer),
        StmtView::While { cond, body } => shaped(cond) && stmt_shaped(*body),
    }
}

/// Whether a statement that may be missing holds only expressions built as
/// the table of precedence has it.
pub open spec fn optional_stmt_shaped(stmt: Option<StmtView>) -> bool {
    stmt is Some ==> stmt_shaped(stmt->0)
}

/// One statement more.
proof fn lemma_all_shaped_push(stmts: Seq<StmtView>, stmt: StmtView)
    requires
        all_shaped(stmts),
        stmt_shaped(stmt),
    ensures
        all_shaped(stmts.push(stmt)),
{
    let more = stmts.push(stmt);
    assert forall|i: int| 0 <= i < more.len() implies stmt_shaped(#[trigger] more[i]) by {
        if i < stmts.len() {
            assert(more[i] == stmts[i]);
        }
    }
}

/// What `declaration` yields holds only expressions built as the table of
/// precedence has it.
pub proof fn lemma_declaration_shaped(s: ParserView)
    ensures
        optional_stmt_shaped(declaration(s).0),
    decreases s.remaining(), 150int,
{
    if s.check_token(keyword("class"@)) {
        lemma_class_decl_shaped(s.advance());
    } else if s.check_token(keyword("fun"@)) {
        lemma_function_shaped(s.advance());
    } else if s.check_token(keyword("var"@)) {
        lemma_var_decl_shaped(s.advance());
    } else {
        lemma_statement_shaped(s);
    }
}

proof fn lemma_class_decl_shaped(s: ParserView)
    ensures
        optional_stmt_shaped(class_decl(s).0),
    decreases s.remaining(), 130int,
{
    let (name, s1) = s.consume_name("Expect class name."@);
    if name is Some {
        let (superclass, s2) = if s1.check_kind(TokenKind::Lt) {
            s1.advance().consume_name("Expect superclass name."@)
        } else {
            (None, s1)
        };
        if !(s1.check_kind(TokenKind::Lt) && superclass is None) {
            let (open, s3) = s2.consume_by_kind(
                TokenKind::OpenBrace,
                "Expect '{' before class body."@,
            );
            if open {
                lemma_class_methods_shaped(s3, Seq::empty());
            }
        }
    }
}

proof fn lemma_class_methods_shaped(s: ParserView, methods: Seq<FunctionView>)
    requires
        forall|i: int| 0 <= i < methods.len() ==> function_shaped(#[trigger] methods[i]),
    ensures
        class_methods(s, methods).0 is Some ==> forall|i: int|
            0 <= i < class_methods(s, methods).0->0.len() ==> function_shaped(
                #[trigger] class_methods(s, methods).0->0[i],
            ),
    decreases s.remaining(), 128int,
{
    if !(s.check_kind(TokenKind::CloseBrace) || s.at_end()) {
        lemma_function_shaped(s);
        let (method, s1) = function(s);
        if method is Some && progressed(s, s1) {
            let more = methods.push(method->0);
            assert forall|i: int| 0 <= i < more.len() implies function_shaped(
                #[trigger] more[i],
            ) by {
                if i < methods.len() {
                    assert(more[i] == methods[i]);
                }
            }
            lemma_class_methods_shaped(s1, more);
        }
    }
}

proof fn lemma_function_shaped(s: ParserView)
    ensures
        function(s).0 is Some ==> function_shaped(function(s).0->0),
    decreases s.remaining(), 125int,
{
    let (name, s1) = s.consume_name("Expect function name."@);
    if name is Some {
        let (open, s2) = s1.consume_by_kind(
            TokenKind::OpenParen,
            "Expect '(' after function name."@,
        );
        if open {
            let (params, s3) = if s2.check_kind(TokenKind::CloseParen) {
                (Some(Seq::<(Seq<char>, usize)>::empty()), s2)
            } else {
                crate::grammar::parameters(s2, Seq::empty())
            };
            if params is Some {
                let (close, s4) = s3.consume_by_kind(
                    TokenKind::CloseParen,
                    "Expect ')' after parameters."@,
                );
                if close {
                    let (brace, s5) = s4.consume_by_kind(
                        TokenKind::OpenBrace,
                        "Expect '{' before function body."@,
                    );
                    if brace && progressed(s, s5) {
                        lemma_block_shaped(s5);
                    }
                }
            }
        }
    }
}

proof fn lemma_var_decl_shaped(s: ParserView)
    ensures
        optional_stmt_shaped(var_decl(s).0),
    decreases s.remaining(), 130int,
{
    let (name, s1) = s.consume_name("Expect variable name"@);
    if name is Some && s1.check_kind(TokenKind::Eq) {
        lemma_expression_shaped(s1.advance());
    }
}

proof fn lemma_statement_shaped(s: ParserView)
    ensures
        optional_stmt_shaped(statement(s).0),
    decreases s.remaining(), 140int,
{
    if s.check_token(keyword("if"@)) {
        lemma_if_stmt_shaped(s.advance());
    } else if s.check_token(keyword("for"@)) {
        lemma_for_stmt_shaped(s.advance());
    } else if s.check_token(keyword("print"@)) {
        lemma_print_stmt_shaped(s.advance());
    } else if s.check_token(keyword("return"@)) {
        lemma_return_stmt_shaped(s.advance(), (s.peek()->0.val, s.advance().line));
    } else if s.check_token(keyword("while"@)) {
        lemma_while_stmt_shaped(s.advance());
    } else if s.check_kind(TokenKind::OpenBrace) {
        lemma_block_shaped(s.advance());
    } else {
        lemma_expr_stmt_shaped(s);
    }
}

proof fn lemma_optional_expression_shaped(s: ParserView, closer: TokenKind)
    ensures
        optional_shaped(optional_expression(s, closer).1),
    decreases s.remaining(), 102int,
{
    if !s.check_kind(closer) {
        lemma_expression_shaped(s);
    }
}

proof fn lemma_for_initializer_shaped(s: ParserView)
    ensures
        optional_stmt_shaped(for_initializer(s).1),
    decreases s.remaining(), 137int,
{
    if s.check_token(keyword("var"@)) {
        lemma_var_decl_shaped(s.advance());
    } else if s.check_kind(TokenKind::Semi) {
    } else {
        lemma_expr_stmt_shaped(s);
    }
}

proof fn lemma_lowered_for_shaped(
    initializer: Option<StmtView>,
    cond: Option<ExprView>,
    increment: Option<ExprView>,
    body: StmtView,
    line: usize,
)
    requires
        optional_stmt_shaped(initializer),
        optional_shaped(cond),
        optional_shaped(increment),
        stmt_shaped(body),
    ensures
        stmt_shaped(lowered_for(initializer, cond, increment, body, line)),
{
    let stepped = match increment {
        Some(i) => StmtView::Block {
            stmts: Seq::empty().push(body).push(StmtView::Expression { expr: i }),
        },
        None => body,
    };
    if increment is Some {
        lemma_all_shaped_push(Seq::empty(), body);
        lemma_all_shaped_push(
            Seq::empty().push(body),
            StmtView::Expression { expr: increment->0 },
        );
    }
    let test = match cond {
        Some(c) => c,
        None => ExprView::Literal { val: (crate::ast::LiteralView::Bool(true), line) },
    };
    let looped = StmtView::While { cond: test, body: Box::new(stepped) };
    assert(stmt_shaped(stepped));
    assert(shaped(test));
    assert(stmt_shaped(looped));
    if initializer is Some {
        lemma_all_shaped_push(Seq::empty(), initializer->0);
        lemma_all_shaped_push(Seq::empty().push(initializer->0), looped);
    }
}

proof fn lemma_for_stmt_shaped(s: ParserView)
    ensures
        optional_stmt_shaped(for_stmt(s).0),
    decreases s.remaining(), 130int,
{
    let (open, s1) = s.consume_by_kind(TokenKind::OpenParen, "Expect '(' after 'for'."@);
    if open {
        lemma_for_initializer_shaped(s1);
        let (ok, initializer, s2) = for_initializer(s1);
        if ok {
            lemma_optional_expression_shaped(s2, TokenKind::Semi);
            let (ok, cond, s3) = optional_expression(s2, TokenKind::Semi);
            if ok {
                let (_semi, s4) = s3.consume_by_kind(
                    TokenKind::Semi,
                    "Expect ';' after loop condition."@,
                );
                lemma_optional_expression_shaped(s4, TokenKind::CloseParen);
                let (ok, increment, s5) = optional_expression(s4, TokenKind::CloseParen);
                if ok {
                    let (_close, s6) = s5.consume_by_kind(
                        TokenKind::CloseParen,
                        "Expect ')' after for clauses."@,
                    );
                    lemma_statement_shaped(s6);
                    let (body, s7) = statement(s6);
                    if body is Some {
                        lemma_lowered_for_shaped(initializer, cond, increment, body->0, s7.line);
                    }
                }
            }
        }
    }
}

proof fn lemma_if_stmt_shaped(s: ParserView)
    ensures
        optional_stmt_shaped(if_stmt(s).0),
    decreases s.remaining(), 130int,
{
    let (open, s1) = s.consume_by_kind(TokenKind::OpenParen, "Expect '(' after 'if'."@);
    if open {
        lemma_expression_shaped(s1);
        let (cond, s2) = expression(s1);
        if cond is Some {
            let (_close, s3) = s1.onward(s2).consume_by_kind(
                TokenKind::CloseParen,
                "Expect ')' after if condition."@,
            );
            lemma_statement_shaped(s3);
            let (then_branch, s4) = statement(s3);
            if then_branch is Some {
                let s4 = s3.onward(s4);
                if s4.check_token(keyword("else"@)) {
                    lemma_statement_shaped(s4.advance());
                }
            }
        }
    }
}

proof fn lemma_while_stmt_shaped(s: ParserView)
    ensures
        optional_stmt_shaped(while_stmt(s).0),
    decreases s.remaining(), 130int,
{
    let (open, s1) = s.consume_by_kind(TokenKind::OpenParen, "Expect '(' after 'while'."@);
    if open {
        lemma_expression_shaped(s1);
        let (cond, s2) = expression(s1);
        if cond is Some {
            let (_close, s3) = s1.onward(s2).consume_by_kind(
                TokenKind::CloseParen,
                "Expect ')' after while condition."@,
            );
            lemma_statement_shaped(s3);
        }
    }
}

proof fn lemma_block_shaped(s: ParserView)
    ensures
        block(s).0 is Some ==> all_shaped(block(s).0->0),
    decreases s.remaining(), 210int,
{
    lemma_block_items_shaped(s, Seq::empty(), false);
}

proof fn lemma_block_items_shaped(s: ParserView, stmts: Seq<StmtView>, failed: bool)
    requires
        all_shaped(stmts),
    ensures
        all_shaped(block_items(s, stmts, failed).0),
    decreases s.remaining(), 200int,
{
    if !(s.check_kind(TokenKind::CloseBrace) || s.at_end()) {
        lemma_declaration_shaped(s);
        let (decl, s1) = declaration(s);
        if progressed(s, s1) {
            match decl {
                Some(d) => {
                    lemma_all_shaped_push(stmts, d);
                    lemma_block_items_shaped(s1, stmts.push(d), failed);
                },
                None => {
                    lemma_block_items_shaped(s1, stmts, true);
                },
            }
        }
    }
}

proof fn lemma_expr_stmt_shaped(s: ParserView)
    ensures
        optional_stmt_shaped(expr_stmt(s).0),
    decreases s.remaining(), 135int,
{
    lemma_expression_shaped(s);
}

proof fn lemma_print_stmt_shaped(s: ParserView)
    ensures
        optional_stmt_shaped(print_stmt(s).0),
    decreases s.remaining(), 130int,
{
    lemma_expression_shaped(s);
}

proof fn lemma_return_stmt_shaped(s: ParserView, keyword: (Seq<char>, usize))
    ensures
        optional_stmt_shaped(return_stmt(s, keyword).0),
    decreases s.remaining(), 130int,
{
    lemma_optional_expression_shaped(s, TokenKind::Semi);
}

proof fn lemma_program_items_shaped(s: ParserView, stmts: Seq<StmtView>)
    requires
        all_shaped(stmts),
    ensures
        all_shaped(program_items(s, stmts).0),
    decreases s.remaining(), 200int,
{
    if !s.at_end() {
        lemma_declaration_shaped(s);
        let (decl, s1) = declaration(s);
        if progressed(s, s1) {
            match decl {
                Some(d) => {
                    lemma_all_shaped_push(stmts, d);
                    lemma_program_items_shaped(s1, stmts.push(d));
                },
                None => {
                    lemma_program_items_shaped(s1, stmts);
                },
            }
        }
    }
}

/// Operator precedence: in every program that is parsed, every expression
/// is built as the grammar's table of precedence has it.
pub proof fn lemma_program_shaped(s: ParserView)
    ensures
        program(s).0 is Some ==> all_shaped(program(s).0->0),
{
    lemma_program_items_shaped(s, Seq::empty());
}

} // verus!
