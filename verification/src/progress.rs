//! The parser goes forward: no production goes back in the tokens, every
//! production that yields something has taken a token, and a program is
//! parsed to its last token.

use vstd::prelude::*;
use crate::ast::{ExprView, FunctionView, StmtView};
use crate::grammar::{
    arguments, assignment, binary, binary_level, binary_rest, block, block_items, call,
    call_rest, class_decl, class_methods, declaration, expr_stmt, expression, finish_call,
    for_initializer, for_stmt, function, if_stmt, level_operator, operand, optional_expression,
    parameters, prefix_operator, primary, print_stmt, program, program_items, progressed,
    return_stmt, statement, unary, var_decl, while_stmt,
};
use crate::named::keyword;
use crate::parser::{lemma_skip_to_boundary, ParserView};
use crate::token::TokenKind;

verus! {

/// Whether a production that started in `s` and ended in `state` went
/// forward, and took a token if it yielded something.
pub open spec fn forward(s: ParserView, state: ParserView, yielded: bool) -> bool {
    s.precedes(state) && (yielded ==> s.pos < state.pos)
}

/// An expression is parsed forwards, and one that is parsed holds at least
/// one token.
pub proof fn lemma_expression_forward(s: ParserView)
    requires
        s.wf(),
    ensures
        forward(s, expression(s).1, expression(s).0 is Some),
    decreases s.remaining(), 101int,
{
    lemma_assignment_forward(s);
}

proof fn lemma_assignment_forward(s: ParserView)
    requires
        s.wf(),
    ensures
        forward(s, assignment(s).1, assignment(s).0 is Some),
    decreases s.remaining(), 100int,
{
    lemma_binary_forward(s, 1);
    let (left, s1) = binary(s, 1);
    if left is Some && s1.check_kind(TokenKind::Eq) {
        lemma_assignment_forward(s1.advance());
    }
}

proof fn lemma_operand_forward(s: ParserView, level: int)
    requires
        s.wf(),
    ensures
        forward(s, operand(s, level).1, operand(s, level).0 is Some),
    decreases s.remaining(), 100 - 2 * level + 1,
{
    if 2 <= level <= 7 {
        if level <= 6 {
            lemma_binary_forward(s, level);
        } else {
            lemma_unary_forward(s);
        }
    }
}

proof fn lemma_binary_forward(s: ParserView, level: int)
    requires
        s.wf(),
    ensures
        forward(s, binary(s, level).1, binary(s, level).0 is Some),
    decreases s.remaining(), 100 - 2 * level,
{
    if binary_level(level) {
        lemma_operand_forward(s, level + 1);
        let (left, s1) = operand(s, level + 1);
        if left is Some {
            lemma_binary_rest_forward(s1, left->0, level);
        }
    }
}

proof fn lemma_binary_rest_forward(s: ParserView, left: ExprView, level: int)
    requires
        s.wf(),
    ensures
        s.precedes(binary_rest(s, left, level).1),
    decreases s.remaining(), 100 - 2 * level - 1,
{
    if binary_level(level) {
        match level_operator(s.peek(), level) {
            None => {},
            Some(op) => {
                let s1 = s.advance();
                lemma_operand_forward(s1, level + 1);
                let (right, s2) = operand(s1, level + 1);
                if right is Some {
                    lemma_binary_rest_forward(
                        s2,
                        crate::grammar::combine(
                            level,
                            left,
                            crate::ast::PosedOperator(op, s1.line),
                            right->0,
                        ),
                        level,
                    );
                }
            },
        }
    }
}

proof fn lemma_unary_forward(s: ParserView)
    requires
        s.wf(),
    ensures
        forward(s, unary(s).1, unary(s).0 is Some),
    decreases s.remaining(), 80int,
{
    match prefix_operator(s.peek()) {
        Some(op) => {
            lemma_unary_forward(s.advance());
        },
        None => {
            lemma_call_forward(s);
        },
    }
}

proof fn lemma_call_forward(s: ParserView)
    requires
        s.wf(),
    ensures
        forward(s, call(s).1, call(s).0 is Some),
    decreases s.remaining(), 75int,
{
    lemma_primary_forward(s);
    let (callee, s1) = primary(s);
    if callee is Some {
        lemma_call_rest_forward(s1, callee->0);
    }
}

proof fn lemma_call_rest_forward(s: ParserView, callee: ExprView)
    requires
        s.wf(),
    ensures
        s.precedes(call_rest(s, callee).1),
    decreases s.remaining(), 70int,
{
    if s.check_kind(TokenKind::OpenParen) {
        let s1 = s.advance();
        lemma_finish_call_forward(s1, callee);
        let (called, s2) = finish_call(s1, callee);
        if called is Some {
            lemma_call_rest_forward(s2, called->0);
        }
    } else if s.check_kind(TokenKind::Dot) {
        let s1 = s.advance();
        let (name, s2) = s1.consume_name("Expect property name after '.'."@);
        if name is Some {
            lemma_call_rest_forward(s2, ExprView::Get { obj: Box::new(callee), name: name->0 });
        }
    }
}

proof fn lemma_finish_call_forward(s: ParserView, callee: ExprView)
    requires
        s.wf(),
    ensures
        s.precedes(finish_call(s, callee).1),
    decreases s.remaining(), 110int,
{
    if !s.check_kind(TokenKind::CloseParen) {
        lemma_arguments_forward(s, Seq::empty());
    }
}

proof fn lemma_arguments_forward(s: ParserView, args: Seq<ExprView>)
    requires
        s.wf(),
    ensures
        s.precedes(arguments(s, args).1),
    decreases s.remaining(), 105int,
{
    if args.len() < crate::grammar::MAX_ARGS {
        lemma_expression_forward(s);
        let (arg, s1) = expression(s);
        if arg is Some && s1.check_kind(TokenKind::Comma) {
            lemma_arguments_forward(s1.advance(), args.push(arg->0));
        }
    }
}

proof fn lemma_primary_forward(s: ParserView)
    requires
        s.wf(),
    ensures
        forward(s, primary(s).1, primary(s).0 is Some),
    decreases s.remaining(), 60int,
{
    if s.check_kind(TokenKind::OpenParen) {
        lemma_expression_forward(s.advance());
    }
}

proof fn lemma_optional_expression_forward(s: ParserView, closer: TokenKind)
    requires
        s.wf(),
    ensures
        s.precedes(optional_expression(s, closer).2),
    decreases s.remaining(), 102int,
{
    if !s.check_kind(closer) {
        lemma_expression_forward(s);
    }
}

/// A declaration takes at least one token, if there is one.
pub proof fn lemma_declaration_forward(s: ParserView)
    requires
        s.wf(),
    ensures
        s.precedes(declaration(s).1),
        s.pos < s.tokens.len() ==> progressed(s, declaration(s).1),
    decreases s.remaining(), 150int,
{
    let s1 = if s.check_token(keyword("class"@)) {
        lemma_class_decl_forward(s.advance());
        class_decl(s.advance()).1
    } else if s.check_token(keyword("fun"@)) {
        lemma_function_forward(s.advance());
        function(s.advance()).1
    } else if s.check_token(keyword("var"@)) {
        lemma_var_decl_forward(s.advance());
        var_decl(s.advance()).1
    } else {
        lemma_statement_forward(s);
        statement(s).1
    };
    lemma_skip_to_boundary(s1.advance());
}

proof fn lemma_class_decl_forward(s: ParserView)
    requires
        s.wf(),
    ensures
        s.precedes(class_decl(s).1),
    decreases s.remaining(), 130int,
{
    let (name, s1) = s.consume_name("Expect class name."@);
    if name is Some {
        let (superclass, s2) = if s1.check_kind(TokenKind::Lt) {
            s1.advance().consume_name("Expect superclass name."@)
        } else {
            (None, s1)
        };
        if !(s1.check_kind(TokenKind::Lt) && superclass is None) {
            let (open, s3) = s2.consume_by_kind(
                TokenKind::OpenBrace,
                "Expect '{' before class body."@,
            );
            if open {
                lemma_class_methods_forward(s3, Seq::empty());
            }
        }
    }
}

proof fn lemma_class_methods_forward(s: ParserView, methods: Seq<FunctionView>)
    requires
        s.wf(),
    ensures
        s.precedes(class_methods(s, methods).1),
    decreases s.remaining(), 128int,
{
    if !(s.check_kind(TokenKind::CloseBrace) || s.at_end()) {
        lemma_function_forward(s);
        let (method, s1) = function(s);
        if method is Some && progressed(s, s1) {
            lemma_class_methods_forward(s1, methods.push(method->0));
        }
    }
}

proof fn lemma_parameters_forward(s: ParserView, names: Seq<(Seq<char>, usize)>)
    requires
        s.wf(),
    ensures
        s.precedes(parameters(s, names).1),
    decreases s.remaining(),
{
    let (name, s1) = s.consume_name("Expect parameter name."@);
    if name is Some && s1.check_kind(TokenKind::Comma) {
        lemma_parameters_forward(s1.advance(), names.push(name->0));
    }
}

proof fn lemma_function_forward(s: ParserView)
    requires
        s.wf(),
    ensures
        forward(s, function(s).1, function(s).0 is Some),
    decreases s.remaining(), 125int,
{
    let (name, s1) = s.consume_name("Expect function name."@);
    if name is Some {
        let (open, s2) = s1.consume_by_kind(
            TokenKind::OpenParen,
            "Expect '(' after function name."@,
        );
        if open {
            if !s2.check_kind(TokenKind::CloseParen) {
                lemma_parameters_forward(s2, Seq::empty());
            }
            let (params, s3) = if s2.check_kind(TokenKind::CloseParen) {
                (Some(Seq::<(Seq<char>, usize)>::empty()), s2)
            } else {
                parameters(s2, Seq::empty())
            };
            if params is Some {
                let (close, s4) = s3.consume_by_kind(
                    TokenKind::CloseParen,
                    "Expect ')' after parameters."@,
                );
                if close {
                    let (brace, s5) = s4.consume_by_kind(
                        TokenKind::OpenBrace,
                        "Expect '{' before function body."@,
                    );
                    if brace && progressed(s, s5) {
                        lemma_block_forward(s5);
                    }
                }
            }
        }
    }
}

proof fn lemma_var_decl_forward(s: ParserView)
    requires
        s.wf(),
    ensures
        s.precedes(var_decl(s).1),
    decreases s.remaining(), 130int,
{
    let (name, s1) = s.consume_name("Expect variable name"@);
    if name is Some && s1.check_kind(TokenKind::Eq) {
        lemma_expression_forward(s1.advance());
    }
}

proof fn lemma_statement_forward(s: ParserView)
    requires
        s.wf(),
    ensures
        forward(s, statement(s).1, statement(s).0 is Some),
    decreases s.remaining(), 140int,
{
    if s.check_token(keyword("if"@)) {
        lemma_if_stmt_forward(s.advance());
    } else if s.check_token(keyword("for"@)) {
        lemma_for_stmt_forward(s.advance());
    } else if s.check_token(keyword("print"@)) {
        lemma_print_stmt_forward(s.advance());
    } else if s.check_token(keyword("return"@)) {
        lemma_return_stmt_forward(s.advance(), (s.peek()->0.val, s.advance().line));
    } else if s.check_token(keyword("while"@)) {
        lemma_while_stmt_forward(s.advance());
    } else if s.check_kind(TokenKind::OpenBrace) {
        lemma_block_forward(s.advance());
    } else {
        lemma_expr_stmt_forward(s);
    }
}

proof fn lemma_for_initializer_forward(s: ParserView)
    requires
        s.wf(),
    ensures
        s.precedes(for_initializer(s).2),
    decreases s.remaining(), 137int,
{
    if s.check_token(keyword("var"@)) {
        lemma_var_decl_forward(s.advance());
    } else if s.check_kind(TokenKind::Semi) {
    } else {
        lemma_expr_stmt_forward(s);
    }
}

proof fn lemma_for_stmt_forward(s: ParserView)
    requires
        s.wf(),
    ensures
        s.precedes(for_stmt(s).1),
    decreases s.remaining(), 130int,
{
    let (open, s1) = s.consume_by_kind(TokenKind::OpenParen, "Expect '(' after 'for'."@);
    if open {
        lemma_for_initializer_forward(s1);
        let (ok, initializer, s2) = for_initializer(s1);
        if ok {
            lemma_optional_expression_forward(s2, TokenKind::Semi);
            let (ok, cond, s3) = optional_expression(s2, TokenKind::Semi);
            if ok {
                let (_semi, s4) = s3.consume_by_kind(
                    TokenKind::Semi,
                    "Expect ';' after loop condition."@,
                );
                lemma_optional_expression_forward(s4, TokenKind::CloseParen);
                let (ok, increment, s5) = optional_expression(s4, TokenKind::CloseParen);
                if ok {
                    let (_close, s6) = s5.consume_by_kind(
                        TokenKind::CloseParen,
                        "Expect ')' after for clauses."@,
                    );
                    lemma_statement_forward(s6);
                }
            }
        }
    }
}

proof fn lemma_if_stmt_forward(s: ParserView)
    requires
        s.wf(),
    ensures
        s.precedes(if_stmt(s).1),
    decreases s.remaining(), 130int,
{
    let (open, s1) = s.consume_by_kind(TokenKind::OpenParen, "Expect '(' after 'if'."@);
    if open {
        lemma_expression_forward(s1);
        let (cond, s2) = expression(s1);
        if cond is Some {
            let (_close, s3) = s2.consume_by_kind(
                TokenKind::CloseParen,
                "Expect ')' after if condition."@,
            );
            lemma_statement_forward(s3);
            let (then_branch, s4) = statement(s3);
            if then_branch is Some && s4.check_token(keyword("else"@)) {
                lemma_statement_forward(s4.advance());
            }
        }
    }
}

proof fn lemma_while_stmt_forward(s: ParserView)
    requires
        s.wf(),
    ensures
        s.precedes(while_stmt(s).1),
    decreases s.remaining(), 130int,
{
    let (open, s1) = s.consume_by_kind(TokenKind::OpenParen, "Expect '(' after 'while'."@);
    if open {
        lemma_expression_forward(s1);
        let (cond, s2) = expression(s1);
        if cond is Some {
            let (_close, s3) = s2.consume_by_kind(
                TokenKind::CloseParen,
                "Expect ')' after while condition."@,
            );
            lemma_statement_forward(s3);
        }
    }
}

proof fn lemma_block_forward(s: ParserView)
    requires
        s.wf(),
    ensures
        s.precedes(block(s).1),
    decreases s.remaining(), 210int,
{
    lemma_block_items_forward(s, Seq::empty(), false);
}

/// The declarations of a block are parsed up to its `}` or the end of the
/// input.
pub proof fn lemma_block_items_forward(s: ParserView, stmts: Seq<StmtView>, failed: bool)
    requires
        s.wf(),
    ensures
        s.precedes(block_items(s, stmts, failed).2),
        block_items(s, stmts, failed).2.check_kind(TokenKind::CloseBrace) || block_items(
            s,
            stmts,
            failed,
        ).2.at_end(),
    decreases s.remaining(), 200int,
{
    if !(s.check_kind(TokenKind::CloseBrace) || s.at_end()) {
        lemma_declaration_forward(s);
        let (decl, s1) = declaration(s);
        match decl {
            Some(d) => {
                lemma_block_items_forward(s1, stmts.push(d), failed);
            },
            None => {
                lemma_block_items_forward(s1, stmts, true);
            },
        }
    }
}

proof fn lemma_expr_stmt_forward(s: ParserView)
    requires
        s.wf(),
    ensures
        forward(s, expr_stmt(s).1, expr_stmt(s).0 is Some),
    decreases s.remaining(), 135int,
{
    lemma_expression_forward(s);
}

proof fn lemma_print_stmt_forward(s: ParserView)
    requires
        s.wf(),
    ensures
        s.precedes(print_stmt(s).1),
    decreases s.remaining(), 130int,
{
    lemma_expression_forward(s);
}

proof fn lemma_return_stmt_forward(s: ParserView, keyword: (Seq<char>, usize))
    requires
        s.wf(),
    ensures
        s.precedes(return_stmt(s, keyword).1),
    decreases s.remaining(), 130int,
{
    lemma_optional_expression_forward(s, TokenKind::Semi);
}

proof fn lemma_program_items_forward(s: ParserView, stmts: Seq<StmtView>)
    requires
        s.wf(),
    ensures
        s.precedes(program_items(s, stmts).1),
        program_items(s, stmts).1.at_end(),
    decreases s.remaining(), 200int,
{
    if !s.at_end() {
        lemma_declaration_forward(s);
        let (decl, s1) = declaration(s);
        match decl {
            Some(d) => {
                lemma_program_items_forward(s1, stmts.push(d));
            },
            None => {
                lemma_program_items_forward(s1, stmts);
            },
        }
    }
}

/// The parser is total: from every state it parses the program to the last
/// token, whether or not it finds errors.
pub proof fn lemma_program_ends(s: ParserView)
    requires
        s.wf(),
    ensures
        s.precedes(program(s).1),
        program(s).1.at_end(),
        program(s).0 is Some == !program(s).1.had_error,
{
    lemma_program_items_forward(s, Seq::empty());
}

} // verus!
