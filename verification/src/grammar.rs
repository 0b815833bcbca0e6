//! What the parser computes, as functions from a parser state to a result
//! and the state behind it.
//!
//! ```text
//! program     → declaration* EOF
//! declaration → classDecl | funDecl | varDecl | statement
//! classDecl   → "class" IDENT ( "<" IDENT )? "{" function* "}"
//! funDecl     → "fun" function
//! function    → IDENT "(" parameters? ")" block
//! parameters  → IDENT ( "," IDENT )*
//! varDecl     → "var" IDENT ( "=" expression )? ";"
//! statement   → exprStmt | forStmt | ifStmt | printStmt
//!             | returnStmt | whileStmt | block
//! block       → "{" declaration* "}"
//! exprStmt    → expression ";"
//! forStmt     → "for" "(" ( varDecl | exprStmt | ";" )
//!                          expression? ";" expression? ")" statement
//! ifStmt      → "if" "(" expression ")" statement ( "else" statement )?
//! printStmt   → "print" expression ";"
//! returnStmt  → "return" expression? ";"
//! whileStmt   → "while" "(" expression ")" statement
//! expression  → assignment
//! assignment  → ( call "." )? IDENT "=" assignment | logic_or
//! logic_or    → logic_and ( "or"  logic_and )*
//! logic_and   → equality  ( "and" equality  )*
//! equality    → comparison ( ( "!=" | "==" ) comparison )*
//! comparison  → term ( ( ">" | ">=" | "<" | "<=" ) term )*
//! term        → factor ( ( "-" | "+" ) factor )*
//! factor      → unary ( ( "/" | "*" ) unary )*
//! unary       → ( "!" | "-" ) unary | call
//! call        → primary ( "(" arguments? ")" | "." IDENT )*
//! arguments   → expression ( "," expression )*
//! primary     → "true" | "false" | "nil" | "this"
//!             | NUMBER | STRING | IDENT
//!             | "(" expression ")"
//!             | "super" "." IDENT
//! ```
//!
//! A production that fails yields `None` and a state that holds the error.

use vstd::prelude::*;
use crate::ast::{ExprView, FunctionView, LiteralView, Operator, PosedOperator, StmtView};
use crate::named::{keyword, unquoted, TokenView};
use crate::parser::{DiagnosticView, ParserView};
use crate::token::{LiteralKind, TokenKind};

verus! {

/// The most arguments a call can have.
pub const MAX_ARGS: usize = 255;

/// The levels of the binary operators, from the weakest: `or`, `and`,
/// equality, comparison, term, factor.
pub open spec fn binary_level(level: int) -> bool {
    1 <= level <= 6
}

/// The operator that `token` stands for on `level`, if any.
pub open spec fn level_operator(token: Option<TokenView>, level: int) -> Option<Operator> {
    match token {
        None => None,
        Some(t) => if level == 1 {
            if t.same(keyword("or"@)) {
                Some(Operator::Or)
            } else {
                None
            }
        } else if level == 2 {
            if t.same(keyword("and"@)) {
                Some(Operator::And)
            } else {
                None
            }
        } else if level == 3 {
            match t.tag.kind {
                TokenKind::BangEq => Some(Operator::NotEqual),
                TokenKind::EqEq => Some(Operator::Equal),
                _ => None,
            }
        } else if level == 4 {
            match t.tag.kind {
                TokenKind::Gt => Some(Operator::Greater),
                TokenKind::GtEq => Some(Operator::GreaterEqual),
                TokenKind::Lt => Some(Operator::Less),
                TokenKind::LtEq => Some(Operator::LessEqual),
                _ => None,
            }
        } else if level == 5 {
            match t.tag.kind {
                TokenKind::Minus => Some(Operator::Minus),
                TokenKind::Plus => Some(Operator::Plus),
                _ => None,
            }
        } else if level == 6 {
            match t.tag.kind {
                TokenKind::Slash => Some(Operator::Divide),
                TokenKind::Star => Some(Operator::Multiply),
                _ => None,
            }
        } else {
            None
        },
    }
}

/// The expression `left op right` on `level`: logical on the first two
/// levels, binary on the others.
pub open spec fn combine(level: int, left: ExprView, op: PosedOperator, right: ExprView) -> ExprView {
    if level <= 2 {
        ExprView::Logical { left: Box::new(left), op, right: Box::new(right) }
    } else {
        ExprView::Binary { left: Box::new(left), op, right: Box::new(right) }
    }
}

/// The operator that `token` stands for before its operand, if any.
pub open spec fn prefix_operator(token: Option<TokenView>) -> Option<Operator> {
    match token {
        None => None,
        Some(t) => match t.tag.kind {
            TokenKind::Bang => Some(Operator::Not),
            TokenKind::Minus => Some(Operator::Minus),
            _ => None,
        },
    }
}

/// `expression → assignment`
pub open spec fn expression(s: ParserView) -> (Option<ExprView>, ParserView)
    decreases s.remaining(), 101int,
{
    assignment(s)
}

/// `assignment → ( call "." )? IDENT "=" assignment | logic_or`
///
/// The left side is parsed as an expression. Behind `=` and the value, a
/// variable becomes an assignment and a property a property assignment.
/// Anything else is reported at the `=`, and stands for the whole.
pub open spec fn assignment(s: ParserView) -> (Option<ExprView>, ParserView)
    decreases s.remaining(), 100int,
{
    let (left, s1) = binary(s, 1);
    match left {
        None => (None, s1),
        Some(target) => {
            let s1 = s.onward(s1);
            if s1.check_kind(TokenKind::Eq) {
                let equal = s1.peek()->0;
                let (value, s2) = assignment(s1.advance());
                match value {
                    None => (None, s2),
                    Some(v) => match target {
                        ExprView::Var { name } => (
                            Some(ExprView::Assign { name, val: Box::new(v) }),
                            s2,
                        ),
                        ExprView::Get { obj, name } => (
                            Some(ExprView::SetProp { obj, name, val: Box::new(v) }),
                            s2,
                        ),
                        _ => (
                            Some(target),
                            s2.fail(
                                DiagnosticView {
                                    line: equal.tag.line,
                                    lexeme: Some(equal.val),
                                    message: "Invalid assignment target."@,
                                },
                            ),
                        ),
                    },
                }
            } else {
                (Some(target), s1)
            }
        },
    }
}

/// The operand of a binary operator of the level below `level`.
pub open spec fn operand(s: ParserView, level: int) -> (Option<ExprView>, ParserView)
    decreases s.remaining(), 100 - 2 * level + 1,
{
    if !(2 <= level <= 7) {
        (None, s)
    } else if level <= 6 {
        binary(s, level)
    } else {
        unary(s)
    }
}

/// The operators of one level, from the left: an operand, then operators of
/// this level with an operand each.
pub open spec fn binary(s: ParserView, level: int) -> (Option<ExprView>, ParserView)
    decreases s.remaining(), 100 - 2 * level,
{
    if !binary_level(level) {
        (None, s)
    } else {
        let (left, s1) = operand(s, level + 1);
        match left {
            None => (None, s1),
            Some(l) => binary_rest(s.onward(s1), l, level),
        }
    }
}

/// What follows the operand `left` on `level`.
pub open spec fn binary_rest(s: ParserView, left: ExprView, level: int) -> (
    Option<ExprView>,
    ParserView,
)
    decreases s.remaining(), 100 - 2 * level - 1,
{
    if !binary_level(level) {
        (None, s)
    } else {
        match level_operator(s.peek(), level) {
            None => (Some(left), s),
            Some(op) => {
                let s1 = s.advance();
                let (right, s2) = operand(s1, level + 1);
                match right {
                    None => (None, s2),
                    Some(r) => binary_rest(
                        s1.onward(s2),
                        combine(level, left, PosedOperator(op, s1.line), r),
                        level,
                    ),
                }
            },
        }
    }
}

/// `unary → ( "!" | "-" ) unary | call`
pub open spec fn unary(s: ParserView) -> (Option<ExprView>, ParserView)
    decreases s.remaining(), 80int,
{
    match prefix_operator(s.peek()) {
        Some(op) => {
            let s1 = s.advance();
            let (right, s2) = unary(s1);
            match right {
                None => (None, s2),
                Some(r) => (
                    Some(ExprView::Unary { op: PosedOperator(op, s1.line), right: Box::new(r) }),
                    s2,
                ),
            }
        },
        None => call(s),
    }
}

/// `call → primary ( "(" arguments? ")" | "." IDENT )*`
pub open spec fn call(s: ParserView) -> (Option<ExprView>, ParserView)
    decreases s.remaining(), 75int,
{
    let (callee, s1) = primary(s);
    match callee {
        None => (None, s1),
        Some(c) => call_rest(s.onward(s1), c),
    }
}

/// The calls and property accesses behind `callee`.
pub open spec fn call_rest(s: ParserView, callee: ExprView) -> (Option<ExprView>, ParserView)
    decreases s.remaining(), 70int,
{
    if s.check_kind(TokenKind::OpenParen) {
        let s1 = s.advance();
        let (called, s2) = finish_call(s1, callee);
        match called {
            None => (None, s2),
            Some(c) => call_rest(s1.onward(s2), c),
        }
    } else if s.check_kind(TokenKind::Dot) {
        let s1 = s.advance();
        let (name, s2) = s1.consume_name("Expect property name after '.'."@);
        match name {
            None => (None, s2),
            Some(n) => call_rest(s1.onward(s2), ExprView::Get { obj: Box::new(callee), name: n }),
        }
    } else {
        (Some(callee), s)
    }
}

/// The arguments of a call and its `)`, behind the `(`.
pub open spec fn finish_call(s: ParserView, callee: ExprView) -> (Option<ExprView>, ParserView)
    decreases s.remaining(), 110int,
{
    let (args, s1) = if s.check_kind(TokenKind::CloseParen) {
        (Some(Seq::<ExprView>::empty()), s)
    } else {
        arguments(s, Seq::empty())
    };
    match args {
        None => (None, s1),
        Some(a) => {
            let (closed, s2) = s1.consume_by_kind(
                TokenKind::CloseParen,
                "Expect ')' after arguments."@,
            );
            if closed {
                (Some(ExprView::Call { callee: Box::new(callee), args: a }), s2)
            } else {
                (None, s2)
            }
        },
    }
}

/// `arguments → expression ( "," expression )*`, behind the arguments
/// `args`. One argument more than `MAX_ARGS` is an error, on the line of that
/// argument.
pub open spec fn arguments(s: ParserView, args: Seq<ExprView>) -> (
    Option<Seq<ExprView>>,
    ParserView,
)
    decreases s.remaining(), 105int,
{
    if args.len() >= MAX_ARGS {
        (None, s.fail(s.excess("Cannot have more than 255 arguments."@)))
    } else {
        let (arg, s1) = expression(s);
        match arg {
            None => (None, s1),
            Some(a) => {
                let s1 = s.onward(s1);
                if s1.check_kind(TokenKind::Comma) {
                    arguments(s1.advance(), args.push(a))
                } else {
                    (Some(args.push(a)), s1)
                }
            },
        }
    }
}

/// The literal `value`, read on the line of `s`.
pub open spec fn literal(s: ParserView, value: LiteralView) -> ExprView {
    ExprView::Literal { val: (value, s.line) }
}

/// ```text
/// primary → "true" | "false" | "nil" | "this"
///         | NUMBER | STRING | IDENT
///         | "(" expression ")"
///         | "super" "." IDENT
/// ```
pub open spec fn primary(s: ParserView) -> (Option<ExprView>, ParserView)
    decreases s.remaining(), 60int,
{
    let s1 = s.advance();
    if s.check_token(keyword("true"@)) {
        (Some(literal(s1, LiteralView::Bool(true))), s1)
    } else if s.check_token(keyword("false"@)) {
        (Some(literal(s1, LiteralView::Bool(false))), s1)
    } else if s.check_token(keyword("nil"@)) {
        (Some(literal(s1, LiteralView::Nil)), s1)
    } else if s.check_kind(TokenKind::Literal { kind: LiteralKind::Number }) {
        (Some(literal(s1, LiteralView::Number(s.peek()->0.val))), s1)
    } else if s.check_kind(TokenKind::Literal { kind: LiteralKind::Str }) {
        (Some(literal(s1, LiteralView::String(unquoted(s.peek()->0.val)))), s1)
    } else if s.check_token(keyword("this"@)) {
        (Some(ExprView::This { keyword: (s.peek()->0.val, s1.line) }), s1)
    } else if s.check_token(keyword("super"@)) {
        let (dot, s2) = s1.consume_by_kind(TokenKind::Dot, "Expect '.' after 'super'."@);
        if dot {
            let (method, s3) = s2.consume_name("Expect superclass method name."@);
            match method {
                None => (None, s3),
                Some(m) => (
                    Some(ExprView::Super { keyword: (s.peek()->0.val, s1.line), method: m }),
                    s3,
                ),
            }
        } else {
            (None, s2)
        }
    } else if s.check_name() {
        (Some(ExprView::Var { name: (s.peek()->0.val, s1.line) }), s1)
    } else if s.check_kind(TokenKind::OpenParen) {
        let (inner, s2) = expression(s1);
        match inner {
            None => (None, s2),
            Some(e) => {
                let (closed, s3) = s1.onward(s2).consume_by_kind(
                    TokenKind::CloseParen,
                    "Expect ')' after expression."@,
                );
                if closed {
                    (Some(ExprView::Grouping { expr: Box::new(e) }), s3)
                } else {
                    (None, s3)
                }
            },
        }
    } else {
        (None, s.fail(s.unexpected("Expect expression."@)))
    }
}

/// `state` is a later state than `s`, with at least one token more taken.
pub open spec fn progressed(s: ParserView, state: ParserView) -> bool {
    s.precedes(state) && s.pos < state.pos
}

/// ```text
/// declaration → classDecl | funDecl | varDecl | statement
/// funDecl     → "fun" function
/// ```
///
/// Where the declaration fails, the parser skips to the next statement.
pub open spec fn declaration(s: ParserView) -> (Option<StmtView>, ParserView)
    decreases s.remaining(), 150int,
{
    let (decl, s1) = if s.check_token(keyword("class"@)) {
        class_decl(s.advance())
    } else if s.check_token(keyword("fun"@)) {
        let (f, s1) = function(s.advance());
        (
            match f {
                Some(decl) => Some(StmtView::Function { decl }),
                None => None,
            },
            s1,
        )
    } else if s.check_token(keyword("var"@)) {
        var_decl(s.advance())
    } else {
        statement(s)
    };
    match decl {
        Some(d) => (Some(d), s1),
        None => (None, s1.synchronize()),
    }
}

/// `classDecl → "class" IDENT ( "<" IDENT )? "{" function* "}"`, behind
/// `class`.
pub open spec fn class_decl(s: ParserView) -> (Option<StmtView>, ParserView)
    decreases s.remaining(), 130int,
{
    let (name, s1) = s.consume_name("Expect class name."@);
    match name {
        None => (None, s1),
        Some(n) => {
            let (superclass, s2) = if s1.check_kind(TokenKind::Lt) {
                s1.advance().consume_name("Expect superclass name."@)
            } else {
                (None, s1)
            };
            if s1.check_kind(TokenKind::Lt) && superclass is None {
                (None, s2)
            } else {
                let (open, s3) = s2.consume_by_kind(
                    TokenKind::OpenBrace,
                    "Expect '{' before class body."@,
                );
                if !open {
                    (None, s3)
                } else {
                    let (methods, s4) = class_methods(s3, Seq::empty());
                    match methods {
                        None => (None, s4),
                        Some(m) => {
                            let (close, s5) = s4.consume_by_kind(
                                TokenKind::CloseBrace,
                                "Expect '}' after class body."@,
                            );
                            if close {
                                (Some(StmtView::Class { name: n, superclass, methods: m }), s5)
                            } else {
                                (None, s5)
                            }
                        },
                    }
                }
            }
        },
    }
}

/// The methods of a class, behind the methods `methods`.
pub open spec fn class_methods(s: ParserView, methods: Seq<FunctionView>) -> (
    Option<Seq<FunctionView>>,
    ParserView,
)
    decreases s.remaining(), 128int,
{
    if s.check_kind(TokenKind::CloseBrace) || s.at_end() {
        (Some(methods), s)
    } else {
        let (method, s1) = function(s);
        match method {
            None => (None, s1),
            Some(m) => if progressed(s, s1) {
                class_methods(s1, methods.push(m))
            } else {
                (None, s1)
            },
        }
    }
}

/// `function → IDENT "(" parameters? ")" block`
pub open spec fn function(s: ParserView) -> (Option<FunctionView>, ParserView)
    decreases s.remaining(), 125int,
{
    let (name, s1) = s.consume_name("Expect function name."@);
    match name {
        None => (None, s1),
        Some(n) => {
            let (open, s2) = s1.consume_by_kind(
                TokenKind::OpenParen,
                "Expect '(' after function name."@,
            );
            if !open {
                (None, s2)
            } else {
                let (params, s3) = if s2.check_kind(TokenKind::CloseParen) {
                    (Some(Seq::<(Seq<char>, usize)>::empty()), s2)
                } else {
                    parameters(s2, Seq::empty())
                };
                match params {
                    None => (None, s3),
                    Some(p) => {
                        let (close, s4) = s3.consume_by_kind(
                            TokenKind::CloseParen,
                            "Expect ')' after parameters."@,
                        );
                        if !close {
                            (None, s4)
                        } else {
                            let (brace, s5) = s4.consume_by_kind(
                                TokenKind::OpenBrace,
                                "Expect '{' before function body."@,
                            );
                            if !brace || !progressed(s, s5) {
                                (None, s5)
                            } else {
                                let (body, s6) = block(s5);
                                match body {
                                    None => (None, s6),
                                    Some(b) => (
                                        Some(FunctionView { name: n, params: p, body: b }),
                                        s6,
                                    ),
                                }
                            }
                        }
                    },
                }
            }
        },
    }
}

/// `parameters → IDENT ( "," IDENT )*`, behind the parameters `names`.
pub open spec fn parameters(s: ParserView, names: Seq<(Seq<char>, usize)>) -> (
    Option<Seq<(Seq<char>, usize)>>,
    ParserView,
)
    decreases s.remaining(),
{
    let (name, s1) = s.consume_name("Expect parameter name."@);
    match name {
        None => (None, s1),
        Some(n) => if s1.check_kind(TokenKind::Comma) {
            parameters(s1.advance(), names.push(n))
        } else {
            (Some(names.push(n)), s1)
        },
    }
}

/// `varDecl → "var" IDENT ( "=" expression )? ";"`, behind `var`.
pub open spec fn var_decl(s: ParserView) -> (Option<StmtView>, ParserView)
    decreases s.remaining(), 130int,
{
    let (name, s1) = s.consume_name("Expect variable name"@);
    match name {
        None => (None, s1),
        Some(n) => {
            let (initializer, s2) = if s1.check_kind(TokenKind::Eq) {
                expression(s1.advance())
            } else {
                (None, s1)
            };
            if s1.check_kind(TokenKind::Eq) && initializer is None {
                (None, s2)
            } else {
                let (_semi, s3) = s2.consume_by_kind(
                    TokenKind::Semi,
                    "Expect ';' after variable declaration."@,
                );
                (Some(StmtView::Variable { name: n, initializer }), s3)
            }
        },
    }
}

/// ```text
/// statement → exprStmt | forStmt | ifStmt | printStmt
///           | returnStmt | whileStmt | block
/// ```
pub open spec fn statement(s: ParserView) -> (Option<StmtView>, ParserView)
    decreases s.remaining(), 140int,
{
    if s.check_token(keyword("if"@)) {
        if_stmt(s.advance())
    } else if s.check_token(keyword("for"@)) {
        for_stmt(s.advance())
    } else if s.check_token(keyword("print"@)) {
        print_stmt(s.advance())
    } else if s.check_token(keyword("return"@)) {
        return_stmt(s.advance(), (s.peek()->0.val, s.advance().line))
    } else if s.check_token(keyword("while"@)) {
        while_stmt(s.advance())
    } else if s.check_kind(TokenKind::OpenBrace) {
        let (stmts, s1) = block(s.advance());
        (
            match stmts {
                Some(stmts) => Some(StmtView::Block { stmts }),
                None => None,
            },
            s1,
        )
    } else {
        expr_stmt(s)
    }
}

/// The statement that a `for` loop stands for: the loop as a `while`, with
/// the increment behind the body and the initializer before the loop.
pub open spec fn lowered_for(
    initializer: Option<StmtView>,
    cond: Option<ExprView>,
    increment: Option<ExprView>,
    body: StmtView,
    line: usize,
) -> StmtView {
    let stepped = match increment {
        Some(i) => StmtView::Block {
            stmts: Seq::empty().push(body).push(StmtView::Expression { expr: i }),
        },
        None => body,
    };
    let looped = StmtView::While {
        cond: match cond {
            Some(c) => c,
            None => ExprView::Literal { val: (LiteralView::Bool(true), line) },
        },
        body: Box::new(stepped),
    };
    match initializer {
        Some(i) => StmtView::Block { stmts: Seq::empty().push(i).push(looped) },
        None => looped,
    }
}

/// An expression, unless the next token is of kind `closer`. The flag says
/// whether this went well.
pub open spec fn optional_expression(s: ParserView, closer: TokenKind) -> (
    bool,
    Option<ExprView>,
    ParserView,
)
    decreases s.remaining(), 102int,
{
    if s.check_kind(closer) {
        (true, None, s)
    } else {
        let (expr, s1) = expression(s);
        (expr is Some, expr, s.onward(s1))
    }
}

/// The first clause of a `for` loop: `varDecl | exprStmt | ";"`. The flag
/// says whether the loop can still be parsed: it can behind a variable
/// declaration that failed.
pub open spec fn for_initializer(s: ParserView) -> (bool, Option<StmtView>, ParserView)
    decreases s.remaining(), 137int,
{
    if s.check_token(keyword("var"@)) {
        let (decl, s1) = var_decl(s.advance());
        (true, decl, s.onward(s1))
    } else if s.check_kind(TokenKind::Semi) {
        (true, None, s.advance())
    } else {
        let (stmt, s1) = expr_stmt(s);
        (stmt is Some, stmt, s.onward(s1))
    }
}

/// ```text
/// forStmt → "for" "(" ( varDecl | exprStmt | ";" )
///                      expression? ";" expression? ")" statement
/// ```
/// behind `for`.
pub open spec fn for_stmt(s: ParserView) -> (Option<StmtView>, ParserView)
    decreases s.remaining(), 130int,
{
    let (open, s1) = s.consume_by_kind(TokenKind::OpenParen, "Expect '(' after 'for'."@);
    if !open {
        (None, s1)
    } else {
        let (ok, initializer, s2) = for_initializer(s1);
        if !ok {
            (None, s2)
        } else {
            let (ok, cond, s3) = optional_expression(s2, TokenKind::Semi);
            if !ok {
                (None, s3)
            } else {
                let (_semi, s4) = s3.consume_by_kind(
                    TokenKind::Semi,
                    "Expect ';' after loop condition."@,
                );
                let (ok, increment, s5) = optional_expression(s4, TokenKind::CloseParen);
                if !ok {
                    (None, s5)
                } else {
                    let (_close, s6) = s5.consume_by_kind(
                        TokenKind::CloseParen,
                        "Expect ')' after for clauses."@,
                    );
                    let (body, s7) = statement(s6);
                    match body {
                        None => (None, s7),
                        Some(b) => (Some(lowered_for(initializer, cond, increment, b, s7.line)), s7),
                    }
                }
            }
        }
    }
}

/// `ifStmt → "if" "(" expression ")" statement ( "else" statement )?`, behind
/// `if`.
pub open spec fn if_stmt(s: ParserView) -> (Option<StmtView>, ParserView)
    decreases s.remaining(), 130int,
{
    let (open, s1) = s.consume_by_kind(TokenKind::OpenParen, "Expect '(' after 'if'."@);
    if !open {
        (None, s1)
    } else {
        let (cond, s2) = expression(s1);
        match cond {
            None => (None, s2),
            Some(c) => {
                let (_close, s3) = s1.onward(s2).consume_by_kind(
                    TokenKind::CloseParen,
                    "Expect ')' after if condition."@,
                );
                let (then_branch, s4) = statement(s3);
                match then_branch {
                    None => (None, s4),
                    Some(t) => {
                        let s4 = s3.onward(s4);
                        if s4.check_token(keyword("else"@)) {
                            let (else_branch, s5) = statement(s4.advance());
                            match else_branch {
                                None => (None, s5),
                                Some(e) => (
                                    Some(
                                        StmtView::If {
                                            cond: c,
                                            then_branch: Box::new(t),
                                            else_branch: Some(Box::new(e)),
                                        },
                                    ),
                                    s5,
                                ),
                            }
                        } else {
                            (
                                Some(
                                    StmtView::If {
                                        cond: c,
                                        then_branch: Box::new(t),
                                        else_branch: None,
                                    },
                                ),
                                s4,
                            )
                        }
                    },
                }
            },
        }
    }
}

/// `whileStmt → "while" "(" expression ")" statement`, behind `while`.
pub open spec fn while_stmt(s: ParserView) -> (Option<StmtView>, ParserView)
    decreases s.remaining(), 130int,
{
    let (open, s1) = s.consume_by_kind(TokenKind::OpenParen, "Expect '(' after 'while'."@);
    if !open {
        (None, s1)
    } else {
        let (cond, s2) = expression(s1);
        match cond {
            None => (None, s2),
            Some(c) => {
                let (_close, s3) = s1.onward(s2).consume_by_kind(
                    TokenKind::CloseParen,
                    "Expect ')' after while condition."@,
                );
                let (body, s4) = statement(s3);
                match body {
                    None => (None, s4),
                    Some(b) => (Some(StmtView::While { cond: c, body: Box::new(b) }), s4),
                }
            },
        }
    }
}

/// `block → "{" declaration* "}"`, behind the `{`. A block with a failed
/// declaration fails, at its end.
pub open spec fn block(s: ParserView) -> (Option<Seq<StmtView>>, ParserView)
    decreases s.remaining(), 210int,
{
    let (stmts, failed, s1) = block_items(s, Seq::empty(), false);
    let (_close, s2) = s1.consume_by_kind(TokenKind::CloseBrace, "Expect '}' after block."@);
    if failed {
        (None, s2)
    } else {
        (Some(stmts), s2)
    }
}

/// The declarations of a block up to its `}` or the end of the input, behind
/// the statements `stmts`; `failed` says whether a declaration has failed.
pub open spec fn block_items(s: ParserView, stmts: Seq<StmtView>, failed: bool) -> (
    Seq<StmtView>,
    bool,
    ParserView,
)
    decreases s.remaining(), 200int,
{
    if s.check_kind(TokenKind::CloseBrace) || s.at_end() {
        (stmts, failed, s)
    } else {
        let (decl, s1) = declaration(s);
        if !progressed(s, s1) {
            (stmts, failed, s1)
        } else {
            match decl {
                Some(d) => block_items(s1, stmts.push(d), failed),
                None => block_items(s1, stmts, true),
            }
        }
    }
}

/// `exprStmt → expression ";"`
pub open spec fn expr_stmt(s: ParserView) -> (Option<StmtView>, ParserView)
    decreases s.remaining(), 135int,
{
    let (expr, s1) = expression(s);
    match expr {
        None => (None, s1),
        Some(e) => {
            let (_semi, s2) = s1.consume_by_kind(
                TokenKind::Semi,
                "Expect ';' after expression."@,
            );
            (Some(StmtView::Expression { expr: e }), s2)
        },
    }
}

/// `printStmt → "print" expression ";"`, behind `print`.
pub open spec fn print_stmt(s: ParserView) -> (Option<StmtView>, ParserView)
    decreases s.remaining(), 130int,
{
    let (expr, s1) = expression(s);
    match expr {
        None => (None, s1),
        Some(e) => {
            let (_semi, s2) = s1.consume_by_kind(TokenKind::Semi, "Expect ';' after value."@);
            (Some(StmtView::Print { expr: e }), s2)
        },
    }
}

/// `returnStmt → "return" expression? ";"`, behind the `return` that is
/// `keyword`.
pub open spec fn return_stmt(s: ParserView, keyword: (Seq<char>, usize)) -> (
    Option<StmtView>,
    ParserView,
)
    decreases s.remaining(), 130int,
{
    let (ok, value, s1) = optional_expression(s, TokenKind::Semi);
    if !ok {
        (None, s1)
    } else {
        let (_semi, s2) = s1.consume_by_kind(TokenKind::Semi, "Expect ';' after return value."@);
        (Some(StmtView::Return { keyword, value }), s2)
    }
}

/// The declarations up to the end of the input, behind the statements
/// `stmts`. Failed declarations leave no statement.
pub open spec fn program_items(s: ParserView, stmts: Seq<StmtView>) -> (
    Seq<StmtView>,
    ParserView,
)
    decreases s.remaining(), 200int,
{
    if s.at_end() {
        (stmts, s)
    } else {
        let (decl, s1) = declaration(s);
        if !progressed(s, s1) {
            (stmts, s1)
        } else {
            match decl {
                Some(d) => program_items(s1, stmts.push(d)),
                None => program_items(s1, stmts),
            }
        }
    }
}

/// `program → declaration* EOF`
///
/// The statements of the program, or `None` where an error was found, now
/// or earlier.
pub open spec fn program(s: ParserView) -> (Option<Seq<StmtView>>, ParserView) {
    let (stmts, s1) = program_items(s, Seq::empty());
    if s1.had_error {
        (None, s1)
    } else {
        (Some(stmts), s1)
    }
}

} // verus!
