//! The productions for expressions.

use vstd::prelude::*;
use crate::ast::{
    exprs_view, lemma_exprs_view_push, optional_expr_view, Expr, LiteralValue,
    Operator, PosedLiteral, PosedOperator, STR,
};
use crate::grammar;
use crate::grammar::MAX_ARGS;
use crate::named::{unquote, Token};
use crate::parser::{Diagnostic, Parser};
use crate::token::{LiteralKind, TokenKind};

verus! {

impl Parser {
    /// Takes the next token, which the caller has seen, and returns its text
    /// and its line.
    fn take(&mut self) -> (r: STR)
        requires
            old(self)@.wf(),
            old(self)@.peek() is Some,
        ensures
            final(self)@ == old(self)@.advance(),
            r@ == (old(self)@.peek()->0.val, final(self)@.line),
    {
        match self.advance() {
            Some(t) => STR(t.val.clone(), t.tag.line),
            None => STR(String::new(), 0),
        }
    }

    /// Takes the next token if it is an operator of `level`.
    fn match_operator(&mut self, level: u8) -> (r: Option<PosedOperator>)
        requires
            old(self)@.wf(),
        ensures
            match grammar::level_operator(old(self)@.peek(), level as int) {
                Some(op) => r == Some(PosedOperator(op, final(self)@.line)) && final(self)@ == old(
                    self,
                )@.advance() && old(self)@.peek() is Some,
                None => r is None && final(self)@ == old(self)@,
            },
    {
        let found = if level == 1 {
            if self.check_token(&Token::or_tok()) {
                Some(Operator::Or)
            } else {
                None
            }
        } else if level == 2 {
            if self.check_token(&Token::and_tok()) {
                Some(Operator::And)
            } else {
                None
            }
        } else {
            match self.peek() {
                None => None,
                Some(t) => if level == 3 {
                    match t.tag.kind {
                        TokenKind::BangEq => Some(Operator::NotEqual),
                        TokenKind::EqEq => Some(Operator::Equal),
                        _ => None,
                    }
                } else if level == 4 {
                    match t.tag.kind {
                        TokenKind::Gt => Some(Operator::Greater),
                        TokenKind::GtEq => Some(Operator::GreaterEqual),
                        TokenKind::Lt => Some(Operator::Less),
                        TokenKind::LtEq => Some(Operator::LessEqual),
                        _ => None,
                    }
                } else if level == 5 {
                    match t.tag.kind {
                        TokenKind::Minus => Some(Operator::Minus),
                        TokenKind::Plus => Some(Operator::Plus),
                        _ => None,
                    }
                } else if level == 6 {
                    match t.tag.kind {
                        TokenKind::Slash => Some(Operator::Divide),
                        TokenKind::Star => Some(Operator::Multiply),
                        _ => None,
                    }
                } else {
                    None
                },
            }
        };
        match found {
            Some(op) => {
                self.advance();
                Some(PosedOperator(op, self.line()))
            },
            None => None,
        }
    }

    /// Takes the next token if it is `!` or `-`.
    fn match_prefix(&mut self) -> (r: Option<PosedOperator>)
        requires
            old(self)@.wf(),
        ensures
            match grammar::prefix_operator(old(self)@.peek()) {
                Some(op) => r == Some(PosedOperator(op, final(self)@.line)) && final(self)@ == old(
                    self,
                )@.advance() && old(self)@.peek() is Some,
                None => r is None && final(self)@ == old(self)@,
            },
    {
        let found = match self.peek() {
            None => None,
            Some(t) => match t.tag.kind {
                TokenKind::Bang => Some(Operator::Not),
                TokenKind::Minus => Some(Operator::Minus),
                _ => None,
            },
        };
        match found {
            Some(op) => {
                self.advance();
                Some(PosedOperator(op, self.line()))
            },
            None => None,
        }
    }

    /// `expression → assignment`
    pub(crate) fn expression(&mut self) -> (r: Option<Expr>)
        requires
            old(self)@.wf(),
        ensures
            (optional_expr_view(r), final(self)@) == grammar::expression(old(self)@),
            old(self)@.precedes(final(self)@),
            r is Some ==> old(self)@.pos < final(self)@.pos,
        decreases old(self)@.remaining(), 101int,
    {
        self.assignment()
    }

    /// `assignment → ( call "." )? IDENT "=" assignment | logic_or`
    fn assignment(&mut self) -> (r: Option<Expr>)
        requires
            old(self)@.wf(),
        ensures
            (optional_expr_view(r), final(self)@) == grammar::assignment(old(self)@),
            old(self)@.precedes(final(self)@),
            r is Some ==> old(self)@.pos < final(self)@.pos,
        decreases old(self)@.remaining(), 100int,
    {
        let expr = match self.binary(1) {
            Some(e) => e,
            None => {
                return None;
            },
        };
        if self.check_kind(TokenKind::Eq) {
            let equal = self.take();
            let val = match self.assignment() {
                Some(v) => v,
                None => {
                    return None;
                },
            };
            match expr {
                Expr::Var { name } => {
                    return Some(Expr::Assign { name, val: Box::new(val) });
                },
                Expr::Get { obj, name } => {
                    return Some(Expr::SetProp { obj, name, val: Box::new(val) });
                },
                other => {
                    self.fail(
                        Diagnostic {
                            line: equal.1,
                            lexeme: Some(equal.0),
                            message: "Invalid assignment target.".to_owned(),
                        },
                    );
                    return Some(other);
                },
            }
        }
        Some(expr)
    }

    /// The operand of a binary operator of the level below `level`.
    fn operand(&mut self, level: u8) -> (r: Option<Expr>)
        requires
            old(self)@.wf(),
            2 <= level <= 7,
        ensures
            (optional_expr_view(r), final(self)@) == grammar::operand(old(self)@, level as int),
            old(self)@.precedes(final(self)@),
            r is Some ==> old(self)@.pos < final(self)@.pos,
        decreases old(self)@.remaining(), 100 - 2 * level + 1,
    {
        if level <= 6 {
            self.binary(level)
        } else {
            self.unary()
        }
    }

    /// The operators of one level, from the left.
    ///
    /// ```text
    /// logic_or    → logic_and ( "or"  logic_and )*
    /// logic_and   → equality  ( "and" equality  )*
    /// equality    → comparison ( ( "!=" | "==" ) comparison )*
    /// comparison  → term ( ( ">" | ">=" | "<" | "<=" ) term )*
    /// term        → factor ( ( "-" | "+" ) factor )*
    /// factor      → unary ( ( "/" | "*" ) unary )*
    /// ```
    fn binary(&mut self, level: u8) -> (r: Option<Expr>)
        requires
            old(self)@.wf(),
            1 <= level <= 6,
        ensures
            (optional_expr_view(r), final(self)@) == grammar::binary(old(self)@, level as int),
            old(self)@.precedes(final(self)@),
            r is Some ==> old(self)@.pos < final(self)@.pos,
        decreases old(self)@.remaining(), 100 - 2 * level,
    {
        let mut expr = match self.operand(level + 1) {
            Some(e) => e,
            None => {
                return None;
            },
        };
        let ghost mut before = self@;
        let mut op = self.match_operator(level);
        while op.is_some()
            invariant
                1 <= level <= 6,
                self@.wf(),
                before.wf(),
                old(self)@.precedes(before),
                old(self)@.pos < before.pos,
                before.precedes(self@),
                grammar::binary_rest(before, expr@, level as int) == grammar::binary(
                    old(self)@,
                    level as int,
                ),
                match grammar::level_operator(before.peek(), level as int) {
                    Some(o) => op == Some(PosedOperator(o, self@.line)) && self@
                        == before.advance() && before.peek() is Some,
                    None => op is None && self@ == before,
                },
            decreases self@.remaining(),
        {
            let right = match self.operand(level + 1) {
                Some(e) => e,
                None => {
                    return None;
                },
            };
            let posed = match op {
                Some(o) => o,
                None => PosedOperator(Operator::Plus, 0),
            };
            expr = if level <= 2 {
                Expr::Logical { left: Box::new(expr), op: posed, right: Box::new(right) }
            } else {
                Expr::Binary { left: Box::new(expr), op: posed, right: Box::new(right) }
            };
            proof {
                before = self@;
            }
            op = self.match_operator(level);
        }
        Some(expr)
    }

    /// `unary → ( "!" | "-" ) unary | call`
    fn unary(&mut self) -> (r: Option<Expr>)
        requires
            old(self)@.wf(),
        ensures
            (optional_expr_view(r), final(self)@) == grammar::unary(old(self)@),
            old(self)@.precedes(final(self)@),
            r is Some ==> old(self)@.pos < final(self)@.pos,
        decreases old(self)@.remaining(), 80int,
    {
        match self.match_prefix() {
            Some(op) => {
                let right = match self.unary() {
                    Some(e) => e,
                    None => {
                        return None;
                    },
                };
                Some(Expr::Unary { op, right: Box::new(right) })
            },
            None => self.call(),
        }
    }

    /// `call → primary ( "(" arguments? ")" | "." IDENT )*`
    fn call(&mut self) -> (r: Option<Expr>)
        requires
            old(self)@.wf(),
        ensures
            (optional_expr_view(r), final(self)@) == grammar::call(old(self)@),
            old(self)@.precedes(final(self)@),
            r is Some ==> old(self)@.pos < final(self)@.pos,
        decreases old(self)@.remaining(), 75int,
    {
        let mut expr = match self.primary() {
            Some(e) => e,
            None => {
                return None;
            },
        };
        loop
            invariant
                self@.wf(),
                old(self)@.precedes(self@),
                old(self)@.pos < self@.pos,
                grammar::call_rest(self@, expr@) == grammar::call(old(self)@),
            decreases self@.remaining(),
        {
            if self.match_kind(TokenKind::OpenParen) {
                expr = match self.finish_call(expr) {
                    Some(e) => e,
                    None => {
                        return None;
                    },
                };
            } else if self.match_kind(TokenKind::Dot) {
                let name = match self.consume_name("Expect property name after '.'.") {
                    Some(n) => n,
                    None => {
                        return None;
                    },
                };
                expr = Expr::Get { obj: Box::new(expr), name };
            } else {
                return Some(expr);
            }
        }
    }

    /// The arguments of a call and its `)`, behind the `(`.
    fn finish_call(&mut self, callee: Expr) -> (r: Option<Expr>)
        requires
            old(self)@.wf(),
        ensures
            (optional_expr_view(r), final(self)@) == grammar::finish_call(old(self)@, callee@),
            old(self)@.precedes(final(self)@),
        decreases old(self)@.remaining(), 110int,
    {
        let args = if self.check_kind(TokenKind::CloseParen) {
            let none: Vec<Expr> = Vec::new();
            assert(exprs_view(none@) =~= Seq::empty());
            none
        } else {
            match self.arguments() {
                Some(a) => a,
                None => {
                    return None;
                },
            }
        };
        if !self.consume_by_kind(TokenKind::CloseParen, "Expect ')' after arguments.") {
            return None;
        }
        Some(Expr::Call { callee: Box::new(callee), args })
    }

    /// `arguments → expression ( "," expression )*`
    fn arguments(&mut self) -> (r: Option<Vec<Expr>>)
        requires
            old(self)@.wf(),
        ensures
            final(self)@ == grammar::arguments(old(self)@, Seq::empty()).1,
            match grammar::arguments(old(self)@, Seq::empty()).0 {
                Some(a) => r is Some && exprs_view(r->0@) == a,
                None => r is None,
            },
            old(self)@.precedes(final(self)@),
        decreases old(self)@.remaining(), 105int,
    {
        let mut args: Vec<Expr> = Vec::new();
        loop
            invariant
                self@.wf(),
                old(self)@.precedes(self@),
                grammar::arguments(self@, exprs_view(args@)) == grammar::arguments(
                    old(self)@,
                    Seq::empty(),
                ),
                exprs_view(args@).len() == args.len(),
            decreases self@.remaining(),
        {
            if args.len() >= MAX_ARGS {
                self.report_excess("Cannot have more than 255 arguments.");
                return None;
            }
            let arg = match self.expression() {
                Some(a) => a,
                None => {
                    return None;
                },
            };
            proof {
                lemma_exprs_view_push(args@, arg);
            }
            args.push(arg);
            if !self.match_kind(TokenKind::Comma) {
                return Some(args);
            }
        }
    }

    /// ```text
    /// primary → "true" | "false" | "nil" | "this"
    ///         | NUMBER | STRING | IDENT
    ///         | "(" expression ")"
    ///         | "super" "." IDENT
    /// ```
    fn primary(&mut self) -> (r: Option<Expr>)
        requires
            old(self)@.wf(),
        ensures
            (optional_expr_view(r), final(self)@) == grammar::primary(old(self)@),
            old(self)@.precedes(final(self)@),
            r is Some ==> old(self)@.pos < final(self)@.pos,
        decreases old(self)@.remaining(), 60int,
    {
        if self.match_token(&Token::true_tok()) {
            return Some(
                Expr::Literal { val: PosedLiteral(LiteralValue::Bool(true), self.line()) },
            );
        }
        if self.match_token(&Token::false_tok()) {
            return Some(
                Expr::Literal { val: PosedLiteral(LiteralValue::Bool(false), self.line()) },
            );
        }
        if self.match_token(&Token::nil_tok()) {
            return Some(Expr::Literal { val: PosedLiteral(LiteralValue::Nil, self.line()) });
        }
        if self.check_kind(TokenKind::Literal { kind: LiteralKind::Number }) {
            let num = self.take();
            return Some(Expr::Literal { val: PosedLiteral(LiteralValue::Number(num.0), num.1) });
        }
        if self.check_kind(TokenKind::Literal { kind: LiteralKind::Str }) {
            // This holds `"` at the start and at the end.
            let string = self.take();
            return Some(
                Expr::Literal {
                    val: PosedLiteral(LiteralValue::String(unquote(string.0.as_str())), string.1),
                },
            );
        }
        if self.check_token(&Token::this_tok()) {
            let keyword = self.take();
            return Some(Expr::This { keyword });
        }
        if self.check_token(&Token::super_tok()) {
            let keyword = self.take();
            if !self.consume_by_kind(TokenKind::Dot, "Expect '.' after 'super'.") {
                return None;
            }
            let method = match self.consume_name("Expect superclass method name.") {
                Some(m) => m,
                None => {
                    return None;
                },
            };
            return Some(Expr::Super { keyword, method });
        }
        if self.check_name() {
            let name = self.take();
            return Some(Expr::Var { name });
        }
        if self.match_kind(TokenKind::OpenParen) {
            let expr = match self.expression() {
                Some(e) => e,
                None => {
                    return None;
                },
            };
            if !self.consume_by_kind(TokenKind::CloseParen, "Expect ')' after expression.") {
                return None;
            }
            return Some(Expr::Grouping { expr: Box::new(expr) });
        }
        self.report_token("Expect expression.");
        None
    }
}

} // verus!
