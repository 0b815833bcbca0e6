//! The productions for statements and declarations, and the parser's entry.

use vstd::prelude::*;
use crate::ast::{
    functions_view, lemma_functions_view_push, lemma_stmts_view_push, names_view,
    optional_expr_view, stmts_view, Expr, FunctionDecl, LiteralValue, PosedLiteral, Stmt, StmtView,
    STR,
};
use crate::grammar;
use crate::named::{meaningful, meaningful_tokens, named_of, named_tokens_of, Token};
use crate::parser::{Parser, ParserView};
use crate::token::TokenKind;
use crate::unicode::utf8_size;

verus! {

/// The view of a statement that may be missing.
pub open spec fn optional_stmt_view(stmt: Option<Stmt>) -> Option<StmtView> {
    match stmt {
        Some(s) => Some(s@),
        None => None,
    }
}

/// The views of statements that may be missing.
pub open spec fn optional_stmts_view(stmts: Option<Vec<Stmt>>) -> Option<Seq<StmtView>> {
    match stmts {
        Some(s) => Some(stmts_view(s@)),
        None => None,
    }
}

/// The block of the two statements `first` and `second`.
fn pair(first: Stmt, second: Stmt) -> (r: Stmt)
    ensures
        r@ == (StmtView::Block { stmts: Seq::empty().push(first@).push(second@) }),
{
    let mut stmts: Vec<Stmt> = Vec::new();
    proof {
        lemma_stmts_view_push(stmts@, first);
        lemma_stmts_view_push(stmts@.push(first), second);
        assert(stmts_view(stmts@) =~= Seq::empty());
    }
    stmts.push(first);
    stmts.push(second);
    Stmt::Block { stmts }
}

/// The statement that a `for` loop stands for.
fn lower_for(
    initializer: Option<Stmt>,
    cond: Option<Expr>,
    increment: Option<Expr>,
    body: Stmt,
    line: usize,
) -> (r: Stmt)
    ensures
        r@ == grammar::lowered_for(
            optional_stmt_view(initializer),
            optional_expr_view(cond),
            optional_expr_view(increment),
            body@,
            line,
        ),
{
    // The increment runs behind the body.
    let stepped = match increment {
        Some(increment) => pair(body, Stmt::Expression { expr: increment }),
        None => body,
    };
    // Without a condition the loop never ends by itself.
    let cond = match cond {
        Some(c) => c,
        None => Expr::Literal { val: PosedLiteral(LiteralValue::Bool(true), line) },
    };
    let looped = Stmt::While { cond, body: Box::new(stepped) };
    // The initializer runs once, before the loop.
    match initializer {
        Some(initializer) => pair(initializer, looped),
        None => looped,
    }
}

/// A parser for `src`, before its first token.
///
/// The parser gets the tokens of `src` without comments, blanks, line ends
/// and the end marker.
pub fn new_parser_from_src_str(src: &str) -> (r: Parser)
    requires
        utf8_size(src@) < usize::MAX,
    ensures
        r@ == (ParserView {
            tokens: meaningful(named_of(src@)),
            pos: 0,
            line: 1,
            had_error: false,
            reports: Seq::empty(),
        }),
        r@.wf(),
{
    let tokens = named_tokens_of(src);
    Parser::new(meaningful_tokens(&tokens))
}

impl Parser {
    /// ```text
    /// declaration → classDecl | funDecl | varDecl | statement
    /// funDecl     → "fun" function
    /// ```
    pub(crate) fn declaration(&mut self) -> (r: Option<Stmt>)
        requires
            old(self)@.wf(),
        ensures
            (optional_stmt_view(r), final(self)@) == grammar::declaration(old(self)@),
            old(self)@.precedes(final(self)@),
            old(self)@.pos < old(self)@.tokens.len() ==> old(self)@.pos < final(self)@.pos,
        decreases old(self)@.remaining(), 150int,
    {
        let decl = if self.match_token(&Token::class_tok()) {
            self.class_decl()
        } else if self.match_token(&Token::fun_tok()) {
            match self.function() {
                Some(decl) => Some(Stmt::Function { decl }),
                None => None,
            }
        } else if self.match_token(&Token::var_tok()) {
            self.var_decl()
        } else {
            self.statement()
        };
        if decl.is_none() {
            self.synchronize();
            return None;
        }
        decl
    }

    /// `classDecl → "class" IDENT ( "<" IDENT )? "{" function* "}"`
    fn class_decl(&mut self) -> (r: Option<Stmt>)
        requires
            old(self)@.wf(),
        ensures
            (optional_stmt_view(r), final(self)@) == grammar::class_decl(old(self)@),
            old(self)@.precedes(final(self)@),
        decreases old(self)@.remaining(), 130int,
    {
        let name = match self.consume_name("Expect class name.") {
            Some(n) => n,
            None => {
                return None;
            },
        };
        let superclass = if self.match_kind(TokenKind::Lt) {
            match self.consume_name("Expect superclass name.") {
                Some(n) => Some(n),
                None => {
                    return None;
                },
            }
        } else {
            None
        };
        if !self.consume_by_kind(TokenKind::OpenBrace, "Expect '{' before class body.") {
            return None;
        }
        let methods = match self.class_methods() {
            Some(m) => m,
            None => {
                return None;
            },
        };
        if !self.consume_by_kind(TokenKind::CloseBrace, "Expect '}' after class body.") {
            return None;
        }
        Some(Stmt::Class { name, superclass, methods })
    }

    /// The methods of a class, up to its `}` or the end of the input.
    fn class_methods(&mut self) -> (r: Option<Vec<FunctionDecl>>)
        requires
            old(self)@.wf(),
        ensures
            final(self)@ == grammar::class_methods(old(self)@, Seq::empty()).1,
            match grammar::class_methods(old(self)@, Seq::empty()).0 {
                Some(m) => r is Some && functions_view(r->0@) == m,
                None => r is None,
            },
            old(self)@.precedes(final(self)@),
        decreases old(self)@.remaining(), 128int,
    {
        let mut methods: Vec<FunctionDecl> = Vec::new();
        assert(functions_view(methods@) =~= Seq::empty());
        while !self.check_kind(TokenKind::CloseBrace) && !self.is_at_end()
            invariant
                self@.wf(),
                old(self)@.precedes(self@),
                grammar::class_methods(self@, functions_view(methods@)) == grammar::class_methods(
                    old(self)@,
                    Seq::empty(),
                ),
            decreases self@.remaining(),
        {
            let method = match self.function() {
                Some(m) => m,
                None => {
                    return None;
                },
            };
            proof {
                lemma_functions_view_push(methods@, method);
            }
            methods.push(method);
        }
        Some(methods)
    }

    /// `function → IDENT "(" parameters? ")" block`
    fn function(&mut self) -> (r: Option<FunctionDecl>)
        requires
            old(self)@.wf(),
        ensures
            final(self)@ == grammar::function(old(self)@).1,
            match grammar::function(old(self)@).0 {
                Some(f) => r is Some && r->0@ == f,
                None => r is None,
            },
            old(self)@.precedes(final(self)@),
            r is Some ==> old(self)@.pos < final(self)@.pos,
        decreases old(self)@.remaining(), 125int,
    {
        let name = match self.consume_name("Expect function name.") {
            Some(n) => n,
            None => {
                return None;
            },
        };
        if !self.consume_by_kind(TokenKind::OpenParen, "Expect '(' after function name.") {
            return None;
        }
        let params = if self.check_kind(TokenKind::CloseParen) {
            let none: Vec<STR> = Vec::new();
            assert(names_view(none@) =~= Seq::empty());
            none
        } else {
            match self.parameters() {
                Some(p) => p,
                None => {
                    return None;
                },
            }
        };
        if !self.consume_by_kind(TokenKind::CloseParen, "Expect ')' after parameters.") {
            return None;
        }
        if !self.consume_by_kind(TokenKind::OpenBrace, "Expect '{' before function body.") {
            return None;
        }
        let body = match self.block() {
            Some(b) => b,
            None => {
                return None;
            },
        };
        Some(FunctionDecl { name, params, body })
    }

    /// `parameters → IDENT ( "," IDENT )*`
    fn parameters(&mut self) -> (r: Option<Vec<STR>>)
        requires
            old(self)@.wf(),
        ensures
            final(self)@ == grammar::parameters(old(self)@, Seq::empty()).1,
            match grammar::parameters(old(self)@, Seq::empty()).0 {
                Some(p) => r is Some && names_view(r->0@) == p,
                None => r is None,
            },
            old(self)@.precedes(final(self)@),
    {
        let mut names: Vec<STR> = Vec::new();
        assert(names_view(names@) =~= Seq::empty());
        loop
            invariant
                self@.wf(),
                old(self)@.precedes(self@),
                grammar::parameters(self@, names_view(names@)) == grammar::parameters(
                    old(self)@,
                    Seq::empty(),
                ),
            decreases self@.remaining(),
        {
            let name = match self.consume_name("Expect parameter name.") {
                Some(n) => n,
                None => {
                    return None;
                },
            };
            assert(names_view(names@.push(name)) =~= names_view(names@).push(name@));
            names.push(name);
            if !self.match_kind(TokenKind::Comma) {
                return Some(names);
            }
        }
    }

    /// `varDecl → "var" IDENT ( "=" expression )? ";"`
    fn var_decl(&mut self) -> (r: Option<Stmt>)
        requires
            old(self)@.wf(),
        ensures
            (optional_stmt_view(r), final(self)@) == grammar::var_decl(old(self)@),
            old(self)@.precedes(final(self)@),
        decreases old(self)@.remaining(), 130int,
    {
        let name = match self.consume_name("Expect variable name") {
            Some(n) => n,
            None => {
                return None;
            },
        };
        let initializer = if self.match_kind(TokenKind::Eq) {
            match self.expression() {
                Some(e) => Some(e),
                None => {
                    return None;
                },
            }
        } else {
            None
        };
        self.consume_by_kind(TokenKind::Semi, "Expect ';' after variable declaration.");
        Some(Stmt::Variable { name, initializer })
    }

    /// ```text
    /// statement → exprStmt | forStmt | ifStmt | printStmt
    ///           | returnStmt | whileStmt | block
    /// ```
    fn statement(&mut self) -> (r: Option<Stmt>)
        requires
            old(self)@.wf(),
        ensures
            (optional_stmt_view(r), final(self)@) == grammar::statement(old(self)@),
            old(self)@.precedes(final(self)@),
            r is Some ==> old(self)@.pos < final(self)@.pos,
        decreases old(self)@.remaining(), 140int,
    {
        if self.match_token(&Token::if_tok()) {
            return self.if_stmt();
        }
        if self.match_token(&Token::for_tok()) {
            return self.for_stmt();
        }
        if self.match_token(&Token::print_tok()) {
            return self.print_stmt();
        }
        if self.check_token(&Token::return_tok()) {
            let keyword = match self.advance() {
                Some(t) => STR(t.val.clone(), t.tag.line),
                None => STR(String::new(), 0),
            };
            return self.return_stmt(keyword);
        }
        if self.match_token(&Token::while_tok()) {
            return self.while_stmt();
        }
        if self.match_kind(TokenKind::OpenBrace) {
            return match self.block() {
                Some(stmts) => Some(Stmt::Block { stmts }),
                None => None,
            };
        }
        self.expr_stmt()
    }

    /// An expression, unless the next token is of kind `closer`. The flag
    /// says whether this went well.
    fn optional_expression(&mut self, closer: TokenKind) -> (r: (bool, Option<Expr>))
        requires
            old(self)@.wf(),
        ensures
            (r.0, optional_expr_view(r.1), final(self)@) == grammar::optional_expression(
                old(self)@,
                closer,
            ),
            old(self)@.precedes(final(self)@),
        decreases old(self)@.remaining(), 102int,
    {
        if self.check_kind(closer) {
            (true, None)
        } else {
            let expr = self.expression();
            (expr.is_some(), expr)
        }
    }

    /// The first clause of a `for` loop: `varDecl | exprStmt | ";"`. The flag
    /// says whether the loop can still be parsed.
    fn for_initializer(&mut self) -> (r: (bool, Option<Stmt>))
        requires
            old(self)@.wf(),
        ensures
            (r.0, optional_stmt_view(r.1), final(self)@) == grammar::for_initializer(old(self)@),
            old(self)@.precedes(final(self)@),
        decreases old(self)@.remaining(), 137int,
    {
        if self.match_token(&Token::var_tok()) {
            (true, self.var_decl())  // takes the `;` behind it
        } else if self.match_kind(TokenKind::Semi) {
            (true, None)
        } else {
            let stmt = self.expr_stmt();
            (stmt.is_some(), stmt)
        }
    }

    /// ```text
    /// forStmt → "for" "(" ( varDecl | exprStmt | ";" )
    ///                      expression? ";" expression? ")" statement
    /// ```
    fn for_stmt(&mut self) -> (r: Option<Stmt>)
        requires
            old(self)@.wf(),
        ensures
            (optional_stmt_view(r), final(self)@) == grammar::for_stmt(old(self)@),
            old(self)@.precedes(final(self)@),
        decreases old(self)@.remaining(), 130int,
    {
        if !self.consume_by_kind(TokenKind::OpenParen, "Expect '(' after 'for'.") {
            return None;
        }
        let (ok, initializer) = self.for_initializer();
        if !ok {
            return None;
        }
        let (ok, cond) = self.optional_expression(TokenKind::Semi);
        if !ok {
            return None;
        }
        self.consume_by_kind(TokenKind::Semi, "Expect ';' after loop condition.");
        let (ok, increment) = self.optional_expression(TokenKind::CloseParen);
        if !ok {
            return None;
        }
        self.consume_by_kind(TokenKind::CloseParen, "Expect ')' after for clauses.");
        let body = match self.statement() {
            Some(s) => s,
            None => {
                return None;
            },
        };
        Some(lower_for(initializer, cond, increment, body, self.line()))
    }

    /// `ifStmt → "if" "(" expression ")" statement ( "else" statement )?`
    fn if_stmt(&mut self) -> (r: Option<Stmt>)
        requires
            old(self)@.wf(),
        ensures
            (optional_stmt_view(r), final(self)@) == grammar::if_stmt(old(self)@),
            old(self)@.precedes(final(self)@),
        decreases old(self)@.remaining(), 130int,
    {
        if !self.consume_by_kind(TokenKind::OpenParen, "Expect '(' after 'if'.") {
            return None;
        }
        let cond = match self.expression() {
            Some(e) => e,
            None => {
                return None;
            },
        };
        self.consume_by_kind(TokenKind::CloseParen, "Expect ')' after if condition.");
        let then_branch = match self.statement() {
            Some(s) => s,
            None => {
                return None;
            },
        };
        let else_branch = if self.match_token(&Token::else_tok()) {
            match self.statement() {
                Some(s) => Some(Box::new(s)),
                None => {
                    return None;
                },
            }
        } else {
            None
        };
        Some(Stmt::If { cond, then_branch: Box::new(then_branch), else_branch })
    }

    /// `whileStmt → "while" "(" expression ")" statement`
    fn while_stmt(&mut self) -> (r: Option<Stmt>)
        requires
            old(self)@.wf(),
        ensures
            (optional_stmt_view(r), final(self)@) == grammar::while_stmt(old(self)@),
            old(self)@.precedes(final(self)@),
        decreases old(self)@.remaining(), 130int,
    {
        if !self.consume_by_kind(TokenKind::OpenParen, "Expect '(' after 'while'.") {
            return None;
        }
        let cond = match self.expression() {
            Some(e) => e,
            None => {
                return None;
            },
        };
        self.consume_by_kind(TokenKind::CloseParen, "Expect ')' after while condition.");
        let body = match self.statement() {
            Some(s) => s,
            None => {
                return None;
            },
        };
        Some(Stmt::While { cond, body: Box::new(body) })
    }

    /// `block → "{" declaration* "}"`
    fn block(&mut self) -> (r: Option<Vec<Stmt>>)
        requires
            old(self)@.wf(),
        ensures
            (optional_stmts_view(r), final(self)@) == grammar::block(old(self)@),
            old(self)@.precedes(final(self)@),
        decreases old(self)@.remaining(), 210int,
    {
        let mut stmts: Vec<Stmt> = Vec::new();
        let mut failed_parsing_decl = false;
        assert(stmts_view(stmts@) =~= Seq::empty());
        while !self.check_kind(TokenKind::CloseBrace) && !self.is_at_end()
            invariant
                self@.wf(),
                old(self)@.precedes(self@),
                grammar::block_items(self@, stmts_view(stmts@), failed_parsing_decl)
                    == grammar::block_items(old(self)@, Seq::empty(), false),
            decreases self@.remaining(),
        {
            // The error is raised at the end of the block.
            match self.declaration() {
                Some(decl) => {
                    proof {
                        lemma_stmts_view_push(stmts@, decl);
                    }
                    stmts.push(decl);
                },
                None => {
                    failed_parsing_decl = true;
                },
            }
        }
        self.consume_by_kind(TokenKind::CloseBrace, "Expect '}' after block.");
        if !failed_parsing_decl {
            Some(stmts)
        } else {
            None
        }
    }

    /// `exprStmt → expression ";"`
    fn expr_stmt(&mut self) -> (r: Option<Stmt>)
        requires
            old(self)@.wf(),
        ensures
            (optional_stmt_view(r), final(self)@) == grammar::expr_stmt(old(self)@),
            old(self)@.precedes(final(self)@),
            r is Some ==> old(self)@.pos < final(self)@.pos,
        decreases old(self)@.remaining(), 135int,
    {
        let expr = match self.expression() {
            Some(e) => e,
            None => {
                return None;
            },
        };
        self.consume_by_kind(TokenKind::Semi, "Expect ';' after expression.");
        Some(Stmt::Expression { expr })
    }

    /// `printStmt → "print" expression ";"`
    fn print_stmt(&mut self) -> (r: Option<Stmt>)
        requires
            old(self)@.wf(),
        ensures
            (optional_stmt_view(r), final(self)@) == grammar::print_stmt(old(self)@),
            old(self)@.precedes(final(self)@),
        decreases old(self)@.remaining(), 130int,
    {
        let expr = match self.expression() {
            Some(e) => e,
            None => {
                return None;
            },
        };
        self.consume_by_kind(TokenKind::Semi, "Expect ';' after value.");
        Some(Stmt::Print { expr })
    }

    /// `returnStmt → "return" expression? ";"`
    fn return_stmt(&mut self, keyword: STR) -> (r: Option<Stmt>)
        requires
            old(self)@.wf(),
        ensures
            (optional_stmt_view(r), final(self)@) == grammar::return_stmt(old(self)@, keyword@),
            old(self)@.precedes(final(self)@),
        decreases old(self)@.remaining(), 130int,
    {
        let (ok, value) = self.optional_expression(TokenKind::Semi);
        if !ok {
            return None;
        }
        self.consume_by_kind(TokenKind::Semi, "Expect ';' after return value.");
        Some(Stmt::Return { keyword, value })
    }

    /// Parses the tokens from the current one on as a program. The parser
    /// ends on every input, with or without errors, and leaves no token
    /// behind.
    ///
    /// Returns the statements that were parsed, or `None` where a parse error
    /// was found, by this call or before it. Every error found is kept: see
    /// [`Parser::diagnostics`]. In the statements returned, every expression
    /// is built as the grammar's table of precedence has it.
    pub fn parse(&mut self) -> (r: Option<Vec<Stmt>>)
        requires
            old(self)@.wf(),
        ensures
            (optional_stmts_view(r), final(self)@) == grammar::program(old(self)@),
            final(self)@.at_end(),
            r is Some == !final(self)@.had_error,
            r is Some ==> crate::precedence::all_shaped(stmts_view(r->0@)),
    {
        proof {
            crate::precedence::lemma_program_shaped(old(self)@);
        }
        let mut stmts: Vec<Stmt> = Vec::new();
        assert(stmts_view(stmts@) =~= Seq::empty());
        while !self.is_at_end()
            invariant
                self@.wf(),
                old(self)@.precedes(self@),
                grammar::program_items(self@, stmts_view(stmts@)) == grammar::program_items(
                    old(self)@,
                    Seq::empty(),
                ),
            decreases self@.remaining(),
        {
            match self.declaration() {
                Some(decl) => {
                    proof {
                        lemma_stmts_view_push(stmts@, decl);
                    }
                    stmts.push(decl);
                },
                None => {},
            }
        }
        if self.had_parsing_error() {
            None
        } else {
            Some(stmts)
        }
    }
}

} // verus!
