//! The parser's state and the steps it is made of: looking at the next token,
//! taking it, reporting an error and skipping to the next statement.

use vstd::prelude::*;
use crate::named::{is_reserved_word, keyword, reserved, tokens_view, Token, TokenView};
use crate::text::{decimal, decimal_of, join};
use crate::token::TokenKind;
use crate::ast::STR;

verus! {

/// A parse error: where it was found, at which text, and what was expected.
#[derive(Debug, Clone)]
pub struct Diagnostic {
    /// The line the error is reported on.
    pub line: usize,
    /// The text of the offending token; `None` at the end of the input.
    pub lexeme: Option<String>,
    pub message: String,
}

/// What a [`Diagnostic`] holds, with sequences of characters for its
/// strings.
pub struct DiagnosticView {
    pub line: usize,
    pub lexeme: Option<Seq<char>>,
    pub message: Seq<char>,
}

impl View for Diagnostic {
    type V = DiagnosticView;

    open spec fn view(&self) -> DiagnosticView {
        DiagnosticView {
            line: self.line,
            lexeme: match self.lexeme {
                Some(s) => Some(s@),
                None => None,
            },
            message: self.message@,
        }
    }
}

impl DiagnosticView {
    /// The error line: `[line L] Error at 'text': message`, or
    /// `[line L] Error at end: message`.
    pub open spec fn text(self) -> Seq<char> {
        match self.lexeme {
            Some(s) => "[line "@ + decimal_of(self.line as nat) + "] Error at '"@ + s + "': "@
                + self.message,
            None => "[line "@ + decimal_of(self.line as nat) + "] Error at end: "@ + self.message,
        }
    }
}

impl Diagnostic {
    /// The error line: `[line L] Error at 'text': message`, or
    /// `[line L] Error at end: message`.
    pub fn render(&self) -> (r: String)
        ensures
            r@ == self@.text(),
    {
        let head = join("[line ".to_owned(), decimal(self.line).as_str());
        match &self.lexeme {
            Some(s) => join(
                join(join(join(head, "] Error at '"), s.as_str()), "': "),
                self.message.as_str(),
            ),
            None => join(join(head, "] Error at end: "), self.message.as_str()),
        }
    }
}

/// The views of `reports`, in order.
pub open spec fn reports_view(reports: Seq<Diagnostic>) -> Seq<DiagnosticView> {
    reports.map_values(|d: Diagnostic| d@)
}

/// The state of a parser.
pub struct ParserView {
    /// The tokens to parse, without trivia and without the end marker.
    pub tokens: Seq<TokenView>,
    /// Index of the next token.
    pub pos: int,
    /// Line of the last token taken.
    pub line: usize,
    /// Whether an error was found.
    pub had_error: bool,
    /// The errors found, in order.
    pub reports: Seq<DiagnosticView>,
}

impl ParserView {
    /// The position lies within the tokens or right behind them.
    pub open spec fn wf(self) -> bool {
        0 <= self.pos <= self.tokens.len()
    }

    /// Number of tokens not yet taken.
    pub open spec fn remaining(self) -> nat {
        if self.wf() {
            (self.tokens.len() - self.pos) as nat
        } else {
            0
        }
    }

    /// The token to take next.
    pub open spec fn peek(self) -> Option<TokenView> {
        if 0 <= self.pos < self.tokens.len() {
            Some(self.tokens[self.pos])
        } else {
            None
        }
    }

    /// The token taken last.
    pub open spec fn prev(self) -> Option<TokenView> {
        if 1 <= self.pos <= self.tokens.len() {
            Some(self.tokens[self.pos - 1])
        } else {
            None
        }
    }

    /// Whether every token was taken.
    pub open spec fn at_end(self) -> bool {
        self.peek() is None
    }

    /// The state after taking the next token, if there is one.
    pub open spec fn advance(self) -> ParserView {
        match self.peek() {
            Some(t) => ParserView { pos: self.pos + 1, line: t.tag.line, ..self },
            None => self,
        }
    }

    /// Whether the next token is of kind `kind`.
    pub open spec fn check_kind(self, kind: TokenKind) -> bool {
        self.peek() is Some && self.peek()->0.tag.kind == kind
    }

    /// Whether the next token equals `token`, the line apart.
    pub open spec fn check_token(self, token: TokenView) -> bool {
        self.peek() is Some && self.peek()->0.same(token)
    }

    /// Whether the next token is an identifier that is no reserved word.
    pub open spec fn check_name(self) -> bool {
        self.check_kind(TokenKind::Identifier) && !reserved(self.peek()->0.val)
    }

    /// The state after the error `report`.
    pub open spec fn fail(self, report: DiagnosticView) -> ParserView {
        ParserView { had_error: true, reports: self.reports.push(report), ..self }
    }

    /// The error for a token that was expected and is not there. It names the
    /// next token, or the last one taken where the next stands on another
    /// line.
    pub open spec fn expected(self, message: Seq<char>) -> DiagnosticView {
        let culprit = if self.peek() is Some && self.peek()->0.tag.line != self.line {
            self.prev()
        } else {
            self.peek()
        };
        DiagnosticView {
            line: self.line,
            lexeme: match culprit {
                Some(t) => Some(t.val),
                None => None,
            },
            message,
        }
    }

    /// The error for a token that is one too many. It names the next token
    /// and stands on the line of that token; at the end of the input it
    /// stands on the line of the last token taken.
    pub open spec fn excess(self, message: Seq<char>) -> DiagnosticView {
        match self.peek() {
            Some(t) => DiagnosticView { line: t.tag.line, lexeme: Some(t.val), message },
            None => DiagnosticView { line: self.line, lexeme: None, message },
        }
    }

    /// The error for a token that cannot stand where it does. It names the
    /// next token, on the line of the last token taken.
    pub open spec fn unexpected(self, message: Seq<char>) -> DiagnosticView {
        DiagnosticView {
            line: self.line,
            lexeme: match self.peek() {
                Some(t) => Some(t.val),
                None => None,
            },
            message,
        }
    }

    /// Takes the next token if it is of kind `kind`; else reports `message`.
    pub open spec fn consume_by_kind(self, kind: TokenKind, message: Seq<char>) -> (
        bool,
        ParserView,
    ) {
        if self.check_kind(kind) {
            (true, self.advance())
        } else {
            (false, self.fail(self.expected(message)))
        }
    }

    /// Takes the next token if it is a name; else reports `message`.
    pub open spec fn consume_name(self, message: Seq<char>) -> (
        Option<(Seq<char>, usize)>,
        ParserView,
    ) {
        if self.check_name() {
            (Some((self.peek()->0.val, self.peek()->0.tag.line)), self.advance())
        } else {
            (None, self.fail(self.expected(message)))
        }
    }

    /// Whether the next token is a reserved word that starts a statement.
    pub open spec fn starts_statement(self) -> bool {
        ||| self.check_token(keyword("class"@))
        ||| self.check_token(keyword("fun"@))
        ||| self.check_token(keyword("var"@))
        ||| self.check_token(keyword("for"@))
        ||| self.check_token(keyword("if"@))
        ||| self.check_token(keyword("while"@))
        ||| self.check_token(keyword("print"@))
        ||| self.check_token(keyword("return"@))
    }

    /// Whether parsing can resume here: at the end, behind a `;`, or before a
    /// reserved word that starts a statement.
    pub open spec fn at_boundary(self) -> bool {
        ||| self.at_end()
        ||| (self.prev() is Some && self.prev()->0.tag.kind == TokenKind::Semi)
        ||| self.starts_statement()
    }

    /// Skips tokens up to the next boundary.
    pub open spec fn skip_to_boundary(self) -> ParserView
        decreases self.remaining(),
    {
        if self.at_boundary() {
            self
        } else {
            self.advance().skip_to_boundary()
        }
    }

    /// Recovery after an error: takes one token, then skips to the next
    /// boundary.
    pub open spec fn synchronize(self) -> ParserView {
        self.advance().skip_to_boundary()
    }

    /// `self` and `later` are states of one parse, `later` not before `self`.
    pub open spec fn precedes(self, later: ParserView) -> bool {
        &&& later.tokens == self.tokens
        &&& 0 <= self.pos <= later.pos
        &&& later.wf()
    }

    /// `later`, if it is a later state of the same parse. The productions go
    /// on from `self.onward(later)`; it always is `later`.
    pub open spec fn onward(self, later: ParserView) -> ParserView {
        if self.precedes(later) {
            later
        } else {
            ParserView { pos: self.tokens.len() as int, ..self }
        }
    }
}

/// Skipping goes forward, within the tokens.
pub proof fn lemma_skip_to_boundary(s: ParserView)
    requires
        s.wf(),
    ensures
        s.precedes(s.skip_to_boundary()),
        s.skip_to_boundary().at_boundary(),
        s.skip_to_boundary().had_error == s.had_error,
        s.skip_to_boundary().reports == s.reports,
    decreases s.remaining(),
{
    if !s.at_boundary() {
        lemma_skip_to_boundary(s.advance());
    }
}

/// A recursive descent parser with one token of lookahead.
#[derive(Debug)]
pub struct Parser {
    /// May hold tokenization errors. The end marker is not among them.
    tokens: Vec<Token>,
    /// Index of the current token.
    curr_token: usize,
    /// Line of the last token taken.
    curr_line: usize,
    /// Whether the parser has encountered a parsing error.
    had_parsing_error: bool,
    /// The parsing errors, in order.
    reports: Vec<Diagnostic>,
}

impl View for Parser {
    type V = ParserView;

    closed spec fn view(&self) -> ParserView {
        ParserView {
            tokens: tokens_view(self.tokens@),
            pos: self.curr_token as int,
            line: self.curr_line,
            had_error: self.had_parsing_error,
            reports: reports_view(self.reports@),
        }
    }
}

impl Parser {
    /// A parser before the first of the tokens, on line 1.
    pub fn new(tokens: Vec<Token>) -> (r: Parser)
        ensures
            r@ == (ParserView {
                tokens: tokens_view(tokens@),
                pos: 0,
                line: 1,
                had_error: false,
                reports: Seq::empty(),
            }),
            r@.wf(),
    {
        let r = Parser {
            tokens,
            curr_token: 0,
            curr_line: 1,
            had_parsing_error: false,
            reports: Vec::new(),
        };
        assert(r@.reports =~= Seq::empty());
        r
    }

    /// Whether the parser has encountered a parsing error.
    pub fn had_parsing_error(&self) -> (r: bool)
        ensures
            r == self@.had_error,
    {
        self.had_parsing_error
    }

    /// The parsing errors found so far, in order.
    pub fn diagnostics(&self) -> (r: &Vec<Diagnostic>)
        ensures
            reports_view(r@) == self@.reports,
    {
        &self.reports
    }

    /// The line of the last token taken.
    pub fn line(&self) -> (r: usize)
        ensures
            r == self@.line,
    {
        self.curr_line
    }

    /// Records the error `report`.
    pub(crate) fn fail(&mut self, report: Diagnostic)
        ensures
            final(self)@ == old(self)@.fail(report@),
    {
        self.had_parsing_error = true;
        self.reports.push(report);
        assert(reports_view(self.reports@) =~= reports_view(old(self).reports@).push(report@));
    }

    /// The text of `token`, if there is one.
    fn lexeme_of(token: Option<&Token>) -> (r: Option<String>)
        ensures
            r is Some == token is Some,
            r is Some ==> r->0@ == token->0@.val,
    {
        match token {
            Some(t) => Some(t.val.clone()),
            None => None,
        }
    }

    /// Reports that something else was expected here.
    pub(crate) fn report_err_token(&mut self, err_msg: &str)
        requires
            old(self)@.wf(),
        ensures
            final(self)@ == old(self)@.fail(old(self)@.expected(err_msg@)),
    {
        let mut err_token = self.peek();
        if let Some(e) = err_token {
            // The next token stands on another line: name the last one taken.
            if e.tag.line != self.curr_line {
                err_token = self.prev();
            }
        }
        let report = Diagnostic {
            line: self.curr_line,
            lexeme: Self::lexeme_of(err_token),
            message: err_msg.to_owned(),
        };
        self.fail(report);
    }

    /// Reports that the next token is one too many, on the line of that
    /// token.
    pub(crate) fn report_excess(&mut self, err_msg: &str)
        requires
            old(self)@.wf(),
        ensures
            final(self)@ == old(self)@.fail(old(self)@.excess(err_msg@)),
    {
        let report = match self.peek() {
            Some(t) => Diagnostic {
                line: t.tag.line,
                lexeme: Some(t.val.clone()),
                message: err_msg.to_owned(),
            },
            None => Diagnostic { line: self.curr_line, lexeme: None, message: err_msg.to_owned() },
        };
        self.fail(report);
    }

    /// Reports that the next token cannot stand here.
    pub(crate) fn report_token(&mut self, err_msg: &str)
        requires
            old(self)@.wf(),
        ensures
            final(self)@ == old(self)@.fail(old(self)@.unexpected(err_msg@)),
    {
        let report = Diagnostic {
            line: self.curr_line,
            lexeme: Self::lexeme_of(self.peek()),
            message: err_msg.to_owned(),
        };
        self.fail(report);
    }

    /// Takes the next token if it is of kind `kind`; else reports `err_msg`.
    pub(crate) fn consume_by_kind(&mut self, kind: TokenKind, err_msg: &str) -> (r: bool)
        requires
            old(self)@.wf(),
        ensures
            (r, final(self)@) == old(self)@.consume_by_kind(kind, err_msg@),
            old(self)@.precedes(final(self)@),
            r ==> final(self)@.pos == old(self)@.pos + 1,
    {
        if self.check_kind(kind) {
            self.advance();
            return true;
        }
        self.report_err_token(err_msg);
        false
    }

    /// Takes the next token if it is a name; else reports `err_msg`.
    pub(crate) fn consume_name(&mut self, err_msg: &str) -> (r: Option<STR>)
        requires
            old(self)@.wf(),
        ensures
            (crate::ast::optional_name_view(r), final(self)@) == old(self)@.consume_name(err_msg@),
            old(self)@.precedes(final(self)@),
            r is Some ==> final(self)@.pos == old(self)@.pos + 1,
    {
        if self.check_name() {
            let name = match self.peek() {
                Some(t) => STR(t.val.clone(), t.tag.line),
                None => STR(String::new(), 0),
            };
            self.advance();
            return Some(name);
        }
        self.report_err_token(err_msg);
        None
    }

    /// Whether the next token is a reserved word that starts a statement.
    fn starts_statement(&self) -> (r: bool)
        requires
            self@.wf(),
        ensures
            r == self@.starts_statement(),
    {
        self.check_token(&Token::class_tok()) || self.check_token(&Token::fun_tok())
            || self.check_token(&Token::var_tok()) || self.check_token(&Token::for_tok())
            || self.check_token(&Token::if_tok()) || self.check_token(&Token::while_tok())
            || self.check_token(&Token::print_tok()) || self.check_token(&Token::return_tok())
    }

    /// Recovery after an error: takes one token, then skips tokens until a
    /// `;` was taken or a reserved word that starts a statement comes next.
    pub(crate) fn synchronize(&mut self)
        requires
            old(self)@.wf(),
        ensures
            final(self)@ == old(self)@.synchronize(),
            old(self)@.precedes(final(self)@),
            old(self)@.pos < old(self)@.tokens.len() ==> final(self)@.pos > old(self)@.pos,
    {
        self.advance();
        proof {
            lemma_skip_to_boundary(self@);
        }
        while !self.is_at_end()
            invariant
                self@.wf(),
                old(self)@.advance().precedes(self@),
                self@.skip_to_boundary() == old(self)@.synchronize(),
            decreases self@.remaining(),
        {
            if let Some(prev) = self.prev() {
                if prev.tag.kind == TokenKind::Semi {
                    return ;
                }
            }
            if self.starts_statement() {
                return ;
            }
            self.advance();
            proof {
                lemma_skip_to_boundary(self@);
            }
        }
    }

    /// Consumes the current token and returns it.
    pub(crate) fn advance(&mut self) -> (r: Option<&Token>)
        requires
            old(self)@.wf(),
        ensures
            final(self)@ == old(self)@.advance(),
            final(self)@.wf(),
            old(self)@.precedes(final(self)@),
            r is Some == old(self)@.peek() is Some,
            r is Some ==> r->0@ == old(self)@.peek()->0,
    {
        if self.curr_token < self.tokens.len() {
            let token = &self.tokens[self.curr_token];
            self.curr_token += 1;
            // Remember to update the current line number.
            self.curr_line = token.tag.line;
            Some(token)
        } else {
            None
        }
    }

    /// Returns the current token we have yet to consume.
    pub(crate) fn peek(&self) -> (r: Option<&Token>)
        ensures
            r is Some == self@.peek() is Some,
            r is Some ==> r->0@ == self@.peek()->0,
    {
        if self.curr_token < self.tokens.len() {
            Some(&self.tokens[self.curr_token])
        } else {
            None
        }
    }

    /// Returns the most recently consumed token.
    pub(crate) fn prev(&self) -> (r: Option<&Token>)
        ensures
            r is Some == self@.prev() is Some,
            r is Some ==> r->0@ == self@.prev()->0,
    {
        if 1 <= self.curr_token && self.curr_token <= self.tokens.len() {
            Some(&self.tokens[self.curr_token - 1])
        } else {
            None
        }
    }

    /// Returns `true` if the parser has consumed all tokens.
    pub(crate) fn is_at_end(&self) -> (r: bool)
        ensures
            r == self@.at_end(),
    {
        self.peek().is_none()
    }

    /// Returns `true` if the current token's kind is of the given one.
    ///
    /// Unlike [`Parser::match_kind`] this method does not consume the token.
    pub(crate) fn check_kind(&self, token_kind: TokenKind) -> (r: bool)
        ensures
            r == self@.check_kind(token_kind),
    {
        match self.peek() {
            Some(t) => t.tag.kind == token_kind,
            None => false,
        }
    }

    /// Returns `true` if the current token is the given one, the line apart.
    ///
    /// Unlike [`Parser::match_token`] this method does not consume the token.
    pub(crate) fn check_token(&self, token: &Token) -> (r: bool)
        ensures
            r == self@.check_token(token@),
    {
        match self.peek() {
            Some(t) => *t == *token,
            None => false,
        }
    }

    /// Returns `true` if the current token is an identifier that is no
    /// reserved word.
    pub(crate) fn check_name(&self) -> (r: bool)
        ensures
            r == self@.check_name(),
    {
        match self.peek() {
            Some(t) => t.tag.kind == TokenKind::Identifier && !is_reserved_word(t.val.as_str()),
            None => false,
        }
    }

    /// Returns `true` if the current token's kind is the given one.
    ///
    /// Note that this method will consume the token if it returns `true`.
    pub(crate) fn match_kind(&mut self, token_kind: TokenKind) -> (r: bool)
        requires
            old(self)@.wf(),
        ensures
            r == old(self)@.check_kind(token_kind),
            final(self)@ == if r {
                old(self)@.advance()
            } else {
                old(self)@
            },
            old(self)@.precedes(final(self)@),
    {
        let is_matched = self.check_kind(token_kind);
        if is_matched {
            self.advance();
        }
        is_matched
    }

    /// Returns `true` if the current token is the given one, the line apart.
    ///
    /// Note that this method will consume the token if it returns `true`.
    pub(crate) fn match_token(&mut self, token: &Token) -> (r: bool)
        requires
            old(self)@.wf(),
        ensures
            r == old(self)@.check_token(token@),
            final(self)@ == if r {
                old(self)@.advance()
            } else {
                old(self)@
            },
            old(self)@.precedes(final(self)@),
    {
        let is_matched = self.check_token(token);
        if is_matched {
            self.advance();
        }
        is_matched
    }
}

} // verus!
