//! The lexer: one token per call, from the characters under a cursor.
//!
//! What the lexer emits is stated by spec functions over the whole input and
//! an index into it: `token_end` says where the token that starts at an index
//! ends, `token_kind` what it is, and `tokens_from` collects the stream.

use vstd::prelude::*;
use vstd::string::StringSliceAdditionalSpecFns;
use crate::cursor::{lemma_run_end_bounds, peek, run_end, CharClass, Cursor, CursorView};
use crate::token::{LiteralKind, TagToken, TokenKind, TokenizationError};
use crate::unicode::{
    decimal_digit, emoji, id_start, is_decimal_digit, is_emoji, is_id_continue, is_id_start,
    is_whitespace, lemma_utf8_len_monotonic, lemma_utf8_len_split,
    utf8_len, utf8_size, white_space, BACKSLASH_N,
};

verus! {

/// The kind of a token that is one fixed character, if `c` is such a token.
pub open spec fn punctuation(c: char) -> Option<TokenKind> {
    if c == ';' {
        Some(TokenKind::Semi)
    } else if c == ',' {
        Some(TokenKind::Comma)
    } else if c == '.' {
        Some(TokenKind::Dot)
    } else if c == '(' {
        Some(TokenKind::OpenParen)
    } else if c == ')' {
        Some(TokenKind::CloseParen)
    } else if c == '{' {
        Some(TokenKind::OpenBrace)
    } else if c == '}' {
        Some(TokenKind::CloseBrace)
    } else if c == '[' {
        Some(TokenKind::OpenBracket)
    } else if c == ']' {
        Some(TokenKind::CloseBracket)
    } else if c == '-' {
        Some(TokenKind::Minus)
    } else if c == '+' {
        Some(TokenKind::Plus)
    } else if c == '*' {
        Some(TokenKind::Star)
    } else {
        None
    }
}

/// The characters that may be followed by `=` to form a longer token.
pub open spec fn compound_lead(c: char) -> bool {
    c == '=' || c == '!' || c == '<' || c == '>'
}

/// The kind of the token that `c` starts, alone or followed by `=`.
pub open spec fn compound_kind(c: char, followed: bool) -> TokenKind {
    if c == '=' {
        if followed {
            TokenKind::EqEq
        } else {
            TokenKind::Eq
        }
    } else if c == '!' {
        if followed {
            TokenKind::BangEq
        } else {
            TokenKind::Bang
        }
    } else if c == '<' {
        if followed {
            TokenKind::LtEq
        } else {
            TokenKind::Lt
        }
    } else {
        if followed {
            TokenKind::GtEq
        } else {
            TokenKind::Gt
        }
    }
}

/// A character that, right after an identifier, makes it an unknown prefix.
pub open spec fn prefix_mark(c: char) -> bool {
    c == '#' || c == '"' || c == '\''
}

/// End of the number whose first digit is at `i`: digits and `_`, then, if a
/// `.` with a digit behind it follows, the `.` and more digits and `_`.
pub open spec fn number_end(s: Seq<char>, i: int) -> int {
    let j = run_end(s, i + 1, CharClass::Digits);
    if peek(s, j) == '.' && decimal_digit(peek(s, j + 1)) {
        run_end(s, j + 1, CharClass::Digits)
    } else {
        j
    }
}

/// Whether the character at `j` is a backslash that escapes a `\` or a `"`.
pub open spec fn escape_at(s: Seq<char>, j: int) -> bool {
    peek(s, j) == '\\' && (peek(s, j + 1) == '\\' || peek(s, j + 1) == '"')
}

/// End of the string whose body starts at `j`: behind the first `"` that no
/// backslash escapes, or the end of the input.
pub open spec fn string_end(s: Seq<char>, j: int) -> int
    decreases s.len() - j,
{
    if 0 <= j < s.len() {
        if s[j] == '"' {
            j + 1
        } else if escape_at(s, j) {
            string_end(s, j + 2)
        } else {
            string_end(s, j + 1)
        }
    } else {
        j
    }
}

/// Whether the string whose body starts at `j` has its closing `"`.
pub open spec fn string_closed(s: Seq<char>, j: int) -> bool
    decreases s.len() - j,
{
    if 0 <= j < s.len() {
        if s[j] == '"' {
            true
        } else if escape_at(s, j) {
            string_closed(s, j + 2)
        } else {
            string_closed(s, j + 1)
        }
    } else {
        false
    }
}

/// End of the identifier that starts at `i`. Where an emoji follows it, the
/// token goes on through identifier characters, emoji and joiners.
pub open spec fn ident_end(s: Seq<char>, i: int) -> int {
    let j = run_end(s, i + 1, CharClass::IdContinue);
    if emoji(peek(s, j)) {
        run_end(s, j, CharClass::InvalidIdentBody)
    } else {
        j
    }
}

/// Kind of the identifier that starts at `i`.
pub open spec fn ident_kind(s: Seq<char>, i: int, line: usize) -> TokenKind {
    let j = run_end(s, i + 1, CharClass::IdContinue);
    if prefix_mark(peek(s, j)) {
        TokenKind::TokErr(TokenizationError::UnknownPrefix { line })
    } else if emoji(peek(s, j)) {
        TokenKind::TokErr(TokenizationError::InvalidIdent { line })
    } else {
        TokenKind::Identifier
    }
}

/// Index behind the token that starts at `i`.
pub open spec fn token_end(s: Seq<char>, i: int) -> int {
    let c = peek(s, i);
    if c == BACKSLASH_N {
        i + 1
    } else if c == '/' {
        if peek(s, i + 1) == '/' {
            run_end(s, i + 2, CharClass::CommentBody)
        } else {
            i + 1
        }
    } else if compound_lead(c) {
        if peek(s, i + 1) == '=' {
            i + 2
        } else {
            i + 1
        }
    } else if punctuation(c) is Some {
        i + 1
    } else if white_space(c) {
        run_end(s, i + 1, CharClass::Whitespace)
    } else if id_start(c) {
        ident_end(s, i)
    } else if decimal_digit(c) {
        number_end(s, i)
    } else if c == '"' {
        string_end(s, i + 1)
    } else {
        i + 1
    }
}

/// Kind of the token that starts at `i`, read on line `line`.
pub open spec fn token_kind(s: Seq<char>, i: int, line: usize) -> TokenKind {
    let c = peek(s, i);
    if c == BACKSLASH_N {
        TokenKind::NewLine
    } else if c == '/' {
        if peek(s, i + 1) == '/' {
            TokenKind::LineComment
        } else {
            TokenKind::Slash
        }
    } else if compound_lead(c) {
        compound_kind(c, peek(s, i + 1) == '=')
    } else if punctuation(c) is Some {
        punctuation(c)->0
    } else if white_space(c) {
        TokenKind::Whitespace
    } else if id_start(c) {
        ident_kind(s, i, line)
    } else if decimal_digit(c) {
        TokenKind::Literal { kind: LiteralKind::Number }
    } else if c == '"' {
        if string_closed(s, i + 1) {
            TokenKind::Literal { kind: LiteralKind::Str }
        } else {
            TokenKind::TokErr(TokenizationError::UnterminatedString { line })
        }
    } else {
        TokenKind::TokErr(TokenizationError::UnexpectedCharacter { ch: c, line })
    }
}

/// The line counter behind the token that starts at `i`: one more after a new
/// line, else unchanged.
pub open spec fn line_after(s: Seq<char>, i: int, line: usize) -> usize {
    if peek(s, i) == BACKSLASH_N {
        (line + 1) as usize
    } else {
        line
    }
}

/// The token that starts at `i`, read on line `line`.
pub open spec fn token_at(s: Seq<char>, i: int, line: usize) -> TagToken {
    TagToken {
        kind: token_kind(s, i, line),
        len: utf8_len(s, i, token_end(s, i)) as usize,
        line: line_after(s, i, line),
    }
}

/// The tokens of `s` from index `i` on, read from line `line` on. The end
/// marker is not among them.
pub open spec fn tokens_from(s: Seq<char>, i: int, line: usize) -> Seq<TagToken>
    decreases s.len() - i,
{
    if 0 <= i < token_end(s, i) <= s.len() {
        seq![token_at(s, i, line)] + tokens_from(s, token_end(s, i), line_after(s, i, line))
    } else {
        Seq::empty()
    }
}

/// The tokens of the whole of `s`.
pub open spec fn tokens_of(s: Seq<char>) -> Seq<TagToken> {
    tokens_from(s, 0, 1)
}

/// Sum of the lengths of `tokens`.
pub open spec fn total_len(tokens: Seq<TagToken>) -> nat
    decreases tokens.len(),
{
    if tokens.len() == 0 {
        0
    } else {
        tokens[0].len as nat + total_len(tokens.drop_first())
    }
}

/// A string ends behind its start and within the input.
pub proof fn lemma_string_end_bounds(s: Seq<char>, j: int)
    requires
        0 <= j <= s.len(),
    ensures
        j <= string_end(s, j) <= s.len(),
        !string_closed(s, j) ==> string_end(s, j) == s.len(),
    decreases s.len() - j,
{
    if j < s.len() {
        if s[j] == '"' {
        } else if escape_at(s, j) {
            lemma_string_end_bounds(s, j + 2);
        } else {
            lemma_string_end_bounds(s, j + 1);
        }
    }
}

/// Every token holds at least one character and ends within the input.
pub proof fn lemma_token_end_bounds(s: Seq<char>, i: int)
    requires
        0 <= i < s.len(),
    ensures
        i < token_end(s, i) <= s.len(),
{
    let c = s[i];
    if c == BACKSLASH_N {
    } else if c == '/' {
        if peek(s, i + 1) == '/' {
            lemma_run_end_bounds(s, i + 2, CharClass::CommentBody);
        }
    } else if compound_lead(c) {
    } else if punctuation(c) is Some {
    } else if white_space(c) {
        lemma_run_end_bounds(s, i + 1, CharClass::Whitespace);
    } else if id_start(c) {
        let j = run_end(s, i + 1, CharClass::IdContinue);
        lemma_run_end_bounds(s, i + 1, CharClass::IdContinue);
        lemma_run_end_bounds(s, j, CharClass::InvalidIdentBody);
    } else if decimal_digit(c) {
        let j = run_end(s, i + 1, CharClass::Digits);
        lemma_run_end_bounds(s, i + 1, CharClass::Digits);
        if peek(s, j) == '.' && decimal_digit(peek(s, j + 1)) {
            lemma_run_end_bounds(s, j + 1, CharClass::Digits);
        }
    } else if c == '"' {
        lemma_string_end_bounds(s, i + 1);
    }
}

impl Cursor {
    /// Eats a run of whitespace.
    fn whitespace(&mut self) -> (r: TokenKind)
        requires
            old(self).wf(),
        ensures
            final(self).wf(),
            r == TokenKind::Whitespace,
            final(self)@ == (CursorView {
                index: run_end(old(self)@.source, old(self)@.index, CharClass::Whitespace),
                ..old(self)@
            }),
    {
        self.eat_while(CharClass::Whitespace);
        TokenKind::Whitespace
    }

    /// Eats the second `/` of a comment and the rest of the line.
    fn line_comment(&mut self) -> (r: TokenKind)
        requires
            old(self).wf(),
            old(self)@.index < old(self)@.source.len(),
        ensures
            final(self).wf(),
            r == TokenKind::LineComment,
            final(self)@ == (CursorView {
                index: run_end(old(self)@.source, old(self)@.index + 1, CharClass::CommentBody),
                ..old(self)@
            }),
    {
        self.bump();
        self.eat_while(CharClass::CommentBody);
        TokenKind::LineComment
    }

    /// Eats a double-quoted string and returns true if it is terminated.
    fn double_quoted_string(&mut self) -> (terminated: bool)
        requires
            old(self).wf(),
        ensures
            final(self).wf(),
            terminated == string_closed(old(self)@.source, old(self)@.index),
            final(self)@ == (CursorView {
                index: string_end(old(self)@.source, old(self)@.index),
                ..old(self)@
            }),
    {
        proof {
            self.lemma_wf();
        }
        loop
            invariant
                self.wf(),
                self@.source == old(self)@.source,
                self@.token_start == old(self)@.token_start,
                self@.line == old(self)@.line,
                0 <= self@.index <= self@.source.len(),
                string_end(self@.source, self@.index) == string_end(
                    old(self)@.source,
                    old(self)@.index,
                ),
                string_closed(self@.source, self@.index) == string_closed(
                    old(self)@.source,
                    old(self)@.index,
                ),
            decreases self@.source.len() - self@.index,
        {
            match self.bump() {
                None => {
                    return false;
                },
                Some(c) => {
                    if c == '"' {
                        return true;
                    }
                    if c == '\\' {
                        let next = self.first();
                        if next == '\\' || next == '"' {
                            // Bump again to skip the escaped character.
                            self.bump();
                        }
                    }
                },
            }
        }
    }

    /// Eats the rest of an identifier and decides what it is.
    fn ident_or_unknown_prefix(&mut self) -> (r: TokenKind)
        requires
            old(self).wf(),
            0 < old(self)@.index,
        ensures
            final(self).wf(),
            r == ident_kind(old(self)@.source, old(self)@.index - 1, old(self)@.line),
            final(self)@ == (CursorView {
                index: ident_end(old(self)@.source, old(self)@.index - 1),
                ..old(self)@
            }),
    {
        // Start is already eaten, eat the rest of identifier.
        self.eat_while(CharClass::IdContinue);
        let next = self.first();
        if next == '#' || next == '"' || next == '\'' {
            TokenKind::TokErr(TokenizationError::UnknownPrefix { line: self.line() })
        } else if is_emoji(next) {
            self.invalid_ident()
        } else {
            TokenKind::Identifier
        }
    }

    /// Eats the rest of an identifier that holds emoji.
    fn invalid_ident(&mut self) -> (r: TokenKind)
        requires
            old(self).wf(),
        ensures
            final(self).wf(),
            r == TokenKind::TokErr(TokenizationError::InvalidIdent { line: old(self)@.line }),
            final(self)@ == (CursorView {
                index: run_end(old(self)@.source, old(self)@.index, CharClass::InvalidIdentBody),
                ..old(self)@
            }),
    {
        self.eat_while(CharClass::InvalidIdentBody);
        TokenKind::TokErr(TokenizationError::InvalidIdent { line: self.line() })
    }

    /// Eats the rest of a number.
    fn number(&mut self) -> (r: LiteralKind)
        requires
            old(self).wf(),
            0 < old(self)@.index,
        ensures
            final(self).wf(),
            r == LiteralKind::Number,
            final(self)@ == (CursorView {
                index: number_end(old(self)@.source, old(self)@.index - 1),
                ..old(self)@
            }),
    {
        // Eat integer part
        self.eat_decimal_digits();
        proof {
            self.lemma_wf();
        }
        // Make sure the pattern is `<numeric>.<numeric>`
        if self.first() == '.' && is_decimal_digit(self.second()) {
            self.bump();  // Eat `.`
            self.eat_decimal_digits();
        }
        LiteralKind::Number
    }

    /// Eats digits and `_`, which may separate them, and says whether a digit
    /// was among them.
    fn eat_decimal_digits(&mut self) -> (has_digits: bool)
        requires
            old(self).wf(),
        ensures
            final(self).wf(),
            final(self)@ == (CursorView {
                index: run_end(old(self)@.source, old(self)@.index, CharClass::Digits),
                ..old(self)@
            }),
            has_digits == exists|k: int|
                old(self)@.index <= k < final(self)@.index && decimal_digit(
                    #[trigger] old(self)@.source[k],
                ),
    {
        let mut has_digits = false;
        proof {
            self.lemma_wf();
        }
        while CharClass::Digits.contains(self.first()) && !self.is_eof()
            invariant
                self.wf(),
                self@.source == old(self)@.source,
                self@.token_start == old(self)@.token_start,
                self@.line == old(self)@.line,
                0 <= old(self)@.index <= self@.index <= self@.source.len(),
                run_end(self@.source, self@.index, CharClass::Digits) == run_end(
                    old(self)@.source,
                    old(self)@.index,
                    CharClass::Digits,
                ),
                has_digits == exists|k: int|
                    old(self)@.index <= k < self@.index && decimal_digit(
                        #[trigger] old(self)@.source[k],
                    ),
            decreases self@.source.len() - self@.index,
        {
            if is_decimal_digit(self.first()) {
                has_digits = true;
            }
            self.bump();
            assert(has_digits ==> exists|k: int|
                old(self)@.index <= k < self@.index && decimal_digit(
                    #[trigger] old(self)@.source[k],
                )) by {
                if decimal_digit(old(self)@.source[self@.index - 1]) {
                }
            }
        }
        has_digits
    }

    /// Eats the `=` of `==`.
    fn equal_equal(&mut self) -> (r: TokenKind)
        requires
            old(self).wf(),
            old(self)@.index < old(self)@.source.len(),
        ensures
            final(self).wf(),
            r == TokenKind::EqEq,
            final(self)@ == (CursorView { index: old(self)@.index + 1, ..old(self)@ }),
    {
        self.bump();
        TokenKind::EqEq
    }

    /// Eats the `=` of `!=`.
    fn bang_equal(&mut self) -> (r: TokenKind)
        requires
            old(self).wf(),
            old(self)@.index < old(self)@.source.len(),
        ensures
            final(self).wf(),
            r == TokenKind::BangEq,
            final(self)@ == (CursorView { index: old(self)@.index + 1, ..old(self)@ }),
    {
        self.bump();
        TokenKind::BangEq
    }

    /// Eats the `=` of `<=`.
    fn less_equal(&mut self) -> (r: TokenKind)
        requires
            old(self).wf(),
            old(self)@.index < old(self)@.source.len(),
        ensures
            final(self).wf(),
            r == TokenKind::LtEq,
            final(self)@ == (CursorView { index: old(self)@.index + 1, ..old(self)@ }),
    {
        self.bump();
        TokenKind::LtEq
    }

    /// Eats the `=` of `>=`.
    fn greater_equal(&mut self) -> (r: TokenKind)
        requires
            old(self).wf(),
            old(self)@.index < old(self)@.source.len(),
        ensures
            final(self).wf(),
            r == TokenKind::GtEq,
            final(self)@ == (CursorView { index: old(self)@.index + 1, ..old(self)@ }),
    {
        self.bump();
        TokenKind::GtEq
    }

    /// Whether the line counter can count the new lines that are left.
    pub open spec fn line_room(&self) -> bool {
        self@.line + (self@.source.len() - self@.index) <= usize::MAX
    }

    /// Parses a token from the input string, and resets the byte counter.
    ///
    /// At the end of the input the token is `Eof`, of length 0.
    pub fn advance_token(&mut self) -> (r: TagToken)
        requires
            old(self).wf(),
            old(self).line_room(),
        ensures
            final(self).wf(),
            final(self).line_room(),
            old(self)@.index >= old(self)@.source.len() ==> {
                &&& r == (TagToken { kind: TokenKind::Eof, len: 0, line: old(self)@.line })
                &&& final(self)@ == (CursorView { token_start: old(self)@.index, ..old(self)@ })
            },
            old(self)@.index < old(self)@.source.len() ==> {
                &&& r.kind == token_kind(old(self)@.source, old(self)@.index, old(self)@.line)
                &&& r.len == utf8_len(
                    old(self)@.source,
                    old(self)@.token_start,
                    token_end(old(self)@.source, old(self)@.index),
                )
                &&& r.line == line_after(old(self)@.source, old(self)@.index, old(self)@.line)
                &&& final(self)@ == (CursorView {
                    source: old(self)@.source,
                    index: token_end(old(self)@.source, old(self)@.index),
                    token_start: token_end(old(self)@.source, old(self)@.index),
                    line: line_after(old(self)@.source, old(self)@.index, old(self)@.line),
                })
            },
    {
        proof {
            self.lemma_wf();
        }
        let first_char = match self.bump() {
            Some(c) => c,
            None => {
                self.reset_pos_within_token();
                return TagToken::new(TokenKind::Eof, 0, self.line());
            },
        };
        proof {
            lemma_token_end_bounds(old(self)@.source, old(self)@.index);
        }
        let next = self.first();
        let token_kind = if first_char == BACKSLASH_N {
            *self.line_mut() += 1;
            TokenKind::NewLine
        } else if first_char == '/' {
            if next == '/' {
                self.line_comment()
            } else {
                TokenKind::Slash
            }
        } else if first_char == '=' {
            if next == '=' {
                self.equal_equal()
            } else {
                TokenKind::Eq
            }
        } else if first_char == '!' {
            if next == '=' {
                self.bang_equal()
            } else {
                TokenKind::Bang
            }
        } else if first_char == '<' {
            if next == '=' {
                self.less_equal()
            } else {
                TokenKind::Lt
            }
        } else if first_char == '>' {
            if next == '=' {
                self.greater_equal()
            } else {
                TokenKind::Gt
            }
        } else if first_char == ';' {
            TokenKind::Semi
        } else if first_char == ',' {
            TokenKind::Comma
        } else if first_char == '.' {
            TokenKind::Dot
        } else if first_char == '(' {
            TokenKind::OpenParen
        } else if first_char == ')' {
            TokenKind::CloseParen
        } else if first_char == '{' {
            TokenKind::OpenBrace
        } else if first_char == '}' {
            TokenKind::CloseBrace
        } else if first_char == '[' {
            TokenKind::OpenBracket
        } else if first_char == ']' {
            TokenKind::CloseBracket
        } else if first_char == '-' {
            TokenKind::Minus
        } else if first_char == '+' {
            TokenKind::Plus
        } else if first_char == '*' {
            TokenKind::Star
        } else if is_whitespace(first_char) {
            self.whitespace()
        } else if is_id_start(first_char) {
            self.ident_or_unknown_prefix()
        } else if is_decimal_digit(first_char) {
            let literal_kind = self.number();
            TokenKind::Literal { kind: literal_kind }
        } else if first_char == '"' {
            let terminated = self.double_quoted_string();
            if terminated {
                TokenKind::Literal { kind: LiteralKind::Str }
            } else {
                TokenKind::TokErr(TokenizationError::UnterminatedString { line: self.line() })
            }
        } else {
            TokenKind::TokErr(
                TokenizationError::UnexpectedCharacter { ch: first_char, line: self.line() },
            )
        };
        let res = TagToken::new(token_kind, self.pos_within_token(), self.line());
        // Remember to reset the consumed bytes length!
        self.reset_pos_within_token();
        res
    }
}

/// Line numbers never go down along `tokens`.
pub open spec fn lines_ascend(tokens: Seq<TagToken>) -> bool {
    forall|a: int, b: int| 0 <= a <= b < tokens.len() ==> tokens[a].line <= tokens[b].line
}

/// No token of the input is the end marker.
pub proof fn lemma_never_eof(s: Seq<char>, i: int, line: usize)
    requires
        0 <= i < s.len(),
    ensures
        !(token_kind(s, i, line) is Eof),
{
}

/// The token at `i` and the tokens behind it.
pub proof fn lemma_tokens_from_unfold(s: Seq<char>, i: int, line: usize)
    requires
        0 <= i < s.len(),
    ensures
        tokens_from(s, i, line) == seq![token_at(s, i, line)] + tokens_from(
            s,
            token_end(s, i),
            line_after(s, i, line),
        ),
        tokens_from(s, i, line).len() > 0,
        tokens_from(s, i, line)[0] == token_at(s, i, line),
        tokens_from(s, i, line).drop_first() == tokens_from(
            s,
            token_end(s, i),
            line_after(s, i, line),
        ),
{
    lemma_token_end_bounds(s, i);
    let rest = tokens_from(s, token_end(s, i), line_after(s, i, line));
    assert((seq![token_at(s, i, line)] + rest).drop_first() =~= rest);
}

/// The lengths of the tokens behind `i` add up to the bytes behind `i`.
pub proof fn lemma_lengths_add_up(s: Seq<char>, i: int, line: usize)
    requires
        0 <= i <= s.len(),
        utf8_size(s) <= usize::MAX,
    ensures
        total_len(tokens_from(s, i, line)) == utf8_len(s, i, s.len() as int),
    decreases s.len() - i,
{
    if i < s.len() {
        let end = token_end(s, i);
        lemma_token_end_bounds(s, i);
        lemma_tokens_from_unfold(s, i, line);
        lemma_lengths_add_up(s, end, line_after(s, i, line));
        lemma_utf8_len_split(s, i, end, s.len() as int);
        lemma_utf8_len_split(s, 0, i, s.len() as int);
    }
}

/// The tokens behind `i` carry lines from `line` on, in ascending order.
pub proof fn lemma_lines_ascend(s: Seq<char>, i: int, line: usize)
    requires
        0 <= i <= s.len(),
        line + (s.len() - i) <= usize::MAX,
    ensures
        lines_ascend(tokens_from(s, i, line)),
        forall|k: int|
            0 <= k < tokens_from(s, i, line).len() ==> line <= (#[trigger] tokens_from(
                s,
                i,
                line,
            )[k]).line,
    decreases s.len() - i,
{
    if i < s.len() {
        let end = token_end(s, i);
        let next = line_after(s, i, line);
        let all = tokens_from(s, i, line);
        let rest = tokens_from(s, end, next);
        lemma_token_end_bounds(s, i);
        lemma_tokens_from_unfold(s, i, line);
        lemma_lines_ascend(s, end, next);
        assert forall|k: int| 0 <= k < all.len() implies line <= (#[trigger] all[k]).line by {
            if k > 0 {
                assert(all[k] == rest[k - 1]);
            }
        }
        assert forall|a: int, b: int| 0 <= a <= b < all.len() implies all[a].line
            <= all[b].line by {
            if a > 0 {
                assert(all[a] == rest[a - 1]);
                assert(all[b] == rest[b - 1]);
            } else if b > 0 {
                assert(all[b] == rest[b - 1]);
            }
        }
    }
}

/// The tokens of `input`, without the end marker.
///
/// Their lengths add up to the length of `input` in bytes, and their lines
/// never go down.
pub fn tokenize(input: &str) -> (tokens: Vec<TagToken>)
    requires
        utf8_size(input@) < usize::MAX,
    ensures
        tokens@ == tokens_of(input@),
        total_len(tokens@) == utf8_size(input@),
        total_len(tokens@) == input.spec_bytes().len(),
        lines_ascend(tokens@),
{
    let mut cursor = Cursor::new(input);
    let mut tokens: Vec<TagToken> = Vec::new();
    proof {
        crate::unicode::lemma_utf8_size_is_encoded_len(input@);
        cursor.lemma_wf();
        lemma_lengths_add_up(input@, 0, 1);
        lemma_lines_ascend(input@, 0, 1);
    }
    while !cursor.is_eof()
        invariant
            cursor.wf(),
            cursor.line_room(),
            cursor@.source == input@,
            cursor@.token_start == cursor@.index,
            0 <= cursor@.index <= input@.len(),
            tokens@ + tokens_from(input@, cursor@.index, cursor@.line) == tokens_of(input@),
        decreases input@.len() - cursor@.index,
    {
        let ghost i = cursor@.index;
        let ghost line = cursor@.line;
        let ghost before = tokens@;
        let token = cursor.advance_token();
        proof {
            lemma_token_end_bounds(input@, i);
            lemma_tokens_from_unfold(input@, i, line);
            lemma_utf8_len_monotonic(input@, i, token_end(input@, i), input@.len() as int);
            lemma_utf8_len_split(input@, 0, i, input@.len() as int);
            assert(token == token_at(input@, i, line));
        }
        tokens.push(token);
        assert(tokens@ + tokens_from(input@, cursor@.index, cursor@.line) =~= before
            + tokens_from(input@, i, line));
    }
    assert(tokens@ + tokens_from(input@, cursor@.index, cursor@.line) =~= tokens@);
    tokens
}

/// Same as [`tokenize`], but with the end marker behind the last token.
pub fn tokenize_with_eof(input: &str) -> (tokens: Vec<TagToken>)
    requires
        utf8_size(input@) < usize::MAX,
    ensures
        tokens@.len() == tokens_of(input@).len() + 1,
        tokens@.drop_last() == tokens_of(input@),
        tokens@.last().kind == TokenKind::Eof,
        tokens@.last().len == 0,
        tokens@.last().line == if tokens_of(input@).len() == 0 {
            1
        } else {
            tokens_of(input@).last().line
        },
{
    let mut tokens = tokenize(input);
    let line = if tokens.len() == 0 {
        1
    } else {
        tokens[tokens.len() - 1].line
    };
    let ghost before = tokens@;
    tokens.push(TagToken::new(TokenKind::Eof, 0, line));
    assert(tokens@.drop_last() =~= before);
    tokens
}

/// What it takes to be an identifier: a start character, then only
/// continuation characters.
pub open spec fn ident(s: Seq<char>) -> bool {
    &&& s.len() > 0
    &&& id_start(s[0])
    &&& forall|k: int| 1 <= k < s.len() ==> crate::unicode::id_continue(#[trigger] s[k])
}

/// The passed string is lexically an identifier.
pub fn is_ident(string: &str) -> (r: bool)
    ensures
        r == ident(string@),
{
    let chars = crate::text::chars_of(string);
    if chars.len() == 0 {
        return false;
    }
    if !is_id_start(chars[0]) {
        return false;
    }
    let mut k: usize = 1;
    while k < chars.len()
        invariant
            1 <= k <= chars.len(),
            chars@ == string@,
            forall|j: int| 1 <= j < k ==> crate::unicode::id_continue(#[trigger] chars[j]),
        decreases chars.len() - k,
    {
        if !is_id_continue(chars[k]) {
            return false;
        }
        k += 1;
    }
    true
}

} // verus!
