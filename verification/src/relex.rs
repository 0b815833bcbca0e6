//! Facts about single tokens: a string without its end, and the text of a
//! token lexed once more.

use vstd::prelude::*;
use crate::cursor::{lemma_run_end_bounds, peek, run_end, CharClass};
use crate::lexer::{
    escape_at, lemma_string_end_bounds, lemma_token_end_bounds, lemma_tokens_from_unfold,
    string_closed, string_end, token_at, token_end, token_kind, tokens_from,
};
use crate::token::{TagToken, TokenKind, TokenizationError};
use crate::unicode::{decimal_digit, emoji, utf8_len};

verus! {

/// A string that is not closed before the input ends gives exactly one
/// token: the error `UnterminatedString`, with the line the string starts
/// on, over all that is left of the input.
pub proof fn lemma_unterminated_string(s: Seq<char>, i: int, line: usize)
    requires
        0 <= i < s.len(),
        s[i] == '"',
        !string_closed(s, i + 1),
    ensures
        tokens_from(s, i, line) == seq![
            TagToken {
                kind: TokenKind::TokErr(TokenizationError::UnterminatedString { line }),
                len: utf8_len(s, i, s.len() as int) as usize,
                line,
            },
        ],
{
    lemma_string_end_bounds(s, i + 1);
    lemma_token_end_bounds(s, i);
    lemma_tokens_from_unfold(s, i, line);
    assert(token_end(s, i) == s.len());
    assert(tokens_from(s, s.len() as int, line) =~= Seq::empty());
    assert(seq![token_at(s, i, line)] + Seq::empty() =~= seq![token_at(s, i, line)]);
}

/// A run inside a piece of the input ends where it ends in the input, if
/// that is within the piece.
pub proof fn lemma_run_in_piece(s: Seq<char>, from: int, to: int, a: int, class: CharClass)
    requires
        0 <= from <= a <= to <= s.len(),
        run_end(s, a, class) <= to,
    ensures
        run_end(s.subrange(from, to), a - from, class) == run_end(s, a, class) - from,
    decreases to - a,
{
    let t = s.subrange(from, to);
    lemma_run_end_bounds(s, a, class);
    if a < to {
        assert(t[a - from] == s[a]);
        if class.has(s[a]) {
            lemma_run_end_bounds(s, a + 1, class);
            lemma_run_in_piece(s, from, to, a + 1, class);
        }
    }
}

/// A string that starts within the input holds at least one character.
pub proof fn lemma_string_end_strict(s: Seq<char>, j: int)
    requires
        0 <= j < s.len(),
    ensures
        j < string_end(s, j),
{
    if s[j] == '"' {
    } else if escape_at(s, j) {
        lemma_string_end_bounds(s, j + 2);
    } else {
        lemma_string_end_bounds(s, j + 1);
    }
}

/// A string inside a piece of the input ends where it ends in the input, if
/// that is within the piece.
pub proof fn lemma_string_in_piece(s: Seq<char>, from: int, to: int, j: int)
    requires
        0 <= from <= j <= to <= s.len(),
        string_end(s, j) == to,
        string_closed(s, j) || to == s.len(),
    ensures
        string_end(s.subrange(from, to), j - from) == to - from,
        string_closed(s.subrange(from, to), j - from) == string_closed(s, j),
    decreases to - j,
{
    let t = s.subrange(from, to);
    if j < s.len() {
        lemma_string_end_strict(s, j);
    }
    if j < to {
        assert(t[j - from] == s[j]);
        if s[j] == '"' {
        } else {
            if j + 1 < to {
                assert(t[j + 1 - from] == s[j + 1]);
            }
            assert(peek(t, j + 1 - from) == peek(s, j + 1) || (j + 1 == to && peek(
                t,
                j + 1 - from,
            ) == '\0'));
            if escape_at(s, j) {
                lemma_string_end_bounds(s, j + 2);
                if j + 1 == to {
                    // The escaped character lies behind the piece: then the
                    // string would end behind the piece, too.
                    assert(string_end(s, j + 2) >= j + 2);
                } else {
                    assert(escape_at(t, j - from));
                    lemma_string_in_piece(s, from, to, j + 2);
                }
            } else {
                lemma_string_end_bounds(s, j + 1);
                if j + 1 < s.len() {
                    lemma_string_end_strict(s, j + 1);
                }
                assert(!escape_at(t, j - from));
                lemma_string_in_piece(s, from, to, j + 1);
            }
        }
    }
}

/// Lexing the text of a token once more gives a token of the same kind over
/// the whole of the text, for every token that means something to the
/// parser, the error `UnknownPrefix` apart: the identifier before `#`, `"`
/// or `'` is an identifier when it stands alone.
pub proof fn lemma_same_kind_again(s: Seq<char>, i: int, line: usize)
    requires
        0 <= i < s.len(),
        !token_kind(s, i, line).trivia(),
        token_kind(s, i, line) != TokenKind::TokErr(TokenizationError::UnknownPrefix { line }),
    ensures
        token_kind(s.subrange(i, token_end(s, i)), 0, line) == token_kind(s, i, line),
        token_end(s.subrange(i, token_end(s, i)), 0) == token_end(s, i) - i,
{
    lemma_token_end_bounds(s, i);
    let end = token_end(s, i);
    let t = s.subrange(i, end);
    let c = s[i];
    assert(t[0] == c);
    assert(peek(t, 0) == c);
    assert(end - i >= 2 ==> peek(t, 1) == peek(s, i + 1)) by {
        if end - i >= 2 {
            assert(t[1] == s[i + 1]);
        }
    }
    assert(end - i == 1 ==> peek(t, 1) == '\0');
    if c == '\n' {
    } else if c == '/' {
    } else if crate::lexer::compound_lead(c) {
    } else if crate::lexer::punctuation(c) is Some {
    } else if crate::unicode::white_space(c) {
    } else if crate::unicode::id_start(c) {
        let j = run_end(s, i + 1, CharClass::IdContinue);
        lemma_run_end_bounds(s, i + 1, CharClass::IdContinue);
        lemma_run_end_bounds(s, j, CharClass::InvalidIdentBody);
        assert(j <= end);
        lemma_run_in_piece(s, i, end, i + 1, CharClass::IdContinue);
        if emoji(peek(s, j)) {
            assert(j < s.len());
            assert(CharClass::InvalidIdentBody.has(s[j]));
            assert(end > j);
            assert(t[j - i] == s[j]);
            lemma_run_in_piece(s, i, end, j, CharClass::InvalidIdentBody);
        } else {
            assert(peek(t, j - i) == '\0');
        }
    } else if decimal_digit(c) {
        let j = run_end(s, i + 1, CharClass::Digits);
        lemma_run_end_bounds(s, i + 1, CharClass::Digits);
        if peek(s, j) == '.' && decimal_digit(peek(s, j + 1)) {
            lemma_run_end_bounds(s, j + 1, CharClass::Digits);
            assert(CharClass::Digits.has(s[j + 1]));
            assert(end >= j + 2);
            lemma_run_in_piece(s, i, end, i + 1, CharClass::Digits);
            assert(t[j - i] == s[j]);
            assert(t[j + 1 - i] == s[j + 1]);
            lemma_run_in_piece(s, i, end, j + 1, CharClass::Digits);
        } else {
            lemma_run_in_piece(s, i, end, i + 1, CharClass::Digits);
            assert(peek(t, j - i) == '\0');
        }
    } else if c == '"' {
        lemma_string_end_bounds(s, i + 1);
        lemma_string_in_piece(s, i, end, i + 1);
    } else {
    }
}

} // verus!
