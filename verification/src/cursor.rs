//! A peekable stream of characters with a line counter.

use vstd::prelude::*;
use crate::text::{chars_of, string_of};
use crate::unicode::{
    char_width, decimal_digit, emoji, id_continue, is_decimal_digit, is_emoji, is_id_continue,
    is_whitespace, lemma_utf8_len_bounds, lemma_utf8_len_monotonic, lemma_utf8_len_split,
    utf8_len, utf8_size, white_space, BACKSLASH_N, EOF_CHAR, ZERO_WIDTH_JOINER,
};

verus! {

/// What a cursor is, to its callers.
pub struct CursorView {
    /// The whole input.
    pub source: Seq<char>,
    /// Index of the next character.
    pub index: int,
    /// Index at which the byte counter was last reset.
    pub token_start: int,
    /// The line counter.
    pub line: usize,
}

/// Peekable iterator over a char sequence.
///
/// Next characters can be peeked via `first`,
/// and position can be shifted forward via `bump`.
pub struct Cursor {
    chars: Vec<char>,
    pos: usize,
    start: usize,
    consumed: usize,
    prev_ch: char,
    line: usize,
}

/// The character of `s` at `i`, or `EOF_CHAR` where there is none.
pub open spec fn peek(s: Seq<char>, i: int) -> char {
    if 0 <= i < s.len() {
        s[i]
    } else {
        EOF_CHAR
    }
}

/// The classes of characters the lexer eats in runs.
#[derive(Clone, Copy, Debug, PartialEq, Eq, Structural)]
pub enum CharClass {
    /// Whitespace but for the new line.
    Whitespace,
    /// What may continue an identifier.
    IdContinue,
    /// Everything up to the end of the line.
    CommentBody,
    /// What may continue an identifier, emoji and the zero width joiner.
    InvalidIdentBody,
    /// Decimal digits and `_`.
    Digits,
}

impl CharClass {
    /// Whether `c` belongs to the class.
    pub open spec fn has(self, c: char) -> bool {
        match self {
            CharClass::Whitespace => white_space(c) && c != BACKSLASH_N,
            CharClass::IdContinue => id_continue(c),
            CharClass::CommentBody => c != BACKSLASH_N,
            CharClass::InvalidIdentBody => id_continue(c) || emoji(c) || c == ZERO_WIDTH_JOINER,
            CharClass::Digits => c == '_' || decimal_digit(c),
        }
    }

    /// Whether `c` belongs to the class.
    pub fn contains(self, c: char) -> (r: bool)
        ensures
            r == self.has(c),
    {
        match self {
            CharClass::Whitespace => is_whitespace(c),
            CharClass::IdContinue => is_id_continue(c),
            CharClass::CommentBody => c != BACKSLASH_N,
            CharClass::InvalidIdentBody => is_id_continue(c) || is_emoji(c) || c
                == ZERO_WIDTH_JOINER,
            CharClass::Digits => c == '_' || is_decimal_digit(c),
        }
    }
}

/// Index of the first character at or after `i` that is not in `class`, or the
/// length of `s` if there is none.
pub open spec fn run_end(s: Seq<char>, i: int, class: CharClass) -> int
    decreases s.len() - i,
{
    if 0 <= i < s.len() && class.has(s[i]) {
        run_end(s, i + 1, class)
    } else {
        i
    }
}

/// A run ends at or after its start, and within the input.
pub proof fn lemma_run_end_bounds(s: Seq<char>, i: int, class: CharClass)
    requires
        0 <= i <= s.len(),
    ensures
        i <= run_end(s, i, class) <= s.len(),
        forall|k: int| i <= k < run_end(s, i, class) ==> class.has(#[trigger] s[k]),
        run_end(s, i, class) < s.len() ==> !class.has(s[run_end(s, i, class)]),
    decreases s.len() - i,
{
    if i < s.len() && class.has(s[i]) {
        lemma_run_end_bounds(s, i + 1, class);
    }
}

impl View for Cursor {
    type V = CursorView;

    closed spec fn view(&self) -> CursorView {
        CursorView {
            source: self.chars@,
            index: self.pos as int,
            token_start: self.start as int,
            line: self.line,
        }
    }
}

impl Cursor {
    /// The cursor's position lies in its input, and its byte counter holds the
    /// bytes since the last reset.
    pub closed spec fn wf(&self) -> bool {
        &&& self.start <= self.pos <= self.chars.len()
        &&& self.consumed == utf8_len(self.chars@, self.start as int, self.pos as int)
        &&& utf8_size(self.chars@) < usize::MAX
    }

    /// The last character consumed, or `EOF_CHAR` before the first.
    pub closed spec fn last(&self) -> char {
        self.prev_ch
    }

    /// What a well-formed cursor guarantees of its view.
    pub proof fn lemma_wf(&self)
        requires
            self.wf(),
        ensures
            0 <= self@.token_start <= self@.index <= self@.source.len(),
            utf8_size(self@.source) < usize::MAX,
            self@.source.len() < usize::MAX,
    {
        lemma_utf8_len_bounds(self.chars@, 0, self.chars.len() as int);
    }

    /// A cursor at the start of `input`, on line 1.
    pub fn new(input: &str) -> (r: Cursor)
        requires
            utf8_size(input@) < usize::MAX,
        ensures
            r.wf(),
            r@ == (CursorView { source: input@, index: 0, token_start: 0, line: 1 }),
            r.last() == EOF_CHAR,
    {
        Cursor { chars: chars_of(input), pos: 0, start: 0, consumed: 0, prev_ch: EOF_CHAR, line: 1 }
    }

    /// The input that is left.
    pub fn as_str(&self) -> (r: String)
        requires
            self.wf(),
        ensures
            r@ == self@.source.skip(self@.index),
    {
        string_of(&self.chars, self.pos, self.chars.len())
    }

    /// Returns the last eaten symbol, or `EOF_CHAR` if there is none.
    pub fn prev(&self) -> (r: char)
        ensures
            r == self.last(),
    {
        self.prev_ch
    }

    /// Peeks the next symbol from the input stream without consuming it.
    /// If requested position doesn't exist, `EOF_CHAR` is returned.
    /// However, getting `EOF_CHAR` doesn't always mean actual end of file,
    /// it should be checked with `is_eof` method.
    pub fn first(&self) -> (r: char)
        requires
            self.wf(),
        ensures
            r == peek(self@.source, self@.index),
    {
        if self.pos < self.chars.len() {
            self.chars[self.pos]
        } else {
            EOF_CHAR
        }
    }

    /// Peeks the second symbol from the input stream without consuming it.
    pub fn second(&self) -> (r: char)
        requires
            self.wf(),
        ensures
            r == peek(self@.source, self@.index + 1),
    {
        if self.chars.len() - self.pos > 1 {
            self.chars[self.pos + 1]
        } else {
            EOF_CHAR
        }
    }

    /// Peeks the third symbol from the input stream without consuming it.
    pub fn third(&self) -> (r: char)
        requires
            self.wf(),
        ensures
            r == peek(self@.source, self@.index + 2),
    {
        if self.chars.len() - self.pos > 2 {
            self.chars[self.pos + 2]
        } else {
            EOF_CHAR
        }
    }

    /// Checks if there is nothing more to consume.
    pub fn is_eof(&self) -> (r: bool)
        requires
            self.wf(),
        ensures
            r == (self@.index == self@.source.len()),
    {
        self.pos == self.chars.len()
    }

    /// Returns the number of bytes consumed since the last reset.
    pub fn pos_within_token(&self) -> (r: usize)
        requires
            self.wf(),
        ensures
            r == utf8_len(self@.source, self@.token_start, self@.index),
    {
        self.consumed
    }

    /// Resets the number of bytes consumed to `0`.
    pub fn reset_pos_within_token(&mut self)
        requires
            old(self).wf(),
        ensures
            final(self).wf(),
            final(self)@ == (CursorView { token_start: old(self)@.index, ..old(self)@ }),
            final(self).last() == old(self).last(),
    {
        self.start = self.pos;
        self.consumed = 0;
    }

    /// Moves to the next character.
    pub fn bump(&mut self) -> (r: Option<char>)
        requires
            old(self).wf(),
        ensures
            final(self).wf(),
            old(self)@.index < old(self)@.source.len() ==> {
                &&& r == Some(old(self)@.source[old(self)@.index])
                &&& final(self)@ == (CursorView { index: old(self)@.index + 1, ..old(self)@ })
                &&& final(self).last() == old(self)@.source[old(self)@.index]
            },
            old(self)@.index >= old(self)@.source.len() ==> {
                &&& r is None
                &&& final(self)@ == old(self)@
                &&& final(self).last() == old(self).last()
            },
    {
        if self.pos < self.chars.len() {
            let c = self.chars[self.pos];
            proof {
                lemma_utf8_len_monotonic(
                    self.chars@,
                    self.start as int,
                    self.pos + 1,
                    self.chars.len() as int,
                );
                lemma_utf8_len_split(self.chars@, 0, self.start as int, self.chars.len() as int);
            }
            self.consumed = self.consumed + char_width(c);
            self.pos = self.pos + 1;
            self.prev_ch = c;
            Some(c)
        } else {
            None
        }
    }

    /// Eats symbols while they are in `class` or until the end of file is reached.
    pub fn eat_while(&mut self, class: CharClass)
        requires
            old(self).wf(),
        ensures
            final(self).wf(),
            final(self)@ == (CursorView {
                index: run_end(old(self)@.source, old(self)@.index, class),
                ..old(self)@
            }),
    {
        while class.contains(self.first()) && !self.is_eof()
            invariant
                self.wf(),
                self@.source == old(self)@.source,
                self@.token_start == old(self)@.token_start,
                self@.line == old(self)@.line,
                old(self)@.index <= self@.index <= self@.source.len(),
                run_end(self@.source, self@.index, class) == run_end(
                    old(self)@.source,
                    old(self)@.index,
                    class,
                ),
            decreases self@.source.len() - self@.index,
        {
            self.bump();
        }
    }

    /// The line counter.
    pub fn line(&self) -> (r: usize)
        ensures
            r == self@.line,
    {
        self.line
    }

    /// The line counter, to be changed by the lexer.
    pub fn line_mut(&mut self) -> (r: &mut usize)
        ensures
            *r == old(self)@.line,
            final(self)@ == (CursorView { line: *final(r), ..old(self)@ }),
            final(self).wf() == old(self).wf(),
            final(self).last() == old(self).last(),
    {
        &mut self.line
    }
}

} // verus!
