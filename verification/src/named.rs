//! Named tokens: tag-only tokens with the text they were read from.

use vstd::prelude::*;
use crate::lexer::{
    lemma_token_end_bounds, lemma_tokens_from_unfold, token_end, tokens_from, tokens_of,
};
use crate::text::{chars_of, decimal, decimal_of, join, push_char, same_text, string_of};
use crate::token::{LiteralKind, TagToken, TokenKind, TokenizationError};
use crate::unicode::{
    char_width, lemma_utf8_len_monotonic, lemma_utf8_len_split, utf8_len,
    utf8_size, utf8_width,
};

verus! {

/// A token with its text.
///
/// Unlike a [`TagToken`], it holds the characters it was read from.
#[derive(Debug, Clone)]
pub struct Token {
    pub tag: TagToken,
    pub val: String,
}

/// What a [`Token`] holds, with a sequence of characters for its text.
pub struct TokenView {
    pub tag: TagToken,
    pub val: Seq<char>,
}

impl View for Token {
    type V = TokenView;

    open spec fn view(&self) -> TokenView {
        TokenView { tag: self.tag, val: self.val@ }
    }
}

impl TokenView {
    /// Equality of tokens: same kind, same length, same text. The line is not
    /// compared.
    pub open spec fn same(self, other: TokenView) -> bool {
        self.tag.kind == other.tag.kind && self.tag.len == other.tag.len && self.val == other.val
    }
}

impl PartialEq for Token {
    /// Two tokens are equal when kind, length and text are: the line is not
    /// compared.
    fn eq(&self, other: &Self) -> (r: bool) {
        self.tag == other.tag && self.val == other.val
    }
}

impl Eq for Token {

}

impl vstd::std_specs::cmp::PartialEqSpecImpl for Token {
    open spec fn obeys_eq_spec() -> bool {
        true
    }

    open spec fn eq_spec(&self, other: &Self) -> bool {
        self@.same(other@)
    }
}

/// The views of `tokens`, in order.
pub open spec fn tokens_view(tokens: Seq<Token>) -> Seq<TokenView> {
    tokens.map_values(|t: Token| t@)
}

/// The words that no variable, function or class can be named by.
pub open spec fn reserved(word: Seq<char>) -> bool {
    ||| word == "and"@
    ||| word == "class"@
    ||| word == "else"@
    ||| word == "false"@
    ||| word == "for"@
    ||| word == "fun"@
    ||| word == "if"@
    ||| word == "nil"@
    ||| word == "or"@
    ||| word == "print"@
    ||| word == "return"@
    ||| word == "super"@
    ||| word == "this"@
    ||| word == "true"@
    ||| word == "var"@
    ||| word == "while"@
}

/// A reserved word in capitals. For other words, the empty string.
pub open spec fn capitals(word: Seq<char>) -> Seq<char> {
    if word == "and"@ {
        "AND"@
    } else if word == "class"@ {
        "CLASS"@
    } else if word == "else"@ {
        "ELSE"@
    } else if word == "false"@ {
        "FALSE"@
    } else if word == "for"@ {
        "FOR"@
    } else if word == "fun"@ {
        "FUN"@
    } else if word == "if"@ {
        "IF"@
    } else if word == "nil"@ {
        "NIL"@
    } else if word == "or"@ {
        "OR"@
    } else if word == "print"@ {
        "PRINT"@
    } else if word == "return"@ {
        "RETURN"@
    } else if word == "super"@ {
        "SUPER"@
    } else if word == "this"@ {
        "THIS"@
    } else if word == "true"@ {
        "TRUE"@
    } else if word == "var"@ {
        "VAR"@
    } else if word == "while"@ {
        "WHILE"@
    } else {
        Seq::empty()
    }
}

/// A reserved word in capitals, or `None` for a word that is not reserved.
pub fn reserved_word_name(word: &str) -> (r: Option<&'static str>)
    ensures
        r is Some == reserved(word@),
        r is Some ==> r->0@ == capitals(word@),
{
    if same_text(word, "and") {
        Some("AND")
    } else if same_text(word, "class") {
        Some("CLASS")
    } else if same_text(word, "else") {
        Some("ELSE")
    } else if same_text(word, "false") {
        Some("FALSE")
    } else if same_text(word, "for") {
        Some("FOR")
    } else if same_text(word, "fun") {
        Some("FUN")
    } else if same_text(word, "if") {
        Some("IF")
    } else if same_text(word, "nil") {
        Some("NIL")
    } else if same_text(word, "or") {
        Some("OR")
    } else if same_text(word, "print") {
        Some("PRINT")
    } else if same_text(word, "return") {
        Some("RETURN")
    } else if same_text(word, "super") {
        Some("SUPER")
    } else if same_text(word, "this") {
        Some("THIS")
    } else if same_text(word, "true") {
        Some("TRUE")
    } else if same_text(word, "var") {
        Some("VAR")
    } else if same_text(word, "while") {
        Some("WHILE")
    } else {
        None
    }
}

/// Whether `word` is one of the reserved words.
pub fn is_reserved_word(word: &str) -> (r: bool)
    ensures
        r == reserved(word@),
{
    reserved_word_name(word).is_some()
}

/// The token that stands for the reserved word `word` in comparisons: an
/// identifier of that text, on line 0.
pub open spec fn keyword(word: Seq<char>) -> TokenView {
    TokenView {
        tag: TagToken { kind: TokenKind::Identifier, len: word.len() as usize, line: 0 },
        val: word,
    }
}

impl Token {
    /// The token `tag` with the text `val`.
    pub fn new(tag: TagToken, val: String) -> (r: Token)
        ensures
            r@ == (TokenView { tag, val: val@ }),
    {
        Token { tag, val }
    }

    /// Whether the token is a tokenization error.
    pub fn is_err(&self) -> (r: bool)
        ensures
            r == (self@.tag.kind is TokErr),
    {
        self.tag.is_err()
    }

    /// The line of a tokenization error, and of nothing else.
    pub fn try_get_line(&self) -> (r: Option<usize>)
        ensures
            r == match self@.tag.kind {
                TokenKind::TokErr(e) => Some(e.line_of()),
                _ => None,
            },
    {
        self.tag.try_get_line()
    }

    /// A copy of the token.
    pub fn duplicate(&self) -> (r: Token)
        ensures
            r@ == self@,
    {
        Token { tag: self.tag, val: self.val.clone() }
    }

    /// The end marker, on line `line`.
    pub fn eof_tok(line: usize) -> (r: Token)
        ensures
            r@ == (TokenView {
                tag: TagToken { kind: TokenKind::Eof, len: 0, line },
                val: Seq::empty(),
            }),
    {
        Token { tag: TagToken { kind: TokenKind::Eof, len: 0, line }, val: String::new() }
    }

    /// The token for `and`.
    pub fn and_tok() -> (r: Token)
        ensures
            r@ == keyword("and"@),
    {
        proof {
            reveal_strlit("and");
        }
        Token { tag: TagToken { kind: TokenKind::Identifier, len: 3, line: 0 }, val: "and".to_owned() }
    }

    /// The token for `class`.
    pub fn class_tok() -> (r: Token)
        ensures
            r@ == keyword("class"@),
    {
        proof {
            reveal_strlit("class");
        }
        Token {
            tag: TagToken { kind: TokenKind::Identifier, len: 5, line: 0 },
            val: "class".to_owned(),
        }
    }

    /// The token for `else`.
    pub fn else_tok() -> (r: Token)
        ensures
            r@ == keyword("else"@),
    {
        proof {
            reveal_strlit("else");
        }
        Token { tag: TagToken { kind: TokenKind::Identifier, len: 4, line: 0 }, val: "else".to_owned() }
    }

    /// The token for `false`.
    pub fn false_tok() -> (r: Token)
        ensures
            r@ == keyword("false"@),
    {
        proof {
            reveal_strlit("false");
        }
        Token {
            tag: TagToken { kind: TokenKind::Identifier, len: 5, line: 0 },
            val: "false".to_owned(),
        }
    }

    /// The token for `for`.
    pub fn for_tok() -> (r: Token)
        ensures
            r@ == keyword("for"@),
    {
        proof {
            reveal_strlit("for");
        }
        Token { tag: TagToken { kind: TokenKind::Identifier, len: 3, line: 0 }, val: "for".to_owned() }
    }

    /// The token for `fun`.
    pub fn fun_tok() -> (r: Token)
        ensures
            r@ == keyword("fun"@),
    {
        proof {
            reveal_strlit("fun");
        }
        Token { tag: TagToken { kind: TokenKind::Identifier, len: 3, line: 0 }, val: "fun".to_owned() }
    }

    /// The token for `if`.
    pub fn if_tok() -> (r: Token)
        ensures
            r@ == keyword("if"@),
    {
        proof {
            reveal_strlit("if");
        }
        Token { tag: TagToken { kind: TokenKind::Identifier, len: 2, line: 0 }, val: "if".to_owned() }
    }

    /// The token for `nil`.
    pub fn nil_tok() -> (r: Token)
        ensures
            r@ == keyword("nil"@),
    {
        proof {
            reveal_strlit("nil");
        }
        Token { tag: TagToken { kind: TokenKind::Identifier, len: 3, line: 0 }, val: "nil".to_owned() }
    }

    /// The token for `or`.
    pub fn or_tok() -> (r: Token)
        ensures
            r@ == keyword("or"@),
    {
        proof {
            reveal_strlit("or");
        }
        Token { tag: TagToken { kind: TokenKind::Identifier, len: 2, line: 0 }, val: "or".to_owned() }
    }

    /// The token for `print`.
    pub fn print_tok() -> (r: Token)
        ensures
            r@ == keyword("print"@),
    {
        proof {
            reveal_strlit("print");
        }
        Token {
            tag: TagToken { kind: TokenKind::Identifier, len: 5, line: 0 },
            val: "print".to_owned(),
        }
    }

    /// The token for `return`.
    pub fn return_tok() -> (r: Token)
        ensures
            r@ == keyword("return"@),
    {
        proof {
            reveal_strlit("return");
        }
        Token {
            tag: TagToken { kind: TokenKind::Identifier, len: 6, line: 0 },
            val: "return".to_owned(),
        }
    }

    /// The token for `super`.
    pub fn super_tok() -> (r: Token)
        ensures
            r@ == keyword("super"@),
    {
        proof {
            reveal_strlit("super");
        }
        Token {
            tag: TagToken { kind: TokenKind::Identifier, len: 5, line: 0 },
            val: "super".to_owned(),
        }
    }

    /// The token for `this`.
    pub fn this_tok() -> (r: Token)
        ensures
            r@ == keyword("this"@),
    {
        proof {
            reveal_strlit("this");
        }
        Token { tag: TagToken { kind: TokenKind::Identifier, len: 4, line: 0 }, val: "this".to_owned() }
    }

    /// The token for `true`.
    pub fn true_tok() -> (r: Token)
        ensures
            r@ == keyword("true"@),
    {
        proof {
            reveal_strlit("true");
        }
        Token { tag: TagToken { kind: TokenKind::Identifier, len: 4, line: 0 }, val: "true".to_owned() }
    }

    /// The token for `var`.
    pub fn var_tok() -> (r: Token)
        ensures
            r@ == keyword("var"@),
    {
        proof {
            reveal_strlit("var");
        }
        Token { tag: TagToken { kind: TokenKind::Identifier, len: 3, line: 0 }, val: "var".to_owned() }
    }

    /// The token for `while`.
    pub fn while_tok() -> (r: Token)
        ensures
            r@ == keyword("while"@),
    {
        proof {
            reveal_strlit("while");
        }
        Token {
            tag: TagToken { kind: TokenKind::Identifier, len: 5, line: 0 },
            val: "while".to_owned(),
        }
    }
}

/// The index reached from `i` after exactly `bytes` bytes of UTF-8, or `-1`
/// where that many bytes end inside a character or behind the input.
pub open spec fn boundary_after(s: Seq<char>, i: int, bytes: nat) -> int
    decreases bytes,
{
    if bytes == 0 {
        i
    } else if 0 <= i < s.len() && utf8_width(s[i]) <= bytes {
        boundary_after(s, i + 1, (bytes - utf8_width(s[i])) as nat)
    } else {
        -1
    }
}

/// Whether the lengths of `tags` cut `s`, from `i` on, between characters.
pub open spec fn sliceable(s: Seq<char>, i: int, tags: Seq<TagToken>) -> bool
    decreases tags.len(),
{
    tags.len() == 0 || {
        let end = boundary_after(s, i, tags[0].len as nat);
        end >= 0 && sliceable(s, end, tags.drop_first())
    }
}

/// Each of `tags` with the piece of `s` that its length cuts off, from `i`
/// on.
pub open spec fn named_tokens(s: Seq<char>, i: int, tags: Seq<TagToken>) -> Seq<TokenView>
    decreases tags.len(),
{
    if tags.len() == 0 {
        Seq::empty()
    } else {
        let end = boundary_after(s, i, tags[0].len as nat);
        seq![TokenView { tag: tags[0], val: s.subrange(i, end) }] + named_tokens(
            s,
            end,
            tags.drop_first(),
        )
    }
}

/// A boundary lies behind its start and within the input.
pub proof fn lemma_boundary_bounds(s: Seq<char>, i: int, bytes: nat)
    requires
        0 <= i <= s.len(),
        boundary_after(s, i, bytes) >= 0,
    ensures
        i <= boundary_after(s, i, bytes) <= s.len(),
        utf8_len(s, i, boundary_after(s, i, bytes)) == bytes,
    decreases bytes,
{
    if bytes > 0 {
        let rest = (bytes - utf8_width(s[i])) as nat;
        lemma_boundary_bounds(s, i + 1, rest);
        lemma_utf8_len_split(s, i, i + 1, boundary_after(s, i, bytes));
        assert(utf8_len(s, i, i + 1) == utf8_width(s[i])) by {
            assert(utf8_len(s, i, i) == 0);
        }
    }
}

/// The bytes of `s[i..end]` lead from `i` to `end`.
pub proof fn lemma_boundary_of_range(s: Seq<char>, i: int, end: int)
    requires
        0 <= i <= end <= s.len(),
    ensures
        boundary_after(s, i, utf8_len(s, i, end)) == end,
    decreases end - i,
{
    if i < end {
        lemma_utf8_len_split(s, i, i + 1, end);
        assert(utf8_len(s, i, i + 1) == utf8_width(s[i])) by {
            assert(utf8_len(s, i, i) == 0);
        }
        lemma_boundary_of_range(s, i + 1, end);
    } else {
        assert(utf8_len(s, i, end) == 0);
    }
}

/// What the lexer emits can be cut out of its input.
pub proof fn lemma_lexed_sliceable(s: Seq<char>, i: int, line: usize)
    requires
        0 <= i <= s.len(),
        utf8_size(s) <= usize::MAX,
    ensures
        sliceable(s, i, tokens_from(s, i, line)),
    decreases s.len() - i,
{
    if i < s.len() {
        let end = token_end(s, i);
        lemma_token_end_bounds(s, i);
        lemma_tokens_from_unfold(s, i, line);
        lemma_utf8_len_monotonic(s, i, end, s.len() as int);
        lemma_utf8_len_split(s, 0, i, s.len() as int);
        lemma_boundary_of_range(s, i, end);
        lemma_lexed_sliceable(s, end, crate::lexer::line_after(s, i, line));
    }
}

/// Gives each of `tag_tokens` the piece of `src` that its length cuts off.
pub fn tag_to_named_tokens(src: &str, tag_tokens: Vec<TagToken>) -> (tokens: Vec<Token>)
    requires
        sliceable(src@, 0, tag_tokens@),
    ensures
        tokens_view(tokens@) == named_tokens(src@, 0, tag_tokens@),
{
    let chars = chars_of(src);
    let mut tokens: Vec<Token> = Vec::new();
    let mut start: usize = 0;
    let mut k: usize = 0;
    assert(tag_tokens@.skip(0) =~= tag_tokens@);
    assert(tokens_view(tokens@) =~= Seq::empty());
    while k < tag_tokens.len()
        invariant
            chars@ == src@,
            k <= tag_tokens.len(),
            start <= chars.len(),
            sliceable(src@, start as int, tag_tokens@.skip(k as int)),
            tokens_view(tokens@) + named_tokens(src@, start as int, tag_tokens@.skip(k as int))
                == named_tokens(src@, 0, tag_tokens@),
        decreases tag_tokens.len() - k,
    {
        let tag = tag_tokens[k];
        let ghost rest = tag_tokens@.skip(k as int);
        let ghost target = boundary_after(src@, start as int, tag.len as nat);
        proof {
            assert(rest[0] == tag);
            assert(rest.drop_first() =~= tag_tokens@.skip(k + 1));
            lemma_boundary_bounds(src@, start as int, tag.len as nat);
        }
        let mut end: usize = start;
        let mut left: usize = tag.len;
        while left > 0
            invariant
                chars@ == src@,
                start <= end <= chars.len(),
                0 <= target <= chars.len(),
                boundary_after(src@, end as int, left as nat) == target,
            decreases left,
        {
            left = left - char_width(chars[end]);
            end = end + 1;
            proof {
                lemma_boundary_bounds(src@, end as int, left as nat);
            }
        }
        let val = string_of(&chars, start, end);
        let ghost before = tokens@;
        let token = Token { tag, val };
        tokens.push(token);
        proof {
            assert(tokens_view(tokens@) =~= tokens_view(before).push(token@));
            assert(tokens_view(tokens@) + named_tokens(src@, end as int, rest.drop_first())
                =~= tokens_view(before) + named_tokens(src@, start as int, rest));
        }
        start = end;
        k += 1;
    }
    assert(tag_tokens@.skip(k as int) =~= Seq::empty());
    assert(tokens_view(tokens@) + Seq::empty() =~= tokens_view(tokens@));
    tokens
}

/// The start of every error line: `[line L] Error: `.
pub open spec fn error_head(line: usize) -> Seq<char> {
    "[line "@ + decimal_of(line as nat) + "] Error: "@
}

/// The start of every error line: `[line L] Error: `.
pub fn error_prefix(line: usize) -> (r: String)
    ensures
        r@ == error_head(line),
{
    join(join("[line ".to_owned(), decimal(line).as_str()), "] Error: ")
}

/// A string literal without its quotes: `text` without its first and its last
/// character. Empty where `text` is shorter than two characters.
pub open spec fn unquoted(text: Seq<char>) -> Seq<char> {
    if text.len() >= 2 {
        text.subrange(1, text.len() - 1)
    } else {
        Seq::empty()
    }
}

/// A string literal without its quotes.
pub fn unquote(text: &str) -> (r: String)
    ensures
        r@ == unquoted(text@),
{
    let chars = chars_of(text);
    if chars.len() >= 2 {
        string_of(&chars, 1, chars.len() - 1)
    } else {
        String::new()
    }
}

impl TokenView {

    /// The debug line of the token. `shortest` is the shortest decimal form
    /// of the value of a number literal.
    pub open spec fn dbg_text(self, shortest: Seq<char>) -> Seq<char> {
        match self.tag.kind {
            TokenKind::LineComment | TokenKind::NewLine | TokenKind::Whitespace => Seq::empty(),
            TokenKind::Identifier => if reserved(self.val) {
                capitals(self.val) + " "@ + self.val + " null"@
            } else {
                "IDENTIFIER "@ + self.val + " null"@
            },
            TokenKind::Literal { kind: LiteralKind::Number } => "NUMBER "@ + self.val + " "@
                + crate::text::number_text(shortest),
            TokenKind::Literal { kind: LiteralKind::Str } => "STRING "@ + self.val + " "@
                + unquoted(self.val),
            TokenKind::TokErr(TokenizationError::InvalidIdent { line }) => error_head(line)
                + "Invalid identifier: "@ + self.val,
            TokenKind::TokErr(TokenizationError::UnexpectedCharacter { ch, line }) => error_head(
                line,
            ) + "Unexpected character: "@ + seq![ch],
            TokenKind::TokErr(TokenizationError::UnterminatedString { line }) => error_head(line)
                + "Unterminated string."@,
            TokenKind::TokErr(TokenizationError::UnknownPrefix { line }) => error_head(line)
                + "Unknown prefix: "@ + self.val,
            _ => self.tag.pure_tag_text(),
        }
    }
}

impl Token {
    /// The debug line of the token: its name, its text and its value, or the
    /// error it stands for. Empty for comments, blanks and line ends.
    ///
    /// `shortest` is read for a number literal only: the shortest decimal form
    /// of the literal's value.
    pub fn dbg(&self, shortest: &str) -> (r: String)
        ensures
            r@ == self@.dbg_text(shortest@),
    {
        let val = self.val.as_str();
        match self.tag.kind {
            TokenKind::LineComment | TokenKind::NewLine | TokenKind::Whitespace => String::new(),
            TokenKind::Identifier => match reserved_word_name(val) {
                Some(name) => join(join(join(name.to_owned(), " "), val), " null"),
                None => join(join("IDENTIFIER ".to_owned(), val), " null"),
            },
            TokenKind::Literal { kind } => match kind {
                LiteralKind::Number => {
                    let displayed = crate::text::number_display(shortest);
                    join(join(join("NUMBER ".to_owned(), val), " "), displayed.as_str())
                },
                LiteralKind::Str => {
                    let inner = unquote(val);
                    join(join(join("STRING ".to_owned(), val), " "), inner.as_str())
                },
            },
            TokenKind::TokErr(tokenization_error) => match tokenization_error {
                TokenizationError::InvalidIdent { line } => join(
                    join(error_prefix(line), "Invalid identifier: "),
                    val,
                ),
                TokenizationError::UnexpectedCharacter { ch, line } => {
                    let mut r = join(error_prefix(line), "Unexpected character: ");
                    push_char(&mut r, ch);
                    assert(r@ =~= error_head(line) + "Unexpected character: "@ + seq![ch]);
                    r
                },
                TokenizationError::UnterminatedString { line } => join(
                    error_prefix(line),
                    "Unterminated string.",
                ),
                TokenizationError::UnknownPrefix { line } => join(
                    join(error_prefix(line), "Unknown prefix: "),
                    val,
                ),
            },
            _ => self.tag.dbg_pure_tag(),
        }
    }
}

/// The tokens among `tokens` that mean something to the parser: all but
/// comments, blanks, line ends and end markers.
pub open spec fn meaningful(tokens: Seq<TokenView>) -> Seq<TokenView>
    decreases tokens.len(),
{
    if tokens.len() == 0 {
        Seq::empty()
    } else if tokens.last().tag.kind.trivia() {
        meaningful(tokens.drop_last())
    } else {
        meaningful(tokens.drop_last()).push(tokens.last())
    }
}

/// The tokens of `tokens` that mean something to the parser, in order.
pub fn meaningful_tokens(tokens: &Vec<Token>) -> (kept: Vec<Token>)
    ensures
        tokens_view(kept@) == meaningful(tokens_view(tokens@)),
{
    let mut kept: Vec<Token> = Vec::new();
    let mut i: usize = 0;
    assert(tokens_view(tokens@).take(0) =~= Seq::empty());
    assert(tokens_view(kept@) =~= Seq::empty());
    while i < tokens.len()
        invariant
            i <= tokens.len(),
            tokens_view(kept@) == meaningful(tokens_view(tokens@).take(i as int)),
        decreases tokens.len() - i,
    {
        let ghost all = tokens_view(tokens@);
        assert(all.take(i + 1).drop_last() =~= all.take(i as int));
        assert(all.take(i + 1).last() == tokens[i as int]@);
        if !tokens[i].tag.kind.is_trivia() {
            let token = tokens[i].duplicate();
            let ghost before = kept@;
            kept.push(token);
            assert(tokens_view(kept@) =~= tokens_view(before).push(token@));
        }
        i += 1;
    }
    assert(tokens_view(tokens@).take(i as int) =~= tokens_view(tokens@));
    kept
}

/// The named tokens of `src`, trivia included.
pub open spec fn named_of(src: Seq<char>) -> Seq<TokenView> {
    named_tokens(src, 0, tokens_of(src))
}

/// The tokens of `src` with their text, trivia included and without the end
/// marker.
pub fn named_tokens_of(src: &str) -> (tokens: Vec<Token>)
    requires
        utf8_size(src@) < usize::MAX,
    ensures
        tokens_view(tokens@) == named_of(src@),
{
    let tags = crate::lexer::tokenize(src);
    proof {
        lemma_lexed_sliceable(src@, 0, 1);
    }
    tag_to_named_tokens(src, tags)
}

} // verus!
