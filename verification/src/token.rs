//! Tag-only tokens: what the lexer emits.

use vstd::prelude::*;

verus! {

/// Enum representing the literal types supported by the tokenizer.
#[derive(Clone, Copy, Debug, PartialEq, Eq, Structural)]
pub enum LiteralKind {
    /// `123`, `123.12`
    Number,
    /// `"abc"`
    Str,
}

/// Base of numeric literal encoding according to its prefix.
#[derive(Clone, Copy, Debug, PartialEq, Eq, Structural)]
pub enum Base {
    /// Literal starts with "0b".
    Binary,
    /// Literal starts with "0o".
    Octal,
    /// Literal doesn't contain a prefix.
    Decimal,
    /// Literal starts with "0x".
    Hexadecimal,
}

impl Base {
    /// The number of digits of the base.
    pub open spec fn radix_of(self) -> u32 {
        match self {
            Base::Binary => 2,
            Base::Octal => 8,
            Base::Decimal => 10,
            Base::Hexadecimal => 16,
        }
    }

    /// The number of digits of the base.
    pub fn radix(self) -> (r: u32)
        ensures
            r == self.radix_of(),
    {
        match self {
            Base::Binary => 2,
            Base::Octal => 8,
            Base::Decimal => 10,
            Base::Hexadecimal => 16,
        }
    }
}

/// Tokenization error (treated as a part of [`TokenKind`]).
#[derive(Debug, Clone, Copy, PartialEq, Eq, Structural)]
pub enum TokenizationError {
    /// An identifier that is invalid because it contains emoji.
    InvalidIdent { line: usize },
    /// A character that starts no token.
    UnexpectedCharacter { ch: char, line: usize },
    /// A string without its closing `"`.
    UnterminatedString { line: usize },
    /// An identifier directly followed by `#`, `"` or `'`. Only the identifier
    /// is part of the token.
    UnknownPrefix { line: usize },
}

impl TokenizationError {
    /// The line the error was found on.
    pub open spec fn line_of(self) -> usize {
        match self {
            TokenizationError::InvalidIdent { line } => line,
            TokenizationError::UnexpectedCharacter { line, .. } => line,
            TokenizationError::UnterminatedString { line } => line,
            TokenizationError::UnknownPrefix { line } => line,
        }
    }

    /// The line the error was found on.
    pub fn line(&self) -> (r: usize)
        ensures
            r == self.line_of(),
    {
        match self {
            TokenizationError::InvalidIdent { line } => *line,
            TokenizationError::UnexpectedCharacter { line, .. } => *line,
            TokenizationError::UnterminatedString { line } => *line,
            TokenizationError::UnknownPrefix { line } => *line,
        }
    }
}

/// The kinds of tokens.
#[derive(Debug, Clone, Copy, PartialEq, Eq, Structural)]
pub enum TokenKind {
    /// A line comment, e.g. `// comment`.
    LineComment,
    /// Any whitespace character sequence without a new line.
    Whitespace,
    /// An identifier or keyword (e.g. `if`, `else`).
    Identifier,
    /// `\n`
    NewLine,
    /// Literals, e.g. `123`, `123.45`, `"abc"`.
    Literal { kind: LiteralKind },
    /// `;`
    Semi,
    /// `,`
    Comma,
    /// `.`
    Dot,
    /// `(`
    OpenParen,
    /// `)`
    CloseParen,
    /// `{`
    OpenBrace,
    /// `}`
    CloseBrace,
    /// `[`
    OpenBracket,
    /// `]`
    CloseBracket,
    /// `=`
    Eq,
    /// `==`
    EqEq,
    /// `!`
    Bang,
    /// `!=`
    BangEq,
    /// `<`
    Lt,
    /// `<=`
    LtEq,
    /// `>`
    Gt,
    /// `>=`
    GtEq,
    /// `-`
    Minus,
    /// `+`
    Plus,
    /// `*`
    Star,
    /// `/`
    Slash,
    /// Tokenization error.
    TokErr(TokenizationError),
    /// End of file.
    Eof,
}

impl TokenKind {
    /// Tokens without meaning for the parser: comments, blanks, line ends and
    /// the end marker.
    pub open spec fn trivia(self) -> bool {
        self is LineComment || self is Whitespace || self is NewLine || self is Eof
    }

    /// Whether the parser skips this kind of token.
    pub fn is_trivia(&self) -> (r: bool)
        ensures
            r == self.trivia(),
    {
        match self {
            TokenKind::LineComment | TokenKind::Whitespace | TokenKind::NewLine | TokenKind::Eof => true,
            _ => false,
        }
    }

    /// The line of an unexpected character, and of nothing else.
    pub fn try_get_line(&self) -> (r: Option<usize>)
        ensures
            r == match *self {
                TokenKind::TokErr(TokenizationError::UnexpectedCharacter { line, .. }) => Some(line),
                _ => None,
            },
    {
        match self {
            TokenKind::TokErr(TokenizationError::UnexpectedCharacter { line, .. }) => Some(*line),
            _ => None,
        }
    }
}

/// A token that holds no text of its own: its kind, its length in bytes and
/// the line it ends on.
#[derive(Debug, Clone, Copy)]
pub struct TagToken {
    pub kind: TokenKind,
    pub len: usize,
    pub line: usize,
}

impl PartialEq for TagToken {
    /// Two tokens are equal when kind and length are: the line is not compared.
    fn eq(&self, other: &Self) -> (r: bool) {
        self.kind == other.kind && self.len == other.len
    }
}

impl Eq for TagToken {

}

impl vstd::std_specs::cmp::PartialEqSpecImpl for TagToken {
    open spec fn obeys_eq_spec() -> bool {
        true
    }

    open spec fn eq_spec(&self, other: &Self) -> bool {
        self.kind == other.kind && self.len == other.len
    }
}

impl TagToken {
    /// The token of kind `kind` over `len` bytes, on line `line`.
    pub fn new(kind: TokenKind, len: usize, line: usize) -> (r: Self)
        ensures
            r == (TagToken { kind, len, line }),
    {
        Self { kind, len, line }
    }

    /// Whether the token is a tokenization error.
    pub fn is_err(&self) -> (r: bool)
        ensures
            r == (self.kind is TokErr),
    {
        match self.kind {
            TokenKind::TokErr(_) => true,
            _ => false,
        }
    }

    /// The line of a tokenization error, and of nothing else.
    pub fn try_get_line(&self) -> (r: Option<usize>)
        ensures
            r == match self.kind {
                TokenKind::TokErr(e) => Some(e.line_of()),
                _ => None,
            },
    {
        match self.kind {
            TokenKind::TokErr(e) => Some(e.line()),
            _ => None,
        }
    }
}

impl TokenKind {
    /// The name and the text of a token that is fixed by its kind, or the
    /// empty string for the other kinds.
    pub open spec fn fixed_text(self) -> Seq<char> {
        match self {
            TokenKind::OpenParen => "LEFT_PAREN ("@,
            TokenKind::CloseParen => "RIGHT_PAREN )"@,
            TokenKind::OpenBrace => "LEFT_BRACE {"@,
            TokenKind::CloseBrace => "RIGHT_BRACE }"@,
            TokenKind::OpenBracket => "LEFT_BRACKET ["@,
            TokenKind::CloseBracket => "RIGHT_BRACKET ]"@,
            TokenKind::Semi => "SEMICOLON ;"@,
            TokenKind::Dot => "DOT ."@,
            TokenKind::Comma => "COMMA ,"@,
            TokenKind::Eq => "EQUAL ="@,
            TokenKind::EqEq => "EQUAL_EQUAL =="@,
            TokenKind::Bang => "BANG !"@,
            TokenKind::BangEq => "BANG_EQUAL !="@,
            TokenKind::Lt => "LESS <"@,
            TokenKind::LtEq => "LESS_EQUAL <="@,
            TokenKind::Gt => "GREATER >"@,
            TokenKind::GtEq => "GREATER_EQUAL >="@,
            TokenKind::Minus => "MINUS -"@,
            TokenKind::Plus => "PLUS +"@,
            TokenKind::Star => "STAR *"@,
            TokenKind::Slash => "SLASH /"@,
            TokenKind::Eof => "EOF "@,
            _ => ""@,
        }
    }

    /// The name and the text of a token that is fixed by its kind, or the
    /// empty string for the other kinds.
    pub fn fixed(self) -> (r: &'static str)
        ensures
            r@ == self.fixed_text(),
    {
        match self {
            TokenKind::OpenParen => "LEFT_PAREN (",
            TokenKind::CloseParen => "RIGHT_PAREN )",
            TokenKind::OpenBrace => "LEFT_BRACE {",
            TokenKind::CloseBrace => "RIGHT_BRACE }",
            TokenKind::OpenBracket => "LEFT_BRACKET [",
            TokenKind::CloseBracket => "RIGHT_BRACKET ]",
            TokenKind::Semi => "SEMICOLON ;",
            TokenKind::Dot => "DOT .",
            TokenKind::Comma => "COMMA ,",
            TokenKind::Eq => "EQUAL =",
            TokenKind::EqEq => "EQUAL_EQUAL ==",
            TokenKind::Bang => "BANG !",
            TokenKind::BangEq => "BANG_EQUAL !=",
            TokenKind::Lt => "LESS <",
            TokenKind::LtEq => "LESS_EQUAL <=",
            TokenKind::Gt => "GREATER >",
            TokenKind::GtEq => "GREATER_EQUAL >=",
            TokenKind::Minus => "MINUS -",
            TokenKind::Plus => "PLUS +",
            TokenKind::Star => "STAR *",
            TokenKind::Slash => "SLASH /",
            TokenKind::Eof => "EOF ",
            _ => "",
        }
    }
}

impl TagToken {
    /// The debug line of a token whose text is fixed by its kind: name, text
    /// and `null`. Empty for the other kinds.
    pub open spec fn pure_tag_text(self) -> Seq<char> {
        if self.kind.fixed_text().len() == 0 {
            Seq::empty()
        } else {
            self.kind.fixed_text() + " null"@
        }
    }

    /// The debug line of a token whose text is fixed by its kind: name, text
    /// and `null`. Empty for the other kinds.
    pub fn dbg_pure_tag(&self) -> (r: String)
        ensures
            r@ == self.pure_tag_text(),
    {
        let prefix = self.kind.fixed();
        if prefix.is_empty() {
            String::new()
        } else {
            crate::text::join(prefix.to_owned(), " null")
        }
    }
}

} // verus!
