use ember_lox::lexer::{tokenize, tokenize_with_eof};
use ember_lox::token::{LiteralKind, TagToken, TokenKind, TokenizationError};

fn kinds(src: &str) -> Vec<TokenKind> {
    tokenize(src).iter().map(|t| t.kind).collect()
}

#[test]
fn lengths_add_up_to_the_input() {
    for src in ["", "var a = 1;\nprint a;", "\"héllo\" // ωορλδ\n\t🦀", "1_000.5.x"] {
        let total: usize = tokenize(src).iter().map(|t| t.len).sum();
        assert_eq!(total, src.len());
    }
}

#[test]
fn lines_never_go_down() {
    let tokens = tokenize("a\nb\n\n\"x\ny\"\nc");
    for pair in tokens.windows(2) {
        assert!(pair[0].line <= pair[1].line);
    }
    assert_eq!(tokens.last().map(|t| t.line), Some(5));
}

#[test]
fn number_with_trailing_dot() {
    let tokens = tokenize("0.");
    assert_eq!(
        tokens,
        vec![
            TagToken::new(TokenKind::Literal { kind: LiteralKind::Number }, 1, 1),
            TagToken::new(TokenKind::Dot, 1, 1),
        ]
    );
}

#[test]
fn escaped_quote_stays_in_the_string() {
    let src = "\"a\\\"b\"";
    let tokens = tokenize(src);
    assert_eq!(
        tokens,
        vec![TagToken::new(TokenKind::Literal { kind: LiteralKind::Str }, 6, 1)]
    );
}

#[test]
fn unterminated_string_is_one_error() {
    let tokens = tokenize("\n\"abc\ndef");
    assert_eq!(tokens.len(), 2);
    assert_eq!(tokens[0].kind, TokenKind::NewLine);
    assert_eq!(
        tokens[1].kind,
        TokenKind::TokErr(TokenizationError::UnterminatedString { line: 2 })
    );
    assert_eq!(tokens[1].len, 8);
    assert_eq!(tokens[1].line, 2);
}

#[test]
fn compound_punctuation() {
    assert_eq!(
        kinds("= == ! != < <= > >="),
        vec![
            TokenKind::Eq,
            TokenKind::Whitespace,
            TokenKind::EqEq,
            TokenKind::Whitespace,
            TokenKind::Bang,
            TokenKind::Whitespace,
            TokenKind::BangEq,
            TokenKind::Whitespace,
            TokenKind::Lt,
            TokenKind::Whitespace,
            TokenKind::LtEq,
            TokenKind::Whitespace,
            TokenKind::Gt,
            TokenKind::Whitespace,
            TokenKind::GtEq,
        ]
    );
}

#[test]
fn identifier_classes() {
    assert_eq!(kinds("_foo1"), vec![TokenKind::Identifier]);
    assert_eq!(kinds("héllo"), vec![TokenKind::Identifier]);
    assert_eq!(
        kinds("foo#"),
        vec![
            TokenKind::TokErr(TokenizationError::UnknownPrefix { line: 1 }),
            TokenKind::TokErr(TokenizationError::UnexpectedCharacter { ch: '#', line: 1 }),
        ]
    );
    assert_eq!(
        kinds("foo🦀bar"),
        vec![TokenKind::TokErr(TokenizationError::InvalidIdent { line: 1 })]
    );
    assert_eq!(
        kinds("a👨\u{200d}👩b"),
        vec![TokenKind::TokErr(TokenizationError::InvalidIdent { line: 1 })]
    );
}

#[test]
fn end_marker_comes_last() {
    let tokens = tokenize_with_eof("a\n");
    assert_eq!(tokens.len(), 3);
    assert_eq!(tokens[2], TagToken::new(TokenKind::Eof, 0, 2));
    assert_eq!(tokens[2].line, 2);
    assert_eq!(tokenize_with_eof("").len(), 1);
}
