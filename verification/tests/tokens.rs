use ember_lox::lexer::{is_ident, tokenize};
use ember_lox::named::{
    is_reserved_word, meaningful_tokens, named_tokens_of, tag_to_named_tokens, Token,
};
use ember_lox::text::{decimal, number_display};
use ember_lox::token::{Base, LiteralKind, TagToken, TokenKind, TokenizationError};
use ember_lox::unicode::{is_id_continue, is_id_start, is_unicode_whitespace, is_whitespace};

fn shortest(text: &str) -> String {
    text.parse::<f64>().unwrap_or_default().to_string()
}

fn lines(src: &str) -> Vec<String> {
    named_tokens_of(src)
        .iter()
        .map(|t| t.dbg(&shortest(&t.val)))
        .filter(|line| !line.is_empty())
        .collect()
}

#[test]
fn tokens_carry_their_text() {
    let src = "var é = \"ö\"; // ü\n1.5";
    let tokens = named_tokens_of(src);
    let texts: Vec<&str> = tokens.iter().map(|t| t.val.as_str()).collect();
    assert_eq!(
        texts,
        vec!["var", " ", "é", " ", "=", " ", "\"ö\"", ";", " ", "// ü", "\n", "1.5"]
    );
    assert_eq!(texts.concat(), src);
    for token in &tokens {
        assert_eq!(token.tag.len, token.val.len());
    }
    let tags = tokenize(src);
    assert_eq!(tag_to_named_tokens(src, tags), tokens);
}

#[test]
fn trivia_is_filtered_out() {
    let tokens = named_tokens_of("a // c\n\t b");
    let kept = meaningful_tokens(&tokens);
    let texts: Vec<&str> = kept.iter().map(|t| t.val.as_str()).collect();
    assert_eq!(texts, vec!["a", "b"]);
    assert_eq!(kept[1].tag.line, 2);
}

#[test]
fn debug_lines() {
    assert_eq!(
        lines("var x = (1 + 2.50) * \"s t\";"),
        vec![
            "VAR var null",
            "IDENTIFIER x null",
            "EQUAL = null",
            "LEFT_PAREN ( null",
            "NUMBER 1 1.0",
            "PLUS + null",
            "NUMBER 2.50 2.5",
            "RIGHT_PAREN ) null",
            "STAR * null",
            "STRING \"s t\" s t",
            "SEMICOLON ; null",
        ]
    );
    assert_eq!(
        lines("{}[],.-/<<=>>=!!==="),
        vec![
            "LEFT_BRACE { null",
            "RIGHT_BRACE } null",
            "LEFT_BRACKET [ null",
            "RIGHT_BRACKET ] null",
            "COMMA , null",
            "DOT . null",
            "MINUS - null",
            "SLASH / null",
            "LESS < null",
            "LESS_EQUAL <= null",
            "GREATER > null",
            "GREATER_EQUAL >= null",
            "BANG ! null",
            "BANG_EQUAL != null",
            "EQUAL_EQUAL == null",
        ]
    );
    assert_eq!(Token::eof_tok(3).dbg(""), "EOF  null");
}

#[test]
fn debug_lines_of_reserved_words() {
    let words = [
        "and", "class", "else", "false", "for", "fun", "if", "nil", "or", "print", "return",
        "super", "this", "true", "var", "while",
    ];
    for word in words {
        assert!(is_reserved_word(word));
        assert_eq!(lines(word), vec![format!("{} {} null", word.to_uppercase(), word)]);
    }
    assert!(!is_reserved_word("android"));
    assert!(!is_reserved_word("An"));
    assert_eq!(lines("android"), vec!["IDENTIFIER android null"]);
}

#[test]
fn reserved_word_tokens() {
    let all = [
        (Token::and_tok(), "and"),
        (Token::class_tok(), "class"),
        (Token::else_tok(), "else"),
        (Token::false_tok(), "false"),
        (Token::for_tok(), "for"),
        (Token::fun_tok(), "fun"),
        (Token::if_tok(), "if"),
        (Token::nil_tok(), "nil"),
        (Token::or_tok(), "or"),
        (Token::print_tok(), "print"),
        (Token::return_tok(), "return"),
        (Token::super_tok(), "super"),
        (Token::this_tok(), "this"),
        (Token::true_tok(), "true"),
        (Token::var_tok(), "var"),
        (Token::while_tok(), "while"),
    ];
    for (token, word) in all {
        assert_eq!(token.val, word);
        assert_eq!(token.tag.kind, TokenKind::Identifier);
        assert_eq!(token.tag.len, word.len());
        assert_eq!(token.tag.line, 0);
        // The line is not compared.
        assert_eq!(named_tokens_of(&format!("\n\n{}", word))[2], token);
    }
}

#[test]
fn debug_lines_of_errors() {
    assert_eq!(lines("\n@"), vec!["[line 2] Error: Unexpected character: @"]);
    assert_eq!(lines("\"abc"), vec!["[line 1] Error: Unterminated string."]);
    assert_eq!(
        lines("foo\"a\""),
        vec!["[line 1] Error: Unknown prefix: foo", "STRING \"a\" a"]
    );
    assert_eq!(lines("a🦀"), vec!["[line 1] Error: Invalid identifier: a🦀"]);
}

#[test]
fn number_texts() {
    assert_eq!(number_display("7"), "7.0");
    assert_eq!(number_display("7.5"), "7.5");
    assert_eq!(number_display("-0"), "-0.0");
    assert_eq!(number_display("inf"), "inf.0");
    assert_eq!(lines("42 42.0 0.10 007"), vec![
        "NUMBER 42 42.0",
        "NUMBER 42.0 42.0",
        "NUMBER 0.10 0.1",
        "NUMBER 007 7.0",
    ]);
}

#[test]
fn decimal_numbers() {
    for n in [0usize, 1, 9, 10, 11, 99, 100, 12345, 1_000_000, usize::MAX] {
        assert_eq!(decimal(n), n.to_string());
    }
}

#[test]
fn whitespace_is_the_unicode_property() {
    for code in 0..=0x10FFFFu32 {
        if let Some(c) = char::from_u32(code) {
            assert_eq!(is_unicode_whitespace(c), c.is_whitespace(), "U+{:04X}", code);
            assert_eq!(is_whitespace(c), c.is_whitespace() && c != '\n', "U+{:04X}", code);
        }
    }
}

#[test]
fn identifier_characters() {
    assert!(is_id_start('_'));
    assert!(is_id_start('a'));
    assert!(is_id_start('Z'));
    assert!(is_id_start('é'));
    assert!(is_id_start('中'));
    assert!(!is_id_start('1'));
    assert!(!is_id_start('-'));
    assert!(!is_id_start('🦀'));
    assert!(is_id_continue('1'));
    assert!(is_id_continue('_'));
    assert!(is_id_continue('é'));
    assert!(!is_id_continue(' '));
    assert!(!is_id_continue('"'));
    assert!(is_ident("_a1"));
    assert!(is_ident("été"));
    assert!(!is_ident(""));
    assert!(!is_ident("1a"));
    assert!(!is_ident("a b"));
}

#[test]
fn tag_tokens_compare_without_the_line() {
    assert_eq!(TagToken::new(TokenKind::Dot, 1, 1), TagToken::new(TokenKind::Dot, 1, 9));
    assert_ne!(TagToken::new(TokenKind::Dot, 1, 1), TagToken::new(TokenKind::Dot, 2, 1));
    assert_ne!(TagToken::new(TokenKind::Dot, 1, 1), TagToken::new(TokenKind::Comma, 1, 1));
    let error = TagToken::new(
        TokenKind::TokErr(TokenizationError::UnexpectedCharacter { ch: '#', line: 4 }),
        1,
        4,
    );
    assert!(error.is_err());
    assert_eq!(error.try_get_line(), Some(4));
    assert_eq!(error.kind.try_get_line(), Some(4));
    let unterminated =
        TagToken::new(TokenKind::TokErr(TokenizationError::UnterminatedString { line: 2 }), 3, 2);
    assert_eq!(unterminated.try_get_line(), Some(2));
    assert_eq!(unterminated.kind.try_get_line(), None);
    assert_eq!(TokenizationError::InvalidIdent { line: 7 }.line(), 7);
    assert_eq!(TokenizationError::UnknownPrefix { line: 8 }.line(), 8);
    let number = TagToken::new(TokenKind::Literal { kind: LiteralKind::Number }, 1, 1);
    assert!(!number.is_err());
    assert_eq!(number.try_get_line(), None);
    assert_eq!(number.dbg_pure_tag(), "");
    assert_eq!(TagToken::new(TokenKind::Plus, 1, 1).dbg_pure_tag(), "PLUS + null");
    assert_eq!(Base::Binary.radix(), 2);
    assert_eq!(Base::Octal.radix(), 8);
    assert_eq!(Base::Decimal.radix(), 10);
    assert_eq!(Base::Hexadecimal.radix(), 16);
}
