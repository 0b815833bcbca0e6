use ember_lox::cursor::{CharClass, Cursor};
use ember_lox::interpreter::{Action, Event, Interpreter};
use ember_lox::named::Token;
use ember_lox::statements::new_parser_from_src_str;
use ember_lox::text::is_countable;
use ember_lox::token::{LiteralKind, TagToken, TokenKind, TokenizationError};
use ember_lox::value::Value;

#[test]
fn lookahead_never_advances() {
    let mut cursor = Cursor::new("aé");
    assert_eq!(cursor.first(), 'a');
    assert_eq!(cursor.second(), 'é');
    assert_eq!(cursor.third(), '\0');
    assert_eq!(cursor.prev(), '\0');
    assert!(!cursor.is_eof());
    assert_eq!(cursor.as_str(), "aé");
    assert_eq!(cursor.pos_within_token(), 0);
    assert_eq!(cursor.bump(), Some('a'));
    assert_eq!(cursor.prev(), 'a');
    assert_eq!(cursor.first(), 'é');
    assert_eq!(cursor.second(), '\0');
    assert_eq!(cursor.pos_within_token(), 1);
    assert_eq!(cursor.bump(), Some('é'));
    assert_eq!(cursor.pos_within_token(), 3);
    assert_eq!(cursor.as_str(), "");
    assert!(cursor.is_eof());
    assert_eq!(cursor.bump(), None);
    assert_eq!(cursor.prev(), 'é');
    assert_eq!(cursor.pos_within_token(), 3);
    cursor.reset_pos_within_token();
    assert_eq!(cursor.pos_within_token(), 0);
}

#[test]
fn runs_are_eaten_whole() {
    let mut cursor = Cursor::new("  \t\nab1_ 12_3x");
    cursor.eat_while(CharClass::Whitespace);
    assert_eq!(cursor.as_str(), "\nab1_ 12_3x");
    cursor.eat_while(CharClass::IdContinue);
    assert_eq!(cursor.as_str(), "\nab1_ 12_3x");
    cursor.bump();
    cursor.eat_while(CharClass::IdContinue);
    assert_eq!(cursor.as_str(), " 12_3x");
    cursor.bump();
    cursor.eat_while(CharClass::Digits);
    assert_eq!(cursor.as_str(), "x");
    cursor.eat_while(CharClass::CommentBody);
    assert!(cursor.is_eof());
    assert!(CharClass::InvalidIdentBody.contains('\u{200d}'));
    assert!(CharClass::InvalidIdentBody.contains('🦀'));
    assert!(!CharClass::InvalidIdentBody.contains(' '));
}

#[test]
fn the_lexer_counts_lines() {
    let mut cursor = Cursor::new("a\n\"x");
    assert_eq!(cursor.line(), 1);
    assert_eq!(cursor.advance_token(), TagToken::new(TokenKind::Identifier, 1, 1));
    let newline = cursor.advance_token();
    assert_eq!(newline, TagToken::new(TokenKind::NewLine, 1, 2));
    assert_eq!(newline.line, 2);
    assert_eq!(cursor.line(), 2);
    *cursor.line_mut() = 7;
    let error = cursor.advance_token();
    assert_eq!(error.kind, TokenKind::TokErr(TokenizationError::UnterminatedString { line: 7 }));
    assert_eq!(error.len, 2);
    let end = cursor.advance_token();
    assert_eq!(end, TagToken::new(TokenKind::Eof, 0, 7));
    assert_eq!(end.line, 7);
    assert_eq!(cursor.advance_token().kind, TokenKind::Eof);
}

#[test]
fn named_tokens_know_their_errors() {
    let tag = TagToken::new(TokenKind::TokErr(TokenizationError::InvalidIdent { line: 3 }), 5, 3);
    let token = Token::new(tag, "a🦀".to_string());
    assert!(token.is_err());
    assert_eq!(token.try_get_line(), Some(3));
    assert_eq!(token.duplicate(), token);
    let number = Token::new(
        TagToken::new(TokenKind::Literal { kind: LiteralKind::Number }, 1, 1),
        "1".to_string(),
    );
    assert!(!number.is_err());
    assert_eq!(number.try_get_line(), None);
    assert!(is_countable("abc"));
}

fn finish(interpreter: &mut Interpreter) -> Vec<String> {
    let mut printed = vec![];
    let mut event = Event::Resume;
    loop {
        let action = interpreter.step(event);
        event = Event::Resume;
        match action {
            Action::Print(line) => printed.push(line),
            Action::ParseNumber(text) => event = Event::Number(text.parse::<f64>().unwrap().to_bits()),
            Action::FormatNumber(bits) => event = Event::Text(f64::from_bits(bits).to_string()),
            Action::Arithmetic(_, a, b) => {
                event = Event::Number((f64::from_bits(a) + f64::from_bits(b)).to_bits())
            }
            Action::Done { .. } => return printed,
            _ => {}
        }
    }
}

#[test]
fn statements_and_expressions_can_be_given_one_by_one() {
    let mut parser = new_parser_from_src_str("var a = 1; { var a = 2; print a; } a + 3;");
    let stmts = parser.parse().unwrap();
    let mut interpreter = Interpreter::new();
    interpreter.execute(&stmts[0]);
    assert!(finish(&mut interpreter).is_empty());
    match &stmts[1] {
        ember_lox::ast::Stmt::Block { stmts } => interpreter.execute_block(stmts),
        other => panic!("unexpected {:?}", other),
    }
    assert_eq!(finish(&mut interpreter), vec!["2.0"]);
    assert_eq!(interpreter.env().current(), Some(0));
    match &stmts[2] {
        ember_lox::ast::Stmt::Expression { expr } => interpreter.evaluate(expr),
        other => panic!("unexpected {:?}", other),
    }
    assert!(finish(&mut interpreter).is_empty());
    match interpreter.result() {
        Value::Number(bits) => assert_eq!(f64::from_bits(*bits), 4.0),
        other => panic!("unexpected {:?}", other),
    }
    interpreter.enable_repl_mode();
    interpreter.execute(&stmts[2]);
    assert_eq!(finish(&mut interpreter), vec!["4.0"]);
    interpreter.enable_repl_mode();
    interpreter.disable_repl_mode();
    interpreter.execute(&stmts[2]);
    assert!(finish(&mut interpreter).is_empty());
    assert!(!interpreter.has_runtime_error());
}
