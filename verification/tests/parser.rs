use ember_lox::ast::{Expr, FunctionDecl, LiteralValue, Stmt};
use ember_lox::statements::new_parser_from_src_str;

fn show_expr(expr: &Expr) -> String {
    match expr {
        Expr::Assign { name, val } => format!("(assign {} {})", name.0, show_expr(val)),
        Expr::Binary { left, op, right } => {
            format!("({} {} {})", op.0.symbol(), show_expr(left), show_expr(right))
        }
        Expr::Call { callee, args } => format!(
            "(call {} [{}])",
            show_expr(callee),
            args.iter().map(show_expr).collect::<Vec<_>>().join(", ")
        ),
        Expr::Get { obj, name } => format!("(get {} {})", show_expr(obj), name.0),
        Expr::Grouping { expr } => format!("(group {})", show_expr(expr)),
        Expr::Literal { val } => match &val.0 {
            LiteralValue::Number(digits) => digits.clone(),
            LiteralValue::String(text) => format!("{:?}", text),
            LiteralValue::Bool(b) => b.to_string(),
            LiteralValue::Nil => "nil".to_string(),
        },
        Expr::Logical { left, op, right } => {
            format!("({} {} {})", op.0.symbol(), show_expr(left), show_expr(right))
        }
        Expr::SetProp { obj, name, val } => {
            format!("(set {} {} {})", show_expr(obj), name.0, show_expr(val))
        }
        Expr::Super { method, .. } => format!("(super {})", method.0),
        Expr::This { .. } => "this".to_string(),
        Expr::Unary { op, right } => format!("({} {})", op.0.symbol(), show_expr(right)),
        Expr::Var { name } => name.0.clone(),
    }
}

fn show_function(decl: &FunctionDecl) -> String {
    format!(
        "(fun {} [{}] {})",
        decl.name.0,
        decl.params.iter().map(|p| p.0.clone()).collect::<Vec<_>>().join(" "),
        show_stmts(&decl.body)
    )
}

fn show_stmts(stmts: &[Stmt]) -> String {
    format!("{{{}}}", stmts.iter().map(show_stmt).collect::<Vec<_>>().join(" "))
}

fn show_stmt(stmt: &Stmt) -> String {
    match stmt {
        Stmt::Block { stmts } => show_stmts(stmts),
        Stmt::Class { name, superclass, methods } => format!(
            "(class {}{} {})",
            name.0,
            superclass.as_ref().map(|s| format!(" < {}", s.0)).unwrap_or_default(),
            methods.iter().map(show_function).collect::<Vec<_>>().join(" ")
        ),
        Stmt::Expression { expr } => format!("{};", show_expr(expr)),
        Stmt::Function { decl } => show_function(decl),
        Stmt::If { cond, then_branch, else_branch } => match else_branch {
            Some(e) => format!("(if {} {} {})", show_expr(cond), show_stmt(then_branch), show_stmt(e)),
            None => format!("(if {} {})", show_expr(cond), show_stmt(then_branch)),
        },
        Stmt::Print { expr } => format!("(print {})", show_expr(expr)),
        Stmt::Return { value, .. } => match value {
            Some(v) => format!("(return {})", show_expr(v)),
            None => "(return)".to_string(),
        },
        Stmt::Variable { name, initializer } => match initializer {
            Some(e) => format!("(var {} {})", name.0, show_expr(e)),
            None => format!("(var {})", name.0),
        },
        Stmt::While { cond, body } => format!("(while {} {})", show_expr(cond), show_stmt(body)),
    }
}

fn parsed(src: &str) -> String {
    let mut parser = new_parser_from_src_str(src);
    match parser.parse() {
        Some(stmts) => {
            assert!(!parser.had_parsing_error());
            assert!(parser.diagnostics().is_empty());
            stmts.iter().map(show_stmt).collect::<Vec<_>>().join(" ")
        }
        None => panic!("parse errors in {:?}", src),
    }
}

fn errors(src: &str) -> Vec<String> {
    let mut parser = new_parser_from_src_str(src);
    let result = parser.parse();
    assert!(result.is_none());
    assert!(parser.had_parsing_error());
    parser.diagnostics().iter().map(|d| d.render()).collect()
}

#[test]
fn binary_operators_follow_the_table() {
    assert_eq!(parsed("1 + 2 * 3;"), "(+ 1 (* 2 3));");
    assert_eq!(parsed("1 * 2 + 3;"), "(+ (* 1 2) 3);");
    assert_eq!(parsed("1 - 2 - 3;"), "(- (- 1 2) 3);");
    assert_eq!(parsed("1 < 2 == 3 > 4;"), "(== (< 1 2) (> 3 4));");
    assert_eq!(parsed("1 + 2 < 3 * 4;"), "(< (+ 1 2) (* 3 4));");
    assert_eq!(parsed("a or b and c;"), "(or a (and b c));");
    assert_eq!(parsed("a and b or c;"), "(or (and a b) c);");
    assert_eq!(parsed("a == b and c != d;"), "(and (== a b) (!= c d));");
    assert_eq!(parsed("1 <= 2; 1 >= 2; 6 / 3;"), "(<= 1 2); (>= 1 2); (/ 6 3);");
}

#[test]
fn unary_and_grouping() {
    assert_eq!(parsed("-1 * 2;"), "(* (- 1) 2);");
    assert_eq!(parsed("!!a;"), "(! (! a));");
    assert_eq!(parsed("-(1 + 2);"), "(- (group (+ 1 2)));");
    assert_eq!(parsed("- - 1;"), "(- (- 1));");
}

#[test]
fn assignment_groups_from_the_right() {
    assert_eq!(parsed("a = b = 1 + 2;"), "(assign a (assign b (+ 1 2)));");
    assert_eq!(parsed("a.b = 3;"), "(set a b 3);");
    assert_eq!(parsed("a.b.c = d.e;"), "(set (get a b) c (get d e));");
}

#[test]
fn calls_and_properties() {
    assert_eq!(parsed("f();"), "(call f []);");
    assert_eq!(parsed("f(1, a + 2)(3);"), "(call (call f [1, (+ a 2)]) [3]);");
    assert_eq!(parsed("a.b(1).c;"), "(get (call (get a b) [1]) c);");
    assert_eq!(parsed("-f(1);"), "(- (call f [1]));");
    assert_eq!(parsed("this.x; super.m(1);"), "(get this x); (call (super m) [1]);");
}

#[test]
fn literals() {
    assert_eq!(
        parsed("true; false; nil; 1.50; \"a b\"; \"\";"),
        "true; false; nil; 1.50; \"a b\"; \"\";"
    );
}

#[test]
fn statements() {
    assert_eq!(parsed("print 1;"), "(print 1)");
    assert_eq!(parsed("var a; var b = 2;"), "(var a) (var b 2)");
    assert_eq!(parsed("{ var a = 1; { print a; } }"), "{(var a 1) {(print a)}}");
    assert_eq!(parsed("if (a) print 1;"), "(if a (print 1))");
    assert_eq!(
        parsed("if (a) print 1; else if (b) print 2; else print 3;"),
        "(if a (print 1) (if b (print 2) (print 3)))"
    );
    assert_eq!(parsed("while (a < 3) a = a + 1;"), "(while (< a 3) (assign a (+ a 1));)");
    assert_eq!(
        parsed("fun f(a, b) { return a + b; } fun g() { return; }"),
        "(fun f [a b] {(return (+ a b))}) (fun g [] {(return)})"
    );
    assert_eq!(
        parsed("class A { m() { return 1; } n(x) {} } class B < A {}"),
        "(class A (fun m [] {(return 1)}) (fun n [x] {})) (class B < A )"
    );
}

#[test]
fn for_loops_are_lowered_to_while_loops() {
    assert_eq!(
        parsed("for (var i = 0; i < 3; i = i + 1) print i;"),
        "{(var i 0) (while (< i 3) {(print i) (assign i (+ i 1));})}"
    );
    assert_eq!(parsed("for (;;) print 1;"), "(while true (print 1))");
    assert_eq!(parsed("for (i = 0;;) print 1;"), "{(assign i 0); (while true (print 1))}");
    assert_eq!(parsed("for (; a;) {}"), "(while a {})");
    assert_eq!(parsed("for (;; a = 1) {}"), "(while true {{} (assign a 1);})");
}

#[test]
fn names_and_operators_carry_their_lines() {
    let mut parser = new_parser_from_src_str("var a =\n1 +\n\nb;");
    let stmts = parser.parse().unwrap();
    match &stmts[0] {
        Stmt::Variable { name, initializer: Some(Expr::Binary { left, op, right }) } => {
            assert_eq!((name.0.as_str(), name.1), ("a", 1));
            assert_eq!(op.1, 2);
            match (&**left, &**right) {
                (Expr::Literal { val }, Expr::Var { name }) => {
                    assert_eq!(val.1, 2);
                    assert_eq!((name.0.as_str(), name.1), ("b", 4));
                }
                other => panic!("unexpected operands {:?}", other),
            }
        }
        other => panic!("unexpected statement {:?}", other),
    }
}

#[test]
fn two_hundred_and_fifty_five_arguments_are_the_most() {
    let args = |n: usize| (0..n).map(|i| i.to_string()).collect::<Vec<_>>().join(", ");
    let mut parser = new_parser_from_src_str(&format!("f({});", args(255)));
    let stmts = parser.parse().unwrap();
    match &stmts[0] {
        Stmt::Expression { expr: Expr::Call { args, .. } } => assert_eq!(args.len(), 255),
        other => panic!("unexpected statement {:?}", other),
    }
    assert_eq!(
        errors(&format!("print 1;\nf({});", args(256))),
        vec!["[line 2] Error at '255': Cannot have more than 255 arguments."]
    );
}

#[test]
fn one_argument_too_many_is_reported_on_its_own_line() {
    let src = format!("f({},\n1);", vec!["1"; 255].join(","));
    let mut parser = new_parser_from_src_str(&src);
    assert!(parser.parse().is_none());
    assert!(parser.had_parsing_error());
    let found: Vec<String> = parser.diagnostics().iter().map(|d| d.render()).collect();
    assert_eq!(found, vec!["[line 2] Error at '1': Cannot have more than 255 arguments."]);
    assert_eq!(parser.diagnostics()[0].line, 2);
    // Behind the last comma the input may end: then the error stands where
    // the input ends.
    let src = format!("f({},\n", vec!["1"; 255].join(","));
    assert_eq!(
        errors(&src),
        vec!["[line 1] Error at end: Cannot have more than 255 arguments."]
    );
}

#[test]
fn invalid_assignment_target_is_reported_at_the_equal_sign() {
    assert_eq!(
        errors("1 + 2 = 3;"),
        vec!["[line 1] Error at '=': Invalid assignment target."]
    );
    assert_eq!(
        errors("var a;\n(a) = 3; print 1 +;"),
        vec![
            "[line 2] Error at '=': Invalid assignment target.",
            "[line 2] Error at ';': Expect expression.",
        ]
    );
}

#[test]
fn errors_name_the_offending_text() {
    assert_eq!(errors("print;"), vec!["[line 1] Error at ';': Expect expression."]);
    assert_eq!(errors("(1 + 2"), vec!["[line 1] Error at end: Expect ')' after expression."]);
    assert_eq!(errors("print 1"), vec!["[line 1] Error at end: Expect ';' after value."]);
    assert_eq!(
        errors("print 1\nprint 2;"),
        vec!["[line 1] Error at '1': Expect ';' after value."]
    );
    assert_eq!(errors("f(1;"), vec!["[line 1] Error at ';': Expect ')' after arguments."]);
    assert_eq!(errors("var 1 = 2;"), vec!["[line 1] Error at '1': Expect variable name"]);
    assert_eq!(errors("var if = 2;"), vec!["[line 1] Error at 'if': Expect variable name"]);
    assert_eq!(errors("a.1;"), vec!["[line 1] Error at '1': Expect property name after '.'."]);
    assert_eq!(errors("{ print 1;"), vec!["[line 1] Error at end: Expect '}' after block."]);
    assert_eq!(errors("fun (a) {}"), vec!["[line 1] Error at '(': Expect function name."]);
    assert_eq!(errors("class {}"), vec!["[line 1] Error at '{': Expect class name."]);
    assert_eq!(errors("super;"), vec!["[line 1] Error at ';': Expect '.' after 'super'."]);
    assert_eq!(errors("@;"), vec!["[line 1] Error at '@': Expect expression."]);
}

#[test]
fn parsing_resumes_at_the_next_statement() {
    assert_eq!(
        errors("var a = ;\nprint 1;\nprint + ;\nvar b = 2;\nprint );"),
        vec![
            "[line 1] Error at ';': Expect expression.",
            "[line 3] Error at '+': Expect expression.",
            "[line 5] Error at ')': Expect expression.",
        ]
    );
    assert_eq!(
        errors("{ print ; print 2; print ; }"),
        vec![
            "[line 1] Error at ';': Expect expression.",
            "[line 1] Error at ';': Expect expression.",
        ]
    );
}

#[test]
fn parser_ends_on_every_input() {
    for src in [
        "", ";", ")", "}", "{", "((((", "var", "for (", "for (;;", "if", "else", "class A <",
        "fun f(a,", "1 +", "= = =", "a.b.", "return", "\"unterminated", "f(,)", "{{{{}",
        "print 1 2 3 4", "while (true", "super.", "this", "var a = 1 + ; var b = ; c",
    ] {
        let mut parser = new_parser_from_src_str(src);
        let _ = parser.parse();
    }
}
