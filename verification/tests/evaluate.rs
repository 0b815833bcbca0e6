use ember_lox::ast::{Operator, Stmt};
use ember_lox::interpreter::{Action, Event, Interpreter};
use ember_lox::statements::new_parser_from_src_str;

/// What a run of a program leaves behind.
struct Outcome {
    printed: Vec<String>,
    reported: Vec<String>,
    failed: bool,
}

fn arithmetic(op: Operator, a: u64, b: u64) -> u64 {
    let (a, b) = (f64::from_bits(a), f64::from_bits(b));
    let r = match op {
        Operator::Plus => a + b,
        Operator::Minus => a - b,
        Operator::Multiply => a * b,
        Operator::Divide => a / b,
        _ => f64::NAN,
    };
    r.to_bits()
}

fn drive(interpreter: &mut Interpreter, limit: usize) -> Outcome {
    let mut outcome = Outcome { printed: vec![], reported: vec![], failed: false };
    let mut event = Event::Resume;
    for _ in 0..limit {
        let action = interpreter.step(event);
        event = Event::Resume;
        match action {
            Action::Continue => {}
            Action::Print(line) => outcome.printed.push(line),
            Action::Report { message, line } => {
                outcome.reported.push(message);
                outcome.reported.push(format!("[line {}]", line));
            }
            Action::ParseNumber(text) => {
                event = Event::Number(text.parse::<f64>().unwrap_or_default().to_bits())
            }
            Action::Arithmetic(op, a, b) => event = Event::Number(arithmetic(op, a, b)),
            Action::FormatNumber(bits) => event = Event::Text(f64::from_bits(bits).to_string()),
            Action::Done { failed } => {
                outcome.failed = failed;
                return outcome;
            }
        }
    }
    panic!("the program did not end within {} steps", limit);
}

fn parse(src: &str) -> Vec<Stmt> {
    let mut parser = new_parser_from_src_str(src);
    match parser.parse() {
        Some(stmts) => stmts,
        None => panic!(
            "parse errors: {:?}",
            parser.diagnostics().iter().map(|d| d.render()).collect::<Vec<_>>()
        ),
    }
}

fn run_with(src: &str, repl: bool) -> Outcome {
    let stmts = parse(src);
    let mut interpreter = Interpreter::new();
    interpreter.interpret(&stmts, repl);
    let outcome = drive(&mut interpreter, 1_000_000);
    assert_eq!(interpreter.env().current(), Some(0));
    outcome
}

fn run(src: &str) -> Outcome {
    run_with(src, false)
}

fn printed(src: &str) -> Vec<String> {
    let outcome = run(src);
    assert!(!outcome.failed, "runtime error: {:?}", outcome.reported);
    assert!(outcome.reported.is_empty());
    outcome.printed
}

#[test]
fn literals_print_by_the_value_printing_rules() {
    assert_eq!(printed("print 1;"), vec!["1.0"]);
    assert_eq!(printed("print 1.0;"), vec!["1.0"]);
    assert_eq!(printed("print 1.5;"), vec!["1.5"]);
    assert_eq!(printed("print \"ab\";"), vec!["ab"]);
    assert_eq!(printed("print nil;"), vec!["nil"]);
    assert_eq!(printed("print true;"), vec!["true"]);
    assert_eq!(printed("print false;"), vec!["false"]);
}

#[test]
fn arithmetic_follows_precedence() {
    assert_eq!(printed("print 1 + 2 * 3;"), vec!["7.0"]);
    assert_eq!(printed("print (1 + 2) * 3;"), vec!["9.0"]);
    assert_eq!(printed("print 10 - 4 - 3;"), vec!["3.0"]);
    assert_eq!(printed("print -2 * -3;"), vec!["6.0"]);
    assert_eq!(printed("print 7 / 2;"), vec!["3.5"]);
}

#[test]
fn strings_concatenate() {
    assert_eq!(
        printed("var a = \"foo\"; var b = \"bar\"; print a + b;"),
        vec!["foobar"]
    );
}

#[test]
fn inner_scope_shadows_and_is_left() {
    assert_eq!(
        printed("var a = 1; { var a = 2; print a; } print a;"),
        vec!["2.0", "1.0"]
    );
}

#[test]
fn for_loop_counts() {
    assert_eq!(
        printed("for (var i = 0; i < 3; i = i + 1) print i;"),
        vec!["0.0", "1.0", "2.0"]
    );
}

#[test]
fn recursion_computes_fibonacci() {
    assert_eq!(
        printed("fun f(n) { if (n <= 1) return n; return f(n-1) + f(n-2); } print f(10);"),
        vec!["55.0"]
    );
}

#[test]
fn adding_a_string_and_a_number_fails() {
    let outcome = run("print \"1\" + 2;");
    assert!(outcome.failed);
    assert!(outcome.printed.is_empty());
    assert_eq!(outcome.reported, vec!["Operands must be numbers.", "[line 1]"]);
}

#[test]
fn assignment_needs_a_declaration() {
    let outcome = run("var a; a = 1; print a;");
    assert!(!outcome.failed);
    assert_eq!(outcome.printed, vec!["1.0"]);
    let outcome = run("a = 1;");
    assert!(outcome.failed);
    assert_eq!(outcome.reported, vec!["Undefined variable: 'a'.", "[line 1]"]);
}

#[test]
fn undefined_variable_is_reported_on_its_line() {
    let outcome = run("print 1;\nprint b;\nprint 2;");
    assert!(outcome.failed);
    assert_eq!(outcome.printed, vec!["1.0"]);
    assert_eq!(outcome.reported, vec!["Undefined variable: 'b'.", "[line 2]"]);
}

#[test]
fn division_by_zero_is_no_error() {
    assert_eq!(printed("print 1 / 0;"), vec!["inf.0"]);
    assert_eq!(printed("print 0 / 0 == 0 / 0;"), vec!["false"]);
}

#[test]
fn comparison_and_equality() {
    assert_eq!(printed("print 1 < 2;"), vec!["true"]);
    assert_eq!(printed("print 2 <= 2;"), vec!["true"]);
    assert_eq!(printed("print 1 > 2;"), vec!["false"]);
    assert_eq!(printed("print 2 >= 3;"), vec!["false"]);
    assert_eq!(printed("print 1 == 1;"), vec!["true"]);
    assert_eq!(printed("print 1 != 1;"), vec!["false"]);
    assert_eq!(printed("print 1 == \"1\";"), vec!["false"]);
    assert_eq!(printed("print nil == nil;"), vec!["true"]);
    assert_eq!(printed("print nil == false;"), vec!["false"]);
    assert_eq!(printed("print \"a\" == \"a\";"), vec!["true"]);
    assert_eq!(printed("print 0 == -0;"), vec!["true"]);
    let outcome = run("print 1 < \"2\";");
    assert_eq!(outcome.reported, vec!["Operands must be numbers.", "[line 1]"]);
}

#[test]
fn unary_operators() {
    assert_eq!(printed("print -3;"), vec!["-3.0"]);
    assert_eq!(printed("print !nil;"), vec!["true"]);
    assert_eq!(printed("print !0;"), vec!["false"]);
    assert_eq!(printed("print !!\"\";"), vec!["true"]);
    let outcome = run("print -\"a\";");
    assert!(outcome.failed);
    assert_eq!(outcome.reported, vec!["Operand must be a number.", "[line 1]"]);
}

#[test]
fn logical_operators_short_circuit() {
    assert_eq!(printed("print nil or \"yes\";"), vec!["yes"]);
    assert_eq!(printed("print 1 or 2;"), vec!["1.0"]);
    assert_eq!(printed("print nil and 2;"), vec!["nil"]);
    assert_eq!(printed("print 1 and 2;"), vec!["2.0"]);
    assert_eq!(printed("var a = 1; true or (a = 2); print a;"), vec!["1.0"]);
    assert_eq!(printed("var a = 1; false and (a = 2); print a;"), vec!["1.0"]);
}

#[test]
fn if_and_while() {
    assert_eq!(printed("if (1 < 2) print \"a\"; else print \"b\";"), vec!["a"]);
    assert_eq!(printed("if (nil) print \"a\"; else print \"b\";"), vec!["b"]);
    assert_eq!(printed("if (false) print \"a\";"), Vec::<String>::new());
    assert_eq!(
        printed("var i = 3; while (i > 0) { print i; i = i - 1; }"),
        vec!["3.0", "2.0", "1.0"]
    );
}

#[test]
fn assignment_is_an_expression() {
    assert_eq!(printed("var a = 1; print a = 2; print a;"), vec!["2.0", "2.0"]);
    assert_eq!(
        printed("var a = 1; { a = 3; var a = 5; a = 6; } print a;"),
        vec!["3.0"]
    );
}

#[test]
fn closures_see_their_defining_scope() {
    let src = "fun counter() { var n = 0; fun next() { n = n + 1; return n; } return next; }
               var c = counter(); print c(); print c(); var d = counter(); print d();";
    assert_eq!(printed(src), vec!["1.0", "2.0", "1.0"]);
    assert_eq!(
        printed("var a = 1; fun set() { a = 2; } set(); print a;"),
        vec!["2.0"]
    );
}

#[test]
fn functions_return_nil_by_default() {
    assert_eq!(printed("fun f() { print 1; } print f();"), vec!["1.0", "nil"]);
    assert_eq!(printed("fun f() { return; } print f();"), vec!["nil"]);
    assert_eq!(printed("fun f() {} print f;"), vec!["<fn f>"]);
    assert_eq!(
        printed("fun f() { while (true) { { return 7; } } } print f(); print 8;"),
        vec!["7.0", "8.0"]
    );
}

#[test]
fn calls_check_callee_and_arity() {
    let outcome = run("var a = 1;\na();");
    assert!(outcome.failed);
    assert_eq!(outcome.reported, vec!["Can only call functions and classes.", "[line 2]"]);
    let outcome = run("fun f(a, b) {}\n\nf(1);");
    assert!(outcome.failed);
    assert_eq!(outcome.reported, vec!["Expected 2 arguments but got 1.", "[line 3]"]);
}

#[test]
fn arguments_are_evaluated_left_to_right() {
    let src = "fun show(x) { print x; return x; } fun f(a, b, c) { return a + b + c; }
               print f(show(1), show(2), show(3));";
    assert_eq!(printed(src), vec!["1.0", "2.0", "3.0", "6.0"]);
}

#[test]
fn a_runtime_error_leaves_every_scope() {
    let stmts = parse("fun f() { { var x = 1; { print y; } } } { { f(); } }");
    let mut interpreter = Interpreter::new();
    interpreter.interpret(&stmts, false);
    let outcome = drive(&mut interpreter, 10_000);
    assert!(outcome.failed);
    assert_eq!(outcome.reported, vec!["Undefined variable: 'y'.", "[line 1]"]);
    assert_eq!(interpreter.env().current(), Some(0));
    assert!(interpreter.has_runtime_error());
}

#[test]
fn repl_mode_prints_expression_statements() {
    let outcome = run_with("1 + 2; \"a\"; var x = 3; x;", true);
    assert_eq!(outcome.printed, vec!["3.0", "a", "3.0"]);
    let outcome = run_with("1 + 2;", false);
    assert!(outcome.printed.is_empty());
}

#[test]
fn a_wrong_answer_has_the_question_asked_again() {
    let stmts = parse("print 2;");
    let mut interpreter = Interpreter::new();
    interpreter.interpret(&stmts, false);
    let mut asked = 0;
    let mut event = Event::Resume;
    loop {
        match interpreter.step(event) {
            Action::ParseNumber(text) => {
                assert_eq!(text, "2");
                asked += 1;
                event = if asked < 3 { Event::Resume } else { Event::Number(2f64.to_bits()) };
            }
            Action::FormatNumber(bits) => {
                assert_eq!(f64::from_bits(bits), 2.0);
                event = Event::Text("2".to_string());
            }
            Action::Print(line) => {
                assert_eq!(line, "2.0");
                event = Event::Resume;
            }
            Action::Done { failed } => {
                assert!(!failed);
                break;
            }
            _ => event = Event::Resume,
        }
    }
    assert_eq!(asked, 3);
}

#[test]
fn classes_and_instances_print_by_name() {
    assert_eq!(
        printed("class Cake {} print Cake; var c = Cake(); print c;"),
        vec!["Cake", "Cake instance"]
    );
}

#[test]
fn instances_have_fields() {
    let src = "class Box {} var b = Box(); b.x = 1; b.y = b.x + 1; print b.x; print b.y;
               print b.x = 5; print b.x;";
    assert_eq!(printed(src), vec!["1.0", "2.0", "5.0", "5.0"]);
    let outcome = run("class Box {} var b = Box();\nprint b.missing;");
    assert!(outcome.failed);
    assert_eq!(outcome.reported, vec!["Undefined property 'missing'.", "[line 2]"]);
    let outcome = run("var a = 1; print a.x;");
    assert_eq!(outcome.reported, vec!["Only instances have properties.", "[line 1]"]);
    let outcome = run("var a = \"s\"; a.x = 2;");
    assert_eq!(outcome.reported, vec!["Only instances have fields.", "[line 1]"]);
}

#[test]
fn methods_see_this() {
    let src = "class Counter {
                 init(start) { this.n = start; }
                 next() { this.n = this.n + 1; return this.n; }
               }
               var c = Counter(5); print c.next(); print c.next();
               var next = c.next; print next(); print c.n;";
    assert_eq!(printed(src), vec!["6.0", "7.0", "8.0", "8.0"]);
}

#[test]
fn initializers_return_the_instance() {
    let src = "class A { init() { this.x = 1; return; } }
               var a = A(); print a.x; print a.init().x; print a.init;";
    assert_eq!(printed(src), vec!["1.0", "1.0", "<fn init>"]);
    let outcome = run("class A { init(a, b) {} }\nA(1);");
    assert_eq!(outcome.reported, vec!["Expected 2 arguments but got 1.", "[line 2]"]);
    let outcome = run("class A {}\nA(1);");
    assert_eq!(outcome.reported, vec!["Expected 0 arguments but got 1.", "[line 2]"]);
}

#[test]
fn classes_inherit_methods() {
    let src = "class A { hello() { return \"A\"; } name() { return \"a\"; } }
               class B < A { name() { return \"b\"; } both() { return super.name() + this.name(); } }
               class C < B {}
               var c = C(); print c.hello(); print c.name(); print c.both();";
    assert_eq!(printed(src), vec!["A", "b", "ab"]);
    let outcome = run("var x = 1;\nclass A < x {}");
    assert!(outcome.failed);
    assert_eq!(outcome.reported, vec!["Superclass must be a class.", "[line 2]"]);
    let outcome = run("class A < Missing {}");
    assert_eq!(outcome.reported, vec!["Undefined variable: 'Missing'.", "[line 1]"]);
    let outcome = run("class A {} class B < A { m() { return super.missing(); } }\nB().m();");
    assert_eq!(outcome.reported, vec!["Undefined property 'missing'.", "[line 1]"]);
}

#[test]
fn the_last_method_of_a_name_wins() {
    assert_eq!(
        printed("class A { m() { return 1; } m() { return 2; } } print A().m();"),
        vec!["2.0"]
    );
}

#[test]
fn this_and_super_need_a_method() {
    let outcome = run("print this;");
    assert!(outcome.failed);
    assert_eq!(outcome.reported, vec!["Undefined variable: 'this'.", "[line 1]"]);
    let outcome = run("print super.x;");
    assert_eq!(outcome.reported, vec!["Undefined variable: 'super'.", "[line 1]"]);
}

#[test]
fn instances_are_equal_to_themselves_only() {
    let src = "class A {} var a = A(); var b = A(); print a == a; print a == b; print A == A;";
    assert_eq!(printed(src), vec!["true", "false", "true"]);
}

#[test]
fn frames_are_given_up_when_their_scope_is_left() {
    let stmts = parse(
        "fun fib(n) { if (n < 2) return n; return fib(n - 1) + fib(n - 2); }
         var i = 0; var sum = 0;
         while (i < 300) { var d = i; { var e = d; sum = sum + e; } i = i + 1; }
         print sum; print fib(15);",
    );
    let mut interpreter = Interpreter::new();
    interpreter.interpret(&stmts, false);
    let outcome = drive(&mut interpreter, 10_000_000);
    assert_eq!(outcome.printed, vec!["44850.0", "610.0"]);
    assert_eq!(interpreter.env().current(), Some(0));
    assert_eq!(interpreter.env().frame_count(), 1);
}

#[test]
fn proceeding_takes_the_steps_that_need_no_host() {
    let stmts = parse("var a; { var b; { var c; } } a = nil; print a;");
    let mut interpreter = Interpreter::new();
    interpreter.interpret(&stmts, false);
    // One step is one step.
    assert!(matches!(interpreter.proceed(Event::Resume, 1), Action::Continue));
    assert!(matches!(interpreter.proceed(Event::Resume, 0), Action::Continue));
    // Without a limit to speak of, the next thing is the host's to do.
    match interpreter.proceed(Event::Resume, usize::MAX) {
        Action::Print(line) => assert_eq!(line, "nil"),
        other => panic!("unexpected {:?}", other),
    }
    assert!(matches!(
        interpreter.proceed(Event::Resume, usize::MAX),
        Action::Done { failed: false }
    ));
    assert_eq!(interpreter.env().current(), Some(0));
    assert_eq!(interpreter.env().frame_count(), 1);
    assert!(interpreter.env().get("a").is_some());
    assert!(interpreter.env().get("b").is_none());
    assert!(interpreter.env().get("c").is_none());
}

#[test]
fn names_bound_in_a_block_are_gone_behind_an_error() {
    let stmts = parse("var a = nil; { var b = nil; { var c = nil; print missing; } } var d;");
    let mut interpreter = Interpreter::new();
    interpreter.interpret(&stmts, false);
    let mut reported = vec![];
    loop {
        match interpreter.proceed(Event::Resume, 1000) {
            Action::Report { message, .. } => reported.push(message),
            Action::Done { failed } => {
                assert!(failed);
                break;
            }
            _ => {}
        }
    }
    assert_eq!(reported, vec!["Undefined variable: 'missing'."]);
    assert_eq!(interpreter.env().current(), Some(0));
    assert_eq!(interpreter.env().frame_count(), 1);
    assert!(interpreter.env().get("a").is_some());
    for gone in ["b", "c", "d"] {
        assert!(interpreter.env().get(gone).is_none());
    }
}
