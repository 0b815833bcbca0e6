use ember_lox::ast::{
    Expr, FunctionDecl, LiteralValue, Operator, PosedLiteral, PosedOperator, Stmt, STR,
};
use ember_lox::printer::{indent, AstPrinter};
use ember_lox::statements::new_parser_from_src_str;
use ember_lox::visit::{Visitor, VisitorAcceptor};

fn number(digits: &str) -> Box<Expr> {
    Box::new(Expr::Literal { val: PosedLiteral(LiteralValue::Number(digits.to_string()), 1) })
}

#[test]
fn ast_case1() {
    // var x = 1 + 2 * 3
    let expr = Stmt::Variable {
        name: STR("x".to_string(), 1),
        initializer: Some(Expr::Binary {
            left: number("1.0"),
            op: PosedOperator(Operator::Plus, 1),
            right: Box::new(Expr::Binary {
                left: number("2.0"),
                op: PosedOperator(Operator::Multiply, 1),
                right: number("3.0"),
            }),
        }),
    };

    let mut printer = AstPrinter;
    let res = expr.accept(&mut printer);

    assert_eq!(res, "(var x (+ 1.0 (* 2.0 3.0)))")
}

#[test]
fn old_visit_case1() {
    // AST: 1 + 2 * 3
    let expr = Expr::Binary {
        left: number("1"),
        op: PosedOperator(Operator::Plus, 1),
        right: Box::new(Expr::Binary {
            left: number("2"),
            op: PosedOperator(Operator::Multiply, 1),
            right: number("3"),
        }),
    };

    let mut printer = AstPrinter;
    let result = expr.accept(&mut printer);

    assert_eq!(result, "(+ 1 (* 2 3))");
}

fn printed(src: &str) -> Vec<String> {
    let mut parser = new_parser_from_src_str(src);
    let stmts = parser.parse().unwrap();
    let mut printer = AstPrinter::default();
    stmts.iter().map(|s| printer.visit_stmt(s)).collect()
}

#[test]
fn expressions_are_printed_in_prefix_form() {
    assert_eq!(
        printed("a = -b or !c; f(1, \"s\", nil)(true).x; o.p = (false); this; super.m;"),
        vec![
            "(assign a (or (- (var b)) (! (var c))))",
            "(get (call (call (var f) with [1, s, nil]) with [true]).x)",
            "(set (var o).p <- (group false))",
            "(this)",
            "(super m)",
        ]
    );
    assert_eq!(printed("f();"), vec!["(call (var f) with [])"]);
}

#[test]
fn statements_are_printed_with_their_parts_below() {
    assert_eq!(printed("print 1; var a; return; return 2;"), vec![
        "(print 1)",
        "(var a nil)",
        "(return)",
        "(return 2)",
    ]);
    assert_eq!(printed("{}"), vec!["(block ::"]);
    assert_eq!(
        printed("{ print 1; { print 2; } }"),
        vec!["(block ::\n    (print 1)\n    (block ::\n        (print 2)))"]
    );
    assert_eq!(
        printed("if (a) print 1; else print 2;"),
        vec!["(if (var a) then ::\n    (print 1)\n else ::\n    (print 2))"]
    );
    assert_eq!(printed("if (a) print 1;"), vec!["(if (var a) then ::\n    (print 1))"]);
    assert_eq!(printed("while (a) print 1;"), vec!["(while (var a) ::\n    (print 1))"]);
    assert_eq!(
        printed("fun f(a, b) { print a; print b; }"),
        vec!["(function f(a, b) ::\n    (print (var a))\n    (print (var b)))"]
    );
    assert_eq!(
        printed("class A < B { m() { return 1; } }"),
        vec!["(class A extends B ::\n    (function m() ::\n        (return 1)))"]
    );
    assert_eq!(printed("class A {}"), vec!["(class A ::"]);
}

#[test]
fn a_function_without_a_name() {
    let decl = FunctionDecl {
        name: STR(String::new(), 1),
        params: vec![STR("a".to_string(), 1)],
        body: vec![],
    };
    let mut printer = AstPrinter;
    assert_eq!(printer.stringify_function(&decl), "(function ::");
    assert_eq!(
        printer.stringify_variable(&STR("v".to_string(), 1), &Some(*number("1"))),
        "(var v 1)"
    );
}

#[test]
fn every_line_is_indented() {
    assert_eq!(indent(""), "    ");
    assert_eq!(indent("a"), "    a");
    assert_eq!(indent("a\nb\n"), "    a\n    b\n    ");
    let mut printer = AstPrinter;
    assert_eq!(
        printer.stringify_multi_lines("s", &vec!["a\nb".to_string(), "c".to_string()], "e"),
        "s::\n    a\n    b\n    ce"
    );
    assert_eq!(printer.stringify_multi_lines("s", &vec![], "e"), "s::");
}

/// Counts the nodes it is sent to.
struct Counter {
    seen: usize,
}

impl Visitor for Counter {
    type Output = usize;

    fn visit_stmt(&mut self, _stmt: &Stmt) -> usize {
        self.seen += 1;
        self.seen
    }

    fn visit_expr(&mut self, _expr: &Expr) -> usize {
        self.seen += 10;
        self.seen
    }
}

#[test]
fn any_visitor_is_accepted() {
    let mut counter = Counter { seen: 0 };
    let stmt = Stmt::Print { expr: *number("1") };
    assert_eq!(stmt.accept(&mut counter), 1);
    assert_eq!(number("2").accept(&mut counter), 11);
    assert_eq!(Visitor::visit_stmt(&mut AstPrinter, &stmt), "(print 1)");
}
