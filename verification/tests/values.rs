use ember_lox::ast::Operator;
use ember_lox::environment::Env;
use ember_lox::value::{equal_numbers, is_nan, less, Applied, Value};

fn samples() -> Vec<f64> {
    vec![
        0.0,
        -0.0,
        1.0,
        -1.0,
        1.5,
        -1.5,
        2.0,
        1e-320,
        -1e-320,
        f64::MIN_POSITIVE,
        f64::MAX,
        f64::MIN,
        f64::EPSILON,
        f64::INFINITY,
        f64::NEG_INFINITY,
        f64::NAN,
        -f64::NAN,
        123456789.125,
        -0.1,
        0.1,
    ]
}

#[test]
fn numbers_compare_as_doubles_do() {
    for a in samples() {
        assert_eq!(is_nan(a.to_bits()), a.is_nan());
        for b in samples() {
            let (x, y) = (a.to_bits(), b.to_bits());
            assert_eq!(less(x, y, false), a < b, "{} < {}", a, b);
            assert_eq!(less(x, y, true), a <= b, "{} <= {}", a, b);
            assert_eq!(equal_numbers(x, y), a == b, "{} == {}", a, b);
        }
    }
}

fn number(x: f64) -> Value {
    Value::Number(x.to_bits())
}

fn text(s: &str) -> Value {
    Value::Str(s.to_string())
}

#[test]
fn negation_flips_the_sign() {
    for a in samples() {
        match Value::unary(Operator::Minus, &number(a)) {
            Applied::Value(Value::Number(bits)) => assert_eq!(bits, (-a).to_bits()),
            other => panic!("unexpected {:?}", other),
        }
    }
}

#[test]
fn truthiness() {
    assert!(!Value::Nil.is_true());
    assert!(!Value::Bool(false).is_true());
    assert!(Value::Bool(true).is_true());
    assert!(number(0.0).is_true());
    assert!(text("").is_true());
    assert!(Value::Function(0).is_true());
}

#[test]
fn kinds_have_names() {
    assert_eq!(number(1.0).get_type(), "number");
    assert_eq!(text("a").get_type(), "string");
    assert_eq!(Value::Bool(true).get_type(), "bool");
    assert_eq!(Value::Nil.get_type(), "nil");
    assert_eq!(Value::Function(0).get_type(), "function");
    assert_eq!(Value::Class(0).get_type(), "class");
    assert_eq!(Value::Instance(0).get_type(), "instance");
}

#[test]
fn equality_is_by_kind() {
    assert!(Value::Nil.equals(&Value::Nil));
    assert!(text("a").equals(&text("a")));
    assert!(!text("a").equals(&text("b")));
    assert!(!text("1").equals(&number(1.0)));
    assert!(!Value::Nil.equals(&Value::Bool(false)));
    assert!(number(0.0).equals(&number(-0.0)));
    assert!(!number(f64::NAN).equals(&number(f64::NAN)));
    assert!(Value::Function(1).equals(&Value::Function(1)));
    assert!(!Value::Function(1).equals(&Value::Function(2)));
}

#[test]
fn binary_operators() {
    match Value::binary(Operator::Plus, &text("foo"), &text("bar")) {
        Applied::Value(Value::Str(s)) => assert_eq!(s, "foobar"),
        other => panic!("unexpected {:?}", other),
    }
    match Value::binary(Operator::Minus, &number(3.0), &number(1.0)) {
        Applied::Arithmetic(Operator::Minus, a, b) => {
            assert_eq!((a, b), (3f64.to_bits(), 1f64.to_bits()))
        }
        other => panic!("unexpected {:?}", other),
    }
    for op in [Operator::Plus, Operator::Minus, Operator::Multiply, Operator::Divide, Operator::Less] {
        match Value::binary(op, &text("1"), &number(2.0)) {
            Applied::Error(message) => assert_eq!(message, "Operands must be numbers."),
            other => panic!("unexpected {:?}", other),
        }
    }
    match Value::binary(Operator::Minus, &text("a"), &text("b")) {
        Applied::Error(message) => assert_eq!(message, "Operands must be numbers."),
        other => panic!("unexpected {:?}", other),
    }
    match Value::binary(Operator::Greater, &number(2.0), &number(1.0)) {
        Applied::Value(Value::Bool(b)) => assert!(b),
        other => panic!("unexpected {:?}", other),
    }
    match Value::binary(Operator::NotEqual, &Value::Nil, &number(1.0)) {
        Applied::Value(Value::Bool(b)) => assert!(b),
        other => panic!("unexpected {:?}", other),
    }
    match Value::binary(Operator::Not, &Value::Nil, &Value::Nil) {
        Applied::Error(message) => assert_eq!(message, "Invalid binary operator: !"),
        other => panic!("unexpected {:?}", other),
    }
    match Value::unary(Operator::Plus, &Value::Nil) {
        Applied::Error(message) => assert_eq!(message, "Invalid unary operator: +"),
        other => panic!("unexpected {:?}", other),
    }
}

fn get(env: &Env, name: &str) -> Option<String> {
    env.get(name).map(|v| format!("{:?}", v))
}

#[test]
fn define_binds_in_the_innermost_scope_only() {
    let mut env = Env::new();
    env.define("a".to_string(), number(1.0));
    env.new_enclosed();
    env.define("a".to_string(), number(2.0));
    env.define("b".to_string(), Value::Nil);
    assert_eq!(get(&env, "a"), Some(format!("{:?}", number(2.0))));
    assert_eq!(get(&env, "b"), Some("Nil".to_string()));
    env.drop_innermost_scope();
    assert_eq!(get(&env, "a"), Some(format!("{:?}", number(1.0))));
    assert_eq!(get(&env, "b"), None);
    // A second definition in one scope replaces the first.
    env.define("a".to_string(), text("x"));
    assert_eq!(get(&env, "a"), Some(format!("{:?}", text("x"))));
}

#[test]
fn assign_never_makes_a_binding() {
    let mut env = Env::new();
    assert!(env.assign("a".to_string(), Value::Nil).is_none());
    assert_eq!(get(&env, "a"), None);
    env.define("a".to_string(), number(1.0));
    env.new_enclosed();
    env.new_enclosed();
    let prior = env.assign("a".to_string(), number(2.0));
    assert_eq!(format!("{:?}", prior), format!("{:?}", Some(number(1.0))));
    env.drop_innermost_scope();
    env.drop_innermost_scope();
    assert_eq!(get(&env, "a"), Some(format!("{:?}", number(2.0))));
    assert_eq!(env.current(), Some(0));
}

#[test]
fn assign_changes_the_innermost_holder() {
    let mut env = Env::new();
    env.define("a".to_string(), number(1.0));
    env.new_enclosed();
    env.define("a".to_string(), number(2.0));
    env.new_enclosed();
    env.assign("a".to_string(), number(3.0));
    assert_eq!(get(&env, "a"), Some(format!("{:?}", number(3.0))));
    env.drop_innermost_scope();
    assert_eq!(get(&env, "a"), Some(format!("{:?}", number(3.0))));
    env.drop_innermost_scope();
    assert_eq!(get(&env, "a"), Some(format!("{:?}", number(1.0))));
}

#[test]
fn frames_are_given_up_unless_held() {
    let mut env = Env::new();
    env.new_enclosed();
    let inner = env.current();
    assert_eq!(inner, Some(1));
    env.drop_innermost_scope();
    env.new_enclosed();
    // The frame that was left was given up: its place is taken again.
    assert_eq!(env.current(), Some(1));
    env.pin(env.current());
    env.define("x".to_string(), Value::Nil);
    env.drop_innermost_scope();
    env.new_enclosed();
    assert_eq!(env.current(), Some(2));
    assert_eq!(get(&env, "x"), None);
    env.leave(Some(1));
    assert_eq!(get(&env, "x"), Some("Nil".to_string()));
    // Leaving the global scope leaves no scope at all.
    env.leave(Some(0));
    env.drop_innermost_scope();
    assert_eq!(env.current(), None);
    env.define("y".to_string(), Value::Nil);
    assert_eq!(get(&env, "y"), None);
    // A frame that does not exist is no scope.
    env.leave(Some(99));
    assert_eq!(env.current(), None);
}
