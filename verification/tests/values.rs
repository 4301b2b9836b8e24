use rys::expr::{BinaryOp, UnaryOp};
use rys::interpreter::env::Env;
use rys::interpreter::error::RuntimeError;
use rys::interpreter::Interpreter;
use rys::literal::Literal;
use rys::number;
use rys::text;

fn arith(op: BinaryOp, a: u64, b: u64) -> u64 {
    let x = f64::from_bits(a);
    let y = f64::from_bits(b);
    let r = match op {
        BinaryOp::Add => x + y,
        BinaryOp::Sub => x - y,
        BinaryOp::Multiply => x * y,
        BinaryOp::Divide => x / y,
        _ => f64::NAN,
    };
    r.to_bits()
}

fn show(bits: u64) -> String {
    format!("{}", f64::from_bits(bits))
}

fn num(x: f64) -> Literal {
    Literal::Number(x.to_bits())
}

fn samples() -> Vec<f64> {
    vec![
        0.0,
        -0.0,
        1.0,
        -1.0,
        0.5,
        -0.5,
        2.0,
        1e300,
        -1e300,
        5e-324,
        -5e-324,
        f64::MIN_POSITIVE,
        f64::MAX,
        f64::MIN,
        f64::INFINITY,
        f64::NEG_INFINITY,
        f64::NAN,
        -f64::NAN,
        f64::from_bits(0x7ff0_0000_0000_0001),
        3.141592653589793,
    ]
}

#[test]
fn numbers_compare_as_floats_do() {
    for a in samples() {
        for b in samples() {
            let (x, y) = (a.to_bits(), b.to_bits());
            assert_eq!(number::equal(x, y), a == b, "{} == {}", a, b);
            assert_eq!(number::less(x, y), a < b, "{} < {}", a, b);
            assert_eq!(number::less_equal(x, y), a <= b, "{} <= {}", a, b);
        }
    }
}

#[test]
fn numbers_classify_and_negate_as_floats_do() {
    for a in samples() {
        let x = a.to_bits();
        assert_eq!(number::nan(x), a.is_nan(), "{}", a);
        assert_eq!(number::zero(x), a == 0.0, "{}", a);
        assert_eq!(number::negate(x), (-a).to_bits(), "{}", a);
    }
}

#[test]
fn digits_are_the_ascii_digits() {
    for c in ['0', '5', '9'] {
        assert!(text::digit(c));
    }
    for c in ['/', ':', 'a', ' ', '٣'] {
        assert!(!text::digit(c));
    }
}

#[test]
fn text_converts_to_characters_and_back() {
    let chars = text::to_chars("aé\n");
    assert_eq!(chars, vec!['a', 'é', '\n']);
    assert_eq!(text::from_chars(&chars, 1, 3), "é\n");
    assert_eq!(text::from_chars(&chars, 2, 2), "");
}

#[test]
fn kinds_have_names() {
    assert_eq!(Literal::True.to_type_string(), "true");
    assert_eq!(Literal::False.to_type_string(), "false");
    assert_eq!(num(1.0).to_type_string(), "number");
    assert_eq!(Literal::String("a".to_string()).to_type_string(), "string");
}

#[test]
fn values_are_equal_by_structure() {
    assert!(Literal::True.equals(&Literal::True));
    assert!(!Literal::True.equals(&Literal::False));
    assert!(num(0.0).equals(&num(-0.0)));
    assert!(!num(f64::NAN).equals(&num(f64::NAN)));
    assert!(!num(1.0).equals(&Literal::String("1".to_string())));
    assert!(Literal::String("a".to_string()).equals(&Literal::String("a".to_string())));
    assert!(!Literal::String("a".to_string()).equals(&Literal::String("b".to_string())));
    assert!(num(2.5).clone().equals(&num(2.5)));
    assert!(num(0.0) == num(-0.0));
    assert!(num(f64::NAN) != num(f64::NAN));
    assert!(Literal::True != Literal::False);
    assert!(Literal::String("a".to_string()) == Literal::String("a".to_string()));
}

#[test]
fn environment_resolves_innermost_first() {
    let mut env = Env::new();
    assert!(matches!(env.get("x"), Err(RuntimeError::UndeclaredVariable(n)) if n == "x"));
    env.declare("x".to_string(), num(1.0), true);
    env.push_scope();
    assert!(matches!(env.get("x"), Ok(Literal::Number(b)) if f64::from_bits(*b) == 1.0));
    env.declare("x".to_string(), Literal::True, false);
    assert!(matches!(env.get("x"), Ok(Literal::True)));
    assert!(matches!(
        env.set("x", Literal::False),
        Err(RuntimeError::AssignmentToImmutable(n)) if n == "x"
    ));
    assert!(matches!(env.get("x"), Ok(Literal::True)));
    env.pop_scope();
    assert!(env.set("x", num(2.0)).is_ok());
    assert!(matches!(env.get("x"), Ok(Literal::Number(b)) if f64::from_bits(*b) == 2.0));
}

#[test]
fn environment_assigns_in_the_nearest_scope_that_declares() {
    let mut env = Env::new();
    env.declare("a".to_string(), num(1.0), true);
    env.declare("b".to_string(), num(1.0), true);
    env.push_scope();
    env.declare("b".to_string(), num(2.0), true);
    env.push_scope();
    assert!(env.set("a", num(10.0)).is_ok());
    assert!(env.set("b", num(20.0)).is_ok());
    assert!(matches!(env.set("c", num(0.0)), Err(RuntimeError::UndeclaredVariable(n)) if n == "c"));
    env.pop_scope();
    assert!(matches!(env.get("b"), Ok(Literal::Number(b)) if f64::from_bits(*b) == 20.0));
    env.pop_scope();
    assert!(matches!(env.get("a"), Ok(Literal::Number(b)) if f64::from_bits(*b) == 10.0));
    assert!(matches!(env.get("b"), Ok(Literal::Number(b)) if f64::from_bits(*b) == 1.0));
}

#[test]
fn environment_redeclares_in_the_same_scope() {
    let mut env = Env::new();
    env.declare("a".to_string(), num(1.0), false);
    env.declare("b".to_string(), num(5.0), false);
    env.declare("a".to_string(), num(2.0), true);
    assert!(matches!(env.get("a"), Ok(Literal::Number(b)) if f64::from_bits(*b) == 2.0));
    assert!(env.set("a", num(3.0)).is_ok());
    assert!(matches!(env.get("a"), Ok(Literal::Number(b)) if f64::from_bits(*b) == 3.0));
    assert!(matches!(env.get("b"), Ok(Literal::Number(b)) if f64::from_bits(*b) == 5.0));
}

#[test]
fn global_scope_is_never_popped() {
    let mut env = Env::new();
    env.declare("a".to_string(), Literal::True, false);
    env.pop_scope();
    env.pop_scope();
    assert!(matches!(env.get("a"), Ok(Literal::True)));
    env.declare("b".to_string(), Literal::False, false);
    assert!(matches!(env.get("b"), Ok(Literal::False)));
}

#[test]
fn prefix_operators_on_values() {
    assert!(matches!(Interpreter::unary(UnaryOp::Not, Literal::True), Ok(Literal::False)));
    assert!(matches!(Interpreter::unary(UnaryOp::Not, Literal::False), Ok(Literal::True)));
    assert!(matches!(
        Interpreter::unary(UnaryOp::Neg, num(0.0)),
        Ok(Literal::Number(b)) if b == (-0.0f64).to_bits()
    ));
    assert!(matches!(
        Interpreter::unary(UnaryOp::Neg, Literal::True),
        Err(RuntimeError::ForbiddenType(m)) if m == "Cannot apply unary operator `-` to `true`"
    ));
    assert!(matches!(
        Interpreter::unary(UnaryOp::Not, Literal::String("a".to_string())),
        Err(RuntimeError::ForbiddenType(m)) if m == "Cannot apply unary operator `!` to `string`"
    ));
}

#[test]
fn infix_operators_on_values() {
    let two = || num(2.0);
    let three = || num(3.0);
    let bits = |r: Result<Literal, RuntimeError>| match r {
        Ok(Literal::Number(b)) => f64::from_bits(b),
        other => panic!("{:?}", other),
    };
    assert_eq!(bits(Interpreter::binary(two(), BinaryOp::Add, three(), &arith, &show)), 5.0);
    assert_eq!(bits(Interpreter::binary(two(), BinaryOp::Sub, three(), &arith, &show)), -1.0);
    assert_eq!(bits(Interpreter::binary(two(), BinaryOp::Multiply, three(), &arith, &show)), 6.0);
    assert_eq!(bits(Interpreter::binary(three(), BinaryOp::Divide, two(), &arith, &show)), 1.5);
    assert_eq!(bits(Interpreter::algebraic(three(), two(), BinaryOp::Sub, &arith)), 1.0);
    assert!(matches!(
        Interpreter::binary(two(), BinaryOp::Less, three(), &arith, &show),
        Ok(Literal::True)
    ));
    assert!(matches!(
        Interpreter::comparison(two(), three(), BinaryOp::GreaterEqual),
        Ok(Literal::False)
    ));
    assert!(matches!(
        Interpreter::comparison(num(f64::NAN), three(), BinaryOp::LessEqual),
        Ok(Literal::False)
    ));
    assert!(matches!(
        Interpreter::binary(num(1.0), BinaryOp::Divide, num(-0.0), &arith, &show),
        Err(RuntimeError::DivideByZero)
    ));
    assert!(matches!(
        Interpreter::binary(Literal::String("a".to_string()), BinaryOp::Divide, num(0.0), &arith, &show),
        Err(RuntimeError::TypeMismatch(m)) if m == "Cannot divide `string` by `number`"
    ));
    assert!(matches!(
        Interpreter::binary(two(), BinaryOp::Divide, Literal::True, &arith, &show),
        Err(RuntimeError::TypeMismatch(m)) if m == "Cannot divide `number` by `true`"
    ));
    assert!(matches!(
        Interpreter::binary(num(1.5), BinaryOp::Add, Literal::String("x".to_string()), &arith, &show),
        Ok(Literal::String(s)) if s == "1.5x"
    ));
}

#[test]
fn runtime_error_messages() {
    assert!(matches!(
        RuntimeError::comparison::<()>(Literal::True, num(1.0)),
        Err(RuntimeError::TypeMismatch(m)) if m == "Cannot compare `true` with `number`"
    ));
    assert!(matches!(
        RuntimeError::addition::<()>(Literal::True, num(1.0)),
        Err(RuntimeError::TypeMismatch(m)) if m == "Cannot add `true` to `number`"
    ));
    assert!(matches!(
        RuntimeError::substraction::<()>(Literal::True, num(1.0)),
        Err(RuntimeError::TypeMismatch(m)) if m == "Cannot substract `number` from `true`"
    ));
    assert!(matches!(
        RuntimeError::multiplication::<()>(Literal::True, num(1.0)),
        Err(RuntimeError::TypeMismatch(m)) if m == "Cannot multiply `true` by `number`"
    ));
    assert!(matches!(
        RuntimeError::division::<()>(Literal::True, num(1.0)),
        Err(RuntimeError::TypeMismatch(m)) if m == "Cannot divide `true` by `number`"
    ));
    assert!(matches!(
        RuntimeError::unary::<()>(UnaryOp::Neg, Literal::False),
        Err(RuntimeError::ForbiddenType(m)) if m == "Cannot apply unary operator `-` to `false`"
    ));
    assert!(matches!(
        RuntimeError::undeclared_var::<()>("x"),
        Err(RuntimeError::UndeclaredVariable(n)) if n == "x"
    ));
    assert!(matches!(
        RuntimeError::assignment::<()>("x"),
        Err(RuntimeError::AssignmentToImmutable(n)) if n == "x"
    ));
}

#[test]
fn values_have_texts() {
    assert_eq!(Literal::True.to_text(&show), "true");
    assert_eq!(Literal::False.to_text(&show), "false");
    assert_eq!(num(-2.5).to_text(&show), "-2.5");
    assert_eq!(Literal::String("a b".to_string()).to_text(&show), "a b");
}
