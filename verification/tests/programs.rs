use rys::expr::{BinaryOp, Expr, Stmt};
use rys::interpreter::env::Env;
use rys::interpreter::error::RuntimeError;
use rys::interpreter::{run, Interpreter};
use rys::literal::Literal;
use rys::{scan_and_parse, SyntaxErrors};

fn read_number(text: String) -> Result<u64, String> {
    match text.parse::<f64>() {
        Ok(x) => Ok(x.to_bits()),
        Err(e) => Err(format!("{:?}", e)),
    }
}

fn arith(op: BinaryOp, a: u64, b: u64) -> u64 {
    let x = f64::from_bits(a);
    let y = f64::from_bits(b);
    let r = match op {
        BinaryOp::Add => x + y,
        BinaryOp::Sub => x - y,
        BinaryOp::Multiply => x * y,
        BinaryOp::Divide => x / y,
        _ => f64::NAN,
    };
    r.to_bits()
}

fn show(bits: u64) -> String {
    format!("{}", f64::from_bits(bits))
}

fn num(x: f64) -> Literal {
    Literal::Number(x.to_bits())
}

fn parse(source: &str) -> Vec<Stmt> {
    match scan_and_parse(source, &read_number) {
        Ok(stmts) => stmts,
        Err(e) => panic!("{:?}", e),
    }
}

fn run_source(source: &str) -> (Result<(), RuntimeError>, Vec<String>, Env) {
    let stmts = parse(source);
    let mut env = Env::new();
    let mut out = Vec::new();
    let r = run(&stmts, &mut env, &arith, &show, &mut out);
    (r, out, env)
}

fn output(source: &str) -> Vec<String> {
    let (r, out, _) = run_source(source);
    assert!(r.is_ok(), "{:?}", r);
    out
}

fn failure(source: &str) -> RuntimeError {
    let (r, _, _) = run_source(source);
    match r {
        Ok(()) => panic!("ran through"),
        Err(e) => e,
    }
}

#[test]
fn declared_variable_prints() {
    assert_eq!(output("let x = 5; print x;"), vec!["5".to_string()]);
}

#[test]
fn constant_cannot_be_assigned() {
    match failure("const y = 1; y = 2;") {
        RuntimeError::AssignmentToImmutable(name) => assert_eq!(name, "y"),
        other => panic!("{:?}", other),
    }
}

#[test]
fn let_is_immutable_and_mut_is_mutable() {
    assert!(matches!(failure("let y = 1; y = 2;"), RuntimeError::AssignmentToImmutable(_)));
    assert_eq!(output("mut y = 1; y = 2; print y;"), vec!["2".to_string()]);
}

#[test]
fn failed_assignment_changes_nothing() {
    let (r, out, env) = run_source("const y = 1; print y; y = 2; print y;");
    assert!(matches!(r, Err(RuntimeError::AssignmentToImmutable(_))));
    assert_eq!(out, vec!["1".to_string()]);
    assert!(matches!(env.get("y"), Ok(Literal::Number(b)) if f64::from_bits(*b) == 1.0));
}

#[test]
fn number_and_string_concatenate() {
    assert_eq!(output("print 1 + \"a\";"), vec!["1a".to_string()]);
    assert_eq!(output("print \"a\" + 1;"), vec!["a1".to_string()]);
}

#[test]
fn string_concatenates_with_every_kind() {
    assert_eq!(output("print \"a\" + \"b\";"), vec!["ab".to_string()]);
    assert_eq!(output("print \"a\" + true;"), vec!["atrue".to_string()]);
    assert_eq!(output("print false + \"a\";"), vec!["falsea".to_string()]);
    assert_eq!(output("print 1.5 + \"a\" + 2;"), vec!["1.5a2".to_string()]);
}

#[test]
fn division_by_zero_is_its_own_error() {
    assert!(matches!(failure("print 1 / 0;"), RuntimeError::DivideByZero));
    assert!(matches!(failure("print 1 / -0;"), RuntimeError::DivideByZero));
    assert!(matches!(failure("print 1 / 0.0;"), RuntimeError::DivideByZero));
}

#[test]
fn block_scope_is_popped_on_exit() {
    match failure("{ let x = 1; } print x;") {
        RuntimeError::UndeclaredVariable(name) => assert_eq!(name, "x"),
        other => panic!("{:?}", other),
    }
}

#[test]
fn block_scope_is_popped_when_the_block_fails() {
    let stmts = parse("{ let x = 1; print y; }");
    let mut env = Env::new();
    let mut out = Vec::new();
    assert!(matches!(
        run(&stmts, &mut env, &arith, &show, &mut out),
        Err(RuntimeError::UndeclaredVariable(_))
    ));
    env.declare("z".to_string(), Literal::True, false);
    env.pop_scope();
    assert!(matches!(env.get("z"), Ok(Literal::True)));
    assert!(env.get("x").is_err());
}

#[test]
fn block_shadows_and_assigns_outward() {
    assert_eq!(
        output("mut a = 1; let b = 2; { let b = 3; a = b; print b; } print a; print b;"),
        vec!["3".to_string(), "3".to_string(), "2".to_string()]
    );
}

#[test]
fn quotient_times_divisor_is_close_to_the_dividend() {
    for (a, b) in [(1.0f64, 3.0f64), (7.5, -2.25), (1e10, 7.0), (-3.0, 0.1)] {
        let e = Expr::Binary(
            Box::new(Expr::Binary(
                Box::new(Expr::Literal(num(a))),
                BinaryOp::Divide,
                Box::new(Expr::Literal(num(b))),
            )),
            BinaryOp::Multiply,
            Box::new(Expr::Literal(num(b))),
        );
        let mut env = Env::new();
        let mut out = Vec::new();
        let stmts = vec![Stmt::Var { name: "r".to_string(), initializer: e, mutable: false }];
        assert!(run(&stmts, &mut env, &arith, &show, &mut out).is_ok());
        match env.get("r") {
            Ok(Literal::Number(bits)) => {
                let r = f64::from_bits(*bits);
                assert!((r - a).abs() <= a.abs() * 1e-12, "{} {}", r, a);
            }
            other => panic!("{:?}", other),
        }
    }
}

#[test]
fn arithmetic_has_exact_values() {
    assert_eq!(output("print 1 + 2 * 3;"), vec!["7".to_string()]);
    assert_eq!(output("print (1 + 2) * 3;"), vec!["9".to_string()]);
    assert_eq!(output("print 10 - 4 - 3;"), vec!["3".to_string()]);
    assert_eq!(output("print 8 / 4 / 2;"), vec!["1".to_string()]);
    assert_eq!(output("print 1 / 4;"), vec!["0.25".to_string()]);
    assert_eq!(output("print -2 * 3;"), vec!["-6".to_string()]);
    assert_eq!(output("print 0.1 + 0.2;"), vec!["0.30000000000000004".to_string()]);
}

#[test]
fn equality_is_reflexive() {
    assert_eq!(output("print 1 == 1;"), vec!["true".to_string()]);
    assert_eq!(output("print \"a\" + 1 == \"a\" + 1;"), vec!["true".to_string()]);
    assert_eq!(output("let x = 3; print x * 2 == x * 2;"), vec!["true".to_string()]);
    assert_eq!(output("print true == true;"), vec!["true".to_string()]);
    assert_eq!(output("print (1 < 2) == (1 < 2);"), vec!["true".to_string()]);
}

#[test]
fn equality_takes_any_two_kinds() {
    assert_eq!(output("print 1 == \"1\";"), vec!["false".to_string()]);
    assert_eq!(output("print 1 != \"1\";"), vec!["true".to_string()]);
    assert_eq!(output("print true == false;"), vec!["false".to_string()]);
    assert_eq!(output("print true != 1;"), vec!["true".to_string()]);
    assert_eq!(output("print 0 == -0;"), vec!["true".to_string()]);
    assert_eq!(output("print \"a\" == \"a\";"), vec!["true".to_string()]);
    assert_eq!(output("print \"a\" != \"b\";"), vec!["true".to_string()]);
}

#[test]
fn not_a_number_differs_from_itself() {
    let nan = Expr::Literal(num(f64::NAN));
    let nan_again = Expr::Literal(num(f64::NAN));
    let stmts = vec![Stmt::Print(Expr::Binary(
        Box::new(nan),
        BinaryOp::Equal,
        Box::new(nan_again),
    ))];
    let mut env = Env::new();
    let mut out = Vec::new();
    assert!(run(&stmts, &mut env, &arith, &show, &mut out).is_ok());
    assert_eq!(out, vec!["false".to_string()]);
}

#[test]
fn chained_assignment_assigns_both() {
    assert_eq!(
        output("mut a = 0; mut b = 0; a = b = 1; print a; print b;"),
        vec!["1".to_string(), "1".to_string()]
    );
    assert_eq!(output("mut a = 0; mut b = 0; print a = b = 1;"), vec!["1".to_string()]);
}

#[test]
fn chained_assignment_evaluates_right_to_left() {
    let (r, _, env) = run_source("mut a = 0; const b = 0; a = b = 1;");
    assert!(matches!(r, Err(RuntimeError::AssignmentToImmutable(name)) if name == "b"));
    assert!(matches!(env.get("a"), Ok(Literal::Number(bits)) if f64::from_bits(*bits) == 0.0));
}

#[test]
fn operands_are_evaluated_left_to_right() {
    assert_eq!(output("mut a = 1; print (a = 2) + a;"), vec!["4".to_string()]);
    assert_eq!(output("mut a = 1; print a + (a = 2);"), vec!["3".to_string()]);
    assert!(matches!(failure("print x + (1 / 0);"), RuntimeError::UndeclaredVariable(_)));
    assert!(matches!(failure("print (1 / 0) + x;"), RuntimeError::DivideByZero));
}

#[test]
fn comparisons_order_numbers() {
    assert_eq!(output("print 1 < 2;"), vec!["true".to_string()]);
    assert_eq!(output("print 2 < 1;"), vec!["false".to_string()]);
    assert_eq!(output("print 2 <= 2;"), vec!["true".to_string()]);
    assert_eq!(output("print 2 > 1;"), vec!["true".to_string()]);
    assert_eq!(output("print 1 >= 2;"), vec!["false".to_string()]);
    assert_eq!(output("print -1 < 0.5;"), vec!["true".to_string()]);
    assert_eq!(output("print -1 > -2;"), vec!["true".to_string()]);
}

#[test]
fn comparison_of_other_kinds_is_a_type_mismatch() {
    match failure("print 1 < \"a\";") {
        RuntimeError::TypeMismatch(msg) => assert_eq!(msg, "Cannot compare `number` with `string`"),
        other => panic!("{:?}", other),
    }
    match failure("print true >= false;") {
        RuntimeError::TypeMismatch(msg) => assert_eq!(msg, "Cannot compare `true` with `false`"),
        other => panic!("{:?}", other),
    }
}

#[test]
fn arithmetic_on_other_kinds_is_a_type_mismatch() {
    match failure("print true + false;") {
        RuntimeError::TypeMismatch(msg) => assert_eq!(msg, "Cannot add `true` to `false`"),
        other => panic!("{:?}", other),
    }
    match failure("print 1 + true;") {
        RuntimeError::TypeMismatch(msg) => assert_eq!(msg, "Cannot add `number` to `true`"),
        other => panic!("{:?}", other),
    }
    match failure("print 1 - \"a\";") {
        RuntimeError::TypeMismatch(msg) => {
            assert_eq!(msg, "Cannot substract `string` from `number`")
        }
        other => panic!("{:?}", other),
    }
    match failure("print \"a\" * 2;") {
        RuntimeError::TypeMismatch(msg) => assert_eq!(msg, "Cannot multiply `string` by `number`"),
        other => panic!("{:?}", other),
    }
    match failure("print true / 2;") {
        RuntimeError::TypeMismatch(msg) => assert_eq!(msg, "Cannot divide `true` by `number`"),
        other => panic!("{:?}", other),
    }
}

#[test]
fn prefix_operators_take_one_kind_each() {
    assert_eq!(output("print !true;"), vec!["false".to_string()]);
    assert_eq!(output("print !!false;"), vec!["false".to_string()]);
    assert_eq!(output("print -(1 + 2);"), vec!["-3".to_string()]);
    assert_eq!(output("print --3;"), vec!["3".to_string()]);
    match failure("print !1;") {
        RuntimeError::ForbiddenType(msg) => {
            assert_eq!(msg, "Cannot apply unary operator `!` to `number`")
        }
        other => panic!("{:?}", other),
    }
    match failure("print -\"a\";") {
        RuntimeError::ForbiddenType(msg) => {
            assert_eq!(msg, "Cannot apply unary operator `-` to `string`")
        }
        other => panic!("{:?}", other),
    }
}

#[test]
fn first_error_ends_the_run() {
    let (r, out, _) = run_source("print 1; print x; print 2;");
    assert!(matches!(r, Err(RuntimeError::UndeclaredVariable(name)) if name == "x"));
    assert_eq!(out, vec!["1".to_string()]);
}

#[test]
fn assignment_to_undeclared_variable_fails() {
    assert!(matches!(failure("x = 1;"), RuntimeError::UndeclaredVariable(name) if name == "x"));
}

#[test]
fn redeclaration_replaces_in_the_same_scope() {
    assert_eq!(output("let x = 1; mut x = 2; x = 3; print x;"), vec!["3".to_string()]);
}

#[test]
fn session_keeps_its_variables() {
    let mut session = Interpreter::new();
    let mut out = Vec::new();
    assert!(session.evaluate(parse("mut x = 1;"), &arith, &show, &mut out).is_ok());
    assert!(session.evaluate(parse("x = x + 1;"), &arith, &show, &mut out).is_ok());
    assert!(session.evaluate(parse("print x;"), &arith, &show, &mut out).is_ok());
    assert_eq!(out, vec!["2".to_string()]);
    assert!(matches!(session.env().get("x"), Ok(Literal::Number(b)) if f64::from_bits(*b) == 2.0));
}

#[test]
fn lexical_errors_come_before_parsing() {
    match scan_and_parse("print 1 +; @", &read_number) {
        Err(SyntaxErrors::Lexical(errors)) => {
            assert_eq!(errors.len(), 1);
            assert_eq!(errors[0].msg, "Unexpected character `@`");
            assert_eq!(errors[0].line, 1);
        }
        other => panic!("{:?}", other),
    }
    match scan_and_parse("print 1 +;\nprint (2 3;", &read_number) {
        Err(SyntaxErrors::Parse(errors)) => {
            assert_eq!(errors.len(), 2);
            assert_eq!(errors[0].line(), 1);
            assert_eq!(errors[1].line(), 2);
        }
        other => panic!("{:?}", other),
    }
}

#[test]
fn values_print_as_text() {
    assert_eq!(
        output("print 12.50; print \"a\\tb\"; print true; print false; print 100;"),
        vec![
            "12.5".to_string(),
            "a\tb".to_string(),
            "true".to_string(),
            "false".to_string(),
            "100".to_string()
        ]
    );
}
