use rys::expr::{BinaryOp, Expr, Stmt, UnaryOp};
use rys::lexer::Lexer;
use rys::literal::Literal;
use rys::parser::error::ParseError;
use rys::parser::Parser;
use rys::token::{Token, TokenType};

fn read_number(text: String) -> Result<u64, String> {
    match text.parse::<f64>() {
        Ok(x) => Ok(x.to_bits()),
        Err(e) => Err(format!("{:?}", e)),
    }
}

fn tokens(source: &str) -> Vec<Token> {
    Lexer::new().scan(source.to_string(), &read_number).expect("no lexical error")
}

fn parse(source: &str) -> Vec<Stmt> {
    match Parser::new().parse(tokens(source)) {
        Ok(stmts) => stmts,
        Err(errors) => panic!("{:?}", errors),
    }
}

fn parse_errors(source: &str) -> Vec<ParseError> {
    match Parser::new().parse(tokens(source)) {
        Ok(stmts) => panic!("{:?}", stmts),
        Err(errors) => errors,
    }
}

fn shape(e: &Expr) -> String {
    match e {
        Expr::Literal(Literal::Number(bits)) => format!("{}", f64::from_bits(*bits)),
        Expr::Literal(Literal::String(s)) => format!("{:?}", s),
        Expr::Literal(Literal::True) => "true".to_string(),
        Expr::Literal(Literal::False) => "false".to_string(),
        Expr::Var(name) => name.clone(),
        Expr::Group(inner) => format!("(group {})", shape(inner)),
        Expr::Assign(name, value) => format!("(= {} {})", name, shape(value)),
        Expr::Unary(UnaryOp::Neg, r) => format!("(- {})", shape(r)),
        Expr::Unary(UnaryOp::Not, r) => format!("(! {})", shape(r)),
        Expr::Binary(l, op, r) => {
            let sign = match op {
                BinaryOp::Equal => "==",
                BinaryOp::NotEqual => "!=",
                BinaryOp::Greater => ">",
                BinaryOp::GreaterEqual => ">=",
                BinaryOp::Less => "<",
                BinaryOp::LessEqual => "<=",
                BinaryOp::Add => "+",
                BinaryOp::Sub => "-",
                BinaryOp::Multiply => "*",
                BinaryOp::Divide => "/",
            };
            format!("({} {} {})", sign, shape(l), shape(r))
        }
    }
}

fn stmt_shape(s: &Stmt) -> String {
    match s {
        Stmt::Expr(e) => format!("expr {}", shape(e)),
        Stmt::Print(e) => format!("print {}", shape(e)),
        Stmt::Var { name, initializer, mutable } => {
            format!("{} {} {}", if *mutable { "mut" } else { "const" }, name, shape(initializer))
        }
        Stmt::Block(stmts) => {
            let inner: Vec<String> = stmts.iter().map(stmt_shape).collect();
            format!("{{{}}}", inner.join("; "))
        }
    }
}

fn shapes(source: &str) -> Vec<String> {
    parse(source).iter().map(stmt_shape).collect()
}

#[test]
fn empty_program() {
    assert!(parse("").is_empty());
    assert!(parse("// nothing\n").is_empty());
    match Parser::new().parse(Vec::new()) {
        Ok(stmts) => assert!(stmts.is_empty()),
        Err(errors) => panic!("{:?}", errors),
    }
}

#[test]
fn operators_bind_by_precedence() {
    assert_eq!(shapes("1 + 2 * 3;"), vec!["expr (+ 1 (* 2 3))"]);
    assert_eq!(shapes("1 * 2 + 3;"), vec!["expr (+ (* 1 2) 3)"]);
    assert_eq!(shapes("1 + 2 < 3 * 4 == true;"), vec!["expr (== (< (+ 1 2) (* 3 4)) true)"]);
    assert_eq!(shapes("-1 * !x;"), vec!["expr (* (- 1) (! x))"]);
    assert_eq!(shapes("(1 + 2) * 3;"), vec!["expr (* (group (+ 1 2)) 3)"]);
    assert_eq!(shapes("a != b >= c;"), vec!["expr (!= a (>= b c))"]);
    assert_eq!(shapes("a / b - c <= d;"), vec!["expr (<= (- (/ a b) c) d)"]);
    assert_eq!(shapes("a > b;"), vec!["expr (> a b)"]);
}

#[test]
fn binary_operators_group_to_the_left() {
    assert_eq!(shapes("1 - 2 - 3;"), vec!["expr (- (- 1 2) 3)"]);
    assert_eq!(shapes("8 / 4 / 2;"), vec!["expr (/ (/ 8 4) 2)"]);
    assert_eq!(shapes("a == b != c;"), vec!["expr (!= (== a b) c)"]);
    assert_eq!(shapes("a < b < c;"), vec!["expr (< (< a b) c)"]);
}

#[test]
fn prefix_operators_nest() {
    assert_eq!(shapes("!!a;"), vec!["expr (! (! a))"]);
    assert_eq!(shapes("--1;"), vec!["expr (- (- 1))"]);
    assert_eq!(shapes("1 - -1;"), vec!["expr (- 1 (- 1))"]);
}

#[test]
fn assignment_groups_to_the_right() {
    assert_eq!(shapes("a = b = 1;"), vec!["expr (= a (= b 1))"]);
    assert_eq!(shapes("a = 1 + 2;"), vec!["expr (= a (+ 1 2))"]);
    assert_eq!(shapes("a = b == c;"), vec!["expr (= a (== b c))"]);
}

#[test]
fn assignment_needs_a_variable_on_the_left() {
    let errors = parse_errors("1 = 2");
    assert_eq!(errors.len(), 1);
    match &errors[0] {
        ParseError::InvalidAssignmentTarget(token) => {
            assert_eq!(token.typ, TokenType::Equal);
            assert_eq!(token.lexeme, "=");
        }
        other => panic!("{:?}", other),
    }
    assert!(matches!(parse_errors("(a) = 2;")[0], ParseError::InvalidAssignmentTarget(_)));
    assert!(matches!(parse_errors("a + b = 2;")[0], ParseError::InvalidAssignmentTarget(_)));
}

#[test]
fn parsing_goes_on_at_the_token_where_a_failure_left_off() {
    let errors = parse_errors("1 = 2; print 3;");
    assert_eq!(errors.len(), 2);
    assert!(matches!(&errors[0], ParseError::InvalidAssignmentTarget(t) if t.lexeme == "="));
    assert!(matches!(&errors[1], ParseError::TokenMismatch(t, _) if t.lexeme == ";"));
    let errors = parse_errors("print 1 2 + 3; print 4;");
    assert_eq!(errors.len(), 2);
    assert!(matches!(&errors[0], ParseError::TokenMismatch(t, _) if t.lexeme == "2"));
    assert!(matches!(&errors[1], ParseError::TokenMismatch(t, _) if t.lexeme == "+"));
}

#[test]
fn declarations() {
    assert_eq!(
        shapes("let a = 1; const b = a + 1; mut c = \"x\";"),
        vec!["const a 1", "const b (+ a 1)", "mut c \"x\""]
    );
}

#[test]
fn declaration_errors() {
    match &parse_errors("let 1 = 2;")[0] {
        ParseError::TokenMismatch(token, msg) => {
            assert_eq!(token.lexeme, "1");
            assert_eq!(msg, "Expected variable name");
        }
        other => panic!("{:?}", other),
    }
    match &parse_errors("mut a 2;")[0] {
        ParseError::TokenMismatch(token, msg) => {
            assert_eq!(token.lexeme, "2");
            assert_eq!(msg, "Expected `=`");
        }
        other => panic!("{:?}", other),
    }
}

#[test]
fn statements_end_with_a_semicolon_or_with_the_input() {
    assert_eq!(shapes("print 1"), vec!["print 1"]);
    assert_eq!(shapes("a; b"), vec!["expr a", "expr b"]);
    assert_eq!(shapes("let a = 1"), vec!["const a 1"]);
    let errors = parse_errors("print 1 2");
    assert_eq!(errors.len(), 1);
    match &errors[0] {
        ParseError::TokenMismatch(token, msg) => {
            assert_eq!(token.lexeme, "2");
            assert_eq!(msg, "Expected `;`");
        }
        other => panic!("{:?}", other),
    }
}

#[test]
fn line_break_tokens_end_statements_and_are_passed_over() {
    let mut list = tokens("print 1 print 2");
    let line_break =
        Token { typ: TokenType::NewLine, lexeme: "\n".to_string(), literal: None, line: 1 };
    list.insert(2, line_break.clone());
    list.insert(3, line_break.clone());
    list.insert(0, line_break);
    match Parser::new().parse(list) {
        Ok(stmts) => {
            let shapes: Vec<String> = stmts.iter().map(stmt_shape).collect();
            assert_eq!(shapes, vec!["print 1", "print 2"]);
        }
        Err(errors) => panic!("{:?}", errors),
    }
}

#[test]
fn blocks_nest() {
    assert_eq!(
        shapes("{ let a = 1; { print a; } } print 2;"),
        vec!["{const a 1; {print a}}", "print 2"]
    );
    assert_eq!(shapes("{}"), vec!["{}"]);
}

#[test]
fn block_needs_its_closing_brace() {
    let errors = parse_errors("{ print 1;");
    assert_eq!(errors.len(), 1);
    match &errors[0] {
        ParseError::TokenMismatch(token, msg) => {
            assert_eq!(token.typ, TokenType::Eof);
            assert_eq!(msg, "Expected `}`");
        }
        other => panic!("{:?}", other),
    }
}

#[test]
fn errors_inside_a_block_are_recorded_in_order() {
    let errors = parse_errors("{ print ; let = 1; } print );");
    assert_eq!(errors.len(), 5);
    let lexemes: Vec<String> = errors
        .iter()
        .map(|e| match e {
            ParseError::TokenMismatch(token, _) => token.lexeme.clone(),
            ParseError::InvalidAssignmentTarget(token) => token.lexeme.clone(),
        })
        .collect();
    assert_eq!(lexemes, vec![";", "=", "=", ")", ";"]);
}

#[test]
fn missing_expression_is_reported() {
    match &parse_errors("print ;")[0] {
        ParseError::TokenMismatch(token, msg) => {
            assert_eq!(token.lexeme, ";");
            assert_eq!(
                msg,
                "Expected expression, identifier, number, string, `true` or `false`"
            );
        }
        other => panic!("{:?}", other),
    }
    match &parse_errors("print 1 +")[0] {
        ParseError::TokenMismatch(token, _) => assert_eq!(token.typ, TokenType::Eof),
        other => panic!("{:?}", other),
    }
}

#[test]
fn group_needs_its_closing_parenthesis() {
    let errors = parse_errors("(1 + 2;");
    match &errors[0] {
        ParseError::TokenMismatch(token, msg) => {
            assert_eq!(token.lexeme, ";");
            assert_eq!(msg, "Expected closing `)`");
            assert_eq!(errors[0].line(), 1);
        }
        other => panic!("{:?}", other),
    }
}

#[test]
fn value_token_without_a_value_is_no_expression() {
    let list = vec![
        Token { typ: TokenType::Number, lexeme: "1".to_string(), literal: None, line: 1 },
        Token { typ: TokenType::Semicolon, lexeme: ";".to_string(), literal: None, line: 1 },
        Token { typ: TokenType::Eof, lexeme: String::new(), literal: None, line: 1 },
    ];
    match Parser::new().parse(list) {
        Ok(stmts) => panic!("{:?}", stmts),
        Err(errors) => assert!(matches!(&errors[0], ParseError::TokenMismatch(t, _) if t.lexeme == "1")),
    }
}

#[test]
fn last_token_ends_the_input() {
    let list = vec![
        Token { typ: TokenType::Identifier, lexeme: "a".to_string(), literal: None, line: 1 },
        Token { typ: TokenType::Identifier, lexeme: "b".to_string(), literal: None, line: 1 },
    ];
    match Parser::new().parse(list) {
        Ok(stmts) => {
            let shapes: Vec<String> = stmts.iter().map(stmt_shape).collect();
            assert_eq!(shapes, vec!["expr a"]);
        }
        Err(errors) => panic!("{:?}", errors),
    }
}

#[test]
fn parser_keeps_nothing_between_parses() {
    let mut parser = Parser::new();
    assert!(parser.parse(tokens("print ;")).is_err());
    match parser.parse(tokens("print 1;")) {
        Ok(stmts) => assert_eq!(stmts.len(), 1),
        Err(errors) => panic!("{:?}", errors),
    }
}

#[test]
fn token_mismatch_reports_token_and_message() {
    let token = Token { typ: TokenType::Comma, lexeme: ",".to_string(), literal: None, line: 4 };
    match ParseError::token_mismatch::<()>(&token, "Expected x") {
        Err(ParseError::TokenMismatch(t, msg)) => {
            assert_eq!(t.typ, TokenType::Comma);
            assert_eq!(t.lexeme, ",");
            assert_eq!(t.line, 4);
            assert_eq!(msg, "Expected x");
        }
        other => panic!("{:?}", other),
    }
}

#[test]
fn default_parser_is_a_new_one() {
    match Parser::default().parse(tokens("print 1;")) {
        Ok(stmts) => assert_eq!(stmts.len(), 1),
        Err(errors) => panic!("{:?}", errors),
    }
}

#[test]
fn parse_errors_carry_line_and_message() {
    let errors = parse_errors("print 1;\n1 = 2");
    assert_eq!(errors.len(), 1);
    assert_eq!(errors[0].line(), 2);
    assert_eq!(errors[0].message(), "Invalid assignment target");
    let errors = parse_errors("\n\nlet = 1");
    assert_eq!(errors[0].line(), 3);
    assert_eq!(errors[0].message(), "Expected variable name");
}
