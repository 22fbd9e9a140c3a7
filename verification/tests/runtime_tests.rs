use nix_expr::ast::{Expr, IdentExpr, UnaryExprType};
use nix_expr::env::{Env, EnvError, Value};
use nix_expr::interpreter::{eval_equal, eval_logical, EvalError, Interpreter};
use nix_expr::lexer::Lexer;
use nix_expr::parser::AstParser;
use nix_expr::ast::BinaryExprType;
use nix_expr::ast::LiteralExpr;

fn eval_source(src: &str) -> Result<Value, EvalError> {
    let lexer = Lexer::new(src);
    let mut parser = AstParser::new(lexer.tokenize().unwrap());
    Interpreter::new(parser.parse().unwrap()).interpret()
}

fn eval_node(e: Expr) -> Result<Value, EvalError> {
    Interpreter::new(e).interpret()
}

#[test]
fn evaluate_logical_operators() {
    assert_eq!(
        eval_node(Expr::new_and(Expr::new_bool(true), Expr::new_bool(false))),
        Ok(Value::Bool(false))
    );
    assert_eq!(
        eval_node(Expr::new_or(Expr::new_bool(false), Expr::new_bool(true))),
        Ok(Value::Bool(true))
    );
    // Implication with a false antecedent holds without the consequent.
    assert_eq!(
        eval_node(Expr::new_logical_disjunction(
            Expr::new_bool(false),
            Expr::new_bool(true),
        )),
        Ok(Value::Bool(true))
    );
    assert_eq!(
        eval_node(Expr::new_logical_disjunction(
            Expr::new_bool(true),
            Expr::new_bool(false),
        )),
        Ok(Value::Bool(false))
    );
    // Short-circuits: the unsupported right operand is never reached.
    let unsupported = Expr::new_add(Expr::new_int(1), Expr::new_int(1));
    assert_eq!(
        eval_node(Expr::new_and(Expr::new_bool(false), unsupported)),
        Ok(Value::Bool(false))
    );
    let unsupported = Expr::new_add(Expr::new_int(1), Expr::new_int(1));
    assert_eq!(
        eval_node(Expr::new_or(Expr::new_bool(true), unsupported)),
        Ok(Value::Bool(true))
    );
}

#[test]
fn evaluate_equality() {
    assert_eq!(eval_source("\"foo\" == \"foo\""), Ok(Value::Bool(true)));
    assert_eq!(eval_source("\"foo\" == \"bar\""), Ok(Value::Bool(false)));
    assert_eq!(eval_source("1 == 2"), Ok(Value::Bool(false)));
    assert_eq!(eval_source("2 != 1"), Ok(Value::Bool(true)));
    assert_eq!(eval_source("null == null"), Ok(Value::Bool(true)));
    // Function-typed values compare unequal to anything, themselves included.
    assert!(!eval_equal(&Value::Func(), &Value::Func()));
    assert!(!eval_equal(&Value::PFunc(), &Value::Func()));
    assert!(!eval_equal(&Value::Func(), &Value::Int(1)));
    assert!(eval_equal(&Value::Int(3), &Value::Int(3)));
    assert!(!eval_equal(&Value::Int(3), &Value::Str("3".to_string())));
}

#[test]
fn evaluate_unary_operators() {
    assert_eq!(eval_source("!true"), Ok(Value::Bool(false)));
    assert_eq!(eval_source("!false"), Ok(Value::Bool(true)));
    assert_eq!(eval_source("-5"), Ok(Value::Int(-5)));
    // Negating a float literal toggles its textual sign.
    assert_eq!(eval_source("-3.45"), Ok(Value::Flo("-3.45".to_string())));
}

#[test]
fn evaluate_error_variants() {
    assert_eq!(
        eval_source("-\"x\""),
        Err(EvalError::UnaryTypeMismatch(UnaryExprType::ArithmNegation()))
    );
    assert_eq!(
        eval_source("!5"),
        Err(EvalError::UnaryTypeMismatch(UnaryExprType::LogicalNegation()))
    );
    assert_eq!(
        eval_node(Expr::new_and(Expr::new_int(1), Expr::new_bool(true))),
        Err(EvalError::BinaryTypeMismatch(BinaryExprType::And()))
    );
    assert_eq!(
        eval_node(Expr::new_and(Expr::new_bool(true), Expr::new_int(1))),
        Err(EvalError::BinaryTypeMismatch(BinaryExprType::And()))
    );
    assert_eq!(eval_source("1 + 1"), Err(EvalError::UnsupportedConstruct));
    assert_eq!(
        eval_source("let x = 1; in x"),
        Err(EvalError::UnsupportedConstruct)
    );
    let negated_min = Expr::new_arithmetic_negation(Expr::new_int(i32::MIN));
    assert_eq!(
        Interpreter::new(negated_min).interpret(),
        Err(EvalError::NegationOverflow)
    );
    assert!(eval_logical(BinaryExprType::Arrow(), true, true));
}

#[test]
fn environment_set_get_resolve() {
    let mut env = Env::new(None, false);
    assert_eq!(env.set("a".to_string(), Value::Int(1)), Ok(()));
    assert_eq!(
        env.set("a".to_string(), Value::Int(2)),
        Err(EnvError::DuplicateKey)
    );
    assert_eq!(env.get(&IdentExpr::new("a")), Some(&Value::Int(1)));
    assert_eq!(env.get(&IdentExpr::new("b")), None);
    assert!(env.has_indep("a"));
    assert!(!env.has_indep("b"));

    // Resolution: local first, then the parent chain.
    let mut child = Env::new(Some(env), false);
    assert_eq!(child.set("b".to_string(), Value::Bool(true)), Ok(()));
    assert_eq!(child.resolve(&IdentExpr::new("b")), Value::Bool(true));
    assert_eq!(child.resolve(&IdentExpr::new("a")), Value::Int(1));

    // Attached sets are searched innermost first, after the parent chain.
    child.attach(vec![("c".to_string(), Value::Int(7))]);
    child.attach(vec![("c".to_string(), Value::Int(9))]);
    assert_eq!(child.resolve(&IdentExpr::new("c")), Value::Int(9));
    let popped = child.dettach();
    assert!(popped.is_some());
    assert_eq!(child.resolve(&IdentExpr::new("c")), Value::Int(7));

    // An unresolved name becomes a Dep placeholder naming it.
    assert_eq!(
        child.resolve(&IdentExpr::new("missing")),
        Value::Dep(vec!["missing".to_string()])
    );

    // A Dep-valued binding is not an independent one.
    let mut scope = Env::new(None, true);
    assert_eq!(
        scope.set("d".to_string(), Value::Dep(vec!["x".to_string()])),
        Ok(())
    );
    assert!(!scope.has_indep("d"));
}

#[test]
fn value_from_literal() {
    assert_eq!(Value::from(&LiteralExpr::Int(4)), Value::Int(4));
    assert_eq!(
        Value::from(&LiteralExpr::Str("s".to_string())),
        Value::Str("s".to_string())
    );
    assert_eq!(Value::from(&LiteralExpr::Bool(true)), Value::Bool(true));
    assert_eq!(Value::from(&LiteralExpr::Null()), Value::Null());
}
