use std::str::FromStr;
use tinyexpr_rs::{Builtin, Context, Expr, ExprNode, Parser};

#[test]
fn test_parse_simple_expr() {
    let mut parser = Parser::new("1 + 2 * 3").unwrap();
    let ast = parser.parse().unwrap();

    assert_eq!(
        ast,
        ExprNode::BinaryOp {
            op: '+',
            left: Box::new(ExprNode::Number(1.0f64.to_bits())),
            right: Box::new(ExprNode::BinaryOp {
                op: '*',
                left: Box::new(ExprNode::Number(2.0f64.to_bits())),
                right: Box::new(ExprNode::Number(3.0f64.to_bits())),
            }),
        }
    );
}

#[test]
fn test_parse_arithmetic() {
    let expr = Expr::from_str("1 + 2 * 3").unwrap();
    let ctx: Context<Builtin> = Context::new();
    let result = expr.eval(&ctx).unwrap();
    assert_eq!(f64::from_bits(result), 7.0);
}

#[test]
fn test_parse_with_variables() {
    let expr = Expr::from_str("x * 2").unwrap();
    let ctx: Context<Builtin> = Context::new().with_var("x", 4.0f64.to_bits());
    let result = expr.eval(&ctx).unwrap();
    assert_eq!(f64::from_bits(result), 8.0);
}

#[test]
fn test_function_call() {
    let expr = Expr::from_str("sqrt(16)").unwrap();
    let ctx: Context<Builtin> = Context::new();
    let result = expr.eval(&ctx).unwrap();
    assert_eq!(f64::from_bits(result), 4.0);
}

#[test]
fn test_undefined_variable() {
    let expr = Expr::from_str("x + 1").unwrap();
    let ctx: Context<Builtin> = Context::new();
    let result = expr.eval(&ctx);
    assert!(result.is_err());
}

#[test]
fn test_invalid_expression() {
    let expr = Expr::from_str("1 + * 2");
    assert!(expr.is_err());
}
