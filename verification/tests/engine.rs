use std::str::FromStr;
use tinyexpr_rs::{Builtin, Context, EvalError, Expr, Function, LexError, Lexer, ParseError, Token};
use vstd::prelude::Seq;

fn eval_str(s: &str) -> Result<f64, EvalError> {
    let expr = Expr::from_str(s).unwrap();
    let ctx: Context<Builtin> = Context::new();
    expr.eval(&ctx).map(f64::from_bits)
}

// --- every operator on two literals matches applying it directly ---

#[test]
fn op_add_two_literals() {
    assert_eq!(eval_str("3 + 4").unwrap(), 3.0f64 + 4.0f64);
}

#[test]
fn op_sub_two_literals() {
    assert_eq!(eval_str("10 - 4").unwrap(), 10.0f64 - 4.0f64);
}

#[test]
fn op_mul_two_literals() {
    assert_eq!(eval_str("6 * 7").unwrap(), 6.0f64 * 7.0f64);
}

#[test]
fn op_div_two_literals() {
    assert_eq!(eval_str("8 / 2").unwrap(), 8.0f64 / 2.0f64);
}

#[test]
fn op_pow_two_literals() {
    assert_eq!(eval_str("2 ^ 10").unwrap(), 1024.0);
}

#[test]
fn op_fractional_literals() {
    assert_eq!(eval_str("2.5 + 0.25").unwrap(), 2.75);
}

// --- precedence and associativity ---

#[test]
fn precedence_mul_binds_tighter() {
    assert_eq!(eval_str("1 + 2 * 3").unwrap(), 7.0);
}

#[test]
fn precedence_parentheses() {
    assert_eq!(eval_str("(1 + 2) * 3").unwrap(), 9.0);
}

#[test]
fn associativity_division_left_to_right() {
    assert_eq!(eval_str("8 / 4 / 2").unwrap(), 1.0);
}

#[test]
fn associativity_power_left_to_right() {
    assert_eq!(eval_str("2 ^ 3 ^ 2").unwrap(), 64.0);
}

// --- failures ---

#[test]
fn division_by_zero_is_an_error() {
    assert_eq!(eval_str("1 / 0"), Err(EvalError::DivisionByZero));
}

#[test]
fn unknown_variable_names_the_variable() {
    assert_eq!(eval_str("x + 1"), Err(EvalError::UnknownVariable("x".to_string())));
}

#[test]
fn unknown_function_names_the_function() {
    assert_eq!(eval_str("foo(1)"), Err(EvalError::UnknownFunction("foo".to_string())));
}

#[test]
fn operator_in_primary_position_fails_to_parse() {
    assert_eq!(
        Expr::from_str("1 + * 2").map(|_| ()),
        Err(ParseError::UnexpectedToken(Token::Operator('*')))
    );
}

#[test]
fn empty_input_fails_to_parse() {
    assert_eq!(Expr::from_str("").map(|_| ()), Err(ParseError::UnexpectedToken(Token::EOF)));
}

#[test]
fn missing_closing_paren_fails_to_parse() {
    assert!(Expr::from_str("(1 + 2").is_err());
}

#[test]
fn builtin_with_wrong_arity_fails() {
    assert_eq!(eval_str("max(1)"), Err(EvalError::InvalidOperation));
}

#[test]
fn invalid_character_is_a_lex_error() {
    assert_eq!(
        Expr::from_str("1 $ 2").map(|_| ()),
        Err(ParseError::Lex(LexError::InvalidCharacter('$')))
    );
}

#[test]
fn number_with_two_dots_is_a_lex_error() {
    assert_eq!(
        Expr::from_str("1.2.3").map(|_| ()),
        Err(ParseError::Lex(LexError::InvalidCharacter('.')))
    );
}

// --- worked scenarios ---

#[test]
fn scenario_variable_square_plus_one() {
    let expr = Expr::from_str("x * x + 1").unwrap();
    let ctx: Context<Builtin> = Context::new().with_var("x", 3.0f64.to_bits());
    assert_eq!(f64::from_bits(expr.eval(&ctx).unwrap()), 10.0);
}

#[test]
fn scenario_sin_plus_sqrt() {
    let expr = Expr::from_str("sin(x) + sqrt(y)").unwrap();
    let ctx: Context<Builtin> = Context::new()
        .with_var("x", (std::f64::consts::PI / 2.0).to_bits())
        .with_var("y", 9.0f64.to_bits());
    assert_eq!(f64::from_bits(expr.eval(&ctx).unwrap()), 4.0);
}

#[test]
fn scenario_sqrt_of_sixteen() {
    assert_eq!(eval_str("sqrt(16)").unwrap(), 4.0);
}

// --- evaluating twice yields identical results ---

#[test]
fn evaluating_twice_is_identical() {
    let expr = Expr::from_str("x * x + sqrt(y)").unwrap();
    let ctx: Context<Builtin> = Context::new()
        .with_var("x", 3.0f64.to_bits())
        .with_var("y", 2.0f64.to_bits());
    let first = expr.eval(&ctx);
    let second = expr.eval(&ctx);
    assert_eq!(first, second);
    let failing = Expr::from_str("z + 1").unwrap();
    assert_eq!(failing.eval(&ctx), failing.eval(&ctx));
}

// --- built-ins ---

#[test]
fn builtin_cos_of_zero() {
    assert_eq!(eval_str("cos(0)").unwrap(), 1.0);
}

#[test]
fn builtin_sin_of_zero() {
    assert_eq!(eval_str("sin(0)").unwrap(), 0.0);
}

#[test]
fn builtin_abs_of_negative() {
    assert_eq!(eval_str("abs(0 - 5)").unwrap(), 5.0);
}

#[test]
fn builtin_max_and_min() {
    assert_eq!(eval_str("max(3, 4)").unwrap(), 4.0);
    assert_eq!(eval_str("min(3, 4)").unwrap(), 3.0);
}

// --- caller-supplied functions ---

struct Doubler;

impl Function for Doubler {
    // The spec half of the trait is erased at run time and never called.
    fn spec_call(&self, _args: Seq<u64>) -> Option<u64> {
        unreachable!()
    }

    fn call(&self, args: &Vec<u64>) -> Result<u64, EvalError> {
        if args.len() == 1 {
            Ok((2.0 * f64::from_bits(args[0])).to_bits())
        } else {
            Err(EvalError::InvalidOperation)
        }
    }
}

struct AlwaysFails;

impl Function for AlwaysFails {
    // The spec half of the trait is erased at run time and never called.
    fn spec_call(&self, _args: Seq<u64>) -> Option<u64> {
        unreachable!()
    }

    fn call(&self, _args: &Vec<u64>) -> Result<u64, EvalError> {
        Err(EvalError::UnknownVariable("inner".to_string()))
    }
}

#[test]
fn user_function_is_called() {
    let expr = Expr::from_str("double(21)").unwrap();
    let ctx: Context<Doubler> = Context::new().with_func("double", Doubler);
    assert_eq!(f64::from_bits(expr.eval(&ctx).unwrap()), 42.0);
}

#[test]
fn user_function_failure_collapses_to_invalid_operation() {
    let expr = Expr::from_str("f(1)").unwrap();
    let ctx: Context<AlwaysFails> = Context::new().with_func("f", AlwaysFails);
    assert_eq!(expr.eval(&ctx), Err(EvalError::InvalidOperation));
}

#[test]
fn later_binding_of_same_name_wins() {
    let expr = Expr::from_str("x").unwrap();
    let ctx: Context<Builtin> = Context::new()
        .with_var("x", 1.0f64.to_bits())
        .with_var("x", 2.0f64.to_bits());
    assert_eq!(f64::from_bits(expr.eval(&ctx).unwrap()), 2.0);
}

// --- the lexer on its own ---

#[test]
fn lexer_produces_the_token_stream() {
    let mut lexer = Lexer::new("ab + (3, 2.5)^");
    assert_eq!(lexer.next_token().unwrap(), Token::Identifier("ab".to_string()));
    assert_eq!(lexer.next_token().unwrap(), Token::Operator('+'));
    assert_eq!(lexer.next_token().unwrap(), Token::LParen);
    assert_eq!(lexer.next_token().unwrap(), Token::Number(3.0f64.to_bits()));
    assert_eq!(lexer.next_token().unwrap(), Token::Comma);
    assert_eq!(lexer.next_token().unwrap(), Token::Number(2.5f64.to_bits()));
    assert_eq!(lexer.next_token().unwrap(), Token::RParen);
    assert_eq!(lexer.next_token().unwrap(), Token::Operator('^'));
    assert_eq!(lexer.next_token().unwrap(), Token::EOF);
    assert_eq!(lexer.next_token().unwrap(), Token::EOF);
}

#[test]
fn lexer_reports_the_invalid_character() {
    let mut lexer = Lexer::new("  ?");
    assert_eq!(lexer.next_token(), Err(LexError::InvalidCharacter('?')));
}

// --- behavior the top-level parse leaves as it is ---

#[test]
fn trailing_input_is_left_unread() {
    assert_eq!(eval_str("1 2").unwrap(), 1.0);
}

struct Five;

impl Function for Five {
    // The spec half of the trait is erased at run time and never called.
    fn spec_call(&self, _args: Seq<u64>) -> Option<u64> {
        unreachable!()
    }

    fn call(&self, args: &Vec<u64>) -> Result<u64, EvalError> {
        if args.is_empty() {
            Ok(5.0f64.to_bits())
        } else {
            Err(EvalError::InvalidOperation)
        }
    }
}

#[test]
fn zero_argument_call_parses() {
    let expr = Expr::from_str("five()").unwrap();
    let ctx: Context<Five> = Context::new().with_func("five", Five);
    assert_eq!(f64::from_bits(expr.eval(&ctx).unwrap()), 5.0);
}
