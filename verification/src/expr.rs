//! Evaluation: reducing a parsed expression to a value against a context.
//!
//! `eval_node` is the spec-level semantics: a total function from a tree and
//! the context's two maps to an outcome. The executable walk returns exactly
//! what that function says, so evaluation is deterministic and free of side
//! effects on the context.

use vstd::prelude::*;
use crate::ast::{ExprNode, MAX_TEXT_LEN, PNode, POut, ParseError, Parser, cur_tok, tok_end};
use crate::ast::{lemma_parse_binop_form, lemma_view_list_len, node_view, perr_matches, text_parse};
use crate::token::TokenSpec;
use crate::context::{Context, Function, builtin_lookup, builtin_of_name};
use crate::numeric::{add_of, div_of, is_zero_bits, mul_of, pow_of, sub_of};
use crate::numeric::{add_bits, bits_is_zero, div_bits, mul_bits, pow_bits, sub_bits};
use crate::token::is_op_char;

verus! {

broadcast use vstd::std_specs::vec::group_vec_axioms;

/// A failure during evaluation. The two lookup failures name what was not
/// found; a failing function call collapses to `InvalidOperation`.
#[derive(Debug, Clone, PartialEq)]
pub enum EvalError {
    UnknownVariable(String),
    UnknownFunction(String),
    DivisionByZero,
    InvalidOperation,
}

/// The spec-level outcome of evaluating a tree.
pub enum Outcome {
    /// A value, as a binary64 bit pattern.
    Val(u64),
    /// A variable name with no binding.
    BadVar(Seq<char>),
    /// A function name with no binding and no built-in.
    BadFun(Seq<char>),
    /// A division whose divisor is exactly zero.
    DivZero,
    /// An unknown operator, a failing call, or a wrong argument count.
    BadOp,
}

/// The spec-level outcome of evaluating an argument list.
pub enum ListOut {
    Vals(Seq<u64>),
    Fail(Outcome),
}

/// What one binary operator yields on two values. Division checks its
/// divisor against exact zero; an operator outside the fixed five yields the
/// catch-all failure.
pub open spec fn apply_op(op: char, l: u64, r: u64) -> Outcome {
    if op == '+' {
        Outcome::Val(add_of(l, r))
    } else if op == '-' {
        Outcome::Val(sub_of(l, r))
    } else if op == '*' {
        Outcome::Val(mul_of(l, r))
    } else if op == '/' {
        if is_zero_bits(r) {
            Outcome::DivZero
        } else {
            Outcome::Val(div_of(l, r))
        }
    } else if op == '^' {
        Outcome::Val(pow_of(l, r))
    } else {
        Outcome::BadOp
    }
}

/// What a function call yields once its arguments have values: the binding
/// in the context wins, a built-in of that name is the fallback, and any
/// failure of the callable itself collapses to the catch-all failure.
pub open spec fn call_outcome<F: Function>(
    nm: Seq<char>,
    vs: Seq<u64>,
    funcs: Map<Seq<char>, F>,
) -> Outcome {
    if funcs.contains_key(nm) {
        match funcs[nm].spec_call(vs) {
            Some(v) => Outcome::Val(v),
            None => Outcome::BadOp,
        }
    } else {
        match builtin_of_name(nm) {
            Some(b) => match b.spec_call(vs) {
                Some(v) => Outcome::Val(v),
                None => Outcome::BadOp,
            },
            None => Outcome::BadFun(nm),
        }
    }
}

/// The semantics of a tree: left subtrees and earlier arguments are
/// evaluated first, and the first failure is the outcome.
pub open spec fn eval_node<F: Function>(
    n: PNode,
    vars: Map<Seq<char>, u64>,
    funcs: Map<Seq<char>, F>,
) -> Outcome
    decreases n, 0int,
{
    match n {
        PNode::Num(b) => Outcome::Val(b),
        PNode::Var(nm) => if vars.contains_key(nm) {
            Outcome::Val(vars[nm])
        } else {
            Outcome::BadVar(nm)
        },
        PNode::Bin(op, l, r) => match eval_node(*l, vars, funcs) {
            Outcome::Val(lv) => match eval_node(*r, vars, funcs) {
                Outcome::Val(rv) => apply_op(op, lv, rv),
                e => e,
            },
            e => e,
        },
        PNode::Call(nm, args) => match eval_args(args, vars, funcs, 0) {
            ListOut::Vals(vs) => call_outcome(nm, vs, funcs),
            ListOut::Fail(e) => e,
        },
    }
}

/// The values of the arguments from position `i` on, or the first failure.
pub open spec fn eval_args<F: Function>(
    args: Seq<PNode>,
    vars: Map<Seq<char>, u64>,
    funcs: Map<Seq<char>, F>,
    i: int,
) -> ListOut
    decreases args, args.len() - i,
{
    if i < 0 || i >= args.len() {
        ListOut::Vals(Seq::empty())
    } else {
        match eval_node(args[i], vars, funcs) {
            Outcome::Val(v) => match eval_args(args, vars, funcs, i + 1) {
                ListOut::Vals(vs) => ListOut::Vals(seq![v] + vs),
                f => f,
            },
            e => ListOut::Fail(e),
        }
    }
}

/// Evaluating all arguments equals evaluating a prefix that succeeded and
/// going on from its end.
proof fn lemma_eval_args_prefix<F: Function>(
    args: Seq<PNode>,
    vars: Map<Seq<char>, u64>,
    funcs: Map<Seq<char>, F>,
    i: int,
    vs: Seq<u64>,
)
    requires
        0 <= i <= args.len(),
        vs.len() == i,
        forall|j: int| 0 <= j < i ==> eval_node(args[j], vars, funcs) == Outcome::Val(vs[j]),
    ensures
        eval_args(args, vars, funcs, 0) == match eval_args(args, vars, funcs, i) {
            ListOut::Vals(rest) => ListOut::Vals(vs + rest),
            f => f,
        },
    decreases i,
{
    if i == 0 {
        match eval_args(args, vars, funcs, 0) {
            ListOut::Vals(rest) => {
                assert(vs + rest =~= rest);
            },
            _ => {},
        }
    } else {
        lemma_eval_args_prefix(args, vars, funcs, i - 1, vs.take(i - 1));
        assert(eval_node(args[i - 1], vars, funcs) == Outcome::Val(vs[i - 1]));
        match eval_args(args, vars, funcs, i) {
            ListOut::Vals(rest) => {
                assert(vs.take(i - 1) + (seq![vs[i - 1]] + rest) =~= vs + rest);
            },
            _ => {
                assert(vs.take(i - 1) + seq![vs[i - 1]] =~= vs);
            },
        }
    }
}

/// How an executable evaluation result relates to the spec outcome: the same
/// value, or the matching error naming the same thing.
pub open spec fn result_matches(r: Result<u64, EvalError>, o: Outcome) -> bool {
    match o {
        Outcome::Val(v) => r == Ok::<u64, EvalError>(v),
        Outcome::BadVar(nm) => r matches Err(EvalError::UnknownVariable(s)) && s@ == nm,
        Outcome::BadFun(nm) => r matches Err(EvalError::UnknownFunction(s)) && s@ == nm,
        Outcome::DivZero => r == Err::<u64, EvalError>(EvalError::DivisionByZero),
        Outcome::BadOp => r == Err::<u64, EvalError>(EvalError::InvalidOperation),
    }
}

/// Apply one operator to two values.
fn apply_bits(op: char, l: u64, r: u64) -> (res: Result<u64, EvalError>)
    ensures
        result_matches(res, apply_op(op, l, r)),
{
    match op {
        '+' => Ok(add_bits(l, r)),
        '-' => Ok(sub_bits(l, r)),
        '*' => Ok(mul_bits(l, r)),
        '/' => {
            if bits_is_zero(r) {
                Err(EvalError::DivisionByZero)
            } else {
                Ok(div_bits(l, r))
            }
        },
        '^' => Ok(pow_bits(l, r)),
        _ => Err(EvalError::InvalidOperation),
    }
}

impl ExprNode {
    /// Evaluate the tree against the context: exactly what the spec-level
    /// semantics says, reading the context and never changing it.
    pub fn eval<F: Function>(&self, ctx: &Context<F>) -> (r: Result<u64, EvalError>)
        ensures
            result_matches(r, eval_node(node_view(*self), ctx.vars_map(), ctx.funcs_map())),
        decreases *self,
    {
        match self {
            ExprNode::Number(n) => Ok(*n),
            ExprNode::Variable(name) => match ctx.get_var(name.as_str()) {
                Some(v) => Ok(v),
                None => Err(EvalError::UnknownVariable(name.clone())),
            },
            ExprNode::BinaryOp { op, left, right } => {
                let l = match left.eval(ctx) {
                    Ok(v) => v,
                    Err(e) => return Err(e),
                };
                let r_ = match right.eval(ctx) {
                    Ok(v) => v,
                    Err(e) => return Err(e),
                };
                apply_bits(*op, l, r_)
            },
            ExprNode::FunctionCall { name, args } => {
                let ghost vargs = node_view(*self)->Call_1;
                proof {
                    lemma_view_list_len(args@);
                }
                let mut vals: Vec<u64> = Vec::new();
                let mut i: usize = 0;
                #[verifier::loop_isolation(false)]
                while i < args.len()
                    invariant
                        i <= args.len(),
                        vals@.len() == i as int,
                        node_view(*self) == PNode::Call(name@, vargs),
                        vargs.len() == args@.len(),
                        forall|j: int| 0 <= j < args@.len() ==> vargs[j] == node_view(args@[j]),
                        forall|j: int|
                            0 <= j < i ==> eval_node(vargs[j], ctx.vars_map(), ctx.funcs_map())
                                == Outcome::Val(vals@[j]),
                    decreases args@.len() - i,
                {
                    proof {
                        assert((*self)->FunctionCall_args == *args);
                        assert(decreases_to!(*self => (*self)->FunctionCall_args));
                        assert(decreases_to!(*self => *args));
                        assert(decreases_to!(*args => args@));
                        assert(decreases_to!(args@ => args@[i as int]));
                        assert(decreases_to!(*self => args@[i as int]));
                    }
                    let v = match args[i].eval(ctx) {
                        Ok(v) => v,
                        Err(e) => {
                            proof {
                                lemma_eval_args_prefix(
                                    vargs,
                                    ctx.vars_map(),
                                    ctx.funcs_map(),
                                    i as int,
                                    vals@,
                                );
                            }
                            return Err(e);
                        },
                    };
                    vals.push(v);
                    i += 1;
                }
                proof {
                    lemma_eval_args_prefix(vargs, ctx.vars_map(), ctx.funcs_map(), i as int, vals@);
                    assert(vals@ + Seq::<u64>::empty() =~= vals@);
                }
                match ctx.get_func(name.as_str()) {
                    Some(f) => match f.call(&vals) {
                        Ok(v) => Ok(v),
                        Err(_) => Err(EvalError::InvalidOperation),
                    },
                    None => match builtin_lookup(name.as_str()) {
                        Some(b) => match b.call(&vals) {
                            Ok(v) => Ok(v),
                            Err(_) => Err(EvalError::InvalidOperation),
                        },
                        None => Err(EvalError::UnknownFunction(name.clone())),
                    },
                }
            },
        }
    }
}

/// A parsed expression. Use `.eval(&Context)` to evaluate it.
#[derive(Debug)]
pub struct Expr {
    inner: ExprNode,
}

impl View for Expr {
    type V = PNode;

    closed spec fn view(&self) -> PNode {
        node_view(self.inner)
    }
}

impl Expr {
    /// Parse an expression from a string.
    pub fn parse_str(s: &str) -> (r: Result<Expr, ParseError>)
        ensures
            match text_parse(s@) {
                POut::Node(n, q) => r matches Ok(e) && e@ == n,
                POut::Fail(pe) => r matches Err(e) && perr_matches(e, pe),
            },
    {
        let mut parser = match Parser::new(s) {
            Ok(p) => p,
            Err(e) => return Err(e),
        };
        match parser.parse() {
            Ok(node) => Ok(Expr { inner: node }),
            Err(e) => Err(e),
        }
    }

    /// Evaluate the expression against the given context.
    pub fn eval<F: Function>(&self, ctx: &Context<F>) -> (r: Result<u64, EvalError>)
        ensures
            result_matches(r, eval_node(self@, ctx.vars_map(), ctx.funcs_map())),
    {
        self.inner.eval(ctx)
    }
}

impl core::str::FromStr for Expr {
    type Err = ParseError;

    /// Parse an expression from a string.
    fn from_str(s: &str) -> Result<Expr, ParseError> {
        Expr::parse_str(s)
    }
}

// ---------------------------------------------------------------------------
// Laws
// ---------------------------------------------------------------------------

/// Two evaluation errors that say the same thing, naming the same variable
/// or function where one is named.
pub open spec fn err_equiv(e1: EvalError, e2: EvalError) -> bool {
    match (e1, e2) {
        (EvalError::UnknownVariable(a), EvalError::UnknownVariable(b)) => a@ == b@,
        (EvalError::UnknownFunction(a), EvalError::UnknownFunction(b)) => a@ == b@,
        (EvalError::DivisionByZero, EvalError::DivisionByZero) => true,
        (EvalError::InvalidOperation, EvalError::InvalidOperation) => true,
        _ => false,
    }
}

/// Two evaluation results that say the same thing.
pub open spec fn result_equiv(r1: Result<u64, EvalError>, r2: Result<u64, EvalError>) -> bool {
    match (r1, r2) {
        (Ok(a), Ok(b)) => a == b,
        (Err(a), Err(b)) => err_equiv(a, b),
        _ => false,
    }
}

/// Evaluation is deterministic: a tree and a context fix one outcome, and
/// any two results that meet it agree — the same value, or the same failure
/// naming the same thing. Evaluation never changes the context, so repeated
/// runs of the same expression against the same context meet the same
/// outcome.
pub proof fn lemma_eval_deterministic(
    r1: Result<u64, EvalError>,
    r2: Result<u64, EvalError>,
    o: Outcome,
)
    requires
        result_matches(r1, o),
        result_matches(r2, o),
    ensures
        result_equiv(r1, r2),
{
}

/// A binary operation on two number leaves evaluates to the operation
/// applied to the two values: for each of the five operators, and with a
/// non-zero divisor for division, the outcome is the operation's value.
pub proof fn lemma_literal_binop<F: Function>(
    op: char,
    x: u64,
    y: u64,
    vars: Map<Seq<char>, u64>,
    funcs: Map<Seq<char>, F>,
)
    requires
        is_op_char(op),
        op == '/' ==> !is_zero_bits(y),
    ensures
        eval_node(PNode::Bin(op, Box::new(PNode::Num(x)), Box::new(PNode::Num(y))), vars, funcs)
            == apply_op(op, x, y),
        apply_op(op, x, y) is Val,
{
    assert(eval_node(PNode::Num(x), vars, funcs) == Outcome::Val(x));
    assert(eval_node(PNode::Num(y), vars, funcs) == Outcome::Val(y));
}

/// Parsing and then evaluating an input of the form `<number> <op> <number>`
/// yields the operation applied to the two literal values, in any context,
/// provided the divisor literal is non-zero when the operator is division.
/// The hypotheses say exactly that the scan of the input yields a number, an
/// operator and a number followed by the end of the input.
pub proof fn lemma_parse_then_eval_binop<F: Function>(
    s: Seq<char>,
    x: u64,
    op: char,
    y: u64,
    vars: Map<Seq<char>, u64>,
    funcs: Map<Seq<char>, F>,
)
    requires
        s.len() <= MAX_TEXT_LEN as nat,
        cur_tok(s, 0) == TokenSpec::Num(x),
        cur_tok(s, tok_end(s, 0)) == TokenSpec::Op(op),
        cur_tok(s, tok_end(s, tok_end(s, 0))) == TokenSpec::Num(y),
        cur_tok(s, tok_end(s, tok_end(s, tok_end(s, 0)))) == TokenSpec::End,
        op == '/' ==> !is_zero_bits(y),
    ensures
        text_parse(s) matches POut::Node(n, _) && eval_node(n, vars, funcs) == apply_op(op, x, y),
        apply_op(op, x, y) is Val,
{
    lemma_parse_binop_form(s, x, op, y);
    lemma_literal_binop(op, x, y, vars, funcs);
}

/// Division by an exact zero fails with the division-by-zero error whenever
/// both sides evaluate to values and the divisor's value is a zero: no
/// infinity and no NaN is produced.
pub proof fn lemma_division_by_zero<F: Function>(
    l: PNode,
    r: PNode,
    vars: Map<Seq<char>, u64>,
    funcs: Map<Seq<char>, F>,
)
    requires
        eval_node(l, vars, funcs) is Val,
        eval_node(r, vars, funcs) matches Outcome::Val(v) && is_zero_bits(v),
    ensures
        eval_node(PNode::Bin('/', Box::new(l), Box::new(r)), vars, funcs) == Outcome::DivZero,
{
}

} // verus!

