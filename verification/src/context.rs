//! The binding context: variables, caller-supplied functions, and the
//! built-in functions that evaluation falls back to.

use vstd::prelude::*;
use crate::expr::EvalError;
use crate::numeric::{abs_of, cos_of, max_of, min_of, sin_of, sqrt_of};
use crate::numeric::{abs_bits, cos_bits, max_bits, min_bits, sin_bits, sqrt_bits};

verus! {

/// A callable that a context can hold: it takes the argument values and
/// returns a value or fails. `spec_call` says what one call computes; `None`
/// stands for a failing call, whose cause evaluation does not preserve.
pub trait Function: Sized {
    /// The value this callable returns for these arguments, or `None` when
    /// the call fails.
    spec fn spec_call(&self, args: Seq<u64>) -> Option<u64>;

    /// Apply the callable to the argument values.
    fn call(&self, args: &Vec<u64>) -> (r: Result<u64, EvalError>)
        ensures
            match self.spec_call(args@) {
                Some(v) => r == Ok::<u64, EvalError>(v),
                None => r is Err,
            },
    ;
}

/// Compare two pieces of text character by character.
pub(crate) fn str_eq(a: &str, b: &str) -> (r: bool)
    ensures
        r == (a@ == b@),
{
    let n = a.unicode_len();
    if n != b.unicode_len() {
        return false;
    }
    let mut i: usize = 0;
    while i < n
        invariant
            i <= n,
            n == a@.len(),
            n == b@.len(),
            forall|j: int| 0 <= j < i ==> a@[j] == b@[j],
        decreases n - i,
    {
        if a.get_char(i) != b.get_char(i) {
            return false;
        }
        i += 1;
    }
    proof {
        assert(a@ =~= b@);
    }
    true
}

/// The built-in functions; evaluation falls back to them when a name is not
/// bound in the context.
#[derive(Debug, Clone, Copy, PartialEq, Eq)]
pub enum Builtin {
    Sin,
    Cos,
    Sqrt,
    Abs,
    Max,
    Min,
}

impl Function for Builtin {
    open spec fn spec_call(&self, args: Seq<u64>) -> Option<u64> {
        match *self {
            Builtin::Sin => if args.len() == 1 { Some(sin_of(args[0])) } else { None },
            Builtin::Cos => if args.len() == 1 { Some(cos_of(args[0])) } else { None },
            Builtin::Sqrt => if args.len() == 1 { Some(sqrt_of(args[0])) } else { None },
            Builtin::Abs => if args.len() == 1 { Some(abs_of(args[0])) } else { None },
            Builtin::Max => if args.len() == 2 { Some(max_of(args[0], args[1])) } else { None },
            Builtin::Min => if args.len() == 2 { Some(min_of(args[0], args[1])) } else { None },
        }
    }

    /// A built-in called with the wrong number of arguments fails.
    fn call(&self, args: &Vec<u64>) -> (r: Result<u64, EvalError>) {
        match *self {
            Builtin::Sin => {
                if args.len() == 1 { Ok(sin_bits(args[0])) } else { Err(EvalError::InvalidOperation) }
            },
            Builtin::Cos => {
                if args.len() == 1 { Ok(cos_bits(args[0])) } else { Err(EvalError::InvalidOperation) }
            },
            Builtin::Sqrt => {
                if args.len() == 1 { Ok(sqrt_bits(args[0])) } else { Err(EvalError::InvalidOperation) }
            },
            Builtin::Abs => {
                if args.len() == 1 { Ok(abs_bits(args[0])) } else { Err(EvalError::InvalidOperation) }
            },
            Builtin::Max => {
                if args.len() == 2 {
                    Ok(max_bits(args[0], args[1]))
                } else {
                    Err(EvalError::InvalidOperation)
                }
            },
            Builtin::Min => {
                if args.len() == 2 {
                    Ok(min_bits(args[0], args[1]))
                } else {
                    Err(EvalError::InvalidOperation)
                }
            },
        }
    }
}

/// Which built-in a name denotes, if any.
pub open spec fn builtin_of_name(nm: Seq<char>) -> Option<Builtin> {
    if nm == "sin"@ {
        Some(Builtin::Sin)
    } else if nm == "cos"@ {
        Some(Builtin::Cos)
    } else if nm == "sqrt"@ {
        Some(Builtin::Sqrt)
    } else if nm == "abs"@ {
        Some(Builtin::Abs)
    } else if nm == "max"@ {
        Some(Builtin::Max)
    } else if nm == "min"@ {
        Some(Builtin::Min)
    } else {
        None
    }
}

/// Look a name up among the built-ins.
pub(crate) fn builtin_lookup(name: &str) -> (r: Option<Builtin>)
    ensures
        r == builtin_of_name(name@),
{
    if str_eq(name, "sin") {
        Some(Builtin::Sin)
    } else if str_eq(name, "cos") {
        Some(Builtin::Cos)
    } else if str_eq(name, "sqrt") {
        Some(Builtin::Sqrt)
    } else if str_eq(name, "abs") {
        Some(Builtin::Abs)
    } else if str_eq(name, "max") {
        Some(Builtin::Max)
    } else if str_eq(name, "min") {
        Some(Builtin::Min)
    } else {
        None
    }
}

/// The map that a name-value association list denotes; a later entry for the
/// same name wins, as repeated insertion would.
pub open spec fn assoc_view<V>(s: Seq<(String, V)>) -> Map<Seq<char>, V>
    decreases s.len(),
{
    if s.len() == 0 {
        Map::empty()
    } else {
        assoc_view(s.drop_last()).insert(s.last().0@, s.last().1)
    }
}

proof fn lemma_assoc_view_found<V>(s: Seq<(String, V)>, k: Seq<char>, i: int)
    requires
        0 <= i < s.len(),
        s[i].0@ == k,
        forall|j: int| i < j < s.len() ==> s[j].0@ != k,
    ensures
        assoc_view(s).contains_key(k),
        assoc_view(s)[k] == s[i].1,
    decreases s.len(),
{
    if i < s.len() - 1 {
        lemma_assoc_view_found(s.drop_last(), k, i);
    }
}

proof fn lemma_assoc_view_absent<V>(s: Seq<(String, V)>, k: Seq<char>)
    requires
        forall|j: int| 0 <= j < s.len() ==> s[j].0@ != k,
    ensures
        !assoc_view(s).contains_key(k),
    decreases s.len(),
{
    if s.len() > 0 {
        lemma_assoc_view_absent(s.drop_last(), k);
    }
}

/// The bindings evaluation reads: names to values, and names to callables.
/// Built once by the fluent `with_var` / `with_func` calls and then only read.
pub struct Context<F> {
    vars: Vec<(String, u64)>,
    funcs: Vec<(String, F)>,
}

impl<F> Context<F> {
    /// The variable bindings, as a map.
    pub closed spec fn vars_map(self) -> Map<Seq<char>, u64> {
        assoc_view(self.vars@)
    }

    /// The function bindings, as a map.
    pub closed spec fn funcs_map(self) -> Map<Seq<char>, F> {
        assoc_view(self.funcs@)
    }

    /// An empty context: no variables and no functions bound.
    pub fn new() -> (c: Self)
        ensures
            c.vars_map() == Map::<Seq<char>, u64>::empty(),
            c.funcs_map() == Map::<Seq<char>, F>::empty(),
    {
        Context { vars: Vec::new(), funcs: Vec::new() }
    }

    /// The context with one more variable bound; an existing binding of the
    /// same name is replaced.
    pub fn with_var(self, name: &str, val: u64) -> (c: Self)
        ensures
            c.vars_map() == self.vars_map().insert(name@, val),
            c.funcs_map() == self.funcs_map(),
    {
        let mut vars = self.vars;
        vars.push((owned_str(name), val));
        proof {
            assert(vars@.drop_last() =~= self.vars@);
        }
        Context { vars, funcs: self.funcs }
    }

    /// The context with one more function bound; an existing binding of the
    /// same name is replaced.
    pub fn with_func(self, name: &str, func: F) -> (c: Self)
        ensures
            c.funcs_map() == self.funcs_map().insert(name@, func),
            c.vars_map() == self.vars_map(),
    {
        let mut funcs = self.funcs;
        funcs.push((owned_str(name), func));
        proof {
            assert(funcs@.drop_last() =~= self.funcs@);
        }
        Context { vars: self.vars, funcs }
    }

    /// The value bound to a variable name, if any.
    pub fn get_var(&self, name: &str) -> (r: Option<u64>)
        ensures
            match r {
                Some(v) => self.vars_map().contains_key(name@) && self.vars_map()[name@] == v,
                None => !self.vars_map().contains_key(name@),
            },
    {
        let mut i = self.vars.len();
        while i > 0
            invariant
                i <= self.vars.len(),
                forall|j: int| i <= j < self.vars@.len() ==> self.vars@[j].0@ != name@,
            decreases i,
        {
            i -= 1;
            if str_eq(self.vars[i].0.as_str(), name) {
                proof {
                    lemma_assoc_view_found(self.vars@, name@, i as int);
                }
                return Some(self.vars[i].1);
            }
        }
        proof {
            lemma_assoc_view_absent(self.vars@, name@);
        }
        None
    }

    /// The callable bound to a function name, if any.
    pub fn get_func(&self, name: &str) -> (r: Option<&F>)
        ensures
            match r {
                Some(f) => self.funcs_map().contains_key(name@) && *f == self.funcs_map()[name@],
                None => !self.funcs_map().contains_key(name@),
            },
    {
        let mut i = self.funcs.len();
        while i > 0
            invariant
                i <= self.funcs.len(),
                forall|j: int| i <= j < self.funcs@.len() ==> self.funcs@[j].0@ != name@,
            decreases i,
        {
            i -= 1;
            if str_eq(self.funcs[i].0.as_str(), name) {
                proof {
                    lemma_assoc_view_found(self.funcs@, name@, i as int);
                }
                return Some(&self.funcs[i].1);
            }
        }
        proof {
            lemma_assoc_view_absent(self.funcs@, name@);
        }
        None
    }
}

/// An owned copy of a piece of text.
fn owned_str(s: &str) -> (r: String)
    ensures
        r@ == s@,
{
    <String as vstd::string::StringExecFns>::from_str(s)
}

} // verus!
