//! The evaluator: a strict tree walk over the abstract syntax tree.
//!
//! Implemented behaviour, stated by `spec_eval`: literals evaluate to their
//! values; unary operators type-check their evaluated operand and propagate
//! a `Dep` operand unchanged; the logical binary operators short-circuit by
//! their truth tables; (in)equality is structural with function-typed
//! values never equal to anything. Every other construct fails fast with a
//! distinct unsupported-construct error. A `Dep` left operand is propagated
//! unless the right operand is also `Dep`, a currently-unresolved
//! combination reported as its own failure.

#![verifier::loop_isolation(false)]

use vstd::prelude::*;
use crate::ast::{BinaryExpr, BinaryExprType, Expr, ExprV, UnaryExprType};
use crate::env::{lit_value, names_view, Env, Value, ValueV};

verus! {

/// An evaluation failure: an operator applied to operands of the wrong
/// type, a construct the evaluator does not implement, an arithmetic
/// negation that leaves the 32-bit signed range, or the unresolved
/// combination of `Dep` on both sides of a binary operator.
#[derive(Debug, PartialEq, Eq, Structural, Clone, Copy)]
pub enum EvalError {
    /// A prefix operator met an operand of the wrong type.
    UnaryTypeMismatch(UnaryExprType),
    /// A binary operator met an operand of the wrong type.
    BinaryTypeMismatch(BinaryExprType),
    /// A construct the evaluator leaves as future work.
    UnsupportedConstruct,
    /// Negating the one integer whose negation does not fit.
    NegationOverflow,
    /// `Dep` on both sides of a binary operator.
    DoubleDep,
}

/// The text of a negated float literal: a leading minus is stripped,
/// otherwise one is prepended.
pub open spec fn flo_neg(t: Seq<char>) -> Seq<char> {
    if t.len() > 0 && t[0] == '-' {
        t.subrange(1, t.len() as int)
    } else {
        seq!['-'] + t
    }
}

/// The truth table of the three logical operators: conjunction,
/// disjunction, and implication (`!l || r`).
pub open spec fn spec_eval_logical(e: BinaryExprType, l: bool, r: bool) -> bool {
    if e == BinaryExprType::And() {
        l && r
    } else if e == BinaryExprType::Or() {
        l || r
    } else {
        !l || r
    }
}

/// Structural equality across all value kinds, with any function-typed
/// value unequal to everything, other functions included. `Dep` values
/// compare by their name sequences.
pub open spec fn spec_eq_value(l: ValueV, r: ValueV) -> bool {
    if l is Func || l is PFunc || r is Func || r is PFunc {
        false
    } else {
        l == r
    }
}

/// Whether a binary operator is one of the three logical ones.
pub open spec fn is_logical_op(t: BinaryExprType) -> bool {
    t == BinaryExprType::And() || t == BinaryExprType::Or() || t == BinaryExprType::Arrow()
}

/// The reference evaluation of one expression: exactly the implemented
/// behaviour, and a distinct failure for everything else.
pub open spec fn spec_eval(e: ExprV) -> Result<ValueV, EvalError>
    decreases e,
{
    match e {
        ExprV::Literal(l) => Ok(lit_value(l)),
        ExprV::Unary { typ, right } => match spec_eval(*right) {
            Ok(v) => if v is Dep {
                Ok(v)
            } else {
                match typ {
                    UnaryExprType::ArithmNegation() => match v {
                        ValueV::Int(i) => if i == i32::MIN {
                            Err(EvalError::NegationOverflow)
                        } else {
                            Ok(ValueV::Int((0 - i) as i32))
                        },
                        ValueV::Flo(t) => Ok(ValueV::Flo(flo_neg(t))),
                        _ => Err(EvalError::UnaryTypeMismatch(typ)),
                    },
                    UnaryExprType::LogicalNegation() => match v {
                        ValueV::Bool(b) => Ok(ValueV::Bool(!b)),
                        _ => Err(EvalError::UnaryTypeMismatch(typ)),
                    },
                }
            },
            Err(er) => Err(er),
        },
        ExprV::Binary { typ, left, right } => match spec_eval(*left) {
            Ok(lv) => if lv is Dep {
                match spec_eval(*right) {
                    Ok(rv) => if rv is Dep {
                        Err(EvalError::DoubleDep)
                    } else {
                        Ok(lv)
                    },
                    Err(_) => Ok(lv),
                }
            } else if is_logical_op(typ) {
                match lv {
                    ValueV::Bool(lb) => if lb && typ == BinaryExprType::Or() {
                        Ok(ValueV::Bool(true))
                    } else if !lb && typ == BinaryExprType::And() {
                        Ok(ValueV::Bool(false))
                    } else if !lb && typ == BinaryExprType::Arrow() {
                        Ok(ValueV::Bool(true))
                    } else {
                        match spec_eval(*right) {
                            Ok(ValueV::Bool(rb)) => Ok(
                                ValueV::Bool(spec_eval_logical(typ, lb, rb)),
                            ),
                            _ => Err(EvalError::BinaryTypeMismatch(typ)),
                        }
                    },
                    _ => Err(EvalError::BinaryTypeMismatch(typ)),
                }
            } else if typ == BinaryExprType::Equals() {
                match spec_eval(*right) {
                    Ok(rv) => Ok(ValueV::Bool(spec_eq_value(lv, rv))),
                    Err(er) => Err(er),
                }
            } else if typ == BinaryExprType::NotEquals() {
                match spec_eval(*right) {
                    Ok(rv) => Ok(ValueV::Bool(!spec_eq_value(lv, rv))),
                    Err(er) => Err(er),
                }
            } else {
                Err(EvalError::UnsupportedConstruct)
            },
            Err(er) => Err(er),
        },
        _ => Err(EvalError::UnsupportedConstruct),
    }
}

/// Combines two boolean operands under a logical operator.
pub fn eval_logical(e: BinaryExprType, l: bool, r: bool) -> (b: bool)
    requires
        is_logical_op(e),
    ensures
        b == spec_eval_logical(e, l, r),
{
    match e {
        BinaryExprType::And() => l && r,
        BinaryExprType::Or() => l || r,
        _ => !l || r,
    }
}

/// The tag of a value's kind, used to compare kinds before payloads.
pub open spec fn spec_value_kind(v: ValueV) -> u8 {
    match v {
        ValueV::Dep(_) => 0,
        ValueV::Str(_) => 1,
        ValueV::Path(_) => 2,
        ValueV::NixPath(_) => 3,
        ValueV::Int(_) => 4,
        ValueV::Flo(_) => 5,
        ValueV::Bool(_) => 6,
        ValueV::Null => 7,
        ValueV::List => 8,
        ValueV::AttrSet => 9,
        ValueV::Func => 10,
        ValueV::PFunc => 11,
    }
}

/// The tag of a value's kind.
fn value_kind(v: &Value) -> (k: u8)
    ensures
        k == spec_value_kind(v@),
{
    match v {
        Value::Dep(_) => 0,
        Value::Str(_) => 1,
        Value::Path(_) => 2,
        Value::NixPath(_) => 3,
        Value::Int(_) => 4,
        Value::Flo(_) => 5,
        Value::Bool(_) => 6,
        Value::Null() => 7,
        Value::List() => 8,
        Value::AttrSet() => 9,
        Value::Func() => 10,
        Value::PFunc() => 11,
    }
}

/// Structural equality of two values; function-typed values are never
/// equal to anything.
#[verifier::rlimit(100)]
#[verifier::spinoff_prover]
pub fn eval_equal(l: &Value, r: &Value) -> (b: bool)
    ensures
        b == spec_eq_value(l@, r@),
{
    let lk = value_kind(l);
    let rk = value_kind(r);
    if lk == 10 || lk == 11 || rk == 10 || rk == 11 {
        return false;
    }
    if lk != rk {
        proof {
            assert(l@ != r@);
        }
        return false;
    }
    match (l, r) {
        (Value::Dep(a), Value::Dep(b)) => names_eq(a, b),
        (Value::Str(a), Value::Str(b)) => crate::tokens::str_eq(a.as_str(), b.as_str()),
        (Value::Path(a), Value::Path(b)) => crate::tokens::str_eq(a.as_str(), b.as_str()),
        (Value::NixPath(a), Value::NixPath(b)) => crate::tokens::str_eq(a.as_str(), b.as_str()),
        (Value::Int(a), Value::Int(b)) => a == b,
        (Value::Flo(a), Value::Flo(b)) => crate::tokens::str_eq(a.as_str(), b.as_str()),
        (Value::Bool(a), Value::Bool(b)) => a == b,
        (Value::Null(), Value::Null()) => true,
        (Value::List(), Value::List()) => true,
        (Value::AttrSet(), Value::AttrSet()) => true,
        _ => false,
    }
}

/// Compares two name sequences elementwise.
fn names_eq(a: &Vec<String>, b: &Vec<String>) -> (r: bool)
    ensures
        r == (names_view(a@) == names_view(b@)),
{
    if a.len() != b.len() {
        proof {
            assert(names_view(a@).len() != names_view(b@).len());
        }
        return false;
    }
    let mut i: usize = 0;
    while i < a.len()
        invariant
            i <= a@.len(),
            a@.len() == b@.len(),
            forall|t: int| 0 <= t < i ==> a@[t]@ == b@[t]@,
        decreases a@.len() - i,
    {
        if !(a[i] == b[i]) {
            proof {
                assert(names_view(a@)[i as int] != names_view(b@)[i as int]);
            }
            return false;
        }
        i += 1;
    }
    proof {
        assert(names_view(a@) =~= names_view(b@));
    }
    true
}

/// Negates a float literal's text.
fn negate_flo(s: &String) -> (r: String)
    ensures
        r@ == flo_neg(s@),
{
    let n = s.as_str().unicode_len();
    if n > 0 && s.as_str().get_char(0) == '-' {
        String::from_str(s.as_str().substring_char(1, n))
    } else {
        proof {
            reveal_strlit("-");
        }
        let mut r = String::from_str("-");
        r.append(s.as_str());
        proof {
            assert(r@ =~= flo_neg(s@));
        }
        r
    }
}

/// The evaluator: holds one tree and the scope it would run under.
pub struct Interpreter {
    ast: Expr,
    env: Env,
}

impl Interpreter {
    /// The image of the tree this interpreter evaluates.
    pub closed spec fn spec_ast(&self) -> ExprV {
        self.ast@
    }

    pub fn new(ast: Expr) -> (r: Self)
        ensures
            r.spec_ast() == ast@,
    {
        let env = Env::new(None, false);
        Self { ast, env }
    }

    /// Evaluates the held tree: returns exactly what `spec_eval` assigns.
    pub fn interpret(&self) -> (r: Result<Value, EvalError>)
        ensures
            match r {
                Ok(v) => spec_eval(self.spec_ast()) == Ok::<ValueV, EvalError>(v@),
                Err(er) => spec_eval(self.spec_ast()) == Err::<ValueV, EvalError>(er),
            },
    {
        self.evaluate(&self.ast)
    }

    /// Evaluates one expression.
    #[verifier::rlimit(100)]
    #[verifier::spinoff_prover]
    pub fn evaluate(&self, e: &Expr) -> (r: Result<Value, EvalError>)
        ensures
            match r {
                Ok(v) => spec_eval(e@) == Ok::<ValueV, EvalError>(v@),
                Err(er) => spec_eval(e@) == Err::<ValueV, EvalError>(er),
            },
        decreases *e, 0int,
    {
        match e {
            Expr::Literal(l) => Ok(Value::from(l)),
            Expr::Unary(u) => {
                let v = match self.evaluate(&u.right) {
                    Ok(v) => v,
                    Err(er) => {
                        return Err(er);
                    },
                };
                if let Value::Dep(_) = &v {
                    return Ok(v);
                }
                match u.typ {
                    UnaryExprType::ArithmNegation() => match v {
                        Value::Int(i) => {
                            if i == i32::MIN {
                                Err(EvalError::NegationOverflow)
                            } else {
                                Ok(Value::Int(-i))
                            }
                        },
                        Value::Flo(t) => Ok(Value::Flo(negate_flo(&t))),
                        _ => Err(EvalError::UnaryTypeMismatch(u.typ)),
                    },
                    UnaryExprType::LogicalNegation() => match v {
                        Value::Bool(b) => Ok(Value::Bool(!b)),
                        _ => Err(EvalError::UnaryTypeMismatch(u.typ)),
                    },
                }
            },
            Expr::Binary(b) => self.eval_binary(b),
            _ => Err(EvalError::UnsupportedConstruct),
        }
    }

    /// Evaluates one binary node, left operand first.
    #[verifier::rlimit(100)]
    #[verifier::spinoff_prover]
    fn eval_binary(&self, b: &BinaryExpr) -> (r: Result<Value, EvalError>)
        ensures
            match r {
                Ok(v) => spec_eval(b@) == Ok::<ValueV, EvalError>(v@),
                Err(er) => spec_eval(b@) == Err::<ValueV, EvalError>(er),
            },
        decreases *b, 1int,
    {
        let left = match self.evaluate(&b.left) {
            Ok(v) => v,
            Err(er) => {
                return Err(er);
            },
        };
        if let Value::Dep(_) = &left {
            if let Ok(rv) = self.evaluate(&b.right) {
                if let Value::Dep(_) = rv {
                    return Err(EvalError::DoubleDep);
                }
            }
            return Ok(left);
        }
        match b.typ {
            BinaryExprType::And() | BinaryExprType::Or() | BinaryExprType::Arrow() => {
                if let Value::Bool(lb) = left {
                    if lb {
                        if let BinaryExprType::Or() = b.typ {
                            return Ok(Value::Bool(true));
                        }
                    } else {
                        if let BinaryExprType::And() = b.typ {
                            return Ok(Value::Bool(false));
                        }
                        if let BinaryExprType::Arrow() = b.typ {
                            return Ok(Value::Bool(true));
                        }
                    }
                    if let Ok(Value::Bool(rb)) = self.evaluate(&b.right) {
                        return Ok(Value::Bool(eval_logical(b.typ, lb, rb)));
                    }
                    Err(EvalError::BinaryTypeMismatch(b.typ))
                } else {
                    Err(EvalError::BinaryTypeMismatch(b.typ))
                }
            },
            BinaryExprType::Equals() => {
                match self.evaluate(&b.right) {
                    Ok(right) => Ok(Value::Bool(eval_equal(&left, &right))),
                    Err(er) => Err(er),
                }
            },
            BinaryExprType::NotEquals() => {
                match self.evaluate(&b.right) {
                    Ok(right) => Ok(Value::Bool(!eval_equal(&left, &right))),
                    Err(er) => Err(er),
                }
            },
            _ => Err(EvalError::UnsupportedConstruct),
        }
    }
}

} // verus!
