//! Constant folding: computing the value of static expression trees.
//!
//! Folding works in exact arithmetic. An integer result stays an integer
//! for addition, subtraction and multiplication; division always produces a
//! fractional result, even for two integers, matching the design intent that
//! expressions may exceed the output type's precision until final
//! truncation. Fractional results are kept as exact rationals; a driver may
//! convert them to machine floats at the output edge.

use vstd::prelude::*;

use crate::error::{ParseError, ParseErrorKind, ParseResult};
use crate::expr::Expr;
use crate::node::{Node, NodeKind, Value};
use crate::ops::Operator;

verus! {

/// An exact fraction: `num / den`, with `den` kept strictly positive.
#[derive(Clone, Copy, Debug, PartialEq, Eq, Structural)]
pub struct Rational {
    /// The numerator; carries the sign of the fraction.
    pub num: i64,
    /// The denominator; always at least one.
    pub den: i64,
}

/// The result of evaluating a node: an integer, or a fractional value kept
/// as an exact rational.
#[derive(Clone, Copy, Debug, PartialEq, Eq, Structural)]
pub enum Evaluation {
    /// The result is an integer.
    Int(i64),
    /// The result is fractional: only division produces this.
    Float(Rational),
}

/// The mathematical value of an evaluation, over unbounded integers.
pub enum EvalValue {
    /// An integer result.
    Int(int),
    /// A fractional result `num / den`, unreduced, with `den > 0`.
    Rat(int, int),
}

/// The value as a fraction: an integer counts as itself over one.
pub open spec fn rat_of(v: EvalValue) -> (int, int) {
    match v {
        EvalValue::Int(i) => (i, 1),
        EvalValue::Rat(n, d) => (n, d),
    }
}

/// Does a mathematical integer fit the machine's signed 64-bit range?
pub open spec fn in_i64(x: int) -> bool {
    i64::MIN <= x <= i64::MAX
}

/// What applying an operator to two exact values yields: the four
/// arithmetic operators are supported, division always yields a fraction
/// and is undefined on a zero divisor; every other operator is an extension
/// point and folds to nothing.
pub open spec fn apply_op(op: Operator, l: EvalValue, r: EvalValue) -> Option<EvalValue> {
    let (n1, d1) = rat_of(l);
    let (n2, d2) = rat_of(r);
    match op {
        Operator::Add => if l is Int && r is Int {
            Some(EvalValue::Int(n1 + n2))
        } else {
            Some(EvalValue::Rat(n1 * d2 + n2 * d1, d1 * d2))
        },
        Operator::Sub => if l is Int && r is Int {
            Some(EvalValue::Int(n1 - n2))
        } else {
            Some(EvalValue::Rat(n1 * d2 - n2 * d1, d1 * d2))
        },
        Operator::Mul => if l is Int && r is Int {
            Some(EvalValue::Int(n1 * n2))
        } else {
            Some(EvalValue::Rat(n1 * n2, d1 * d2))
        },
        Operator::Div => if n2 == 0 {
            None
        } else if n2 > 0 {
            Some(EvalValue::Rat(n1 * d2, d1 * n2))
        } else {
            Some(EvalValue::Rat(-(n1 * d2), d1 * (-n2)))
        },
        _ => None,
    }
}

/// Does applying the operator stay within the machine's 64-bit range, for
/// the exact intermediate products the implementation forms?
pub open spec fn op_fits(op: Operator, l: EvalValue, r: EvalValue) -> bool {
    let (n1, d1) = rat_of(l);
    let (n2, d2) = rat_of(r);
    match op {
        Operator::Add => if l is Int && r is Int {
            in_i64(n1 + n2)
        } else {
            in_i64(n1 * d2) && in_i64(n2 * d1) && in_i64(n1 * d2 + n2 * d1) && in_i64(d1 * d2)
        },
        Operator::Sub => if l is Int && r is Int {
            in_i64(n1 - n2)
        } else {
            in_i64(n1 * d2) && in_i64(n2 * d1) && in_i64(n1 * d2 - n2 * d1) && in_i64(d1 * d2)
        },
        Operator::Mul => in_i64(n1 * n2) && (l is Int && r is Int || in_i64(d1 * d2)),
        Operator::Div => in_i64(n1 * d2) && in_i64(d1 * n2)
            && (n2 < 0 ==> in_i64(-(n1 * d2)) && in_i64(-(d1 * n2))),
        _ => true,
    }
}

/// The exact value a node folds to, if it folds: literal values fold to
/// themselves, expressions fold when both operands fold and the operator
/// applies. Reference nodes need external resolution and fold to nothing.
pub open spec fn spec_eval(n: Node) -> Option<EvalValue>
    decreases n,
{
    match n.kind {
        NodeKind::Value(Value::Int(i)) => Some(EvalValue::Int(i as int)),
        NodeKind::Value(Value::UInt(u)) => Some(EvalValue::Int(u as int)),
        NodeKind::Expr(x) => spec_eval_expr(*x),
        _ => None,
    }
}

/// The exact value an expression folds to, if it folds: both operands must
/// fold, and the operator must apply.
pub open spec fn spec_eval_expr(x: Expr) -> Option<EvalValue>
    decreases x,
{
    match (spec_eval(x.left), spec_eval(x.right)) {
        (Some(l), Some(r)) => apply_op(x.oper, l, r),
        _ => None,
    }
}

/// Does every intermediate result in the tree stay within the machine's
/// 64-bit range?
pub open spec fn spec_eval_fits(n: Node) -> bool
    decreases n,
{
    match n.kind {
        NodeKind::Expr(x) => spec_expr_fits(*x),
        _ => true,
    }
}

/// Does every intermediate result under an expression stay within the
/// machine's 64-bit range?
pub open spec fn spec_expr_fits(x: Expr) -> bool
    decreases x,
{
    &&& spec_eval_fits(x.left)
    &&& spec_eval_fits(x.right)
    &&& match (spec_eval(x.left), spec_eval(x.right)) {
        (Some(l), Some(r)) => op_fits(x.oper, l, r),
        _ => true,
    }
}

impl Evaluation {
    /// The mathematical value this machine result stands for.
    pub open spec fn spec_val(&self) -> EvalValue {
        match self {
            Evaluation::Int(i) => EvalValue::Int(*i as int),
            Evaluation::Float(q) => EvalValue::Rat(q.num as int, q.den as int),
        }
    }

    /// Well-formed: a fractional result keeps its denominator positive.
    pub open spec fn wf(&self) -> bool {
        self matches Evaluation::Float(q) ==> q.den >= 1
    }
}

/// Apply an operator to two already-evaluated operands, in checked
/// machine arithmetic. Succeeds exactly when the operator folds in exact
/// arithmetic and every intermediate product fits the 64-bit range; any
/// other case — an extension-point operator, a zero divisor, a result out
/// of range — is a fold this pass does not support, reported `Unimplemented`.
fn combine(op: Operator, l: Evaluation, r: Evaluation) -> (res: ParseResult<Evaluation>)
    requires
        l.wf(),
        r.wf(),
    ensures
        res is Ok <==> (apply_op(op, l.spec_val(), r.spec_val()) is Some
            && op_fits(op, l.spec_val(), r.spec_val())),
        res matches Ok(v) ==> Some(v.spec_val()) == apply_op(op, l.spec_val(), r.spec_val())
            && v.wf(),
        res matches Err(e) ==> e.0 is Unimplemented,
{
    let (n1, d1) = match l {
        Evaluation::Int(i) => (i, 1i64),
        Evaluation::Float(q) => (q.num, q.den),
    };
    let (n2, d2) = match r {
        Evaluation::Int(i) => (i, 1i64),
        Evaluation::Float(q) => (q.num, q.den),
    };
    let both_int = match (&l, &r) {
        (Evaluation::Int(_), Evaluation::Int(_)) => true,
        _ => false,
    };
    match op {
        Operator::Add => {
            if both_int {
                match n1.checked_add(n2) {
                    Some(s) => Ok(Evaluation::Int(s)),
                    None => Err(ParseError(ParseErrorKind::Unimplemented)),
                }
            } else {
                let t1 = n1.checked_mul(d2);
                let t2 = n2.checked_mul(d1);
                let dd = d1.checked_mul(d2);
                match (t1, t2, dd) {
                    (Some(a), Some(b), Some(d)) => match a.checked_add(b) {
                        Some(s) => {
                            proof {
                                assert(d >= 1) by (nonlinear_arith)
                                    requires d1 >= 1, d2 >= 1, d == d1 * d2;
                            }
                            Ok(Evaluation::Float(Rational { num: s, den: d }))
                        },
                        None => Err(ParseError(ParseErrorKind::Unimplemented)),
                    },
                    _ => Err(ParseError(ParseErrorKind::Unimplemented)),
                }
            }
        },
        Operator::Sub => {
            if both_int {
                match n1.checked_sub(n2) {
                    Some(s) => Ok(Evaluation::Int(s)),
                    None => Err(ParseError(ParseErrorKind::Unimplemented)),
                }
            } else {
                let t1 = n1.checked_mul(d2);
                let t2 = n2.checked_mul(d1);
                let dd = d1.checked_mul(d2);
                match (t1, t2, dd) {
                    (Some(a), Some(b), Some(d)) => match a.checked_sub(b) {
                        Some(s) => {
                            proof {
                                assert(d >= 1) by (nonlinear_arith)
                                    requires d1 >= 1, d2 >= 1, d == d1 * d2;
                            }
                            Ok(Evaluation::Float(Rational { num: s, den: d }))
                        },
                        None => Err(ParseError(ParseErrorKind::Unimplemented)),
                    },
                    _ => Err(ParseError(ParseErrorKind::Unimplemented)),
                }
            }
        },
        Operator::Mul => {
            if both_int {
                match n1.checked_mul(n2) {
                    Some(s) => Ok(Evaluation::Int(s)),
                    None => Err(ParseError(ParseErrorKind::Unimplemented)),
                }
            } else {
                match (n1.checked_mul(n2), d1.checked_mul(d2)) {
                    (Some(s), Some(d)) => {
                        proof {
                            assert(d >= 1) by (nonlinear_arith)
                                requires d1 >= 1, d2 >= 1, d == d1 * d2;
                        }
                        Ok(Evaluation::Float(Rational { num: s, den: d }))
                    },
                    _ => Err(ParseError(ParseErrorKind::Unimplemented)),
                }
            }
        },
        Operator::Div => {
            if n2 == 0 {
                return Err(ParseError(ParseErrorKind::Unimplemented));
            }
            match (n1.checked_mul(d2), d1.checked_mul(n2)) {
                (Some(a), Some(b)) => {
                    if n2 > 0 {
                        proof {
                            assert(b >= 1) by (nonlinear_arith)
                                requires d1 >= 1, n2 >= 1, b == d1 * n2;
                        }
                        Ok(Evaluation::Float(Rational { num: a, den: b }))
                    } else {
                        // negating the numerator and denominator keeps the
                        // denominator positive; only the minimum value
                        // cannot be negated
                        if a == i64::MIN || b == i64::MIN {
                            return Err(ParseError(ParseErrorKind::Unimplemented));
                        }
                        let na = -a;
                        let nb = -b;
                        proof {
                            assert(nb >= 1 && nb == (d1 as int) * (-(n2 as int))) by (nonlinear_arith)
                                requires d1 >= 1, n2 <= -1, b == d1 * n2, nb == -(b as int);
                        }
                        Ok(Evaluation::Float(Rational { num: na, den: nb }))
                    }
                },
                _ => Err(ParseError(ParseErrorKind::Unimplemented)),
            }
        },
        _ => Err(ParseError(ParseErrorKind::Unimplemented)),
    }
}

impl Node {
    /// Fold this node to a value: a literal value evaluates to itself, an
    /// expression evaluates recursively when every leaf is a literal and
    /// every intermediate result fits the 64-bit range. A node that needs
    /// external resolution — an atom or macro reference, or any other
    /// non-data node — and any fold this pass does not support fail with
    /// `Unimplemented`, a catchable error.
    pub fn eval(&self) -> (res: ParseResult<Evaluation>)
        ensures
            res is Ok <==> (spec_eval(*self) is Some && spec_eval_fits(*self)),
            res matches Ok(v) ==> Some(v.spec_val()) == spec_eval(*self) && v.wf(),
            res matches Err(e) ==> e.0 is Unimplemented,
        decreases self,
    {
        match &self.kind {
            NodeKind::Value(Value::Int(i)) => Ok(Evaluation::Int(*i as i64)),
            NodeKind::Value(Value::UInt(u)) => Ok(Evaluation::Int(*u as i64)),
            NodeKind::Expr(x) => x.eval(),
            _ => Err(ParseError(ParseErrorKind::Unimplemented)),
        }
    }
}

impl Expr {
    /// Fold this expression: evaluate both sides, then apply the operator
    /// in exact arithmetic.
    pub fn eval(&self) -> (res: ParseResult<Evaluation>)
        ensures
            res is Ok <==> (spec_eval_expr(*self) is Some && spec_expr_fits(*self)),
            res matches Ok(v) ==> Some(v.spec_val()) == spec_eval_expr(*self) && v.wf(),
            res matches Err(e) ==> e.0 is Unimplemented,
        decreases self,
    {
        let left = match self.left.eval() {
            Ok(v) => v,
            Err(e) => {
                return Err(e);
            },
        };
        let right = match self.right.eval() {
            Ok(v) => v,
            Err(e) => {
                return Err(e);
            },
        };
        combine(self.oper, left, right)
    }
}

} // verus!
