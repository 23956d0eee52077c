//! Expression nodes: a calculation with a left-hand side, a right-hand side
//! and an operator to combine the two.

use vstd::prelude::*;

use crate::node::Node;
use crate::ops::Operator;
use crate::token::Token;

verus! {

/// A binary expression over two sub-nodes.
#[derive(Debug)]
pub struct Expr {
    /// Left-hand side of the calculation.
    pub left: Node,
    /// The operator combining the two sides.
    pub oper: Operator,
    /// Right-hand side of the calculation.
    pub right: Node,
}

impl Expr {
    /// Combine two nodes with the operator the given token stands for.
    pub fn new(left: Node, oper: &Token, right: Node) -> (x: Expr)
        requires
            oper.spec_is_oper(),
        ensures
            x.left == left,
            x.oper == oper.spec_operator(),
            x.right == right,
    {
        Expr { left, oper: Operator::from_token(oper), right }
    }
}

} // verus!
