//! The closed set of binary operators of the expression grammar.

use vstd::prelude::*;

use crate::token::{Token, TokenRule};

verus! {

/// A binary operator. The set is closed: the grammar recognises exactly
/// these symbols. Constant folding implements the four arithmetic
/// operators; the rest are declared extension points.
#[derive(Clone, Copy, Debug, PartialEq, Eq, Structural)]
pub enum Operator {
    /// Addition operator `+`.
    Add,
    /// Subtraction operator `-`.
    Sub,
    /// Multiplication operator `*`.
    Mul,
    /// Division operator `/`.
    Div,
    /// Modulo operator `\`.
    Mod,
    /// Power operator `**`.
    Pow,
    /// Bitwise exclusive-or operator `^`.
    Xor,
    /// Bitwise and operator `&`.
    And,
    /// Bitwise or operator `|`.
    Or,
    /// Bitwise shift-left operator `<<`.
    Shl,
    /// Bitwise shift-right operator `>>`.
    Shr,
    /// Repeat operator. No surface symbol is lexed for it yet; it is part
    /// of the closed operator vocabulary for later language levels.
    Repeat,
}

impl Operator {
    /// The source-code spelling of the operator.
    pub open spec fn spec_symbol(self) -> Seq<char> {
        match self {
            Operator::Add => "+"@,
            Operator::Sub => "-"@,
            Operator::Mul => "*"@,
            Operator::Div => "/"@,
            Operator::Mod => "\\"@,
            Operator::Pow => "**"@,
            Operator::Xor => "^"@,
            Operator::And => "&"@,
            Operator::Or => "|"@,
            Operator::Shl => "<<"@,
            Operator::Shr => ">>"@,
            Operator::Repeat => "x"@,
        }
    }

    /// The source-code symbol of the operator.
    pub fn symbol(self) -> (s: &'static str)
        ensures
            s@ == self.spec_symbol(),
            s@.len() > 0,
    {
        let s = match self {
            Operator::Add => "+",
            Operator::Sub => "-",
            Operator::Mul => "*",
            Operator::Div => "/",
            Operator::Mod => "\\",
            Operator::Pow => "**",
            Operator::Xor => "^",
            Operator::And => "&",
            Operator::Or => "|",
            Operator::Shl => "<<",
            Operator::Shr => ">>",
            Operator::Repeat => "x",
        };
        proof {
            reveal_strlit("+");
            reveal_strlit("-");
            reveal_strlit("*");
            reveal_strlit("/");
            reveal_strlit("\\");
            reveal_strlit("**");
            reveal_strlit("^");
            reveal_strlit("&");
            reveal_strlit("|");
            reveal_strlit("<<");
            reveal_strlit(">>");
            reveal_strlit("x");
        }
        s
    }
}

impl Operator {
    /// The operator an operator token stands for. Only operator tokens
    /// translate; the parser tests the token before converting it.
    pub fn from_token(token: &Token) -> (op: Operator)
        requires
            token.spec_is_oper(),
        ensures
            op == token.spec_operator(),
    {
        match token.rule {
            TokenRule::OpAdd => Operator::Add,
            TokenRule::OpSub => Operator::Sub,
            TokenRule::OpMul => Operator::Mul,
            TokenRule::OpDiv => Operator::Div,
            TokenRule::OpMod => Operator::Mod,
            TokenRule::OpPow => Operator::Pow,
            TokenRule::OpXor => Operator::Xor,
            TokenRule::OpAnd => Operator::And,
            TokenRule::OpOr => Operator::Or,
            TokenRule::OpShl => Operator::Shl,
            _ => Operator::Shr,
        }
    }
}

} // verus!
