use vstd::prelude::*;
use crate::operator::Operator;

verus! {

/// A parsed expression: a digit leaf, or an operator applied to two subtrees,
/// `lhs` being the operand pushed first.
#[derive(Debug, PartialEq)]
pub enum Ast {
    Num(u8),
    Op { op: Operator, lhs: Box<Ast>, rhs: Box<Ast> },
}

impl Clone for Ast {
    fn clone(&self) -> (r: Ast)
        ensures
            r == *self,
        decreases self,
    {
        match self {
            Ast::Num(n) => Ast::Num(*n),
            Ast::Op { op, lhs, rhs } => {
                let l = (**lhs).clone();
                let r = (**rhs).clone();
                Ast::Op { op: *op, lhs: Box::new(l), rhs: Box::new(r) }
            },
        }
    }
}

} // verus!
