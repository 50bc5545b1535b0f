//! Evaluation of an expression over unsigned 64-bit integers.

use crate::ast::{Ast, Op};
use vstd::prelude::*;

verus! {

/// The value of `op` on `left` and `right` as mathematical integers.
/// Division rounds down; by zero it has no value.
pub open spec fn apply(op: Op, left: int, right: int) -> Option<int> {
    match op {
        Op::Add => Some(left + right),
        Op::Sub => Some(left - right),
        Op::Mul => Some(left * right),
        Op::Div => if right == 0 {
            None
        } else {
            Some(left / right)
        },
    }
}

/// The value of `ast`, where every intermediate result fits in 64 bits
/// without sign and no division is by zero; `None` otherwise.
pub open spec fn value(ast: Ast) -> Option<int>
    decreases ast,
{
    match ast {
        Ast::Int { val, .. } => Some(val as int),
        Ast::Op { op, left, right, .. } => match (value(*left), value(*right)) {
            (Some(l), Some(r)) => match apply(op, l, r) {
                Some(v) => if 0 <= v <= u64::MAX {
                    Some(v)
                } else {
                    None
                },
                None => None,
            },
            _ => None,
        },
        Ast::Group { expr, .. } => value(*expr),
    }
}

/// A value of an expression is an unsigned 64-bit integer.
pub proof fn lemma_value_in_range(ast: Ast)
    ensures
        value(ast) matches Some(v) ==> 0 <= v <= u64::MAX,
    decreases ast,
{
    match ast {
        Ast::Int { .. } => {},
        Ast::Op { .. } => {},
        Ast::Group { expr, .. } => lemma_value_in_range(*expr),
    }
}

/// Evaluates `ast`, or finds that it has no value.
pub fn try_run(ast: &Ast) -> (result: Option<u64>)
    ensures
        match result {
            Some(v) => value(*ast) == Some(v as int),
            None => value(*ast) is None,
        },
    decreases ast,
{
    match ast {
        Ast::Int { val, .. } => Some(*val),
        Ast::Op { op, left, right, .. } => {
            let left = match try_run(left) {
                Some(v) => v,
                None => return None,
            };
            let right = match try_run(right) {
                Some(v) => v,
                None => return None,
            };
            match op {
                Op::Add => left.checked_add(right),
                Op::Sub => left.checked_sub(right),
                Op::Mul => left.checked_mul(right),
                Op::Div => left.checked_div(right),
            }
        },
        Ast::Group { expr, .. } => try_run(expr),
    }
}

/// Evaluates an expression that has a value.
pub fn run(ast: &Ast) -> (result: u64)
    requires
        value(*ast) is Some,
    ensures
        value(*ast) == Some(result as int),
    decreases ast,
{
    match ast {
        Ast::Int { val, .. } => *val,
        Ast::Op { op, left, right, .. } => {
            let left = run(left);
            let right = run(right);
            match op {
                Op::Add => left + right,
                Op::Sub => left - right,
                Op::Mul => left * right,
                Op::Div => left / right,
            }
        },
        Ast::Group { expr, .. } => run(expr),
    }
}

} // verus!
