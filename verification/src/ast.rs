//! The syntax tree of the arithmetic language.

use crate::diagnostics::Span;
use crate::text::{decimal, decimal_string};
use vstd::prelude::*;
use vstd::string::StringExecFns;

verus! {

/// A binary operator.
#[derive(Debug, Clone, Copy, PartialEq, Eq, Structural)]
pub enum Op {
    Add,
    Sub,
    Mul,
    Div,
}

/// An expression: an integer, a binary operation or a parenthesised group.
#[derive(Debug, PartialEq)]
pub enum Ast {
    Int { span: Span, val: u64 },
    Op { span: Span, op: Op, left: Box<Ast>, right: Box<Ast> },
    Group { span: Span, expr: Box<Ast> },
}

impl Op {
    /// The sign of the operator.
    pub open spec fn sign(self) -> Seq<char> {
        match self {
            Op::Add => "+"@,
            Op::Sub => "-"@,
            Op::Mul => "*"@,
            Op::Div => "/"@,
        }
    }

    /// The sign of the operator.
    pub fn to_string(&self) -> (text: String)
        ensures
            text@ == self.sign(),
    {
        match self {
            Op::Add => "+".to_owned(),
            Op::Sub => "-".to_owned(),
            Op::Mul => "*".to_owned(),
            Op::Div => "/".to_owned(),
        }
    }
}

impl Ast {
    /// The expression as it is written: an integer in decimal, an operation
    /// as its operands with the sign between them, set off by spaces, and a
    /// group between parentheses.
    pub open spec fn text(self) -> Seq<char>
        decreases self,
    {
        match self {
            Ast::Int { val, .. } => decimal(val as nat),
            Ast::Op { op, left, right, .. } => left.text() + " "@ + op.sign() + " "@ + right.text(),
            Ast::Group { expr, .. } => "("@ + expr.text() + ")"@,
        }
    }

    /// The expression as it is written.
    pub fn to_string(&self) -> (text: String)
        ensures
            text@ == self.text(),
        decreases self,
    {
        match self {
            Ast::Int { val, .. } => decimal_string(*val as u128),
            Ast::Op { op, left, right, .. } => {
                let mut text = left.to_string();
                text.append(" ");
                text.append(op.to_string().as_str());
                text.append(" ");
                text.append(right.to_string().as_str());
                text
            },
            Ast::Group { expr, .. } => {
                let mut text = "(".to_owned();
                text.append(expr.to_string().as_str());
                text.append(")");
                text
            },
        }
    }

    /// The operation `op` on `left` and `right`, read from `span`.
    pub open spec fn operation(span: Span, op: Op, left: Ast, right: Ast) -> Ast {
        Ast::Op { span, op, left: Box::new(left), right: Box::new(right) }
    }

    /// The group around `expr`, read from `span`.
    pub open spec fn group(span: Span, expr: Ast) -> Ast {
        Ast::Group { span, expr: Box::new(expr) }
    }

    /// The source range the expression was read from.
    pub open spec fn spec_span(self) -> Span {
        match self {
            Ast::Int { span, .. } => span,
            Ast::Op { span, .. } => span,
            Ast::Group { span, .. } => span,
        }
    }
}

impl Clone for Ast {
    fn clone(&self) -> (tree: Ast)
        ensures
            tree == *self,
        decreases self,
    {
        match self {
            Ast::Int { span, val } => Ast::Int { span: *span, val: *val },
            Ast::Op { span, op, left, right } => Ast::Op {
                span: *span,
                op: *op,
                left: Box::new((&**left).clone()),
                right: Box::new((&**right).clone()),
            },
            Ast::Group { span, expr } => Ast::Group { span: *span, expr: Box::new((&**expr).clone()) },
        }
    }
}

} // verus!
