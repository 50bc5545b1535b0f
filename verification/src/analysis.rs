//! The semantic analysis of the arithmetic language: it finds every
//! division by a literal zero.

use crate::ast::{Ast, Op};
use crate::diagnostics::{error_at, views, Diagnostic, DiagnosticView, Span};
use vstd::prelude::*;

verus! {

/// The source range of `right` where `op` divides by it and it is the
/// literal zero.
pub open spec fn zero_divisor(op: Op, right: Ast) -> Option<Span> {
    match (op, right) {
        (Op::Div, Ast::Int { span, val }) => if val == 0 {
            Some(span)
        } else {
            None
        },
        _ => None,
    }
}

/// The literal zeros that `ast` divides by: those of the left operand, those
/// of the right operand, then the divisor of the operation itself.
pub open spec fn zero_divisors(ast: Ast) -> Seq<Span>
    decreases ast,
{
    match ast {
        Ast::Int { .. } => Seq::empty(),
        Ast::Op { op, left, right, .. } => zero_divisors(*left) + zero_divisors(*right) + (
        match zero_divisor(op, *right) {
            Some(span) => seq![span],
            None => Seq::empty(),
        }),
        Ast::Group { expr, .. } => zero_divisors(*expr),
    }
}

/// The diagnostic for a division by the literal zero at `span`.
pub open spec fn division_by_zero(span: Span) -> DiagnosticView {
    error_at("Cannot divide by 0"@, span, None)
}

/// One diagnostic for each of `spans`, in their order.
pub open spec fn divisions_by_zero(spans: Seq<Span>) -> Seq<DiagnosticView> {
    Seq::new(spans.len(), |i: int| division_by_zero(spans[i]))
}

/// The diagnostics of `ast`: one error for each division by a literal zero,
/// anchored at the zero.
pub fn analyze(ast: &Ast) -> (found: Vec<Diagnostic>)
    ensures
        views(found@) == divisions_by_zero(zero_divisors(*ast)),
{
    let mut found = Vec::new();
    analyze_ast(ast, &mut found);
    assert(views(found@) =~= divisions_by_zero(zero_divisors(*ast)));
    found
}

/// Adds the diagnostics of `ast` to `found`.
pub fn analyze_ast(ast: &Ast, found: &mut Vec<Diagnostic>)
    ensures
        views(final(found)@) == views(old(found)@) + divisions_by_zero(zero_divisors(*ast)),
    decreases *ast, 1int,
{
    match ast {
        Ast::Int { .. } => {
            assert(views(found@) =~= views(old(found)@) + divisions_by_zero(zero_divisors(*ast)));
        },
        Ast::Op { span, op, left, right } => analyze_op(*span, op, left, right, found),
        Ast::Group { expr, .. } => analyze_ast(expr, found),
    }
}

/// Adds the diagnostics of the operation `op` on `left` and `right` to `found`.
pub fn analyze_op(span: Span, op: &Op, left: &Ast, right: &Ast, found: &mut Vec<Diagnostic>)
    ensures
        views(final(found)@) == views(old(found)@) + divisions_by_zero(
            zero_divisors(Ast::operation(span, *op, *left, *right)),
        ),
    decreases Ast::operation(span, *op, *left, *right), 0int,
{
    analyze_ast(left, found);
    assert(decreases_to!(Ast::operation(span, *op, *left, *right) => *right)) by {
        let node = Ast::operation(span, *op, *left, *right);
        assert(*node->right == *right);
    }
    analyze_ast(right, found);
    let ghost operands = found@;
    if let Op::Div = op {
        if let Ast::Int { span, val } = right {
            if *val == 0 {
                found.push(Diagnostic::error("Cannot divide by 0", *span, None));
                assert(views(found@) =~= views(operands).push(division_by_zero(*span)));
            }
        }
    }
    assert(views(found@) =~= views(old(found)@) + divisions_by_zero(
        zero_divisors(Ast::operation(span, *op, *left, *right)),
    ));
}

} // verus!
