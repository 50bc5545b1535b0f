//! The grammar of the arithmetic language: integers, parenthesised groups
//! and the four operators, `*` and `/` binding tighter than `+` and `-`,
//! all of them associating to the left.

use crate::ast::{Ast, Op};
use crate::diagnostics::{error_at, Diagnostic, DiagnosticView, Span};
use crate::parser::buffer::{Cursor, CursorView, Entry};
use crate::parser::lexer::{lexed, Lexer};
use crate::parser::literal::{IntLiteral, Literal};
use crate::parser::parse::{Parse, ParseBuffer, StreamView};
use crate::parser::token::{parse_punct, peek_punct, punct_at, Token};
use vstd::prelude::*;
use vstd::string::StringSliceAdditionalSpecFns;

pub mod laws;

verus! {

/// The `+` sign, with the range it was read from.
#[derive(Debug, Clone, Copy, PartialEq, Eq, Structural)]
pub struct TAdd {
    pub span: Span,
}

impl Token for TAdd {
    open spec fn present(cursor: CursorView) -> bool {
        punct_at(cursor, '+')
    }

    open spec fn name() -> Seq<char> {
        "+"@
    }

    fn peek(cursor: Cursor) -> (found: bool) {
        peek_punct(cursor, '+')
    }

    fn display() -> (name: &'static str) {
        "+"
    }
}

impl<D> Parse<D> for TAdd {
    open spec fn accepts(s: StreamView<D>) -> bool {
        punct_at(s.cursor, '+')
    }

    open spec fn rest(s: StreamView<D>) -> StreamView<D> {
        if punct_at(s.cursor, '+') {
            s.next()
        } else {
            s
        }
    }

    open spec fn yields(s: StreamView<D>, node: TAdd) -> bool {
        node.span == s.span()
    }

    open spec fn rejection(s: StreamView<D>) -> DiagnosticView {
        error_at("expected `+`"@, s.span(), None)
    }

    fn parse<'a>(input: &mut ParseBuffer<'a, D>) -> (result: Result<TAdd, Diagnostic>) {
        match parse_punct(input, '+', "expected `+`") {
            Ok(span) => Ok(TAdd { span }),
            Err(diagnostic) => Err(diagnostic),
        }
    }
}

/// The `-` sign, with the range it was read from.
#[derive(Debug, Clone, Copy, PartialEq, Eq, Structural)]
pub struct TSub {
    pub span: Span,
}

impl Token for TSub {
    open spec fn present(cursor: CursorView) -> bool {
        punct_at(cursor, '-')
    }

    open spec fn name() -> Seq<char> {
        "-"@
    }

    fn peek(cursor: Cursor) -> (found: bool) {
        peek_punct(cursor, '-')
    }

    fn display() -> (name: &'static str) {
        "-"
    }
}

impl<D> Parse<D> for TSub {
    open spec fn accepts(s: StreamView<D>) -> bool {
        punct_at(s.cursor, '-')
    }

    open spec fn rest(s: StreamView<D>) -> StreamView<D> {
        if punct_at(s.cursor, '-') {
            s.next()
        } else {
            s
        }
    }

    open spec fn yields(s: StreamView<D>, node: TSub) -> bool {
        node.span == s.span()
    }

    open spec fn rejection(s: StreamView<D>) -> DiagnosticView {
        error_at("expected `-`"@, s.span(), None)
    }

    fn parse<'a>(input: &mut ParseBuffer<'a, D>) -> (result: Result<TSub, Diagnostic>) {
        match parse_punct(input, '-', "expected `-`") {
            Ok(span) => Ok(TSub { span }),
            Err(diagnostic) => Err(diagnostic),
        }
    }
}

/// The `*` sign, with the range it was read from.
#[derive(Debug, Clone, Copy, PartialEq, Eq, Structural)]
pub struct TMul {
    pub span: Span,
}

impl Token for TMul {
    open spec fn present(cursor: CursorView) -> bool {
        punct_at(cursor, '*')
    }

    open spec fn name() -> Seq<char> {
        "*"@
    }

    fn peek(cursor: Cursor) -> (found: bool) {
        peek_punct(cursor, '*')
    }

    fn display() -> (name: &'static str) {
        "*"
    }
}

impl<D> Parse<D> for TMul {
    open spec fn accepts(s: StreamView<D>) -> bool {
        punct_at(s.cursor, '*')
    }

    open spec fn rest(s: StreamView<D>) -> StreamView<D> {
        if punct_at(s.cursor, '*') {
            s.next()
        } else {
            s
        }
    }

    open spec fn yields(s: StreamView<D>, node: TMul) -> bool {
        node.span == s.span()
    }

    open spec fn rejection(s: StreamView<D>) -> DiagnosticView {
        error_at("expected `*`"@, s.span(), None)
    }

    fn parse<'a>(input: &mut ParseBuffer<'a, D>) -> (result: Result<TMul, Diagnostic>) {
        match parse_punct(input, '*', "expected `*`") {
            Ok(span) => Ok(TMul { span }),
            Err(diagnostic) => Err(diagnostic),
        }
    }
}

/// The `/` sign, with the range it was read from.
#[derive(Debug, Clone, Copy, PartialEq, Eq, Structural)]
pub struct TDiv {
    pub span: Span,
}

impl Token for TDiv {
    open spec fn present(cursor: CursorView) -> bool {
        punct_at(cursor, '/')
    }

    open spec fn name() -> Seq<char> {
        "/"@
    }

    fn peek(cursor: Cursor) -> (found: bool) {
        peek_punct(cursor, '/')
    }

    fn display() -> (name: &'static str) {
        "/"
    }
}

impl<D> Parse<D> for TDiv {
    open spec fn accepts(s: StreamView<D>) -> bool {
        punct_at(s.cursor, '/')
    }

    open spec fn rest(s: StreamView<D>) -> StreamView<D> {
        if punct_at(s.cursor, '/') {
            s.next()
        } else {
            s
        }
    }

    open spec fn yields(s: StreamView<D>, node: TDiv) -> bool {
        node.span == s.span()
    }

    open spec fn rejection(s: StreamView<D>) -> DiagnosticView {
        error_at("expected `/`"@, s.span(), None)
    }

    fn parse<'a>(input: &mut ParseBuffer<'a, D>) -> (result: Result<TDiv, Diagnostic>) {
        match parse_punct(input, '/', "expected `/`") {
            Ok(span) => Ok(TDiv { span }),
            Err(diagnostic) => Err(diagnostic),
        }
    }
}

/// The opening parenthesis, with the range it was read from.
#[derive(Debug, Clone, Copy, PartialEq, Eq, Structural)]
pub struct TLParen {
    pub span: Span,
}

impl Token for TLParen {
    open spec fn present(cursor: CursorView) -> bool {
        punct_at(cursor, '(')
    }

    open spec fn name() -> Seq<char> {
        "("@
    }

    fn peek(cursor: Cursor) -> (found: bool) {
        peek_punct(cursor, '(')
    }

    fn display() -> (name: &'static str) {
        "("
    }
}

impl<D> Parse<D> for TLParen {
    open spec fn accepts(s: StreamView<D>) -> bool {
        punct_at(s.cursor, '(')
    }

    open spec fn rest(s: StreamView<D>) -> StreamView<D> {
        if punct_at(s.cursor, '(') {
            s.next()
        } else {
            s
        }
    }

    open spec fn yields(s: StreamView<D>, node: TLParen) -> bool {
        node.span == s.span()
    }

    open spec fn rejection(s: StreamView<D>) -> DiagnosticView {
        error_at("expected `(`"@, s.span(), None)
    }

    fn parse<'a>(input: &mut ParseBuffer<'a, D>) -> (result: Result<TLParen, Diagnostic>) {
        match parse_punct(input, '(', "expected `(`") {
            Ok(span) => Ok(TLParen { span }),
            Err(diagnostic) => Err(diagnostic),
        }
    }
}

/// The closing parenthesis, with the range it was read from.
#[derive(Debug, Clone, Copy, PartialEq, Eq, Structural)]
pub struct TRParen {
    pub span: Span,
}

impl Token for TRParen {
    open spec fn present(cursor: CursorView) -> bool {
        punct_at(cursor, ')')
    }

    open spec fn name() -> Seq<char> {
        ")"@
    }

    fn peek(cursor: Cursor) -> (found: bool) {
        peek_punct(cursor, ')')
    }

    fn display() -> (name: &'static str) {
        ")"
    }
}

impl<D> Parse<D> for TRParen {
    open spec fn accepts(s: StreamView<D>) -> bool {
        punct_at(s.cursor, ')')
    }

    open spec fn rest(s: StreamView<D>) -> StreamView<D> {
        if punct_at(s.cursor, ')') {
            s.next()
        } else {
            s
        }
    }

    open spec fn yields(s: StreamView<D>, node: TRParen) -> bool {
        node.span == s.span()
    }

    open spec fn rejection(s: StreamView<D>) -> DiagnosticView {
        error_at("expected `)`"@, s.span(), None)
    }

    fn parse<'a>(input: &mut ParseBuffer<'a, D>) -> (result: Result<TRParen, Diagnostic>) {
        match parse_punct(input, ')', "expected `)`") {
            Ok(span) => Ok(TRParen { span }),
            Err(diagnostic) => Err(diagnostic),
        }
    }
}

/// What parsing an expression comes to: the tree or the diagnostic, and the
/// state in which the stream is left.
pub ghost struct Outcome {
    pub tree: Result<Ast, DiagnosticView>,
    pub rest: StreamView<()>,
}

/// Whether `result` is `expected`, a diagnostic being taken by its view.
pub open spec fn agrees(result: Result<Ast, Diagnostic>, expected: Result<Ast, DiagnosticView>) -> bool {
    match result {
        Ok(tree) => expected == Ok::<Ast, DiagnosticView>(tree),
        Err(diagnostic) => expected == Err::<Ast, DiagnosticView>(diagnostic@),
    }
}

/// The operator that the entry at `cursor` stands for, if it is `+` or `-`.
pub open spec fn additive(cursor: CursorView) -> Option<Op> {
    if punct_at(cursor, '+') {
        Some(Op::Add)
    } else if punct_at(cursor, '-') {
        Some(Op::Sub)
    } else {
        None
    }
}

/// The operator that the entry at `cursor` stands for, if it is `*` or `/`.
pub open spec fn multiplicative(cursor: CursorView) -> Option<Op> {
    if punct_at(cursor, '*') {
        Some(Op::Mul)
    } else if punct_at(cursor, '/') {
        Some(Op::Div)
    } else {
        None
    }
}

/// An integer literal as an expression. Its value is the low 64 bits of the
/// literal's magnitude.
pub open spec fn integer(s: StreamView<()>) -> Outcome {
    match s.cursor.literal() {
        Some(Literal::Int(lit)) => Outcome {
            tree: Ok(Ast::Int { span: lit.span, val: lit.int as u64 }),
            rest: s.next(),
        },
        _ => Outcome { tree: Err(error_at("expected an integer"@, s.span(), None)), rest: s },
    }
}

/// A primary expression: a group, which is an expression between
/// parentheses and spans from the one to the other, or else an integer.
pub open spec fn primary(s: StreamView<()>) -> Outcome
    decreases s.remaining(), 0int,
{
    if punct_at(s.cursor, '(') {
        let inner = sum(s.next());
        match inner.tree {
            Ok(expr) => if punct_at(inner.rest.cursor, ')') {
                Outcome {
                    tree: Ok(Ast::group(s.span().merge(inner.rest.span()), expr)),
                    rest: inner.rest.next(),
                }
            } else {
                Outcome {
                    tree: Err(error_at("expected `)`"@, inner.rest.span(), None)),
                    rest: inner.rest,
                }
            },
            Err(_) => inner,
        }
    } else {
        integer(s)
    }
}

/// A product: primary expressions with `*` and `/` between them.
pub open spec fn product(s: StreamView<()>) -> Outcome
    decreases s.remaining(), 2int,
{
    let first = primary(s);
    match first.tree {
        Ok(left) => if first.rest.follows(s) {
            product_from(s.span(), left, first.rest)
        } else {
            first
        },
        Err(_) => first,
    }
}

/// The product that starts at `start` with `left` and goes on in state `s`:
/// each operator takes what was read so far as its left operand and the next
/// primary expression as its right one, and spans from `start` to the end of
/// the right operand.
pub open spec fn product_from(start: Span, left: Ast, s: StreamView<()>) -> Outcome
    decreases s.remaining(), 1int,
{
    match multiplicative(s.cursor) {
        Some(op) => {
            let right = primary(s.next());
            match right.tree {
                Ok(operand) => if right.rest.follows(s.next()) {
                    product_from(
                        start,
                        Ast::operation(start.merge(right.rest.prev_span), op, left, operand),
                        right.rest,
                    )
                } else {
                    right
                },
                Err(_) => right,
            }
        },
        None => Outcome { tree: Ok(left), rest: s },
    }
}

/// A sum: products with `+` and `-` between them.
pub open spec fn sum(s: StreamView<()>) -> Outcome
    decreases s.remaining(), 4int,
{
    let first = product(s);
    match first.tree {
        Ok(left) => if first.rest.follows(s) {
            sum_from(s.span(), left, first.rest)
        } else {
            first
        },
        Err(_) => first,
    }
}

/// The sum that starts at `start` with `left` and goes on in state `s`:
/// each operator takes what was read so far as its left operand and the next
/// product as its right one, and spans from `start` to the end of the right
/// operand.
pub open spec fn sum_from(start: Span, left: Ast, s: StreamView<()>) -> Outcome
    decreases s.remaining(), 3int,
{
    match additive(s.cursor) {
        Some(op) => {
            let right = product(s.next());
            match right.tree {
                Ok(operand) => if right.rest.follows(s.next()) {
                    sum_from(
                        start,
                        Ast::operation(start.merge(right.rest.prev_span), op, left, operand),
                        right.rest,
                    )
                } else {
                    right
                },
                Err(_) => right,
            }
        },
        None => Outcome { tree: Ok(left), rest: s },
    }
}

/// The state of a stream at the start of `entries`, before anything of
/// `file` was consumed.
pub open spec fn start_of(entries: Seq<Entry>, file: u32) -> StreamView<()> {
    StreamView {
        cursor: CursorView { entries, position: 0 },
        prev_span: Span { file, start: 0, end: 0 },
        node_id: 0,
        data: (),
    }
}

/// The expression that the bytes `source` of `file` start with, or the first
/// error on the way to it: that of the lexer, else that of the grammar.
pub open spec fn parsed(source: Seq<u8>, file: u32) -> Result<Ast, DiagnosticView> {
    match lexed(source, file, 0) {
        Ok(entries) => sum(start_of(entries, file)).tree,
        Err(error) => Err(error),
    }
}

/// Reads the expression at the start of `source`, the text of `file`.
pub fn parse(source: &str, file: u32) -> (result: Result<Ast, Diagnostic>)
    ensures
        agrees(result, parsed(source.spec_bytes(), file)),
{
    let lexer = Lexer::new(source, file);
    let tokens = lexer.run()?;
    let mut buffer = ParseBuffer::new(tokens.begin(), (), Span::empty(file));

    Ast::parse_add_sub(&mut buffer)
}

impl Ast {
    /// Reads a sum from `input`.
    pub fn parse_add_sub<'a>(input: &mut ParseBuffer<'a, ()>) -> (result: Result<Ast, Diagnostic>)
        ensures
            final(input)@ == sum(old(input)@).rest,
            final(input)@.follows(old(input)@),
            agrees(result, sum(old(input)@).tree),
        decreases old(input)@.remaining(), 4int,
    {
        let start = input.span();
        let mut result = Self::parse_mul_div(input)?;

        while !input.is_empty() && (input.peek::<TAdd>() || input.peek::<TSub>())
            invariant
                input@.follows(old(input)@),
                sum(old(input)@) == sum_from(start, result, input@),
            decreases input@.remaining(),
        {
            if let Ok(_) = input.parse::<TAdd>() {
                let right = Self::parse_mul_div(input)?;

                result = Ast::Op {
                    span: start.to(input.prev_span()),
                    op: Op::Add,
                    left: Box::new(result),
                    right: Box::new(right),
                };
            } else {
                input.parse::<TSub>()?;

                let right = Self::parse_mul_div(input)?;

                result = Ast::Op {
                    span: start.to(input.prev_span()),
                    op: Op::Sub,
                    left: Box::new(result),
                    right: Box::new(right),
                };
            }
        }

        Ok(result)
    }

    /// Reads a product from `input`.
    pub fn parse_mul_div<'a>(input: &mut ParseBuffer<'a, ()>) -> (result: Result<Ast, Diagnostic>)
        ensures
            final(input)@ == product(old(input)@).rest,
            final(input)@.follows(old(input)@),
            agrees(result, product(old(input)@).tree),
        decreases old(input)@.remaining(), 2int,
    {
        let start = input.span();
        let mut result = Self::parse_int(input)?;

        while !input.is_empty() && (input.peek::<TMul>() || input.peek::<TDiv>())
            invariant
                input@.follows(old(input)@),
                product(old(input)@) == product_from(start, result, input@),
            decreases input@.remaining(),
        {
            if let Ok(_) = input.parse::<TMul>() {
                let right = Self::parse_int(input)?;

                result = Ast::Op {
                    span: start.to(input.prev_span()),
                    op: Op::Mul,
                    left: Box::new(result),
                    right: Box::new(right),
                };
            } else {
                input.parse::<TDiv>()?;

                let right = Self::parse_int(input)?;

                result = Ast::Op {
                    span: start.to(input.prev_span()),
                    op: Op::Div,
                    left: Box::new(result),
                    right: Box::new(right),
                };
            }
        }

        Ok(result)
    }

    /// Reads a primary expression from `input`.
    pub fn parse_int<'a>(input: &mut ParseBuffer<'a, ()>) -> (result: Result<Ast, Diagnostic>)
        ensures
            final(input)@ == primary(old(input)@).rest,
            final(input)@.follows(old(input)@),
            agrees(result, primary(old(input)@).tree),
        decreases old(input)@.remaining(), 0int,
    {
        if let Ok(lparen) = input.parse::<TLParen>() {
            let sub = Self::parse_add_sub(input)?;

            input.parse::<TRParen>()?;

            Ok(Ast::Group { span: lparen.span.to(input.prev_span()), expr: Box::new(sub) })
        } else {
            let lit = input.parse::<IntLiteral>()?;

            Ok(Ast::Int { span: lit.span, val: #[verifier::truncate] (lit.int as u64) })
        }
    }
}

} // verus!
