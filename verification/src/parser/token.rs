//! The capability of being looked for without being consumed.

use crate::diagnostics::{error_at, Diagnostic, Span};
use crate::parser::buffer::{Cursor, CursorView, Entry};
use crate::parser::parse::{ParseBuffer, StepCursor};
use vstd::prelude::*;

verus! {

/// A kind of token or node whose presence can be tested at a cursor.
pub trait Token {
    /// Whether an instance of the kind starts at `cursor`.
    spec fn present(cursor: CursorView) -> bool;

    /// The name of the kind, as messages give it.
    spec fn name() -> Seq<char>;

    /// Whether an instance of the kind starts at `cursor`. At the end of the
    /// input none does.
    fn peek(cursor: Cursor) -> (found: bool)
        ensures
            found == Self::present(cursor@),
            cursor@.eof() ==> !found,
    ;

    /// The name of the kind for "expected ..." messages.
    fn display() -> (name: &'static str)
        ensures
            name@ == Self::name(),
    ;
}

/// Whether the punctuation character `ch` is the entry at `cursor`.
pub open spec fn punct_at(cursor: CursorView, ch: char) -> bool {
    &&& !cursor.eof()
    &&& cursor.entry() matches Entry::Punct(punct)
    &&& punct.ch == ch
}

/// Whether the punctuation character `ch` is the entry at `cursor`.
pub fn peek_punct(cursor: Cursor, ch: char) -> (found: bool)
    ensures
        found == punct_at(cursor@, ch),
{
    match cursor.any() {
        Some((Entry::Punct(punct), _)) => punct.ch == ch,
        _ => false,
    }
}

/// The step of reading the punctuation character `ch` at `start`.
fn punct_step<'a>(start: StepCursor<'a>, ch: char, message: &str) -> (result: Result<
    (Span, Cursor<'a>),
    Diagnostic,
>)
    ensures
        match result {
            Ok((span, rest)) => punct_at(start@.cursor, ch) && span
                == start@.cursor.entry().spec_span() && rest@ == start@.cursor.bump(),
            Err(diagnostic) => !punct_at(start@.cursor, ch) && diagnostic@ == error_at(
                message@,
                start@.span,
                None,
            ),
        },
{
    match start.any() {
        Some((Entry::Punct(punct), rest)) => {
            if punct.ch == ch {
                Ok((punct.span, rest))
            } else {
                Err(start.error(message))
            }
        },
        _ => Err(start.error(message)),
    }
}

/// Consumes the punctuation character `ch` and returns its range. Where the
/// entry at the position is anything else, nothing is consumed and the
/// failure says `message` about the range at the position.
pub fn parse_punct<'a, D>(input: &mut ParseBuffer<'a, D>, ch: char, message: &str) -> (result:
    Result<Span, Diagnostic>)
    ensures
        final(input)@.follows(old(input)@),
        match result {
            Ok(span) => punct_at(old(input)@.cursor, ch) && span == old(input)@.span()
                && final(input)@ == old(input)@.next(),
            Err(diagnostic) => !punct_at(old(input)@.cursor, ch) && final(input)@ == old(input)@
                && diagnostic@ == error_at(message@, old(input)@.span(), None),
        },
{
    let step = |start: StepCursor<'a>| -> (result: Result<(Span, Cursor<'a>), Diagnostic>)
        ensures
            match result {
                Ok((span, rest)) => punct_at(start@.cursor, ch) && span
                    == start@.cursor.entry().spec_span() && rest@ == start@.cursor.bump(),
                Err(diagnostic) => !punct_at(start@.cursor, ch) && diagnostic@ == error_at(
                    message@,
                    start@.span,
                    None,
                ),
            },
        { punct_step(start, ch, message) };
    input.step(step)
}

} // verus!
