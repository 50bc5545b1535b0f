//! The lexer of the arithmetic language: unsigned decimal integers, the
//! signs `+ - * / ( )` and white space between them.

use crate::diagnostics::{error_at, Diagnostic, DiagnosticView, Span};
use crate::parser::buffer::{Entry, Punct, TokenBuffer};
use crate::parser::literal::{IntLiteral, IntType, Literal};
use vstd::prelude::*;
use vstd::string::StringSliceAdditionalSpecFns;

verus! {

/// Whether `byte` is a space, a tab, a line feed or a carriage return.
pub open spec fn is_space(byte: u8) -> bool {
    byte == 0x20 || byte == 0x09 || byte == 0x0a || byte == 0x0d
}

/// Whether `byte` is a decimal digit.
pub open spec fn is_digit(byte: u8) -> bool {
    0x30 <= byte <= 0x39
}

/// Whether `byte` is one of `+ - * / ( )`.
pub open spec fn is_sign(byte: u8) -> bool {
    byte == 0x2b || byte == 0x2d || byte == 0x2a || byte == 0x2f || byte == 0x28 || byte == 0x29
}

/// The end of the run of digits in `bytes` that starts at `from`.
pub open spec fn digits_end(bytes: Seq<u8>, from: int) -> int
    decreases bytes.len() - from,
{
    if 0 <= from < bytes.len() && is_digit(bytes[from]) {
        digits_end(bytes, from + 1)
    } else {
        from
    }
}

/// The number that the digits of `bytes` from `from` up to `to` denote.
pub open spec fn number(bytes: Seq<u8>, from: int, to: int) -> nat
    decreases to - from,
{
    if to <= from {
        0
    } else {
        (number(bytes, from, to - 1) * 10 + (bytes[to - 1] - 0x30)) as nat
    }
}

/// The range of the bytes from `start` up to `end` in `file`.
pub open spec fn range(file: u32, start: int, end: int) -> Span {
    Span { file, start: start as usize, end: end as usize }
}

/// The entry for the sign `byte` at `at`.
pub open spec fn sign_entry(file: u32, at: int, byte: u8) -> Entry {
    Entry::Punct(Punct { span: range(file, at, at + 1), ch: byte as char })
}

/// The entry for the integer `magnitude` written from `start` up to `end`.
pub open spec fn int_entry(file: u32, start: int, end: int, magnitude: nat) -> Entry {
    Entry::Literal(
        Literal::Int(IntLiteral { span: range(file, start, end), int: magnitude as u128, ty: IntType::Unknown }),
    )
}

/// A run of digits ends after its start and within the bytes.
pub proof fn lemma_digits_end(bytes: Seq<u8>, from: int)
    requires
        0 <= from <= bytes.len(),
    ensures
        from <= digits_end(bytes, from) <= bytes.len(),
        from < bytes.len() && is_digit(bytes[from]) ==> from < digits_end(bytes, from),
        forall|i: int| from <= i < digits_end(bytes, from) ==> is_digit(#[trigger] bytes[i]),
        digits_end(bytes, from) < bytes.len() ==> !is_digit(bytes[digits_end(bytes, from)]),
    decreases bytes.len() - from,
{
    if from < bytes.len() && is_digit(bytes[from]) {
        lemma_digits_end(bytes, from + 1);
    }
}

/// The entries of `bytes` from `from` on, or the first error in them. White
/// space is passed over; a sign is an entry of its own; a run of digits is
/// one integer, which must fit in 128 bits; any other byte is an error.
pub open spec fn lexed(bytes: Seq<u8>, file: u32, from: int) -> Result<Seq<Entry>, DiagnosticView>
    decreases bytes.len() - from,
{
    if from < 0 || from >= bytes.len() {
        Ok(Seq::empty())
    } else if is_space(bytes[from]) {
        lexed(bytes, file, from + 1)
    } else if is_sign(bytes[from]) {
        match lexed(bytes, file, from + 1) {
            Ok(rest) => Ok(seq![sign_entry(file, from, bytes[from])] + rest),
            Err(error) => Err(error),
        }
    } else if is_digit(bytes[from]) {
        let end = digits_end(bytes, from);
        let magnitude = number(bytes, from, end);
        if magnitude > u128::MAX {
            Err(error_at("integer literal is too large"@, range(file, from, end), None))
        } else {
            proof {
                lemma_digits_end(bytes, from);
            }
            match lexed(bytes, file, end) {
                Ok(rest) => Ok(seq![int_entry(file, from, end, magnitude)] + rest),
                Err(error) => Err(error),
            }
        }
    } else {
        Err(error_at("unexpected character"@, range(file, from, from + 1), None))
    }
}

/// A lexer over the bytes of one source file.
pub struct Lexer<'a> {
    source: &'a [u8],
    file: u32,
}

impl<'a> Lexer<'a> {
    /// The bytes that the lexer reads.
    pub closed spec fn bytes(self) -> Seq<u8> {
        self.source@
    }

    /// The file that the ranges of the entries name.
    pub closed spec fn file(self) -> u32 {
        self.file
    }

    /// A lexer over `source`, whose ranges are in `file`.
    pub fn new(source: &'a str, file: u32) -> (lexer: Lexer<'a>)
        ensures
            lexer.bytes() == source.spec_bytes(),
            lexer.file() == file,
    {
        Lexer { source: source.as_bytes(), file }
    }

    /// Reads the integer whose first digit is at `start`.
    fn integer(&self, start: usize) -> (result: (Option<u128>, usize))
        requires
            start < self.bytes().len(),
            is_digit(self.bytes()[start as int]),
        ensures
            result.1 == digits_end(self.bytes(), start as int),
            start < result.1 <= self.bytes().len(),
            match result.0 {
                Some(magnitude) => magnitude == number(self.bytes(), start as int, result.1 as int),
                None => number(self.bytes(), start as int, result.1 as int) > u128::MAX,
            },
    {
        let ghost bytes = self.source@;
        let ghost end = digits_end(bytes, start as int);
        proof {
            lemma_digits_end(bytes, start as int);
        }
        let mut value: Option<u128> = Some(0);
        let mut i = start;
        while i < self.source.len() && self.source[i] >= 0x30 && self.source[i] <= 0x39
            invariant
                bytes == self.source@,
                start <= i <= end <= bytes.len(),
                end == digits_end(bytes, start as int),
                end == digits_end(bytes, i as int),
                forall|j: int| start <= j < end ==> is_digit(#[trigger] bytes[j]),
                match value {
                    Some(magnitude) => magnitude == number(bytes, start as int, i as int),
                    None => number(bytes, start as int, i as int) > u128::MAX,
                },
            decreases bytes.len() - i,
        {
            let digit = (self.source[i] - 0x30) as u128;
            proof {
                lemma_digits_end(bytes, i + 1);
            }
            value = match value {
                Some(magnitude) => match magnitude.checked_mul(10) {
                    Some(tens) => tens.checked_add(digit),
                    None => None,
                },
                None => None,
            };
            i += 1;
        }
        (value, i)
    }

    /// The entries of the source, or the first error in it.
    pub fn run(&self) -> (result: Result<TokenBuffer, Diagnostic>)
        ensures
            match result {
                Ok(buffer) => lexed(self.bytes(), self.file(), 0) == Ok::<Seq<Entry>, DiagnosticView>(
                    buffer@,
                ),
                Err(diagnostic) => lexed(self.bytes(), self.file(), 0) == Err::<
                    Seq<Entry>,
                    DiagnosticView,
                >(diagnostic@),
            },
    {
        let ghost bytes = self.source@;
        let file = self.file;
        let mut entries: Vec<Entry> = Vec::new();
        let mut i: usize = 0;
        while i < self.source.len()
            invariant
                bytes == self.source@,
                file == self.file,
                i <= bytes.len(),
                lexed(bytes, file, 0) == match lexed(bytes, file, i as int) {
                    Ok(rest) => Ok::<Seq<Entry>, DiagnosticView>(entries@ + rest),
                    Err(error) => Err(error),
                },
            decreases bytes.len() - i,
        {
            let byte = self.source[i];
            let ghost before = entries@;
            if byte == 0x20 || byte == 0x09 || byte == 0x0a || byte == 0x0d {
                i += 1;
            } else if byte == 0x2b || byte == 0x2d || byte == 0x2a || byte == 0x2f || byte == 0x28
                || byte == 0x29 {
                let span = Span { file, start: i, end: i + 1 };
                entries.push(Entry::Punct(Punct { span, ch: byte as char }));
                proof {
                    assert forall|rest: Seq<Entry>| #[trigger]
                        (before + (seq![sign_entry(file, i as int, byte)] + rest)) == entries@
                            + rest by {
                        assert(before + (seq![sign_entry(file, i as int, byte)] + rest) =~= entries@
                            + rest);
                    }
                }
                i += 1;
            } else if byte >= 0x30 && byte <= 0x39 {
                let (value, end) = self.integer(i);
                let span = Span { file, start: i, end };
                match value {
                    Some(magnitude) => {
                        entries.push(
                            Entry::Literal(
                                Literal::Int(IntLiteral { span, int: magnitude, ty: IntType::Unknown }),
                            ),
                        );
                        proof {
                            assert forall|rest: Seq<Entry>| #[trigger]
                                (before + (seq![int_entry(file, i as int, end as int, magnitude as nat)]
                                    + rest)) == entries@ + rest by {
                                assert(before + (seq![
                                    int_entry(file, i as int, end as int, magnitude as nat),
                                ] + rest) =~= entries@ + rest);
                            }
                        }
                        i = end;
                    },
                    None => {
                        return Err(Diagnostic::error("integer literal is too large", span, None));
                    },
                }
            } else {
                let span = Span { file, start: i, end: i + 1 };
                return Err(Diagnostic::error("unexpected character", span, None));
            }
        }
        assert(entries@ + Seq::<Entry>::empty() =~= entries@);
        Ok(TokenBuffer::new(entries))
    }
}

} // verus!
