//! The token buffer, the entries it holds and the cursors that walk it.

use crate::diagnostics::Span;
use crate::parser::literal::Literal;
use std::cmp::Ordering;
use vstd::prelude::*;
use vstd::std_specs::cmp::{PartialEqSpecImpl, PartialOrdSpecImpl};

verus! {

/// A punctuation character.
#[derive(Debug, Clone, Copy, PartialEq, Eq, Hash, Structural)]
pub struct Punct {
    pub span: Span,
    pub ch: char,
}

/// One lexed unit: a literal or a punctuation character.
#[derive(Debug, PartialEq, Eq, Hash)]
pub enum Entry {
    Literal(Literal),
    Punct(Punct),
}

impl Clone for Entry {
    fn clone(&self) -> (copy: Entry)
        ensures
            copy == *self,
    {
        match self {
            Entry::Literal(lit) => Entry::Literal(lit.clone()),
            Entry::Punct(punct) => Entry::Punct(*punct),
        }
    }
}

impl Entry {
    /// The source range of the entry.
    pub open spec fn spec_span(self) -> Span {
        match self {
            Entry::Literal(lit) => lit.spec_span(),
            Entry::Punct(punct) => punct.span,
        }
    }

    /// The source range of the entry.
    pub fn span(&self) -> (span: Span)
        ensures
            span == self.spec_span(),
    {
        match self {
            Entry::Literal(lit) => lit.span(),
            Entry::Punct(punct) => punct.span,
        }
    }
}

/// The entries of one source, in their order. A buffer is filled once and
/// then only read.
#[derive(Debug, PartialEq, Eq)]
pub struct TokenBuffer {
    entries: Vec<Entry>,
}

impl View for TokenBuffer {
    type V = Seq<Entry>;

    closed spec fn view(&self) -> Seq<Entry> {
        self.entries@
    }
}

/// A position in a sequence of entries: that of one of them, or the end.
pub ghost struct CursorView {
    pub entries: Seq<Entry>,
    pub position: nat,
}

impl CursorView {
    /// Whether the position is the end of the entries.
    pub open spec fn eof(self) -> bool {
        self.position >= self.entries.len()
    }

    /// The entry at the position.
    pub open spec fn entry(self) -> Entry
        recommends
            !self.eof(),
    {
        self.entries[self.position as int]
    }

    /// The next position; the end is its own successor.
    pub open spec fn bump(self) -> CursorView {
        if self.eof() {
            self
        } else {
            CursorView { position: self.position + 1, ..self }
        }
    }

    /// The position reached by `n` single advances.
    pub open spec fn advance(self, n: nat) -> CursorView
        decreases n,
    {
        if n == 0 {
            self
        } else {
            self.bump().advance((n - 1) as nat)
        }
    }

    /// The literal at the position, where there is one.
    pub open spec fn literal(self) -> Option<Literal> {
        if self.eof() {
            None
        } else {
            match self.entry() {
                Entry::Literal(lit) => Some(lit),
                _ => None,
            }
        }
    }

    /// Advancing `n` times from a position that has `n` entries after it
    /// leads `n` entries further.
    pub proof fn lemma_advance(self, n: nat)
        requires
            self.position + n <= self.entries.len(),
        ensures
            self.advance(n) == (CursorView { position: self.position + n, ..self }),
        decreases n,
    {
        if n > 0 {
            self.bump().lemma_advance((n - 1) as nat);
        }
    }

    /// The distance between two positions in the same entries is the number
    /// of single advances that lead from the first to the second: so many
    /// advances arrive there, and fewer do not.
    pub proof fn lemma_offset_counts_advances(self, other: CursorView)
        requires
            other.follows(self),
            other.in_bounds(),
        ensures
            self.advance((other.position - self.position) as nat) == other,
            forall|n: nat| n < other.position - self.position ==> self.advance(n) != other,
    {
        self.lemma_advance((other.position - self.position) as nat);
        assert forall|n: nat| n < other.position - self.position implies self.advance(n)
            != other by {
            self.lemma_advance(n);
        }
    }

    /// Whether the position is one of the entries or their end.
    pub open spec fn in_bounds(self) -> bool {
        self.position <= self.entries.len()
    }

    /// Whether `self` is a position in the same entries as `earlier`, and not
    /// before it.
    pub open spec fn follows(self, earlier: CursorView) -> bool {
        self.entries == earlier.entries && earlier.position <= self.position
    }
}

/// A position in a [`TokenBuffer`]. Copying it is cheap, and it never
/// changes the buffer.
#[derive(Clone, Copy, Debug)]
pub struct Cursor<'a> {
    buffer: &'a TokenBuffer,
    index: usize,
}

impl<'a> View for Cursor<'a> {
    type V = CursorView;

    closed spec fn view(&self) -> CursorView {
        CursorView { entries: self.buffer@, position: self.index as nat }
    }
}

impl TokenBuffer {
    /// The buffer of `entries`.
    pub fn new(entries: Vec<Entry>) -> (buffer: TokenBuffer)
        ensures
            buffer@ == entries@,
    {
        TokenBuffer { entries }
    }

    /// The number of entries.
    pub fn len(&self) -> (len: usize)
        ensures
            len == self@.len(),
    {
        self.entries.len()
    }

    /// The buffer of the entries of `self`, then those of `other`.
    pub fn extend(self, other: TokenBuffer) -> (buffer: TokenBuffer)
        ensures
            buffer@ == self@ + other@,
    {
        let mut entries = self.entries;
        let mut rest = other.entries;
        entries.append(&mut rest);
        TokenBuffer { entries }
    }

    /// The position of the first entry.
    pub fn begin(&self) -> (cursor: Cursor<'_>)
        ensures
            cursor@ == (CursorView { entries: self@, position: 0 }),
    {
        Cursor { buffer: self, index: 0 }
    }
}

impl<'a> Cursor<'a> {
    /// A cursor is never beyond the end of its buffer.
    #[verifier::type_invariant]
    pub open spec fn in_bounds(self) -> bool {
        self@.in_bounds()
    }

    fn get(&self) -> (entry: Option<&'a Entry>)
        ensures
            match entry {
                Some(e) => !self@.eof() && *e == self@.entry(),
                None => self@.eof(),
            },
    {
        if self.index < self.buffer.entries.len() {
            Some(&self.buffer.entries[self.index])
        } else {
            None
        }
    }

    /// The next position. At the end, the cursor stays where it is.
    pub fn bump(self) -> (next: Cursor<'a>)
        ensures
            next@ == self@.bump(),
    {
        if self.index < self.buffer.entries.len() {
            Cursor { buffer: self.buffer, index: self.index + 1 }
        } else {
            self
        }
    }

    /// Whether the cursor is at the end of the buffer.
    pub fn eof(&self) -> (end: bool)
        ensures
            end == self@.eof(),
            self@.in_bounds(),
    {
        proof {
            use_type_invariant(self);
        }
        self.index >= self.buffer.entries.len()
    }

    /// The literal at the cursor and the position after it, if the entry at
    /// the cursor is a literal.
    pub fn literal(&self) -> (found: Option<(Literal, Cursor<'a>)>)
        ensures
            match found {
                Some((lit, rest)) => self@.literal() == Some(lit) && rest@ == self@.bump(),
                None => self@.literal() is None,
            },
    {
        match self.get() {
            Some(Entry::Literal(lit)) => Some((lit.clone(), self.bump())),
            _ => None,
        }
    }

    /// The entry at the cursor and the position after it, unless the cursor
    /// is at the end.
    pub fn any(&self) -> (found: Option<(Entry, Cursor<'a>)>)
        ensures
            match found {
                Some((entry, rest)) => !self@.eof() && entry == self@.entry() && rest@
                    == self@.bump(),
                None => self@.eof(),
            },
    {
        match self.get() {
            Some(entry) => Some((entry.clone(), self.bump())),
            None => None,
        }
    }

    /// The source range of the entry at the cursor.
    pub fn span(&self) -> (span: Span)
        requires
            !self@.eof(),
        ensures
            span == self@.entry().spec_span(),
    {
        match self.get() {
            Some(entry) => entry.span(),
            None => Span::empty(0),
        }
    }

    /// The number of single advances that lead from `self` to `other`, which
    /// is not before `self`.
    pub fn offset(&self, other: Cursor<'_>) -> (steps: usize)
        requires
            self@.position <= other@.position,
        ensures
            steps == other@.position - self@.position,
            other@.entries == self@.entries ==> self@.advance(steps as nat) == other@,
    {
        proof {
            use_type_invariant(&other);
            if other@.entries == self@.entries {
                self@.lemma_offset_counts_advances(other@);
            }
        }
        other.index - self.index
    }
}

/// Cursors are equal where their positions are.
impl<'a> PartialEq for Cursor<'a> {
    fn eq(&self, other: &Cursor<'a>) -> (equal: bool) {
        self.index == other.index
    }
}

impl<'a> PartialEqSpecImpl for Cursor<'a> {
    open spec fn obeys_eq_spec() -> bool {
        true
    }

    open spec fn eq_spec(&self, other: &Cursor<'a>) -> bool {
        self@.position == other@.position
    }
}

/// Cursors are ordered as their positions are.
impl<'a> PartialOrd for Cursor<'a> {
    fn partial_cmp(&self, other: &Cursor<'a>) -> (order: Option<Ordering>) {
        if self.index < other.index {
            Some(Ordering::Less)
        } else if self.index == other.index {
            Some(Ordering::Equal)
        } else {
            Some(Ordering::Greater)
        }
    }
}

impl<'a> PartialOrdSpecImpl for Cursor<'a> {
    open spec fn obeys_partial_cmp_spec() -> bool {
        true
    }

    open spec fn partial_cmp_spec(&self, other: &Cursor<'a>) -> Option<Ordering> {
        if self@.position < other@.position {
            Some(Ordering::Less)
        } else if self@.position == other@.position {
            Some(Ordering::Equal)
        } else {
            Some(Ordering::Greater)
        }
    }
}

} // verus!
