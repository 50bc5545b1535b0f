//! The stream that node types are parsed from, and the capabilities of
//! being parsed and of being turned back into tokens.

use crate::diagnostics::{error_at, Diagnostic, DiagnosticView, Span};
use crate::parser::buffer::{Cursor, CursorView, Entry, TokenBuffer};
use crate::parser::literal::{FloatLiteral, IntLiteral, Literal, StringLiteral};
use crate::parser::token::Token;
use vstd::prelude::*;

verus! {

/// The state of a stream: where it stands in which entries, the range it
/// consumed last, the next node number and the context it carries.
pub ghost struct StreamView<D> {
    pub cursor: CursorView,
    pub prev_span: Span,
    pub node_id: usize,
    pub data: D,
}

impl<D> StreamView<D> {
    /// Whether nothing is left to read.
    pub open spec fn eof(self) -> bool {
        self.cursor.eof()
    }

    /// The range of the entry at the position; at the end, the range that
    /// was consumed last.
    pub open spec fn span(self) -> Span {
        if self.cursor.eof() {
            self.prev_span
        } else {
            self.cursor.entry().spec_span()
        }
    }

    /// The number of entries that are left to read.
    pub open spec fn remaining(self) -> int {
        self.cursor.entries.len() - self.cursor.position
    }

    /// The state after a step that ended at `rest`: the position is `rest`,
    /// and the range consumed last is the one the step started at.
    pub open spec fn stepped(self, rest: CursorView) -> StreamView<D> {
        StreamView { cursor: rest, prev_span: self.span(), ..self }
    }

    /// The state after the entry at the position was consumed.
    pub open spec fn next(self) -> StreamView<D> {
        self.stepped(self.cursor.bump())
    }

    /// Whether `self` can come after `earlier` in the life of one stream:
    /// the same entries and context, a position in them and a node number
    /// that are not smaller.
    pub open spec fn follows(self, earlier: StreamView<D>) -> bool {
        &&& self.cursor.follows(earlier.cursor)
        &&& self.cursor.in_bounds()
        &&& self.data == earlier.data
        &&& self.node_id >= earlier.node_id
    }

    /// What a step is started with.
    pub open spec fn step_cursor(self) -> StepCursorView {
        StepCursorView { span: self.span(), cursor: self.cursor }
    }
}

/// What a step hands to its closure: the position of the stream and the
/// range that an error of the step is about.
pub ghost struct StepCursorView {
    pub span: Span,
    pub cursor: CursorView,
}

/// A node type that can be read from a stream.
///
/// What `parse` does is a function of the state of the stream: `accepts`
/// says whether it succeeds, `rest` in which state it leaves the stream,
/// `yields` which value it returns and `rejection` with which diagnostic it
/// fails.
pub trait Parse<D = ()>: Sized {
    /// Whether parsing succeeds on a stream in state `s`.
    spec fn accepts(s: StreamView<D>) -> bool;

    /// The state in which parsing leaves a stream that was in state `s`.
    spec fn rest(s: StreamView<D>) -> StreamView<D>;

    /// Whether `node` is what parsing returns on a stream in state `s` that
    /// it accepts.
    spec fn yields(s: StreamView<D>, node: Self) -> bool;

    /// The diagnostic of parsing on a stream in state `s` that it does not
    /// accept.
    spec fn rejection(s: StreamView<D>) -> DiagnosticView;

    /// Reads a node from `input`.
    fn parse<'a>(input: &mut ParseBuffer<'a, D>) -> (result: Result<Self, Diagnostic>)
        ensures
            final(input)@ == Self::rest(old(input)@),
            final(input)@.follows(old(input)@),
            match result {
                Ok(node) => Self::accepts(old(input)@) && Self::yields(old(input)@, node),
                Err(diagnostic) => !Self::accepts(old(input)@) && diagnostic@ == Self::rejection(
                    old(input)@,
                ),
            },
    ;
}

/// A node type that can be turned back into the entries it stands for.
pub trait ToTokens {
    /// The entries that the node stands for.
    spec fn tokens(&self) -> Seq<Entry>;

    /// A buffer of the entries that the node stands for.
    fn to_tokens(&self) -> (buffer: TokenBuffer)
        ensures
            buffer@ == self.tokens(),
    ;
}

/// One attempt at parsing: a position in a token buffer that only `step`
/// moves, the range consumed last, a counter for numbering nodes and a
/// context that every nested parse sees.
pub struct ParseBuffer<'a, D = ()> {
    pub data: D,
    pub node_id: usize,
    cursor: Cursor<'a>,
    prev_span: Span,
}

impl<'a, D> View for ParseBuffer<'a, D> {
    type V = StreamView<D>;

    closed spec fn view(&self) -> StreamView<D> {
        StreamView {
            cursor: self.cursor@,
            prev_span: self.prev_span,
            node_id: self.node_id,
            data: self.data,
        }
    }
}

/// The position a step starts at, with the range that an error of the step
/// is reported at.
pub struct StepCursor<'a> {
    span: Span,
    cursor: Cursor<'a>,
}

impl<'a> View for StepCursor<'a> {
    type V = StepCursorView;

    closed spec fn view(&self) -> StepCursorView {
        StepCursorView { span: self.span, cursor: self.cursor@ }
    }
}

impl<'a> std::ops::Deref for StepCursor<'a> {
    type Target = Cursor<'a>;

    fn deref(&self) -> (cursor: &Cursor<'a>)
        ensures
            cursor@ == self@.cursor,
    {
        &self.cursor
    }
}

impl<'a> StepCursor<'a> {
    /// The error that says `message` about the range the step started at.
    pub fn error(self, message: &str) -> (diagnostic: Diagnostic)
        ensures
            diagnostic@ == error_at(message@, self@.span, None),
    {
        Diagnostic::error(message, self.span, None)
    }
}

impl<'a, D> ParseBuffer<'a, D> {
    /// A stream that starts at `cursor`. `start` is the range it reports
    /// until something was consumed.
    pub fn new(cursor: Cursor<'a>, data: D, start: Span) -> (stream: ParseBuffer<'a, D>)
        ensures
            stream@ == (StreamView { cursor: cursor@, prev_span: start, node_id: 0, data }),
    {
        ParseBuffer { data, node_id: 0, cursor, prev_span: start }
    }

    /// The context that every nested parse sees.
    pub fn data(&self) -> (data: &D)
        ensures
            *data == self@.data,
    {
        &self.data
    }

    /// The number that the next node gets.
    pub fn node_id(&self) -> (id: usize)
        ensures
            id == self@.node_id,
    {
        self.node_id
    }

    /// Sets the number that the next node gets. Nothing else changes.
    pub fn set_node_id(&mut self, id: usize)
        ensures
            final(self)@ == (StreamView { node_id: id, ..old(self)@ }),
    {
        self.node_id = id;
    }

    /// Hands out the number of a new node and counts on. When the numbers
    /// of the machine are used up, there is none and nothing changes.
    pub fn next_node_id(&mut self) -> (id: Option<usize>)
        ensures
            final(self)@.follows(old(self)@),
            match id {
                Some(n) => n == old(self)@.node_id && n < usize::MAX && final(self)@ == (StreamView {
                    node_id: (n + 1) as usize,
                    ..old(self)@
                }),
                None => old(self)@.node_id == usize::MAX && final(self)@ == old(self)@,
            },
    {
        proof {
            use_type_invariant(&self.cursor);
        }
        let id = self.node_id;
        if id < usize::MAX {
            self.node_id = id + 1;
            Some(id)
        } else {
            None
        }
    }

    /// The position of the stream.
    pub fn cursor(&self) -> (cursor: Cursor<'a>)
        ensures
            cursor@ == self@.cursor,
            cursor@.in_bounds(),
    {
        proof {
            use_type_invariant(&self.cursor);
        }
        self.cursor
    }

    /// Whether nothing is left to read.
    pub fn is_empty(&self) -> (empty: bool)
        ensures
            empty == self@.eof(),
            self@.cursor.in_bounds(),
    {
        self.cursor().eof()
    }

    /// The range of the entry at the position; at the end of the input, the
    /// range that was consumed last.
    pub fn span(&self) -> (span: Span)
        ensures
            span == self@.span(),
    {
        if self.is_empty() {
            self.prev_span
        } else {
            self.cursor().span()
        }
    }

    /// The range that the last step started at.
    pub fn prev_span(&self) -> (span: Span)
        ensures
            span == self@.prev_span,
    {
        self.prev_span
    }

    /// The failure that says `message` about the range at the position.
    pub fn error<T>(&self, message: &str, code: Option<u16>) -> (result: Result<T, Diagnostic>)
        ensures
            result matches Err(diagnostic) && diagnostic@ == error_at(message@, self@.span(), code),
    {
        Err(Diagnostic::error(message, self.span(), code))
    }

    /// The failure that says `message` about `span`.
    pub fn error_at<T>(&self, message: &str, span: Span, code: Option<u16>) -> (result: Result<
        T,
        Diagnostic,
    >)
        ensures
            result matches Err(diagnostic) && diagnostic@ == error_at(message@, span, code),
    {
        Err(Diagnostic::error(message, span, code))
    }

    /// Moves the position by one entry, leaving the range consumed last as
    /// it is. At the end of the input nothing changes.
    pub fn bump(&mut self)
        ensures
            final(self)@ == (StreamView { cursor: old(self)@.cursor.bump(), ..old(self)@ }),
    {
        let bump = self.cursor.bump();
        self.cursor = bump;
    }

    /// A stream of its own in the state of `self`, over the same buffer.
    pub fn fork(&self) -> (ahead: ParseBuffer<'a, D>) where D: Copy
        ensures
            ahead@ == self@,
    {
        ParseBuffer {
            data: self.data,
            node_id: self.node_id,
            cursor: self.cursor,
            prev_span: self.prev_span,
        }
    }

    /// Reads a node of type `T`.
    pub fn parse<T: Parse<D>>(&mut self) -> (result: Result<T, Diagnostic>)
        ensures
            final(self)@ == T::rest(old(self)@),
            final(self)@.follows(old(self)@),
            match result {
                Ok(node) => T::accepts(old(self)@) && T::yields(old(self)@, node),
                Err(diagnostic) => !T::accepts(old(self)@) && diagnostic@ == T::rejection(
                    old(self)@,
                ),
            },
    {
        T::parse(self)
    }

    /// Runs `f` on the stream.
    pub fn call<T, F>(&mut self, f: F) -> (result: Result<T, Diagnostic>) where
        F: FnOnce(&mut ParseBuffer<'a, D>) -> Result<T, Diagnostic>,

        requires
            forall|stream: &mut ParseBuffer<'a, D>|
                *stream == *old(self) ==> call_requires(f, (stream,)),
        ensures
            exists|stream: &mut ParseBuffer<'a, D>|
                *stream == *old(self) && *final(stream) == *final(self) && #[trigger] call_ensures(
                    f,
                    (stream,),
                    result,
                ),
    {
        f(self)
    }

    /// Whether a `T` starts at the position. The stream stays as it is.
    pub fn peek<T: Token>(&self) -> (found: bool)
        ensures
            found == T::present(self@.cursor),
            self@.eof() ==> !found,
    {
        T::peek(self.cursor())
    }

    /// Whether a `T` starts after the entry at the position.
    pub fn peek2<T: Token>(&self) -> (found: bool) where D: Copy
        ensures
            found == present_after::<T>(self@.cursor, 1),
            self@.eof() ==> !found,
    {
        reveal_with_fuel(present_after, 2);
        let mut ahead = self.fork();
        skip(&mut ahead) && ahead.peek::<T>()
    }

    /// Whether a `T` starts after the two entries at the position.
    pub fn peek3<T: Token>(&self) -> (found: bool) where D: Copy
        ensures
            found == present_after::<T>(self@.cursor, 2),
            self@.eof() ==> !found,
    {
        reveal_with_fuel(present_after, 3);
        let mut ahead = self.fork();
        skip(&mut ahead) && skip(&mut ahead) && ahead.peek::<T>()
    }

    /// Whether a `T` starts after the three entries at the position.
    pub fn peek4<T: Token>(&self) -> (found: bool) where D: Copy
        ensures
            found == present_after::<T>(self@.cursor, 3),
            self@.eof() ==> !found,
    {
        reveal_with_fuel(present_after, 4);
        let mut ahead = self.fork();
        skip(&mut ahead) && skip(&mut ahead) && skip(&mut ahead) && ahead.peek::<T>()
    }

    /// Consumes what `f` consumes, or nothing.
    ///
    /// `f` gets the position of the stream and returns a node with the
    /// position after it, or fails. When it returns a node, the stream moves
    /// to that position and the range it stood at becomes the range consumed
    /// last. When it fails, the stream is left exactly as it was.
    pub fn step<R, F>(&mut self, f: F) -> (result: Result<R, Diagnostic>) where
        F: FnOnce(StepCursor<'a>) -> Result<(R, Cursor<'a>), Diagnostic>,

        requires
            forall|start: StepCursor<'a>|
                start@ == old(self)@.step_cursor() ==> call_requires(f, (start,)),
            forall|start: StepCursor<'a>, node: R, rest: Cursor<'a>|
                start@ == old(self)@.step_cursor() && #[trigger] call_ensures(
                    f,
                    (start,),
                    Ok::<(R, Cursor<'a>), Diagnostic>((node, rest)),
                ) ==> rest@.follows(old(self)@.cursor),
        ensures
            final(self)@.follows(old(self)@),
            match result {
                Ok(node) => exists|start: StepCursor<'a>, rest: Cursor<'a>|
                    start@ == old(self)@.step_cursor() && #[trigger] call_ensures(
                        f,
                        (start,),
                        Ok::<(R, Cursor<'a>), Diagnostic>((node, rest)),
                    ) && final(self)@ == old(self)@.stepped(rest@),
                Err(diagnostic) => final(self)@ == old(self)@ && exists|start: StepCursor<'a>|
                    start@ == old(self)@.step_cursor() && #[trigger] call_ensures(
                        f,
                        (start,),
                        Err::<(R, Cursor<'a>), Diagnostic>(diagnostic),
                    ),
            },
    {
        let start = StepCursor { span: self.span(), cursor: self.cursor };
        assert(start@ == old(self)@.step_cursor());
        match f(start) {
            Ok((node, rest)) => {
                assert(call_ensures(f, (start,), Ok::<(R, Cursor<'a>), Diagnostic>((node, rest))));
                self.prev_span = self.span();
                self.cursor = rest;
                proof {
                    use_type_invariant(&self.cursor);
                }
                assert(exists|start: StepCursor<'a>, rest: Cursor<'a>|
                    start@ == old(self)@.step_cursor() && #[trigger] call_ensures(
                        f,
                        (start,),
                        Ok::<(R, Cursor<'a>), Diagnostic>((node, rest)),
                    ) && self@ == old(self)@.stepped(rest@));
                let result = Ok(node);
                assert(result->Ok_0 == node);
                result
            },
            Err(diagnostic) => {
                proof {
                    use_type_invariant(&self.cursor);
                }
                assert(call_ensures(f, (start,), Err::<(R, Cursor<'a>), Diagnostic>(diagnostic)));
                Err(diagnostic)
            },
        }
    }

    /// The number of entries between the position of `self` and that of
    /// `other`.
    pub fn steps(&self, other: &ParseBuffer<D>) -> (steps: usize)
        requires
            self@.cursor.position <= other@.cursor.position,
        ensures
            steps == other@.cursor.position - self@.cursor.position,
    {
        self.cursor().offset(other.cursor())
    }
}

/// Whether a `T` starts after `n` entries from `cursor` on, all of which
/// exist.
pub open spec fn present_after<T: Token>(cursor: CursorView, n: nat) -> bool
    decreases n,
{
    if n == 0 {
        T::present(cursor)
    } else {
        !cursor.eof() && present_after::<T>(cursor.bump(), (n - 1) as nat)
    }
}

/// Looking `n` entries ahead is looking at the position `n` entries further
/// on, provided that `n` entries are left; where fewer are left, nothing is
/// found.
pub proof fn lemma_present_after<T: Token>(cursor: CursorView, n: nat)
    ensures
        present_after::<T>(cursor, n) == ((n == 0 || cursor.position + n <= cursor.entries.len())
            && T::present(cursor.advance(n))),
    decreases n,
{
    if n > 0 {
        lemma_present_after::<T>(cursor.bump(), (n - 1) as nat);
    }
}

/// The step of skipping: whether there is an entry at `start`, with the
/// position after it.
fn skip_entry<'a>(start: StepCursor<'a>) -> (result: Result<(bool, Cursor<'a>), Diagnostic>)
    ensures
        result matches Ok((found, rest)) && found == !start@.cursor.eof() && rest@
            == start@.cursor.bump(),
{
    if let Some((_token, rest)) = start.any() {
        Ok((true, rest))
    } else {
        Ok((false, *start))
    }
}

/// Consumes the entry at the position, if there is one.
fn skip<D>(input: &mut ParseBuffer<D>) -> (skipped: bool)
    ensures
        skipped == !old(input)@.eof(),
        final(input)@ == old(input)@.next(),
{
    match input.step(skip_entry) {
        Ok(skipped) => skipped,
        Err(_) => false,
    }
}

impl<T: Parse<D>, D> Parse<D> for Box<T> {
    open spec fn accepts(s: StreamView<D>) -> bool {
        T::accepts(s)
    }

    open spec fn rest(s: StreamView<D>) -> StreamView<D> {
        T::rest(s)
    }

    open spec fn yields(s: StreamView<D>, node: Box<T>) -> bool {
        T::yields(s, *node)
    }

    open spec fn rejection(s: StreamView<D>) -> DiagnosticView {
        T::rejection(s)
    }

    fn parse<'a>(input: &mut ParseBuffer<'a, D>) -> (result: Result<Box<T>, Diagnostic>) {
        match input.parse::<T>() {
            Ok(node) => Ok(Box::new(node)),
            Err(diagnostic) => Err(diagnostic),
        }
    }
}

/// Whether an option takes a `T` from a stream in state `s`: one starts at
/// the position and can be read.
pub open spec fn takes<D, T: Parse<D> + Token>(s: StreamView<D>) -> bool {
    T::present(s.cursor) && T::accepts(s)
}

/// A `T` where one starts and can be read, and nothing otherwise. An option
/// never fails: where no `T` starts, and where one starts and cannot be read
/// to its end, it is nothing, and the stream is left exactly as it was.
impl<T: Parse<D> + Token, D> Parse<D> for Option<T> {
    open spec fn accepts(s: StreamView<D>) -> bool {
        true
    }

    open spec fn rest(s: StreamView<D>) -> StreamView<D> {
        if takes::<D, T>(s) {
            T::rest(s)
        } else {
            s
        }
    }

    open spec fn yields(s: StreamView<D>, node: Option<T>) -> bool {
        match node {
            Some(inner) => takes::<D, T>(s) && T::yields(s, inner),
            None => !takes::<D, T>(s),
        }
    }

    open spec fn rejection(s: StreamView<D>) -> DiagnosticView {
        T::rejection(s)
    }

    fn parse<'a>(input: &mut ParseBuffer<'a, D>) -> (result: Result<Option<T>, Diagnostic>) {
        let cursor = input.cursor();
        if T::peek(cursor) {
            let prev_span = input.prev_span;
            let node_id = input.node_id;
            match T::parse(input) {
                Ok(node) => Ok(Some(node)),
                Err(_) => {
                    input.cursor = cursor;
                    input.prev_span = prev_span;
                    input.node_id = node_id;
                    Ok(None)
                },
            }
        } else {
            Ok(None)
        }
    }
}

/// Where every `T` that starts can be read, an option is a `T` exactly where
/// one starts, and nothing, with the stream left as it was, exactly where
/// none does.
pub proof fn lemma_option_of_readable<D, T: Parse<D> + Token>(s: StreamView<D>)
    requires
        T::present(s.cursor) ==> T::accepts(s),
    ensures
        <Option<T> as Parse<D>>::accepts(s),
        forall|node: Option<T>|
            <Option<T> as Parse<D>>::yields(s, node) ==> (node is Some <==> T::present(s.cursor)),
        !T::present(s.cursor) ==> <Option<T> as Parse<D>>::rest(s) == s,
        T::present(s.cursor) ==> <Option<T> as Parse<D>>::rest(s) == T::rest(s),
{
}

/// An option never fails, and where it is nothing the stream is left as it
/// was.
pub proof fn lemma_option_never_fails<D, T: Parse<D> + Token>(s: StreamView<D>)
    ensures
        <Option<T> as Parse<D>>::accepts(s),
        <Option<T> as Parse<D>>::yields(s, None) ==> <Option<T> as Parse<D>>::rest(s) == s,
{
}

/// Whether a repetition of `T` takes an element from a stream in state `s`:
/// something is left, `T` accepts it, and reading it moves the position
/// forward.
pub open spec fn repeats<D, T: Parse<D>>(s: StreamView<D>) -> bool {
    &&& !s.eof()
    &&& T::accepts(s)
    &&& T::rest(s).follows(s)
    &&& T::rest(s).cursor.position > s.cursor.position
}

/// The state of a stream that was in state `s` after `n` elements of type
/// `T` were read from it.
pub open spec fn repeated<D, T: Parse<D>>(s: StreamView<D>, n: nat) -> StreamView<D>
    decreases n,
{
    if n == 0 {
        s
    } else {
        repeated::<D, T>(T::rest(s), (n - 1) as nat)
    }
}

/// The number of elements that a repetition of `T` takes from a stream in
/// state `s`.
pub open spec fn repetitions<D, T: Parse<D>>(s: StreamView<D>) -> nat
    decreases s.cursor.entries.len() - s.cursor.position,
{
    if repeats::<D, T>(s) {
        1 + repetitions::<D, T>(T::rest(s))
    } else {
        0
    }
}

/// The number of elements of a repetition: where `n` elements can be read
/// one after the other and no element can be read after them, it is `n`.
pub proof fn lemma_repetitions<D, T: Parse<D>>(s: StreamView<D>, n: nat)
    requires
        forall|i: nat| i < n ==> repeats::<D, T>(#[trigger] repeated::<D, T>(s, i)),
        !repeats::<D, T>(repeated::<D, T>(s, n)),
    ensures
        repetitions::<D, T>(s) == n,
    decreases n,
{
    if n == 0 {
    } else {
        assert(repeats::<D, T>(repeated::<D, T>(s, 0)));
        let next = T::rest(s);
        assert forall|i: nat| i < n - 1 implies repeats::<D, T>(
            #[trigger] repeated::<D, T>(next, i),
        ) by {
            assert(repeated::<D, T>(s, i + 1) == repeated::<D, T>(next, i));
        }
        lemma_repetitions::<D, T>(next, (n - 1) as nat);
    }
}

/// A repetition takes exactly the longest run of elements: where `n`
/// elements can be read one after the other and no element can be read after
/// them, it yields `n` nodes and leaves the stream where the `n` elements
/// end.
pub proof fn lemma_repetition_is_maximal<D: Copy, T: Parse<D>>(s: StreamView<D>, n: nat)
    requires
        forall|i: nat| i < n ==> repeats::<D, T>(#[trigger] repeated::<D, T>(s, i)),
        !repeats::<D, T>(repeated::<D, T>(s, n)),
    ensures
        <Vec<T> as Parse<D>>::accepts(s),
        <Vec<T> as Parse<D>>::rest(s) == repeated::<D, T>(s, n),
        forall|nodes: Vec<T>| <Vec<T> as Parse<D>>::yields(s, nodes) ==> nodes@.len() == n,
{
    lemma_repetitions::<D, T>(s, n);
}

/// As many `T` as can be read one after the other. The repetition ends at
/// the end of the input, before an element that `T` does not accept, and
/// before one that would consume nothing; what was read of a refused element
/// is not consumed.
impl<T: Parse<D>, D: Copy> Parse<D> for Vec<T> {
    open spec fn accepts(s: StreamView<D>) -> bool {
        true
    }

    open spec fn rest(s: StreamView<D>) -> StreamView<D> {
        repeated::<D, T>(s, repetitions::<D, T>(s))
    }

    open spec fn yields(s: StreamView<D>, node: Vec<T>) -> bool {
        &&& node@.len() == repetitions::<D, T>(s)
        &&& forall|i: int|
            0 <= i < node@.len() ==> T::yields(repeated::<D, T>(s, i as nat), #[trigger] node@[i])
    }

    open spec fn rejection(s: StreamView<D>) -> DiagnosticView {
        T::rejection(s)
    }

    fn parse<'a>(input: &mut ParseBuffer<'a, D>) -> (result: Result<Vec<T>, Diagnostic>) {
        let mut items: Vec<T> = Vec::new();
        let ghost start = input@;
        loop
            invariant
                input@ == repeated::<D, T>(start, items@.len()),
                input@.cursor.follows(start.cursor),
                input@.data == start.data,
                input@.node_id >= start.node_id,
                forall|i: nat| i < items@.len() ==> repeats::<D, T>(#[trigger] repeated::<D, T>(start, i)),
                forall|i: int|
                    0 <= i < items@.len() ==> T::yields(
                        repeated::<D, T>(start, i as nat),
                        #[trigger] items@[i],
                    ),
            ensures
                input@ == repeated::<D, T>(start, items@.len()),
                input@.follows(start),
                forall|i: nat| i < items@.len() ==> repeats::<D, T>(#[trigger] repeated::<D, T>(start, i)),
                forall|i: int|
                    0 <= i < items@.len() ==> T::yields(
                        repeated::<D, T>(start, i as nat),
                        #[trigger] items@[i],
                    ),
                !repeats::<D, T>(input@),
            decreases input@.cursor.entries.len() - input@.cursor.position,
        {
            if input.is_empty() {
                break ;
            }
            let mut ahead = input.fork();
            let here = ahead.cursor();
            if ahead.parse::<T>().is_err() {
                break ;
            }
            if here.offset(ahead.cursor()) == 0 {
                break ;
            }
            let ghost before = input@;
            let ghost read = items@;
            match input.parse::<T>() {
                Ok(item) => {
                    items.push(item);
                    proof {
                        lemma_repeated_once_more::<D, T>(start, read.len());
                        assert forall|i: int| 0 <= i < items@.len() implies T::yields(
                            repeated::<D, T>(start, i as nat),
                            #[trigger] items@[i],
                        ) by {
                            if i < read.len() {
                                assert(items@[i] == read[i]);
                            }
                        }
                    }
                },
                Err(diagnostic) => {
                    return Err(diagnostic);
                },
            }
        }
        proof {
            lemma_repetitions::<D, T>(start, items@.len());
        }
        Ok(items)
    }
}

/// Reading one more element after `n` elements is reading `n + 1` elements.
pub proof fn lemma_repeated_once_more<D, T: Parse<D>>(s: StreamView<D>, n: nat)
    ensures
        repeated::<D, T>(s, n + 1) == T::rest(repeated::<D, T>(s, n)),
    decreases n,
{
    if n == 0 {
        assert(repeated::<D, T>(s, 1) == repeated::<D, T>(T::rest(s), 0));
    } else {
        lemma_repeated_once_more::<D, T>(T::rest(s), (n - 1) as nat);
    }
}

/// What is read in one step from the entry at the position fails in place:
/// a stream that the parser of a literal, of a text or of an entry does not
/// accept is left exactly as it was, so these parsers are safe to try.
pub proof fn lemma_single_steps_fail_in_place<D>(s: StreamView<D>)
    ensures
        !<Entry as Parse<D>>::accepts(s) ==> <Entry as Parse<D>>::rest(s) == s,
        !<String as Parse<D>>::accepts(s) ==> <String as Parse<D>>::rest(s) == s,
        !<Literal as Parse<D>>::accepts(s) ==> <Literal as Parse<D>>::rest(s) == s,
        !<IntLiteral as Parse<D>>::accepts(s) ==> <IntLiteral as Parse<D>>::rest(s) == s,
        !<FloatLiteral as Parse<D>>::accepts(s) ==> <FloatLiteral as Parse<D>>::rest(s) == s,
        !<StringLiteral as Parse<D>>::accepts(s) ==> <StringLiteral as Parse<D>>::rest(s) == s,
{
}

/// The entry at the position, whatever it is.
impl<D> Parse<D> for Entry {
    open spec fn accepts(s: StreamView<D>) -> bool {
        !s.eof()
    }

    open spec fn rest(s: StreamView<D>) -> StreamView<D> {
        if s.eof() {
            s
        } else {
            s.next()
        }
    }

    open spec fn yields(s: StreamView<D>, node: Entry) -> bool {
        node == s.cursor.entry()
    }

    open spec fn rejection(s: StreamView<D>) -> DiagnosticView {
        error_at("expected any token"@, s.span(), None)
    }

    fn parse<'a>(input: &mut ParseBuffer<'a, D>) -> (result: Result<Entry, Diagnostic>) {
        input.step(any_entry)
    }
}

/// The step of reading the entry at `start`.
fn any_entry<'a>(start: StepCursor<'a>) -> (result: Result<(Entry, Cursor<'a>), Diagnostic>)
    ensures
        match result {
            Ok((entry, rest)) => !start@.cursor.eof() && entry == start@.cursor.entry() && rest@
                == start@.cursor.bump(),
            Err(diagnostic) => start@.cursor.eof() && diagnostic@ == error_at(
                "expected any token"@,
                start@.span,
                None,
            ),
        },
{
    match start.any() {
        Some((entry, rest)) => Ok((entry, rest)),
        _ => Err(start.error("expected any token")),
    }
}

/// The text of the string literal at the position.
impl<D> Parse<D> for String {
    open spec fn accepts(s: StreamView<D>) -> bool {
        s.cursor.literal() matches Some(Literal::String(_))
    }

    open spec fn rest(s: StreamView<D>) -> StreamView<D> {
        if s.cursor.literal() matches Some(Literal::String(_)) {
            s.next()
        } else {
            s
        }
    }

    open spec fn yields(s: StreamView<D>, node: String) -> bool {
        s.cursor.literal() matches Some(Literal::String(lit)) && node == lit.text
    }

    open spec fn rejection(s: StreamView<D>) -> DiagnosticView {
        error_at("expected a string literal"@, s.span(), None)
    }

    fn parse<'a>(input: &mut ParseBuffer<'a, D>) -> (result: Result<String, Diagnostic>) {
        input.step(string_text)
    }
}

/// The step of reading the text of the string literal at `start`.
fn string_text<'a>(start: StepCursor<'a>) -> (result: Result<(String, Cursor<'a>), Diagnostic>)
    ensures
        match result {
            Ok((text, rest)) => start@.cursor.literal() matches Some(Literal::String(lit)) && text
                == lit.text && rest@ == start@.cursor.bump(),
            Err(diagnostic) => !(start@.cursor.literal() matches Some(Literal::String(_)))
                && diagnostic@ == error_at("expected a string literal"@, start@.span, None),
        },
{
    match start.literal() {
        Some((Literal::String(s), rest)) => Ok((s.text, rest)),
        _ => Err(start.error("expected a string literal")),
    }
}

impl<T: ToTokens> ToTokens for Option<T> {
    open spec fn tokens(&self) -> Seq<Entry> {
        match self {
            Some(node) => node.tokens(),
            None => Seq::empty(),
        }
    }

    fn to_tokens(&self) -> (buffer: TokenBuffer) {
        match self {
            Some(t) => t.to_tokens(),
            None => TokenBuffer::new(Vec::new()),
        }
    }
}

impl<T: ToTokens> ToTokens for Box<T> {
    open spec fn tokens(&self) -> Seq<Entry> {
        (**self).tokens()
    }

    fn to_tokens(&self) -> (buffer: TokenBuffer) {
        (**self).to_tokens()
    }
}

/// The entries of the nodes in `nodes`, one node after the other.
pub open spec fn all_tokens<T: ToTokens>(nodes: Seq<T>) -> Seq<Entry>
    decreases nodes.len(),
{
    if nodes.len() == 0 {
        Seq::empty()
    } else {
        all_tokens(nodes.drop_last()) + nodes.last().tokens()
    }
}

impl<T: ToTokens> ToTokens for Vec<T> {
    open spec fn tokens(&self) -> Seq<Entry> {
        all_tokens(self@)
    }

    fn to_tokens(&self) -> (buffer: TokenBuffer) {
        let mut buffer = TokenBuffer::new(Vec::new());
        let mut i: usize = 0;
        while i < self.len()
            invariant
                i <= self@.len(),
                buffer@ == all_tokens(self@.subrange(0, i as int)),
            decreases self@.len() - i,
        {
            buffer = buffer.extend(self[i].to_tokens());
            i += 1;
            assert(self@.subrange(0, i as int).drop_last() == self@.subrange(0, i - 1));
        }
        assert(self@.subrange(0, i as int) == self@);
        buffer
    }
}

} // verus!
