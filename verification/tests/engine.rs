use math_lang::diagnostics::{Diagnostic, DiagnosticView, Severity, Span};
use math_lang::parser::buffer::{Cursor, CursorView, Entry, Punct, TokenBuffer};
use math_lang::parser::literal::{
    CharLiteral, FloatLiteral, FloatType, IntLiteral, IntType, Literal, StringLiteral,
};
use math_lang::parser::parse::{Parse, ParseBuffer, StepCursor, StreamView, ToTokens};
use math_lang::parser::token::{parse_punct, peek_punct, Token};
use math_lang::parsing::{TAdd, TLParen, TMul, TRParen, TSub};
use std::cmp::Ordering;

fn at(start: usize) -> Span {
    Span { file: 0, start, end: start + 1 }
}

fn number(start: usize, value: u128) -> Entry {
    Entry::Literal(Literal::Int(IntLiteral { span: at(start), int: value, ty: IntType::Unknown }))
}

fn sign(start: usize, ch: char) -> Entry {
    Entry::Punct(Punct { span: at(start), ch })
}

fn text(start: usize, value: &str) -> Entry {
    Entry::Literal(Literal::String(StringLiteral { span: at(start), text: value.to_string() }))
}

fn sample() -> TokenBuffer {
    TokenBuffer::new(vec![number(0, 1), number(2, 2), number(4, 3), sign(6, '+'), number(8, 4)])
}

fn position<D>(buffer: &TokenBuffer, stream: &ParseBuffer<D>) -> usize {
    buffer.begin().offset(stream.cursor())
}

#[test]
fn cursor_walks_and_stays_at_the_end() {
    let buffer = TokenBuffer::new(vec![number(0, 1), sign(2, '+')]);
    let begin = buffer.begin();
    assert!(!begin.eof());
    assert_eq!(begin.span(), at(0));
    let (entry, second) = begin.any().unwrap();
    assert_eq!(entry, number(0, 1));
    let (lit, also_second) = begin.literal().unwrap();
    assert_eq!(Entry::Literal(lit), number(0, 1));
    assert!(second == also_second);
    assert!(second == begin.bump());
    assert_eq!(second.span(), at(2));
    assert!(second.literal().is_none());
    assert_eq!(second.any().unwrap().0, sign(2, '+'));
    let end = second.bump();
    assert!(end.eof());
    assert!(end.any().is_none());
    assert!(end.literal().is_none());
    assert!(end.bump() == end);
    assert_eq!(begin.offset(end.bump().bump()), 2);
    assert!(TokenBuffer::new(Vec::new()).begin().eof());
}

#[test]
fn offset_counts_single_advances() {
    let buffer = sample();
    let begin = buffer.begin();
    assert_eq!(begin.offset(begin), 0);
    let mut cursor = begin;
    for expected in 0..=5 {
        assert_eq!(begin.offset(cursor), expected);
        let mut walked = begin;
        for _ in 0..begin.offset(cursor) {
            walked = walked.bump();
        }
        assert!(walked == cursor);
        cursor = cursor.bump();
    }
    let third = begin.bump().bump();
    assert_eq!(third.offset(third.bump().bump()), 2);
    assert_eq!(third.offset(third), 0);
}

#[test]
fn cursors_compare_by_position() {
    let buffer = sample();
    let other = sample();
    let first = buffer.begin();
    let second = first.bump();
    assert!(first == other.begin());
    assert!(first != second);
    assert!(first < second);
    assert!(second > first);
    assert!(first <= first);
    assert_eq!(first.partial_cmp(&second), Some(Ordering::Less));
    assert_eq!(second.partial_cmp(&first), Some(Ordering::Greater));
    assert_eq!(second.partial_cmp(&other.begin().bump()), Some(Ordering::Equal));
}

#[test]
fn buffers_are_joined_in_order() {
    let joined = TokenBuffer::new(vec![number(0, 1)])
        .extend(TokenBuffer::new(Vec::new()))
        .extend(TokenBuffer::new(vec![sign(2, '+'), number(4, 2)]));
    assert_eq!(joined, TokenBuffer::new(vec![number(0, 1), sign(2, '+'), number(4, 2)]));
    assert_eq!(joined.len(), 3);
}

#[test]
fn new_stream_reports_its_start() {
    let buffer = sample();
    let start = Span { file: 9, start: 3, end: 3 };
    let stream = ParseBuffer::new(buffer.begin(), 'c', start);
    assert_eq!(stream.data, 'c');
    assert_eq!(stream.node_id, 0);
    assert_eq!(stream.prev_span(), start);
    assert_eq!(stream.span(), at(0));
    assert!(!stream.is_empty());
    let empty = TokenBuffer::new(Vec::new());
    let stream = ParseBuffer::new(empty.begin(), (), start);
    assert!(stream.is_empty());
    assert_eq!(stream.span(), start);
}

#[test]
fn step_moves_on_success_and_records_the_range() {
    let buffer = sample();
    let mut stream = ParseBuffer::new(buffer.begin(), (), Span::empty(0));
    let took: u32 = stream
        .step(|start: StepCursor| {
            let cursor = *start;
            Ok((7, cursor.bump().bump()))
        })
        .unwrap();
    assert_eq!(took, 7);
    assert_eq!(position(&buffer, &stream), 2);
    assert_eq!(stream.prev_span(), at(0));
    assert_eq!(stream.span(), at(4));
    let entry: Entry = stream.parse().unwrap();
    assert_eq!(entry, number(4, 3));
    assert_eq!(stream.prev_span(), at(4));
    assert_eq!(stream.span(), at(6));
}

#[test]
fn step_failure_leaves_the_stream_as_it_was() {
    let buffer = sample();
    let mut stream = ParseBuffer::new(buffer.begin(), 5u8, Span::empty(0));
    stream.parse::<Entry>().unwrap();
    stream.node_id = 3;
    let span = stream.span();
    let prev_span = stream.prev_span();
    let failed: Result<u8, Diagnostic> = stream.step(|start: StepCursor| {
        let _further = start.bump().bump();
        Err(start.error("nothing here"))
    });
    let error = failed.unwrap_err();
    assert_eq!(error.message, "nothing here");
    assert_eq!(error.severity, Severity::Error);
    assert_eq!(error.code, None);
    assert_eq!(error.labels.len(), 1);
    assert_eq!(error.labels[0].span, span);
    assert_eq!(stream.span(), span);
    assert_eq!(stream.prev_span(), prev_span);
    assert_eq!(position(&buffer, &stream), 1);
    assert_eq!(stream.node_id, 3);
    assert_eq!(stream.data, 5);

    assert!(stream.parse::<StringLiteral>().is_err());
    assert!(stream.parse::<FloatLiteral>().is_err());
    assert!(stream.parse::<String>().is_err());
    assert!(stream.parse::<TAdd>().is_err());
    assert_eq!(stream.span(), span);
    assert_eq!(stream.prev_span(), prev_span);
    assert_eq!(position(&buffer, &stream), 1);
}

#[test]
fn fork_is_independent_of_its_parent() {
    let buffer = sample();
    let mut parent = ParseBuffer::new(buffer.begin(), 1u8, Span::empty(0));
    parent.parse::<Entry>().unwrap();
    let span = parent.span();
    let prev_span = parent.prev_span();
    let mut fork = parent.fork();
    assert_eq!(fork.span(), span);
    assert_eq!(fork.prev_span(), prev_span);
    assert_eq!(fork.data, 1);
    assert_eq!(parent.steps(&fork), 0);
    assert!(fork.peek::<Literal>());
    assert!(fork.peek2::<Literal>());
    assert!(!fork.is_empty());
    assert_eq!(parent.span(), span);
    assert_eq!(parent.prev_span(), prev_span);
    fork.parse::<Entry>().unwrap();
    fork.parse::<Entry>().unwrap();
    fork.node_id = 8;
    assert_eq!(parent.steps(&fork), 2);
    assert_eq!(parent.span(), span);
    assert_eq!(parent.prev_span(), prev_span);
    assert_eq!(parent.node_id, 0);
    assert_eq!(position(&buffer, &parent), 1);
    parent.parse::<Entry>().unwrap();
    assert_eq!(position(&buffer, &fork), 3);
    assert_eq!(fork.prev_span(), at(4));
}

#[test]
fn bump_moves_without_recording() {
    let buffer = TokenBuffer::new(vec![number(0, 1)]);
    let start = Span { file: 0, start: 40, end: 41 };
    let mut stream = ParseBuffer::new(buffer.begin(), (), start);
    stream.bump();
    assert!(stream.is_empty());
    assert_eq!(stream.prev_span(), start);
    assert_eq!(stream.span(), start);
    stream.bump();
    assert_eq!(position(&buffer, &stream), 1);
}

#[test]
fn peeks_look_ahead_without_moving() {
    let buffer = sample();
    let mut stream = ParseBuffer::new(buffer.begin(), (), Span::empty(0));
    assert!(stream.peek::<Literal>());
    assert!(!stream.peek::<TAdd>());
    assert!(stream.peek2::<Literal>());
    assert!(stream.peek3::<Literal>());
    assert!(!stream.peek4::<Literal>());
    assert!(stream.peek4::<TAdd>());
    assert!(!stream.peek3::<TAdd>());
    assert_eq!(position(&buffer, &stream), 0);
    assert_eq!(stream.prev_span(), Span::empty(0));

    stream.parse::<Entry>().unwrap();
    stream.parse::<Entry>().unwrap();
    let span = stream.span();
    let prev_span = stream.prev_span();
    assert!(stream.peek2::<TAdd>());
    assert!(stream.peek3::<Literal>());
    assert!(!stream.peek4::<Literal>());
    assert!(!stream.peek4::<TAdd>());
    assert_eq!(stream.span(), span);
    assert_eq!(stream.prev_span(), prev_span);
    assert_eq!(position(&buffer, &stream), 2);
}

#[test]
fn peeks_at_the_end_are_false() {
    let buffer = TokenBuffer::new(vec![number(0, 1)]);
    let mut stream = ParseBuffer::new(buffer.begin(), (), Span::empty(0));
    assert!(!stream.peek2::<Literal>());
    assert!(!stream.peek3::<Literal>());
    assert!(!stream.peek4::<Literal>());
    stream.parse::<Entry>().unwrap();
    assert!(stream.is_empty());
    assert!(!stream.peek::<Literal>());
    assert!(!stream.peek::<TAdd>());
    assert!(!stream.peek::<TRParen>());
    assert!(!stream.peek2::<Literal>());
    assert!(!stream.peek3::<TAdd>());
    assert!(!stream.peek4::<Literal>());
    assert_eq!(position(&buffer, &stream), 1);
    assert_eq!(stream.prev_span(), at(0));
    assert!(!Literal::peek(buffer.begin().bump()));
    assert!(!peek_punct(buffer.begin().bump(), '+'));

    let empty = TokenBuffer::new(Vec::new());
    let stream = ParseBuffer::new(empty.begin(), (), Span::empty(0));
    assert!(!stream.peek::<Literal>());
    assert!(!stream.peek2::<Literal>());
    assert!(!stream.peek3::<Literal>());
    assert!(!stream.peek4::<Literal>());
}

#[test]
fn repetition_takes_the_longest_run() {
    let buffer = sample();
    let mut stream = ParseBuffer::new(buffer.begin(), (), Span::empty(0));
    let items: Vec<IntLiteral> = stream.parse().unwrap();
    let values: Vec<u128> = items.iter().map(|lit| lit.int).collect();
    assert_eq!(values, vec![1, 2, 3]);
    assert_eq!(position(&buffer, &stream), 3);
    assert_eq!(stream.span(), at(6));
    assert_eq!(stream.prev_span(), at(4));

    let none: Vec<IntLiteral> = stream.parse().unwrap();
    assert!(none.is_empty());
    assert_eq!(position(&buffer, &stream), 3);
    assert_eq!(stream.prev_span(), at(4));

    let signs: Vec<TAdd> = stream.parse().unwrap();
    assert_eq!(signs, vec![TAdd { span: at(6) }]);
    let rest: Vec<Entry> = stream.parse().unwrap();
    assert_eq!(rest, vec![number(8, 4)]);
    assert!(stream.is_empty());
    let nothing: Vec<Entry> = stream.parse().unwrap();
    assert!(nothing.is_empty());
}

/// A pair of parentheses with one integer between them.
#[derive(Debug, PartialEq)]
struct Wrapped(u128);

impl<D> Parse<D> for Wrapped {
    fn accepts(_: StreamView<D>) -> bool {
        unreachable!()
    }

    fn rest(_: StreamView<D>) -> StreamView<D> {
        unreachable!()
    }

    fn yields(_: StreamView<D>, _: Wrapped) -> bool {
        unreachable!()
    }

    fn rejection(_: StreamView<D>) -> DiagnosticView {
        unreachable!()
    }

    fn parse<'a>(input: &mut ParseBuffer<'a, D>) -> Result<Wrapped, Diagnostic> {
        input.parse::<TLParen>()?;
        let lit = input.parse::<IntLiteral>()?;
        input.parse::<TRParen>()?;
        Ok(Wrapped(lit.int))
    }
}

impl Token for Wrapped {
    fn present(_: CursorView) -> bool {
        unreachable!()
    }

    fn name() -> vstd::seq::Seq<char> {
        unreachable!()
    }

    fn peek(cursor: Cursor) -> bool {
        TLParen::peek(cursor)
    }

    fn display() -> &'static str {
        "wrapped integer"
    }
}

#[test]
fn option_never_fails_and_gives_back_what_was_read() {
    let buffer = TokenBuffer::new(vec![
        number(0, 9),
        sign(1, '('),
        number(2, 5),
        sign(3, ')'),
        sign(4, '('),
        number(5, 6),
        sign(6, '+'),
    ]);
    let mut stream = ParseBuffer::new(buffer.begin(), 'd', Span::empty(0));
    let absent: Option<Wrapped> = stream.parse().unwrap();
    assert_eq!(absent, None);
    assert_eq!(position(&buffer, &stream), 0);
    stream.parse::<Entry>().unwrap();
    stream.set_node_id(4);

    let whole: Option<Wrapped> = stream.parse().unwrap();
    assert_eq!(whole, Some(Wrapped(5)));
    assert_eq!(position(&buffer, &stream), 4);
    assert_eq!(stream.prev_span(), at(3));

    assert!(stream.peek::<Wrapped>());
    let span = stream.span();
    let prev_span = stream.prev_span();
    let broken: Option<Wrapped> = stream.parse().unwrap();
    assert_eq!(broken, None);
    assert_eq!(position(&buffer, &stream), 4);
    assert_eq!(stream.span(), span);
    assert_eq!(stream.prev_span(), prev_span);
    assert_eq!(stream.node_id(), 4);
    assert_eq!(*stream.data(), 'd');

    let error = stream.parse::<Wrapped>().unwrap_err();
    assert_eq!(error.message, "expected `)`");
    assert_eq!(position(&buffer, &stream), 6);
    let at_end: Vec<Entry> = stream.parse().unwrap();
    assert_eq!(at_end.len(), 1);
    let nothing: Option<Wrapped> = stream.parse().unwrap();
    assert_eq!(nothing, None);
}

/// A node that takes a number from the stream before it reads an integer.
#[derive(Debug, PartialEq)]
struct Numbered(usize, u128);

impl<D> Parse<D> for Numbered {
    fn accepts(_: StreamView<D>) -> bool {
        unreachable!()
    }

    fn rest(_: StreamView<D>) -> StreamView<D> {
        unreachable!()
    }

    fn yields(_: StreamView<D>, _: Numbered) -> bool {
        unreachable!()
    }

    fn rejection(_: StreamView<D>) -> DiagnosticView {
        unreachable!()
    }

    fn parse<'a>(input: &mut ParseBuffer<'a, D>) -> Result<Numbered, Diagnostic> {
        let id = input.next_node_id().unwrap();
        let lit = input.parse::<IntLiteral>()?;
        Ok(Numbered(id, lit.int))
    }
}

impl Token for Numbered {
    fn present(_: CursorView) -> bool {
        unreachable!()
    }

    fn name() -> vstd::seq::Seq<char> {
        unreachable!()
    }

    fn peek(cursor: Cursor) -> bool {
        !cursor.eof()
    }

    fn display() -> &'static str {
        "numbered integer"
    }
}

#[test]
fn option_gives_back_the_node_number() {
    let buffer = sample();
    let mut stream = ParseBuffer::new(buffer.begin(), (), Span::empty(0));
    let first: Option<Numbered> = stream.parse().unwrap();
    assert_eq!(first, Some(Numbered(0, 1)));
    assert_eq!(stream.node_id(), 1);
    let rest: Vec<Numbered> = stream.parse().unwrap();
    assert_eq!(rest, vec![Numbered(1, 2), Numbered(2, 3)]);
    assert_eq!(stream.node_id(), 3);
    assert_eq!(position(&buffer, &stream), 3);
    let refused: Option<Numbered> = stream.parse().unwrap();
    assert_eq!(refused, None);
    assert_eq!(stream.node_id(), 3);
    assert_eq!(position(&buffer, &stream), 3);
    assert_eq!(stream.prev_span(), at(4));
}

#[test]
fn node_numbers_and_context() {
    let buffer = sample();
    let mut stream = ParseBuffer::new(buffer.begin(), String::from("context"), Span::empty(0));
    assert_eq!(stream.data(), "context");
    assert_eq!(stream.node_id(), 0);
    assert_eq!(stream.next_node_id(), Some(0));
    assert_eq!(stream.next_node_id(), Some(1));
    assert_eq!(stream.node_id(), 2);
    assert_eq!(stream.node_id, 2);
    stream.set_node_id(40);
    assert_eq!(stream.node_id(), 40);
    assert_eq!(stream.next_node_id(), Some(40));
    assert_eq!(stream.node_id(), 41);
    stream.set_node_id(usize::MAX - 1);
    assert_eq!(stream.next_node_id(), Some(usize::MAX - 1));
    assert_eq!(stream.next_node_id(), None);
    assert_eq!(stream.node_id(), usize::MAX);
    assert_eq!(stream.next_node_id(), None);
    assert_eq!(position(&buffer, &stream), 0);
    assert_eq!(stream.prev_span(), Span::empty(0));
    assert_eq!(stream.data(), "context");
}

#[test]
fn repetition_does_not_consume_a_refused_element() {
    let buffer = TokenBuffer::new(vec![
        sign(0, '('),
        number(1, 5),
        sign(2, ')'),
        sign(3, '('),
        number(4, 6),
        sign(5, ')'),
        sign(6, '('),
        number(7, 7),
        sign(8, '+'),
    ]);
    let mut stream = ParseBuffer::new(buffer.begin(), (), Span::empty(0));
    let items: Vec<Wrapped> = stream.parse().unwrap();
    assert_eq!(items, vec![Wrapped(5), Wrapped(6)]);
    assert_eq!(position(&buffer, &stream), 6);
    assert_eq!(stream.span(), at(6));
    assert_eq!(stream.prev_span(), at(5));

    let failed = stream.parse::<Box<Wrapped>>().unwrap_err();
    assert_eq!(failed.message, "expected `)`");
    assert_eq!(failed.labels[0].span, at(8));
    assert_eq!(position(&buffer, &stream), 8);
}

#[test]
fn repetition_ends_before_an_element_that_consumes_nothing() {
    let buffer = sample();
    let mut stream = ParseBuffer::new(buffer.begin(), (), Span::empty(0));
    let items: Vec<Option<TAdd>> = stream.parse().unwrap();
    assert!(items.is_empty());
    assert_eq!(position(&buffer, &stream), 0);
    let items: Vec<Vec<IntLiteral>> = stream.parse().unwrap();
    assert_eq!(items.len(), 1);
    assert_eq!(items[0].len(), 3);
    assert_eq!(position(&buffer, &stream), 3);
}

#[test]
fn option_reads_what_is_present() {
    let buffer = sample();
    let mut stream = ParseBuffer::new(buffer.begin(), (), Span::empty(0));
    let absent: Option<TAdd> = stream.parse().unwrap();
    assert_eq!(absent, None);
    assert_eq!(position(&buffer, &stream), 0);
    assert_eq!(stream.prev_span(), Span::empty(0));
    let present: Option<Literal> = stream.parse().unwrap();
    assert_eq!(present.map(Entry::Literal), Some(number(0, 1)));
    assert_eq!(position(&buffer, &stream), 1);
    let _: Vec<Entry> = stream.parse().unwrap();
    let at_end: Option<Literal> = stream.parse().unwrap();
    assert_eq!(at_end, None);
}

#[test]
fn boxed_node_is_the_node() {
    let buffer = sample();
    let mut stream = ParseBuffer::new(buffer.begin(), (), Span::empty(0));
    let boxed: Box<IntLiteral> = stream.parse().unwrap();
    assert_eq!(Entry::Literal(Literal::Int(*boxed)), number(0, 1));
    assert_eq!(position(&buffer, &stream), 1);
    let _: Vec<IntLiteral> = stream.parse().unwrap();
    let failed = stream.parse::<Box<IntLiteral>>().unwrap_err();
    assert_eq!(failed.message, "expected an integer");
    assert_eq!(failed.labels[0].span, at(6));
    assert_eq!(position(&buffer, &stream), 3);
}

#[test]
fn call_runs_on_the_stream() {
    let buffer = sample();
    let mut stream = ParseBuffer::new(buffer.begin(), 2u128, Span::empty(0));
    let sum = stream
        .call(|input: &mut ParseBuffer<u128>| {
            let first: IntLiteral = input.parse()?;
            let second: IntLiteral = input.parse()?;
            Ok(first.int + second.int + input.data)
        })
        .unwrap();
    assert_eq!(sum, 5);
    assert_eq!(position(&buffer, &stream), 2);
}

#[test]
fn entry_and_text_parsers() {
    let buffer = TokenBuffer::new(vec![text(0, "abc"), sign(2, '*')]);
    let mut stream = ParseBuffer::new(buffer.begin(), (), Span::empty(0));
    let mut fork = stream.fork();
    assert_eq!(fork.parse::<StringLiteral>().unwrap().text, "abc");
    let mut fork = stream.fork();
    assert_eq!(fork.parse::<Literal>().unwrap().string(), Some("abc"));
    assert_eq!(stream.parse::<String>().unwrap(), "abc");
    assert_eq!(stream.prev_span(), at(0));
    let error = stream.parse::<String>().unwrap_err();
    assert_eq!(error.message, "expected a string literal");
    assert_eq!(error.labels[0].span, at(2));
    let error = stream.parse::<StringLiteral>().unwrap_err();
    assert_eq!(error.message, "expected a string");
    let error = stream.parse::<Literal>().unwrap_err();
    assert_eq!(error.message, "expected a string, character, integer or float");
    let error = stream.parse::<IntLiteral>().unwrap_err();
    assert_eq!(error.message, "expected an integer");
    let error = stream.parse::<FloatLiteral>().unwrap_err();
    assert_eq!(error.message, "expected a float");
    assert_eq!(error.labels[0].span, at(2));
    assert_eq!(stream.parse::<TMul>().unwrap(), TMul { span: at(2) });
    let error = stream.parse::<Entry>().unwrap_err();
    assert_eq!(error.message, "expected any token");
    assert_eq!(error.labels[0].span, at(2));
    assert_eq!(error.labels[0].severity, Severity::Error);
    assert_eq!(error.labels[0].message, None);
}

#[test]
fn punctuation_tokens() {
    let buffer = TokenBuffer::new(vec![sign(0, '-'), sign(1, '+')]);
    let mut stream = ParseBuffer::new(buffer.begin(), (), Span::empty(0));
    assert!(stream.peek::<TSub>());
    assert!(!stream.peek::<TAdd>());
    assert!(stream.peek2::<TAdd>());
    assert!(peek_punct(stream.cursor(), '-'));
    let error = stream.parse::<TAdd>().unwrap_err();
    assert_eq!(error.message, "expected `+`");
    assert_eq!(error.labels[0].span, at(0));
    assert_eq!(stream.parse::<TSub>().unwrap().span, at(0));
    let error = parse_punct(&mut stream, '-', "a minus sign").unwrap_err();
    assert_eq!(error.message, "a minus sign");
    assert_eq!(error.labels[0].span, at(1));
    assert_eq!(parse_punct(&mut stream, '+', "a plus sign").unwrap(), at(1));
    assert!(stream.is_empty());
    assert_eq!(TAdd::display(), "+");
    assert_eq!(TRParen::display(), ")");
    assert_eq!(Literal::display(), "string, character, integer or float");
}

#[test]
fn stream_errors() {
    let buffer = sample();
    let mut stream = ParseBuffer::new(buffer.begin(), (), Span::empty(0));
    stream.parse::<Entry>().unwrap();
    let error = stream.error::<u8>("bad", Some(12)).unwrap_err();
    assert_eq!(error.message, "bad");
    assert_eq!(error.code, Some(12));
    assert_eq!(error.severity, Severity::Error);
    assert_eq!(error.labels.len(), 1);
    assert_eq!(error.labels[0].span, at(2));
    let error = stream.error_at::<u8>("worse", at(30), None).unwrap_err();
    assert_eq!(error.message, "worse");
    assert_eq!(error.code, None);
    assert_eq!(error.labels[0].span, at(30));
}

#[test]
fn nodes_back_to_tokens() {
    let int = IntLiteral { span: at(0), int: 42, ty: IntType::U8 };
    let float = FloatLiteral { span: at(1), float: 3.14f64.to_bits(), ty: FloatType::F32 };
    let ch = CharLiteral { span: at(2), ch: 'x' };
    let string = StringLiteral { span: at(3), text: "abc".to_string() };
    assert_eq!(int.to_tokens(), TokenBuffer::new(vec![Entry::Literal(Literal::Int(int))]));
    assert_eq!(float.to_tokens(), TokenBuffer::new(vec![Entry::Literal(Literal::Float(float))]));
    assert_eq!(ch.to_tokens(), TokenBuffer::new(vec![Entry::Literal(Literal::Char(ch))]));
    assert_eq!(string.to_tokens(), TokenBuffer::new(vec![text(3, "abc")]));
    assert_eq!(Some(int).to_tokens(), int.to_tokens());
    assert_eq!(None::<IntLiteral>.to_tokens(), TokenBuffer::new(Vec::new()));
    assert_eq!(Box::new(ch).to_tokens(), ch.to_tokens());
    let all = vec![Literal::Int(int), Literal::Char(ch), Literal::Float(float)];
    assert_eq!(
        all.to_tokens(),
        TokenBuffer::new(vec![
            Entry::Literal(Literal::Int(int)),
            Entry::Literal(Literal::Char(ch)),
            Entry::Literal(Literal::Float(float)),
        ])
    );
    assert_eq!(Vec::<Literal>::new().to_tokens().len(), 0);
}

#[test]
fn spans_merge_to_the_enclosing_range() {
    let a = Span { file: 1, start: 4, end: 9 };
    let b = Span { file: 2, start: 6, end: 12 };
    assert_eq!(a.to(b), Span { file: 1, start: 4, end: 12 });
    assert_eq!(b.to(a), Span { file: 2, start: 4, end: 12 });
    let inner = Span { file: 1, start: 5, end: 6 };
    assert_eq!(a.to(inner), a);
    assert_eq!(Span::empty(4), Span { file: 4, start: 0, end: 0 });
}

#[test]
fn diagnostics_collect_labels() {
    let diagnostic = Diagnostic::new(Severity::Warning, Some(3), "unused".to_string())
        .label(Severity::Warning, at(1), Some("here".to_string()))
        .label(Severity::Info, at(5), None);
    assert_eq!(diagnostic.severity, Severity::Warning);
    assert_eq!(diagnostic.code, Some(3));
    assert_eq!(diagnostic.message, "unused");
    assert_eq!(diagnostic.labels.len(), 2);
    assert_eq!(diagnostic.labels[0].message.as_deref(), Some("here"));
    assert_eq!(diagnostic.labels[1].severity, Severity::Info);
    assert_eq!(diagnostic.labels[1].span, at(5));
    let error = Diagnostic::error("no", at(2), Some(1));
    assert_eq!(error.severity, Severity::Error);
    assert_eq!(error.code, Some(1));
    assert_eq!(error.labels[0].span, at(2));
}
