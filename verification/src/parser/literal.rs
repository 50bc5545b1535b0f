//! Lexical literals: strings, characters, integers and floats, the numbers
//! with the type that their suffix names.

use crate::diagnostics::{error_at, Diagnostic, DiagnosticView, Span};
use crate::parser::buffer::{Cursor, CursorView, Entry, TokenBuffer};
use crate::parser::parse::{Parse, ParseBuffer, StepCursor, StreamView, ToTokens};
use crate::parser::token::Token;
use crate::text::{decimal, decimal_string, quote_char, quote_str, quoted_char, quoted_str};
use vstd::prelude::*;
use vstd::string::StringExecFns;

verus! {

/// The type an integer literal was written with.
#[derive(Debug, Clone, Copy, PartialEq, PartialOrd, Eq, Ord, Hash, Structural)]
pub enum IntType {
    U8,
    U16,
    U32,
    U64,
    U128,
    I8,
    I16,
    I32,
    I64,
    I128,
    /// The literal had no suffix.
    Unknown,
}

/// The type a float literal was written with.
#[derive(Debug, Clone, Copy, PartialEq, PartialOrd, Eq, Ord, Hash, Structural)]
pub enum FloatType {
    F32,
    F64,
    /// The literal had no suffix.
    Unknown,
}

/// A string literal with the text it denotes.
#[derive(Debug, PartialEq, Eq, Hash)]
pub struct StringLiteral {
    pub span: Span,
    pub text: String,
}

/// A character literal.
#[derive(Debug, Clone, Copy, PartialEq, Eq, Hash, Structural)]
pub struct CharLiteral {
    pub span: Span,
    pub ch: char,
}

/// An integer literal: its magnitude and the type of its suffix.
#[derive(Debug, Clone, Copy, PartialEq, Eq, PartialOrd, Ord, Hash, Structural)]
pub struct IntLiteral {
    pub span: Span,
    pub int: u128,
    pub ty: IntType,
}

/// A float literal. `float` holds the bits of the 64-bit IEEE-754 number, so
/// that literals are compared and hashed as integers are.
#[derive(Debug, Clone, Copy, PartialEq, Eq, PartialOrd, Ord, Hash, Structural)]
pub struct FloatLiteral {
    pub span: Span,
    pub float: u64,
    pub ty: FloatType,
}

/// A literal of any kind.
#[derive(Debug, PartialEq, Eq, Hash)]
pub enum Literal {
    String(StringLiteral),
    Char(CharLiteral),
    Int(IntLiteral),
    Float(FloatLiteral),
}

impl Clone for StringLiteral {
    fn clone(&self) -> (copy: StringLiteral)
        ensures
            copy == *self,
    {
        StringLiteral { span: self.span, text: self.text.clone() }
    }
}

impl Clone for Literal {
    fn clone(&self) -> (copy: Literal)
        ensures
            copy == *self,
    {
        match self {
            Literal::String(lit) => Literal::String(lit.clone()),
            Literal::Char(lit) => Literal::Char(*lit),
            Literal::Int(lit) => Literal::Int(*lit),
            Literal::Float(lit) => Literal::Float(*lit),
        }
    }
}

impl IntType {
    /// The suffix that names the type; none where the type is not known.
    pub open spec fn suffix(self) -> Seq<char> {
        match self {
            IntType::U8 => "u8"@,
            IntType::U16 => "u16"@,
            IntType::U32 => "u32"@,
            IntType::U64 => "u64"@,
            IntType::U128 => "u128"@,
            IntType::I8 => "i8"@,
            IntType::I16 => "i16"@,
            IntType::I32 => "i32"@,
            IntType::I64 => "i64"@,
            IntType::I128 => "i128"@,
            IntType::Unknown => ""@,
        }
    }

    /// The suffix that names the type.
    pub fn to_string(&self) -> (text: String)
        ensures
            text@ == self.suffix(),
    {
        match self {
            IntType::U8 => "u8".to_owned(),
            IntType::U16 => "u16".to_owned(),
            IntType::U32 => "u32".to_owned(),
            IntType::U64 => "u64".to_owned(),
            IntType::U128 => "u128".to_owned(),
            IntType::I8 => "i8".to_owned(),
            IntType::I16 => "i16".to_owned(),
            IntType::I32 => "i32".to_owned(),
            IntType::I64 => "i64".to_owned(),
            IntType::I128 => "i128".to_owned(),
            IntType::Unknown => "".to_owned(),
        }
    }
}

impl FloatType {
    /// The suffix that names the type; none where the type is not known.
    pub open spec fn suffix(self) -> Seq<char> {
        match self {
            FloatType::F32 => "f32"@,
            FloatType::F64 => "f64"@,
            FloatType::Unknown => ""@,
        }
    }

    /// The suffix that names the type.
    pub fn to_string(&self) -> (text: String)
        ensures
            text@ == self.suffix(),
    {
        match self {
            FloatType::F32 => "f32".to_owned(),
            FloatType::F64 => "f64".to_owned(),
            FloatType::Unknown => "".to_owned(),
        }
    }
}

impl StringLiteral {
    /// The literal as it is written: its text between double quotes, with
    /// escapes.
    pub fn to_string(&self) -> (text: String)
        ensures
            text@ == quoted_str(self.text@),
    {
        quote_str(self.text.as_str())
    }

    /// The source range of the literal.
    pub fn span(&self) -> (span: Span)
        ensures
            span == self.span,
    {
        self.span
    }
}

impl CharLiteral {
    /// The literal as it is written: its character between single quotes,
    /// escaped where need be.
    pub fn to_string(&self) -> (text: String)
        ensures
            text@ == quoted_char(self.ch),
    {
        quote_char(self.ch)
    }

    /// The source range of the literal.
    pub fn span(&self) -> (span: Span)
        ensures
            span == self.span,
    {
        self.span
    }
}

impl IntLiteral {
    /// The literal as it is written: its magnitude in decimal, then the
    /// suffix of its type.
    pub open spec fn text(self) -> Seq<char> {
        decimal(self.int as nat) + self.ty.suffix()
    }

    /// The literal as it is written.
    pub fn to_string(&self) -> (text: String)
        ensures
            text@ == self.text(),
    {
        let mut text = decimal_string(self.int);
        let suffix = self.ty.to_string();
        text.append(suffix.as_str());
        text
    }

    /// The source range of the literal.
    pub fn span(&self) -> (span: Span)
        ensures
            span == self.span,
    {
        self.span
    }
}

impl FloatLiteral {
    /// The literal as it is written, given `number`, the decimal notation of
    /// the number whose bits the literal holds: `number`, then the suffix of
    /// the type.
    pub fn to_string(&self, number: &str) -> (text: String)
        ensures
            text@ == number@ + self.ty.suffix(),
    {
        let mut text = number.to_owned();
        let suffix = self.ty.to_string();
        text.append(suffix.as_str());
        text
    }

    /// The source range of the literal.
    pub fn span(&self) -> (span: Span)
        ensures
            span == self.span,
    {
        self.span
    }
}

impl Literal {
    /// The source range of the literal, whatever its kind.
    pub open spec fn spec_span(self) -> Span {
        match self {
            Literal::String(lit) => lit.span,
            Literal::Char(lit) => lit.span,
            Literal::Int(lit) => lit.span,
            Literal::Float(lit) => lit.span,
        }
    }

    /// The literal as it is written, where `number` is the decimal notation
    /// of the number that a float literal holds.
    pub open spec fn text(self, number: Seq<char>) -> Seq<char> {
        match self {
            Literal::String(lit) => quoted_str(lit.text@),
            Literal::Char(lit) => quoted_char(lit.ch),
            Literal::Int(lit) => lit.text(),
            Literal::Float(lit) => number + lit.ty.suffix(),
        }
    }

    /// The literal as it is written. For a float literal `number` is the
    /// decimal notation of the number whose bits the literal holds; for the
    /// other kinds it is not read.
    pub fn to_string(&self, number: &str) -> (text: String)
        ensures
            text@ == self.text(number@),
    {
        match self {
            Literal::Int(i) => i.to_string(),
            Literal::Float(i) => i.to_string(number),
            Literal::Char(i) => i.to_string(),
            Literal::String(i) => i.to_string(),
        }
    }

    /// The text of a string literal, and of no other.
    pub fn string(&self) -> (text: Option<&str>)
        ensures
            match text {
                Some(t) => *self matches Literal::String(lit) && t@ == lit.text@,
                None => !(*self is String),
            },
    {
        match self {
            Literal::String(lit) => Some(lit.text.as_str()),
            _ => None,
        }
    }

    /// The source range of the literal, whatever its kind.
    pub fn span(&self) -> (span: Span)
        ensures
            span == self.spec_span(),
    {
        match self {
            Literal::String(lit) => lit.span(),
            Literal::Char(lit) => lit.span(),
            Literal::Int(lit) => lit.span(),
            Literal::Float(lit) => lit.span(),
        }
    }
}

/// The literal at the position, of whatever kind.
impl<D> Parse<D> for Literal {
    open spec fn accepts(s: StreamView<D>) -> bool {
        s.cursor.literal() is Some
    }

    open spec fn rest(s: StreamView<D>) -> StreamView<D> {
        if s.cursor.literal() is Some {
            s.next()
        } else {
            s
        }
    }

    open spec fn yields(s: StreamView<D>, node: Literal) -> bool {
        s.cursor.literal() == Some(node)
    }

    open spec fn rejection(s: StreamView<D>) -> DiagnosticView {
        error_at("expected a string, character, integer or float"@, s.span(), None)
    }

    fn parse<'a>(input: &mut ParseBuffer<'a, D>) -> (result: Result<Literal, Diagnostic>) {
        input.step(any_literal)
    }
}

/// The step of reading the literal at `start`.
fn any_literal<'a>(start: StepCursor<'a>) -> (result: Result<(Literal, Cursor<'a>), Diagnostic>)
    ensures
        match result {
            Ok((lit, rest)) => start@.cursor.literal() == Some(lit) && rest@
                == start@.cursor.bump(),
            Err(diagnostic) => start@.cursor.literal() is None && diagnostic@ == error_at(
                "expected a string, character, integer or float"@,
                start@.span,
                None,
            ),
        },
{
    if let Some((literal, rest)) = start.literal() {
        Ok((literal.clone(), rest))
    } else {
        Err(start.error("expected a string, character, integer or float"))
    }
}

/// A literal is read back from its own entries: a stream at the start of
/// the entries of `lit` yields `lit` and nothing else, and is left at their
/// end.
pub proof fn lemma_literal_round_trip<D>(lit: Literal, s: StreamView<D>)
    requires
        s.cursor.entries == lit.tokens(),
        s.cursor.position == 0,
    ensures
        <Literal as Parse<D>>::accepts(s),
        <Literal as Parse<D>>::yields(s, lit),
        forall|other: Literal| <Literal as Parse<D>>::yields(s, other) ==> other == lit,
        <Literal as Parse<D>>::rest(s).eof(),
{
}

/// An integer literal is read back from its own entries.
pub proof fn lemma_int_literal_round_trip<D>(lit: IntLiteral, s: StreamView<D>)
    requires
        s.cursor.entries == lit.tokens(),
        s.cursor.position == 0,
    ensures
        <IntLiteral as Parse<D>>::accepts(s),
        <IntLiteral as Parse<D>>::yields(s, lit),
        forall|other: IntLiteral| <IntLiteral as Parse<D>>::yields(s, other) ==> other == lit,
        <IntLiteral as Parse<D>>::rest(s).eof(),
{
}

/// A float literal is read back from its own entries.
pub proof fn lemma_float_literal_round_trip<D>(lit: FloatLiteral, s: StreamView<D>)
    requires
        s.cursor.entries == lit.tokens(),
        s.cursor.position == 0,
    ensures
        <FloatLiteral as Parse<D>>::accepts(s),
        <FloatLiteral as Parse<D>>::yields(s, lit),
        forall|other: FloatLiteral| <FloatLiteral as Parse<D>>::yields(s, other) ==> other == lit,
        <FloatLiteral as Parse<D>>::rest(s).eof(),
{
}

/// A string literal is read back from its own entries.
pub proof fn lemma_string_literal_round_trip<D>(lit: StringLiteral, s: StreamView<D>)
    requires
        s.cursor.entries == lit.tokens(),
        s.cursor.position == 0,
    ensures
        <StringLiteral as Parse<D>>::accepts(s),
        <StringLiteral as Parse<D>>::yields(s, lit),
        forall|other: StringLiteral| <StringLiteral as Parse<D>>::yields(s, other) ==> other == lit,
        <StringLiteral as Parse<D>>::rest(s).eof(),
{
}

impl Token for Literal {
    open spec fn present(cursor: CursorView) -> bool {
        cursor.literal() is Some
    }

    open spec fn name() -> Seq<char> {
        "string, character, integer or float"@
    }

    fn peek(cursor: Cursor) -> (found: bool) {
        if let Some(_) = cursor.literal() {
            true
        } else {
            false
        }
    }

    fn display() -> (name: &'static str) {
        "string, character, integer or float"
    }
}

/// The integer literal at the position.
impl<D> Parse<D> for IntLiteral {
    open spec fn accepts(s: StreamView<D>) -> bool {
        s.cursor.literal() matches Some(Literal::Int(_))
    }

    open spec fn rest(s: StreamView<D>) -> StreamView<D> {
        if s.cursor.literal() matches Some(Literal::Int(_)) {
            s.next()
        } else {
            s
        }
    }

    open spec fn yields(s: StreamView<D>, node: IntLiteral) -> bool {
        s.cursor.literal() == Some(Literal::Int(node))
    }

    open spec fn rejection(s: StreamView<D>) -> DiagnosticView {
        error_at("expected an integer"@, s.span(), None)
    }

    fn parse<'a>(input: &mut ParseBuffer<'a, D>) -> (result: Result<IntLiteral, Diagnostic>) {
        input.step(int_literal)
    }
}

/// The step of reading the integer literal at `start`.
fn int_literal<'a>(start: StepCursor<'a>) -> (result: Result<(IntLiteral, Cursor<'a>), Diagnostic>)
    ensures
        match result {
            Ok((lit, rest)) => start@.cursor.literal() == Some(Literal::Int(lit)) && rest@
                == start@.cursor.bump(),
            Err(diagnostic) => !(start@.cursor.literal() matches Some(Literal::Int(_)))
                && diagnostic@ == error_at("expected an integer"@, start@.span, None),
        },
{
    if let Some((Literal::Int(literal), rest)) = start.literal() {
        Ok((literal.clone(), rest))
    } else {
        Err(start.error("expected an integer"))
    }
}

/// The float literal at the position.
impl<D> Parse<D> for FloatLiteral {
    open spec fn accepts(s: StreamView<D>) -> bool {
        s.cursor.literal() matches Some(Literal::Float(_))
    }

    open spec fn rest(s: StreamView<D>) -> StreamView<D> {
        if s.cursor.literal() matches Some(Literal::Float(_)) {
            s.next()
        } else {
            s
        }
    }

    open spec fn yields(s: StreamView<D>, node: FloatLiteral) -> bool {
        s.cursor.literal() == Some(Literal::Float(node))
    }

    open spec fn rejection(s: StreamView<D>) -> DiagnosticView {
        error_at("expected a float"@, s.span(), None)
    }

    fn parse<'a>(input: &mut ParseBuffer<'a, D>) -> (result: Result<FloatLiteral, Diagnostic>) {
        input.step(float_literal)
    }
}

/// The step of reading the float literal at `start`.
fn float_literal<'a>(start: StepCursor<'a>) -> (result: Result<
    (FloatLiteral, Cursor<'a>),
    Diagnostic,
>)
    ensures
        match result {
            Ok((lit, rest)) => start@.cursor.literal() == Some(Literal::Float(lit)) && rest@
                == start@.cursor.bump(),
            Err(diagnostic) => !(start@.cursor.literal() matches Some(Literal::Float(_)))
                && diagnostic@ == error_at("expected a float"@, start@.span, None),
        },
{
    if let Some((Literal::Float(literal), rest)) = start.literal() {
        Ok((literal.clone(), rest))
    } else {
        Err(start.error("expected a float"))
    }
}

/// The string literal at the position.
impl<D> Parse<D> for StringLiteral {
    open spec fn accepts(s: StreamView<D>) -> bool {
        s.cursor.literal() matches Some(Literal::String(_))
    }

    open spec fn rest(s: StreamView<D>) -> StreamView<D> {
        if s.cursor.literal() matches Some(Literal::String(_)) {
            s.next()
        } else {
            s
        }
    }

    open spec fn yields(s: StreamView<D>, node: StringLiteral) -> bool {
        s.cursor.literal() == Some(Literal::String(node))
    }

    open spec fn rejection(s: StreamView<D>) -> DiagnosticView {
        error_at("expected a string"@, s.span(), None)
    }

    fn parse<'a>(input: &mut ParseBuffer<'a, D>) -> (result: Result<StringLiteral, Diagnostic>) {
        input.step(string_literal)
    }
}

/// The step of reading the string literal at `start`.
fn string_literal<'a>(start: StepCursor<'a>) -> (result: Result<
    (StringLiteral, Cursor<'a>),
    Diagnostic,
>)
    ensures
        match result {
            Ok((lit, rest)) => start@.cursor.literal() == Some(Literal::String(lit)) && rest@
                == start@.cursor.bump(),
            Err(diagnostic) => !(start@.cursor.literal() matches Some(Literal::String(_)))
                && diagnostic@ == error_at("expected a string"@, start@.span, None),
        },
{
    if let Some((Literal::String(literal), rest)) = start.literal() {
        Ok((literal.clone(), rest))
    } else {
        Err(start.error("expected a string"))
    }
}

impl ToTokens for Literal {
    open spec fn tokens(&self) -> Seq<Entry> {
        seq![Entry::Literal(*self)]
    }

    fn to_tokens(&self) -> (buffer: TokenBuffer) {
        TokenBuffer::new(vec![Entry::Literal(self.clone())])
    }
}

impl ToTokens for IntLiteral {
    open spec fn tokens(&self) -> Seq<Entry> {
        seq![Entry::Literal(Literal::Int(*self))]
    }

    fn to_tokens(&self) -> (buffer: TokenBuffer) {
        TokenBuffer::new(vec![Entry::Literal(Literal::Int(self.clone()))])
    }
}

impl ToTokens for FloatLiteral {
    open spec fn tokens(&self) -> Seq<Entry> {
        seq![Entry::Literal(Literal::Float(*self))]
    }

    fn to_tokens(&self) -> (buffer: TokenBuffer) {
        TokenBuffer::new(vec![Entry::Literal(Literal::Float(self.clone()))])
    }
}

impl ToTokens for CharLiteral {
    open spec fn tokens(&self) -> Seq<Entry> {
        seq![Entry::Literal(Literal::Char(*self))]
    }

    fn to_tokens(&self) -> (buffer: TokenBuffer) {
        TokenBuffer::new(vec![Entry::Literal(Literal::Char(self.clone()))])
    }
}

impl ToTokens for StringLiteral {
    open spec fn tokens(&self) -> Seq<Entry> {
        seq![Entry::Literal(Literal::String(*self))]
    }

    fn to_tokens(&self) -> (buffer: TokenBuffer) {
        TokenBuffer::new(vec![Entry::Literal(Literal::String(self.clone()))])
    }
}

} // verus!
