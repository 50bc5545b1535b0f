//! Source ranges and the diagnostic values that parsing and analysis hand back.

use vstd::prelude::*;

verus! {

/// A range of positions in one source file.
#[derive(Clone, Copy, Debug, PartialEq, Eq, PartialOrd, Ord, Hash, Structural)]
pub struct Span {
    pub file: u32,
    pub start: usize,
    pub end: usize,
}

impl Span {
    /// The range from the smaller start to the larger end of `self` and
    /// `other`, in the file of `self`.
    pub open spec fn merge(self, other: Span) -> Span {
        Span {
            file: self.file,
            start: if self.start <= other.start { self.start } else { other.start },
            end: if self.end >= other.end { self.end } else { other.end },
        }
    }

    /// Whether every position of `inner` lies in `self`.
    pub open spec fn encloses(self, inner: Span) -> bool {
        self.start <= inner.start && inner.end <= self.end
    }

    /// The empty range at the start of `file`.
    pub fn empty(file: u32) -> (span: Span)
        ensures
            span == (Span { file, start: 0, end: 0 }),
    {
        Span { file, start: 0, end: 0 }
    }

    /// The smallest range that encloses both `self` and `other`.
    pub fn to(self, other: Span) -> (span: Span)
        ensures
            span == self.merge(other),
    {
        Span {
            file: self.file,
            start: if self.start <= other.start { self.start } else { other.start },
            end: if self.end >= other.end { self.end } else { other.end },
        }
    }

    /// A merged range encloses both of its parts, and no smaller range does.
    pub proof fn lemma_merge_is_enclosing(a: Span, b: Span, c: Span)
        ensures
            a.merge(b).encloses(a),
            a.merge(b).encloses(b),
            c.encloses(a) && c.encloses(b) ==> c.encloses(a.merge(b)),
    {
    }
}

/// How serious a diagnostic or one of its labels is.
#[derive(Clone, Copy, Debug, PartialEq, Eq, Hash, Structural)]
pub enum Severity {
    Error,
    Warning,
    Info,
}

/// An annotation of a diagnostic: a source range with an optional remark.
#[derive(Debug, PartialEq, Eq)]
pub struct Label {
    pub severity: Severity,
    pub span: Span,
    pub message: Option<String>,
}

/// What a [`Label`] holds, with its remark as a sequence of characters.
pub ghost struct LabelView {
    pub severity: Severity,
    pub span: Span,
    pub message: Option<Seq<char>>,
}

impl View for Label {
    type V = LabelView;

    open spec fn view(&self) -> LabelView {
        LabelView {
            severity: self.severity,
            span: self.span,
            message: match self.message {
                Some(m) => Some(m@),
                None => None,
            },
        }
    }
}

/// A message for the user: a severity, an optional numeric code, the text,
/// and the labelled source ranges it is about.
#[derive(Debug, PartialEq, Eq)]
pub struct Diagnostic {
    pub severity: Severity,
    pub code: Option<u16>,
    pub message: String,
    pub labels: Vec<Label>,
}

/// What a [`Diagnostic`] holds, as mathematical values.
pub ghost struct DiagnosticView {
    pub severity: Severity,
    pub code: Option<u16>,
    pub message: Seq<char>,
    pub labels: Seq<LabelView>,
}

impl View for Diagnostic {
    type V = DiagnosticView;

    open spec fn view(&self) -> DiagnosticView {
        DiagnosticView {
            severity: self.severity,
            code: self.code,
            message: self.message@,
            labels: Seq::new(self.labels@.len(), |i: int| self.labels@[i]@),
        }
    }
}

/// The views of the diagnostics in `diagnostics`, in their order.
pub open spec fn views(diagnostics: Seq<Diagnostic>) -> Seq<DiagnosticView> {
    Seq::new(diagnostics.len(), |i: int| diagnostics[i]@)
}

impl DiagnosticView {
    /// The diagnostic with one more label at its end.
    pub open spec fn label(self, severity: Severity, span: Span, message: Option<Seq<char>>) -> DiagnosticView {
        DiagnosticView {
            labels: self.labels.push(LabelView { severity, span, message }),
            ..self
        }
    }
}

/// The error without a code that says `message` about `span`.
pub open spec fn error_at(message: Seq<char>, span: Span, code: Option<u16>) -> DiagnosticView {
    DiagnosticView {
        severity: Severity::Error,
        code,
        message,
        labels: seq![LabelView { severity: Severity::Error, span, message: None }],
    }
}

impl Diagnostic {
    /// A diagnostic without labels.
    pub fn new(severity: Severity, code: Option<u16>, message: String) -> (diagnostic: Diagnostic)
        ensures
            diagnostic@ == (DiagnosticView { severity, code, message: message@, labels: Seq::empty() }),
    {
        let diagnostic = Diagnostic { severity, code, message, labels: Vec::new() };
        assert(diagnostic@.labels =~= Seq::empty());
        diagnostic
    }

    /// Adds a label after those the diagnostic already has.
    pub fn label(self, severity: Severity, span: Span, message: Option<String>) -> (diagnostic: Diagnostic)
        ensures
            diagnostic@ == self@.label(
                severity,
                span,
                match message {
                    Some(m) => Some(m@),
                    None => None,
                },
            ),
    {
        let mut labels = self.labels;
        let ghost before = labels@;
        labels.push(Label { severity, span, message });
        let diagnostic = Diagnostic {
            severity: self.severity,
            code: self.code,
            message: self.message,
            labels,
        };
        assert(diagnostic@.labels =~= self@.labels.push(
            LabelView {
                severity,
                span,
                message: match message {
                    Some(m) => Some(m@),
                    None => None,
                },
            },
        ));
        diagnostic
    }

    /// The error that says `message` about `span`.
    pub fn error(message: &str, span: Span, code: Option<u16>) -> (diagnostic: Diagnostic)
        ensures
            diagnostic@ == error_at(message@, span, code),
    {
        let diagnostic = Diagnostic::new(Severity::Error, code, message.to_owned()).label(
            Severity::Error,
            span,
            None,
        );
        assert(diagnostic@.labels =~= error_at(message@, span, code).labels);
        diagnostic
    }
}

} // verus!
