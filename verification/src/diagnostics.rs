//! Diagnostics: a headline, labels on source spans, and footers.

use crate::syntax::Span;
use crate::text::views;
use vstd::prelude::*;

verus! {

/// A source file of the compilation.
#[derive(Debug, Clone, Copy, PartialEq, Eq, Structural)]
pub struct SourceId(pub u32);

/// A span of a known source.
#[derive(Debug, Clone, Copy, PartialEq, Eq, Structural)]
pub struct SourceSpan {
    pub source: SourceId,
    pub span: Span,
}

#[derive(Debug, Clone, Copy, PartialEq, Eq, Structural)]
pub enum Severity {
    Error,
    Warning,
}

#[derive(Debug, Clone, Copy, PartialEq, Eq, Structural)]
pub enum LabelStyle {
    Primary,
    Secondary,
}

/// A message at a span. Without a source, the span indexes the source the
/// diagnostic is reported in.
#[derive(Debug)]
pub struct Label {
    pub style: LabelStyle,
    pub source: Option<SourceId>,
    pub span: Span,
    pub message: String,
}

/// A remark below the labels.
#[derive(Debug)]
pub enum Footer {
    Note(String),
    Help(String),
}

/// One finding as it is shown.
#[derive(Debug)]
pub struct Diagnostic {
    pub severity: Severity,
    pub message: String,
    pub labels: Vec<Label>,
    pub footers: Vec<Footer>,
}

/// What a [`Label`] says.
pub struct LabelView {
    pub style: LabelStyle,
    pub source: Option<SourceId>,
    pub span: Span,
    pub message: Seq<char>,
}

/// What a [`Footer`] says.
pub enum FooterView {
    Note(Seq<char>),
    Help(Seq<char>),
}

/// What a [`Diagnostic`] says.
pub struct DiagnosticView {
    pub severity: Severity,
    pub message: Seq<char>,
    pub labels: Seq<LabelView>,
    pub footers: Seq<FooterView>,
}

impl View for Label {
    type V = LabelView;

    open spec fn view(&self) -> LabelView {
        LabelView {
            style: self.style,
            source: self.source,
            span: self.span,
            message: self.message@,
        }
    }
}

impl View for Footer {
    type V = FooterView;

    open spec fn view(&self) -> FooterView {
        match *self {
            Footer::Note(text) => FooterView::Note(text@),
            Footer::Help(text) => FooterView::Help(text@),
        }
    }
}

impl View for Diagnostic {
    type V = DiagnosticView;

    open spec fn view(&self) -> DiagnosticView {
        DiagnosticView {
            severity: self.severity,
            message: self.message@,
            labels: self.labels@.map_values(|label: Label| label@),
            footers: self.footers@.map_values(|footer: Footer| footer@),
        }
    }
}

impl DiagnosticView {
    /// A bare finding.
    pub open spec fn bare(severity: Severity, message: Seq<char>) -> DiagnosticView {
        DiagnosticView { severity, message, labels: Seq::empty(), footers: Seq::empty() }
    }

    pub open spec fn error(message: Seq<char>) -> DiagnosticView {
        DiagnosticView::bare(Severity::Error, message)
    }

    pub open spec fn warning(message: Seq<char>) -> DiagnosticView {
        DiagnosticView::bare(Severity::Warning, message)
    }

    /// The finding with one label more.
    pub open spec fn labelled(self, label: LabelView) -> DiagnosticView {
        DiagnosticView { labels: self.labels.push(label), ..self }
    }

    /// The finding with one footer more.
    pub open spec fn footed(self, footer: FooterView) -> DiagnosticView {
        DiagnosticView { footers: self.footers.push(footer), ..self }
    }

    pub open spec fn with_label(self, span: Span, message: Seq<char>) -> DiagnosticView {
        self.labelled(LabelView { style: LabelStyle::Primary, source: None, span, message })
    }

    pub open spec fn with_secondary_label(self, span: Span, message: Seq<char>) -> DiagnosticView {
        self.labelled(LabelView { style: LabelStyle::Secondary, source: None, span, message })
    }

    pub open spec fn with_note(self, message: Seq<char>) -> DiagnosticView {
        self.footed(FooterView::Note(message))
    }

    pub open spec fn with_help(self, message: Seq<char>) -> DiagnosticView {
        self.footed(FooterView::Help(message))
    }

    /// The finding with a note for each text, in order.
    pub open spec fn with_notes(self, notes: Seq<Seq<char>>) -> DiagnosticView
        decreases notes.len(),
    {
        if notes.len() == 0 {
            self
        } else {
            self.with_notes(notes.drop_last()).with_note(notes.last())
        }
    }

    /// The finding with the same secondary label at each span, in order.
    pub open spec fn with_secondary_labels(self, spans: Seq<Span>, message: Seq<char>) -> DiagnosticView
        decreases spans.len(),
    {
        if spans.len() == 0 {
            self
        } else {
            self.with_secondary_labels(spans.drop_last(), message).with_secondary_label(
                spans.last(),
                message,
            )
        }
    }

    /// The finding with `source` for each label that names none.
    pub open spec fn in_source(self, source: Option<SourceId>) -> DiagnosticView {
        DiagnosticView {
            labels: self.labels.map_values(
                |label: LabelView|
                    LabelView {
                        source: if label.source is None {
                            source
                        } else {
                            label.source
                        },
                        ..label
                    },
            ),
            ..self
        }
    }
}

impl Diagnostic {
    pub fn error(message: String) -> (d: Self)
        ensures
            d@ == DiagnosticView::error(message@),
    {
        let d = Diagnostic {
            severity: Severity::Error,
            message,
            labels: Vec::new(),
            footers: Vec::new(),
        };
        assert(d@.labels =~= Seq::empty());
        assert(d@.footers =~= Seq::empty());
        d
    }

    pub fn warning(message: String) -> (d: Self)
        ensures
            d@ == DiagnosticView::warning(message@),
    {
        let d = Diagnostic {
            severity: Severity::Warning,
            message,
            labels: Vec::new(),
            footers: Vec::new(),
        };
        assert(d@.labels =~= Seq::empty());
        assert(d@.footers =~= Seq::empty());
        d
    }

    fn push_label(&mut self, label: Label)
        ensures
            final(self)@ == old(self)@.labelled(label@),
    {
        self.labels.push(label);
        assert(self@.labels =~= old(self)@.labels.push(label@));
    }

    fn push_footer(&mut self, footer: Footer)
        ensures
            final(self)@ == old(self)@.footed(footer@),
    {
        self.footers.push(footer);
        assert(self@.footers =~= old(self)@.footers.push(footer@));
    }

    pub fn with_label(self, span: Span, message: String) -> (d: Self)
        ensures
            d@ == self@.with_label(span, message@),
    {
        let mut d = self;
        d.push_label(Label { style: LabelStyle::Primary, source: None, span, message });
        d
    }

    pub fn with_secondary_label(self, span: Span, message: String) -> (d: Self)
        ensures
            d@ == self@.with_secondary_label(span, message@),
    {
        let mut d = self;
        d.push_label(Label { style: LabelStyle::Secondary, source: None, span, message });
        d
    }

    pub fn with_secondary_label_in(self, at: SourceSpan, message: String) -> (d: Self)
        ensures
            d@ == self@.labelled(
                LabelView {
                    style: LabelStyle::Secondary,
                    source: Some(at.source),
                    span: at.span,
                    message: message@,
                },
            ),
    {
        let mut d = self;
        d.push_label(
            Label {
                style: LabelStyle::Secondary,
                source: Some(at.source),
                span: at.span,
                message,
            },
        );
        d
    }

    pub fn with_note(self, message: String) -> (d: Self)
        ensures
            d@ == self@.with_note(message@),
    {
        let mut d = self;
        d.push_footer(Footer::Note(message));
        d
    }

    pub fn with_help(self, message: String) -> (d: Self)
        ensures
            d@ == self@.with_help(message@),
    {
        let mut d = self;
        d.push_footer(Footer::Help(message));
        d
    }

    /// Adds a note for each text.
    pub fn with_notes(self, notes: &Vec<String>) -> (d: Self)
        ensures
            d@ == self@.with_notes(views(notes@)),
    {
        let ghost before = self@;
        let mut d = self;
        let mut i: usize = 0;
        assert(views(notes@).take(0) =~= Seq::empty());
        while i < notes.len()
            invariant
                i <= notes@.len(),
                d@ == before.with_notes(views(notes@).take(i as int)),
            decreases notes.len() - i,
        {
            assert(views(notes@).take(i as int + 1).drop_last() =~= views(notes@).take(i as int));
            assert(views(notes@)[i as int] == notes@[i as int]@);
            d = d.with_note(notes[i].as_str().to_owned());
            i = i + 1;
        }
        assert(views(notes@).take(i as int) =~= views(notes@));
        d
    }

    /// Adds the same secondary label at each span.
    pub fn with_secondary_labels(self, spans: &Vec<Span>, message: &str) -> (d: Self)
        ensures
            d@ == self@.with_secondary_labels(spans@, message@),
    {
        let ghost before = self@;
        let mut d = self;
        let mut i: usize = 0;
        while i < spans.len()
            invariant
                i <= spans@.len(),
                d@ == before.with_secondary_labels(spans@.take(i as int), message@),
            decreases spans.len() - i,
        {
            assert(spans@.take(i as int + 1).drop_last() =~= spans@.take(i as int));
            d = d.with_secondary_label(spans[i], message.to_owned());
            i = i + 1;
        }
        assert(spans@.take(i as int) =~= spans@);
        d
    }

    /// Places every label without a source in `source`.
    pub fn in_source(self, source: Option<SourceId>) -> (d: Self)
        ensures
            d@ == self@.in_source(source),
    {
        let mut labels: Vec<Label> = Vec::new();
        let mut i: usize = 0;
        while i < self.labels.len()
            invariant
                i <= self.labels@.len(),
                labels@.len() == i,
                forall|k: int|
                    0 <= k < i ==> (#[trigger] labels@[k])@ == self@.in_source(source).labels[k],
            decreases self.labels.len() - i,
        {
            let label: &Label = &self.labels[i];
            let known: Option<SourceId> = match label.source {
                Some(id) => Some(id),
                None => source,
            };
            labels.push(
                Label {
                    style: label.style,
                    source: known,
                    span: label.span,
                    message: label.message.as_str().to_owned(),
                },
            );
            assert(labels@[i as int]@ == self@.in_source(source).labels[i as int]);
            i = i + 1;
        }
        let ghost goal = self@.in_source(source);
        let d = Diagnostic {
            severity: self.severity,
            message: self.message,
            labels,
            footers: self.footers,
        };
        assert(d@.labels =~= goal.labels);
        d
    }
}

/// The position of the first primary label, from `from` on.
pub open spec fn first_primary(labels: Seq<LabelView>, from: int) -> Option<int>
    decreases labels.len() - from,
{
    if from < 0 || from >= labels.len() {
        None
    } else if labels[from].style is Primary {
        Some(from)
    } else {
        first_primary(labels, from + 1)
    }
}

} // verus!
