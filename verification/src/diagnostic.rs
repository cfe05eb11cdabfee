//! Diagnostics as plain values: what a parser, a semantic check or a rule has
//! to say about one place in one file.

use std::sync::Arc;
use vstd::prelude::*;

verus! {

/// How serious a diagnostic is.
#[derive(Clone, Copy, Debug, PartialEq, Eq, Structural)]
pub enum Severity {
    /// A hint.
    Advice,
    /// Worth a look; does not fail a run by itself.
    Warning,
    /// A failure.
    Error,
}

/// A range of bytes in a source text, the end not included.
#[derive(Clone, Copy, Debug, PartialEq, Eq, Structural)]
pub struct Span {
    pub start: u32,
    pub end: u32,
}

impl DeepView for Span {
    type V = Span;

    open spec fn deep_view(&self) -> Span {
        *self
    }
}

/// A source text together with the name it is shown under.
#[derive(Debug)]
pub struct NamedSource {
    pub name: String,
    pub text: String,
}

/// What a [`NamedSource`] holds.
pub struct NamedSourceView {
    pub name: Seq<char>,
    pub text: Seq<char>,
}

impl DeepView for NamedSource {
    type V = NamedSourceView;

    open spec fn deep_view(&self) -> NamedSourceView {
        NamedSourceView { name: self.name@, text: self.text@ }
    }
}

/// One diagnostic.
#[derive(Debug)]
pub struct Diagnostic {
    /// `None` where the producer did not say; such a diagnostic counts as an
    /// error.
    pub severity: Option<Severity>,
    pub message: String,
    pub help: Option<String>,
    /// The places in the source text that the message is about.
    pub labels: Vec<Span>,
    /// The text that the labels point into, once it has been attached.
    pub source_code: Option<Arc<NamedSource>>,
}

/// What a [`Diagnostic`] holds.
pub struct DiagnosticView {
    pub severity: Option<Severity>,
    pub message: Seq<char>,
    pub help: Option<Seq<char>>,
    pub labels: Seq<Span>,
    pub source_code: Option<NamedSourceView>,
}

impl DeepView for Diagnostic {
    type V = DiagnosticView;

    open spec fn deep_view(&self) -> DiagnosticView {
        DiagnosticView {
            severity: self.severity,
            message: self.message@,
            help: self.help.deep_view(),
            labels: self.labels@,
            source_code: self.source_code.deep_view(),
        }
    }
}

impl DiagnosticView {
    /// Only a diagnostic that says so itself is a warning.
    pub open spec fn is_warning(self) -> bool {
        self.severity == Some(Severity::Warning)
    }

    /// Whatever is no warning counts as an error.
    pub open spec fn is_error(self) -> bool {
        !self.is_warning()
    }

    /// The same diagnostic, pointing into `source`.
    pub open spec fn with_source_code(self, source: NamedSourceView) -> DiagnosticView {
        DiagnosticView { source_code: Some(source), ..self }
    }
}

/// The diagnostics of one file: its path and what was found in it, in the
/// order in which it was found.
pub type DiagnosticTuple = (String, Vec<Diagnostic>);

/// What a [`DiagnosticTuple`] holds.
pub type BatchView = (Seq<char>, Seq<DiagnosticView>);

/// `std::sync::Arc::clone`: the new handle points to the value that `source`
/// points to, so the two are one value to every reader.
#[verifier::external_body]
fn share(source: &Arc<NamedSource>) -> (shared: Arc<NamedSource>)
    ensures
        shared == *source,
{
    Arc::clone(source)
}

impl Diagnostic {
    /// A diagnostic with a message and nothing else: no severity, no help, no
    /// label, no source text.
    pub fn new(message: String) -> (diagnostic: Diagnostic)
        ensures
            diagnostic.deep_view() == (DiagnosticView {
                severity: None,
                message: message@,
                help: None,
                labels: Seq::empty(),
                source_code: None,
            }),
    {
        Diagnostic { severity: None, message, help: None, labels: Vec::new(), source_code: None }
    }

    /// The same diagnostic with the severity `severity`.
    pub fn with_severity(self, severity: Severity) -> (diagnostic: Diagnostic)
        ensures
            diagnostic.deep_view() == (DiagnosticView {
                severity: Some(severity),
                ..self.deep_view()
            }),
    {
        let mut diagnostic = self;
        diagnostic.severity = Some(severity);
        diagnostic
    }

    /// The same diagnostic with the help text `help`.
    pub fn with_help(self, help: String) -> (diagnostic: Diagnostic)
        ensures
            diagnostic.deep_view() == (DiagnosticView { help: Some(help@), ..self.deep_view() }),
    {
        let mut diagnostic = self;
        diagnostic.help = Some(help);
        diagnostic
    }

    /// The same diagnostic with one more label, `span`, after those it has.
    pub fn with_label(self, span: Span) -> (diagnostic: Diagnostic)
        ensures
            diagnostic.deep_view() == (DiagnosticView {
                labels: self.deep_view().labels.push(span),
                ..self.deep_view()
            }),
    {
        let mut diagnostic = self;
        diagnostic.labels.push(span);
        diagnostic
    }

    /// The same diagnostic, pointing into `source`. A source text that it
    /// pointed into before is given up.
    pub fn with_source_code(self, source: &Arc<NamedSource>) -> (diagnostic: Diagnostic)
        ensures
            diagnostic.deep_view() == self.deep_view().with_source_code(source.deep_view()),
    {
        let mut diagnostic = self;
        diagnostic.source_code = Some(share(source));
        diagnostic
    }

    /// A copy that holds what `self` holds. The source text is shared, not
    /// copied.
    pub fn duplicate(&self) -> (copy: Diagnostic)
        ensures
            copy.deep_view() == self.deep_view(),
    {
        let help = match &self.help {
            Some(text) => Some(text.clone()),
            None => None,
        };
        let mut labels: Vec<Span> = Vec::new();
        let mut i: usize = 0;
        while i < self.labels.len()
            invariant
                i <= self.labels.len(),
                labels@ == self.labels@.take(i as int),
            decreases self.labels.len() - i,
        {
            labels.push(self.labels[i]);
            i += 1;
        }
        let source_code = match &self.source_code {
            Some(source) => Some(share(source)),
            None => None,
        };
        assert(labels@ =~= self.labels@);
        Diagnostic {
            severity: self.severity,
            message: self.message.clone(),
            help,
            labels,
            source_code,
        }
    }

    /// Whether the diagnostic is a warning.
    pub fn is_warning(&self) -> (warning: bool)
        ensures
            warning == self.deep_view().is_warning(),
    {
        match self.severity {
            Some(Severity::Warning) => true,
            _ => false,
        }
    }
}

/// Pushing an item onto a list pushes what it holds onto what the list holds.
pub proof fn lemma_push_deep_view<T: DeepView>(before: Vec<T>, after: Vec<T>, item: T)
    requires
        after@ == before@.push(item),
    ensures
        after.deep_view() == before.deep_view().push(item.deep_view()),
{
    assert(after.deep_view() =~= before.deep_view().push(item.deep_view()));
}

/// Copies a list of diagnostics, sharing their source texts.
pub fn duplicate_all(diagnostics: &Vec<Diagnostic>) -> (copies: Vec<Diagnostic>)
    ensures
        copies.deep_view() == diagnostics.deep_view(),
{
    let mut copies: Vec<Diagnostic> = Vec::new();
    let mut i: usize = 0;
    while i < diagnostics.len()
        invariant
            i <= diagnostics.len(),
            copies.deep_view() == diagnostics.deep_view().take(i as int),
        decreases diagnostics.len() - i,
    {
        let ghost before = copies;
        let copy = diagnostics[i].duplicate();
        copies.push(copy);
        proof {
            lemma_push_deep_view(before, copies, copy);
            assert(diagnostics.deep_view().take(i + 1) =~= diagnostics.deep_view().take(
                i as int,
            ).push(diagnostics@[i as int].deep_view()));
        }
        i += 1;
    }
    assert(diagnostics.deep_view().take(i as int) =~= diagnostics.deep_view());
    copies
}

} // verus!
