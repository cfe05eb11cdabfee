//! What the outside world has to say about one file, as plain values.
//!
//! The pipeline neither parses nor resolves nor lints. Its collaborators do:
//! the parser, the module-record builder, the resolver, the semantic
//! builder, the rule engine and the fixer. A [`SourceFile`] holds what they
//! yield for one file.

use crate::diagnostic::{lemma_push_deep_view, Diagnostic, DiagnosticView};
use vstd::prelude::*;

verus! {

/// One module request of a file, and what the resolver made of it.
#[derive(Debug)]
pub struct Import {
    /// The specifier as it stands in the source text.
    pub specifier: String,
    /// The path of the file that the specifier resolves to, relative to the
    /// directory of the importing file; `None` where it resolves to nothing.
    pub target: Option<String>,
}

/// What an [`Import`] holds.
pub struct ImportView {
    pub specifier: Seq<char>,
    pub target: Option<Seq<char>>,
}

impl DeepView for Import {
    type V = ImportView;

    open spec fn deep_view(&self) -> ImportView {
        ImportView { specifier: self.specifier@, target: self.target.deep_view() }
    }
}

/// One file and what its analysis yields.
#[derive(Debug)]
pub struct SourceFile {
    pub path: String,
    pub source_text: String,
    /// What the parser found wrong. A file with parse errors is not
    /// analysed any further, and its imports stay unknown.
    pub parse_errors: Vec<Diagnostic>,
    /// The module requests of the file, each once, in the order in which
    /// they first occur.
    pub imports: Vec<Import>,
    /// What the semantic builder found wrong. A file with semantic errors
    /// is not linted.
    pub semantic_errors: Vec<Diagnostic>,
    /// What the rule engine reports.
    pub messages: Vec<Diagnostic>,
    /// What is left of `messages` once the fixes have been applied.
    pub fixed_messages: Vec<Diagnostic>,
}

/// What a [`SourceFile`] holds.
pub struct SourceFileView {
    pub path: Seq<char>,
    pub source_text: Seq<char>,
    pub parse_errors: Seq<DiagnosticView>,
    pub imports: Seq<ImportView>,
    pub semantic_errors: Seq<DiagnosticView>,
    pub messages: Seq<DiagnosticView>,
    pub fixed_messages: Seq<DiagnosticView>,
}

impl DeepView for SourceFile {
    type V = SourceFileView;

    open spec fn deep_view(&self) -> SourceFileView {
        SourceFileView {
            path: self.path@,
            source_text: self.source_text@,
            parse_errors: self.parse_errors.deep_view(),
            imports: self.imports.deep_view(),
            semantic_errors: self.semantic_errors.deep_view(),
            messages: self.messages.deep_view(),
            fixed_messages: self.fixed_messages.deep_view(),
        }
    }
}

/// The specifiers of the imports, in their order.
pub open spec fn specifiers_of(imports: Seq<ImportView>) -> Seq<Seq<char>> {
    Seq::new(imports.len(), |i: int| imports[i].specifier)
}

impl SourceFileView {
    /// How many diagnostics the file can contribute at most.
    pub open spec fn weight(self) -> nat {
        self.parse_errors.len() + self.semantic_errors.len() + self.messages.len()
            + self.fixed_messages.len()
    }
}

impl SourceFile {
    /// A file that parses, imports nothing and has nothing wrong with it.
    pub fn new(path: String, source_text: String) -> (file: SourceFile)
        ensures
            file.deep_view() == (SourceFileView {
                path: path@,
                source_text: source_text@,
                parse_errors: Seq::empty(),
                imports: Seq::empty(),
                semantic_errors: Seq::empty(),
                messages: Seq::empty(),
                fixed_messages: Seq::empty(),
            }),
    {
        let file = SourceFile {
            path,
            source_text,
            parse_errors: Vec::new(),
            imports: Vec::new(),
            semantic_errors: Vec::new(),
            messages: Vec::new(),
            fixed_messages: Vec::new(),
        };
        assert(file.parse_errors.deep_view() =~= Seq::empty());
        assert(file.imports.deep_view() =~= Seq::empty());
        assert(file.semantic_errors.deep_view() =~= Seq::empty());
        assert(file.messages.deep_view() =~= Seq::empty());
        assert(file.fixed_messages.deep_view() =~= Seq::empty());
        file
    }

    /// The specifiers of the file's imports, in their order.
    pub fn module_requests(&self) -> (specifiers: Vec<String>)
        ensures
            specifiers.deep_view() == specifiers_of(self.deep_view().imports),
    {
        let mut specifiers: Vec<String> = Vec::new();
        let mut i: usize = 0;
        while i < self.imports.len()
            invariant
                i <= self.imports.len(),
                specifiers.deep_view() == specifiers_of(self.deep_view().imports).take(i as int),
            decreases self.imports.len() - i,
        {
            let ghost before = specifiers;
            let specifier = self.imports[i].specifier.clone();
            specifiers.push(specifier);
            proof {
                lemma_push_deep_view(before, specifiers, specifier);
                assert(specifiers_of(self.deep_view().imports).take(i + 1) =~= specifiers_of(
                    self.deep_view().imports,
                ).take(i as int).push(specifier@));
            }
            i += 1;
        }
        assert(specifiers_of(self.deep_view().imports).take(i as int) =~= specifiers_of(
            self.deep_view().imports,
        ));
        specifiers
    }
}

} // verus!
