//! What the rule says about a variable that is not used.

use crate::diagnostic::{Diagnostic, DiagnosticView, Severity, Span};
use vstd::prelude::*;

verus! {

/// What was done to a variable that is never used.
#[derive(Debug, Clone, Copy, PartialEq, Eq, Structural)]
pub enum Action {
    Declared,
    Assigned,
    Imported,
}

impl Action {
    /// The word for the action.
    pub open spec fn word(self) -> Seq<char> {
        match self {
            Action::Declared => "declared"@,
            Action::Assigned => "assigned"@,
            Action::Imported => "imported"@,
        }
    }

    /// The word for the action.
    pub fn as_str(&self) -> (word: &'static str)
        ensures
            word@ == self.word(),
    {
        match self {
            Action::Declared => "declared",
            Action::Assigned => "assigned",
            Action::Imported => "imported",
        }
    }
}

/// An unused variable: its name, what was done to it, what else there is
/// to say, and where it stands.
#[derive(Debug)]
pub struct NoUnusedVarsDiagnostic(pub String, pub Action, pub String, pub Span);

/// The message of every diagnostic of the rule.
pub open spec fn rule_message() -> Seq<char> {
    "eslint(no-unused-vars): Unused variables are not allowed"@
}

/// The help text for the variable `name`.
pub open spec fn help_text(name: Seq<char>, action: Action, additional: Seq<char>) -> Seq<char> {
    name + " is "@ + action.word() + " but never used"@ + additional
}

impl NoUnusedVarsDiagnostic {
    /// Diagnostic for unused declaration, with no additional message.
    pub fn decl(var: String, span: Span) -> (diagnostic: NoUnusedVarsDiagnostic)
        ensures
            diagnostic.0@ == var@,
            diagnostic.1 == Action::Declared,
            diagnostic.2@ == Seq::<char>::empty(),
            diagnostic.3 == span,
    {
        NoUnusedVarsDiagnostic(var, Action::Declared, String::new(), span)
    }

    /// Diagnostic for a variable that is declared and assigned a value, with no
    /// additional message.
    pub fn assigned(var: String, span: Span) -> (diagnostic: NoUnusedVarsDiagnostic)
        ensures
            diagnostic.0@ == var@,
            diagnostic.1 == Action::Assigned,
            diagnostic.2@ == Seq::<char>::empty(),
            diagnostic.3 == span,
    {
        NoUnusedVarsDiagnostic(var, Action::Assigned, String::new(), span)
    }

    /// Diagnostic for an import that is not used, with no additional
    /// message.
    pub fn import(var: String, span: Span) -> (diagnostic: NoUnusedVarsDiagnostic)
        ensures
            diagnostic.0@ == var@,
            diagnostic.1 == Action::Imported,
            diagnostic.2@ == Seq::<char>::empty(),
            diagnostic.3 == span,
    {
        NoUnusedVarsDiagnostic(var, Action::Imported, String::new(), span)
    }

    /// The same diagnostic with `additional` as its additional message.
    pub fn with_additional(self, additional: String) -> (diagnostic: NoUnusedVarsDiagnostic)
        ensures
            diagnostic.0@ == self.0@,
            diagnostic.1 == self.1,
            diagnostic.2@ == additional@,
            diagnostic.3 == self.3,
    {
        NoUnusedVarsDiagnostic(self.0, self.1, additional, self.3)
    }

    /// The diagnostic as the pipeline carries it: a warning with the
    /// rule's message, a help text that names the variable, and a label at
    /// the variable.
    pub fn into_diagnostic(self) -> (diagnostic: Diagnostic)
        ensures
            diagnostic.deep_view() == (DiagnosticView {
                severity: Some(Severity::Warning),
                message: rule_message(),
                help: Some(help_text(self.0@, self.1, self.2@)),
                labels: seq![self.3],
                source_code: None,
            }),
    {
        let mut help = self.0;
        help.append(" is ");
        help.append(self.1.as_str());
        help.append(" but never used");
        help.append(self.2.as_str());
        let diagnostic = Diagnostic::new(
            "eslint(no-unused-vars): Unused variables are not allowed".to_owned(),
        ).with_severity(Severity::Warning).with_help(help).with_label(self.3);
        assert(diagnostic.deep_view().labels =~= seq![self.3]);
        diagnostic
    }
}

} // verus!
