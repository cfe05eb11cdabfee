//! Which names the rule passes over.

use super::pattern::{ignores, is_none_or_match};
use super::NoUnusedVars;
use vstd::prelude::*;

verus! {

/// The kind of node that declares a symbol.
#[derive(Debug, Clone, Copy, PartialEq, Eq, Structural)]
pub enum DeclarationKind {
    VariableDeclarator,
    Function,
    Class,
    ModuleDeclaration,
    CatchClause,
    FormalParameters,
    FormalParameter,
    /// Any other kind of node.
    Other,
}

impl NoUnusedVars {
    /// Whether a variable of this name is ignored.
    pub fn is_ignored_var(&self, name: &str) -> (ignored: bool)
        ensures
            ignored == ignores(self@.vars_ignore_pattern, name@),
    {
        is_none_or_match(self.vars_ignore_pattern(), name)
    }

    /// Whether an argument of this name is ignored.
    pub fn is_ignored_arg(&self, name: &str) -> (ignored: bool)
        ensures
            ignored == ignores(self@.args_ignore_pattern, name@),
    {
        is_none_or_match(self.args_ignore_pattern(), name)
    }

    /// Whether a variable of this name that an array pattern declares is
    /// ignored.
    pub fn is_ignored_array_destructured(&self, name: &str) -> (ignored: bool)
        ensures
            ignored == ignores(self@.destructured_array_ignore_pattern, name@),
    {
        is_none_or_match(self.destructured_array_ignore_pattern(), name)
    }

    /// Whether a caught error of this name is ignored: all of them are
    /// unless caught errors are checked.
    pub fn is_ignored_catch_err(&self, name: &str) -> (ignored: bool)
        ensures
            ignored == (!self@.caught_errors || ignores(
                self@.caught_errors_ignore_pattern,
                name@,
            )),
    {
        !self.caught_errors() || is_none_or_match(self.caught_errors_ignore_pattern(), name)
    }

    /// Whether a symbol of this name is ignored, `declaration` being the
    /// kind of node that declares it. A symbol that a node of another kind
    /// declares is not ignored.
    pub fn is_ignored(&self, name: &str, declaration: DeclarationKind) -> (ignored: bool)
        ensures
            ignored == match declaration {
                DeclarationKind::VariableDeclarator
                | DeclarationKind::Function
                | DeclarationKind::Class
                | DeclarationKind::ModuleDeclaration => ignores(
                    self@.vars_ignore_pattern,
                    name@,
                ),
                DeclarationKind::CatchClause => !self@.caught_errors || ignores(
                    self@.caught_errors_ignore_pattern,
                    name@,
                ),
                DeclarationKind::FormalParameters | DeclarationKind::FormalParameter => ignores(
                    self@.args_ignore_pattern,
                    name@,
                ),
                DeclarationKind::Other => false,
            },
    {
        match declaration {
            DeclarationKind::VariableDeclarator
            | DeclarationKind::Function
            | DeclarationKind::Class
            | DeclarationKind::ModuleDeclaration => self.is_ignored_var(name),
            DeclarationKind::CatchClause => self.is_ignored_catch_err(name),
            DeclarationKind::FormalParameters | DeclarationKind::FormalParameter => {
                self.is_ignored_arg(name)
            },
            DeclarationKind::Other => false,
        }
    }
}

} // verus!
