//! The rule against unused variables: its options, what it ignores, and what
//! it says.
//!
//! Detects and reports variables, imports, args, functions, etc. that are
//! defined and/or assigned a value, but otherwise not used.

pub mod binding;
pub mod diagnostic;
pub mod ignored;
pub mod options;
pub mod pattern;
pub mod rule;
pub mod usage;

use crate::diagnostic::Span;
use options::{ArgsOption, NoUnusedVarsView, VarsOption};
use pattern::{pattern_view, IgnorePattern};
use vstd::prelude::*;
use vstd::std_specs::convert::FromSpecImpl;

verus! {

/// The options of the rule.
#[derive(Debug)]
pub struct NoUnusedVars {
    /// Controls how usage of a variable in the global scope is checked.
    ///
    /// This option has two settings:
    /// 1. `all` checks all variables for usage, including those in the global
    ///    scope. This is the default setting.
    /// 2. `local` checks only that locally-declared variables are used but will
    ///    allow global variables to be unused.
    vars: VarsOption,
    /// Specifies exceptions to this rule for unused variables. Variables whose
    /// names match this pattern will be ignored.
    vars_ignore_pattern: Option<IgnorePattern>,
    /// Controls how unused arguments are checked.
    ///
    /// This option has three settings:
    /// 1. `after-used` - Unused positional arguments that occur before the last
    ///    used argument will not be checked, but all named arguments and all
    ///    positional arguments after the last used argument will be checked.
    /// 2. `all` - All named arguments must be used.
    /// 3. `none` - Do not check arguments.
    args: ArgsOption,
    /// Specifies exceptions to this rule for unused arguments. Arguments whose
    /// names match this pattern will be ignored.
    args_ignore_pattern: Option<IgnorePattern>,
    /// Used for `catch` block validation.
    /// It has two settings:
    /// * `none` - do not check error objects. This is the default setting
    /// * `all` - all named arguments must be used
    ///
    /// `none` corresponds to `false`, while `all` corresponds to `true`.
    caught_errors: bool,
    /// Specifies exceptions to this rule for errors caught within a `catch` block.
    /// Variables declared within a `catch` block whose names match this pattern
    /// will be ignored.
    caught_errors_ignore_pattern: Option<IgnorePattern>,
    /// This option specifies exceptions within destructuring patterns that will
    /// not be checked for usage. Variables declared within array destructuring
    /// whose names match this pattern will be ignored.
    destructured_array_ignore_pattern: Option<IgnorePattern>,
    /// Using a Rest property it is possible to "omit" properties from an
    /// object, but by default the sibling properties are marked as "unused".
    /// With this option enabled the rest property's siblings are ignored.
    ignore_rest_siblings: bool,
}

impl View for NoUnusedVars {
    type V = NoUnusedVarsView;

    closed spec fn view(&self) -> NoUnusedVarsView {
        NoUnusedVarsView {
            vars: self.vars,
            vars_ignore_pattern: pattern_view(self.vars_ignore_pattern),
            args: self.args,
            args_ignore_pattern: pattern_view(self.args_ignore_pattern),
            caught_errors: self.caught_errors,
            caught_errors_ignore_pattern: pattern_view(self.caught_errors_ignore_pattern),
            destructured_array_ignore_pattern: pattern_view(
                self.destructured_array_ignore_pattern,
            ),
            ignore_rest_siblings: self.ignore_rest_siblings,
        }
    }
}

impl Default for NoUnusedVars {
    /// The options of a rule that was not configured.
    fn default() -> (options: NoUnusedVars)
        ensures
            options@ == NoUnusedVarsView::default(),
    {
        NoUnusedVars {
            vars: VarsOption::All,
            vars_ignore_pattern: None,
            args: ArgsOption::AfterUsed,
            args_ignore_pattern: None,
            caught_errors: false,
            caught_errors_ignore_pattern: None,
            destructured_array_ignore_pattern: None,
            ignore_rest_siblings: false,
        }
    }
}

impl NoUnusedVars {
    /// The options with these values.
    pub fn with(
        vars: VarsOption,
        vars_ignore_pattern: Option<IgnorePattern>,
        args: ArgsOption,
        args_ignore_pattern: Option<IgnorePattern>,
        caught_errors: bool,
        caught_errors_ignore_pattern: Option<IgnorePattern>,
        destructured_array_ignore_pattern: Option<IgnorePattern>,
        ignore_rest_siblings: bool,
    ) -> (options: NoUnusedVars)
        ensures
            options@ == (NoUnusedVarsView {
                vars,
                vars_ignore_pattern: pattern_view(vars_ignore_pattern),
                args,
                args_ignore_pattern: pattern_view(args_ignore_pattern),
                caught_errors,
                caught_errors_ignore_pattern: pattern_view(caught_errors_ignore_pattern),
                destructured_array_ignore_pattern: pattern_view(destructured_array_ignore_pattern),
                ignore_rest_siblings,
            }),
    {
        NoUnusedVars {
            vars,
            vars_ignore_pattern,
            args,
            args_ignore_pattern,
            caught_errors,
            caught_errors_ignore_pattern,
            destructured_array_ignore_pattern,
            ignore_rest_siblings,
        }
    }

    pub fn vars(&self) -> (vars: VarsOption)
        ensures
            vars == self@.vars,
    {
        self.vars
    }

    pub fn vars_ignore_pattern(&self) -> (pattern: &Option<IgnorePattern>)
        ensures
            pattern_view(*pattern) == self@.vars_ignore_pattern,
    {
        &self.vars_ignore_pattern
    }

    pub fn args(&self) -> (args: ArgsOption)
        ensures
            args == self@.args,
    {
        self.args
    }

    pub fn args_ignore_pattern(&self) -> (pattern: &Option<IgnorePattern>)
        ensures
            pattern_view(*pattern) == self@.args_ignore_pattern,
    {
        &self.args_ignore_pattern
    }

    pub fn caught_errors(&self) -> (caught_errors: bool)
        ensures
            caught_errors == self@.caught_errors,
    {
        self.caught_errors
    }

    pub fn caught_errors_ignore_pattern(&self) -> (pattern: &Option<IgnorePattern>)
        ensures
            pattern_view(*pattern) == self@.caught_errors_ignore_pattern,
    {
        &self.caught_errors_ignore_pattern
    }

    pub fn destructured_array_ignore_pattern(&self) -> (pattern: &Option<IgnorePattern>)
        ensures
            pattern_view(*pattern) == self@.destructured_array_ignore_pattern,
    {
        &self.destructured_array_ignore_pattern
    }

    pub fn ignore_rest_siblings(&self) -> (ignore_rest_siblings: bool)
        ensures
            ignore_rest_siblings == self@.ignore_rest_siblings,
    {
        self.ignore_rest_siblings
    }
}

/// Where a binding that is not used stands, and whether it is ignored all
/// the same.
#[derive(Debug, Clone, Copy, PartialEq, Eq, Structural)]
pub struct UnusedBindingResult(pub Span, pub bool);

impl UnusedBindingResult {
    pub fn span(&self) -> (span: Span)
        ensures
            span == self.0,
    {
        self.0
    }

    pub fn is_ignore(&self) -> (ignored: bool)
        ensures
            ignored == self.1,
    {
        self.1
    }

    /// The same binding, ignored.
    pub fn ignore(self) -> (result: UnusedBindingResult)
        ensures
            result == UnusedBindingResult(self.0, true),
    {
        UnusedBindingResult(self.0, true)
    }

    /// The same binding, ignored if it was or if `ignored` says so.
    pub fn or(self, ignored: bool) -> (result: UnusedBindingResult)
        ensures
            result == UnusedBindingResult(self.0, self.1 || ignored),
    {
        UnusedBindingResult(self.0, self.1 || ignored)
    }

}

impl From<Span> for UnusedBindingResult {
    /// A binding at `span` that is not ignored.
    fn from(span: Span) -> (result: UnusedBindingResult) {
        UnusedBindingResult(span, false)
    }
}

impl FromSpecImpl<Span> for UnusedBindingResult {
    open spec fn obeys_from_spec() -> bool {
        true
    }

    open spec fn from_spec(span: Span) -> UnusedBindingResult {
        UnusedBindingResult(span, false)
    }
}

impl From<UnusedBindingResult> for Span {
    /// Where the binding stands.
    fn from(result: UnusedBindingResult) -> (span: Span) {
        result.0
    }
}

impl FromSpecImpl<UnusedBindingResult> for Span {
    open spec fn obeys_from_spec() -> bool {
        true
    }

    open spec fn from_spec(result: UnusedBindingResult) -> Span {
        result.0
    }
}

} // verus!
