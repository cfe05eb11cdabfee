//! The rule itself: what it reports for a symbol that nothing uses.

use super::binding::unused_binding;
use super::diagnostic::{Action, NoUnusedVarsDiagnostic};
use super::ignored::DeclarationKind;
use super::options::{ArgsOption, NoUnusedVarsView, VarsOption};
use super::pattern::ignores;
use super::usage::{
    exported, used, used_from, Declaration, FormalParameter, NodeKind, SymbolContext,
};
use super::{NoUnusedVars, UnusedBindingResult};
use crate::diagnostic::Span;
use vstd::prelude::*;

verus! {

/// What the rule has to say, as plain values: the place, and what was done
/// to the variable there.
pub type Finding = (Action, Span);

/// Whether a parameter behind the one that is being checked is used: the
/// parameters are gone through from the `upto`th back to the first, until
/// the one that is being checked or one that is used is met. Parameters
/// without a symbol are passed over.
pub open spec fn later_used(ctx: SymbolContext, args: Seq<FormalParameter>, upto: int) -> bool
    decreases upto + 1,
{
    if 0 <= upto < args.len() {
        match args[upto].symbol {
            None => later_used(ctx, args, upto - 1),
            Some(symbol) => if symbol.symbol_id == ctx.symbol_id {
                false
            } else if used_from(ctx, symbol.references@, 0) {
                true
            } else {
                later_used(ctx, args, upto - 1)
            },
        }
    } else {
        false
    }
}

/// Whether the parameters that declare the symbol are those of a setter,
/// which needs its parameter whether it uses it or not.
pub open spec fn in_setter(ctx: SymbolContext) -> bool {
    ctx.parents@.len() > 1 && (ctx.parents@[1] == (NodeKind::MethodDefinition { is_setter: true })
        || ctx.parents@[1] == (NodeKind::ObjectProperty { is_setter: true }))
}

/// The first binding of `name` that a parameter from the `from`th on has,
/// ignored or not.
pub open spec fn first_binding(
    options: NoUnusedVarsView,
    name: Seq<char>,
    args: Seq<FormalParameter>,
    from: int,
) -> Option<UnusedBindingResult>
    decreases args.len() - from,
{
    if 0 <= from < args.len() {
        match unused_binding(options, name, args[from].pattern) {
            Some(found) => Some(found),
            None => first_binding(options, name, args, from + 1),
        }
    } else {
        None
    }
}

/// The first binding of `name` that a parameter from the `from`th on has
/// and that is not ignored.
pub open spec fn first_unignored_binding(
    options: NoUnusedVarsView,
    name: Seq<char>,
    args: Seq<FormalParameter>,
    from: int,
) -> Option<Span>
    decreases args.len() - from,
{
    if 0 <= from < args.len() {
        match unused_binding(options, name, args[from].pattern) {
            Some(UnusedBindingResult(span, false)) => Some(span),
            _ => first_unignored_binding(options, name, args, from + 1),
        }
    } else {
        None
    }
}

/// Where the unused argument that `ctx` stands for is to be reported, if
/// anywhere, `args` being the parameters that declare it. Nothing is
/// reported where arguments are not checked, in a setter, for an ignored
/// name, or for an argument that is used. Where all arguments are checked,
/// the first binding of the name decides. Where only those after the last
/// used one are, nothing is reported if a later argument is used.
pub open spec fn unused_argument(
    options: NoUnusedVarsView,
    ctx: SymbolContext,
    args: Seq<FormalParameter>,
) -> Option<Span> {
    if options.args == ArgsOption::Unchecked || in_setter(ctx) {
        None
    } else if ignores(options.args_ignore_pattern, ctx.name@) || used(ctx) {
        None
    } else if options.args == ArgsOption::All {
        match first_binding(options, ctx.name@, args, 0) {
            Some(UnusedBindingResult(span, false)) => Some(span),
            _ => None,
        }
    } else if later_used(ctx, args, args.len() - 1) {
        None
    } else {
        first_unignored_binding(options, ctx.name@, args, 0)
    }
}

/// What the rule reports for a symbol, if anything.
pub open spec fn finding(options: NoUnusedVarsView, ctx: SymbolContext) -> Option<Finding> {
    if exported(ctx) || symbol_ignored(options, ctx.name@, ctx.declaration.spec_kind()) || used(
        ctx,
    ) {
        None
    } else {
        match ctx.declaration {
            Declaration::ModuleDeclaration { span } => Some((Action::Imported, span)),
            Declaration::VariableDeclarator { is_var, id } => {
                if is_var && options.vars == VarsOption::Local {
                    None
                } else {
                    match unused_binding(options, ctx.name@, id) {
                        Some(UnusedBindingResult(span, false)) => Some((Action::Declared, span)),
                        _ => None,
                    }
                }
            },
            Declaration::Function { id: Some(span) } => Some((Action::Declared, span)),
            Declaration::Class { id: Some(span) } => Some((Action::Declared, span)),
            Declaration::CatchClause { param: Some(span) } => Some((Action::Declared, span)),
            Declaration::FormalParameters { items } => match unused_argument(
                options,
                ctx,
                items@,
            ) {
                Some(span) => Some((Action::Declared, span)),
                None => None,
            },
            _ => None,
        }
    }
}

/// Whether a symbol of this name and this kind of declaration is ignored.
pub open spec fn symbol_ignored(
    options: NoUnusedVarsView,
    name: Seq<char>,
    declaration: DeclarationKind,
) -> bool {
    match declaration {
        DeclarationKind::VariableDeclarator
        | DeclarationKind::Function
        | DeclarationKind::Class
        | DeclarationKind::ModuleDeclaration => ignores(options.vars_ignore_pattern, name),
        DeclarationKind::CatchClause => !options.caught_errors || ignores(
            options.caught_errors_ignore_pattern,
            name,
        ),
        DeclarationKind::FormalParameters | DeclarationKind::FormalParameter => ignores(
            options.args_ignore_pattern,
            name,
        ),
        DeclarationKind::Other => false,
    }
}

impl NoUnusedVars {
    /// Where the unused argument that `ctx` stands for is to be reported,
    /// if anywhere, `args` being the parameters that declare it.
    #[verifier::loop_isolation(false)]
    pub fn check_unused_arguments(&self, ctx: &SymbolContext, args: &Vec<FormalParameter>) -> (span:
        Option<Span>)
        ensures
            span == unused_argument(self@, *ctx, args@),
    {
        // short-circuit when not checking args or arg is inside a setter method
        // (setters always need params, even if unused)
        if self.args() == ArgsOption::Unchecked {
            return None;
        }
        match ctx.nth_parent(1) {
            Some(NodeKind::MethodDefinition { is_setter: true })
            | Some(NodeKind::ObjectProperty { is_setter: true }) => {
                return None;
            },
            _ => {},
        }
        let name = ctx.name();
        // skip ignored or used args
        if self.is_ignored_arg(name) || ctx.has_usages() {
            return None;
        }
        if self.args() == ArgsOption::All {
            let mut i: usize = 0;
            while i < args.len()
                invariant
                    i <= args.len(),
                    first_binding(self@, name@, args@, 0) == first_binding(
                        self@,
                        name@,
                        args@,
                        i as int,
                    ),
                decreases args.len() - i,
            {
                match self.check_unused_binding_pattern(name, &args[i].pattern) {
                    Some(found) => {
                        return if found.is_ignore() {
                            None
                        } else {
                            Some(found.span())
                        };
                    },
                    None => {},
                }
                i += 1;
            }
            return None;
        }
        // set to true when a arg defined behind the current one is found to
        // be used
        let mut has_prev_used = false;
        let mut reached_current = false;
        let mut i: usize = args.len();
        while i > 0 && !has_prev_used && !reached_current
            invariant
                i <= args.len(),
                later_used(*ctx, args@, args.len() - 1) == if has_prev_used {
                    true
                } else if reached_current {
                    false
                } else {
                    later_used(*ctx, args@, i - 1)
                },
            decreases i,
        {
            i -= 1;
            match &args[i].symbol {
                None => {},
                Some(symbol) => {
                    // we've reached the current argument
                    if symbol.symbol_id == ctx.symbol_id() {
                        reached_current = true;
                    } else if ctx.has_usages_of(&symbol.references) {
                        has_prev_used = true;
                    }
                },
            }
        }
        if has_prev_used {
            return None;
        }
        let mut i: usize = 0;
        while i < args.len()
            invariant
                i <= args.len(),
                first_unignored_binding(self@, name@, args@, 0) == first_unignored_binding(
                    self@,
                    name@,
                    args@,
                    i as int,
                ),
            decreases args.len() - i,
        {
            match self.check_unused_binding_pattern(name, &args[i].pattern) {
                Some(found) => {
                    if !found.is_ignore() {
                        return Some(found.span());
                    }
                },
                None => {},
            }
            i += 1;
        }
        None
    }

    /// What the rule reports for a symbol, if anything. Nothing is
    /// reported for a symbol that is exported, ignored or used. Otherwise
    /// the node that declares the symbol decides.
    pub fn run_on_symbol(&self, ctx: &SymbolContext) -> (reported: Option<Finding>)
        ensures
            reported == finding(self@, *ctx),
    {
        // order matters. We want to call cheap/high "yield" functions first.
        if ctx.is_exported() || self.is_ignored(ctx.name(), ctx.declaration().kind())
            || ctx.has_usages() {
            return None;
        }
        let name = ctx.name();
        match ctx.declaration() {
            Declaration::ModuleDeclaration { span } => Some((Action::Imported, *span)),
            Declaration::VariableDeclarator { is_var, id } => {
                if *is_var && self.vars() == VarsOption::Local {
                    return None;
                }
                match self.check_unused_binding_pattern(name, id) {
                    Some(found) => if found.is_ignore() {
                        None
                    } else {
                        Some((Action::Declared, found.span()))
                    },
                    None => None,
                }
            },
            Declaration::Function { id: Some(span) } => Some((Action::Declared, *span)),
            Declaration::Class { id: Some(span) } => Some((Action::Declared, *span)),
            Declaration::CatchClause { param: Some(span) } => Some((Action::Declared, *span)),
            Declaration::FormalParameters { items } => {
                match self.check_unused_arguments(ctx, items) {
                    Some(span) => Some((Action::Declared, span)),
                    None => None,
                }
            },
            _ => None,
        }
    }

    /// The diagnostic for a finding about the variable `name`.
    pub fn report(name: &str, finding: Finding) -> (diagnostic: NoUnusedVarsDiagnostic)
        ensures
            diagnostic.0@ == name@,
            diagnostic.1 == finding.0,
            diagnostic.2@ == Seq::<char>::empty(),
            diagnostic.3 == finding.1,
    {
        match finding.0 {
            Action::Declared => NoUnusedVarsDiagnostic::decl(name.to_owned(), finding.1),
            Action::Assigned => NoUnusedVarsDiagnostic::assigned(name.to_owned(), finding.1),
            Action::Imported => NoUnusedVarsDiagnostic::import(name.to_owned(), finding.1),
        }
    }
}

impl SymbolContext {
    /// The diagnostic that reports `finding` about the symbol.
    pub fn diagnostic(&self, finding: Finding) -> (diagnostic: NoUnusedVarsDiagnostic)
        ensures
            diagnostic.0@ == self.name@,
            diagnostic.1 == finding.0,
            diagnostic.2@ == Seq::<char>::empty(),
            diagnostic.3 == finding.1,
    {
        NoUnusedVars::report(self.name(), finding)
    }
}

} // verus!
