//! A symbol as the semantic analysis knows it, and whether it is used:
//! which of the places that read it count.
//!
//! A read does not count where the symbol is read only to be written
//! again, as in `a = a + 1`, nor where a function is called only from
//! inside itself.

use super::binding::BindingPattern;
use super::ignored::DeclarationKind;
use super::options::same_text;
use crate::diagnostic::Span;
use vstd::prelude::*;

verus! {

/// What an assignment assigns to.
#[derive(Debug, Clone)]
pub enum AssignmentTarget {
    /// An identifier of this name.
    Identifier(String),
    /// A member of an object.
    Member,
    /// Another simple target.
    OtherSimple,
    /// A pattern.
    Pattern,
}

/// A node of the syntax tree, as far as the question of usage reads it.
#[derive(Debug, Clone)]
pub enum NodeKind {
    ModuleDeclaration { is_export: bool },
    VariableDeclaration,
    VariableDeclarator,
    UpdateExpression,
    SimpleAssignmentTarget,
    AssignmentExpression { left: AssignmentTarget },
    Argument,
    ForInStatement,
    ForOfStatement,
    WhileStatement,
    Function,
    ExpressionStatement,
    YieldExpression,
    CallExpression,
    NewExpression,
    ParenthesizedExpression,
    /// A method of a class, and whether it is a setter.
    MethodDefinition { is_setter: bool },
    /// A property of an object, and whether it is a setter.
    ObjectProperty { is_setter: bool },
    /// Any other node.
    Other,
}

/// One scope on the way from a scope to the root.
#[derive(Debug, Clone, Copy, PartialEq, Eq, Structural)]
pub struct Scope {
    pub id: u32,
    /// Whether the scope binds the name of the symbol.
    pub binds_name: bool,
}

/// A place where a symbol is referred to.
#[derive(Debug, Clone)]
pub struct Reference {
    /// Whether the symbol is read there.
    pub is_read: bool,
    /// The nodes above the reference, the nearest first.
    pub parents: Vec<NodeKind>,
    /// The scope of the reference.
    pub scope_id: u32,
    /// The scopes from that of the reference to the root, that of the
    /// reference first.
    pub scope_ancestors: Vec<u32>,
}

/// The symbol of a parameter, as the scope of its function knows it.
#[derive(Debug, Clone)]
pub struct ParameterSymbol {
    pub symbol_id: u32,
    /// The places that refer to the parameter.
    pub references: Vec<Reference>,
}

/// One formal parameter of a function.
#[derive(Debug)]
pub struct FormalParameter {
    pub pattern: BindingPattern,
    /// The symbol of the parameter, where the parameter is an identifier
    /// that the scope of the function binds.
    pub symbol: Option<ParameterSymbol>,
}

/// The node that declares a symbol, as far as the rule reads it.
#[derive(Debug)]
pub enum Declaration {
    /// An import, at `span`.
    ModuleDeclaration { span: Span },
    /// `var`, `let` or `const`, with the pattern that it binds.
    VariableDeclarator { is_var: bool, id: BindingPattern },
    /// A function, with the place of its name if it has one.
    Function { id: Option<Span> },
    /// A class, with the place of its name if it has one.
    Class { id: Option<Span> },
    /// A `catch` clause, with the place of its parameter if it has one.
    CatchClause { param: Option<Span> },
    /// The parameters of a function.
    FormalParameters { items: Vec<FormalParameter> },
    FormalParameter,
    /// Any other node.
    Other,
}

impl Declaration {
    /// The kind of the node.
    pub open spec fn spec_kind(self) -> DeclarationKind {
        match self {
            Declaration::ModuleDeclaration { .. } => DeclarationKind::ModuleDeclaration,
            Declaration::VariableDeclarator { .. } => DeclarationKind::VariableDeclarator,
            Declaration::Function { .. } => DeclarationKind::Function,
            Declaration::Class { .. } => DeclarationKind::Class,
            Declaration::CatchClause { .. } => DeclarationKind::CatchClause,
            Declaration::FormalParameters { .. } => DeclarationKind::FormalParameters,
            Declaration::FormalParameter => DeclarationKind::FormalParameter,
            Declaration::Other => DeclarationKind::Other,
        }
    }

    /// The kind of the node.
    pub fn kind(&self) -> (kind: DeclarationKind)
        ensures
            kind == self.spec_kind(),
    {
        match self {
            Declaration::ModuleDeclaration { .. } => DeclarationKind::ModuleDeclaration,
            Declaration::VariableDeclarator { .. } => DeclarationKind::VariableDeclarator,
            Declaration::Function { .. } => DeclarationKind::Function,
            Declaration::Class { .. } => DeclarationKind::Class,
            Declaration::CatchClause { .. } => DeclarationKind::CatchClause,
            Declaration::FormalParameters { .. } => DeclarationKind::FormalParameters,
            Declaration::FormalParameter => DeclarationKind::FormalParameter,
            Declaration::Other => DeclarationKind::Other,
        }
    }
}

/// A symbol, and what the semantic analysis knows of it.
#[derive(Debug)]
pub struct SymbolContext {
    pub name: String,
    pub symbol_id: u32,
    /// The scope of the declaration. A function and a class have the scope
    /// that they make.
    pub scope_id: u32,
    /// Whether that scope is the root scope.
    pub scope_is_root: bool,
    /// Whether the symbol is a variable.
    pub is_variable: bool,
    /// Whether the symbol is an import binding or the variable of a
    /// `catch` clause.
    pub is_import_or_catch: bool,
    /// Whether the symbol is flagged as exported.
    pub has_export_flag: bool,
    /// Whether the module exports a binding of the symbol's name.
    pub in_exported_bindings: bool,
    /// The node that declares the symbol.
    pub declaration: Declaration,
    /// The nodes above the declaration, the nearest first.
    pub parents: Vec<NodeKind>,
    /// The scopes from that of the declaration to the root, that of the
    /// declaration first.
    pub scope_ancestors: Vec<Scope>,
    /// The places that refer to the symbol.
    pub references: Vec<Reference>,
}

/// How going up from a reference ends.
pub enum Walk {
    /// The nodes above have to be looked at.
    Up,
    /// The answer is known.
    Done(bool),
}

/// What one node above a reference says about the read: `used_by_others`
/// is what was found below it.
pub open spec fn reassignment_step(name: Seq<char>, node: NodeKind, used_by_others: bool) -> (
    Walk,
    bool,
) {
    match node {
        // references used in declaration of another variable are definitely
        // used by others
        NodeKind::VariableDeclarator => (Walk::Done(false), used_by_others),
        // When symbol is being assigned a new value, we flag the reference
        // as only affecting itself until proven otherwise.
        NodeKind::UpdateExpression | NodeKind::SimpleAssignmentTarget => (Walk::Up, false),
        // RHS usage when LHS != reference's symbol is definitely used by
        // others
        NodeKind::AssignmentExpression { left: AssignmentTarget::Identifier(target) } => {
            if target@ == name {
                (Walk::Up, false)
            } else {
                (Walk::Done(false), used_by_others)
            }
        },
        // variable is being used to index another variable, this is
        // always a usage
        NodeKind::AssignmentExpression { left: AssignmentTarget::Member } => (
            Walk::Done(false),
            used_by_others,
        ),
        // expression is over
        NodeKind::Argument
        | NodeKind::ForInStatement
        | NodeKind::ForOfStatement
        | NodeKind::WhileStatement
        | NodeKind::Function
        | NodeKind::ExpressionStatement => (Walk::Done(!used_by_others), used_by_others),
        NodeKind::YieldExpression => (Walk::Done(false), used_by_others),
        _ => (Walk::Up, used_by_others),
    }
}

/// Whether a read of `name` serves only to write `name` again: the nodes
/// above the reference are gone through from the `from`th on.
pub open spec fn self_reassignment(
    name: Seq<char>,
    parents: Seq<NodeKind>,
    from: int,
    used_by_others: bool,
) -> bool
    decreases parents.len() - from,
{
    if 0 <= from < parents.len() {
        match reassignment_step(name, parents[from], used_by_others) {
            (Walk::Done(answer), _) => answer,
            (Walk::Up, used) => self_reassignment(name, parents, from + 1, used),
        }
    } else {
        !used_by_others
    }
}

/// The place of the first node from the `from`th on that is no
/// parenthesised expression; the number of nodes if there is none.
pub open spec fn first_unparenthesised(parents: Seq<NodeKind>, from: int) -> int
    decreases parents.len() - from,
{
    if 0 <= from < parents.len() {
        if parents[from] is ParenthesizedExpression {
            first_unparenthesised(parents, from + 1)
        } else {
            from
        }
    } else {
        parents.len() as int
    }
}

/// The reference is what is called or constructed.
pub open spec fn is_callee(parents: Seq<NodeKind>) -> bool {
    let at = first_unparenthesised(parents, 0);
    at < parents.len() && (parents[at] is CallExpression || parents[at] is NewExpression)
}

/// The place of the first scope from the `from`th on that binds the
/// name; the number of scopes if there is none.
pub open spec fn binding_scope(scopes: Seq<Scope>, from: int) -> int
    decreases scopes.len() - from,
{
    if 0 <= from < scopes.len() {
        if scopes[from].binds_name {
            from
        } else {
            binding_scope(scopes, from + 1)
        }
    } else {
        scopes.len() as int
    }
}

/// Whether a reference is a call of the symbol from inside the symbol
/// itself: the reference is what is called, in another scope than the one
/// that binds the symbol, but below it.
pub open spec fn self_call(symbol: SymbolContext, reference: Reference) -> bool {
    let declared = binding_scope(symbol.scope_ancestors@, 0);
    is_callee(reference.parents@) && declared < symbol.scope_ancestors@.len()
        && reference.scope_id != symbol.scope_ancestors@[declared].id
        && reference.scope_ancestors@.contains(symbol.scope_ancestors@[declared].id)
}

/// Whether a reference counts as a usage of the symbol.
pub open spec fn counts(symbol: SymbolContext, reference: Reference) -> bool {
    &&& reference.is_read
    &&& !(symbol.is_variable && self_reassignment(symbol.name@, reference.parents@, 0, true))
    &&& !(!symbol.is_import_or_catch && self_call(symbol, reference))
}

/// Whether one of the references from the `from`th on counts as a usage.
pub open spec fn used_from(symbol: SymbolContext, references: Seq<Reference>, from: int) -> bool
    decreases references.len() - from,
{
    if 0 <= from < references.len() {
        counts(symbol, references[from]) || used_from(symbol, references, from + 1)
    } else {
        false
    }
}

/// Whether the nodes above a declaration from the `from`th on say that the
/// declaration stands in an export: variable declarations are passed over,
/// and the first other node decides.
pub open spec fn exported_from(parents: Seq<NodeKind>, from: int) -> bool
    decreases parents.len() - from,
{
    if 0 <= from < parents.len() {
        match parents[from] {
            NodeKind::ModuleDeclaration { is_export } => is_export,
            NodeKind::VariableDeclaration => exported_from(parents, from + 1),
            _ => false,
        }
    } else {
        false
    }
}

/// Whether the symbol is exported: a symbol of the root scope that is
/// flagged or that the module exports by name, or one whose declaration
/// stands in an export.
pub open spec fn exported(symbol: SymbolContext) -> bool {
    (symbol.scope_is_root && (symbol.has_export_flag || symbol.in_exported_bindings))
        || exported_from(symbol.parents@, 0)
}

/// Whether the symbol is used: whether one of the places that refer to it
/// counts as a usage.
pub open spec fn used(symbol: SymbolContext) -> bool {
    used_from(symbol, symbol.references@, 0)
}

impl SymbolContext {
    pub fn name(&self) -> (name: &str)
        ensures
            name@ == self.name@,
    {
        self.name.as_str()
    }

    pub fn declaration(&self) -> (declaration: &Declaration)
        ensures
            *declaration == self.declaration,
    {
        &self.declaration
    }

    pub fn scope_id(&self) -> (id: u32)
        ensures
            id == self.scope_id,
    {
        self.scope_id
    }

    pub fn symbol_id(&self) -> (id: u32)
        ensures
            id == self.symbol_id,
    {
        self.symbol_id
    }

    /// Get the nth parent above this symbol's declaration. 0-indexed.
    pub fn nth_parent(&self, n: usize) -> (parent: Option<&NodeKind>)
        ensures
            match parent {
                Some(parent) => n < self.parents@.len() && *parent == self.parents@[n as int],
                None => n >= self.parents@.len(),
            },
    {
        if n < self.parents.len() {
            Some(&self.parents[n])
        } else {
            None
        }
    }

    /// Whether the symbol is exported: a symbol of the root scope that is
    /// flagged or that the module exports by name, or one whose
    /// declaration stands in an export.
    pub fn is_exported(&self) -> (yes: bool)
        ensures
            yes == exported(*self),
    {
        (self.is_root() && (self.has_export_flag || self.in_exported_bindings))
            || self.in_export_node()
    }

    /// Whether the declaration of the symbol stands in an export.
    #[verifier::loop_isolation(false)]
    pub fn in_export_node(&self) -> (exported: bool)
        ensures
            exported == exported_from(self.parents@, 0),
    {
        let mut i: usize = 0;
        while i < self.parents.len()
            invariant
                i <= self.parents.len(),
                exported_from(self.parents@, 0) == exported_from(self.parents@, i as int),
            decreases self.parents.len() - i,
        {
            match &self.parents[i] {
                NodeKind::ModuleDeclaration { is_export } => {
                    return *is_export;
                },
                NodeKind::VariableDeclaration => {},
                _ => {
                    return false;
                },
            }
            i += 1;
        }
        false
    }

    /// Whether the symbol is root-scoped.
    pub fn is_root(&self) -> (root: bool)
        ensures
            root == self.scope_is_root,
    {
        self.scope_is_root
    }

    /// Whether the symbol is used.
    pub fn has_usages(&self) -> (yes: bool)
        ensures
            yes == used(*self),
    {
        self.has_usages_of(&self.references)
    }

    /// Whether one of `references` counts as a usage, judged as a
    /// reference to a symbol of the kind of this one.
    #[verifier::loop_isolation(false)]
    pub fn has_usages_of(&self, references: &Vec<Reference>) -> (used: bool)
        ensures
            used == used_from(*self, references@, 0),
    {
        let do_self_reassignment_check = self.is_variable;
        let do_self_call_check = !self.is_import_or_catch;
        let mut i: usize = 0;
        while i < references.len()
            invariant
                i <= references.len(),
                used_from(*self, references@, 0) == used_from(*self, references@, i as int),
            decreases references.len() - i,
        {
            let reference = &references[i];
            if reference.is_read {
                let reassigned = do_self_reassignment_check && self.is_self_reassignment(
                    reference,
                );
                if !reassigned {
                    let called = do_self_call_check && self.is_self_call(reference);
                    if !called {
                        return true;
                    }
                }
            }
            i += 1;
        }
        false
    }

    /// Whether a read of the symbol serves only to write the symbol again.
    #[verifier::loop_isolation(false)]
    pub fn is_self_reassignment(&self, reference: &Reference) -> (reassigned: bool)
        ensures
            reassigned == self_reassignment(self.name@, reference.parents@, 0, true),
    {
        let mut is_used_by_others = true;
        let mut i: usize = 0;
        while i < reference.parents.len()
            invariant
                i <= reference.parents.len(),
                self_reassignment(self.name@, reference.parents@, 0, true) == self_reassignment(
                    self.name@,
                    reference.parents@,
                    i as int,
                    is_used_by_others,
                ),
            decreases reference.parents.len() - i,
        {
            match &reference.parents[i] {
                NodeKind::VariableDeclarator => {
                    // definitely used, short-circuit
                    return false;
                },
                NodeKind::UpdateExpression | NodeKind::SimpleAssignmentTarget => {
                    is_used_by_others = false;
                },
                NodeKind::AssignmentExpression { left: AssignmentTarget::Identifier(target) } => {
                    if same_text(target.as_str(), self.name.as_str()) {
                        is_used_by_others = false;
                    } else {
                        // we can short-circuit
                        return false;
                    }
                },
                NodeKind::AssignmentExpression { left: AssignmentTarget::Member } => {
                    return false;
                },
                NodeKind::Argument
                | NodeKind::ForInStatement
                | NodeKind::ForOfStatement
                | NodeKind::WhileStatement
                | NodeKind::Function
                | NodeKind::ExpressionStatement => {
                    return !is_used_by_others;
                },
                NodeKind::YieldExpression => {
                    return false;
                },
                _ => {  /* continue up tree */
                },
            }
            i += 1;
        }
        !is_used_by_others
    }

    /// Whether a reference is a call of the symbol from inside the symbol
    /// itself.
    #[verifier::loop_isolation(false)]
    pub fn is_self_call(&self, reference: &Reference) -> (called: bool)
        ensures
            called == self_call(*self, *reference),
    {
        // determine what the reference is an operand of
        let mut at: usize = 0;
        while at < reference.parents.len() && matches!(
            reference.parents[at],
            NodeKind::ParenthesizedExpression
        )
            invariant
                at <= reference.parents.len(),
                first_unparenthesised(reference.parents@, 0) == first_unparenthesised(
                    reference.parents@,
                    at as int,
                ),
            decreases reference.parents.len() - at,
        {
            at += 1;
        }
        if at >= reference.parents.len() {
            return false;
        }
        match &reference.parents[at] {
            NodeKind::CallExpression | NodeKind::NewExpression => {},
            _ => {
                return false;
            },
        }
        // note: most nodes record what scope they were declared in. The
        // exception is functions and classes, which record the scopes they create.
        let mut declared: usize = 0;
        while declared < self.scope_ancestors.len() && !self.scope_ancestors[declared].binds_name
            invariant
                declared <= self.scope_ancestors.len(),
                binding_scope(self.scope_ancestors@, 0) == binding_scope(
                    self.scope_ancestors@,
                    declared as int,
                ),
            decreases self.scope_ancestors.len() - declared,
        {
            declared += 1;
        }
        if declared >= self.scope_ancestors.len() {
            return false;
        }
        let decl_scope_id = self.scope_ancestors[declared].id;
        if reference.scope_id == decl_scope_id {
            return false;
        }
        let mut i: usize = 0;
        while i < reference.scope_ancestors.len()
            invariant
                i <= reference.scope_ancestors.len(),
                forall|k: int| 0 <= k < i ==> reference.scope_ancestors@[k] != decl_scope_id,
            decreases reference.scope_ancestors.len() - i,
        {
            if reference.scope_ancestors[i] == decl_scope_id {
                return true;
            }
            i += 1;
        }
        false
    }
}

} // verus!
