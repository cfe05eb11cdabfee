//! Declaring symbols: as what a declaration binds its names, and in which
//! scopes.
//!
//! The binder decides. The caller walks the syntax tree, hands in what the
//! decision depends on, and declares the symbols.

use vstd::prelude::*;

verus! {

/// What a scope is, as far as binding reads it.
#[derive(Debug, Clone, Copy, PartialEq, Eq, Structural)]
pub struct ScopeFlags {
    /// The code in the scope is strict mode code.
    pub strict_mode: bool,
    /// The scope is the scope of the program.
    pub top: bool,
    /// The scope is the scope of a function.
    pub function: bool,
    /// The scope holds the `var` declarations that are made in it or below
    /// it.
    pub var: bool,
}

/// As what a name is bound: which flags its symbol gets, and with them
/// which symbols of the same name the scope may not hold already.
#[derive(Debug, Clone, Copy, PartialEq, Eq, Structural)]
pub enum SymbolKind {
    /// `var`, a parameter, or a function that is bound like a `var`.
    FunctionScopedVariable,
    /// `let`, or a function that is bound like a `let`.
    BlockScopedVariable,
    /// `const`
    ConstVariable,
    Class,
    /// The parameter of a `catch` clause that is an identifier. It may
    /// shadow what the scope holds.
    CatchVariable,
    /// A name that a pattern binds as the parameter of a `catch` clause.
    CatchPatternVariable,
    ImportBinding,
    TypeAlias,
    Interface,
    RegularEnum,
    ConstEnum,
    EnumMember,
    /// `namespace`
    NameSpaceModule,
    /// `declare namespace`
    AmbientNameSpaceModule,
    TypeParameter,
}

/// `var`, `let` or `const`.
#[derive(Debug, Clone, Copy, PartialEq, Eq, Structural)]
pub enum VariableKind {
    Var,
    Const,
    Let,
}

/// As what a variable declaration binds its names.
pub open spec fn variable_symbol(kind: VariableKind) -> SymbolKind {
    match kind {
        VariableKind::Const => SymbolKind::ConstVariable,
        VariableKind::Let => SymbolKind::BlockScopedVariable,
        VariableKind::Var => SymbolKind::FunctionScopedVariable,
    }
}

/// `depth` is the number of scopes above the scope of a `var` declaration
/// in which the variable is bound too. They are the scopes up to the
/// nearest one that holds `var` declarations, that one included, and all
/// the scopes above where none does. `above` holds the scopes above, the
/// nearest first.
pub open spec fn is_hoisting_depth(above: Seq<ScopeFlags>, depth: int) -> bool {
    &&& 0 <= depth <= above.len()
    &&& forall|i: int| 0 <= i < depth - 1 ==> !(#[trigger] above[i]).var
    &&& depth == above.len() || above[depth - 1].var
    &&& depth == 0 ==> above.len() == 0
}

/// The number of scopes above the scope of a variable declaration in which
/// the variable is bound too.
pub open spec fn hoisting_depth(
    kind: VariableKind,
    current: ScopeFlags,
    above: Seq<ScopeFlags>,
) -> int {
    if kind == VariableKind::Var && !current.var {
        choose|depth: int| is_hoisting_depth(above, depth)
    } else {
        0
    }
}

/// There is one hoisting depth at most.
pub proof fn lemma_hoisting_depth_unique(above: Seq<ScopeFlags>, first: int, second: int)
    requires
        is_hoisting_depth(above, first),
        is_hoisting_depth(above, second),
    ensures
        first == second,
{
    if first < second {
        if first == 0 {
        } else {
            assert(!above[first - 1].var);
        }
    }
    if second < first {
        if second == 0 {
        } else {
            assert(!above[second - 1].var);
        }
    }
}

/// The node above the one that is bound, as far as binding reads it.
#[derive(Debug, Clone, Copy, PartialEq, Eq, Structural)]
pub enum ParentKind {
    /// An `if`: the node is the single statement of one of its branches.
    IfStatement,
    /// The constructor of a class.
    Constructor,
    /// A getter of a class or of an object.
    Getter,
    /// A setter of a class or of an object.
    Setter,
    /// Another method or property, or another kind of node.
    Other,
}

/// Where a node stands: what the builder knows when it comes to bind it.
#[derive(Debug)]
pub struct Context {
    /// The current scope. For a function that is the scope that the
    /// function makes.
    pub scope: ScopeFlags,
    /// The scopes above the current one, the nearest first.
    pub above: Vec<ScopeFlags>,
    /// The source is a script, not a module.
    pub is_script: bool,
    /// The node above the one that is bound.
    pub parent: ParentKind,
}

/// What a [`Context`] holds.
pub struct ContextView {
    pub scope: ScopeFlags,
    pub above: Seq<ScopeFlags>,
    pub is_script: bool,
    pub parent: ParentKind,
}

impl View for Context {
    type V = ContextView;

    open spec fn view(&self) -> ContextView {
        ContextView {
            scope: self.scope,
            above: self.above@,
            is_script: self.is_script,
            parent: self.parent,
        }
    }
}

/// The scope in which a symbol is declared.
#[derive(Debug, Clone, Copy, PartialEq, Eq, Structural)]
pub enum Target {
    /// The current scope.
    Current,
    /// The scope above the current one.
    Parent,
}

/// What the scope of a function is flagged as besides.
#[derive(Debug, Clone, Copy, PartialEq, Eq, Structural)]
pub enum ScopeModifier {
    Constructor,
    GetAccessor,
    SetAccessor,
}

/// What binding a node comes to.
#[derive(Debug, Clone, Copy, PartialEq, Eq, Structural)]
pub struct Bound {
    /// As what the names of the node are declared; `None` where the node
    /// declares nothing.
    pub symbol: Option<SymbolKind>,
    /// In which scope they are declared.
    pub target: Target,
    /// In how many of the scopes above the current one the names are
    /// bound too, unless the scope has the name already.
    pub hoisted: usize,
    /// What the current scope is flagged as besides.
    pub modifier: Option<ScopeModifier>,
}

impl Bound {
    /// The names are declared as `symbol` in the current scope, if at all,
    /// and nothing else happens.
    pub open spec fn declares(symbol: Option<SymbolKind>) -> Bound {
        Bound { symbol, target: Target::Current, hoisted: 0, modifier: None }
    }

    /// The names are declared as `symbol` in the current scope, if at all,
    /// and nothing else happens.
    pub fn declare(symbol: Option<SymbolKind>) -> (bound: Bound)
        ensures
            bound == Bound::declares(symbol),
    {
        Bound { symbol, target: Target::Current, hoisted: 0, modifier: None }
    }
}

/// A node that declares symbols.
pub trait Binder {
    /// Whether the node can stand where `context` says.
    spec fn fits(&self, context: ContextView) -> bool;

    /// What binding the node comes to where `context` says.
    spec fn bound(&self, context: ContextView) -> Bound;

    /// Binds the node: says as what its names are to be declared, and
    /// where.
    fn bind(&self, context: &Context) -> (bound: Bound)
        requires
            self.fits(context@),
        ensures
            bound == self.bound(context@),
    ;
}

/// `var a`, `let a`, `const a`: one declarator of a variable declaration.
#[derive(Debug, Clone, Copy, PartialEq, Eq, Structural)]
pub struct VariableDeclarator {
    pub kind: VariableKind,
}

impl Binder for VariableDeclarator {
    open spec fn fits(&self, context: ContextView) -> bool {
        true
    }

    open spec fn bound(&self, context: ContextView) -> Bound {
        Bound {
            hoisted: hoisting_depth(self.kind, context.scope, context.above) as usize,
            ..Bound::declares(Some(variable_symbol(self.kind)))
        }
    }

    /// The names are declared in the current scope. Those of a `var`
    /// outside a scope that holds `var` declarations are bound in the
    /// scopes above too, up to the nearest one that holds them.
    fn bind(&self, context: &Context) -> (bound: Bound) {
        let symbol = match self.kind {
            VariableKind::Const => SymbolKind::ConstVariable,
            VariableKind::Let => SymbolKind::BlockScopedVariable,
            VariableKind::Var => SymbolKind::FunctionScopedVariable,
        };
        let mut hoisted: usize = 0;
        if self.kind == VariableKind::Var && !context.scope.var {
            let above = &context.above;
            let mut found = false;
            while hoisted < above.len() && !found
                invariant
                    hoisted <= above.len(),
                    forall|i: int|
                        0 <= i < (if found {
                            hoisted - 1
                        } else {
                            hoisted as int
                        }) ==> !(#[trigger] above@[i]).var,
                    found ==> hoisted > 0 && above@[hoisted - 1].var,
                decreases above.len() - hoisted,
            {
                found = above[hoisted].var;
                hoisted += 1;
            }
            proof {
                assert(is_hoisting_depth(above@, hoisted as int));
                let chosen = choose|depth: int| is_hoisting_depth(above@, depth);
                lemma_hoisting_depth_unique(above@, hoisted as int, chosen);
            }
        }
        Bound { symbol: Some(symbol), target: Target::Current, hoisted, modifier: None }
    }
}

/// A class.
#[derive(Debug, Clone, Copy, PartialEq, Eq, Structural)]
pub struct Class {
    /// The class has a name.
    pub has_id: bool,
    /// The class is only declared to exist (`declare class`).
    pub is_declared: bool,
}

impl Binder for Class {
    open spec fn fits(&self, context: ContextView) -> bool {
        true
    }

    open spec fn bound(&self, context: ContextView) -> Bound {
        Bound::declares(
            if self.has_id && !self.is_declared {
                Some(SymbolKind::Class)
            } else {
                None
            },
        )
    }

    /// A class with a name binds it, unless it is only declared to exist.
    fn bind(&self, context: &Context) -> (bound: Bound) {
        if self.has_id && !self.is_declared {
            Bound::declare(Some(SymbolKind::Class))
        } else {
            Bound::declare(None)
        }
    }
}

/// Whether a function that is declared in a scope with these flags is
/// bound like a `var`: in the scope of a function, and at the top of a
/// script.
pub open spec fn spec_function_as_var(flags: ScopeFlags, is_script: bool) -> bool {
    flags.function || (is_script && flags.top)
}

/// Whether a function that is declared in a scope with these flags is
/// bound like a `var`.
pub fn function_as_var(flags: ScopeFlags, is_script: bool) -> (as_var: bool)
    ensures
        as_var == spec_function_as_var(flags, is_script),
{
    flags.function || (is_script && flags.top)
}

/// A function.
#[derive(Debug, Clone, Copy, PartialEq, Eq, Structural)]
pub struct Function {
    /// The function has a name.
    pub has_id: bool,
    /// The function is a declaration, not an expression.
    pub is_declaration: bool,
    pub is_async: bool,
    pub is_generator: bool,
}

impl Function {
    /// Whether the function binds its name. Only a declaration with a
    /// name does, and not one that is the single statement of a branch of
    /// an `if` outside strict mode.
    pub open spec fn binds_name(self, context: ContextView) -> bool {
        self.has_id && self.is_declaration && !(!context.scope.strict_mode
            && context.parent == ParentKind::IfStatement)
    }

    /// Whether the function can stand where `context` says: one that
    /// binds its name lies in a scope.
    pub fn can_stand(&self, context: &Context) -> (possible: bool)
        ensures
            possible == self.fits(context@),
    {
        let binds_name = self.has_id && self.is_declaration && !(!context.scope.strict_mode
            && context.parent == ParentKind::IfStatement);
        !binds_name || context.above.len() > 0
    }

    /// As what the function binds its name in the scope around it, if it
    /// binds it. It is bound like a `let` where the scope around is strict
    /// mode code, or the function is `async` or a generator, unless
    /// functions in that scope are bound like a `var`.
    pub open spec fn symbol(self, context: ContextView) -> Option<SymbolKind> {
        if !self.binds_name(context) {
            None
        } else if (context.above[0].strict_mode || self.is_async || self.is_generator)
            && !spec_function_as_var(context.above[0], context.is_script) {
            Some(SymbolKind::BlockScopedVariable)
        } else {
            Some(SymbolKind::FunctionScopedVariable)
        }
    }
}

/// What the scope of a function is flagged as besides, by the node above
/// the function.
pub open spec fn scope_modifier(parent: ParentKind) -> Option<ScopeModifier> {
    match parent {
        ParentKind::Constructor => Some(ScopeModifier::Constructor),
        ParentKind::Getter => Some(ScopeModifier::GetAccessor),
        ParentKind::Setter => Some(ScopeModifier::SetAccessor),
        _ => None,
    }
}

impl Binder for Function {
    /// A function that binds its name lies in a scope.
    open spec fn fits(&self, context: ContextView) -> bool {
        self.binds_name(context) ==> context.above.len() > 0
    }

    open spec fn bound(&self, context: ContextView) -> Bound {
        Bound {
            symbol: self.symbol(context),
            target: Target::Parent,
            hoisted: 0,
            modifier: scope_modifier(context.parent),
        }
    }

    /// The name goes into the scope around the function, the current
    /// scope being the one that the function makes. That scope is flagged
    /// where the function is a constructor, a getter or a setter.
    fn bind(&self, context: &Context) -> (bound: Bound) {
        let symbol = if !self.has_id {
            None
        } else if !context.scope.strict_mode && context.parent == ParentKind::IfStatement {
            // Do not declare in if single statements,
            // if (false) function f() {} else function g() { }
            None
        } else if self.is_declaration {
            let parent = context.above[0];
            if (parent.strict_mode || self.is_async || self.is_generator) && !function_as_var(
                parent,
                context.is_script,
            ) {
                Some(SymbolKind::BlockScopedVariable)
            } else {
                Some(SymbolKind::FunctionScopedVariable)
            }
        } else {
            None
        };
        let modifier = match context.parent {
            ParentKind::Constructor => Some(ScopeModifier::Constructor),
            ParentKind::Getter => Some(ScopeModifier::GetAccessor),
            ParentKind::Setter => Some(ScopeModifier::SetAccessor),
            _ => None,
        };
        Bound { symbol, target: Target::Parent, hoisted: 0, modifier }
    }
}

/// The parameters of a function.
#[derive(Debug, Clone, Copy, PartialEq, Eq, Structural)]
pub struct FormalParameters {
    /// The parameters are those of a signature without a body.
    pub is_signature: bool,
}

impl Binder for FormalParameters {
    open spec fn fits(&self, context: ContextView) -> bool {
        true
    }

    open spec fn bound(&self, context: ContextView) -> Bound {
        Bound::declares(
            if self.is_signature {
                None
            } else {
                Some(SymbolKind::FunctionScopedVariable)
            },
        )
    }

    /// The parameters of a signature bind nothing.
    fn bind(&self, context: &Context) -> (bound: Bound) {
        if self.is_signature {
            Bound::declare(None)
        } else {
            Bound::declare(Some(SymbolKind::FunctionScopedVariable))
        }
    }
}

/// The parameter of a `catch` clause.
#[derive(Debug, Clone, Copy, PartialEq, Eq, Structural)]
pub enum CatchParameter {
    Identifier,
    Pattern,
}

/// A `catch` clause.
#[derive(Debug, Clone, Copy, PartialEq, Eq, Structural)]
pub struct CatchClause {
    pub param: Option<CatchParameter>,
}

impl Binder for CatchClause {
    open spec fn fits(&self, context: ContextView) -> bool {
        true
    }

    open spec fn bound(&self, context: ContextView) -> Bound {
        Bound::declares(
            match self.param {
                Some(CatchParameter::Identifier) => Some(SymbolKind::CatchVariable),
                Some(CatchParameter::Pattern) => Some(SymbolKind::CatchPatternVariable),
                None => None,
            },
        )
    }

    /// An identifier may shadow what the scope holds, the names of a
    /// pattern may not.
    fn bind(&self, context: &Context) -> (bound: Bound) {
        match self.param {
            Some(CatchParameter::Identifier) => Bound::declare(Some(SymbolKind::CatchVariable)),
            Some(CatchParameter::Pattern) => Bound::declare(
                Some(SymbolKind::CatchPatternVariable),
            ),
            None => Bound::declare(None),
        }
    }
}

/// An `import`.
#[derive(Debug, Clone, Copy, PartialEq, Eq, Structural)]
pub struct ModuleDeclaration {}

impl Binder for ModuleDeclaration {
    open spec fn fits(&self, context: ContextView) -> bool {
        true
    }

    open spec fn bound(&self, context: ContextView) -> Bound {
        Bound::declares(Some(SymbolKind::ImportBinding))
    }

    fn bind(&self, context: &Context) -> (bound: Bound) {
        Bound::declare(Some(SymbolKind::ImportBinding))
    }
}

/// `type T = ...`
#[derive(Debug, Clone, Copy, PartialEq, Eq, Structural)]
pub struct TSTypeAliasDeclaration {}

impl Binder for TSTypeAliasDeclaration {
    open spec fn fits(&self, context: ContextView) -> bool {
        true
    }

    open spec fn bound(&self, context: ContextView) -> Bound {
        Bound::declares(Some(SymbolKind::TypeAlias))
    }

    fn bind(&self, context: &Context) -> (bound: Bound) {
        Bound::declare(Some(SymbolKind::TypeAlias))
    }
}

/// `interface I { ... }`
#[derive(Debug, Clone, Copy, PartialEq, Eq, Structural)]
pub struct TSInterfaceDeclaration {}

impl Binder for TSInterfaceDeclaration {
    open spec fn fits(&self, context: ContextView) -> bool {
        true
    }

    open spec fn bound(&self, context: ContextView) -> Bound {
        Bound::declares(Some(SymbolKind::Interface))
    }

    fn bind(&self, context: &Context) -> (bound: Bound) {
        Bound::declare(Some(SymbolKind::Interface))
    }
}

/// `enum E { ... }`
#[derive(Debug, Clone, Copy, PartialEq, Eq, Structural)]
pub struct TSEnumDeclaration {
    /// `const enum`
    pub is_const: bool,
}

impl Binder for TSEnumDeclaration {
    open spec fn fits(&self, context: ContextView) -> bool {
        true
    }

    open spec fn bound(&self, context: ContextView) -> Bound {
        Bound::declares(
            Some(
                if self.is_const {
                    SymbolKind::ConstEnum
                } else {
                    SymbolKind::RegularEnum
                },
            ),
        )
    }

    fn bind(&self, context: &Context) -> (bound: Bound) {
        if self.is_const {
            Bound::declare(Some(SymbolKind::ConstEnum))
        } else {
            Bound::declare(Some(SymbolKind::RegularEnum))
        }
    }
}

/// The name of a member of an `enum`, as it is written.
#[derive(Debug)]
pub enum TSEnumMemberName {
    Identifier(String),
    StringLiteral(String),
    /// A number, as the text that stands for it.
    NumberLiteral(String),
    /// An expression in brackets.
    ComputedPropertyName,
}

/// A member of an `enum`.
#[derive(Debug)]
pub struct TSEnumMember {
    pub id: TSEnumMemberName,
}

impl TSEnumMember {
    /// The name that the member binds, if it binds one: a computed name
    /// binds none.
    pub open spec fn spec_name(self) -> Option<Seq<char>> {
        match self.id {
            TSEnumMemberName::Identifier(name) => Some(name@),
            TSEnumMemberName::StringLiteral(value) => Some(value@),
            TSEnumMemberName::NumberLiteral(text) => Some(text@),
            TSEnumMemberName::ComputedPropertyName => None,
        }
    }

    /// The name that the member binds, if it binds one.
    pub fn name(&self) -> (name: Option<&str>)
        ensures
            match name {
                Some(name) => self.spec_name() == Some(name@),
                None => self.spec_name() is None,
            },
    {
        match &self.id {
            TSEnumMemberName::Identifier(name) => Some(name.as_str()),
            TSEnumMemberName::StringLiteral(value) => Some(value.as_str()),
            TSEnumMemberName::NumberLiteral(text) => Some(text.as_str()),
            TSEnumMemberName::ComputedPropertyName => None,
        }
    }
}

impl Binder for TSEnumMember {
    open spec fn fits(&self, context: ContextView) -> bool {
        true
    }

    open spec fn bound(&self, context: ContextView) -> Bound {
        Bound::declares(
            if self.spec_name() is Some {
                Some(SymbolKind::EnumMember)
            } else {
                None
            },
        )
    }

    /// A member binds its name, unless the name is computed.
    fn bind(&self, context: &Context) -> (bound: Bound) {
        match &self.id {
            TSEnumMemberName::ComputedPropertyName => Bound::declare(None),
            _ => Bound::declare(Some(SymbolKind::EnumMember)),
        }
    }
}

/// `namespace N { ... }`
#[derive(Debug, Clone, Copy, PartialEq, Eq, Structural)]
pub struct TSModuleDeclaration {
    /// `declare namespace`
    pub is_declared: bool,
}

impl Binder for TSModuleDeclaration {
    open spec fn fits(&self, context: ContextView) -> bool {
        true
    }

    open spec fn bound(&self, context: ContextView) -> Bound {
        Bound::declares(
            Some(
                if self.is_declared {
                    SymbolKind::AmbientNameSpaceModule
                } else {
                    SymbolKind::NameSpaceModule
                },
            ),
        )
    }

    fn bind(&self, context: &Context) -> (bound: Bound) {
        if self.is_declared {
            Bound::declare(Some(SymbolKind::AmbientNameSpaceModule))
        } else {
            Bound::declare(Some(SymbolKind::NameSpaceModule))
        }
    }
}

/// A type parameter.
#[derive(Debug, Clone, Copy, PartialEq, Eq, Structural)]
pub struct TSTypeParameter {}

impl Binder for TSTypeParameter {
    open spec fn fits(&self, context: ContextView) -> bool {
        true
    }

    open spec fn bound(&self, context: ContextView) -> Bound {
        Bound::declares(Some(SymbolKind::TypeParameter))
    }

    fn bind(&self, context: &Context) -> (bound: Bound) {
        Bound::declare(Some(SymbolKind::TypeParameter))
    }
}

} // verus!
