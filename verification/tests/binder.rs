use lint_pipeline::no_unused_vars::usage::{
    Declaration, NodeKind, Reference, Scope, SymbolContext,
};
use lint_pipeline::binder::{
    function_as_var, Binder, Bound, CatchClause, CatchParameter, Class, Context, FormalParameters,
    Function, ModuleDeclaration, ParentKind, ScopeFlags, ScopeModifier, SymbolKind,
    TSEnumDeclaration, TSEnumMember, TSEnumMemberName, TSInterfaceDeclaration,
    TSModuleDeclaration, TSTypeAliasDeclaration, TSTypeParameter, Target, VariableDeclarator,
    VariableKind,
};

const BLOCK: ScopeFlags =
    ScopeFlags { strict_mode: false, top: false, function: false, var: false };
const FUNCTION: ScopeFlags =
    ScopeFlags { strict_mode: false, top: false, function: true, var: true };
const TOP: ScopeFlags = ScopeFlags { strict_mode: false, top: true, function: false, var: true };

fn strict(flags: ScopeFlags) -> ScopeFlags {
    ScopeFlags { strict_mode: true, ..flags }
}

/// A script, at a node that has nothing special above it.
fn within(scope: ScopeFlags, above: &[ScopeFlags]) -> Context {
    Context { scope, above: above.to_vec(), is_script: true, parent: ParentKind::Other }
}

fn module(context: Context) -> Context {
    Context { is_script: false, ..context }
}

fn below(parent: ParentKind, context: Context) -> Context {
    Context { parent, ..context }
}

fn declares(symbol: SymbolKind) -> Bound {
    Bound { symbol: Some(symbol), target: Target::Current, hoisted: 0, modifier: None }
}

fn nothing() -> Bound {
    Bound { symbol: None, target: Target::Current, hoisted: 0, modifier: None }
}

const DECLARATION: Function =
    Function { has_id: true, is_declaration: true, is_async: false, is_generator: false };

fn named_by(function: Function, context: &Context) -> Option<SymbolKind> {
    let bound = function.bind(context);
    assert_eq!(bound.target, Target::Parent);
    assert_eq!(bound.hoisted, 0);
    bound.symbol
}

#[test]
fn a_variable_is_bound_by_its_keyword() {
    for (kind, symbol) in [
        (VariableKind::Const, SymbolKind::ConstVariable),
        (VariableKind::Let, SymbolKind::BlockScopedVariable),
        (VariableKind::Var, SymbolKind::FunctionScopedVariable),
    ] {
        assert_eq!(VariableDeclarator { kind }.bind(&within(TOP, &[])), declares(symbol));
    }
}

#[test]
fn only_a_var_in_a_block_is_hoisted() {
    let hoisted = |kind: VariableKind, scope: ScopeFlags| {
        VariableDeclarator { kind }.bind(&within(scope, &[BLOCK, FUNCTION, TOP])).hoisted
    };
    assert_eq!(hoisted(VariableKind::Let, BLOCK), 0);
    assert_eq!(hoisted(VariableKind::Const, BLOCK), 0);
    assert_eq!(hoisted(VariableKind::Var, FUNCTION), 0);
    assert_eq!(hoisted(VariableKind::Var, BLOCK), 2);
}

#[test]
fn a_var_is_hoisted_up_to_the_nearest_scope_that_holds_vars() {
    let hoisted = |above: &[ScopeFlags]| {
        VariableDeclarator { kind: VariableKind::Var }.bind(&within(BLOCK, above)).hoisted
    };
    assert_eq!(hoisted(&[]), 0);
    assert_eq!(hoisted(&[TOP]), 1);
    assert_eq!(hoisted(&[FUNCTION, TOP]), 1);
    assert_eq!(hoisted(&[BLOCK, BLOCK, TOP]), 3);
    // Where no scope above holds them, all the scopes above bind it.
    assert_eq!(hoisted(&[BLOCK, BLOCK]), 2);
}

#[test]
fn functions_are_vars_in_functions_and_at_the_top_of_scripts() {
    assert!(function_as_var(FUNCTION, false));
    assert!(function_as_var(FUNCTION, true));
    assert!(function_as_var(TOP, true));
    assert!(!function_as_var(TOP, false));
    assert!(!function_as_var(BLOCK, true));
    assert!(!function_as_var(BLOCK, false));
}

#[test]
fn a_function_declaration_binds_its_name_around_it() {
    let var = Some(SymbolKind::FunctionScopedVariable);
    let block = Some(SymbolKind::BlockScopedVariable);
    assert_eq!(named_by(DECLARATION, &within(FUNCTION, &[TOP])), var);
    assert_eq!(named_by(DECLARATION, &within(FUNCTION, &[BLOCK, TOP])), var);
    // In strict mode a function in a block is bound like a `let`.
    let in_block = module(within(strict(FUNCTION), &[strict(BLOCK), strict(TOP)]));
    assert_eq!(named_by(DECLARATION, &in_block), block);
    assert_eq!(named_by(DECLARATION, &module(within(strict(FUNCTION), &[strict(TOP)]))), block);
    assert_eq!(named_by(DECLARATION, &within(strict(FUNCTION), &[strict(TOP)])), var);
    let in_function = module(within(strict(FUNCTION), &[strict(FUNCTION), strict(TOP)]));
    assert_eq!(named_by(DECLARATION, &in_function), var);
    // So is an `async` function and a generator, in any mode.
    let asynchronous = Function { is_async: true, ..DECLARATION };
    let generator = Function { is_generator: true, ..DECLARATION };
    assert_eq!(named_by(asynchronous, &within(FUNCTION, &[BLOCK, TOP])), block);
    assert_eq!(named_by(generator, &within(FUNCTION, &[BLOCK, TOP])), block);
    assert_eq!(named_by(asynchronous, &within(FUNCTION, &[FUNCTION, TOP])), var);
    assert_eq!(named_by(generator, &within(FUNCTION, &[TOP])), var);
}

#[test]
fn some_functions_bind_no_name() {
    let anonymous = Function { has_id: false, ..DECLARATION };
    let expression = Function { is_declaration: false, ..DECLARATION };
    assert_eq!(named_by(anonymous, &within(FUNCTION, &[TOP])), None);
    assert_eq!(named_by(expression, &within(FUNCTION, &[TOP])), None);
    assert_eq!(named_by(expression, &within(FUNCTION, &[])), None);
    // A function that binds its name needs a scope around it.
    assert!(expression.can_stand(&within(FUNCTION, &[])));
    assert!(anonymous.can_stand(&within(FUNCTION, &[])));
    assert!(!DECLARATION.can_stand(&within(FUNCTION, &[])));
    assert!(DECLARATION.can_stand(&within(FUNCTION, &[TOP])));
    assert!(DECLARATION.can_stand(&below(ParentKind::IfStatement, within(FUNCTION, &[]))));
    assert!(!DECLARATION.can_stand(&below(ParentKind::IfStatement, within(strict(FUNCTION), &[]))));
    let branch = below(ParentKind::IfStatement, within(FUNCTION, &[TOP]));
    assert_eq!(named_by(DECLARATION, &branch), None);
    // In strict mode the single statement of a branch binds its name.
    let branch = below(
        ParentKind::IfStatement,
        module(within(strict(FUNCTION), &[strict(BLOCK), strict(TOP)])),
    );
    assert_eq!(named_by(DECLARATION, &branch), Some(SymbolKind::BlockScopedVariable));
}

#[test]
fn accessors_and_constructors_flag_their_scope() {
    let expression = Function { has_id: false, is_declaration: false, ..DECLARATION };
    let modifier = |parent: ParentKind| {
        expression.bind(&below(parent, within(FUNCTION, &[BLOCK, TOP]))).modifier
    };
    assert_eq!(modifier(ParentKind::Constructor), Some(ScopeModifier::Constructor));
    assert_eq!(modifier(ParentKind::Getter), Some(ScopeModifier::GetAccessor));
    assert_eq!(modifier(ParentKind::Setter), Some(ScopeModifier::SetAccessor));
    assert_eq!(modifier(ParentKind::Other), None);
    assert_eq!(modifier(ParentKind::IfStatement), None);
}

#[test]
fn the_other_declarations_bind_by_what_they_are() {
    let context = within(TOP, &[]);
    let class = |has_id: bool, is_declared: bool| Class { has_id, is_declared }.bind(&context);
    assert_eq!(class(true, false), declares(SymbolKind::Class));
    assert_eq!(class(true, true), nothing());
    assert_eq!(class(false, false), nothing());
    assert_eq!(
        FormalParameters { is_signature: false }.bind(&context),
        declares(SymbolKind::FunctionScopedVariable)
    );
    assert_eq!(FormalParameters { is_signature: true }.bind(&context), nothing());
    let catch = |param: Option<CatchParameter>| CatchClause { param }.bind(&context);
    assert_eq!(catch(Some(CatchParameter::Identifier)), declares(SymbolKind::CatchVariable));
    assert_eq!(catch(Some(CatchParameter::Pattern)), declares(SymbolKind::CatchPatternVariable));
    assert_eq!(catch(None), nothing());
    assert_eq!(ModuleDeclaration {}.bind(&context), declares(SymbolKind::ImportBinding));
    assert_eq!(TSTypeAliasDeclaration {}.bind(&context), declares(SymbolKind::TypeAlias));
    assert_eq!(TSInterfaceDeclaration {}.bind(&context), declares(SymbolKind::Interface));
    assert_eq!(TSTypeParameter {}.bind(&context), declares(SymbolKind::TypeParameter));
    assert_eq!(
        TSEnumDeclaration { is_const: true }.bind(&context),
        declares(SymbolKind::ConstEnum)
    );
    assert_eq!(
        TSEnumDeclaration { is_const: false }.bind(&context),
        declares(SymbolKind::RegularEnum)
    );
    assert_eq!(
        TSModuleDeclaration { is_declared: true }.bind(&context),
        declares(SymbolKind::AmbientNameSpaceModule)
    );
    assert_eq!(
        TSModuleDeclaration { is_declared: false }.bind(&context),
        declares(SymbolKind::NameSpaceModule)
    );
}

#[test]
fn a_member_of_an_enum_binds_its_written_name() {
    let context = within(BLOCK, &[TOP]);
    for (id, name) in [
        (TSEnumMemberName::Identifier("A".into()), "A"),
        (TSEnumMemberName::StringLiteral("b c".into()), "b c"),
        (TSEnumMemberName::NumberLiteral("1".into()), "1"),
    ] {
        let member = TSEnumMember { id };
        assert_eq!(member.name(), Some(name));
        assert_eq!(member.bind(&context), declares(SymbolKind::EnumMember));
    }
    let member = TSEnumMember { id: TSEnumMemberName::ComputedPropertyName };
    assert_eq!(member.name(), None);
    assert_eq!(member.bind(&context), nothing());
}

/// The symbol of a class named `Foo` at the top of a module.
fn class_foo(parents: Vec<NodeKind>, references: Vec<Reference>) -> SymbolContext {
    SymbolContext {
        name: "Foo".to_string(),
        symbol_id: 0,
        scope_id: 1,
        scope_is_root: false,
        is_variable: false,
        is_import_or_catch: false,
        has_export_flag: false,
        in_exported_bindings: false,
        declaration: Declaration::Class { id: None },
        parents,
        scope_ancestors: vec![
            Scope { id: 1, binds_name: false },
            Scope { id: 0, binds_name: true },
        ],
        references,
    }
}

#[test]
fn symbols_test_class_simple() {
    // export class Foo {}
    let class = Class { has_id: true, is_declared: false };
    let bound = class.bind(&module(within(strict(BLOCK), &[strict(TOP)])));
    assert_eq!(bound, declares(SymbolKind::Class));
    let exported = vec![NodeKind::ModuleDeclaration { is_export: true }, NodeKind::Other];
    let foo = class_foo(exported, vec![]);
    assert_eq!(foo.references.len(), 0);
    assert!(foo.is_exported());

    // class Foo {}; let f = new Foo()
    let constructed = Reference {
        is_read: true,
        parents: vec![NodeKind::NewExpression, NodeKind::VariableDeclarator],
        scope_id: 0,
        scope_ancestors: vec![0],
    };
    let foo = class_foo(vec![NodeKind::Other], vec![constructed]);
    assert_eq!(foo.references.iter().filter(|reference| reference.is_read).count(), 1);
    assert!(foo.has_usages());
}

#[test]
fn symbols_test_var_simple() {
    // let x; { let y; }
    let declarator = VariableDeclarator { kind: VariableKind::Let };
    let x = declarator.bind(&within(TOP, &[]));
    assert_eq!(x.symbol, Some(SymbolKind::BlockScopedVariable));
    assert_eq!(x.target, Target::Current);
    let y = declarator.bind(&within(BLOCK, &[TOP]));
    assert_eq!(y, declares(SymbolKind::BlockScopedVariable));
    assert_eq!(y.hoisted, 0);
}
