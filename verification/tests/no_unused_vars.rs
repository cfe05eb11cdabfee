use lint_pipeline::diagnostic::{Severity, Span};
use lint_pipeline::no_unused_vars::diagnostic::{Action, NoUnusedVarsDiagnostic};
use lint_pipeline::no_unused_vars::ignored::DeclarationKind;
use lint_pipeline::no_unused_vars::options::{
    lookup, parse_unicode_rule, same_text, ArgsOption, Configuration, OptionError, OptionName,
    Setting, VarsOption,
};
use lint_pipeline::no_unused_vars::pattern::{is_none_or_match, IgnorePattern};
use lint_pipeline::no_unused_vars::{NoUnusedVars, UnusedBindingResult};

fn text(value: &str) -> Setting {
    Setting::String(value.to_string())
}

fn object(entries: Vec<(&str, Setting)>) -> Configuration {
    Configuration::Object(entries.into_iter().map(|(k, v)| (k.to_string(), v)).collect())
}

#[test]
fn test_ignored() {
    let rule = NoUnusedVars::from(&object(vec![
        ("varsIgnorePattern", text("^_")),
        ("argsIgnorePattern", text("[iI]gnored")),
        ("caughtErrorsIgnorePattern", text("err.*")),
        ("caughtErrors", text("all")),
        ("destructuredArrayIgnorePattern", text("^_")),
    ]))
    .unwrap();

    assert!(rule.is_ignored_var("_x"));
    assert!(rule.is_ignored_var(&String::from("_x")));
    assert!(!rule.is_ignored_var("notIgnored"));

    assert!(rule.is_ignored_arg("ignored"));
    assert!(rule.is_ignored_arg("alsoIgnored"));
    assert!(rule.is_ignored_arg(&String::from("ignored")));
    assert!(rule.is_ignored_arg(&String::from("alsoIgnored")));

    assert!(rule.is_ignored_catch_err("err"));
    assert!(rule.is_ignored_catch_err("error"));
    assert!(!rule.is_ignored_catch_err("e"));

    assert!(rule.is_ignored_array_destructured("_x"));
    assert!(rule.is_ignored_array_destructured(&String::from("_x")));
    assert!(!rule.is_ignored_array_destructured("notIgnored"));
}

#[test]
fn test_options_default() {
    let rule = NoUnusedVars::default();
    assert_eq!(rule.vars(), VarsOption::All);
    assert!(rule.vars_ignore_pattern().is_none());
    assert_eq!(rule.args(), ArgsOption::AfterUsed);
    assert!(rule.args_ignore_pattern().is_none());
    assert!(!rule.caught_errors());
    assert!(rule.caught_errors_ignore_pattern().is_none());
    assert!(rule.destructured_array_ignore_pattern().is_none());
    assert!(!rule.ignore_rest_siblings());
}

#[test]
fn test_options_from_string() {
    let rule = NoUnusedVars::from(&Configuration::String("all".to_string())).unwrap();
    assert_eq!(rule.vars(), VarsOption::All);

    let rule = NoUnusedVars::from(&Configuration::String("local".to_string())).unwrap();
    assert_eq!(rule.vars(), VarsOption::Local);
}

#[test]
fn test_options_from_object() {
    let rule = NoUnusedVars::from(&object(vec![
        ("vars", text("local")),
        ("varsIgnorePattern", text("^_")),
        ("args", text("all")),
        ("argsIgnorePattern", text("^_")),
        ("caughtErrors", text("all")),
        ("caughtErrorsIgnorePattern", text("^_")),
        ("destructuredArrayIgnorePattern", text("^_")),
        ("ignoreRestSiblings", Setting::Bool(true)),
    ]))
    .unwrap();

    assert_eq!(rule.vars(), VarsOption::Local);
    assert_eq!(rule.vars_ignore_pattern().as_ref().unwrap().as_str(), "^_");
    assert_eq!(rule.args(), ArgsOption::All);
    assert_eq!(rule.args_ignore_pattern().as_ref().unwrap().as_str(), "^_");
    assert!(rule.caught_errors());
    assert_eq!(rule.caught_errors_ignore_pattern().as_ref().unwrap().as_str(), "^_");
    assert_eq!(rule.destructured_array_ignore_pattern().as_ref().unwrap().as_str(), "^_");
    assert!(rule.ignore_rest_siblings());
}

#[test]
fn test_options_from_null() {
    let opts = NoUnusedVars::from(&Configuration::Absent).unwrap();
    let default = NoUnusedVars::default();
    assert_eq!(opts.vars(), default.vars());
    assert!(opts.vars_ignore_pattern().is_none());
    assert!(default.vars_ignore_pattern().is_none());

    assert_eq!(opts.args(), default.args());
    assert!(opts.args_ignore_pattern().is_none());
    assert!(default.args_ignore_pattern().is_none());

    assert_eq!(opts.caught_errors(), default.caught_errors());
    assert!(opts.caught_errors_ignore_pattern().is_none());
    assert!(default.caught_errors_ignore_pattern().is_none());

    assert_eq!(opts.ignore_rest_siblings(), default.ignore_rest_siblings());
}

#[test]
fn test_parse_unicode_regex() {
    let pat = text("^_");
    parse_unicode_rule(Some(&pat), OptionName::VarsIgnorePattern)
        .unwrap()
        .expect("json strings should get parsed into a regex");
}

#[test]
fn a_null_first_element_gives_the_defaults() {
    let rule = NoUnusedVars::from(&Configuration::Null).unwrap();
    assert_eq!(rule.vars(), VarsOption::All);
    assert_eq!(rule.args(), ArgsOption::AfterUsed);
    let rule = NoUnusedVars::from_configuration(&object(vec![])).unwrap();
    assert_eq!(rule.vars(), VarsOption::All);
    assert_eq!(rule.args(), ArgsOption::AfterUsed);
    assert!(!rule.caught_errors());
}

#[test]
fn a_string_configuration_sets_only_the_vars_option() {
    let rule = NoUnusedVars::from(&Configuration::String("local".to_string())).unwrap();
    assert_eq!(rule.args(), ArgsOption::AfterUsed);
    assert!(rule.vars_ignore_pattern().is_none());
    assert!(!rule.caught_errors());
    assert!(!rule.ignore_rest_siblings());
}

#[test]
fn every_refusal_has_its_error() {
    let refused = |configuration: Configuration| NoUnusedVars::from(&configuration).unwrap_err();
    assert_eq!(refused(Configuration::Other), OptionError::ExpectedStringOrObject);
    assert_eq!(
        refused(Configuration::String("global".to_string())),
        OptionError::UnknownValue(OptionName::Vars)
    );
    assert_eq!(
        refused(object(vec![("vars", text("ALL"))])),
        OptionError::UnknownValue(OptionName::Vars)
    );
    assert_eq!(
        refused(object(vec![("vars", Setting::Bool(true))])),
        OptionError::ExpectedString(OptionName::Vars)
    );
    assert_eq!(
        refused(object(vec![("args", text("some"))])),
        OptionError::UnknownValue(OptionName::Args)
    );
    assert_eq!(
        refused(object(vec![("args", Setting::Null)])),
        OptionError::ExpectedString(OptionName::Args)
    );
    assert_eq!(
        refused(object(vec![("caughtErrors", text("some"))])),
        OptionError::UnknownValue(OptionName::CaughtErrors)
    );
    assert_eq!(
        refused(object(vec![("caughtErrors", Setting::Number)])),
        OptionError::ExpectedString(OptionName::CaughtErrors)
    );
    for (key, name) in [
        ("varsIgnorePattern", OptionName::VarsIgnorePattern),
        ("argsIgnorePattern", OptionName::ArgsIgnorePattern),
        ("caughtErrorsIgnorePattern", OptionName::CaughtErrorsIgnorePattern),
        ("destructuredArrayIgnorePattern", OptionName::DestructuredArrayIgnorePattern),
    ] {
        assert_eq!(refused(object(vec![(key, text("("))])), OptionError::InvalidPattern(name));
    }
}

#[test]
fn the_first_refused_option_decides_the_error() {
    let error = NoUnusedVars::from(&object(vec![
        ("caughtErrors", text("some")),
        ("argsIgnorePattern", text("(")),
        ("args", text("some")),
    ]))
    .unwrap_err();
    assert_eq!(error, OptionError::UnknownValue(OptionName::Args));
}

#[test]
fn a_pattern_that_is_no_string_is_no_pattern() {
    let rule = NoUnusedVars::from(&object(vec![
        ("varsIgnorePattern", Setting::Number),
        ("argsIgnorePattern", Setting::Null),
        ("ignoreRestSiblings", text("true")),
    ]))
    .unwrap();
    assert!(rule.vars_ignore_pattern().is_none());
    assert!(rule.args_ignore_pattern().is_none());
    assert!(!rule.ignore_rest_siblings());
    assert!(parse_unicode_rule(None, OptionName::VarsIgnorePattern).unwrap().is_none());
}

#[test]
fn each_option_value_is_read() {
    let args = |value: &str| ArgsOption::try_from(&text(value));
    assert_eq!(args("after-used"), Ok(ArgsOption::AfterUsed));
    assert_eq!(args("all"), Ok(ArgsOption::All));
    assert_eq!(args("none"), Ok(ArgsOption::Unchecked));
    let vars = |value: &str| VarsOption::try_from(&value.to_string());
    assert_eq!(vars("all"), Ok(VarsOption::All));
    assert_eq!(vars("local"), Ok(VarsOption::Local));
    assert_eq!(vars(""), Err(OptionError::UnknownValue(OptionName::Vars)));
    assert_eq!(vars("All"), Err(OptionError::UnknownValue(OptionName::Vars)));
    assert_eq!(VarsOption::try_from(&text("local")), Ok(VarsOption::Local));
    assert_eq!(
        VarsOption::try_from(&Setting::Bool(true)),
        Err(OptionError::ExpectedString(OptionName::Vars))
    );
    assert_eq!(args("some"), Err(OptionError::UnknownValue(OptionName::Args)));
    assert_eq!(
        ArgsOption::try_from(&Setting::Null),
        Err(OptionError::ExpectedString(OptionName::Args))
    );
    assert_eq!(VarsOption::default(), VarsOption::All);
    assert_eq!(ArgsOption::default(), ArgsOption::AfterUsed);
    let rule = NoUnusedVars::from(&object(vec![("caughtErrors", text("none"))])).unwrap();
    assert!(!rule.caught_errors());
}

#[test]
fn lookup_finds_the_first_entry_of_a_name() {
    let entries = vec![
        ("a".to_string(), Setting::Bool(true)),
        ("b".to_string(), Setting::Number),
        ("a".to_string(), Setting::Bool(false)),
    ];
    assert!(matches!(lookup(&entries, "a"), Some(Setting::Bool(true))));
    assert!(matches!(lookup(&entries, "b"), Some(Setting::Number)));
    assert!(lookup(&entries, "c").is_none());
    assert!(same_text("vars", "vars"));
    assert!(!same_text("vars", "var"));
    assert!(!same_text("", "x"));
}

#[test]
fn patterns_accept_unicode() {
    let pattern = IgnorePattern::new(r"^\w+$").unwrap();
    assert_eq!(pattern.as_str(), r"^\w+$");
    assert!(pattern.is_match("δοκιμή"));
    assert!(!pattern.is_match("two words"));
    assert!(IgnorePattern::new("[").is_none());
    assert!(!is_none_or_match(&None, "anything"));
    assert!(is_none_or_match(&Some(pattern), "x"));
}

#[test]
fn caught_errors_are_ignored_unless_they_are_checked() {
    let rule = NoUnusedVars::default();
    assert!(rule.is_ignored_catch_err("e"));
    assert!(!rule.is_ignored_var("e"));
    assert!(!rule.is_ignored_arg("e"));
    assert!(!rule.is_ignored_array_destructured("e"));
}

#[test]
fn the_declaration_decides_which_pattern_applies() {
    let rule = NoUnusedVars::from(&object(vec![
        ("varsIgnorePattern", text("^v")),
        ("argsIgnorePattern", text("^a")),
        ("caughtErrorsIgnorePattern", text("^c")),
        ("caughtErrors", text("all")),
    ]))
    .unwrap();
    for kind in [
        DeclarationKind::VariableDeclarator,
        DeclarationKind::Function,
        DeclarationKind::Class,
        DeclarationKind::ModuleDeclaration,
    ] {
        assert!(rule.is_ignored("v1", kind));
        assert!(!rule.is_ignored("a1", kind));
    }
    assert!(rule.is_ignored("c1", DeclarationKind::CatchClause));
    assert!(!rule.is_ignored("v1", DeclarationKind::CatchClause));
    assert!(rule.is_ignored("a1", DeclarationKind::FormalParameters));
    assert!(rule.is_ignored("a1", DeclarationKind::FormalParameter));
    assert!(!rule.is_ignored("v1", DeclarationKind::FormalParameter));
    assert!(!rule.is_ignored("v1", DeclarationKind::Other));
}

#[test]
fn the_rule_says_what_was_done_to_the_variable() {
    let span = Span { start: 4, end: 7 };
    let declared = NoUnusedVarsDiagnostic::decl("foo".to_string(), span);
    assert_eq!(declared.0, "foo");
    assert_eq!(declared.1, Action::Declared);
    assert_eq!(declared.2, "");
    assert_eq!(declared.3, span);
    assert_eq!(NoUnusedVarsDiagnostic::assigned("foo".to_string(), span).1, Action::Assigned);
    assert_eq!(NoUnusedVarsDiagnostic::import("foo".to_string(), span).1, Action::Imported);

    let diagnostic = declared.into_diagnostic();
    assert_eq!(diagnostic.severity, Some(Severity::Warning));
    assert_eq!(diagnostic.message, "eslint(no-unused-vars): Unused variables are not allowed");
    assert_eq!(diagnostic.help.as_deref(), Some("foo is declared but never used"));
    assert_eq!(diagnostic.labels, vec![span]);
    assert!(diagnostic.source_code.is_none());

    let diagnostic = NoUnusedVarsDiagnostic::import("bar".to_string(), span)
        .with_additional(". Remove it.".to_string())
        .into_diagnostic();
    assert_eq!(diagnostic.help.as_deref(), Some("bar is imported but never used. Remove it."));
    let diagnostic = NoUnusedVarsDiagnostic::assigned("x".to_string(), span).into_diagnostic();
    assert_eq!(diagnostic.help.as_deref(), Some("x is assigned but never used"));
}

#[test]
fn an_unused_binding_remembers_whether_it_is_ignored() {
    let span = Span { start: 1, end: 2 };
    let result = UnusedBindingResult::from(span);
    assert_eq!(result.span(), span);
    assert!(!result.is_ignore());
    assert!(result.ignore().is_ignore());
    assert!(!result.or(false).is_ignore());
    assert!(result.or(true).is_ignore());
    assert!(result.ignore().or(false).is_ignore());
    assert_eq!(result.ignore().span(), span);
    assert_eq!(Span::from(result.ignore()), span);
    let back: Span = UnusedBindingResult(Span { start: 7, end: 9 }, true).into();
    assert_eq!(back, Span { start: 7, end: 9 });
}
