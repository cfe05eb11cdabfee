use lint_pipeline::diagnostic::{Diagnostic, Severity};
use lint_pipeline::project::Project;
use lint_pipeline::runner::{
    push_reversed, CliLintOptions, CliRunResult, FixOptions, LintResult, LintRunner, MiscOptions,
    WarningOptions,
};
use lint_pipeline::service::Stage;
use lint_pipeline::source_file::{Import, SourceFile};

fn options_for(paths: &[&str]) -> CliLintOptions {
    CliLintOptions {
        paths: paths.iter().map(|p| p.to_string()).collect(),
        warning_options: WarningOptions { quiet: false, max_warnings: None },
        fix_options: FixOptions { fix: false },
        misc_options: MiscOptions { rules: false },
    }
}

fn source(path: &str, imports: &[(&str, Option<&str>)], warnings: usize) -> SourceFile {
    let mut file = SourceFile::new(path.to_string(), format!("// {path}\n"));
    for (specifier, target) in imports {
        file.imports.push(Import {
            specifier: specifier.to_string(),
            target: target.map(|t| t.to_string()),
        });
    }
    for i in 0..warnings {
        file.messages.push(
            Diagnostic::new(format!("{path}#{i}")).with_severity(Severity::Warning),
        );
    }
    file
}

fn lint(options: CliLintOptions, project: &Project) -> LintResult {
    let runner = LintRunner::new(options);
    assert!(runner.can_run(project));
    match runner.run(project) {
        CliRunResult::LintResult(result) => result,
        CliRunResult::RulesRequested => panic!("nothing was linted"),
    }
}

fn processed_paths(result: &LintResult) -> Vec<&str> {
    result.processed.iter().map(|(path, _)| path.as_str()).collect()
}

fn times_processed(result: &LintResult, path: &str) -> usize {
    result.processed.iter().filter(|(p, _)| p == path).count()
}

#[test]
fn one_file_with_one_warning() {
    let project = Project { files: vec![source("debugger.js", &[], 1)] };
    let result = lint(options_for(&["debugger.js"]), &project);
    assert_eq!(result.number_of_files, 1);
    assert_eq!(result.number_of_warnings, 1);
    assert_eq!(result.number_of_errors, 0);
    assert!(!result.max_warnings_exceeded);
    assert_eq!(result.number_of_files_in_node_modules, 0);
    assert_eq!(result.reports.len(), 1);
    assert_eq!(result.reports[0].0, "debugger.js");
    assert_eq!(result.reports[0].1.len(), 1);
}

#[test]
fn two_files_with_one_warning_each() {
    let project = Project { files: vec![source("debugger.js", &[], 1), source("nan.js", &[], 1)] };
    let result = lint(options_for(&["debugger.js", "nan.js"]), &project);
    assert_eq!(result.number_of_files, 2);
    assert_eq!(result.number_of_warnings, 2);
    assert_eq!(result.number_of_errors, 0);
    assert_eq!(processed_paths(&result), vec!["debugger.js", "nan.js"]);
}

#[test]
fn a_file_with_an_unsupported_extension() {
    let project = Project { files: vec![source("foo.asdf", &[], 1)] };
    let result = lint(options_for(&["foo.asdf"]), &project);
    assert_eq!(result.number_of_files, 0);
    assert_eq!(result.number_of_warnings, 0);
    assert_eq!(result.number_of_errors, 0);
    assert!(result.reports.is_empty());
    assert!(result.processed.is_empty());

    // Whether there is such a file or not: nobody reads it.
    let result = lint(options_for(&["foo.asdf"]), &Project { files: vec![] });
    assert_eq!(result.number_of_files, 0);
    assert_eq!(result.number_of_warnings, 0);
    assert_eq!(result.number_of_errors, 0);
}

#[test]
fn an_imported_file_with_an_unsupported_extension_is_left_alone() {
    let project = Project {
        files: vec![
            source("a.js", &[("./style.css", Some("style.css"))], 1),
            source("style.css", &[("./b", Some("b.js"))], 5),
            source("b.js", &[], 1),
        ],
    };
    let result = lint(options_for(&["a.js"]), &project);
    assert_eq!(processed_paths(&result), vec!["a.js"]);
    assert_eq!(result.number_of_files, 1);
    assert_eq!(result.number_of_warnings, 1);
}

#[test]
fn a_cycle_ends_and_each_file_is_processed_once() {
    let project = Project {
        files: vec![
            source("a.js", &[("./b", Some("b.js"))], 1),
            source("b.js", &[("./a", Some("a.js"))], 1),
        ],
    };
    let result = lint(options_for(&["a.js"]), &project);
    assert_eq!(processed_paths(&result), vec!["a.js", "b.js"]);
    assert_eq!(result.number_of_files, 2);
    assert_eq!(result.number_of_warnings, 2);

    let result = lint(options_for(&["a.js", "b.js"]), &project);
    assert_eq!(times_processed(&result, "a.js"), 1);
    assert_eq!(times_processed(&result, "b.js"), 1);
    assert_eq!(result.number_of_files, 2);
}

#[test]
fn a_file_that_imports_itself_is_processed_once() {
    let project = Project { files: vec![source("a.js", &[("./a", Some("a.js"))], 2)] };
    let result = lint(options_for(&["a.js"]), &project);
    assert_eq!(processed_paths(&result), vec!["a.js"]);
    assert_eq!(result.number_of_warnings, 2);
}

#[test]
fn a_file_reached_along_many_edges_is_processed_once() {
    let project = Project {
        files: vec![
            source("a.js", &[("./b", Some("b.js")), ("./c", Some("c.js"))], 0),
            source("b.js", &[("./d", Some("d.js"))], 0),
            source("c.js", &[("./d", Some("d.js")), ("./b", Some("b.js"))], 0),
            source("d.js", &[("./a", Some("a.js"))], 3),
        ],
    };
    let result = lint(options_for(&["a.js", "d.js", "c.js"]), &project);
    for path in ["a.js", "b.js", "c.js", "d.js"] {
        assert_eq!(times_processed(&result, path), 1, "{path}");
    }
    assert_eq!(result.number_of_files, 4);
    assert_eq!(result.number_of_warnings, 3);
    assert_eq!(processed_paths(&result), vec!["a.js", "b.js", "d.js", "c.js"]);
}

#[test]
fn an_entry_path_given_twice_is_processed_once() {
    let project = Project { files: vec![source("a.js", &[], 1)] };
    let result = lint(options_for(&["a.js", "a.js"]), &project);
    assert_eq!(result.number_of_files, 1);
    assert_eq!(result.number_of_warnings, 1);
    assert_eq!(result.reports.len(), 1);
}

#[test]
fn a_vendor_file_is_followed_but_neither_linted_nor_counted() {
    let project = Project {
        files: vec![
            source("a.js", &[("dep", Some("node_modules/dep/index.js"))], 1),
            source("node_modules/dep/index.js", &[("../../b", Some("b.js"))], 7),
            source("b.js", &[], 1),
        ],
    };
    let result = lint(options_for(&["a.js"]), &project);
    assert_eq!(
        result.processed,
        vec![
            ("a.js".to_string(), Stage::Linted),
            ("node_modules/dep/index.js".to_string(), Stage::Vendor),
            ("b.js".to_string(), Stage::Linted),
        ]
    );
    assert_eq!(result.number_of_files, 2);
    assert_eq!(result.number_of_files_in_node_modules, 1);
    assert_eq!(result.number_of_warnings, 2);
    assert!(result.reports.iter().all(|(path, _)| path != "node_modules/dep/index.js"));
}

#[test]
fn a_file_that_does_not_parse_reports_only_its_parse_errors() {
    let mut bad = source("bad.js", &[("./hidden", Some("hidden.js"))], 3);
    bad.parse_errors.push(Diagnostic::new("unexpected token".to_string()));
    let project = Project {
        files: vec![
            source("a.js", &[("./bad", Some("bad.js"))], 0),
            bad,
            source("hidden.js", &[], 1),
            source("b.js", &[("./bad", Some("bad.js"))], 0),
        ],
    };
    let result = lint(options_for(&["a.js", "b.js"]), &project);
    assert_eq!(
        result.processed,
        vec![
            ("a.js".to_string(), Stage::Linted),
            ("bad.js".to_string(), Stage::ParseFailed),
            ("b.js".to_string(), Stage::Linted),
        ]
    );
    assert_eq!(result.number_of_files, 3);
    assert_eq!(result.number_of_warnings, 0);
    assert_eq!(result.number_of_errors, 1);
    assert_eq!(result.reports.len(), 1);
    assert_eq!(result.reports[0].1[0].message, "unexpected token");
}

#[test]
fn an_import_that_does_not_resolve_is_dropped() {
    let project = Project {
        files: vec![source("a.js", &[("react", None), ("./b", Some("b.js"))], 0), source("b.js", &[], 0)],
    };
    let result = lint(options_for(&["a.js"]), &project);
    assert_eq!(processed_paths(&result), vec!["a.js", "b.js"]);
    assert!(result.reports.is_empty());
}

#[test]
fn quiet_mode_counts_warnings_and_reports_errors() {
    let mut file = source("a.js", &[], 2);
    file.messages.insert(1, Diagnostic::new("boom".to_string()).with_severity(Severity::Error));
    let project = Project { files: vec![file] };
    let mut options = options_for(&["a.js"]);
    options.warning_options.quiet = true;
    let result = lint(options, &project);
    assert_eq!(result.number_of_warnings, 2);
    assert_eq!(result.number_of_errors, 1);
    assert_eq!(result.reports.len(), 1);
    assert_eq!(result.reports[0].1.len(), 1);
    assert_eq!(result.reports[0].1[0].message, "boom");

    let loud = lint(options_for(&["a.js"]), &project);
    assert_eq!(loud.number_of_warnings, result.number_of_warnings);
    assert_eq!(loud.number_of_errors, result.number_of_errors);
    assert_eq!(loud.reports[0].1.len(), 3);
}

#[test]
fn the_threshold_is_exceeded_by_more_warnings_than_it_allows() {
    let project = Project {
        files: vec![source("a.js", &[("./b", Some("b.js"))], 2), source("b.js", &[], 2)],
    };
    let mut options = options_for(&["a.js"]);
    options.warning_options.max_warnings = Some(3);
    let result = lint(options, &project);
    assert_eq!(result.number_of_warnings, 4);
    assert!(result.max_warnings_exceeded);
    let shown: Vec<&str> =
        result.reports.iter().flat_map(|(_, ds)| ds.iter().map(|d| d.message.as_str())).collect();
    assert_eq!(shown, vec!["a.js#0", "a.js#1", "b.js#0"]);

    let mut options = options_for(&["a.js"]);
    options.warning_options.max_warnings = Some(4);
    let result = lint(options, &project);
    assert_eq!(result.number_of_warnings, 4);
    assert!(!result.max_warnings_exceeded);
}

#[test]
fn with_fix_only_what_remains_is_counted() {
    let mut file = source("a.js", &[], 3);
    file.fixed_messages
        .push(Diagnostic::new("stubborn".to_string()).with_severity(Severity::Warning));
    let project = Project { files: vec![file] };
    let mut options = options_for(&["a.js"]);
    options.fix_options.fix = true;
    let result = lint(options, &project);
    assert_eq!(result.number_of_warnings, 1);
    assert_eq!(result.reports[0].1[0].message, "stubborn");
    assert_eq!(lint(options_for(&["a.js"]), &project).number_of_warnings, 3);
}

#[test]
fn running_twice_gives_the_same_result() {
    let project = Project {
        files: vec![
            source("a.js", &[("./b", Some("b.js")), ("dep", Some("node_modules/d.js"))], 2),
            source("b.js", &[("./a", Some("a.js"))], 1),
            source("node_modules/d.js", &[], 4),
        ],
    };
    let first = lint(options_for(&["a.js"]), &project);
    let second = lint(options_for(&["a.js"]), &project);
    assert_eq!(first.number_of_files, second.number_of_files);
    assert_eq!(first.number_of_files_in_node_modules, second.number_of_files_in_node_modules);
    assert_eq!(first.number_of_warnings, second.number_of_warnings);
    assert_eq!(first.number_of_errors, second.number_of_errors);
    assert_eq!(first.max_warnings_exceeded, second.max_warnings_exceeded);
    assert_eq!(first.processed, second.processed);
    assert_eq!(first.reports.len(), second.reports.len());
    for (a, b) in first.reports.iter().zip(second.reports.iter()) {
        assert_eq!(a.0, b.0);
        let left: Vec<&str> = a.1.iter().map(|d| d.message.as_str()).collect();
        let right: Vec<&str> = b.1.iter().map(|d| d.message.as_str()).collect();
        assert_eq!(left, right);
    }
}

#[test]
fn asking_for_the_rules_lints_nothing() {
    let project = Project { files: vec![source("a.js", &[], 1)] };
    let mut options = options_for(&["a.js"]);
    options.misc_options.rules = true;
    assert!(matches!(LintRunner::new(options).run(&project), CliRunResult::RulesRequested));
}

#[test]
fn no_entry_paths_no_work() {
    let project = Project { files: vec![source("a.js", &[], 1)] };
    let result = lint(options_for(&[]), &project);
    assert_eq!(result.number_of_files, 0);
    assert!(result.processed.is_empty());
}

#[test]
fn a_run_needs_every_named_file_in_the_project() {
    let project = Project { files: vec![source("a.js", &[("./b", Some("b.js"))], 0)] };
    assert!(!LintRunner::new(options_for(&["a.js"])).can_run(&project));
    assert!(!project.is_closed());
    assert!(LintRunner::new(options_for(&["a.js"])).try_run(&project).is_none());
    let project = Project { files: vec![source("a.js", &[], 0)] };
    assert!(!LintRunner::new(options_for(&["missing.js"])).can_run(&project));
    assert!(!project.covers(&vec!["missing.js".to_string()]));
    assert!(LintRunner::new(options_for(&["missing.js"])).try_run(&project).is_none());
    assert!(LintRunner::new(options_for(&["a.js"])).can_run(&project));
}

#[test]
fn a_run_needs_no_file_that_is_no_source_code() {
    let project = Project { files: vec![source("a.js", &[("./a.css", Some("a.css"))], 1)] };
    assert!(project.is_readable("a.css"));
    assert!(project.is_readable("a.js"));
    assert!(!project.is_readable("b.js"));
    assert!(project.is_closed());
    assert!(project.covers(&vec!["a.js".to_string(), "notes.txt".to_string()]));
    let runner = LintRunner::new(options_for(&["notes.txt", "a.js"]));
    match runner.try_run(&project) {
        Some(CliRunResult::LintResult(result)) => {
            assert_eq!(processed_paths(&result), vec!["a.js"]);
            assert_eq!(result.number_of_files, 1);
            assert_eq!(result.number_of_warnings, 1);
        }
        other => panic!("the run was possible: {other:?}"),
    }
}

#[test]
fn listing_the_rules_needs_no_file() {
    let mut options = options_for(&["missing.js"]);
    options.misc_options.rules = true;
    let runner = LintRunner::new(options);
    let project = Project { files: vec![] };
    assert!(runner.can_run(&project));
    assert!(matches!(runner.try_run(&project), Some(CliRunResult::RulesRequested)));
}

#[test]
fn project_lookup_finds_the_first_file_of_a_path() {
    let project = Project {
        files: vec![source("a.js", &[], 1), source("b.js", &[], 2), source("a.js", &[], 3)],
    };
    assert_eq!(project.find("a.js"), Some(0));
    assert_eq!(project.find("b.js"), Some(1));
    assert_eq!(project.find("c.js"), None);
    assert_eq!(project.load(), Some(3 + 1 + 2 + 3));
    let result = lint(options_for(&["a.js"]), &project);
    assert_eq!(result.number_of_warnings, 1);
}

#[test]
fn pushing_reversed_puts_the_first_item_on_top() {
    let mut stack = vec!["bottom".to_string()];
    push_reversed(&mut stack, vec!["first".to_string(), "second".to_string(), "third".to_string()]);
    assert_eq!(stack, vec!["bottom", "third", "second", "first"]);
    push_reversed(&mut stack, Vec::new());
    assert_eq!(stack.len(), 4);
}

#[test]
fn the_order_of_the_entry_paths_does_not_matter() {
    let project = Project {
        files: vec![
            source("a.js", &[("./b", Some("b.js")), ("dep", Some("node_modules/dep/index.js"))], 2),
            source("b.js", &[("./c", Some("c.js")), ("./a", Some("a.js"))], 1),
            source("c.js", &[], 0),
            source("d.js", &[("./c", Some("c.js"))], 3),
            source("node_modules/dep/index.js", &[("./d", Some("d.js"))], 4),
        ],
    };
    let first = lint(options_for(&["a.js", "d.js", "c.js"]), &project);
    let second = lint(options_for(&["c.js", "d.js", "a.js", "d.js"]), &project);
    assert_ne!(processed_paths(&first), processed_paths(&second));

    let sorted = |result: &LintResult| {
        let mut paths = processed_paths(result);
        paths.sort();
        paths.into_iter().map(str::to_string).collect::<Vec<_>>()
    };
    assert_eq!(sorted(&first), sorted(&second));
    assert_eq!(first.processed.len(), 5);
    assert_eq!(first.number_of_files, 4);
    assert_eq!(second.number_of_files, 4);
    assert_eq!(first.number_of_files_in_node_modules, 1);
    assert_eq!(second.number_of_files_in_node_modules, 1);
    assert_eq!(first.number_of_warnings, 6);
    assert_eq!(second.number_of_warnings, 6);
    assert_eq!(first.number_of_errors, second.number_of_errors);

    let batches = |result: &LintResult| {
        let mut batches: Vec<(String, Vec<String>)> = result
            .reports
            .iter()
            .map(|(path, shown)| {
                (path.clone(), shown.iter().map(|d| format!("{d:?}")).collect())
            })
            .collect();
        batches.sort();
        batches
    };
    assert_eq!(batches(&first), batches(&second));
    assert_eq!(first.reports.len(), 3);
}

#[test]
fn under_a_threshold_the_order_matters_to_what_is_shown_only() {
    let project = Project { files: vec![source("a.js", &[], 2), source("b.js", &[], 2)] };
    let with_threshold = |paths: &[&str]| {
        let mut options = options_for(paths);
        options.warning_options.max_warnings = Some(2);
        lint(options, &project)
    };
    let first = with_threshold(&["a.js", "b.js"]);
    let second = with_threshold(&["b.js", "a.js"]);
    assert_eq!(first.number_of_warnings, 4);
    assert_eq!(second.number_of_warnings, 4);
    assert!(first.max_warnings_exceeded && second.max_warnings_exceeded);
    let shown = |result: &LintResult, path: &str| {
        result.reports.iter().find(|(p, _)| p == path).map(|(_, shown)| shown.len())
    };
    assert_eq!(shown(&first, "a.js"), Some(2));
    assert_eq!(shown(&first, "b.js"), Some(0));
    assert_eq!(shown(&second, "a.js"), Some(0));
    assert_eq!(shown(&second, "b.js"), Some(2));
}
