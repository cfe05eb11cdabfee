use lint_pipeline::diagnostic::{Diagnostic, NamedSource, Severity, Span};
use lint_pipeline::diagnostic_service::DiagnosticService;
use std::sync::Arc;

fn warning(message: &str) -> Diagnostic {
    Diagnostic::new(message.to_string()).with_severity(Severity::Warning)
}

fn error(message: &str) -> Diagnostic {
    Diagnostic::new(message.to_string()).with_severity(Severity::Error)
}

fn messages_of(diagnostics: &[Diagnostic]) -> Vec<String> {
    diagnostics.iter().map(|d| d.message.clone()).collect()
}

#[test]
fn default_service_has_counted_nothing() {
    let service = DiagnosticService::default();
    assert!(!service.quiet());
    assert_eq!(service.max_warnings(), None);
    assert_eq!(service.warnings_count(), 0);
    assert_eq!(service.errors_count(), 0);
    assert!(!service.max_warnings_exceeded());
}

#[test]
fn builders_set_what_they_name_and_nothing_else() {
    let service = DiagnosticService::default().with_quiet(true);
    assert!(service.quiet());
    assert_eq!(service.max_warnings(), None);
    let service = service.with_max_warnings(Some(3));
    assert!(service.quiet());
    assert_eq!(service.max_warnings(), Some(3));
    let service = service.with_quiet(false).with_max_warnings(None);
    assert!(!service.quiet());
    assert_eq!(service.max_warnings(), None);
    assert_eq!(service.warnings_count(), 0);
    assert_eq!(service.errors_count(), 0);
}

#[test]
fn a_diagnostic_builder_sets_each_field() {
    let diagnostic = Diagnostic::new("m".to_string())
        .with_severity(Severity::Advice)
        .with_help("h".to_string())
        .with_label(Span { start: 1, end: 4 })
        .with_label(Span { start: 7, end: 9 });
    assert_eq!(diagnostic.severity, Some(Severity::Advice));
    assert_eq!(diagnostic.message, "m");
    assert_eq!(diagnostic.help.as_deref(), Some("h"));
    assert_eq!(diagnostic.labels, vec![Span { start: 1, end: 4 }, Span { start: 7, end: 9 }]);
    assert!(diagnostic.source_code.is_none());
    let copy = diagnostic.duplicate();
    assert_eq!(copy.severity, diagnostic.severity);
    assert_eq!(copy.message, diagnostic.message);
    assert_eq!(copy.help, diagnostic.help);
    assert_eq!(copy.labels, diagnostic.labels);
    assert!(copy.source_code.is_none());
}

#[test]
fn warnings_and_errors_are_counted_apart() {
    let mut service = DiagnosticService::default();
    assert!(service.record(&warning("w")));
    assert_eq!((service.warnings_count(), service.errors_count()), (1, 0));
    assert!(service.record(&error("e")));
    assert_eq!((service.warnings_count(), service.errors_count()), (1, 1));
}

#[test]
fn a_diagnostic_without_severity_counts_as_an_error() {
    let mut service = DiagnosticService::default();
    assert!(service.record(&Diagnostic::new("plain".to_string())));
    assert_eq!((service.warnings_count(), service.errors_count()), (0, 1));
}

#[test]
fn advice_counts_as_an_error() {
    let mut service = DiagnosticService::default().with_quiet(true);
    let advice = Diagnostic::new("hint".to_string()).with_severity(Severity::Advice);
    assert!(!advice.is_warning());
    assert!(service.record(&advice));
    assert_eq!((service.warnings_count(), service.errors_count()), (0, 1));
}

#[test]
fn quiet_mode_shows_the_errors_and_counts_everything() {
    let batch = || vec![warning("w1"), error("e1"), warning("w2"), error("e2"), warning("w3")];
    let mut quiet = DiagnosticService::default().with_quiet(true);
    let shown = quiet.receive(batch());
    assert_eq!(messages_of(&shown), vec!["e1", "e2"]);
    assert_eq!((quiet.warnings_count(), quiet.errors_count()), (3, 2));

    let mut loud = DiagnosticService::default();
    let shown = loud.receive(batch());
    assert_eq!(messages_of(&shown), vec!["w1", "e1", "w2", "e2", "w3"]);
    assert_eq!((loud.warnings_count(), loud.errors_count()), (3, 2));
}

#[test]
fn the_threshold_shows_the_first_warnings_and_counts_all() {
    let mut service = DiagnosticService::default().with_max_warnings(Some(2));
    let shown = service.receive(vec![
        warning("w1"),
        error("e1"),
        warning("w2"),
        warning("w3"),
        error("e2"),
        warning("w4"),
    ]);
    assert_eq!(messages_of(&shown), vec!["w1", "e1", "w2", "e2"]);
    assert_eq!(service.warnings_count(), 4);
    assert_eq!(service.errors_count(), 2);
    assert!(service.max_warnings_exceeded());
}

#[test]
fn the_threshold_is_not_exceeded_by_as_many_warnings_as_it_allows() {
    let mut service = DiagnosticService::default().with_max_warnings(Some(2));
    let shown = service.receive(vec![warning("w1"), warning("w2")]);
    assert_eq!(messages_of(&shown), vec!["w1", "w2"]);
    assert_eq!(service.warnings_count(), 2);
    assert!(!service.max_warnings_exceeded());
    assert!(!service.record(&warning("w3")));
    assert!(service.max_warnings_exceeded());
}

#[test]
fn a_threshold_of_zero_hides_every_warning() {
    let mut service = DiagnosticService::default().with_max_warnings(Some(0));
    assert!(!service.max_warnings_exceeded());
    let shown = service.receive(vec![warning("w1"), error("e1")]);
    assert_eq!(messages_of(&shown), vec!["e1"]);
    assert_eq!(service.warnings_count(), 1);
    assert!(service.max_warnings_exceeded());
}

#[test]
fn the_threshold_runs_across_batches() {
    let mut service = DiagnosticService::default().with_max_warnings(Some(3));
    let reports = service.run(vec![
        ("a.js".to_string(), vec![warning("a1"), warning("a2")]),
        ("b.js".to_string(), vec![warning("b1"), warning("b2"), error("b3")]),
        ("c.js".to_string(), vec![warning("c1")]),
    ]);
    assert_eq!(reports.len(), 3);
    assert_eq!(reports[0].0, "a.js");
    assert_eq!(messages_of(&reports[0].1), vec!["a1", "a2"]);
    assert_eq!(reports[1].0, "b.js");
    assert_eq!(messages_of(&reports[1].1), vec!["b1", "b3"]);
    assert_eq!(reports[2].0, "c.js");
    assert!(reports[2].1.is_empty());
    assert_eq!(service.warnings_count(), 5);
    assert_eq!(service.errors_count(), 1);
    assert!(service.max_warnings_exceeded());
}

#[test]
fn without_a_threshold_nothing_is_exceeded() {
    let mut service = DiagnosticService::default();
    let shown = service.receive((0..50).map(|i| warning(&format!("w{i}"))).collect());
    assert_eq!(shown.len(), 50);
    assert_eq!(service.warnings_count(), 50);
    assert!(!service.max_warnings_exceeded());
}

#[test]
fn an_empty_batch_changes_nothing() {
    let mut service = DiagnosticService::default().with_max_warnings(Some(1));
    let shown = service.receive(Vec::new());
    assert!(shown.is_empty());
    assert_eq!((service.warnings_count(), service.errors_count()), (0, 0));
    let reports = service.run(Vec::new());
    assert!(reports.is_empty());
}

#[test]
fn wrapping_attaches_the_source_to_every_diagnostic() {
    let (path, wrapped) = DiagnosticService::wrap_diagnostics(
        "src/a.js",
        "debugger;\n",
        vec![warning("w").with_label(Span { start: 0, end: 8 }), error("e")],
    );
    assert_eq!(path, "src/a.js");
    assert_eq!(messages_of(&wrapped), vec!["w", "e"]);
    assert_eq!(wrapped[0].severity, Some(Severity::Warning));
    assert_eq!(wrapped[0].labels, vec![Span { start: 0, end: 8 }]);
    assert_eq!(wrapped[1].severity, Some(Severity::Error));
    for diagnostic in wrapped.iter() {
        let source = diagnostic.source_code.as_ref().unwrap();
        assert_eq!(source.name, "src/a.js");
        assert_eq!(source.text, "debugger;\n");
    }
    let first = wrapped[0].source_code.as_ref().unwrap();
    let second = wrapped[1].source_code.as_ref().unwrap();
    assert!(Arc::ptr_eq(first, second));
}

#[test]
fn wrapping_replaces_a_source_that_was_attached_before() {
    let old = Arc::new(NamedSource { name: "old.js".to_string(), text: "old".to_string() });
    let (_, wrapped) = DiagnosticService::wrap_diagnostics(
        "new.js",
        "new",
        vec![error("e").with_source_code(&old)],
    );
    let source = wrapped[0].source_code.as_ref().unwrap();
    assert_eq!(source.name, "new.js");
    assert_eq!(source.text, "new");
}

#[test]
fn wrapping_nothing_gives_an_empty_batch() {
    let (path, wrapped) = DiagnosticService::wrap_diagnostics("a.js", "", Vec::new());
    assert_eq!(path, "a.js");
    assert!(wrapped.is_empty());
}

#[test]
fn output_is_the_renderings_one_after_the_other() {
    let rendered = vec!["first\n".to_string(), "second\n".to_string(), String::new()];
    assert_eq!(DiagnosticService::compose(&rendered, "minified"), "first\nsecond\n");
    assert_eq!(DiagnosticService::compose(&Vec::new(), "minified"), "");
}

#[test]
fn one_minified_rendering_replaces_the_whole_output() {
    let rendered =
        vec!["first\n".to_string(), format!("x{}\n", "y".repeat(400)), "third\n".to_string()];
    assert_eq!(DiagnosticService::compose(&rendered, "minified"), "minified");
    let rendered = vec![format!("{}", "y".repeat(399)), "ok".to_string()];
    assert_eq!(DiagnosticService::compose(&rendered, "minified"), format!("{}ok", "y".repeat(399)));
}
