use lint_pipeline::file_identity::{in_node_modules, is_supported};

#[test]
fn supported_extensions_are_recognised() {
    for path in ["a.js", "a.mjs", "a.cjs", "a.jsx", "a.ts", "a.mts", "a.cts", "a.tsx"] {
        assert!(is_supported(path), "{path}");
    }
    assert!(is_supported("src/deep/er/index.d.ts"));
    assert!(is_supported("dir.js/"));
}

#[test]
fn unsupported_extensions_are_not_recognised() {
    assert!(!is_supported("foo.asdf"));
    assert!(!is_supported("style.css"));
    assert!(!is_supported("README"));
    assert!(!is_supported(""));
    assert!(!is_supported("js"));
    assert!(!is_supported(".js"));
}

#[test]
fn vendor_segment_is_found_anywhere_in_the_path() {
    assert!(in_node_modules("node_modules/a.js"));
    assert!(in_node_modules("a/node_modules/b/c.js"));
    assert!(in_node_modules("/abs/node_modules/x.js"));
    assert!(in_node_modules("a/b/node_modules"));
    assert!(in_node_modules("node_modules"));
    assert!(in_node_modules("a//node_modules//b.js"));
}

#[test]
fn vendor_segment_must_be_a_whole_segment() {
    assert!(!in_node_modules("a.js"));
    assert!(!in_node_modules(""));
    assert!(!in_node_modules("my_node_modules/a.js"));
    assert!(!in_node_modules("node_modules_old/a.js"));
    assert!(!in_node_modules("a/node_module/b.js"));
    assert!(!in_node_modules("a/node_modules.js"));
    assert!(!in_node_modules("a\\node_modules\\b.js"));
    assert!(!in_node_modules("a/Node_Modules/b.js"));
}

#[test]
fn vendor_segment_in_a_path_that_is_not_ascii() {
    assert!(in_node_modules("größe/node_modules/π.js"));
    assert!(!in_node_modules("größe/node_modulés/π.js"));
}

#[test]
fn the_valid_extensions_are_the_eight_that_can_be_parsed() {
    let extensions = lint_pipeline::file_identity::valid_extensions();
    assert_eq!(extensions, vec!["js", "mjs", "cjs", "jsx", "ts", "mts", "cts", "tsx"]);
    for extension in extensions.iter() {
        assert!(is_supported(&format!("file.{extension}")));
    }
}
