use lint_pipeline::line_guard::{exceeds_line_guard, LINE_GUARD};

#[test]
fn the_guard_is_four_hundred_bytes() {
    assert_eq!(LINE_GUARD, 400);
}

#[test]
fn short_lines_pass_the_guard() {
    assert!(!exceeds_line_guard(""));
    assert!(!exceeds_line_guard("one line"));
    assert!(!exceeds_line_guard("\n\n\n"));
    assert!(!exceeds_line_guard(&"x".repeat(399)));
    let many = format!("{}\n{}\n{}", "a".repeat(399), "b".repeat(399), "c".repeat(399));
    assert!(!exceeds_line_guard(&many));
}

#[test]
fn a_line_of_four_hundred_bytes_trips_the_guard() {
    assert!(exceeds_line_guard(&"x".repeat(400)));
    assert!(exceeds_line_guard(&format!("short\n{}\nshort", "x".repeat(400))));
    assert!(exceeds_line_guard(&format!("{}\n", "x".repeat(400))));
    assert!(exceeds_line_guard(&format!("short\n{}", "x".repeat(401))));
}

#[test]
fn a_carriage_return_before_the_line_feed_is_not_counted() {
    assert!(!exceeds_line_guard(&format!("{}\r\n", "x".repeat(399))));
    assert!(exceeds_line_guard(&format!("{}\r\n", "x".repeat(400))));
    // At the end of the text nothing follows the carriage return, so it
    // belongs to the line.
    assert!(exceeds_line_guard(&format!("{}\r", "x".repeat(399))));
    // A carriage return in the middle of a line is a byte like any other.
    assert!(exceeds_line_guard(&format!("{}\r{}\n", "x".repeat(200), "y".repeat(199))));
}

#[test]
fn the_guard_counts_bytes_not_characters() {
    // 200 characters of two bytes each.
    assert!(exceeds_line_guard(&"é".repeat(200)));
    assert!(!exceeds_line_guard(&"é".repeat(199)));
}

#[test]
fn the_guard_agrees_with_the_lines_of_std() {
    let texts = [
        String::new(),
        "a\nb".to_string(),
        format!("{}\r\n{}", "x".repeat(399), "y".repeat(10)),
        format!("{}\r\n{}", "x".repeat(400), "y".repeat(10)),
        format!("{}\r", "x".repeat(399)),
        format!("\n{}", "x".repeat(400)),
        format!("{}\n\r\n", "x".repeat(398)),
    ];
    for text in texts.iter() {
        let expected = text.lines().any(|line| line.len() >= 400);
        assert_eq!(exceeds_line_guard(text), expected, "{text:?}");
    }
}
