use satyanaash::data::TestResult;
use satyanaash::progress::{
    first_n_lines, payload_display, result_label, PayloadDisplay, ProgressDisplay,
};

#[test]
fn test_print_first_n_lines() {
    let text = "Line 1\nLine 2\nLine 3\nLine 4\nLine 5";
    let lines = first_n_lines(text, 3);
    assert_eq!(lines.len(), 3);
    assert_eq!(lines[0], "Line 1");
    assert_eq!(lines[1], "Line 2");
    assert_eq!(lines[2], "Line 3");
    let std_lines: Vec<&str> = text.lines().take(3).collect();
    assert_eq!(lines, std_lines);
}

#[test]
fn test_print_first_n_lines_fewer_than_n() {
    let text = "Line 1\nLine 2";
    let lines = first_n_lines(text, 5);
    assert_eq!(lines.len(), 2);
    assert_eq!(lines[0], "Line 1");
    assert_eq!(lines[1], "Line 2");
}

#[test]
fn test_print_first_n_lines_empty() {
    let text = "";
    let lines = first_n_lines(text, 3);
    assert_eq!(lines.len(), 0);
}

#[test]
fn lines_end_at_line_feeds_with_or_without_carriage_return() {
    for text in ["a\r\nb\n\nc\r", "a\n", "\n", "\r\n\r\n", "x\ry\nz", "--b\r\nk\r\n\r\nv\r\n--b--"] {
        let expected: Vec<&str> = text.lines().collect();
        assert_eq!(first_n_lines(text, 100), expected);
        let two: Vec<&str> = text.lines().take(2).collect();
        assert_eq!(first_n_lines(text, 2), two);
        assert_eq!(first_n_lines(text, 0).len(), 0);
    }
}

#[test]
fn progress_message_names_the_url() {
    assert_eq!(ProgressDisplay::message("http://example.com"), "Fetching http://example.com...");
}

#[test]
fn payloads_are_shown_by_their_content_type() {
    assert_eq!(payload_display("application/json"), PayloadDisplay::PrettyJson);
    assert_eq!(payload_display("application/x-www-form-urlencoded"), PayloadDisplay::FormData);
    assert_eq!(payload_display("multipart/form-data"), PayloadDisplay::Lines);
    assert_eq!(payload_display("text/csv"), PayloadDisplay::Lines);
    assert_eq!(payload_display("text"), PayloadDisplay::Chunks);
    assert_eq!(payload_display(""), PayloadDisplay::Chunks);
    assert_eq!(payload_display("image/png"), PayloadDisplay::Chunks);
}

#[test]
fn results_are_reported_by_a_word() {
    assert_eq!(result_label(TestResult::Passed), Some("PASSED"));
    assert_eq!(result_label(TestResult::Failed), Some("FAILED"));
    assert_eq!(result_label(TestResult::Skipped), Some("SKIPPED"));
    assert_eq!(result_label(TestResult::NotYetTested), None);
}
