use minigrep::LineOutcome;
use minigrep::RunParameters;
use minigrep::process_lines;

const START: &str = "\x1b[100m";
const END: &str = "\x1b[0m";

fn lines_of(input: &str) -> Vec<LineOutcome> {
    input.split('\n').map(|l| LineOutcome::Text(l.as_bytes().to_vec())).collect()
}

fn rows_of(out: &[&str]) -> Vec<Vec<u8>> {
    out.iter().map(|s| s.as_bytes().to_vec()).collect()
}

fn params(
    query: &str,
    ignore_case: bool,
    line_numbers: bool,
    highlight: bool,
    all_text: bool,
) -> RunParameters {
    RunParameters::from_config(query, ignore_case, line_numbers, highlight, all_text)
        .expect("pattern should compile")
}

#[test]
fn test_case_sensitive_search() {
    let lines = lines_of("Hello\nworld\nRust programming");
    let p = params("Rust", false, false, false, false);
    assert_eq!(process_lines(&lines, &p), rows_of(&["Rust programming"]));
}

#[test]
fn test_case_insensitive_search() {
    let lines = lines_of("Hello\nworld\nrust programming");
    let p = params("rust", true, false, false, false);
    assert_eq!(process_lines(&lines, &p), rows_of(&["rust programming"]));
}

#[test]
fn test_highlighted_search() {
    let lines = lines_of("Hello\nworld\nRust programming");
    let p = params("Rust", false, false, true, false);
    let expected = format!("{}Rust{} programming", START, END);
    assert_eq!(process_lines(&lines, &p), rows_of(&[expected.as_str()]));
}

#[test]
fn test_search_with_line_numbers() {
    let lines = lines_of("Hello\nworld\nRust programming");
    let p = params("Rust", false, true, false, false);
    assert_eq!(process_lines(&lines, &p), rows_of(&["Line 3: Rust programming"]));
}

#[test]
fn test_all_text_with_highlight() {
    let lines = lines_of("Hello\nworld\nRust programming");
    let p = params("Rust", false, false, false, true);
    assert!(p.highlight);
    let expected = format!("{}Rust{} programming", START, END);
    assert_eq!(
        process_lines(&lines, &p),
        rows_of(&["Hello", "world", expected.as_str()]),
    );
}

#[test]
fn test_no_matches() {
    let lines = lines_of("Hello\nworld\nRust programming");
    let p = params("Java", false, false, false, false);
    assert_eq!(process_lines(&lines, &p), rows_of(&[]));
}

#[test]
fn test_case_insensitive_uppercase_query() {
    let lines = lines_of("Hello\nworld\nRust programming");
    let p = params("RuSt", true, false, false, false);
    assert_eq!(process_lines(&lines, &p), rows_of(&["Rust programming"]));
}

#[test]
fn test_case_insensitive_preserves_display() {
    let lines = lines_of("Hello\nworld\nRUST programming");
    let p = params("rust", true, false, false, false);
    assert_eq!(process_lines(&lines, &p), rows_of(&["RUST programming"]));
}

#[test]
fn test_case_insensitive_highlight_slices_original() {
    let lines = lines_of("Rust RUST rust");
    let p = params("rust", true, false, true, false);
    let expected = format!("{s}Rust{e} {s}RUST{e} {s}rust{e}", s = START, e = END);
    assert_eq!(process_lines(&lines, &p), rows_of(&[expected.as_str()]));
}

#[test]
fn test_multiple_matches_highlighted() {
    let lines = lines_of("aXbXc");
    let p = params("X", false, false, true, false);
    let expected = format!("a{s}X{e}b{s}X{e}c", s = START, e = END);
    assert_eq!(process_lines(&lines, &p), rows_of(&[expected.as_str()]));
}

#[test]
fn test_regex_metacharacters_match() {
    let lines = lines_of("Rust\nroast\nR st");
    let p = params("R.st", false, false, false, false);
    assert_eq!(process_lines(&lines, &p), rows_of(&["Rust", "R st"]));
}

#[test]
fn test_empty_pattern_zero_width_highlight() {
    let lines = lines_of("ab");
    let p = params("", false, false, true, false);
    let expected = format!("{s}{e}a{s}{e}b{s}{e}", s = START, e = END);
    assert_eq!(process_lines(&lines, &p), rows_of(&[expected.as_str()]));
}

#[test]
fn test_unreadable_line_counts_toward_numbering() {
    let lines = vec![
        LineOutcome::Text(b"Rust a".to_vec()),
        LineOutcome::Unreadable,
        LineOutcome::Text(b"Rust b".to_vec()),
    ];
    let p = params("Rust", false, true, false, false);
    assert_eq!(
        process_lines(&lines, &p),
        rows_of(&["Line 1: Rust a", "Line 3: Rust b"]),
    );
}

#[test]
fn test_two_digit_line_number() {
    let mut lines: Vec<LineOutcome> = Vec::new();
    for _ in 0..11 {
        lines.push(LineOutcome::Text(b"quiet".to_vec()));
    }
    lines.push(LineOutcome::Text(b"Rust at last".to_vec()));
    let p = params("Rust", false, true, false, false);
    assert_eq!(process_lines(&lines, &p), rows_of(&["Line 12: Rust at last"]));
}

#[test]
fn test_stripping_markers_recovers_original_line() {
    let lines = lines_of("Rust loves rust, Rust!");
    let p = params("Rust", false, false, true, false);
    let out = process_lines(&lines, &p);
    assert_eq!(out.len(), 1);
    let rendered = String::from_utf8(out[0].clone()).unwrap();
    let stripped = rendered.replace(START, "").replace(END, "");
    assert_eq!(stripped, "Rust loves rust, Rust!");
}

#[test]
fn test_case_insensitive_equals_lowered_comparison() {
    let input = "Hello\nworld\nRust programming";
    let lowered = input.to_lowercase();
    let ci = params("RuSt", true, false, false, false);
    let plain = params("rust", false, false, false, false);
    let ci_out = process_lines(&lines_of(input), &ci);
    let plain_out = process_lines(&lines_of(lowered.as_str()), &plain);
    assert_eq!(ci_out.len(), plain_out.len());
    assert_eq!(ci_out, rows_of(&["Rust programming"]));
    assert_eq!(plain_out, rows_of(&["rust programming"]));
}

#[test]
fn test_all_text_keeps_unmatched_lines_with_numbers() {
    let lines = lines_of("Hello\nworld");
    let p = params("Java", false, true, false, true);
    assert_eq!(
        process_lines(&lines, &p),
        rows_of(&["Line 1: Hello", "Line 2: world"]),
    );
}
