use texlab::diagnostics::{DiagnosticSeverity, Range};
use texlab::lint::{parse_lint_line, parse_lint_output};

#[test]
fn lint_line_gives_zero_based_span() {
    let d = parse_lint_line("3:5:2:Warning:8:Wrong length of dash: try --").unwrap();
    assert_eq!(d.range, Range::new_simple(2, 4, 2, 6));
    assert_eq!(d.severity, DiagnosticSeverity::Warning);
    assert_eq!(d.code, "8");
    assert_eq!(d.message, "Wrong length of dash: try --");
    assert_eq!(d.source, "chktex");
}

#[test]
fn lint_kinds_map_to_severities() {
    assert_eq!(parse_lint_line("1:1:1:Message:1:m").unwrap().severity, DiagnosticSeverity::Information);
    assert_eq!(parse_lint_line("1:1:1:Error:1:m").unwrap().severity, DiagnosticSeverity::Error);
    assert_eq!(parse_lint_line("1:1:1:Other:1:m\r").unwrap().message, "m");
}

#[test]
fn malformed_lint_lines_are_skipped() {
    for line in ["", "1:1:1:Warning:8", "a:1:1:Warning:8:m", "1:1:1:War-ning:8:m", "0:1:1:Warning:8:m",
        "1:0:1:Warning:8:m", "1::1:Warning:8:m", "99999999999999999999:1:1:Warning:8:m",
        "1:18446744073709551615:2:Warning:8:m"] {
        assert!(parse_lint_line(line).is_none(), "{}", line);
    }
    assert!(parse_lint_line("1:18446744073709551615:1:Warning:8:m").is_some());
}

#[test]
fn lint_output_is_read_line_by_line() {
    let out = "1:2:3:Warning:24:Delete this space\nnoise\r\n10:1:1:Error:1:Command terminated\n2:1:0:Message:3:last";
    let diagnostics = parse_lint_output(out);
    assert_eq!(diagnostics.len(), 3);
    assert_eq!(diagnostics[0].range, Range::new_simple(0, 1, 0, 4));
    assert_eq!(diagnostics[0].code, "24");
    assert_eq!(diagnostics[1].range, Range::new_simple(9, 0, 9, 1));
    assert_eq!(diagnostics[2].message, "last");
    assert!(parse_lint_output("").is_empty());
}
