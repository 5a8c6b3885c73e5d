use watchline::parser::{line_from_parts, parse_line, BuildResult, Line, Location};
use watchline::text::{format_usize, parse_usize, split_all_exec};

fn loc_of(line: Option<Line>) -> Location {
    match line {
        Some(Line::Warning(loc)) => loc,
        Some(Line::Error(loc)) => loc,
        None => panic!("expected a diagnostic record"),
    }
}

#[test]
fn scenario_warning_line() {
    let r = parse_line(String::from("a.rs:3:5 warning: unused import"));
    assert!(matches!(r, Some(Line::Warning(_))));
    let loc = loc_of(r);
    assert_eq!(loc.path, "a.rs");
    assert_eq!(loc.line, 3);
    assert_eq!(loc.col, 5);
    assert_eq!(loc.message, "unused import");
}

#[test]
fn parse_error_with_code() {
    let r = parse_line(String::from("b.rs:1:1 error[E0001]: type mismatch"));
    assert!(matches!(r, Some(Line::Error(_))));
    let loc = loc_of(r);
    assert_eq!(loc.path, "b.rs");
    assert_eq!(loc.line, 1);
    assert_eq!(loc.col, 1);
    assert_eq!(loc.message, "type mismatch");
}

#[test]
fn parse_plain_error() {
    let r = parse_line(String::from("lib.rs:12:40 error: oh no"));
    assert!(matches!(r, Some(Line::Error(_))));
    let loc = loc_of(r);
    assert_eq!(loc.line, 12);
    assert_eq!(loc.col, 40);
    assert_eq!(loc.message, "oh no");
}

#[test]
fn parse_empty_message() {
    let r = parse_line(String::from("a.rs:3:5 warning:"));
    assert!(matches!(r, Some(Line::Warning(_))));
    let loc = loc_of(r);
    assert_eq!(loc.message, "");
}

#[test]
fn parse_message_keeps_inner_spaces() {
    let r = parse_line(String::from("a.rs:3:5 warning: one  two three"));
    let loc = loc_of(r);
    assert_eq!(loc.message, "one  two three");
}

#[test]
fn parse_is_pure_function_of_text() {
    let first = loc_of(parse_line(String::from("a.rs:3:5 warning: unused import")));
    let second = loc_of(parse_line(String::from("a.rs:3:5 warning: unused import")));
    assert_eq!(first.path, second.path);
    assert_eq!(first.line, second.line);
    assert_eq!(first.col, second.col);
    assert_eq!(first.message, second.message);
}

#[test]
fn parse_rejects_single_field() {
    assert!(parse_line(String::from("Compiling")).is_none());
}

#[test]
fn parse_rejects_unknown_kind() {
    assert!(parse_line(String::from("a.rs:3:5 note: something")).is_none());
}

#[test]
fn parse_rejects_kind_with_suffix() {
    // The warning token must match in full; a longer token is no warning.
    assert!(parse_line(String::from("a.rs:3:5 warning:x y")).is_none());
}

#[test]
fn parse_rejects_empty_line() {
    assert!(parse_line(String::new()).is_none());
}

#[test]
fn line_from_parts_rejects_short_input() {
    assert!(line_from_parts(vec!["only-head"]).is_none());
    assert!(line_from_parts(Vec::new()).is_none());
}

#[test]
fn line_from_parts_reads_fields() {
    let r = line_from_parts(vec!["x.rs:7:9", "warning:", "w"]);
    assert!(matches!(r, Some(Line::Warning(_))));
    let loc = loc_of(r);
    assert_eq!(loc.path, "x.rs");
    assert_eq!(loc.line, 7);
    assert_eq!(loc.col, 9);
    assert_eq!(loc.message, "w");
}

#[test]
fn location_roundtrip() {
    let loc = Location {
        path: String::from("src/main.rs"),
        line: 10,
        col: 42,
        message: String::from("whatever"),
    };
    let text = loc.to_text();
    assert_eq!(text, "src/main.rs:10:42");
    let parts = split_all_exec(text.as_str(), ':');
    assert_eq!(parts.len(), 3);
    assert_eq!(parts[0], "src/main.rs");
    assert_eq!(parse_usize(parts[1]), Some(10));
    assert_eq!(parse_usize(parts[2]), Some(42));
}

#[test]
fn parse_usize_values() {
    assert_eq!(parse_usize("0"), Some(0));
    assert_eq!(parse_usize("1234"), Some(1234));
    assert_eq!(parse_usize("007"), Some(7));
    assert_eq!(parse_usize(""), None);
    assert_eq!(parse_usize("12a"), None);
    assert_eq!(parse_usize("-3"), None);
    assert_eq!(parse_usize("99999999999999999999999"), None);
}

#[test]
fn format_usize_values() {
    assert_eq!(format_usize(0), "0");
    assert_eq!(format_usize(7), "7");
    assert_eq!(format_usize(1234), "1234");
    assert_eq!(format_usize(usize::MAX), usize::MAX.to_string());
}

#[test]
fn build_result_ok_is_empty() {
    let r = BuildResult::ok();
    assert!(r.zero_messages());
    assert!(r.last_line().is_none());
    assert_eq!(r.warnings.len(), 0);
    assert_eq!(r.errors.len(), 0);
}

#[test]
fn last_error_preferred() {
    // The warning arrives after the error; the error still wins.
    let records = vec![
        parse_line(String::from("b.rs:1:1 error: broken")).unwrap(),
        parse_line(String::from("a.rs:3:5 warning: late warning")).unwrap(),
    ];
    let result = BuildResult::from_lines(records);
    assert_eq!(result.warnings.len(), 1);
    assert_eq!(result.errors.len(), 1);
    let last = result.last_line().expect("a diagnostic exists");
    assert_eq!(last.path, "b.rs");
    assert_eq!(last.message, "broken");
}

#[test]
fn last_line_falls_back_to_warning() {
    let records = vec![
        parse_line(String::from("a.rs:3:5 warning: first")).unwrap(),
        parse_line(String::from("c.rs:9:2 warning: second")).unwrap(),
    ];
    let result = BuildResult::from_lines(records);
    let last = result.last_line().expect("a diagnostic exists");
    assert_eq!(last.path, "c.rs");
    assert_eq!(last.message, "second");
}

#[test]
fn from_lines_keeps_order_within_kind() {
    let records = vec![
        parse_line(String::from("a.rs:1:1 warning: w1")).unwrap(),
        parse_line(String::from("b.rs:2:2 error: e1")).unwrap(),
        parse_line(String::from("c.rs:3:3 warning: w2")).unwrap(),
        parse_line(String::from("d.rs:4:4 error: e2")).unwrap(),
    ];
    let result = BuildResult::from_lines(records);
    assert_eq!(result.warnings.len(), 2);
    assert_eq!(result.errors.len(), 2);
    assert_eq!(result.warnings[0].message, "w1");
    assert_eq!(result.warnings[1].message, "w2");
    assert_eq!(result.errors[0].message, "e1");
    assert_eq!(result.errors[1].message, "e2");
}
