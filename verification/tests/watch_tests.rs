use watchline::display::render;
use watchline::watch::{aggregate_cycle, is_boundary, is_startup_failure, CycleBuffer};

#[test]
fn boundary_lines() {
    assert!(is_boundary(""));
    assert!(is_boundary("   "));
    assert!(is_boundary("\t"));
    assert!(is_boundary("    indented detail"));
    assert!(!is_boundary("   three spaces then text"));
    assert!(!is_boundary("a.rs:3:5 warning: unused import"));
}

#[test]
fn scenario_build_cycle() {
    // A cycle of one warning and one error, closed by the indented
    // continuation line; the blank line then closes an empty cycle.
    let mut buffer = CycleBuffer::new();
    assert!(buffer
        .accept(String::from("a.rs:3:5 warning: unused import"))
        .is_none());
    assert!(buffer
        .accept(String::from("b.rs:1:1 error[E0001]: type mismatch"))
        .is_none());
    let result = buffer
        .accept(String::from("    extra detail"))
        .expect("boundary closes the cycle");
    assert_eq!(result.warnings.len(), 1);
    assert_eq!(result.errors.len(), 1);
    let spans = render(&result);
    assert_eq!(spans[2].text, "1 ");
    assert_eq!(spans[4].text, "b.rs:1:1");
    assert_eq!(spans[5].text, " type mismatch");

    let empty = buffer
        .accept(String::new())
        .expect("a blank line closes the next, empty cycle");
    assert!(empty.zero_messages());
}

#[test]
fn scenario_empty_cycle() {
    let mut buffer = CycleBuffer::new();
    let result = buffer.accept(String::new()).expect("boundary at once");
    assert!(result.zero_messages());
    let spans = render(&result);
    assert_eq!(spans.len(), 5);
    assert_eq!(spans[4].text, "[OK]");
}

#[test]
fn scenario_startup_failure() {
    assert!(is_startup_failure("error: Not a Cargo project, aborting."));
    assert!(!is_startup_failure("a.rs:3:5 warning: unused import"));
    assert!(!is_startup_failure(""));
    // An ordinary first diagnostic is no startup failure.
    assert!(!is_startup_failure("error: expected one of `,` here"));
}

#[test]
fn aggregate_discards_non_diagnostics() {
    let lines = vec![
        String::from("Compiling watchline v0.1.0"),
        String::from("a.rs:3:5 warning: unused import"),
        String::from("Finished dev profile"),
    ];
    let result = aggregate_cycle(&lines);
    assert_eq!(result.warnings.len(), 1);
    assert_eq!(result.errors.len(), 0);
    assert_eq!(result.warnings[0].path, "a.rs");
}

#[test]
fn cycle_buffer_restarts_after_boundary() {
    let mut buffer = CycleBuffer::new();
    let _ = buffer.accept(String::from("a.rs:3:5 warning: w"));
    let _ = buffer.accept(String::new());
    // The next cycle starts from nothing: the old warning is gone.
    let result = buffer.accept(String::new()).expect("boundary");
    assert!(result.zero_messages());
}
