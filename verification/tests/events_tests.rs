use watchline::events::{translate_input, Action, Event, InputSignal, KeySignal, LoopState};
use watchline::parser::{parse_line, BuildResult};

#[test]
fn translate_escape_quits() {
    let r = translate_input(InputSignal::Key { code: KeySignal::Esc, ctrl_only: false });
    assert!(matches!(r, Some(Event::Quit)));
    let r = translate_input(InputSignal::Key { code: KeySignal::Esc, ctrl_only: true });
    assert!(matches!(r, Some(Event::Quit)));
}

#[test]
fn translate_control_c_quits() {
    let r = translate_input(InputSignal::Key { code: KeySignal::Char('c'), ctrl_only: true });
    assert!(matches!(r, Some(Event::Quit)));
}

#[test]
fn translate_ignores_other_keys() {
    let plain_c = translate_input(InputSignal::Key { code: KeySignal::Char('c'), ctrl_only: false });
    assert!(plain_c.is_none());
    let ctrl_x = translate_input(InputSignal::Key { code: KeySignal::Char('x'), ctrl_only: true });
    assert!(ctrl_x.is_none());
    let other = translate_input(InputSignal::Key { code: KeySignal::Other, ctrl_only: false });
    assert!(other.is_none());
    assert!(translate_input(InputSignal::Mouse).is_none());
    assert!(translate_input(InputSignal::Other).is_none());
}

#[test]
fn translate_resize_redraws() {
    assert!(matches!(translate_input(InputSignal::Resize), Some(Event::Redraw)));
}

#[test]
fn scenario_quit_while_idle() {
    // A quit in the idle state asks for exit without ever drawing.
    let mut state = LoopState::new();
    assert!(state.latest.is_none());
    let action = state.step(Event::Quit);
    assert!(matches!(action, Some(Action::Exit)));
    assert!(state.latest.is_none());
}

#[test]
fn redraw_while_idle_draws_nothing() {
    let mut state = LoopState::new();
    assert!(state.step(Event::Redraw).is_none());
}

#[test]
fn build_event_stores_and_draws() {
    let mut state = LoopState::new();
    let result = BuildResult::from_lines(vec![
        parse_line(String::from("a.rs:3:5 warning: unused import")).unwrap(),
    ]);
    let action = state.step(Event::BuildEvent(result));
    match action {
        Some(Action::Draw(spans)) => {
            assert_eq!(spans[0].text, "1 ");
            assert_eq!(spans[4].text, "a.rs:3:5");
        }
        _ => panic!("a build event draws"),
    }
    assert!(state.latest.is_some());
}

#[test]
fn redraw_is_idempotent() {
    let mut state = LoopState::new();
    let result = BuildResult::from_lines(vec![
        parse_line(String::from("b.rs:1:1 error: broken")).unwrap(),
    ]);
    state.step(Event::BuildEvent(result));
    let first = match state.step(Event::Redraw) {
        Some(Action::Draw(spans)) => spans,
        _ => panic!("redraw draws when a result is stored"),
    };
    let second = match state.step(Event::Redraw) {
        Some(Action::Draw(spans)) => spans,
        _ => panic!("redraw draws when a result is stored"),
    };
    assert_eq!(first.len(), second.len());
    for (a, b) in first.iter().zip(second.iter()) {
        assert_eq!(a.text, b.text);
        assert_eq!(a.style, b.style);
    }
}
