//! Control events and the main loop's state machine.
//!
//! Two producers feed one ordered queue: the watcher adapter emits a
//! [`Event::BuildEvent`] per completed cycle, and the input adapter turns
//! terminal signals into redraw or quit requests. The main loop consumes
//! the queue, keeps at most the latest build result, and reacts to each
//! event exactly once. The decision of how to react lives here as a pure
//! transition; performing the drawing and the process kill is the
//! caller's business.

use vstd::prelude::*;

use crate::display::{render, render_spec, SpanView, StyledSpan};
use crate::parser::BuildResult;

verus! {

/// One event of the merged stream: a completed build cycle's result, a
/// request to redraw the current state, or a request to quit.
pub enum Event {
    BuildEvent(BuildResult),
    Redraw,
    Quit,
}

/// The key a pressed terminal key resolves to, as far as the loop cares:
/// the escape key, a character key, or anything else.
pub enum KeySignal {
    Esc,
    Char(char),
    Other,
}

/// A terminal input signal, reduced to what the control logic reads: a
/// key press with its code and whether the control modifier alone was
/// held, a resize notification, a mouse event, or anything else.
pub enum InputSignal {
    Key { code: KeySignal, ctrl_only: bool },
    Resize,
    Mouse,
    Other,
}

/// The control event an input signal translates to, if any.
pub open spec fn translate_spec(sig: InputSignal) -> Option<Event> {
    match sig {
        InputSignal::Key { code: KeySignal::Esc, ctrl_only: _ } => Some(Event::Quit),
        InputSignal::Key { code: KeySignal::Char(c), ctrl_only } => if c == 'c' && ctrl_only {
            Some(Event::Quit)
        } else {
            None
        },
        InputSignal::Key { code: KeySignal::Other, ctrl_only: _ } => None,
        InputSignal::Resize => Some(Event::Redraw),
        InputSignal::Mouse => None,
        InputSignal::Other => None,
    }
}

/// Translates one terminal input signal into a control event: escape or
/// control-c request quit, a resize requests a redraw, and every other
/// signal is silently ignored.
pub fn translate_input(sig: InputSignal) -> (r: Option<Event>)
    ensures
        r == translate_spec(sig),
{
    match sig {
        InputSignal::Key { code: KeySignal::Esc, ctrl_only: _ } => Some(Event::Quit),
        InputSignal::Key { code: KeySignal::Char(c), ctrl_only } => if c == 'c' && ctrl_only {
            Some(Event::Quit)
        } else {
            None
        },
        InputSignal::Resize => Some(Event::Redraw),
        _ => None,
    }
}

/// What the main loop asks its surroundings to do after one event: draw
/// the given segments onto the terminal, or kill the watcher and exit.
pub enum Action {
    Draw(Vec<StyledSpan>),
    Exit,
}

/// The segments of a draw action, if it is one.
pub open spec fn action_view(a: Option<Action>) -> Option<Seq<SpanView>> {
    match a {
        Some(Action::Draw(spans)) => Some(spans@.map_values(|s: StyledSpan| s@)),
        Some(Action::Exit) => None,
        None => None,
    }
}

/// The main loop's state: the latest build result, if any cycle has
/// completed yet. Holding none is the idle state; the loop leaves only
/// through an explicit quit.
pub struct LoopState {
    pub latest: Option<BuildResult>,
}

/// How one event changes the loop's state and what it asks for: a build
/// result replaces the stored one and is drawn; a redraw re-renders the
/// stored result, or nothing when idle; a quit changes nothing and asks
/// for exit.
pub open spec fn step_spec(
    pre: LoopState,
    event: Event,
    post: LoopState,
    a: Option<Action>,
) -> bool {
    match event {
        Event::BuildEvent(br) => {
            &&& post.latest == Some(br)
            &&& action_view(a) == Some(render_spec(br@))
        },
        Event::Redraw => {
            &&& post == pre
            &&& match pre.latest {
                Some(br) => action_view(a) == Some(render_spec(br@)),
                None => a is None,
            }
        },
        Event::Quit => {
            &&& post == pre
            &&& a matches Some(Action::Exit)
        },
    }
}

impl LoopState {
    /// The idle state: no build result yet.
    pub fn new() -> (r: LoopState)
        ensures
            r.latest is None,
    {
        LoopState { latest: None }
    }

    /// Consumes one event and decides the reaction, as [`step_spec`]
    /// describes. A quit while idle asks for exit without ever drawing.
    pub fn step(&mut self, event: Event) -> (a: Option<Action>)
        ensures
            step_spec(*old(self), event, *final(self), a),
    {
        match event {
            Event::BuildEvent(br) => {
                let spans = render(&br);
                self.latest = Some(br);
                Some(Action::Draw(spans))
            },
            Event::Redraw => match &self.latest {
                Some(br) => Some(Action::Draw(render(br))),
                None => None,
            },
            Event::Quit => Some(Action::Exit),
        }
    }
}

/// Redrawing is idempotent: with no build completion in between, any
/// number of redraw requests leave the state alone and render the very
/// same segments each time.
pub proof fn lemma_redraw_idempotent(
    pre: LoopState,
    mid: LoopState,
    post: LoopState,
    a1: Option<Action>,
    a2: Option<Action>,
)
    requires
        step_spec(pre, Event::Redraw, mid, a1),
        step_spec(mid, Event::Redraw, post, a2),
    ensures
        mid == pre,
        post == pre,
        action_view(a1) == action_view(a2),
{
}

} // verus!
