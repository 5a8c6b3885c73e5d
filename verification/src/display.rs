//! Render decision logic: the latest build result, as one line of styled
//! text segments.
//!
//! This is a pure decision: what texts to show and with which emphasis.
//! Drawing the segments onto an actual terminal is the caller's business;
//! the library only fixes, for every possible result, exactly which
//! segments make up the line.

use vstd::prelude::*;

use crate::parser::{BrView, BuildResult, Location};
use crate::text::{format_usize, numeral};

verus! {

/// The emphasis of one text segment. Counts stand out in their kind's
/// colour only when non-zero; the all-clear marker is green; plain
/// segments carry no emphasis.
#[derive(Clone, Copy, Debug, PartialEq, Eq, Structural)]
pub enum SpanStyle {
    Yellow,
    DarkGray,
    LightRed,
    Green,
    Plain,
}

/// The mathematical content of a [`StyledSpan`].
pub struct SpanView {
    pub text: Seq<char>,
    pub style: SpanStyle,
}

/// One text segment of the rendered line, with its emphasis.
pub struct StyledSpan {
    pub text: String,
    pub style: SpanStyle,
}

impl View for StyledSpan {
    type V = SpanView;

    open spec fn view(&self) -> SpanView {
        SpanView { text: self.text@, style: self.style }
    }
}

/// The style of the warning count: emphasised only when warnings exist.
pub open spec fn warning_count_style(v: BrView) -> SpanStyle {
    if v.warnings.len() > 0 {
        SpanStyle::Yellow
    } else {
        SpanStyle::DarkGray
    }
}

/// The style of the error count: emphasised only when errors exist.
pub open spec fn error_count_style(v: BrView) -> SpanStyle {
    if v.errors.len() > 0 {
        SpanStyle::LightRed
    } else {
        SpanStyle::DarkGray
    }
}

/// The rendered line for a build result: warning count, separator, error
/// count, separator, then the most recent error's location and message if
/// any error exists, else the most recent warning's if any warning
/// exists, else the all-clear marker.
pub open spec fn render_spec(v: BrView) -> Seq<SpanView> {
    let counts = seq![
        SpanView { text: numeral(v.warnings.len()) + seq![' '], style: warning_count_style(v) },
        SpanView { text: seq!['|'], style: SpanStyle::Plain },
        SpanView { text: numeral(v.errors.len()) + seq![' '], style: error_count_style(v) },
        SpanView { text: seq!['|'], style: SpanStyle::Plain },
    ];
    if v.errors.len() > 0 {
        counts + seq![
            SpanView { text: Location::text(v.errors.last()), style: SpanStyle::Plain },
            SpanView { text: seq![' '] + v.errors.last().message, style: SpanStyle::LightRed },
        ]
    } else if v.warnings.len() > 0 {
        counts + seq![
            SpanView { text: Location::text(v.warnings.last()), style: SpanStyle::Plain },
            SpanView { text: seq![' '] + v.warnings.last().message, style: SpanStyle::Yellow },
        ]
    } else {
        counts + seq![SpanView { text: seq!['[', 'O', 'K', ']'], style: SpanStyle::Green }]
    }
}

/// A build cycle is all clear exactly when the rendered line takes the
/// short, five-segment shape that ends in the green `[OK]` marker.
pub proof fn lemma_ok_branch_iff_no_messages(v: BrView)
    ensures
        (v.warnings.len() + v.errors.len() == 0) <==> render_spec(v).len() == 5,
        (v.warnings.len() + v.errors.len() == 0) ==> render_spec(v).last() == (SpanView {
            text: seq!['[', 'O', 'K', ']'],
            style: SpanStyle::Green,
        }),
{
}

/// The most recent diagnostic shown is the last error whenever any error
/// exists: even when warnings exist too, and whatever order the kinds
/// arrived in, the warning is passed over in favour of the error.
pub proof fn lemma_last_error_preferred(v: BrView)
    ensures
        v.errors.len() > 0 ==> render_spec(v)[4] == (SpanView {
            text: Location::text(v.errors.last()),
            style: SpanStyle::Plain,
        }),
        v.errors.len() > 0 ==> render_spec(v)[5] == (SpanView {
            text: seq![' '] + v.errors.last().message,
            style: SpanStyle::LightRed,
        }),
{
}

/// Builds the count segment: the number followed by one space.
fn count_span(n: usize, style: SpanStyle) -> (r: StyledSpan)
    ensures
        r@.text == numeral(n as nat) + seq![' '],
        r@.style == style,
{
    let mut text = format_usize(n);
    text.append(" ");
    proof {
        reveal_strlit(" ");
        assert(text@ =~= numeral(n as nat) + seq![' ']);
    }
    StyledSpan { text, style }
}

/// Builds the message segment: one space, then the message text.
fn message_span(loc: &Location, style: SpanStyle) -> (r: StyledSpan)
    ensures
        r@.text == seq![' '] + loc@.message,
        r@.style == style,
{
    let mut text = String::from_str(" ");
    text.append(loc.message.as_str());
    proof {
        reveal_strlit(" ");
        assert(text@ =~= seq![' '] + loc@.message);
    }
    StyledSpan { text, style }
}

/// Renders the latest build result into the segments of one line, exactly
/// as [`render_spec`] describes. Identical results always render to
/// identical segments.
pub fn render(result: &BuildResult) -> (spans: Vec<StyledSpan>)
    ensures
        spans@.map_values(|s: StyledSpan| s@) == render_spec(result@),
{
    let warning_style = if result.warnings.len() > 0 {
        SpanStyle::Yellow
    } else {
        SpanStyle::DarkGray
    };
    let error_style = if result.errors.len() > 0 {
        SpanStyle::LightRed
    } else {
        SpanStyle::DarkGray
    };
    let mut spans: Vec<StyledSpan> = Vec::new();
    spans.push(count_span(result.warnings.len(), warning_style));
    spans.push(StyledSpan { text: String::from_str("|"), style: SpanStyle::Plain });
    spans.push(count_span(result.errors.len(), error_style));
    spans.push(StyledSpan { text: String::from_str("|"), style: SpanStyle::Plain });
    proof {
        reveal_strlit("|");
        assert("|"@ =~= seq!['|']);
    }
    match result.last_line() {
        Some(loc) => {
            let style = if result.errors.len() > 0 {
                SpanStyle::LightRed
            } else {
                SpanStyle::Yellow
            };
            spans.push(StyledSpan { text: loc.to_text(), style: SpanStyle::Plain });
            spans.push(message_span(loc, style));
        },
        None => {
            spans.push(StyledSpan { text: String::from_str("[OK]"), style: SpanStyle::Green });
            proof {
                reveal_strlit("[OK]");
                assert("[OK]"@ =~= seq!['[', 'O', 'K', ']']);
            }
        },
    }
    proof {
        assert(spans@.map_values(|s: StyledSpan| s@) =~= render_spec(result@));
    }
    spans
}

} // verus!
