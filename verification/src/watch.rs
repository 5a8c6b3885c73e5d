//! Segmentation of the watcher subprocess's diagnostic stream.
//!
//! The stream is an endless sequence of lines. A boundary line — blank,
//! or indented by four spaces — closes the current build cycle: the lines
//! collected so far are parsed, non-diagnostics are discarded, and the
//! records fold into one [`BuildResult`]. The boundary line itself is
//! never parsed. The very first line of the stream is special: a fixed
//! sentinel prefix there means the watched directory is no project root
//! at all, a fatal startup condition since no cycle can ever complete.

use vstd::prelude::*;

use crate::parser::{
    parse_line, rec_errors, rec_warnings, line_wf, spec_parse, BuildResult, Line, RecView,
};
use crate::text::{is_blank, is_blank_exec, starts_with, starts_with_spec};

verus! {

/// A cycle boundary: a blank line, or one that starts with four spaces.
pub open spec fn is_boundary_spec(l: Seq<char>) -> bool {
    starts_with_spec(l, seq![' ', ' ', ' ', ' ']) || is_blank(l)
}

/// Whether the line closes the current build cycle.
pub fn is_boundary(line: &str) -> (r: bool)
    ensures
        r == is_boundary_spec(line@),
{
    let indented = starts_with(line, "    ");
    proof {
        reveal_strlit("    ");
        assert("    "@ =~= seq![' ', ' ', ' ', ' ']);
    }
    indented || is_blank_exec(line)
}

/// The sentinel prefix of the watcher's first line that reports a
/// directory with no project to watch. Chosen as the specific message
/// rather than a bare `error` prefix, so that an ordinary first
/// diagnostic cannot trigger a false startup failure.
pub open spec fn startup_failure_spec(l: Seq<char>) -> bool {
    starts_with_spec(l, "error: Not a Cargo project"@)
}

/// Whether the first line of the watcher's output reports a fatal
/// startup failure: the watched directory is no project root.
pub fn is_startup_failure(line: &str) -> (r: bool)
    ensures
        r == startup_failure_spec(line@),
{
    starts_with(line, "error: Not a Cargo project")
}

/// The records of one cycle: each buffered line parsed in order, the
/// non-diagnostics discarded.
pub open spec fn cycle_records(lines: Seq<Seq<char>>) -> Seq<RecView>
    decreases lines.len(),
{
    if lines.len() == 0 {
        Seq::<RecView>::empty()
    } else {
        cycle_records(lines.drop_last()) + (match spec_parse(lines.last()) {
            Option::Some(rec) => seq![rec],
            Option::None => Seq::<RecView>::empty(),
        })
    }
}

/// Parses one cycle's buffered lines, in emission order, and folds the
/// records into a build result: the warnings and the errors each keep
/// their relative order.
pub fn aggregate_cycle(lines: &Vec<String>) -> (r: BuildResult)
    requires
        forall|i: int| 0 <= i < lines@.len() ==> line_wf(lines@[i]@),
    ensures
        r@.warnings == rec_warnings(cycle_records(lines@.map_values(|l: String| l@))),
        r@.errors == rec_errors(cycle_records(lines@.map_values(|l: String| l@))),
{
    let ghost all = lines@.map_values(|l: String| l@);
    let mut records: Vec<Line> = Vec::new();
    let mut i: usize = 0;
    proof {
        assert(records@.map_values(|ln: Line| ln@) =~= cycle_records(all.take(0)));
    }
    while i < lines.len()
        invariant
            0 <= i <= lines@.len(),
            all == lines@.map_values(|l: String| l@),
            all.len() == lines@.len(),
            forall|j: int| 0 <= j < lines@.len() ==> line_wf(lines@[j]@),
            records@.map_values(|ln: Line| ln@) == cycle_records(all.take(i as int)),
        decreases lines@.len() - i,
    {
        let ghost old_r = records@.map_values(|ln: Line| ln@);
        let line = lines[i].clone();
        proof {
            assert(lines@.map_values(|l: String| l@)[i as int] == lines@[i as int]@);
            assert(line@ == all[i as int]);
            assert(all.take(i + 1).drop_last() =~= all.take(i as int));
            assert(all.take(i + 1).last() == all[i as int]);
        }
        match parse_line(line) {
            Some(ln) => {
                let ghost rv = ln@;
                records.push(ln);
                proof {
                    assert(records@.map_values(|ln: Line| ln@) =~= old_r.push(rv));
                    assert(old_r.push(rv) =~= old_r + seq![rv]);
                }
            },
            None => {},
        }
        i = i + 1;
    }
    proof {
        assert(all.take(all.len() as int) =~= all);
    }
    BuildResult::from_lines(records)
}

/// The collected lines of the build cycle now in progress. Lines arrive
/// one at a time; a boundary line closes the cycle, yields its result,
/// and starts the next cycle empty. No partial result is ever visible:
/// only a closed cycle produces a [`BuildResult`].
pub struct CycleBuffer {
    pub lines: Vec<String>,
}

impl CycleBuffer {
    /// Every buffered line is one the parser accepts.
    pub open spec fn wf(&self) -> bool {
        forall|i: int| 0 <= i < self.lines@.len() ==> line_wf(self.lines@[i]@)
    }

    /// An empty buffer: the first cycle has not begun collecting.
    pub fn new() -> (r: CycleBuffer)
        ensures
            r.wf(),
            r.lines@.len() == 0,
    {
        CycleBuffer { lines: Vec::new() }
    }

    /// Takes the next line of the stream. A boundary line closes the
    /// cycle: the buffered lines — not the boundary itself — become the
    /// cycle's result and the buffer restarts empty. Any other line is
    /// appended and no result appears.
    pub fn accept(&mut self, line: String) -> (r: Option<BuildResult>)
        requires
            old(self).wf(),
            line_wf(line@),
        ensures
            final(self).wf(),
            ({
                if is_boundary_spec(line@) {
                    let recs = cycle_records(old(self).lines@.map_values(|l: String| l@));
                    &&& r matches Some(br) && br@.warnings == rec_warnings(recs) && br@.errors
                        == rec_errors(recs)
                    &&& final(self).lines@.len() == 0
                } else {
                    r is None && final(self).lines@ == old(self).lines@.push(line)
                }
            }),
    {
        if is_boundary(line.as_str()) {
            let result = aggregate_cycle(&self.lines);
            self.lines = Vec::new();
            Some(result)
        } else {
            self.lines.push(line);
            None
        }
    }
}

} // verus!
