//! Diagnostic line parsing and build-cycle aggregation.
//!
//! One line of compiler-style output either names a warning or error at a
//! `path:line:col` location, or is no diagnostic at all. A build cycle's
//! parsed records fold into a [`BuildResult`]: the ordered warnings and
//! the ordered errors of that cycle.

use vstd::prelude::*;

use crate::text::{
    format_usize, is_numeral, numeral, parse_usize, rest_after, split_all, split_all_exec,
    split_head, starts_with, starts_with_spec, str_eq, str_to_nat, take_until,
    lemma_numeral_roundtrip, lemma_split_all_step, lemma_take_rest,
};

verus! {

/// The mathematical content of a [`Location`]: what a diagnostic record
/// observably holds.
pub struct LocView {
    pub path: Seq<char>,
    pub line: nat,
    pub col: nat,
    pub message: Seq<char>,
}

/// One compiler-reported site: file path, line, column, and the message
/// text (possibly empty). Immutable once constructed.
pub struct Location {
    pub path: String,
    pub line: usize,
    pub col: usize,
    pub message: String,
}

impl View for Location {
    type V = LocView;

    open spec fn view(&self) -> LocView {
        LocView {
            path: self.path@,
            line: self.line as nat,
            col: self.col as nat,
            message: self.message@,
        }
    }
}

/// The kind token that marks a warning diagnostic.
pub open spec fn is_warning_kind(k: Seq<char>) -> bool {
    k == "warning:"@
}

/// The kind token that marks an error diagnostic, allowing variants such
/// as a bracketed error code before the colon.
pub open spec fn is_error_kind(k: Seq<char>) -> bool {
    starts_with_spec(k, "error"@)
}

/// A head field is well formed when splitting it on `:` yields at least
/// path, line and column, and both numbers are numerals that fit.
pub open spec fn head_wf(head: Seq<char>) -> bool {
    let ps = split_all(head, ':');
    &&& ps.len() >= 3
    &&& is_numeral(ps[1])
    &&& str_to_nat(ps[1]) <= usize::MAX
    &&& is_numeral(ps[2])
    &&& str_to_nat(ps[2]) <= usize::MAX
}

/// The location read from a well-formed head field and a message.
pub open spec fn spec_loc(head: Seq<char>, msg: Seq<char>) -> LocView {
    let ps = split_all(head, ':');
    LocView { path: ps[0], line: str_to_nat(ps[1]), col: str_to_nat(ps[2]), message: msg }
}

/// The mathematical content of a parsed [`Line`].
pub enum RecView {
    Warning(LocView),
    Error(LocView),
}

/// A parsed diagnostic record, tagged as warning or error.
pub enum Line {
    Warning(Location),
    Error(Location),
}

impl View for Line {
    type V = RecView;

    open spec fn view(&self) -> RecView {
        match self {
            Line::Warning(loc) => RecView::Warning(loc@),
            Line::Error(loc) => RecView::Error(loc@),
        }
    }
}

/// What parsing the whitespace-split fields of a line yields: nothing
/// unless there are at least two fields and the second is a diagnostic
/// kind token; otherwise the record read from the first and third fields.
pub open spec fn spec_parse_parts(ps: Seq<Seq<char>>) -> Option<RecView> {
    if ps.len() < 2 {
        None
    } else {
        let msg = if ps.len() == 3 {
            ps[2]
        } else {
            Seq::<char>::empty()
        };
        if is_warning_kind(ps[1]) {
            Some(RecView::Warning(spec_loc(ps[0], msg)))
        } else if is_error_kind(ps[1]) {
            Some(RecView::Error(spec_loc(ps[0], msg)))
        } else {
            None
        }
    }
}

/// The fields are well formed when, should the kind token match a
/// diagnostic, the head field carries a valid location.
pub open spec fn parts_wf(ps: Seq<Seq<char>>) -> bool {
    if ps.len() >= 2 && (is_warning_kind(ps[1]) || is_error_kind(ps[1])) {
        head_wf(ps[0])
    } else {
        true
    }
}

/// The fields of a line: at most three, split on the first two spaces;
/// the third keeps any further spaces.
pub open spec fn fields_of(l: Seq<char>) -> Seq<Seq<char>> {
    match rest_after(l, ' ') {
        Option::None => seq![l],
        Option::Some(tail) => match rest_after(tail, ' ') {
            Option::None => seq![take_until(l, ' '), tail],
            Option::Some(msg) => seq![take_until(l, ' '), take_until(tail, ' '), msg],
        },
    }
}

/// What parsing a whole line yields.
pub open spec fn spec_parse(l: Seq<char>) -> Option<RecView> {
    spec_parse_parts(fields_of(l))
}

/// A line the parser accepts without violating its precondition: if the
/// line matches a diagnostic kind at all, its head field is well formed.
pub open spec fn line_wf(l: Seq<char>) -> bool {
    parts_wf(fields_of(l))
}

impl Location {
    /// Builds a location from the colon-split parts of a head field and a
    /// message. The numeric parts must already be valid: an invalid
    /// number in a matched diagnostic is a hard failure of the caller,
    /// never a silently zeroed field.
    pub fn from_parts(parts: Vec<&str>, message: &str) -> (r: Location)
        requires
            parts@.len() >= 3,
            is_numeral(parts@[1]@),
            str_to_nat(parts@[1]@) <= usize::MAX,
            is_numeral(parts@[2]@),
            str_to_nat(parts@[2]@) <= usize::MAX,
        ensures
            r@ == (LocView {
                path: parts@[0]@,
                line: str_to_nat(parts@[1]@),
                col: str_to_nat(parts@[2]@),
                message: message@,
            }),
    {
        let line = parse_usize(parts[1]).unwrap();
        let col = parse_usize(parts[2]).unwrap();
        Location {
            path: String::from_str(parts[0]),
            line,
            col,
            message: String::from_str(message),
        }
    }

    /// The display text of the location: `path:line:col`.
    pub open spec fn text(v: LocView) -> Seq<char> {
        v.path + seq![':'] + numeral(v.line) + seq![':'] + numeral(v.col)
    }

    /// Formats the location as `path:line:col`.
    pub fn to_text(&self) -> (r: String)
        ensures
            r@ == Location::text(self@),
    {
        let mut s = self.path.clone();
        s.append(":");
        s.append(format_usize(self.line).as_str());
        s.append(":");
        s.append(format_usize(self.col).as_str());
        proof {
            reveal_strlit(":");
            assert(":"@ =~= seq![':']);
            assert(s@ =~= Location::text(self@));
        }
        s
    }
}

/// Splitting the display text of a location back on `:` recovers the
/// path, line and column exactly, provided the path itself holds no `:`.
/// A path with a `:` in it shifts the parts and cannot round-trip.
pub proof fn lemma_location_roundtrip(v: LocView)
    requires
        forall|i: int| 0 <= i < v.path.len() ==> v.path[i] != ':',
    ensures
        split_all(Location::text(v), ':') == seq![v.path, numeral(v.line), numeral(v.col)],
        str_to_nat(numeral(v.line)) == v.line,
        str_to_nat(numeral(v.col)) == v.col,
        is_numeral(numeral(v.line)),
        is_numeral(numeral(v.col)),
{
    let t = Location::text(v);
    let nl = numeral(v.line);
    let nc = numeral(v.col);
    lemma_numeral_roundtrip(v.line);
    lemma_numeral_roundtrip(v.col);
    assert(':' as u32 == 58);
    assert(forall|i: int| 0 <= i < nl.len() ==> nl[i] != ':');
    assert(forall|i: int| 0 <= i < nc.len() ==> nc[i] != ':');

    let plen = v.path.len() as int;
    assert(forall|j: int| 0 <= j < plen ==> t[j] == v.path[j]);
    assert(t[plen] == ':');
    lemma_take_rest(t, ':', plen);
    lemma_split_all_step(t, ':');
    assert(take_until(t, ':') =~= t.take(plen));
    assert(t.take(plen) =~= v.path);
    let r1 = nl + seq![':'] + nc;
    assert(t.skip(plen + 1) =~= r1);

    let nlen = nl.len() as int;
    assert(forall|j: int| 0 <= j < nlen ==> r1[j] == nl[j]);
    assert(r1[nlen] == ':');
    lemma_take_rest(r1, ':', nlen);
    lemma_split_all_step(r1, ':');
    assert(take_until(r1, ':') =~= r1.take(nlen));
    assert(r1.take(nlen) =~= nl);
    assert(r1.skip(nlen + 1) =~= nc);

    lemma_take_rest(nc, ':', nc.len() as int);
    lemma_split_all_step(nc, ':');
    assert(nc.take(nc.len() as int) =~= nc);

    assert(split_all(t, ':') =~= seq![v.path, nl, nc]);
}

/// Parses the whitespace-split fields of one line, as
/// [`spec_parse_parts`] describes.
pub fn line_from_parts(p: Vec<&str>) -> (r: Option<Line>)
    requires
        parts_wf(p@.map_values(|f: &str| f@)),
    ensures
        match r {
            Some(ln) => spec_parse_parts(p@.map_values(|f: &str| f@)) == Some(ln@),
            None => spec_parse_parts(p@.map_values(|f: &str| f@)) is None,
        },
{
    let ghost ps = p@.map_values(|f: &str| f@);
    if p.len() < 2 {
        return None;
    }
    let warning = str_eq(p[1], "warning:");
    let error = starts_with(p[1], "error");
    if !(warning || error) {
        return None;
    }
    let msg: &str = if p.len() == 3 {
        p[2]
    } else {
        ""
    };
    proof {
        reveal_strlit("");
        if ps.len() != 3 {
            assert(msg@ =~= Seq::<char>::empty());
        }
    }
    let path_parts = split_all_exec(p[0], ':');
    proof {
        assert(path_parts@.map_values(|f: &str| f@) == split_all(ps[0], ':'));
        assert(path_parts@[1]@ == split_all(ps[0], ':')[1]);
        assert(path_parts@[2]@ == split_all(ps[0], ':')[2]);
        assert(path_parts@.len() == split_all(ps[0], ':').len());
    }
    let loc = Location::from_parts(path_parts, msg);
    proof {
        assert(loc@ == spec_loc(ps[0], msg@));
    }
    if warning {
        Some(Line::Warning(loc))
    } else {
        Some(Line::Error(loc))
    }
}

/// Parses one line of build output, already stripped of its newline.
/// Returns the diagnostic record the line carries, or `None` when the
/// line is no diagnostic. The result is a function of the line's text
/// alone: identical input always yields a record with identical content.
pub fn parse_line(line: String) -> (r: Option<Line>)
    requires
        line_wf(line@),
    ensures
        match r {
            Some(ln) => spec_parse(line@) == Some(ln@),
            None => spec_parse(line@) is None,
        },
{
    let ghost l = line@;
    let (head, rest1) = split_head(line.as_str(), ' ');
    let mut p: Vec<&str> = Vec::new();
    match rest1 {
        None => {
            p.push(line.as_str());
            proof {
                assert(p@.map_values(|f: &str| f@) =~= fields_of(l));
            }
        },
        Some(tail) => {
            let (kind, rest2) = split_head(tail, ' ');
            p.push(head);
            p.push(kind);
            match rest2 {
                None => {
                    proof {
                        lemma_split_all_step(tail@, ' ');
                        assert(kind@ == tail@);
                        assert(p@.map_values(|f: &str| f@) =~= fields_of(l));
                    }
                },
                Some(msg) => {
                    p.push(msg);
                    proof {
                        assert(p@.map_values(|f: &str| f@) =~= fields_of(l));
                    }
                },
            }
        },
    }
    line_from_parts(p)
}

/// Whether the parser accepts the line without violating its
/// precondition. A line that matches a diagnostic kind but carries a
/// malformed location is the one condition the parser leaves to its
/// caller: such a line must be treated as a hard failure, never silently
/// dropped, since dropping it would hide a real diagnostic.
pub fn check_line_wf(line: &str) -> (r: bool)
    ensures
        r == line_wf(line@),
{
    let ghost l = line@;
    let (head, rest1) = split_head(line, ' ');
    match rest1 {
        None => true,
        Some(tail) => {
            let (kind, _rest2) = split_head(tail, ' ');
            proof {
                if rest_after(tail@, ' ') is None {
                    lemma_split_all_step(tail@, ' ');
                    assert(kind@ == tail@);
                }
                assert(fields_of(l)[1] == kind@);
            }
            let warning = str_eq(kind, "warning:");
            let error = starts_with(kind, "error");
            if !(warning || error) {
                true
            } else {
                let parts = split_all_exec(head, ':');
                proof {
                    assert(fields_of(l)[0] == head@);
                    assert(parts@.map_values(|f: &str| f@) == split_all(head@, ':'));
                    assert(parts@.len() == split_all(head@, ':').len());
                }
                if parts.len() < 3 {
                    false
                } else {
                    proof {
                        assert(parts@[1]@ == split_all(head@, ':')[1]);
                        assert(parts@[2]@ == split_all(head@, ':')[2]);
                    }
                    let line_ok = parse_usize(parts[1]).is_some();
                    let col_ok = parse_usize(parts[2]).is_some();
                    line_ok && col_ok
                }
            }
        },
    }
}

/// The ordered warning locations among a cycle's records.
pub open spec fn rec_warnings(rs: Seq<RecView>) -> Seq<LocView>
    decreases rs.len(),
{
    if rs.len() == 0 {
        Seq::<LocView>::empty()
    } else {
        rec_warnings(rs.drop_last()) + (match rs.last() {
            RecView::Warning(lv) => seq![lv],
            RecView::Error(_) => Seq::<LocView>::empty(),
        })
    }
}

/// The ordered error locations among a cycle's records.
pub open spec fn rec_errors(rs: Seq<RecView>) -> Seq<LocView>
    decreases rs.len(),
{
    if rs.len() == 0 {
        Seq::<LocView>::empty()
    } else {
        rec_errors(rs.drop_last()) + (match rs.last() {
            RecView::Error(lv) => seq![lv],
            RecView::Warning(_) => Seq::<LocView>::empty(),
        })
    }
}

/// The mathematical content of a [`BuildResult`].
pub struct BrView {
    pub warnings: Seq<LocView>,
    pub errors: Seq<LocView>,
}

/// One completed build cycle: its warnings and its errors, each in the
/// order the build tool emitted them. Always fully formed before it is
/// exposed; never mutated afterwards.
pub struct BuildResult {
    pub warnings: Vec<Location>,
    pub errors: Vec<Location>,
}

impl View for BuildResult {
    type V = BrView;

    open spec fn view(&self) -> BrView {
        BrView {
            warnings: self.warnings@.map_values(|loc: Location| loc@),
            errors: self.errors@.map_values(|loc: Location| loc@),
        }
    }
}

impl BuildResult {
    /// The result of a cycle with no diagnostics at all.
    pub fn ok() -> (r: BuildResult)
        ensures
            r@.warnings.len() == 0,
            r@.errors.len() == 0,
    {
        let r = BuildResult { warnings: Vec::new(), errors: Vec::new() };
        proof {
            assert(r@.warnings =~= Seq::<LocView>::empty());
            assert(r@.errors =~= Seq::<LocView>::empty());
        }
        r
    }

    /// Whether the cycle produced no diagnostics.
    pub fn zero_messages(&self) -> (r: bool)
        ensures
            r == (self@.warnings.len() + self@.errors.len() == 0),
    {
        self.warnings.len() == 0 && self.errors.len() == 0
    }

    /// The most recent diagnostic worth showing: the last error if any
    /// error exists, else the last warning, else nothing. Errors take
    /// priority whatever the arrival order between the kinds was.
    pub fn last_line(&self) -> (r: Option<&Location>)
        ensures
            ({
                if self@.errors.len() > 0 {
                    r matches Some(loc) && loc@ == self@.errors.last()
                } else if self@.warnings.len() > 0 {
                    r matches Some(loc) && loc@ == self@.warnings.last()
                } else {
                    r is None
                }
            }),
    {
        if self.errors.len() > 0 {
            Some(&self.errors[self.errors.len() - 1])
        } else if self.warnings.len() > 0 {
            Some(&self.warnings[self.warnings.len() - 1])
        } else {
            None
        }
    }

    /// Folds one cycle's parsed records into a result, partitioning them
    /// by kind and keeping the relative order within each kind. No record
    /// is dropped or reordered against its same-kind peers.
    pub fn from_lines(records: Vec<Line>) -> (r: BuildResult)
        ensures
            r@.warnings == rec_warnings(records@.map_values(|ln: Line| ln@)),
            r@.errors == rec_errors(records@.map_values(|ln: Line| ln@)),
    {
        let ghost all = records@.map_values(|ln: Line| ln@);
        let mut records = records;
        let mut warnings: Vec<Location> = Vec::new();
        let mut errors: Vec<Location> = Vec::new();
        let ghost total = all.len();
        proof {
            assert(warnings@.map_values(|loc: Location| loc@) =~= rec_warnings(all.take(0)));
            assert(errors@.map_values(|loc: Location| loc@) =~= rec_errors(all.take(0)));
        }
        while records.len() > 0
        invariant
            records@.map_values(|ln: Line| ln@) =~= all.skip(total - records@.len()),
            records@.len() <= total,
            total == all.len(),
            warnings@.map_values(|loc: Location| loc@) == rec_warnings(
                all.take(total - records@.len()),
            ),
            errors@.map_values(|loc: Location| loc@) == rec_errors(
                all.take(total - records@.len()),
            ),
        decreases records@.len(),
        {
            let ghost done = total - records@.len();
            let ghost old_w = warnings@.map_values(|loc: Location| loc@);
            let ghost old_e = errors@.map_values(|loc: Location| loc@);
            let ghost old_recs = records@;
            let ln = records.remove(0);
            proof {
                assert(old_recs.map_values(|ln: Line| ln@)[0] == old_recs[0]@);
                assert(all.skip(done)[0] == all[done]);
                assert(ln@ == all[done]);
                assert(records@ =~= old_recs.skip(1));
                let rest = all.skip(done + 1);
                assert forall|j: int| 0 <= j < records@.len() implies #[trigger] records@[j]@
                    == rest[j] by {
                    assert(records@[j] == old_recs[j + 1]);
                    assert(old_recs.map_values(|ln: Line| ln@)[j + 1] == old_recs[j + 1]@);
                    assert(all.skip(done)[j + 1] == all[done + 1 + j]);
                    assert(rest[j] == all[done + 1 + j]);
                }
                assert(records@.map_values(|ln: Line| ln@) =~= all.skip(done + 1));
                assert(all.take(done + 1).drop_last() =~= all.take(done));
                assert(all.take(done + 1).last() == all[done]);
            }
            match ln {
                Line::Warning(loc) => {
                    let ghost lv = loc@;
                    warnings.push(loc);
                    proof {
                        assert(warnings@.map_values(|loc: Location| loc@) =~= old_w.push(lv));
                        assert(old_w.push(lv) =~= old_w + seq![lv]);
                    }
                },
                Line::Error(loc) => {
                    let ghost lv = loc@;
                    errors.push(loc);
                    proof {
                        assert(errors@.map_values(|loc: Location| loc@) =~= old_e.push(lv));
                        assert(old_e.push(lv) =~= old_e + seq![lv]);
                    }
                },
            }
        }
        proof {
            assert(all.take(total - records@.len()) =~= all);
        }
        BuildResult { warnings, errors }
    }
}

} // verus!
