//! Reassembles a stream of line-level change events into per-file diffs.
use vstd::prelude::*;
use crate::order::{name_before, name_less};

verus! {

/// One line of a diff. `line_number` is `None` when the change source gave
/// no line number for it.
#[derive(Debug, PartialEq, Eq)]
pub struct Line {
    pub line_number: Option<u32>,
    pub content: String,
}

/// What a `Line` holds, as mathematical values.
pub struct LineView {
    pub line_number: Option<u32>,
    pub content: Seq<char>,
}

impl View for Line {
    type V = LineView;

    open spec fn view(&self) -> LineView {
        LineView { line_number: self.line_number, content: self.content@ }
    }
}

impl Clone for Line {
    fn clone(&self) -> (r: Line)
        ensures
            r@ == self@,
    {
        Line { line_number: self.line_number, content: self.content.clone() }
    }
}

/// The changes of one file: its removed and its added lines, each in the
/// order in which they were observed.
#[derive(Debug, PartialEq, Eq)]
pub struct Diff {
    pub file_name: String,
    pub removed: Vec<Line>,
    pub added: Vec<Line>,
}

/// What a `Diff` holds, as mathematical values.
pub struct DiffView {
    pub file_name: Seq<char>,
    pub removed: Seq<LineView>,
    pub added: Seq<LineView>,
}

/// The views of a sequence of lines, in order.
pub open spec fn lines_view(v: Seq<Line>) -> Seq<LineView> {
    v.map_values(|l: Line| l@)
}

impl View for Diff {
    type V = DiffView;

    open spec fn view(&self) -> DiffView {
        DiffView {
            file_name: self.file_name@,
            removed: lines_view(self.removed@),
            added: lines_view(self.added@),
        }
    }
}

/// Copies a sequence of lines.
pub fn copy_lines(v: &Vec<Line>) -> (r: Vec<Line>)
    ensures
        lines_view(r@) == lines_view(v@),
{
    let mut r: Vec<Line> = Vec::new();
    let mut i: usize = 0;
    while i < v.len()
        invariant
            0 <= i <= v.len(),
            r.len() == i,
            forall|j: int| 0 <= j < i ==> #[trigger] r@[j]@ == v@[j]@,
        decreases v.len() - i,
    {
        let l = Line { line_number: v[i].line_number, content: v[i].content.clone() };
        r.push(l);
        i = i + 1;
    }
    assert(lines_view(r@) =~= lines_view(v@));
    r
}

impl Clone for Diff {
    fn clone(&self) -> (r: Diff)
        ensures
            r@ == self@,
    {
        Diff {
            file_name: self.file_name.clone(),
            removed: copy_lines(&self.removed),
            added: copy_lines(&self.added),
        }
    }
}

/// What the views of a snapshot's diffs are, in order.
pub open spec fn snapshot_view(s: Seq<Diff>) -> Seq<DiffView> {
    s.map_values(|d: Diff| d@)
}

/// The kind of one change event.
#[derive(Debug, Clone, Copy, PartialEq, Eq, Structural)]
pub enum Direction {
    Added,
    Removed,
    Other,
}

/// A change event whose content is text, trimmed of surrounding whitespace.
pub struct LineEvent {
    pub direction: Direction,
    pub path_for_added: String,
    pub path_for_removed: String,
    pub old_line_number: Option<u32>,
    pub new_line_number: Option<u32>,
    pub content: String,
}

/// What a `LineEvent` holds, as mathematical values.
pub struct LineEventView {
    pub direction: Direction,
    pub path_for_added: Seq<char>,
    pub path_for_removed: Seq<char>,
    pub old_line_number: Option<u32>,
    pub new_line_number: Option<u32>,
    pub content: Seq<char>,
}

impl View for LineEvent {
    type V = LineEventView;

    open spec fn view(&self) -> LineEventView {
        LineEventView {
            direction: self.direction,
            path_for_added: self.path_for_added@,
            path_for_removed: self.path_for_removed@,
            old_line_number: self.old_line_number,
            new_line_number: self.new_line_number,
            content: self.content@,
        }
    }
}

/// The views of a sequence of events, in order.
pub open spec fn line_events_view(v: Seq<LineEvent>) -> Seq<LineEventView> {
    v.map_values(|e: LineEvent| e@)
}

/// The file that an event belongs to: the new path of an addition, the old
/// path of a removal.
pub open spec fn governing_path(e: LineEventView) -> Seq<char> {
    if e.direction == Direction::Added {
        e.path_for_added
    } else {
        e.path_for_removed
    }
}

/// The line that an addition or removal records.
pub open spec fn line_of(e: LineEventView) -> LineView {
    LineView {
        line_number: if e.direction == Direction::Added {
            e.new_line_number
        } else {
            e.old_line_number
        },
        content: e.content,
    }
}

/// Counts the leading diffs, from `i` on, whose names come before `p`.
pub open spec fn scan_from(s: Seq<DiffView>, p: Seq<char>, i: int) -> int
    decreases s.len() - i,
{
    if 0 <= i < s.len() && name_less(s[i].file_name, p) {
        scan_from(s, p, i + 1)
    } else {
        i
    }
}

/// Where a diff named `p` stands, or would be inserted, in a snapshot
/// ordered by name.
pub open spec fn position_of(s: Seq<DiffView>, p: Seq<char>) -> int {
    scan_from(s, p, 0)
}

/// The snapshot after one more event: an addition or removal is appended
/// to its file's diff, which is created in name order where it is missing;
/// any other event changes nothing.
pub open spec fn step(s: Seq<DiffView>, e: LineEventView) -> Seq<DiffView> {
    if e.direction == Direction::Other {
        s
    } else {
        let p = governing_path(e);
        let k = position_of(s, p);
        let l = line_of(e);
        if k < s.len() && s[k].file_name == p {
            let d = s[k];
            if e.direction == Direction::Added {
                s.update(k, DiffView { added: d.added.push(l), ..d })
            } else {
                s.update(k, DiffView { removed: d.removed.push(l), ..d })
            }
        } else if e.direction == Direction::Added {
            s.insert(k, DiffView { file_name: p, removed: seq![], added: seq![l] })
        } else {
            s.insert(k, DiffView { file_name: p, removed: seq![l], added: seq![] })
        }
    }
}

/// The snapshot that a sequence of events builds from nothing.
pub open spec fn spec_snapshot(evs: Seq<LineEventView>) -> Seq<DiffView>
    decreases evs.len(),
{
    if evs.len() == 0 {
        seq![]
    } else {
        step(spec_snapshot(evs.drop_last()), evs.last())
    }
}

/// `scan_from` stops at the first name, from `i` on, that does not come
/// before `p`.
pub proof fn lemma_scan_from(s: Seq<DiffView>, p: Seq<char>, i: int)
    requires
        0 <= i <= s.len(),
    ensures
        i <= scan_from(s, p, i) <= s.len(),
        forall|j: int| i <= j < scan_from(s, p, i) ==> name_less(#[trigger] s[j].file_name, p),
        scan_from(s, p, i) < s.len() ==> !name_less(s[scan_from(s, p, i)].file_name, p),
    decreases s.len() - i,
{
    if i < s.len() && name_less(s[i].file_name, p) {
        lemma_scan_from(s, p, i + 1);
    }
}

/// Finds the position of a name in a snapshot (see `position_of`).
fn find_position(s: &Vec<Diff>, p: &String) -> (k: usize)
    ensures
        k == position_of(snapshot_view(s@), p@),
        k <= s.len(),
{
    let ghost sv = snapshot_view(s@);
    let mut i: usize = 0;
    while i < s.len() && name_before(&s[i].file_name, p)
        invariant
            sv == snapshot_view(s@),
            0 <= i <= s.len(),
            scan_from(sv, p@, i as int) == position_of(sv, p@),
        decreases s.len() - i,
    {
        i = i + 1;
    }
    i
}

/// Applies one event to a snapshot.
fn apply_event(s: &mut Vec<Diff>, e: &LineEvent)
    ensures
        snapshot_view(final(s)@) == step(snapshot_view(old(s)@), e@),
{
    if e.direction == Direction::Other {
        return;
    }
    let ghost sv = snapshot_view(s@);
    let p = if e.direction == Direction::Added {
        &e.path_for_added
    } else {
        &e.path_for_removed
    };
    let l = Line {
        line_number: if e.direction == Direction::Added {
            e.new_line_number
        } else {
            e.old_line_number
        },
        content: e.content.clone(),
    };
    let k = find_position(s, p);
    if k < s.len() && s[k].file_name == *p {
        let mut d = s.remove(k);
        if e.direction == Direction::Added {
            d.added.push(l);
        } else {
            d.removed.push(l);
        }
        s.insert(k, d);
        proof {
            let nd = if e.direction == Direction::Added {
                DiffView { added: sv[k as int].added.push(l@), ..sv[k as int] }
            } else {
                DiffView { removed: sv[k as int].removed.push(l@), ..sv[k as int] }
            };
            assert(lines_view(d.added@) =~= nd.added);
            assert(lines_view(d.removed@) =~= nd.removed);
            assert(snapshot_view(s@) =~= sv.update(k as int, nd));
            assert(snapshot_view(s@) == step(sv, e@));
        }
    } else {
        let mut removed: Vec<Line> = Vec::new();
        let mut added: Vec<Line> = Vec::new();
        if e.direction == Direction::Added {
            added.push(l);
        } else {
            removed.push(l);
        }
        let d = Diff { file_name: p.clone(), removed, added };
        s.insert(k, d);
        proof {
            if e.direction == Direction::Added {
                assert(d@.added =~= seq![l@]);
                assert(d@.removed =~= Seq::<LineView>::empty());
            } else {
                assert(d@.removed =~= seq![l@]);
                assert(d@.added =~= Seq::<LineView>::empty());
            }
            assert(snapshot_view(s@) =~= sv.insert(k as int, d@));
            assert(snapshot_view(s@) == step(sv, e@));
        }
    }
}

/// Builds the per-file diffs of a sequence of events whose contents are
/// already text. The diffs come in ascending order of name, each holding
/// its additions and removals in the order of the events.
pub fn aggregate_lines(events: &Vec<LineEvent>) -> (r: Vec<Diff>)
    ensures
        snapshot_view(r@) == spec_snapshot(line_events_view(events@)),
{
    let mut s: Vec<Diff> = Vec::new();
    let mut i: usize = 0;
    let ghost evs = line_events_view(events@);
    while i < events.len()
        invariant
            evs == line_events_view(events@),
            0 <= i <= events.len(),
            snapshot_view(s@) == spec_snapshot(evs.subrange(0, i as int)),
        decreases events.len() - i,
    {
        apply_event(&mut s, &events[i]);
        proof {
            let pre = evs.subrange(0, i as int + 1);
            assert(pre.drop_last() == evs.subrange(0, i as int));
        }
        i = i + 1;
    }
    assert(evs.subrange(0, events.len() as int) == evs);
    s
}

/// The text that a byte sequence encodes as UTF-8, or `None` where it is
/// not UTF-8.
pub uninterp spec fn utf8_text(b: Seq<u8>) -> Option<Seq<char>>;

/// A text without its leading and trailing whitespace.
pub uninterp spec fn trimmed(s: Seq<char>) -> Seq<char>;

/// Relies on `String::from_utf8`: it succeeds exactly on UTF-8 input and
/// then holds the text encoded.
#[verifier::external_body]
fn text_from_utf8(b: Vec<u8>) -> (r: Option<String>)
    ensures
        r is Some <==> utf8_text(b@) is Some,
        r is Some ==> r->0@ == utf8_text(b@)->0,
{
    String::from_utf8(b).ok()
}

/// Relies on `str::trim`: the text with leading and trailing whitespace
/// removed.
#[verifier::external_body]
fn trim_text(s: &String) -> (r: String)
    ensures
        r@ == trimmed(s@),
{
    s.trim().to_string()
}

/// One line-level change as the change source reports it, content as raw
/// bytes.
pub struct ChangeEvent {
    pub direction: Direction,
    pub path_for_added: String,
    pub path_for_removed: String,
    pub old_line_number: Option<u32>,
    pub new_line_number: Option<u32>,
    pub raw_content: Vec<u8>,
}

/// Whether an event's content is text.
pub open spec fn decodable(e: ChangeEvent) -> bool {
    utf8_text(e.raw_content@) is Some
}

/// The event with its content decoded and trimmed.
pub open spec fn decoded_view(e: ChangeEvent) -> LineEventView {
    LineEventView {
        direction: e.direction,
        path_for_added: e.path_for_added@,
        path_for_removed: e.path_for_removed@,
        old_line_number: e.old_line_number,
        new_line_number: e.new_line_number,
        content: trimmed(utf8_text(e.raw_content@)->0),
    }
}

/// The events with their contents decoded and trimmed, in order.
pub open spec fn decoded_events(evs: Seq<ChangeEvent>) -> Seq<LineEventView> {
    evs.map_values(|e: ChangeEvent| decoded_view(e))
}

/// Decodes an event's content as UTF-8 and trims it; `None` where the
/// content is not text.
pub fn decode_event(e: &ChangeEvent) -> (r: Option<LineEvent>)
    ensures
        r is Some <==> decodable(*e),
        r is Some ==> r->0@ == decoded_view(*e),
{
    match text_from_utf8(e.raw_content.clone()) {
        None => None,
        Some(text) => Some(
            LineEvent {
                direction: e.direction,
                path_for_added: e.path_for_added.clone(),
                path_for_removed: e.path_for_removed.clone(),
                old_line_number: e.old_line_number,
                new_line_number: e.new_line_number,
                content: trim_text(&text),
            },
        ),
    }
}

/// Why an aggregation run stopped.
#[derive(Debug, Clone, Copy, PartialEq, Eq, Structural)]
pub enum AggregateError {
    /// The content of the event at `index` is not text.
    MalformedContent { index: usize },
}

/// What `aggregate` returns for a sequence of events: the first event whose
/// content is not text stops the run; otherwise the per-file diffs of the
/// decoded events.
pub open spec fn aggregate_outcome(evs: Seq<ChangeEvent>, r: Result<Vec<Diff>, AggregateError>) -> bool {
    match r {
        Ok(s) => (forall|i: int| 0 <= i < evs.len() ==> decodable(#[trigger] evs[i]))
            && snapshot_view(s@) == spec_snapshot(decoded_events(evs)),
        Err(AggregateError::MalformedContent { index }) => index < evs.len()
            && !decodable(evs[index as int])
            && forall|j: int| 0 <= j < index ==> decodable(#[trigger] evs[j]),
    }
}

/// Builds the per-file diffs of a stream of change events, or reports the
/// first event whose content is not text.
pub fn aggregate(events: &Vec<ChangeEvent>) -> (r: Result<Vec<Diff>, AggregateError>)
    ensures
        aggregate_outcome(events@, r),
{
    let mut decoded: Vec<LineEvent> = Vec::new();
    let mut i: usize = 0;
    while i < events.len()
        invariant
            0 <= i <= events.len(),
            decoded.len() == i,
            forall|j: int| 0 <= j < i ==> decodable(#[trigger] events@[j]),
            forall|j: int| 0 <= j < i ==> #[trigger] decoded@[j]@ == decoded_view(events@[j]),
        decreases events.len() - i,
    {
        match decode_event(&events[i]) {
            None => {
                return Err(AggregateError::MalformedContent { index: i });
            },
            Some(le) => {
                decoded.push(le);
            },
        }
        i = i + 1;
    }
    assert(line_events_view(decoded@) =~= decoded_events(events@));
    Ok(aggregate_lines(&decoded))
}

} // verus!
