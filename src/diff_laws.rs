//! What holds of every aggregation run.
use vstd::prelude::*;
use crate::diff::{
    aggregate_outcome, decodable, governing_path, lemma_scan_from, line_of, position_of,
    snapshot_view, spec_snapshot, step, AggregateError, ChangeEvent, Diff, DiffView, Direction,
    LineEventView, LineView,
};
use crate::order::{
    lemma_name_less_irreflexive, lemma_name_less_total, lemma_name_less_transitive, name_less,
};

verus! {

/// The lines, in event order, that additions to file `p` record.
pub open spec fn added_for(evs: Seq<LineEventView>, p: Seq<char>) -> Seq<LineView>
    decreases evs.len(),
{
    if evs.len() == 0 {
        seq![]
    } else {
        let prev = added_for(evs.drop_last(), p);
        let e = evs.last();
        if e.direction == Direction::Added && e.path_for_added == p {
            prev.push(line_of(e))
        } else {
            prev
        }
    }
}

/// The lines, in event order, that removals from file `p` record.
pub open spec fn removed_for(evs: Seq<LineEventView>, p: Seq<char>) -> Seq<LineView>
    decreases evs.len(),
{
    if evs.len() == 0 {
        seq![]
    } else {
        let prev = removed_for(evs.drop_last(), p);
        let e = evs.last();
        if e.direction == Direction::Removed && e.path_for_removed == p {
            prev.push(line_of(e))
        } else {
            prev
        }
    }
}

/// Some addition or removal concerns file `p`.
pub open spec fn touches(evs: Seq<LineEventView>, p: Seq<char>) -> bool {
    exists|i: int|
        0 <= i < evs.len() && evs[i].direction != Direction::Other && #[trigger] governing_path(
            evs[i],
        ) == p
}

/// The diffs' names are strictly ascending, hence unique.
pub open spec fn names_ascending(s: Seq<DiffView>) -> bool {
    forall|i: int, j: int|
        0 <= i < j < s.len() ==> #[trigger] name_less(s[i].file_name, s[j].file_name)
}

/// A snapshot holds a diff named `p`.
pub open spec fn has_file(s: Seq<DiffView>, p: Seq<char>) -> bool {
    exists|i: int| 0 <= i < s.len() && #[trigger] s[i].file_name == p
}

proof fn lemma_touches_last(evs: Seq<LineEventView>)
    requires
        evs.len() > 0,
    ensures
        forall|p: Seq<char>|
            #[trigger] touches(evs, p) <==> (touches(evs.drop_last(), p) || (
            evs.last().direction != Direction::Other && governing_path(evs.last()) == p)),
{
    let pre = evs.drop_last();
    assert forall|p: Seq<char>|
        #[trigger] touches(evs, p) <==> (touches(pre, p) || (evs.last().direction
            != Direction::Other && governing_path(evs.last()) == p)) by {
        if touches(evs, p) {
            let i = choose|i: int|
                0 <= i < evs.len() && evs[i].direction != Direction::Other
                    && #[trigger] governing_path(evs[i]) == p;
            if i < pre.len() {
                assert(pre[i] == evs[i]);
            }
        }
        if touches(pre, p) {
            let i = choose|i: int|
                0 <= i < pre.len() && pre[i].direction != Direction::Other
                    && #[trigger] governing_path(pre[i]) == p;
            assert(pre[i] == evs[i]);
        }
        if evs.last().direction != Direction::Other && governing_path(evs.last()) == p {
            assert(evs[evs.len() - 1] == evs.last());
        }
    }
}

proof fn lemma_lines_last(evs: Seq<LineEventView>, q: Seq<char>)
    requires
        evs.len() > 0,
    ensures
        added_for(evs, q) == if evs.last().direction == Direction::Added && governing_path(
            evs.last(),
        ) == q {
            added_for(evs.drop_last(), q).push(line_of(evs.last()))
        } else {
            added_for(evs.drop_last(), q)
        },
        removed_for(evs, q) == if evs.last().direction == Direction::Removed && governing_path(
            evs.last(),
        ) == q {
            removed_for(evs.drop_last(), q).push(line_of(evs.last()))
        } else {
            removed_for(evs.drop_last(), q)
        },
{
}

proof fn lemma_untouched_empty(evs: Seq<LineEventView>)
    ensures
        forall|p: Seq<char>|
            !touches(evs, p) ==> #[trigger] added_for(evs, p) == Seq::<LineView>::empty()
                && removed_for(evs, p) == Seq::<LineView>::empty(),
    decreases evs.len(),
{
    if evs.len() > 0 {
        lemma_untouched_empty(evs.drop_last());
        lemma_touches_last(evs);
        assert forall|q: Seq<char>| !touches(evs, q) implies #[trigger] added_for(evs, q)
            == Seq::<LineView>::empty() && removed_for(evs, q) == Seq::<LineView>::empty() by {
            lemma_lines_last(evs, q);
        }
    }
}

proof fn lemma_position(s: Seq<DiffView>, p: Seq<char>)
    requires
        names_ascending(s),
    ensures
        0 <= position_of(s, p) <= s.len(),
        forall|j: int| 0 <= j < position_of(s, p) ==> name_less(#[trigger] s[j].file_name, p),
        forall|j: int|
            0 <= j < s.len() && (j > position_of(s, p) || (j == position_of(s, p)
                && s[j].file_name != p)) ==> name_less(p, #[trigger] s[j].file_name),
{
    let k = position_of(s, p);
    lemma_scan_from(s, p, 0);
    if k < s.len() {
        if s[k].file_name != p {
            lemma_name_less_total(s[k].file_name, p);
        }
        assert forall|j: int|
            0 <= j < s.len() && (j > k || (j == k && s[j].file_name != p)) implies name_less(
            p,
            #[trigger] s[j].file_name,
        ) by {
            if j > k {
                assert(name_less(s[k].file_name, s[j].file_name));
                if s[k].file_name != p {
                    lemma_name_less_transitive(p, s[k].file_name, s[j].file_name);
                }
            }
        }
    }
}

/// What an aggregation run builds from events whose contents are text:
/// the diffs are ordered by name, so each file has exactly one; a file has a
/// diff exactly when some addition or removal concerns it; and each diff's
/// added (removed) lines are, one for one and in event order, the lines of
/// the additions to (removals from) that file. Other events record nothing.
pub proof fn law_snapshot_per_file(evs: Seq<LineEventView>)
    ensures
        names_ascending(spec_snapshot(evs)),
        forall|i: int|
            0 <= i < spec_snapshot(evs).len() ==> (#[trigger] spec_snapshot(evs)[i]).added
                == added_for(evs, spec_snapshot(evs)[i].file_name) && spec_snapshot(
                evs,
            )[i].removed == removed_for(evs, spec_snapshot(evs)[i].file_name),
        forall|p: Seq<char>| #[trigger] has_file(spec_snapshot(evs), p) <==> touches(evs, p),
        forall|p: Seq<char>|
            !touches(evs, p) ==> #[trigger] added_for(evs, p) == Seq::<LineView>::empty()
                && removed_for(evs, p) == Seq::<LineView>::empty(),
    decreases evs.len(),
{
    let sn = spec_snapshot(evs);
    lemma_untouched_empty(evs);
    if evs.len() == 0 {
        assert(sn.len() == 0);
    } else {
        let pre = evs.drop_last();
        let e = evs.last();
        law_snapshot_per_file(pre);
        lemma_touches_last(evs);
        let s = spec_snapshot(pre);
        assert(sn == step(s, e));
        if e.direction == Direction::Other {
            assert(sn == s);
            assert forall|i: int| 0 <= i < sn.len() implies (#[trigger] sn[i]).added == added_for(
                evs,
                sn[i].file_name,
            ) && sn[i].removed == removed_for(evs, sn[i].file_name) by {
                lemma_lines_last(evs, sn[i].file_name);
            }
        } else {
            let p = governing_path(e);
            let l = line_of(e);
            let k = position_of(s, p);
            lemma_position(s, p);
            if k < s.len() && s[k].file_name == p {
                assert forall|i: int| 0 <= i < s.len() && i != k implies #[trigger] s[i].file_name
                    != p by {
                    if i < k {
                        lemma_name_less_irreflexive(p);
                    } else {
                        lemma_name_less_irreflexive(p);
                    }
                }
                assert(sn.len() == s.len());
                assert forall|i: int| 0 <= i < sn.len() implies (#[trigger] sn[i]).added
                    == added_for(evs, sn[i].file_name) && sn[i].removed == removed_for(
                    evs,
                    sn[i].file_name,
                ) by {
                    lemma_lines_last(evs, sn[i].file_name);
                    if i != k {
                        assert(sn[i] == s[i]);
                    }
                }
                assert forall|i: int, j: int| 0 <= i < j < sn.len() implies #[trigger] name_less(
                    sn[i].file_name,
                    sn[j].file_name,
                ) by {
                    assert(name_less(s[i].file_name, s[j].file_name));
                }
                assert forall|q: Seq<char>| #[trigger] has_file(sn, q) <==> touches(evs, q) by {
                    if has_file(sn, q) {
                        let i = choose|i: int| 0 <= i < sn.len() && #[trigger] sn[i].file_name == q;
                        assert(s[i].file_name == q);
                    }
                    if has_file(s, q) {
                        let i = choose|i: int| 0 <= i < s.len() && #[trigger] s[i].file_name == q;
                        assert(sn[i].file_name == q);
                    }
                }
            } else {
                assert forall|i: int| 0 <= i < s.len() implies #[trigger] s[i].file_name != p by {
                    lemma_name_less_irreflexive(p);
                }
                assert(!has_file(s, p));
                assert(sn.len() == s.len() + 1);
                assert forall|i: int| 0 <= i < sn.len() implies (#[trigger] sn[i]).added
                    == added_for(evs, sn[i].file_name) && sn[i].removed == removed_for(
                    evs,
                    sn[i].file_name,
                ) by {
                    lemma_lines_last(evs, sn[i].file_name);
                    if i < k {
                        assert(sn[i] == s[i]);
                    } else if i > k {
                        assert(sn[i] == s[i - 1]);
                    } else {
                        assert(!touches(pre, p));
                    }
                }
                assert forall|i: int, j: int| 0 <= i < j < sn.len() implies #[trigger] name_less(
                    sn[i].file_name,
                    sn[j].file_name,
                ) by {
                    if j < k {
                        assert(name_less(s[i].file_name, s[j].file_name));
                    } else if j == k {
                    } else if i < k {
                        assert(name_less(s[i].file_name, p));
                        assert(name_less(p, s[j - 1].file_name));
                        lemma_name_less_transitive(s[i].file_name, p, s[j - 1].file_name);
                    } else if i == k {
                    } else {
                        assert(name_less(s[i - 1].file_name, s[j - 1].file_name));
                    }
                }
                assert forall|q: Seq<char>| #[trigger] has_file(sn, q) <==> touches(evs, q) by {
                    if has_file(sn, q) {
                        let i = choose|i: int| 0 <= i < sn.len() && #[trigger] sn[i].file_name == q;
                        if i < k {
                            assert(s[i].file_name == q);
                        } else if i > k {
                            assert(s[i - 1].file_name == q);
                        }
                    }
                    if has_file(s, q) {
                        let i = choose|i: int| 0 <= i < s.len() && #[trigger] s[i].file_name == q;
                        if i < k {
                            assert(sn[i].file_name == q);
                        } else {
                            assert(sn[i + 1].file_name == q);
                        }
                    }
                    if q == p {
                        assert(sn[k].file_name == q);
                    }
                }
            }
        }
    }
}

/// How many lines a snapshot holds, added and removed together.
pub open spec fn line_count(s: Seq<DiffView>) -> int
    decreases s.len(),
{
    if s.len() == 0 {
        0
    } else {
        line_count(s.drop_last()) + s.last().added.len() + s.last().removed.len()
    }
}

/// How many events are additions or removals.
pub open spec fn change_count(evs: Seq<LineEventView>) -> int
    decreases evs.len(),
{
    if evs.len() == 0 {
        0
    } else {
        change_count(evs.drop_last()) + if evs.last().direction != Direction::Other {
            1int
        } else {
            0int
        }
    }
}

proof fn lemma_line_count_update(s: Seq<DiffView>, k: int, d: DiffView)
    requires
        0 <= k < s.len(),
    ensures
        line_count(s.update(k, d)) == line_count(s) - s[k].added.len() - s[k].removed.len()
            + d.added.len() + d.removed.len(),
    decreases s.len(),
{
    if k == s.len() - 1 {
        assert(s.update(k, d).drop_last() == s.drop_last());
    } else {
        assert(s.update(k, d).drop_last() == s.drop_last().update(k, d));
        lemma_line_count_update(s.drop_last(), k, d);
    }
}

proof fn lemma_line_count_insert(s: Seq<DiffView>, k: int, d: DiffView)
    requires
        0 <= k <= s.len(),
    ensures
        line_count(s.insert(k, d)) == line_count(s) + d.added.len() + d.removed.len(),
    decreases s.len(),
{
    if k == s.len() {
        assert(s.insert(k, d).drop_last() == s);
    } else {
        assert(s.insert(k, d).drop_last() == s.drop_last().insert(k, d));
        lemma_line_count_insert(s.drop_last(), k, d);
    }
}

/// Every addition and every removal records exactly one line, and no other
/// event records any: the snapshot holds as many lines as there are
/// additions and removals.
pub proof fn law_one_line_per_change(evs: Seq<LineEventView>)
    ensures
        line_count(spec_snapshot(evs)) == change_count(evs),
    decreases evs.len(),
{
    if evs.len() > 0 {
        let pre = evs.drop_last();
        let e = evs.last();
        law_one_line_per_change(pre);
        let s = spec_snapshot(pre);
        if e.direction != Direction::Other {
            let p = governing_path(e);
            let l = line_of(e);
            let k = position_of(s, p);
            lemma_scan_from(s, p, 0);
            if k < s.len() && s[k].file_name == p {
                let d = s[k];
                if e.direction == Direction::Added {
                    lemma_line_count_update(s, k, DiffView { added: d.added.push(l), ..d });
                } else {
                    lemma_line_count_update(s, k, DiffView { removed: d.removed.push(l), ..d });
                }
            } else if e.direction == Direction::Added {
                lemma_line_count_insert(
                    s,
                    k,
                    DiffView { file_name: p, removed: seq![], added: seq![l] },
                );
            } else {
                lemma_line_count_insert(
                    s,
                    k,
                    DiffView { file_name: p, removed: seq![l], added: seq![] },
                );
            }
        }
    }
}

/// An event that is neither an addition nor a removal leaves the snapshot
/// as it was.
pub proof fn law_other_event_records_nothing(evs: Seq<LineEventView>, e: LineEventView)
    requires
        e.direction == Direction::Other,
    ensures
        spec_snapshot(evs.push(e)) == spec_snapshot(evs),
{
    assert(evs.push(e).drop_last() == evs);
}

/// Two runs of `aggregate` on the same events agree: both stop at the same
/// event, or both build the same diffs, file by file and line by line.
pub proof fn law_aggregate_reproducible(
    evs: Seq<ChangeEvent>,
    a: Result<Vec<Diff>, AggregateError>,
    b: Result<Vec<Diff>, AggregateError>,
)
    requires
        aggregate_outcome(evs, a),
        aggregate_outcome(evs, b),
    ensures
        a is Ok <==> b is Ok,
        a is Ok ==> snapshot_view(a->Ok_0@) == snapshot_view(b->Ok_0@),
        a is Err ==> a == b,
{
    match (a, b) {
        (Err(AggregateError::MalformedContent { index: i }), Err(
            AggregateError::MalformedContent { index: j },
        )) => {
            if i < j {
                assert(decodable(evs[i as int]));
            } else if j < i {
                assert(decodable(evs[j as int]));
            }
        },
        (Ok(_), Err(AggregateError::MalformedContent { index: j })) => {
            assert(decodable(evs[j as int]));
        },
        (Err(AggregateError::MalformedContent { index: i }), Ok(_)) => {
            assert(decodable(evs[i as int]));
        },
        _ => {},
    }
}

} // verus!
