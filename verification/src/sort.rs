//! Sorting occurrences by start time: a stable insertion sort, specified by
//! a recursive stable-sort function over event models. Each element is
//! inserted after every element whose start does not exceed its own, so
//! occurrences with equal starts keep their relative order.

use vstd::prelude::*;

use crate::model::{CalendarEvent, EventModel};

verus! {

/// Sorted non-decreasing by `start`.
pub open spec fn sorted_by_start(s: Seq<EventModel>) -> bool {
    forall|i: int, j: int| 0 <= i < j < s.len() ==> s[i].start <= s[j].start
}

/// `e` placed after every element whose start does not exceed `e.start`.
pub open spec fn insert_sorted(e: EventModel, s: Seq<EventModel>) -> Seq<EventModel>
    decreases s.len(),
{
    if s.len() == 0 {
        seq![e]
    } else if s[0].start <= e.start {
        seq![s[0]] + insert_sorted(e, s.drop_first())
    } else {
        seq![e] + s
    }
}

/// The position `insert_sorted` gives `e`: the first index whose element
/// starts after `e.start`, or the length when there is none.
pub open spec fn insert_pos(e: EventModel, s: Seq<EventModel>) -> int
    decreases s.len(),
{
    if s.len() == 0 {
        0
    } else if s[0].start <= e.start {
        1 + insert_pos(e, s.drop_first())
    } else {
        0
    }
}

/// The stable sort of `s` by `start`: elements are taken in feed order and
/// each is inserted after its equals.
pub open spec fn sort_by_start(s: Seq<EventModel>) -> Seq<EventModel>
    decreases s.len(),
{
    if s.len() == 0 {
        Seq::empty()
    } else {
        insert_sorted(s.last(), sort_by_start(s.drop_last()))
    }
}

/// The elements whose start is `t`.
pub open spec fn has_start(t: int) -> spec_fn(EventModel) -> bool {
    |x: EventModel| x.start == t
}

proof fn lemma_insert_sorted_shape(e: EventModel, s: Seq<EventModel>)
    ensures
        0 <= insert_pos(e, s) <= s.len(),
        forall|k: int| 0 <= k < insert_pos(e, s) ==> s[k].start <= e.start,
        insert_pos(e, s) < s.len() ==> s[insert_pos(e, s)].start > e.start,
        insert_sorted(e, s) == s.insert(insert_pos(e, s), e),
    decreases s.len(),
{
    if s.len() == 0 {
        assert(insert_sorted(e, s) =~= s.insert(0, e));
    } else if s[0].start <= e.start {
        let d = s.drop_first();
        lemma_insert_sorted_shape(e, d);
        let pd = insert_pos(e, d);
        s.insert_ensures(1 + pd, e);
        d.insert_ensures(pd, e);
        assert forall|k: int| 0 <= k < insert_pos(e, s) implies s[k].start <= e.start by {
            if k >= 1 {
                assert(d[k - 1] == s[k]);
            }
        }
        assert(insert_sorted(e, s) =~= s.insert(1 + pd, e));
    } else {
        assert(insert_sorted(e, s) =~= s.insert(0, e));
    }
}

proof fn lemma_insert_pos_at(e: EventModel, s: Seq<EventModel>, p: int)
    requires
        0 <= p <= s.len(),
        forall|k: int| 0 <= k < p ==> s[k].start <= e.start,
        p < s.len() ==> s[p].start > e.start,
    ensures
        insert_pos(e, s) == p,
    decreases s.len(),
{
    if s.len() == 0 {
    } else if s[0].start <= e.start {
        assert(p >= 1);
        let d = s.drop_first();
        assert forall|k: int| 0 <= k < p - 1 implies d[k].start <= e.start by {
            assert(d[k] == s[k + 1]);
        }
        assert(p - 1 < d.len() ==> d[p - 1] == s[p]);
        lemma_insert_pos_at(e, d, p - 1);
    } else {
        assert(p == 0);
    }
}

proof fn lemma_insert_sorted_sorted(e: EventModel, s: Seq<EventModel>)
    requires
        sorted_by_start(s),
    ensures
        sorted_by_start(insert_sorted(e, s)),
{
    lemma_insert_sorted_shape(e, s);
    let p = insert_pos(e, s);
    s.insert_ensures(p, e);
    let ins = insert_sorted(e, s);
    assert forall|i: int, j: int| 0 <= i < j < ins.len() implies ins[i].start <= ins[j].start by {
        if i < p && j < p {
        } else if i == p && j > p {
            assert(ins[j] == s[j - 1]);
            assert(s[p].start > e.start);
            if j - 1 > p {
                assert(s[p].start <= s[j - 1].start);
            }
        } else if i < p && j == p {
        } else if i < p && j > p {
            assert(ins[j] == s[j - 1]);
            if i < j - 1 {
                assert(s[i].start <= s[j - 1].start);
            }
        } else if i > p {
            assert(ins[i] == s[i - 1]);
            assert(ins[j] == s[j - 1]);
        }
    }
}

pub proof fn lemma_sort_by_start_sorted(s: Seq<EventModel>)
    ensures
        sorted_by_start(sort_by_start(s)),
    decreases s.len(),
{
    if s.len() > 0 {
        lemma_sort_by_start_sorted(s.drop_last());
        lemma_insert_sorted_sorted(s.last(), sort_by_start(s.drop_last()));
    }
}

/// Sorting neither loses, adds nor changes occurrences: the sorted sequence
/// holds the same multiset of events.
pub proof fn lemma_sort_by_start_multiset(s: Seq<EventModel>)
    ensures
        sort_by_start(s).to_multiset() == s.to_multiset(),
    decreases s.len(),
{
    if s.len() > 0 {
        let d = s.drop_last();
        let last = s.last();
        let sd = sort_by_start(d);
        lemma_sort_by_start_multiset(d);
        lemma_insert_sorted_shape(last, sd);
        let p = insert_pos(last, sd);
        vstd::seq_lib::to_multiset_insert(sd, p, last);
        vstd::seq_lib::to_multiset_build(d, last);
        assert(s =~= d.push(last));
        assert(sort_by_start(s) == sd.insert(p, last));
        assert(sd.insert(p, last).to_multiset() == sd.to_multiset().insert(last));
        assert(d.push(last).to_multiset() == d.to_multiset().insert(last));
    } else {
        assert(s =~= Seq::<EventModel>::empty());
    }
}

proof fn lemma_filter_none(s: Seq<EventModel>, pred: spec_fn(EventModel) -> bool)
    requires
        forall|k: int| 0 <= k < s.len() ==> !pred(s[k]),
    ensures
        s.filter(pred) == Seq::<EventModel>::empty(),
    decreases s.len(),
{
    reveal(Seq::filter);
    if s.len() > 0 {
        assert forall|k: int| 0 <= k < s.drop_last().len() implies !pred(s.drop_last()[k]) by {
            assert(s.drop_last()[k] == s[k]);
        }
        lemma_filter_none(s.drop_last(), pred);
    }
}

proof fn lemma_insert_sorted_filter(e: EventModel, s: Seq<EventModel>, t: int)
    requires
        sorted_by_start(s),
    ensures
        insert_sorted(e, s).filter(has_start(t)) == if e.start == t {
            s.filter(has_start(t)).push(e)
        } else {
            s.filter(has_start(t))
        },
{
    reveal(Seq::filter);
    let pred = has_start(t);
    lemma_insert_sorted_shape(e, s);
    let p = insert_pos(e, s);
    let s0 = s.subrange(0, p);
    let s1 = s.subrange(p, s.len() as int);
    let a = s0.push(e);
    assert(insert_sorted(e, s) == a + s1);
    assert(a.drop_last() =~= s0);
    assert(a.filter(pred) == if pred(e) {
        s0.filter(pred).push(e)
    } else {
        s0.filter(pred)
    });
    Seq::filter_distributes_over_add(a, s1, pred);
    assert(s =~= s0 + s1);
    Seq::filter_distributes_over_add(s0, s1, pred);
    if e.start == t {
        assert forall|k: int| 0 <= k < s1.len() implies !pred(s1[k]) by {
            assert(s1[k] == s[p + k]);
            if k > 0 {
                assert(s[p].start <= s[p + k].start);
            }
        }
        lemma_filter_none(s1, pred);
        assert(s0.filter(pred).push(e) + Seq::<EventModel>::empty() =~= (s0.filter(pred)
            + Seq::<EventModel>::empty()).push(e));
    }
}

/// Stability of the sort: for any start time, the subsequence of occurrences
/// that start then is exactly the one the unsorted sequence had, in order.
pub proof fn lemma_sort_by_start_stable(s: Seq<EventModel>, t: int)
    ensures
        sort_by_start(s).filter(has_start(t)) == s.filter(has_start(t)),
    decreases s.len(),
{
    reveal(Seq::filter);
    if s.len() > 0 {
        let d = s.drop_last();
        lemma_sort_by_start_stable(d, t);
        lemma_sort_by_start_sorted(d);
        lemma_insert_sorted_filter(s.last(), sort_by_start(d), t);
    }
}

/// Reorders the events ascending by start, stably.
#[verifier::loop_isolation(false)]
pub fn sorted_events(events: Vec<CalendarEvent>) -> (r: Vec<CalendarEvent>)
    ensures
        r.deep_view() == sort_by_start(events.deep_view()),
{
    let ghost orig = events.deep_view();
    let mut rest = events;
    let mut out: Vec<CalendarEvent> = Vec::new();
    let ghost mut taken: int = 0;
    proof {
        assert(orig.take(0) =~= Seq::<EventModel>::empty());
        assert(rest.deep_view() =~= orig.skip(0));
    }
    loop
        invariant
            0 <= taken <= orig.len(),
            rest.deep_view() =~= orig.skip(taken),
            out.deep_view() == sort_by_start(orig.take(taken)),
        decreases orig.len() - taken,
    {
        if rest.len() == 0 {
            proof {
                assert(rest.deep_view().len() == 0);
                assert(orig.skip(taken).len() == orig.len() - taken);
                assert(taken == orig.len());
                assert(orig.take(orig.len() as int) =~= orig);
            }
            return out;
        }
        let ghost out_before = out.deep_view();
        let ghost rest_pre = rest@;
        let ghost rest_pre_dv = rest.deep_view();
        proof {
            assert(orig.skip(taken).len() == orig.len() - taken);
            assert(taken < orig.len());
        }
        let e = rest.remove(0);
        proof {
            rest_pre.remove_ensures(0);
            assert(e.deep_view() == rest_pre_dv[0]);
            assert(rest_pre_dv[0] == orig.skip(taken)[0]);
            assert(orig.skip(taken)[0] == orig[taken]);
            assert forall|k: int| 0 <= k < rest.deep_view().len() implies rest.deep_view()[k]
                == orig.skip(taken + 1)[k] by {
                assert(rest@[k] == rest_pre[k + 1]);
                assert(rest.deep_view()[k] == rest_pre[k + 1].deep_view());
                assert(rest_pre_dv[k + 1] == orig.skip(taken)[k + 1]);
                assert(orig.skip(taken)[k + 1] == orig[taken + 1 + k]);
                assert(orig.skip(taken + 1)[k] == orig[taken + 1 + k]);
            }
            assert(rest.deep_view() =~= orig.skip(taken + 1));
        }
        let ghost ed = e.deep_view();
        let mut p: usize = 0;
        while p < out.len() && out[p].start <= e.start
            invariant
                p <= out.len(),
                forall|k: int| 0 <= k < p ==> out_before[k].start <= ed.start,
            decreases out.len() - p,
        {
            proof {
                assert(out_before[p as int] == out@[p as int].deep_view());
            }
            p = p + 1;
        }
        proof {
            if p < out.len() {
                assert(out_before[p as int] == out@[p as int].deep_view());
            }
            lemma_insert_pos_at(ed, out_before, p as int);
            lemma_insert_sorted_shape(ed, out_before);
        }
        let ghost out_pre = out@;
        out.insert(p, e);
        proof {
            out_pre.insert_ensures(p as int, e);
            out_before.insert_ensures(p as int, e.deep_view());
            assert forall|k: int| 0 <= k < out.deep_view().len() implies out.deep_view()[k]
                == out_before.insert(p as int, e.deep_view())[k] by {
                if k < p {
                    assert(out@[k] == out_pre[k]);
                    assert(out_before.insert(p as int, e.deep_view())[k] == out_before[k]);
                    assert(out_before[k] == out_pre[k].deep_view());
                } else if k == p {
                    assert(out@[k] == e);
                } else {
                    assert(out@[k] == out_pre[k - 1]);
                    assert(out_before.insert(p as int, e.deep_view())[k] == out_before[k - 1]);
                    assert(out_before[k - 1] == out_pre[k - 1].deep_view());
                }
            }
            assert(out.deep_view() =~= out_before.insert(p as int, e.deep_view()));
            assert(orig.take(taken + 1).drop_last() =~= orig.take(taken));
            assert(orig.take(taken + 1).last() == orig[taken]);
            taken = taken + 1;
        }
    }
}

} // verus!
