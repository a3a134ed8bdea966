//! The calendar assembler: drives the tokenizer, builds one base event per
//! object, expands recurrence rules, and returns all occurrences sorted
//! stably by start time. A tokenizer-level failure is the one fatal error;
//! events that fail to resolve are silently left out.

use vstd::prelude::*;

use crate::builder::{build_event, built_event};
use crate::expand::{expand, expansion_of};
use crate::model::{CalendarData, CalendarEvent, Error, EventModel, PropertyModel};
use crate::sort::{lemma_sort_by_start_sorted, sort_by_start, sorted_by_start, sorted_events};
use crate::tokenize::{feed_objects, tokenize_feed};

verus! {

/// The occurrences one object contributes: its base event followed by the
/// expansion of its rule, or nothing when no event was built.
pub open spec fn object_occurrences(props: Seq<PropertyModel>) -> Seq<EventModel> {
    match built_event(props) {
        Some(b) => seq![b.0] + expansion_of(b.0, b.1),
        None => Seq::empty(),
    }
}

/// The occurrences of all objects, in feed order.
pub open spec fn collected_occurrences(objects: Seq<Seq<PropertyModel>>) -> Seq<EventModel>
    decreases objects.len(),
{
    if objects.len() == 0 {
        Seq::empty()
    } else {
        collected_occurrences(objects.drop_last()) + object_occurrences(objects.last())
    }
}

/// The parse a feed text denotes: `None` exactly when the tokenizer fails,
/// else every object's occurrences, sorted stably by start.
pub open spec fn parse_result(s: Seq<char>) -> Option<Seq<EventModel>> {
    match feed_objects(s) {
        Some(objects) => Some(sort_by_start(collected_occurrences(objects))),
        None => None,
    }
}

/// Parses a feed into its sorted occurrence list.
#[verifier::loop_isolation(false)]
pub fn parse_calendar(response: &str) -> (r: Result<CalendarData, Error>)
    ensures
        match r {
            Ok(data) => parse_result(response@) == Some(data@) && sorted_by_start(data@),
            Err(e) => parse_result(response@) is None && e == Error::StructuralParse,
        },
{
    let objects = match tokenize_feed(response) {
        Some(o) => o,
        None => {
            return Err(Error::StructuralParse);
        },
    };
    let ghost objs = objects.deep_view();
    let mut all: Vec<CalendarEvent> = Vec::new();
    let mut i: usize = 0;
    proof {
        assert(objs.take(0).len() == 0);
        assert(all.deep_view() =~= collected_occurrences(objs.take(0)));
    }
    while i < objects.len()
        invariant
            i <= objects.len(),
            all.deep_view() == collected_occurrences(objs.take(i as int)),
        decreases objects.len() - i,
    {
        proof {
            assert(objs.take(i + 1).drop_last() =~= objs.take(i as int));
            assert(objs.take(i + 1).last() == objs[i as int]);
            assert(objs[i as int] == objects@[i as int].deep_view());
        }
        match build_event(&objects[i]) {
            Some(pair) => {
                let (event, rule) = pair;
                let mut extra = expand(&event, &rule);
                let ghost before = all.deep_view();
                let ghost extra_dv = extra.deep_view();
                let ghost extra_pre = extra@;
                proof {
                    assert(object_occurrences(objs[i as int]) == seq![event@] + extra_dv);
                }
                all.push(event);
                let ghost mid = all@;
                let ghost mid_dv = all.deep_view();
                proof {
                    assert(mid_dv =~= before.push(event@));
                }
                all.append(&mut extra);
                proof {
                    assert forall|k: int| 0 <= k < all.deep_view().len() implies all.deep_view()[k]
                        == (mid_dv + extra_dv)[k] by {
                        if k < mid.len() {
                            assert(all@[k] == mid[k]);
                        } else {
                            assert(all@[k] == extra_pre[k - mid.len()]);
                            assert(extra_dv[k - mid.len()] == extra_pre[k - mid.len()].deep_view());
                        }
                    }
                    assert(all.deep_view() =~= mid_dv + extra_dv);
                    assert(before.push(event@) + extra_dv =~= before + (seq![event@] + extra_dv));
                }
            },
            None => {
                proof {
                    assert(object_occurrences(objs[i as int]) =~= Seq::<EventModel>::empty());
                    assert(all.deep_view() + Seq::<EventModel>::empty() =~= all.deep_view());
                }
            },
        }
        i = i + 1;
    }
    proof {
        assert(objs.take(objects.len() as int) =~= objs);
        lemma_sort_by_start_sorted(collected_occurrences(objs));
    }
    let sorted = sorted_events(all);
    Ok(CalendarData { events: sorted })
}

} // verus!
