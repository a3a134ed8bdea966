//! The library's general guarantees, stated and proved over the models its
//! contracts use. The sorting guarantees (order, stability, and that
//! sorting keeps the multiset of occurrences) stand beside the sort itself.

use vstd::prelude::*;

use crate::builder::{built_event, fold_properties, resolved_instant};
use crate::expand::expansion_of;
use crate::model::{EventModel, PropertyModel};
use crate::parser::parse_result;
use crate::rrule::rule_value;
use crate::sort::{lemma_sort_by_start_sorted, sorted_by_start};

verus! {

/// Whatever feed parses successfully parses to an occurrence list sorted
/// non-decreasing by start.
pub proof fn lemma_parse_sorted(feed: Seq<char>, events: Seq<EventModel>)
    ensures
        parse_result(feed) == Some(events) ==> sorted_by_start(events),
{
    if parse_result(feed) == Some(events) {
        let objs = crate::tokenize::feed_objects(feed)->Some_0;
        lemma_sort_by_start_sorted(crate::parser::collected_occurrences(objs));
    }
}

proof fn lemma_fold_no_summary(props: Seq<PropertyModel>)
    requires
        forall|i: int| 0 <= i < props.len() ==> (#[trigger] props[i]).name != "SUMMARY"@,
    ensures
        fold_properties(props).name is None,
    decreases props.len(),
{
    if props.len() > 0 {
        assert forall|k: int| 0 <= k < props.drop_last().len() implies (#[trigger] props.drop_last()[k]).name
            != "SUMMARY"@ by {
            assert(props.drop_last()[k] == props[k]);
        }
        lemma_fold_no_summary(props.drop_last());
        assert(props.last() == props[props.len() - 1]);
    }
}

proof fn lemma_fold_start_unresolved(props: Seq<PropertyModel>)
    requires
        forall|i: int|
            0 <= i < props.len() && (#[trigger] props[i]).name == "DTSTART"@
                ==> resolved_instant(props[i]) is None,
    ensures
        fold_properties(props).start is None,
    decreases props.len(),
{
    if props.len() > 0 {
        assert forall|k: int|
            0 <= k < props.drop_last().len() && (#[trigger] props.drop_last()[k]).name
                == "DTSTART"@ implies resolved_instant(props.drop_last()[k]) is None by {
            assert(props.drop_last()[k] == props[k]);
        }
        lemma_fold_start_unresolved(props.drop_last());
        assert(props.last() == props[props.len() - 1]);
    }
}

proof fn lemma_fold_end_unresolved(props: Seq<PropertyModel>)
    requires
        forall|i: int|
            0 <= i < props.len() && (#[trigger] props[i]).name == "DTEND"@
                ==> resolved_instant(props[i]) is None,
    ensures
        fold_properties(props).end is None,
    decreases props.len(),
{
    if props.len() > 0 {
        assert forall|k: int|
            0 <= k < props.drop_last().len() && (#[trigger] props.drop_last()[k]).name == "DTEND"@
                implies resolved_instant(props.drop_last()[k]) is None by {
            assert(props.drop_last()[k] == props[k]);
        }
        lemma_fold_end_unresolved(props.drop_last());
        assert(props.last() == props[props.len() - 1]);
    }
}

/// An object with no `SUMMARY` property builds no event: it is absent from
/// the result, never partially included.
pub proof fn lemma_missing_summary_drops(props: Seq<PropertyModel>)
    requires
        forall|i: int| 0 <= i < props.len() ==> (#[trigger] props[i]).name != "SUMMARY"@,
    ensures
        built_event(props) is None,
{
    lemma_fold_no_summary(props);
}

/// An object none of whose `DTSTART` properties resolves — the property is
/// absent, its text fails the date-time grammar, its `TZID` does not name a
/// known zone, or the local time is ambiguous or skipped — builds no event.
pub proof fn lemma_unresolved_start_drops(props: Seq<PropertyModel>)
    requires
        forall|i: int|
            0 <= i < props.len() && (#[trigger] props[i]).name == "DTSTART"@
                ==> resolved_instant(props[i]) is None,
    ensures
        built_event(props) is None,
{
    lemma_fold_start_unresolved(props);
}

/// The same for `DTEND`: without a resolved end the object builds no event.
pub proof fn lemma_unresolved_end_drops(props: Seq<PropertyModel>)
    requires
        forall|i: int|
            0 <= i < props.len() && (#[trigger] props[i]).name == "DTEND"@
                ==> resolved_instant(props[i]) is None,
    ensures
        built_event(props) is None,
{
    lemma_fold_end_unresolved(props);
}

/// A rule without `UNTIL` — for one, a rule carrying only `FREQ` — expands
/// to no occurrences: the base event stands alone.
pub proof fn lemma_rule_without_until(base: EventModel, rule: Seq<(Seq<char>, Seq<char>)>)
    ensures
        rule_value(rule, "UNTIL"@) is None ==> expansion_of(base, rule) == Seq::<
            EventModel,
        >::empty(),
{
}

/// A rule without `FREQ` expands to no occurrences either.
pub proof fn lemma_rule_without_freq(base: EventModel, rule: Seq<(Seq<char>, Seq<char>)>)
    ensures
        rule_value(rule, "FREQ"@) is None ==> expansion_of(base, rule) == Seq::<
            EventModel,
        >::empty(),
{
}

/// Re-parsing the same feed text yields structurally equal results: the
/// outcome of a parse is a function of the text alone.
pub proof fn lemma_reparse_equal(
    feed: Seq<char>,
    r1: Option<Seq<EventModel>>,
    r2: Option<Seq<EventModel>>,
)
    ensures
        r1 == parse_result(feed) && r2 == parse_result(feed) ==> r1 == r2,
{
}

} // verus!
