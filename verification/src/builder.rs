//! The event builder: one pass over an object's properties, later duplicate
//! property names overwriting earlier ones, yields at most one base event.
//! A date property resolves its own `TZID` parameter; failure to resolve a
//! field leaves it unset, and the object then contributes nothing.

use vstd::prelude::*;

use crate::datetime::{parse_wall_clock, wall_clock_of, wall_clock_valid};
use crate::model::{CalendarEvent, CalendarObject, EventModel, PropertyModel, RawProperty,
    RecurrenceRule};
use crate::rrule::{parse_rule_components, rule_components_of};
use crate::text::str_eq;
use crate::zone::{zone_epoch_seconds, zone_utc_instant, MAX_ZONED_EPOCH, MIN_ZONED_EPOCH};

verus! {

/// The builder's state after some prefix of the properties.
pub ghost struct BuildState {
    pub name: Option<Seq<char>>,
    pub description: Option<Seq<char>>,
    pub start: Option<i64>,
    pub end: Option<i64>,
    pub rule: Seq<(Seq<char>, Seq<char>)>,
}

pub open spec fn initial_state() -> BuildState {
    BuildState { name: None, description: None, start: None, end: None, rule: Seq::empty() }
}

/// A property's text: its value, or empty when the value is absent.
pub open spec fn value_or_empty(v: Option<Seq<char>>) -> Seq<char> {
    match v {
        Some(s) => s,
        None => Seq::empty(),
    }
}

/// The zone identifier a date property is resolved in: the first value of
/// the last `TZID` parameter carrying a value, or the fixed default zone
/// when none is given.
pub open spec fn effective_zone(params: Seq<(Seq<char>, Seq<Seq<char>>)>) -> Seq<char>
    decreases params.len(),
{
    if params.len() == 0 {
        "Europe/Berlin"@
    } else if params.last().0 == "TZID"@ && params.last().1.len() > 0 {
        params.last().1[0]
    } else {
        effective_zone(params.drop_last())
    }
}

/// The instant a date property resolves to: its text read by the local
/// date-time grammar and mapped through the zone database. `None` when the
/// text does not parse, the zone is unknown, or the local time is ambiguous
/// or skipped there.
pub open spec fn resolved_instant(p: PropertyModel) -> Option<i64> {
    match wall_clock_of(value_or_empty(p.value)) {
        Some(w) => zone_utc_instant(effective_zone(p.params), w),
        None => None,
    }
}

/// One step of the pass: how a property changes the builder's state. A date
/// property that fails to resolve leaves the state unchanged.
pub open spec fn apply_property(st: BuildState, p: PropertyModel) -> BuildState {
    if p.name == "SUMMARY"@ {
        BuildState { name: Some(value_or_empty(p.value)), ..st }
    } else if p.name == "DESCRIPTION"@ {
        BuildState { description: Some(value_or_empty(p.value)), ..st }
    } else if p.name == "DTSTART"@ {
        match resolved_instant(p) {
            Some(t) => BuildState { start: Some(t), ..st },
            None => st,
        }
    } else if p.name == "DTEND"@ {
        match resolved_instant(p) {
            Some(t) => BuildState { end: Some(t), ..st },
            None => st,
        }
    } else if p.name == "RRULE"@ {
        BuildState { rule: rule_components_of(value_or_empty(p.value)), ..st }
    } else {
        st
    }
}

/// The state after the whole pass, in property order.
pub open spec fn fold_properties(props: Seq<PropertyModel>) -> BuildState
    decreases props.len(),
{
    if props.len() == 0 {
        initial_state()
    } else {
        apply_property(fold_properties(props.drop_last()), props.last())
    }
}

/// The event an object's properties build, with its recurrence rule:
/// present exactly when a summary was given and both date fields resolved.
/// An absent description reads as the empty string.
pub open spec fn built_event(props: Seq<PropertyModel>) -> Option<
    (EventModel, Seq<(Seq<char>, Seq<char>)>),
> {
    let st = fold_properties(props);
    match (st.name, st.start, st.end) {
        (Some(n), Some(s), Some(e)) => Some(
            (
                EventModel {
                    name: n,
                    description: value_or_empty(st.description),
                    start: s as int,
                    end: e as int,
                },
                st.rule,
            ),
        ),
        _ => None,
    }
}

/// Owns a property's text: its value, or empty when absent.
fn property_text(v: &Option<String>) -> (r: String)
    ensures
        r@ == value_or_empty(v.deep_view()),
{
    match v {
        Some(s) => s.clone(),
        None => String::new(),
    }
}

/// The zone identifier to resolve a date property in.
fn effective_zone_exec(params: &Vec<(String, Vec<String>)>) -> (r: String)
    ensures
        r@ == effective_zone(params.deep_view()),
{
    let ghost pd = params.deep_view();
    let mut i = params.len();
    proof {
        assert(pd.take(i as int) =~= pd);
    }
    while i > 0
        invariant
            i <= params.len(),
            pd == params.deep_view(),
            effective_zone(pd) == effective_zone(pd.take(i as int)),
        decreases i,
    {
        let pair = &params[i - 1];
        proof {
            assert(pd.take(i as int).last() == pd[i - 1]);
            assert(pd[i - 1] == (pair.0@, pair.1.deep_view()));
        }
        if str_eq(pair.0.as_str(), "TZID") && pair.1.len() > 0 {
            proof {
                assert(pd[i - 1].1[0] == pair.1@[0]@);
            }
            return pair.1[0].clone();
        }
        proof {
            assert(pd.take(i as int).drop_last() =~= pd.take(i - 1));
        }
        i = i - 1;
    }
    proof {
        assert(pd.take(0).len() == 0);
    }
    String::from_str("Europe/Berlin")
}

/// Resolves a date property to the instant it denotes, if any.
fn resolve_property(p: &RawProperty) -> (r: Option<i64>)
    ensures
        r == resolved_instant(p@),
        r matches Some(t) ==> MIN_ZONED_EPOCH <= t <= MAX_ZONED_EPOCH,
{
    let text = property_text(&p.value);
    let w = match parse_wall_clock(text.as_str()) {
        Some(w) => w,
        None => {
            return None;
        },
    };
    proof {
        assert(wall_clock_valid(w));
    }
    let zone = effective_zone_exec(&p.params);
    zone_epoch_seconds(zone.as_str(), &w)
}

/// Builds the base event of one calendar object, with its recurrence rule.
/// An object whose summary or date fields did not resolve yields `None` and
/// contributes nothing.
#[verifier::loop_isolation(false)]
pub fn build_event(object: &CalendarObject) -> (r: Option<(CalendarEvent, RecurrenceRule)>)
    ensures
        match r {
            Some(p) => {
                &&& built_event(object@) == Some((p.0@, p.1@))
                &&& MIN_ZONED_EPOCH <= p.0.start <= MAX_ZONED_EPOCH
                &&& MIN_ZONED_EPOCH <= p.0.end <= MAX_ZONED_EPOCH
            },
            None => built_event(object@) is None,
        },
{
    let ghost props = object@;
    let mut name: Option<String> = None;
    let mut description: Option<String> = None;
    let mut start: Option<i64> = None;
    let mut end: Option<i64> = None;
    let mut rule = RecurrenceRule { components: Vec::new() };
    let mut i: usize = 0;
    proof {
        assert(props.take(0).len() == 0);
        assert(rule@ =~= Seq::<(Seq<char>, Seq<char>)>::empty());
    }
    while i < object.properties.len()
        invariant
            i <= object.properties.len(),
            name.deep_view() == fold_properties(props.take(i as int)).name,
            description.deep_view() == fold_properties(props.take(i as int)).description,
            start == fold_properties(props.take(i as int)).start,
            end == fold_properties(props.take(i as int)).end,
            rule@ == fold_properties(props.take(i as int)).rule,
            start matches Some(t) ==> MIN_ZONED_EPOCH <= t <= MAX_ZONED_EPOCH,
            end matches Some(t) ==> MIN_ZONED_EPOCH <= t <= MAX_ZONED_EPOCH,
        decreases object.properties.len() - i,
    {
        let p = &object.properties[i];
        proof {
            assert(props.take(i + 1).drop_last() =~= props.take(i as int));
            assert(props.take(i + 1).last() == props[i as int]);
            assert(props[i as int] == p@);
        }
        if str_eq(p.name.as_str(), "SUMMARY") {
            name = Some(property_text(&p.value));
        } else if str_eq(p.name.as_str(), "DESCRIPTION") {
            description = Some(property_text(&p.value));
        } else if str_eq(p.name.as_str(), "DTSTART") {
            match resolve_property(p) {
                Some(t) => {
                    start = Some(t);
                },
                None => {},
            }
        } else if str_eq(p.name.as_str(), "DTEND") {
            match resolve_property(p) {
                Some(t) => {
                    end = Some(t);
                },
                None => {},
            }
        } else if str_eq(p.name.as_str(), "RRULE") {
            let text = property_text(&p.value);
            rule = parse_rule_components(text.as_str());
        }
        i = i + 1;
    }
    proof {
        assert(props.take(props.len() as int) =~= props);
    }
    let built_name = match name {
        Some(n) => n,
        None => {
            return None;
        },
    };
    let built_start = match start {
        Some(s) => s,
        None => {
            return None;
        },
    };
    let built_end = match end {
        Some(e) => e,
        None => {
            return None;
        },
    };
    let built_description = match description {
        Some(d) => d,
        None => String::new(),
    };
    let event = CalendarEvent {
        name: built_name,
        description: built_description,
        start: built_start,
        end: built_end,
    };
    Some((event, rule))
}

} // verus!
