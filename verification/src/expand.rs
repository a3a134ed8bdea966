//! The recurrence expander: the occurrences a weekly rule generates from a
//! base event, bounded exclusively by the rule's `UNTIL` cutoff. The step is
//! a fixed absolute duration, so expansion is arithmetic on instants.

use vstd::prelude::*;

use crate::datetime::{utc_epoch, utc_epoch_seconds, utc_wall_clock_of, wall_clock_valid};
use crate::datetime::parse_wall_clock_utc;
use crate::model::{CalendarEvent, EventModel, RecurrenceRule};
use crate::rrule::rule_value;
use crate::text::str_eq;
use crate::zone::{MAX_ZONED_EPOCH, MIN_ZONED_EPOCH};

verus! {

/// Seconds in one week, the step of a `WEEKLY` rule.
pub const WEEK_SECONDS: i64 = 604_800;

/// The occurrences generated from `base` at `cur, cur + step, ...`, each
/// strictly before `until` and keeping the base's signed duration.
pub open spec fn occurrences_from(base: EventModel, cur: int, until: int, step: int) -> Seq<
    EventModel,
>
    decreases (if until - cur >= 0 { until - cur } else { 0 }) when step >= 1
{
    if cur >= until {
        Seq::empty()
    } else {
        seq![
            EventModel {
                name: base.name,
                description: base.description,
                start: cur,
                end: cur + (base.end - base.start),
            },
        ] + occurrences_from(base, cur + step, until, step)
    }
}

/// What the expander produces for a base event and rule: occurrences come
/// only when the rule carries both `FREQ` and `UNTIL`, the frequency is the
/// supported `WEEKLY`, and `UNTIL` parses as a UTC instant. The first
/// occurrence lies one week after the base start; the cutoff is exclusive.
pub open spec fn expansion_of(base: EventModel, rule: Seq<(Seq<char>, Seq<char>)>) -> Seq<
    EventModel,
> {
    match (rule_value(rule, "FREQ"@), rule_value(rule, "UNTIL"@)) {
        (Some(freq), Some(until_text)) => if freq == "WEEKLY"@ {
            match utc_wall_clock_of(until_text) {
                Some(w) => occurrences_from(
                    base,
                    base.start + 604800,
                    utc_epoch_seconds(w),
                    604800,
                ),
                None => Seq::empty(),
            }
        } else {
            Seq::empty()
        },
        _ => Seq::empty(),
    }
}

proof fn lemma_utc_epoch_seconds_bounds(w: crate::datetime::WallClock)
    requires
        wall_clock_valid(w),
    ensures
        -100_000_000_000 <= utc_epoch_seconds(w) <= 320_000_000_000,
{
    crate::datetime::lemma_days_before_year_bounds(w.year as int);
    crate::datetime::lemma_days_before_month_bounds(w.year as int, w.month as int);
    crate::datetime::lemma_days_before_year_bounds(1970);
}

/// Looks up the value of a rule component; a later component with the same
/// key takes precedence.
pub fn rule_lookup<'a>(rule: &'a RecurrenceRule, key: &str) -> (r: Option<&'a String>)
    ensures
        match r {
            Some(v) => rule_value(rule@, key@) == Some(v@),
            None => rule_value(rule@, key@) is None,
        },
{
    let mut i = rule.components.len();
    proof {
        assert(rule@.take(i as int) =~= rule@);
    }
    while i > 0
        invariant
            i <= rule.components.len(),
            rule_value(rule@, key@) == rule_value(rule@.take(i as int), key@),
        decreases i,
    {
        let pair = &rule.components[i - 1];
        proof {
            assert(rule@.take(i as int).last() == rule@[i - 1]);
            assert(rule@[i - 1] == (pair.0@, pair.1@));
        }
        if str_eq(pair.0.as_str(), key) {
            return Some(&pair.1);
        }
        proof {
            assert(rule@.take(i as int).drop_last() =~= rule@.take(i - 1));
        }
        i = i - 1;
    }
    proof {
        assert(rule@.take(0).len() == 0);
    }
    None
}

/// Expands a base event by its recurrence rule. A rule without `FREQ` or
/// `UNTIL`, an unsupported frequency, or an `UNTIL` that does not parse
/// produce no occurrences, and the base event stands alone.
#[verifier::loop_isolation(false)]
pub fn expand(base: &CalendarEvent, rule: &RecurrenceRule) -> (r: Vec<CalendarEvent>)
    requires
        MIN_ZONED_EPOCH <= base.start <= MAX_ZONED_EPOCH,
        MIN_ZONED_EPOCH <= base.end <= MAX_ZONED_EPOCH,
    ensures
        r.deep_view() == expansion_of(base@, rule@),
{
    let mut out: Vec<CalendarEvent> = Vec::new();
    let freq = match rule_lookup(rule, "FREQ") {
        Some(f) => f,
        None => {
            proof {
                assert(out.deep_view() =~= expansion_of(base@, rule@));
            }
            return out;
        },
    };
    let until_text = match rule_lookup(rule, "UNTIL") {
        Some(u) => u,
        None => {
            proof {
                assert(out.deep_view() =~= expansion_of(base@, rule@));
            }
            return out;
        },
    };
    if !str_eq(freq.as_str(), "WEEKLY") {
        proof {
            assert(out.deep_view() =~= expansion_of(base@, rule@));
        }
        return out;
    }
    let w = match parse_wall_clock_utc(until_text.as_str()) {
        Some(w) => w,
        None => {
            proof {
                assert(out.deep_view() =~= expansion_of(base@, rule@));
            }
            return out;
        },
    };
    proof {
        assert(wall_clock_valid(w));
        lemma_utc_epoch_seconds_bounds(w);
    }
    let until = utc_epoch(&w);
    let duration = base.end - base.start;
    let mut cur = base.start + WEEK_SECONDS;
    proof {
        assert(out.deep_view() + occurrences_from(base@, cur as int, until as int, 604800)
            =~= occurrences_from(base@, cur as int, until as int, 604800));
    }
    while cur < until
        invariant
            base@.start + 604800 <= cur,
            expansion_of(base@, rule@) == out.deep_view() + occurrences_from(
                base@,
                cur as int,
                until as int,
                604800,
            ),
        decreases (if until - cur >= 0 { until - cur } else { 0 }),
    {
        let ghost before = out.deep_view();
        let occurrence = CalendarEvent {
            name: base.name.clone(),
            description: base.description.clone(),
            start: cur,
            end: cur + duration,
        };
        proof {
            assert(occurrence@ == EventModel {
                name: base@.name,
                description: base@.description,
                start: cur as int,
                end: cur + (base@.end - base@.start),
            });
        }
        out.push(occurrence);
        proof {
            assert(out.deep_view() =~= before.push(occurrence@));
            assert(occurrences_from(base@, cur as int, until as int, 604800) == seq![occurrence@]
                + occurrences_from(base@, cur + 604800, until as int, 604800));
            assert(before.push(occurrence@) + occurrences_from(
                base@,
                cur + 604800,
                until as int,
                604800,
            ) =~= before + (seq![occurrence@] + occurrences_from(
                base@,
                cur + 604800,
                until as int,
                604800,
            )));
        }
        cur = cur + WEEK_SECONDS;
    }
    proof {
        assert(occurrences_from(base@, cur as int, until as int, 604800) =~= Seq::<
            EventModel,
        >::empty());
        assert(out.deep_view() + Seq::<EventModel>::empty() =~= out.deep_view());
    }
    out
}

} // verus!
