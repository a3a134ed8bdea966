//! The feed tokenizer: the line-unfolding, property-grammar reader that
//! splits raw feed text into calendar objects, each a list of property
//! records. The reading itself is done by the `ical` crate and is trusted;
//! everything downstream of it is verified.

use vstd::prelude::*;

use crate::model::{CalendarObject, PropertyModel, RawProperty};

verus! {

/// What the tokenizer reads out of a feed text: the property records of its
/// `VEVENT` blocks, in feed order, or `None` when the text is not well-formed
/// at the tokenization level. The reading is a fixed function of the text.
pub uninterp spec fn feed_objects(s: Seq<char>) -> Option<Seq<Seq<PropertyModel>>>;

/// Relies on the `ical` crate's `IcalParser`: it yields the feed's calendar
/// objects in order, each with the property records of its `VEVENT` blocks,
/// and yields an error for a structurally malformed object (for one, an
/// unterminated block). Reading is a fixed function of the feed text alone.
#[verifier::external_body]
pub(crate) fn tokenize_feed(feed: &str) -> (r: Option<Vec<CalendarObject>>)
    ensures
        r.deep_view() == feed_objects(feed@),
{
    let mut objects: Vec<CalendarObject> = Vec::new();
    for item in ical::IcalParser::new(feed.as_bytes()) {
        for event in item.ok()?.events {
            let to_raw = |p: ical::property::Property| RawProperty {
                name: p.name, params: p.params.unwrap_or_default(), value: p.value,
            };
            objects.push(CalendarObject {
                properties: event.properties.into_iter().map(to_raw).collect(),
            });
        }
    }
    Some(objects)
}

} // verus!
