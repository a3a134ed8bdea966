//! The data model of the library: property records as the tokenizer hands
//! them out, events and the final calendar, and their mathematical models.

use vstd::prelude::*;

verus! {

/// One property line of a calendar object: a name, a parameter mapping
/// (a parameter may carry several values) and an optional value.
#[derive(Clone, Debug)]
pub struct RawProperty {
    pub name: String,
    pub params: Vec<(String, Vec<String>)>,
    pub value: Option<String>,
}

/// The model of a property: the same record over sequences of characters.
pub ghost struct PropertyModel {
    pub name: Seq<char>,
    pub params: Seq<(Seq<char>, Seq<Seq<char>>)>,
    pub value: Option<Seq<char>>,
}

impl View for RawProperty {
    type V = PropertyModel;

    open spec fn view(&self) -> PropertyModel {
        PropertyModel {
            name: self.name@,
            params: self.params.deep_view(),
            value: self.value.deep_view(),
        }
    }
}

impl DeepView for RawProperty {
    type V = PropertyModel;

    open spec fn deep_view(&self) -> PropertyModel {
        self.view()
    }
}

/// One `VEVENT` block of the feed: its property lines, in feed order.
#[derive(Clone, Debug)]
pub struct CalendarObject {
    pub properties: Vec<RawProperty>,
}

impl View for CalendarObject {
    type V = Seq<PropertyModel>;

    open spec fn view(&self) -> Seq<PropertyModel> {
        self.properties.deep_view()
    }
}

impl DeepView for CalendarObject {
    type V = Seq<PropertyModel>;

    open spec fn deep_view(&self) -> Seq<PropertyModel> {
        self.view()
    }
}

/// One concrete event occurrence. `start` and `end` are absolute instants in
/// seconds since the Unix epoch; `end` may equal or precede `start`, and
/// `end - start` is the signed duration downstream may rely on.
#[derive(Clone, Debug)]
pub struct CalendarEvent {
    pub name: String,
    pub description: String,
    pub start: i64,
    pub end: i64,
}

/// The model of an event occurrence.
pub ghost struct EventModel {
    pub name: Seq<char>,
    pub description: Seq<char>,
    pub start: int,
    pub end: int,
}

impl View for CalendarEvent {
    type V = EventModel;

    open spec fn view(&self) -> EventModel {
        EventModel {
            name: self.name@,
            description: self.description@,
            start: self.start as int,
            end: self.end as int,
        }
    }
}

impl DeepView for CalendarEvent {
    type V = EventModel;

    open spec fn deep_view(&self) -> EventModel {
        self.view()
    }
}

/// The parsed calendar: every occurrence, sorted ascending by `start`.
#[derive(Clone, Debug)]
pub struct CalendarData {
    pub events: Vec<CalendarEvent>,
}

impl View for CalendarData {
    type V = Seq<EventModel>;

    open spec fn view(&self) -> Seq<EventModel> {
        self.events.deep_view()
    }
}

impl DeepView for CalendarData {
    type V = Seq<EventModel>;

    open spec fn deep_view(&self) -> Seq<EventModel> {
        self.view()
    }
}

/// A recurrence rule: the `KEY=VALUE` components of an `RRULE` value, in
/// feed order. Only `FREQ` and `UNTIL` are consulted; a later component
/// with a repeated key takes precedence.
#[derive(Clone, Debug)]
pub struct RecurrenceRule {
    pub components: Vec<(String, String)>,
}

impl View for RecurrenceRule {
    type V = Seq<(Seq<char>, Seq<char>)>;

    open spec fn view(&self) -> Seq<(Seq<char>, Seq<char>)> {
        self.components.deep_view()
    }
}

impl DeepView for RecurrenceRule {
    type V = Seq<(Seq<char>, Seq<char>)>;

    open spec fn deep_view(&self) -> Seq<(Seq<char>, Seq<char>)> {
        self.view()
    }
}

/// The one fatal error: the feed is not well-formed at the tokenization
/// level. Events that fail to resolve are dropped, never surfaced here.
#[derive(Clone, Copy, PartialEq, Eq, Structural, Debug)]
pub enum Error {
    StructuralParse,
}

} // verus!
