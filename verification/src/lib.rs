//! A calendar-feed parser: reads an iCalendar text feed and produces a
//! chronologically ordered list of concrete event occurrences, expanding
//! simple weekly recurrence rules up to their `UNTIL` cutoff.

pub mod builder;
pub mod datetime;
pub mod expand;
pub mod laws;
pub mod model;
pub mod parser;
pub mod rrule;
pub mod sort;
pub mod text;
pub mod tokenize;
pub mod zone;
