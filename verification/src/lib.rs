//! Compares sample timestamps against a reference instant shifted by a
//! duration that is written as free-form text, such as
//! `"15 days 20 seconds 100 milliseconds"`.
//!
//! The duration is read by [`parse_duration`]. Its fixed-length part, from
//! nanoseconds to weeks, is elapsed time; months and years are kept as
//! counts and are turned into elapsed time where the duration is applied
//! to an instant, a month as 30 days and a year as 365 days. A [`Session`]
//! applies the duration to the reference once and then gives a verdict on
//! each sample. An instant in a leap second, the second that calendars
//! number 60, is held apart from the seconds around it and lies between
//! them.

pub mod comparator;
pub mod duration;
pub mod error;
pub mod instant;
pub mod joining;
pub mod lexer;
pub mod parser;
pub mod samples;
pub mod session;
pub mod text;
pub mod timestamp;
pub mod token;
pub mod units;

pub use comparator::{compare, Comparator};
pub use duration::{Duration, Unit};
pub use error::Error;
pub use instant::Instant;
pub use parser::parse_duration;
pub use samples::sample_lines;
pub use session::{prepare, select_source, PathState, Session, SourceKind};
pub use timestamp::{parse_timestamp, DEFAULT_FORMAT};
pub use token::{Magnitude, UnitToken};
