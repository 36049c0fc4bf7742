//! A nonlinear "age of the universe" timeline: maps a progress fraction to a
//! proleptic Gregorian calendar date, a magnitude-scaled display label, and
//! nearby historical events.

pub mod date;
pub mod db;
pub mod numfmt;
pub mod title;

pub use date::{current_date, Date, Day, DayOfYear, Month, Year};
pub use db::{get_events, info_for, Event};
pub use numfmt::CommaWrapper;
pub use title::title_for;
