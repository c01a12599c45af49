//! Birthday bookkeeping: parsing and formatting of birthday dates, computing
//! the previous and next anniversary of a date, and ranking entries by how
//! soon their next anniversary comes.

pub mod calendar;
pub mod text;
pub mod date_spec;
pub mod occurrence;
pub mod zone;
pub mod entry;
pub mod present;
pub mod config;
