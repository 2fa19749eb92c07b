//! Watches configured web sources (RSS feeds, JSON APIs, HTML pages) for new
//! manga chapter releases, normalizes them into chapters, deduplicates and
//! stores them, and selects which chapters are due for announcement to each
//! registered destination.

pub mod announcer;
pub mod dates;
pub mod dispatcher;
pub mod gofer;
pub mod jsonval;
pub mod parsers;
pub mod store;
pub mod structs;
pub mod strutil;
