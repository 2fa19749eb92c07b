//! The format parsers: each turns one raw document and one target
//! configuration into a normalized list of chapters.

pub mod html;
pub mod json;
pub mod json_in_html;
pub mod rss;
pub mod utils;
