//! A file search engine: entry filtering, name matching and line scanning
//! with context windows, over a regular-expression matcher.
pub mod entry;
pub mod highlight;
pub mod laws;
pub mod pattern;
pub mod scan;
pub mod search;
