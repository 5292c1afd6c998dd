//! Builds the entry list of an XML sitemap from a tree of static files:
//! rule matching and rewriting, robots exclusion, `<meta name=robots>`
//! detection, and the protocol's limits and ordering.
pub mod cmd;
pub mod config;
pub mod html_meta;
pub mod rules;
pub mod scan;
pub mod text;
