//! A library that turns free-text media file names into a normalized
//! Show/Season/Episode catalog and enriches that catalog from an external
//! metadata source.
//!
//! The name-parsing heuristics live in `parser`, the tree of raw names in
//! `structure`, the catalog builder in `catalog`, and the metadata resolver
//! in `metadata`. `text` holds the character-level groundwork they share.

pub mod catalog;
pub mod metadata;
pub mod parser;
pub mod structure;
pub mod text;
