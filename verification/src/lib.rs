//! A read-only reader for a Zotero library.
pub mod actions;
pub mod answers;
pub mod bridge;
pub mod bytes;
pub mod cache;
pub mod feed;
pub mod fulltext;
pub mod json;
pub mod keys;
pub mod laws;
pub mod markup;
pub mod model;
pub mod number;
pub mod order;
pub mod paper;
pub mod promises;
pub mod prose;
pub mod reader;
pub mod reading;
pub mod records;
pub mod safety;
pub mod screen;
pub mod screens;
pub mod shelf;
pub mod soundness;
pub mod stored;
pub mod text;
pub mod tidy;
pub mod wording;
pub mod work;
pub mod zotero;
