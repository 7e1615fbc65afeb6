//! Identify mysterious text against a catalog of named, tagged regular
//! expressions, each carrying a rarity score.
//!
//! Build a `Catalog` once from pattern records, then run queries against it
//! with an `Identifier` (text) or a `bytes::Identifier` (raw bytes). Files are
//! scanned by extracting their printable runs first (`extract_strings`).

pub mod bytes;
pub mod catalog;
pub mod extract;
pub mod filter;
pub mod identifier;
pub mod identify;
pub mod pattern;
pub mod regex_api;

pub use catalog::Catalog;
pub use extract::{extract_strings, TailPolicy};
pub use filter::Filters;
pub use identifier::{Identifier, Match};
pub use identify::{analyze_file, identify_text, what_is};
pub use pattern::{strip_anchors, Data};
