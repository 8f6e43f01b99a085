//! Extraction of citation metrics from a scholar profile page.
//!
//! The library locates a summary table, a name element and a yearly citation
//! histogram inside an HTML document, parses the numeric text found there,
//! assembles a validated [`record::AuthorInfo`], and renders it as a stable,
//! human-readable text block.  Every way the page can fail to match the
//! expected shape is reported through a closed error type.

pub mod document;
pub mod error;
pub mod extract;
pub mod locate;
pub mod numbers;
pub mod pipeline;
pub mod record;
pub mod serialize;
