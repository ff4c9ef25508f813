//! Extraction of a single day's entry from a loosely structured,
//! line-oriented document.
//!
//! The library anchors a "Month Day" label to a fixed reference leap year,
//! locates the half-open range of lines belonging to that day (bounded by
//! the next day's header line, or by the end of the document when no
//! successor boundary exists), segments the located block into date, title,
//! quote, attribution and explanation fields, and finalizes the record by
//! substituting externally corrected text for the quote and explanation.

pub mod correct;
pub mod dates;
pub mod errors;
pub mod locate;
pub mod pipeline;
pub mod segment;
pub mod text;
