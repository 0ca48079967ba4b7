//! Verified core of a paginated movie-rating scraper.
//!
//! The library holds everything that can be reasoned about: the record
//! model and its CSV encoding, the page classifier, the field extractor
//! over a plain document model, and the pagination driver's policy.
//! Fetching rendered pages, parsing HTML into the document model, file
//! output and logging live outside the library.

pub mod classify;
pub mod dom;
pub mod driver;
pub mod extract;
pub mod pace;
pub mod errors;
pub mod markers;
pub mod num;
pub mod record;
pub mod text;
