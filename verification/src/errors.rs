//! Error taxonomy of the scraping pipeline.

use vstd::prelude::*;

verus! {

/// Failures surfaced by the scraping pipeline. Malformed rows and missing
/// cells are not errors: the extractor absorbs them silently.
#[derive(Debug)]
pub enum ScraperError {
    /// A structural query used to navigate the markup is malformed.
    SelectorError(String),
    /// A transport-level failure while fetching the page.
    FetchError(String),
    /// A storage-layer failure, carried through opaquely.
    SqliteConnectionError(String),
    /// Any other terminal failure, such as an exhausted retry budget.
    CustomError(String),
}

} // verus!
