//! Extraction of (year, name, date) schedule records from an HTML table,
//! together with a verified bounded-retry fetch state machine.
//!
//! The HTML tree navigation itself is delegated to the `scraper` crate
//! behind a small trusted boundary; every rule of the library — text
//! normalization, header/row lockstep pairing, retry accounting — is
//! stated in contracts and verified.

pub mod dom;
pub mod errors;
pub mod holiday_processor;
pub mod scraper_client;
pub mod text;
