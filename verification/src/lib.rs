//! Extracts a 24-hour weather forecast from the markup of a forecast page.
//!
//! The page is scanned once for each field of the forecast. Every scan yields
//! the cells that its selector matches, in order; each cell is decoded by the
//! rule of its field; and the decoded values are merged by position into one
//! forecast of twenty-four hourly slots. [`engine::extract_forecast`] does all
//! of it; [`engine::scan_document`] and [`engine::assemble`] are its two
//! halves.
//!
//! Parsing the markup and matching selectors is the work of the `scraper`
//! crate and is taken on trust. Everything else is verified: the contracts
//! say exactly which forecast, or which failure, comes out of which scans.

pub mod column;
pub mod decode;
pub mod document;
pub mod engine;
pub mod field;
pub mod forecast;
pub mod number;
pub mod text;
