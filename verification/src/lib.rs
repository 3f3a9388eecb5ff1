//! Verified core of a command-line tool that collects citation records from
//! an academic search engine's result pages and exports them to a
//! single-sheet spreadsheet.
//!
//! The unverified binary around this library performs the HTTP fetches and
//! the final file write; everything the tool decides or computes — request
//! URLs, percent-encoding, extraction defaults, record order, the cell layout
//! of the exported sheet, and page-count parsing — lives here with contracts.

pub mod args;
pub mod collect;
pub mod export;
pub mod percent;
pub mod record;
pub mod urls;
