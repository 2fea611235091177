//! Turns JUnit test reports into human-readable Markdown summaries.
//!
//! The crate is organised like the data flow: `model` holds the typed
//! report entities and the rules that classify an input document as a
//! single suite or an aggregated set of suites; `lang_specific` strips
//! package prefixes from qualified test names; `md` is a generic
//! fixed-width Markdown table and block renderer; `report` composes
//! them into the final Markdown document.

pub mod lang_specific;
pub mod md;
pub mod model;
pub mod report;
