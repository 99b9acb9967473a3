//! An in-memory registry of person records.
//!
//! The crate holds the data model, the creation-time validation rules, and a
//! keyed store for person records. Everything here is verified; the HTTP
//! front end that drives it lives outside the library.

pub mod api;
pub mod laws;
pub mod person;
pub mod store;
pub mod validation;
