//! Core of a small entry-tracking service: a flat `Entry` record, a
//! repository offering `create_entry` and `get_entries`, JSON rendering of
//! entries, and the decisions the two HTTP handlers make.

pub mod entry_model;
pub mod entry_repo;
pub mod json;
pub mod entry_api;
mod clock;
