//! A versioned ledger of file revisions, with the change detection and
//! lifecycle rules that append to it, and a typographic text pass.

pub mod revision;
pub mod changes;
pub mod ledger;
pub mod service;
pub mod typography;
