//! A verified model of a bounded-concurrency page-scraping pipeline.
//!
//! The library has three parts: plain-data record types ([`record`]),
//! extraction of records from one page of listing markup ([`extract`]),
//! and a state machine for the capacity-bounded task pool together with
//! the many-to-one aggregation channel that delivers records to a single
//! consumer ([`pipeline`]).

pub mod extract;
pub mod fetch;
pub mod pipeline;
pub mod record;
