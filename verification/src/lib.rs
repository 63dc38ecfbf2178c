//! A minimal HTTP service scaffold: a typed error taxonomy, per-request
//! context tags, and the reporting middleware that aggregates diagnostic
//! events and classified errors for an external monitoring sink.

pub mod error;
pub mod extractors;
pub mod numfmt;
pub mod sentry;
pub mod settings;
pub mod tags;
