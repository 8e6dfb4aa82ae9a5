//! Core of a newsletter publishing service: validated domain values, an
//! idempotent publish endpoint backed by a persisted response snapshot, and a
//! delivery queue drained by a retrying worker.

pub mod domain;
pub mod idempotency;
pub mod newsletter;
pub mod num;
pub mod profile;
pub mod publish;
pub mod response;
pub mod store;
pub mod text;
pub mod upload;
pub mod worker;
