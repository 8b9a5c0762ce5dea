//! An adaptive batch scheduler for fetch jobs driven against an unstable
//! rendering engine: intake parsing, failure classification, a bounded retry
//! ledger, an additive throttle and per-cycle batch planning, each stated and
//! proved over mathematical models.
pub mod text;
pub mod job;
pub mod intake;
pub mod classify;
pub mod report;
pub mod throttle;
pub mod ledger;
pub mod measure;
pub mod scheduler;
