//! ICE streams and their components, together with the consent freshness
//! process that keeps a selected pair alive.
//!
//! The crate does no I/O and reads no clock.  Time is handed in as an
//! [`time::Instant`], work for the gathering and connectivity check engines
//! is handed out through queues and [`stream::IncomingStep`]s.
pub mod agent;
pub mod agent_effects;
pub mod agent_laws;
pub mod candidate;
pub mod check_layout;
pub mod checklist;
pub mod conncheck;
pub mod consent;
pub mod consent_effects;
pub mod consent_laws;
pub mod component;
pub mod gathering;
pub mod message;
pub mod net;
mod rand;
pub mod search;
pub mod secret;
pub mod stream;
pub mod stream_effects;
pub mod stream_laws;
pub mod stream_state;
pub mod time;
