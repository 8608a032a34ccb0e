//! Keyword-triggered volume control for meeting audio: policy validation and
//! matching, trigger event logging, keyword vocabularies and the focus-session
//! state machine.

pub mod ieee;
pub mod text;
pub mod decision;
pub mod policy;
pub mod engine;
pub mod event_log;
pub mod vocab;
pub mod kws;
pub mod session;
pub mod model;
pub mod devices;
pub mod server;
