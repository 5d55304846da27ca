//! Mirrors an audio-book library to local storage: path rules of the local
//! mirror, the progress registry of running transfers, the decisions of the
//! download orchestrator and of the periodic sync pass, and the request
//! values sent to the remote service.

pub mod api;
pub mod catalog;
pub mod config;
pub mod crypt;
pub mod display;
pub mod failure;
pub mod mirror;
pub mod orchestrator;
pub mod progress;
pub mod schedule;
pub mod text;
