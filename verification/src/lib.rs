//! Decision core of the `dormantd` display daemon.
//!
//! Every rule the daemon follows (boot rollback, hot reload, audio inhibition,
//! shared-display claims) is a function of plain values here. The program around
//! this library performs the I/O and hands back what it observed.

pub mod app;
pub mod assembly;
pub mod audio_policy;
pub mod audio_source;
pub mod boot;
pub mod boot_guard;
pub mod claim_probe;
pub mod claim_runtime;
pub mod claim_types;
pub mod clock;
pub mod config;
pub mod coordination_claim;
pub mod generation;
pub mod lkg;
pub mod reload;
pub mod restore;
pub mod revision;
pub mod router;
pub mod seqs;
pub mod snapshot;
pub mod tables;
pub mod text;
