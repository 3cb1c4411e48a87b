//! File eradication: multi-pass overwrite, lock-owner escalation, and the
//! orchestration that ties them together, each decision verified.

pub mod coordinator;
pub mod crypto;
pub mod escalation;
pub mod orchestrator;
pub mod overwrite;
pub mod paths;
pub mod process;
pub mod text;
