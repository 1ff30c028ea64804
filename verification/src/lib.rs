//! Verified core of a desktop transcription tool: the model registry and its
//! download bookkeeping, the file queue, the decoder routing and the small text
//! and path rules these rest on.

pub mod commands;
pub mod ids;
pub mod managers;
pub mod settings;
pub mod text;
pub mod transcribe_run;
