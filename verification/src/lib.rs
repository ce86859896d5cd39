//! Verified core of a desktop media downloader: request validation, command
//! construction, file naming, error classification, redaction, and the
//! admission and publication state machines that coordinate background work.
pub mod app_error;
pub mod appearance;
pub mod artifact_contract;
pub mod diagnostics;
pub mod bounded_read;
pub mod build_config;
pub mod downloader;
pub mod journal;
pub mod lifecycle;
pub mod models;
pub mod outbox;
pub mod patterns;
pub mod redaction;
pub mod task_registry;
pub mod text;
