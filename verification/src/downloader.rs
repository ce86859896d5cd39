//! Planning of downloader runs: validation, naming, arguments and error classification.
pub mod naming;
pub mod validation;
pub mod errors;
pub mod command_args;
pub mod engine;
pub mod process;
pub mod supervision;
pub mod publication;
pub mod inspection;
pub mod progress;
