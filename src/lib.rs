//! A small registry of command-line flags: declare flags, ask whether one was
//! given, read the value that follows a flag, and render help and version text.
//!
//! The invocation tokens are handed in by the caller, so every query here is a
//! pure function of the registry and of those tokens.

/// The error value that a failed lookup returns.
pub mod errors;

/// The flag registry and its queries.
pub mod cliply;

/// Laws that relate the registry's queries.
pub mod laws;

pub use crate::cliply::App;
pub use crate::cliply::ArgData;
pub use crate::errors::CliplyError;
