//! Recovers the source location and a clean message from a `serde_yaml`
//! error, for reporting through `miette`.

pub use miette::{self, SourceOffset};

pub use crate::error_and_context::{ErrorAndContext, RawError};

pub mod error_and_context;
pub mod message;
pub mod search;
