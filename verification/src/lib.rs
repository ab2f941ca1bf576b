//! URL records with machine-checked contracts.
//!
//! Parsing and resolution are carried out by the `url` crate; this library
//! turns each outcome into a plain record, holds that record to the data
//! model's rules, and proves what its own functions return. Every record
//! is the one that parsing its serialization gives.

pub mod canonical;
pub mod classify;
pub mod engine;
pub mod error;
pub mod host;
pub mod path;
pub mod query;
pub mod reading;
pub mod record;
pub mod resolve;
pub mod scheme;
pub mod text;

pub use classify::classify;
pub use error::{ParseErrorKind, UrlError};
pub use host::Host;
pub use record::{UrlParts, UrlRecord};
