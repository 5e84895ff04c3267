//! Argument interpretation and validation for a command-line DNS lookup tool.
//!
//! The crate turns a raw argument vector into a validated configuration:
//! it applies the tool's flag grammar (long and short spellings, exclusive-or
//! and priority-or combination policies), derives defaults, validates the
//! domain name as ASCII and canonicalizes it to FQDN form.  The DNS wire
//! protocol itself is out of scope: the caller hands the resolved
//! configuration to a query engine of its own.

pub mod argv;
pub mod cli;
pub mod laws;
pub mod numparse;
pub mod record_type;
pub mod resolver;
pub mod strutil;
