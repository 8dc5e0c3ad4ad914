//! Startup bootstrap for the pgmoneta MCP server: loading the two-file,
//! section-based configuration into a typed structure, and planning the
//! logging subsystem's sink selection, rotation and level/target filtering.
//!
//! Reading the files, opening sinks and installing the process-wide pipeline
//! are the caller's work; everything here is pure and carries a contract.

pub mod configuration;
pub mod ini;
pub mod logging;
pub mod text;
