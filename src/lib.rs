//! Bootstrapping an embedded SQLite store: the schema script format, the
//! open / check / configure / migrate sequence as a verified state machine,
//! and the helpers around it for locating the project root and reporting
//! configuration file errors.

pub mod dirs;
pub mod laws;
pub mod migrate;
pub mod script;
pub mod text;
pub mod toml;
