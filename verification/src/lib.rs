//! Resolution of a Debian package manifest from a Cargo project description:
//! which files to install, where, with which permissions, and the package
//! metadata derived from the project descriptor.

pub mod text;
pub mod path;
pub mod asset;
pub mod arch;
pub mod number;
pub mod error;
pub mod config;
pub mod rules;
pub mod cargo;
pub mod synthesis;
pub mod depends;
pub mod laws;
