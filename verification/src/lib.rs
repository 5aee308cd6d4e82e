//! Extraction of third-party dependency lists from package-manager lockfiles,
//! and resolution of each dependency's license metadata from its installed
//! manifest.
//!
//! The crate is organised around three stages: a locator that maps a package
//! manager to its lockfile path, one parser per lockfile format turning raw
//! bytes into package identifiers, and a resolver that reads each package's
//! manifest and probes for a license file.

pub mod bytes;
pub mod error;
pub mod fsio;
pub mod gradle;
pub mod ident;
pub mod json;
pub mod manager;
pub mod npm;
pub mod paths;
pub mod pipeline;
pub mod pnpm;
pub mod podlock;
pub mod report;
pub mod resolver;
pub mod yaml;
pub mod yarn;
