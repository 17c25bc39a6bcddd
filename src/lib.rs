//! A registry of named launch manifests ("projects") and the engine that
//! turns a decoded manifest into an ordered series of process launches.

pub mod errors;
pub mod records;
pub mod store;
pub mod db;
pub mod laws;
pub mod launch;
pub mod cli;
pub mod text;
