pub mod backend;
pub mod config;
pub mod hub;
pub mod identity;
pub mod mapping;
pub mod markers;
pub mod matchspec;
pub mod outputs;
pub mod variant;
