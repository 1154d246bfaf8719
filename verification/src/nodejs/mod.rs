pub mod build_script;
pub mod config;
pub mod generator;
pub mod metadata;
