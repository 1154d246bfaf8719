pub mod config;
pub mod generator;
pub mod metadata;
