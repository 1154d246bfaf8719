pub mod config;
pub mod generator;
