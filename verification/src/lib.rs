pub mod autotools;
pub mod bazel;
pub mod common;
pub mod go;
pub mod gradle;
pub mod hf_kernel;
pub mod make;
pub mod nodejs;
pub mod text;
