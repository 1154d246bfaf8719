//! `[package.build.config]` for the HF-kernel backend.
use vstd::prelude::*;

use std::path::PathBuf;

verus! {

#[derive(Debug, Default, Clone)]
pub struct HfKernelConfig {
    /// Hub repo id, e.g. `kernels-community/flash-attn`.
    pub repo: String,
    /// Git ref (branch/tag/sha). Resolved to a concrete commit for reproducibility.
    pub rev: Option<String>,
    /// Override the produced conda package name (defaults to the workspace package).
    pub package_name: Option<String>,
    /// Drop cxx98-ABI variants (conda-forge is cxx11-only). Serde's default is true.
    pub require_cxx11: bool,
    /// Explicit variant directory list. When unset the backend lists `build/`
    /// on the Hub. Handy for offline/deterministic builds and testing.
    pub variants: Option<Vec<String>>,
    /// Override `cuda-capabilities` (otherwise read from the repo's build.toml).
    pub cuda_capabilities: Option<Vec<String>>,
    pub debug_dir: Option<PathBuf>,
}

/// Serde's default for `require-cxx11`.
pub fn default_true() -> (b: bool)
    ensures
        b,
{
    true
}

} // verus!
