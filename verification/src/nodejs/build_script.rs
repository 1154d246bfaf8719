//! The parameters of the Node.js build script.
use vstd::prelude::*;

use crate::text::{chars_of, find, find_char, slice_chars, string_from_chars};

verus! {

/// A source->dest pair for extra asset directories.
#[derive(Debug, Clone)]
pub struct AssetPair {
    pub src: String,
    pub dst: String,
}

pub struct BuildScriptContext {
    /// Absolute path to the source directory.
    pub source_dir: String,
    /// Package manager: "npm", "yarn", "pnpm", or "bun".
    pub package_manager: String,
    /// Extra arguments appended to the install command.
    pub extra_install_args: Vec<String>,
    /// Build script name (e.g. "build"). None means auto-detect from package.json.
    pub build_script: Option<String>,
    /// Extra arguments appended to the build command.
    pub extra_build_args: Vec<String>,
    /// Subdirectory of source_dir to install into `$PREFIX/share/$PKG_NAME`.
    /// None means the whole project (excluding node_modules).
    pub build_output_dir: Option<String>,
    /// Additional asset directories to copy: (source_subdir, dest_subdir) pairs.
    pub extra_assets: Vec<AssetPair>,
    /// Entry point relative to install dir for which a bin launcher is created.
    pub server_entry: Option<String>,
    /// True when building on Unix (bash); false on Windows (cmd.exe).
    pub is_bash: bool,
}

/// `source:dest` -> (source, dest), split at the first `:`; without a `:`
/// the destination is the source.
pub open spec fn spec_asset_pair(s: Seq<char>) -> (Seq<char>, Seq<char>) {
    match find_char(s, ':') {
        Some(i) => (s.take(i), s.skip(i + 1)),
        None => (s, s),
    }
}

/// Parse a `source:dest` asset pair.
pub fn parse_asset_pair(s: &str) -> (r: AssetPair)
    ensures
        (r.src@, r.dst@) == spec_asset_pair(s@),
{
    let c = chars_of(s);
    match find(c.as_slice(), ':') {
        Some(i) => {
            proof {
                crate::text::lemma_find_char_spec(c@, ':');
            }
            let src = slice_chars(c.as_slice(), 0, i);
            let dst = slice_chars(c.as_slice(), i + 1, c.len());
            assert(src@ =~= s@.take(i as int));
            assert(dst@ =~= s@.skip(i + 1));
            AssetPair { src: string_from_chars(src.as_slice()), dst: string_from_chars(dst.as_slice()) }
        },
        None => AssetPair { src: s.to_string(), dst: s.to_string() },
    }
}

} // verus!
