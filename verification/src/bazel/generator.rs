//! What the Bazel backend puts into a recipe: the build requirement, the
//! build script's parameters and input globs.
use vstd::prelude::*;

use crate::bazel::config::BazelBackendConfig;
use crate::common::{append_strings, clone_strings, contains_string, push_lit};
use crate::text::string_views;

verus! {

/// The recipe generator of the Bazel backend.
#[derive(Default, Clone)]
pub struct BazelGenerator {}

/// The parameters of the Bazel build script.
pub struct BuildScriptContext {
    pub source_dir: String,
    pub targets: Vec<String>,
    pub install_targets: Vec<String>,
    pub extra_args: Vec<String>,
    pub is_bash: bool,
}

pub open spec fn spec_bazel_default_globs() -> Seq<Seq<char>> {
    seq![
        "BUILD"@,
        "BUILD.bazel"@,
        "**/BUILD"@,
        "**/BUILD.bazel"@,
        "WORKSPACE"@,
        "WORKSPACE.bazel"@,
        "WORKSPACE.bzlmod"@,
        "MODULE.bazel"@,
        "MODULE.bazel.lock"@,
        "**/*.bzl"@,
        ".bazelrc"@,
        ".bazelversion"@,
    ]
}

impl BazelGenerator {
    /// The build requirements to add: `bazel` (conda-forge's ships Bazelisk,
    /// which honours a checked-in `.bazelversion`), unless the project's
    /// build dependencies already name it.
    pub fn build_requirements(&self, existing: &Vec<String>) -> (r: Vec<String>)
        ensures
            string_views(r@) == if string_views(existing@).contains("bazel"@) {
                Seq::<Seq<char>>::empty()
            } else {
                seq!["bazel"@]
            },
    {
        let mut r: Vec<String> = Vec::new();
        if !contains_string(existing, "bazel") {
            push_lit(&mut r, "bazel");
            assert(string_views(r@) =~= seq!["bazel"@]);
        } else {
            assert(string_views(r@) =~= Seq::<Seq<char>>::empty());
        }
        r
    }

    /// The build script's parameters for a source directory.
    pub fn build_script_context(
        &self,
        config: &BazelBackendConfig,
        source_dir: String,
        is_bash: bool,
    ) -> (r: BuildScriptContext)
        ensures
            r.source_dir == source_dir,
            string_views(r.targets@) == config@.targets,
            string_views(r.install_targets@) == config@.install_targets,
            string_views(r.extra_args@) == config@.extra_args,
            r.is_bash == is_bash,
    {
        BuildScriptContext {
            source_dir,
            targets: clone_strings(&config.targets),
            install_targets: clone_strings(&config.install_targets),
            extra_args: clone_strings(&config.extra_args),
            is_bash,
        }
    }

    /// The globs whose change triggers a rebuild: the BUILD, WORKSPACE and
    /// MODULE files, Starlark sources, Bazel's rc/version files, then the
    /// configured extras, in that order.
    pub fn extract_input_globs_from_build(&self, config: &BazelBackendConfig) -> (r: Vec<String>)
        ensures
            string_views(r@) == spec_bazel_default_globs() + config@.extra_input_globs,
    {
        let mut all: Vec<String> = Vec::new();
        push_lit(&mut all, "BUILD");
        push_lit(&mut all, "BUILD.bazel");
        push_lit(&mut all, "**/BUILD");
        push_lit(&mut all, "**/BUILD.bazel");
        push_lit(&mut all, "WORKSPACE");
        push_lit(&mut all, "WORKSPACE.bazel");
        push_lit(&mut all, "WORKSPACE.bzlmod");
        push_lit(&mut all, "MODULE.bazel");
        push_lit(&mut all, "MODULE.bazel.lock");
        push_lit(&mut all, "**/*.bzl");
        push_lit(&mut all, ".bazelrc");
        push_lit(&mut all, ".bazelversion");
        append_strings(&mut all, &config.extra_input_globs);
        assert(string_views(all@) =~= spec_bazel_default_globs() + config@.extra_input_globs);
        all
    }
}

} // verus!
