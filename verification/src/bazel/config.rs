//! `[package.build.config]` of the Bazel backend and how a target-specific
//! configuration is merged into the base one.
use vstd::prelude::*;

use std::path::PathBuf;

use crate::common::{
    lemma_env_extend_takes_target, takes_target_env, takes_target_list,
    env_entries, env_extend_spec, env_new, is_single, keys_distinct, lemma_env_extend_self,
    merge_env, opt_path_clone, override_list, pick_list, single, clone_strings, ConfigError, EnvMap,
};
use crate::text::string_views;

verus! {

pub struct BazelBackendConfig {
    /// Bazel targets to build (default: `["//..."]`).
    pub targets: Vec<String>,
    /// Targets whose output files (binaries) are installed into `$PREFIX/bin`.
    pub install_targets: Vec<String>,
    /// Extra arguments passed to `bazel build` / `bazel cquery`.
    pub extra_args: Vec<String>,
    /// Environment variables to set during the build.
    pub env: EnvMap,
    /// Deprecated. Setting this has no effect.
    pub debug_dir: Option<PathBuf>,
    /// Extra input globs to include in addition to the default ones.
    pub extra_input_globs: Vec<String>,
}

pub struct BazelBackendConfigView {
    pub targets: Seq<Seq<char>>,
    pub install_targets: Seq<Seq<char>>,
    pub extra_args: Seq<Seq<char>>,
    pub env: Seq<(Seq<char>, Seq<char>)>,
    pub debug_dir: Option<PathBuf>,
    pub extra_input_globs: Seq<Seq<char>>,
}

impl View for BazelBackendConfig {
    type V = BazelBackendConfigView;

    open spec fn view(&self) -> BazelBackendConfigView {
        BazelBackendConfigView {
            targets: string_views(self.targets@),
            install_targets: string_views(self.install_targets@),
            extra_args: string_views(self.extra_args@),
            env: env_entries(self.env),
            debug_dir: self.debug_dir,
            extra_input_globs: string_views(self.extra_input_globs@),
        }
    }
}

pub open spec fn spec_default_targets() -> Seq<Seq<char>> {
    seq!["//..."@]
}

/// The targets built when none are configured: everything (`//...`).
pub fn default_targets() -> (r: Vec<String>)
    ensures
        string_views(r@) == spec_default_targets(),
{
    single("//...")
}

pub open spec fn spec_default_bazel_config() -> BazelBackendConfigView {
    BazelBackendConfigView {
        targets: spec_default_targets(),
        install_targets: Seq::empty(),
        extra_args: Seq::empty(),
        env: Seq::empty(),
        debug_dir: None,
        extra_input_globs: Seq::empty(),
    }
}

/// The target's `targets` win unless they are the default ones; a non-empty
/// target list wins; the environments are combined with the target's
/// entries taking precedence; the target may not set `debug_dir`.
pub open spec fn spec_merge_bazel(
    base: BazelBackendConfigView,
    target: BazelBackendConfigView,
) -> Result<BazelBackendConfigView, ConfigError> {
    if target.debug_dir is Some {
        Err(ConfigError::TargetDebugDir)
    } else {
        Ok(
            BazelBackendConfigView {
                targets: if target.targets == spec_default_targets() {
                    base.targets
                } else {
                    target.targets
                },
                install_targets: override_list(base.install_targets, target.install_targets),
                extra_args: override_list(base.extra_args, target.extra_args),
                env: env_extend_spec(base.env, target.env),
                debug_dir: base.debug_dir,
                extra_input_globs: override_list(base.extra_input_globs, target.extra_input_globs),
            },
        )
    }
}

impl Default for BazelBackendConfig {
    fn default() -> (r: Self)
        ensures
            r@ == spec_default_bazel_config(),
    {
        let r = BazelBackendConfig {
            targets: default_targets(),
            install_targets: Vec::new(),
            extra_args: Vec::new(),
            env: env_new(),
            debug_dir: None,
            extra_input_globs: Vec::new(),
        };
        assert(r@.install_targets =~= Seq::empty());
        assert(r@.extra_args =~= Seq::empty());
        assert(r@.extra_input_globs =~= Seq::empty());
        r
    }
}

impl BazelBackendConfig {
    /// Merge `target_config` (a target-specific section) into `self`.
    pub fn merge_with_target_config(&self, target_config: &Self) -> (r: Result<Self, ConfigError>)
        ensures
            r matches Ok(c) ==> spec_merge_bazel(self@, target_config@) == Ok::<
                BazelBackendConfigView,
                ConfigError,
            >(c@),
            r matches Err(e) ==> spec_merge_bazel(self@, target_config@) == Err::<
                BazelBackendConfigView,
                ConfigError,
            >(e),
    {
        if target_config.debug_dir.is_some() {
            return Err(ConfigError::TargetDebugDir);
        }
        let targets = if is_single(&target_config.targets, "//...") {
            clone_strings(&self.targets)
        } else {
            clone_strings(&target_config.targets)
        };
        Ok(
            BazelBackendConfig {
                targets,
                install_targets: pick_list(&self.install_targets, &target_config.install_targets),
                extra_args: pick_list(&self.extra_args, &target_config.extra_args),
                env: merge_env(&self.env, &target_config.env),
                debug_dir: opt_path_clone(&self.debug_dir),
                extra_input_globs: pick_list(
                    &self.extra_input_globs,
                    &target_config.extra_input_globs,
                ),
            },
        )
    }
}

/// Merging a target section that sets nothing leaves the base configuration
/// as it was.
pub proof fn lemma_bazel_merge_default_target(base: BazelBackendConfigView)
    ensures
        spec_merge_bazel(base, spec_default_bazel_config()) == Ok::<
            BazelBackendConfigView,
            ConfigError,
        >(base),
{
    assert(env_extend_spec(base.env, Seq::empty()) == base.env);
}

/// Merging a configuration (without `debug_dir`) with itself leaves it as
/// it was.
pub proof fn lemma_bazel_merge_idempotent(c: BazelBackendConfigView)
    requires
        c.debug_dir is None,
        keys_distinct(c.env),
    ensures
        spec_merge_bazel(c, c) == Ok::<BazelBackendConfigView, ConfigError>(c),
{
    assert(c.env.take(c.env.len() as int) =~= c.env);
    lemma_env_extend_self(c.env, c.env);
}

/// What a merge gives, field by field: the target may not set `debug_dir`;
/// otherwise a list the target sets (non-empty) replaces the base one, an
/// option the target sets replaces the base one, and in the environment the
/// target's variables win over the base's.
pub proof fn lemma_bazel_merge_target_wins(base: BazelBackendConfigView, target: BazelBackendConfigView)
    ensures
        spec_merge_bazel(base, target) is Err <==> target.debug_dir is Some,
        spec_merge_bazel(base, target) matches Ok(m) ==> {
            &&& (target.targets == seq!["//..."@] ==> m.targets == base.targets)
            &&& (target.targets != seq!["//..."@] ==> m.targets == target.targets)
            &&& takes_target_list(m.install_targets, base.install_targets, target.install_targets)
            &&& takes_target_list(m.extra_args, base.extra_args, target.extra_args)
            &&& takes_target_list(m.extra_input_globs, base.extra_input_globs, target.extra_input_globs)
            &&& takes_target_env(m.env, base.env, target.env)
            &&& m.debug_dir == base.debug_dir
        },
{
    reveal_strlit("//...");
    lemma_env_extend_takes_target(base.env, target.env);
}

} // verus!
