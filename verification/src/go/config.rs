//! `[package.build.config]` of the Go backend and how a target-specific
//! configuration is merged into the base one.
use vstd::prelude::*;

use std::path::PathBuf;

use crate::common::{
    lemma_env_extend_takes_target, takes_target_env, takes_target_list, takes_target_opt,
    env_entries, env_extend_spec, env_new, keys_distinct, lemma_env_extend_self, merge_env,
    opt_path_clone, opt_string_views, override_list, override_opt, pick_list, pick_opt_strings,
    ConfigError, EnvMap,
};
use crate::text::string_views;

verus! {

pub struct GoBackendConfig {
    /// Whether to use CGO (default: false, uses the go-nocgo compiler).
    /// When true, uses go-cgo and adds a C compiler to the build requirements.
    pub cgo_enabled: bool,
    /// Whether to collect licenses from Go dependencies using go-licenses.
    pub collect_licenses: bool,
    /// Extra args to pass to `go install`.
    pub extra_args: Vec<String>,
    /// Environment variables.
    pub env: EnvMap,
    /// Deprecated. Setting this has no effect; debug data is always written to
    /// the `debug` subdirectory of the work directory.
    pub debug_dir: Option<PathBuf>,
    /// Extra input globs to include in addition to the default ones.
    pub extra_input_globs: Vec<String>,
    /// Additional compilers (e.g. `["c", "cxx"]`); the Go compiler is always added.
    pub compilers: Option<Vec<String>>,
}

pub struct GoBackendConfigView {
    pub cgo_enabled: bool,
    pub collect_licenses: bool,
    pub extra_args: Seq<Seq<char>>,
    pub env: Seq<(Seq<char>, Seq<char>)>,
    pub debug_dir: Option<PathBuf>,
    pub extra_input_globs: Seq<Seq<char>>,
    pub compilers: Option<Seq<Seq<char>>>,
}

impl View for GoBackendConfig {
    type V = GoBackendConfigView;

    open spec fn view(&self) -> GoBackendConfigView {
        GoBackendConfigView {
            cgo_enabled: self.cgo_enabled,
            collect_licenses: self.collect_licenses,
            extra_args: string_views(self.extra_args@),
            env: env_entries(self.env),
            debug_dir: self.debug_dir,
            extra_input_globs: string_views(self.extra_input_globs@),
            compilers: opt_string_views(self.compilers),
        }
    }
}

/// The configuration every field of which is left unset.
pub open spec fn spec_default_go_config() -> GoBackendConfigView {
    GoBackendConfigView {
        cgo_enabled: false,
        collect_licenses: false,
        extra_args: Seq::empty(),
        env: Seq::empty(),
        debug_dir: None,
        extra_input_globs: Seq::empty(),
        compilers: None,
    }
}

/// Merging a target-specific configuration into the base one: flags are
/// or-ed, a non-empty target list or a set target option wins, the
/// environments are combined with the target's entries taking precedence,
/// and the target may not set `debug_dir`.
pub open spec fn spec_merge_go(base: GoBackendConfigView, target: GoBackendConfigView) -> Result<
    GoBackendConfigView,
    ConfigError,
> {
    if target.debug_dir is Some {
        Err(ConfigError::TargetDebugDir)
    } else {
        Ok(
            GoBackendConfigView {
                cgo_enabled: target.cgo_enabled || base.cgo_enabled,
                collect_licenses: target.collect_licenses || base.collect_licenses,
                extra_args: override_list(base.extra_args, target.extra_args),
                env: env_extend_spec(base.env, target.env),
                debug_dir: base.debug_dir,
                extra_input_globs: override_list(base.extra_input_globs, target.extra_input_globs),
                compilers: override_opt(base.compilers, target.compilers),
            },
        )
    }
}

impl Default for GoBackendConfig {
    fn default() -> (r: Self)
        ensures
            r@ == spec_default_go_config(),
    {
        let r = GoBackendConfig {
            cgo_enabled: false,
            collect_licenses: false,
            extra_args: Vec::new(),
            env: env_new(),
            debug_dir: None,
            extra_input_globs: Vec::new(),
            compilers: None,
        };
        assert(r@.extra_args =~= Seq::empty());
        assert(r@.extra_input_globs =~= Seq::empty());
        r
    }
}

impl GoBackendConfig {
    /// Merge `target_config` (a target-specific section) into `self`.
    pub fn merge_with_target_config(&self, target_config: &Self) -> (r: Result<Self, ConfigError>)
        ensures
            r matches Ok(c) ==> spec_merge_go(self@, target_config@) == Ok::<
                GoBackendConfigView,
                ConfigError,
            >(c@),
            r matches Err(e) ==> spec_merge_go(self@, target_config@) == Err::<
                GoBackendConfigView,
                ConfigError,
            >(e),
    {
        if target_config.debug_dir.is_some() {
            return Err(ConfigError::TargetDebugDir);
        }
        let merged = GoBackendConfig {
            cgo_enabled: target_config.cgo_enabled || self.cgo_enabled,
            collect_licenses: target_config.collect_licenses || self.collect_licenses,
            extra_args: pick_list(&self.extra_args, &target_config.extra_args),
            env: merge_env(&self.env, &target_config.env),
            debug_dir: opt_path_clone(&self.debug_dir),
            extra_input_globs: pick_list(&self.extra_input_globs, &target_config.extra_input_globs),
            compilers: pick_opt_strings(&self.compilers, &target_config.compilers),
        };
        Ok(merged)
    }
}

/// Merging a target section that sets nothing leaves the base configuration
/// as it was.
pub proof fn lemma_go_merge_default_target(base: GoBackendConfigView)
    ensures
        spec_merge_go(base, spec_default_go_config()) == Ok::<GoBackendConfigView, ConfigError>(
            base,
        ),
{
    assert(env_extend_spec(base.env, Seq::empty()) == base.env);
}

/// Merging a configuration (without `debug_dir`) with itself leaves it as
/// it was.
pub proof fn lemma_go_merge_idempotent(c: GoBackendConfigView)
    requires
        c.debug_dir is None,
        keys_distinct(c.env),
    ensures
        spec_merge_go(c, c) == Ok::<GoBackendConfigView, ConfigError>(c),
{
    assert(c.env.take(c.env.len() as int) =~= c.env);
    lemma_env_extend_self(c.env, c.env);
}

/// What a merge gives, field by field: the target may not set `debug_dir`;
/// otherwise a list the target sets (non-empty) replaces the base one, an
/// option the target sets replaces the base one, and in the environment the
/// target's variables win over the base's.
pub proof fn lemma_go_merge_target_wins(base: GoBackendConfigView, target: GoBackendConfigView)
    ensures
        spec_merge_go(base, target) is Err <==> target.debug_dir is Some,
        spec_merge_go(base, target) matches Ok(m) ==> {
            &&& m.cgo_enabled == (base.cgo_enabled || target.cgo_enabled)
            &&& m.collect_licenses == (base.collect_licenses || target.collect_licenses)
            &&& takes_target_list(m.extra_args, base.extra_args, target.extra_args)
            &&& takes_target_list(m.extra_input_globs, base.extra_input_globs, target.extra_input_globs)
            &&& takes_target_opt(m.compilers, base.compilers, target.compilers)
            &&& takes_target_env(m.env, base.env, target.env)
            &&& m.debug_dir == base.debug_dir
        },
{
    lemma_env_extend_takes_target(base.env, target.env);
}

} // verus!
