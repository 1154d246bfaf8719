//! `[package.build.config]` of the Autotools backend and how a
//! target-specific configuration is merged into the base one.
use vstd::prelude::*;

use std::path::PathBuf;

use crate::common::{
    lemma_env_extend_takes_target, takes_target_env, takes_target_list, takes_target_opt,
    env_entries, env_extend_spec, env_new, keys_distinct, lemma_env_extend_self, merge_env,
    opt_path_clone, opt_string_views, override_list, override_opt, pick_list, pick_opt_strings,
    ConfigError, EnvMap,
};
use crate::text::string_views;

verus! {

pub struct AutotoolsBackendConfig {
    /// Run `autoreconf` before `configure`.
    pub autoreconf: bool,
    /// Extra arguments passed to `configure`.
    pub extra_configure_args: Vec<String>,
    /// Extra arguments passed to `make`.
    pub extra_make_args: Vec<String>,
    /// Environment variables to set during the build.
    pub env: EnvMap,
    /// Compilers to use (e.g. `["c"]`, `["c", "cxx"]`); defaults to `["cxx"]`.
    pub compilers: Option<Vec<String>>,
    /// Deprecated. Setting this has no effect.
    pub debug_dir: Option<PathBuf>,
    /// Extra input globs to include in addition to the default ones.
    pub extra_input_globs: Vec<String>,
}

pub struct AutotoolsBackendConfigView {
    pub autoreconf: bool,
    pub extra_configure_args: Seq<Seq<char>>,
    pub extra_make_args: Seq<Seq<char>>,
    pub env: Seq<(Seq<char>, Seq<char>)>,
    pub compilers: Option<Seq<Seq<char>>>,
    pub debug_dir: Option<PathBuf>,
    pub extra_input_globs: Seq<Seq<char>>,
}

impl View for AutotoolsBackendConfig {
    type V = AutotoolsBackendConfigView;

    open spec fn view(&self) -> AutotoolsBackendConfigView {
        AutotoolsBackendConfigView {
            autoreconf: self.autoreconf,
            extra_configure_args: string_views(self.extra_configure_args@),
            extra_make_args: string_views(self.extra_make_args@),
            env: env_entries(self.env),
            compilers: opt_string_views(self.compilers),
            debug_dir: self.debug_dir,
            extra_input_globs: string_views(self.extra_input_globs@),
        }
    }
}

pub open spec fn spec_default_autotools_config() -> AutotoolsBackendConfigView {
    AutotoolsBackendConfigView {
        autoreconf: false,
        extra_configure_args: Seq::empty(),
        extra_make_args: Seq::empty(),
        env: Seq::empty(),
        compilers: None,
        debug_dir: None,
        extra_input_globs: Seq::empty(),
    }
}

/// `autoreconf` is on when either side turns it on, a non-empty target list
/// or a set target option wins, the environments are combined with the
/// target's entries taking precedence, and the target may not set
/// `debug_dir`.
pub open spec fn spec_merge_autotools(
    base: AutotoolsBackendConfigView,
    target: AutotoolsBackendConfigView,
) -> Result<AutotoolsBackendConfigView, ConfigError> {
    if target.debug_dir is Some {
        Err(ConfigError::TargetDebugDir)
    } else {
        Ok(
            AutotoolsBackendConfigView {
                autoreconf: target.autoreconf || base.autoreconf,
                extra_configure_args: override_list(
                    base.extra_configure_args,
                    target.extra_configure_args,
                ),
                extra_make_args: override_list(base.extra_make_args, target.extra_make_args),
                env: env_extend_spec(base.env, target.env),
                compilers: override_opt(base.compilers, target.compilers),
                debug_dir: base.debug_dir,
                extra_input_globs: override_list(base.extra_input_globs, target.extra_input_globs),
            },
        )
    }
}

impl Default for AutotoolsBackendConfig {
    fn default() -> (r: Self)
        ensures
            r@ == spec_default_autotools_config(),
    {
        let r = AutotoolsBackendConfig {
            autoreconf: false,
            extra_configure_args: Vec::new(),
            extra_make_args: Vec::new(),
            env: env_new(),
            compilers: None,
            debug_dir: None,
            extra_input_globs: Vec::new(),
        };
        assert(r@.extra_configure_args =~= Seq::empty());
        assert(r@.extra_make_args =~= Seq::empty());
        assert(r@.extra_input_globs =~= Seq::empty());
        r
    }
}

impl AutotoolsBackendConfig {
    /// Merge `target_config` (a target-specific section) into `self`.
    pub fn merge_with_target_config(&self, target_config: &Self) -> (r: Result<Self, ConfigError>)
        ensures
            r matches Ok(c) ==> spec_merge_autotools(self@, target_config@) == Ok::<
                AutotoolsBackendConfigView,
                ConfigError,
            >(c@),
            r matches Err(e) ==> spec_merge_autotools(self@, target_config@) == Err::<
                AutotoolsBackendConfigView,
                ConfigError,
            >(e),
    {
        if target_config.debug_dir.is_some() {
            return Err(ConfigError::TargetDebugDir);
        }
        Ok(
            AutotoolsBackendConfig {
                autoreconf: target_config.autoreconf || self.autoreconf,
                extra_configure_args: pick_list(
                    &self.extra_configure_args,
                    &target_config.extra_configure_args,
                ),
                extra_make_args: pick_list(&self.extra_make_args, &target_config.extra_make_args),
                env: merge_env(&self.env, &target_config.env),
                compilers: pick_opt_strings(&self.compilers, &target_config.compilers),
                debug_dir: opt_path_clone(&self.debug_dir),
                extra_input_globs: pick_list(
                    &self.extra_input_globs,
                    &target_config.extra_input_globs,
                ),
            },
        )
    }
}

/// Merging a target section that sets nothing leaves the base configuration
/// as it was.
pub proof fn lemma_autotools_merge_default_target(base: AutotoolsBackendConfigView)
    ensures
        spec_merge_autotools(base, spec_default_autotools_config()) == Ok::<
            AutotoolsBackendConfigView,
            ConfigError,
        >(base),
{
    assert(env_extend_spec(base.env, Seq::empty()) == base.env);
}

/// Merging a configuration (without `debug_dir`) with itself leaves it as
/// it was.
pub proof fn lemma_autotools_merge_idempotent(c: AutotoolsBackendConfigView)
    requires
        c.debug_dir is None,
        keys_distinct(c.env),
    ensures
        spec_merge_autotools(c, c) == Ok::<AutotoolsBackendConfigView, ConfigError>(c),
{
    assert(c.env.take(c.env.len() as int) =~= c.env);
    lemma_env_extend_self(c.env, c.env);
}

/// What a merge gives, field by field: the target may not set `debug_dir`;
/// otherwise a list the target sets (non-empty) replaces the base one, an
/// option the target sets replaces the base one, and in the environment the
/// target's variables win over the base's.
pub proof fn lemma_autotools_merge_target_wins(base: AutotoolsBackendConfigView, target: AutotoolsBackendConfigView)
    ensures
        spec_merge_autotools(base, target) is Err <==> target.debug_dir is Some,
        spec_merge_autotools(base, target) matches Ok(m) ==> {
            &&& m.autoreconf == (base.autoreconf || target.autoreconf)
            &&& takes_target_list(m.extra_configure_args, base.extra_configure_args, target.extra_configure_args)
            &&& takes_target_list(m.extra_make_args, base.extra_make_args, target.extra_make_args)
            &&& takes_target_opt(m.compilers, base.compilers, target.compilers)
            &&& takes_target_list(m.extra_input_globs, base.extra_input_globs, target.extra_input_globs)
            &&& takes_target_env(m.env, base.env, target.env)
            &&& m.debug_dir == base.debug_dir
        },
{
    lemma_env_extend_takes_target(base.env, target.env);
}

} // verus!
