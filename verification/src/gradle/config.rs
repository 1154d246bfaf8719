//! `[package.build.config]` of the Gradle backend and how a target-specific
//! configuration is merged into the base one.
use vstd::prelude::*;

use std::path::PathBuf;

use crate::common::{
    lemma_env_extend_takes_target, takes_target_env, takes_target_list,
    clone_strings, env_entries, env_extend_spec, env_new, is_single, keys_distinct,
    lemma_env_extend_self, merge_env, opt_path_clone, override_list, pick_list, single,
    ConfigError, EnvMap,
};
use crate::text::string_views;

verus! {

pub struct GradleBackendConfig {
    /// Gradle tasks to run (default: `["installDist"]`).
    pub tasks: Vec<String>,
    /// Extra arguments to pass to gradlew / gradle.
    pub extra_args: Vec<String>,
    /// Environment variables to set during the build.
    pub env: EnvMap,
    /// Use the Gradle wrapper (`./gradlew`) instead of a system gradle.
    /// Default: true.
    pub use_wrapper: bool,
    /// Deprecated. Setting this has no effect.
    pub debug_dir: Option<PathBuf>,
    /// Extra input globs to include in addition to the default ones.
    pub extra_input_globs: Vec<String>,
}

pub struct GradleBackendConfigView {
    pub tasks: Seq<Seq<char>>,
    pub extra_args: Seq<Seq<char>>,
    pub env: Seq<(Seq<char>, Seq<char>)>,
    pub use_wrapper: bool,
    pub debug_dir: Option<PathBuf>,
    pub extra_input_globs: Seq<Seq<char>>,
}

impl View for GradleBackendConfig {
    type V = GradleBackendConfigView;

    open spec fn view(&self) -> GradleBackendConfigView {
        GradleBackendConfigView {
            tasks: string_views(self.tasks@),
            extra_args: string_views(self.extra_args@),
            env: env_entries(self.env),
            use_wrapper: self.use_wrapper,
            debug_dir: self.debug_dir,
            extra_input_globs: string_views(self.extra_input_globs@),
        }
    }
}

pub open spec fn spec_default_tasks() -> Seq<Seq<char>> {
    seq!["installDist"@]
}

/// The tasks run when none are configured: `installDist`.
pub fn default_tasks() -> (r: Vec<String>)
    ensures
        string_views(r@) == spec_default_tasks(),
{
    single("installDist")
}

/// Serde's default for `use-wrapper`.
pub fn default_true() -> (b: bool)
    ensures
        b,
{
    true
}

pub open spec fn spec_default_gradle_config() -> GradleBackendConfigView {
    GradleBackendConfigView {
        tasks: spec_default_tasks(),
        extra_args: Seq::empty(),
        env: Seq::empty(),
        use_wrapper: true,
        debug_dir: None,
        extra_input_globs: Seq::empty(),
    }
}

/// The target's tasks win unless they are the default ones; a non-empty
/// target list wins; `use_wrapper` is always the target's; the environments
/// are combined with the target's entries taking precedence; the target may
/// not set `debug_dir`.
pub open spec fn spec_merge_gradle(
    base: GradleBackendConfigView,
    target: GradleBackendConfigView,
) -> Result<GradleBackendConfigView, ConfigError> {
    if target.debug_dir is Some {
        Err(ConfigError::TargetDebugDir)
    } else {
        Ok(
            GradleBackendConfigView {
                tasks: if target.tasks == spec_default_tasks() {
                    base.tasks
                } else {
                    target.tasks
                },
                extra_args: override_list(base.extra_args, target.extra_args),
                env: env_extend_spec(base.env, target.env),
                use_wrapper: target.use_wrapper,
                debug_dir: base.debug_dir,
                extra_input_globs: override_list(base.extra_input_globs, target.extra_input_globs),
            },
        )
    }
}

impl Default for GradleBackendConfig {
    fn default() -> (r: Self)
        ensures
            r@ == spec_default_gradle_config(),
    {
        let r = GradleBackendConfig {
            tasks: default_tasks(),
            extra_args: Vec::new(),
            env: env_new(),
            use_wrapper: true,
            debug_dir: None,
            extra_input_globs: Vec::new(),
        };
        assert(r@.extra_args =~= Seq::empty());
        assert(r@.extra_input_globs =~= Seq::empty());
        r
    }
}

impl GradleBackendConfig {
    /// Merge `target_config` (a target-specific section) into `self`.
    pub fn merge_with_target_config(&self, target_config: &Self) -> (r: Result<Self, ConfigError>)
        ensures
            r matches Ok(c) ==> spec_merge_gradle(self@, target_config@) == Ok::<
                GradleBackendConfigView,
                ConfigError,
            >(c@),
            r matches Err(e) ==> spec_merge_gradle(self@, target_config@) == Err::<
                GradleBackendConfigView,
                ConfigError,
            >(e),
    {
        if target_config.debug_dir.is_some() {
            return Err(ConfigError::TargetDebugDir);
        }
        let tasks = if is_single(&target_config.tasks, "installDist") {
            clone_strings(&self.tasks)
        } else {
            clone_strings(&target_config.tasks)
        };
        Ok(
            GradleBackendConfig {
                tasks,
                extra_args: pick_list(&self.extra_args, &target_config.extra_args),
                env: merge_env(&self.env, &target_config.env),
                use_wrapper: target_config.use_wrapper,
                debug_dir: opt_path_clone(&self.debug_dir),
                extra_input_globs: pick_list(
                    &self.extra_input_globs,
                    &target_config.extra_input_globs,
                ),
            },
        )
    }
}

/// Merging a target section that sets nothing leaves the base configuration
/// as it was, provided the base keeps the default `use_wrapper = true` (a
/// target always decides `use_wrapper`).
pub proof fn lemma_gradle_merge_default_target(base: GradleBackendConfigView)
    requires
        base.use_wrapper,
    ensures
        spec_merge_gradle(base, spec_default_gradle_config()) == Ok::<
            GradleBackendConfigView,
            ConfigError,
        >(base),
{
    assert(env_extend_spec(base.env, Seq::empty()) == base.env);
}

/// Merging a configuration (without `debug_dir`) with itself leaves it as
/// it was.
pub proof fn lemma_gradle_merge_idempotent(c: GradleBackendConfigView)
    requires
        c.debug_dir is None,
        keys_distinct(c.env),
    ensures
        spec_merge_gradle(c, c) == Ok::<GradleBackendConfigView, ConfigError>(c),
{
    assert(c.env.take(c.env.len() as int) =~= c.env);
    lemma_env_extend_self(c.env, c.env);
}

/// What a merge gives, field by field: the target may not set `debug_dir`;
/// otherwise a list the target sets (non-empty) replaces the base one, an
/// option the target sets replaces the base one, and in the environment the
/// target's variables win over the base's.
pub proof fn lemma_gradle_merge_target_wins(base: GradleBackendConfigView, target: GradleBackendConfigView)
    ensures
        spec_merge_gradle(base, target) is Err <==> target.debug_dir is Some,
        spec_merge_gradle(base, target) matches Ok(m) ==> {
            &&& (target.tasks == seq!["installDist"@] ==> m.tasks == base.tasks)
            &&& (target.tasks != seq!["installDist"@] ==> m.tasks == target.tasks)
            &&& takes_target_list(m.extra_args, base.extra_args, target.extra_args)
            &&& m.use_wrapper == target.use_wrapper
            &&& takes_target_list(m.extra_input_globs, base.extra_input_globs, target.extra_input_globs)
            &&& takes_target_env(m.env, base.env, target.env)
            &&& m.debug_dir == base.debug_dir
        },
{
    reveal_strlit("installDist");
    lemma_env_extend_takes_target(base.env, target.env);
}

} // verus!
