//! `[package.build.config]` of the Node.js backend and how a
//! target-specific configuration is merged into the base one.
use vstd::prelude::*;

use std::path::PathBuf;

use crate::common::{
    lemma_env_extend_takes_target, takes_target_env, takes_target_list, takes_target_opt,
    env_entries, env_extend_spec, env_new, keys_distinct,
    lemma_env_extend_self, merge_env, opt_path_clone, override_list, override_opt, pick_list,
    pick_opt_string, ConfigError, EnvMap,
};
use crate::text::{chars_eq_str, chars_of, string_views};

verus! {

/// The package manager used when none is configured.
pub fn default_package_manager() -> (s: String)
    ensures
        s@ == "npm"@,
{
    String::from_str("npm")
}

pub struct NodejsBackendConfig {
    /// The package manager to use: "npm" (default), "yarn", "pnpm", or "bun".
    pub package_manager: String,
    /// Extra arguments to pass to the install command.
    pub extra_install_args: Vec<String>,
    /// The name of the build script to run; if unset the backend runs the
    /// "build" script when package.json has one.
    pub build_script: Option<String>,
    /// Extra arguments to pass to the build command.
    pub extra_build_args: Vec<String>,
    /// The directory installed to `$PREFIX/share/$PKG_NAME` (relative to the
    /// source dir); if unset the whole project (without `node_modules`).
    pub build_output_dir: Option<String>,
    /// Additional asset directories to copy, as "source:dest" pairs.
    pub extra_assets: Vec<String>,
    /// The server entry point relative to the install directory; when set a
    /// launcher script is created at `$PREFIX/bin/$PKG_NAME`.
    pub server_entry: Option<String>,
    /// Environment variables to set during the build.
    pub env: EnvMap,
    /// Extra input globs to watch in addition to the defaults.
    pub extra_input_globs: Vec<String>,
    /// Deprecated. Setting this has no effect.
    pub debug_dir: Option<PathBuf>,
}

pub struct NodejsBackendConfigView {
    pub package_manager: Seq<char>,
    pub extra_install_args: Seq<Seq<char>>,
    pub build_script: Option<Seq<char>>,
    pub extra_build_args: Seq<Seq<char>>,
    pub build_output_dir: Option<Seq<char>>,
    pub extra_assets: Seq<Seq<char>>,
    pub server_entry: Option<Seq<char>>,
    pub env: Seq<(Seq<char>, Seq<char>)>,
    pub extra_input_globs: Seq<Seq<char>>,
    pub debug_dir: Option<PathBuf>,
}

impl View for NodejsBackendConfig {
    type V = NodejsBackendConfigView;

    open spec fn view(&self) -> NodejsBackendConfigView {
        NodejsBackendConfigView {
            package_manager: self.package_manager@,
            extra_install_args: string_views(self.extra_install_args@),
            build_script: self.build_script.deep_view(),
            extra_build_args: string_views(self.extra_build_args@),
            build_output_dir: self.build_output_dir.deep_view(),
            extra_assets: string_views(self.extra_assets@),
            server_entry: self.server_entry.deep_view(),
            env: env_entries(self.env),
            extra_input_globs: string_views(self.extra_input_globs@),
            debug_dir: self.debug_dir,
        }
    }
}

pub open spec fn spec_default_nodejs_config() -> NodejsBackendConfigView {
    NodejsBackendConfigView {
        package_manager: "npm"@,
        extra_install_args: Seq::empty(),
        build_script: None,
        extra_build_args: Seq::empty(),
        build_output_dir: None,
        extra_assets: Seq::empty(),
        server_entry: None,
        env: Seq::empty(),
        extra_input_globs: Seq::empty(),
        debug_dir: None,
    }
}

/// The target's package manager wins when it is not the default `npm`; a
/// non-empty target list or a set target option wins; the environments are
/// combined with the target's entries taking precedence; the target may not
/// set `debug_dir`.
pub open spec fn spec_merge_nodejs(
    base: NodejsBackendConfigView,
    target: NodejsBackendConfigView,
) -> Result<NodejsBackendConfigView, ConfigError> {
    if target.debug_dir is Some {
        Err(ConfigError::TargetDebugDir)
    } else {
        Ok(
            NodejsBackendConfigView {
                package_manager: if target.package_manager != "npm"@ {
                    target.package_manager
                } else {
                    base.package_manager
                },
                extra_install_args: override_list(
                    base.extra_install_args,
                    target.extra_install_args,
                ),
                build_script: override_opt(base.build_script, target.build_script),
                extra_build_args: override_list(base.extra_build_args, target.extra_build_args),
                build_output_dir: override_opt(base.build_output_dir, target.build_output_dir),
                extra_assets: override_list(base.extra_assets, target.extra_assets),
                server_entry: override_opt(base.server_entry, target.server_entry),
                env: env_extend_spec(base.env, target.env),
                extra_input_globs: override_list(base.extra_input_globs, target.extra_input_globs),
                debug_dir: base.debug_dir,
            },
        )
    }
}

impl Default for NodejsBackendConfig {
    fn default() -> (r: Self)
        ensures
            r@ == spec_default_nodejs_config(),
    {
        let r = NodejsBackendConfig {
            package_manager: default_package_manager(),
            extra_install_args: Vec::new(),
            build_script: None,
            extra_build_args: Vec::new(),
            build_output_dir: None,
            extra_assets: Vec::new(),
            server_entry: None,
            env: env_new(),
            extra_input_globs: Vec::new(),
            debug_dir: None,
        };
        assert(r@.extra_install_args =~= Seq::empty());
        assert(r@.extra_build_args =~= Seq::empty());
        assert(r@.extra_assets =~= Seq::empty());
        assert(r@.extra_input_globs =~= Seq::empty());
        r
    }
}

impl NodejsBackendConfig {
    /// Merge `target_config` (a target-specific section) into `self`.
    pub fn merge_with_target_config(&self, target_config: &Self) -> (r: Result<Self, ConfigError>)
        ensures
            r matches Ok(c) ==> spec_merge_nodejs(self@, target_config@) == Ok::<
                NodejsBackendConfigView,
                ConfigError,
            >(c@),
            r matches Err(e) ==> spec_merge_nodejs(self@, target_config@) == Err::<
                NodejsBackendConfigView,
                ConfigError,
            >(e),
    {
        if target_config.debug_dir.is_some() {
            return Err(ConfigError::TargetDebugDir);
        }
        let target_pm = chars_of(target_config.package_manager.as_str());
        // Use the target's package manager if it explicitly differs from the default.
        let package_manager = if !chars_eq_str(target_pm.as_slice(), "npm") {
            target_config.package_manager.clone()
        } else {
            self.package_manager.clone()
        };
        Ok(
            NodejsBackendConfig {
                package_manager,
                extra_install_args: pick_list(
                    &self.extra_install_args,
                    &target_config.extra_install_args,
                ),
                build_script: pick_opt_string(&self.build_script, &target_config.build_script),
                extra_build_args: pick_list(&self.extra_build_args, &target_config.extra_build_args),
                build_output_dir: pick_opt_string(
                    &self.build_output_dir,
                    &target_config.build_output_dir,
                ),
                extra_assets: pick_list(&self.extra_assets, &target_config.extra_assets),
                server_entry: pick_opt_string(&self.server_entry, &target_config.server_entry),
                env: merge_env(&self.env, &target_config.env),
                extra_input_globs: pick_list(
                    &self.extra_input_globs,
                    &target_config.extra_input_globs,
                ),
                debug_dir: opt_path_clone(&self.debug_dir),
            },
        )
    }
}

/// Merging a target section that sets nothing leaves the base configuration
/// as it was.
pub proof fn lemma_nodejs_merge_default_target(base: NodejsBackendConfigView)
    ensures
        spec_merge_nodejs(base, spec_default_nodejs_config()) == Ok::<
            NodejsBackendConfigView,
            ConfigError,
        >(base),
{
    assert(env_extend_spec(base.env, Seq::empty()) == base.env);
}

/// Merging a configuration (without `debug_dir`) with itself leaves it as
/// it was.
pub proof fn lemma_nodejs_merge_idempotent(c: NodejsBackendConfigView)
    requires
        c.debug_dir is None,
        keys_distinct(c.env),
    ensures
        spec_merge_nodejs(c, c) == Ok::<NodejsBackendConfigView, ConfigError>(c),
{
    assert(c.env.take(c.env.len() as int) =~= c.env);
    lemma_env_extend_self(c.env, c.env);
}

/// What a merge gives, field by field: the target may not set `debug_dir`;
/// otherwise a list the target sets (non-empty) replaces the base one, an
/// option the target sets replaces the base one, and in the environment the
/// target's variables win over the base's.
pub proof fn lemma_nodejs_merge_target_wins(base: NodejsBackendConfigView, target: NodejsBackendConfigView)
    ensures
        spec_merge_nodejs(base, target) is Err <==> target.debug_dir is Some,
        spec_merge_nodejs(base, target) matches Ok(m) ==> {
            &&& (target.package_manager != "npm"@ ==> m.package_manager == target.package_manager)
            &&& (target.package_manager == "npm"@ ==> m.package_manager == base.package_manager)
            &&& takes_target_list(m.extra_install_args, base.extra_install_args, target.extra_install_args)
            &&& takes_target_opt(m.build_script, base.build_script, target.build_script)
            &&& takes_target_list(m.extra_build_args, base.extra_build_args, target.extra_build_args)
            &&& takes_target_opt(m.build_output_dir, base.build_output_dir, target.build_output_dir)
            &&& takes_target_list(m.extra_assets, base.extra_assets, target.extra_assets)
            &&& takes_target_opt(m.server_entry, base.server_entry, target.server_entry)
            &&& takes_target_list(m.extra_input_globs, base.extra_input_globs, target.extra_input_globs)
            &&& takes_target_env(m.env, base.env, target.env)
            &&& m.debug_dir == base.debug_dir
        },
{
    lemma_env_extend_takes_target(base.env, target.env);
}

} // verus!
