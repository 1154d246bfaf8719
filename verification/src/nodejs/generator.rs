//! What the Node.js backend puts into a recipe: build requirements, the
//! build script's parameters and input globs.
use vstd::prelude::*;

use crate::common::{lemma_concat_contains, append_strings, clone_strings, clone_opt_string, contains_string, push_lit};
use crate::nodejs::build_script::{parse_asset_pair, spec_asset_pair, AssetPair, BuildScriptContext};
use crate::nodejs::config::NodejsBackendConfig;
use crate::text::{chars_eq_str, chars_of, sorted_unique, strictly_sorted, string_views};

verus! {

/// The recipe generator of the Node.js backend.
#[derive(Default, Clone)]
pub struct NodejsGenerator {}

/// Build requirements: `nodejs` (needed to run node scripts), then the
/// package manager unless it is npm (which ships with nodejs); each only if
/// the project does not already list it.
pub open spec fn spec_nodejs_build_requirements(
    package_manager: Seq<char>,
    existing: Seq<Seq<char>>,
) -> Seq<Seq<char>> {
    (if existing.contains("nodejs"@) {
        Seq::empty()
    } else {
        seq!["nodejs"@]
    }) + (if package_manager != "npm"@ && !existing.contains(package_manager) {
        seq![package_manager]
    } else {
        Seq::empty()
    })
}

pub open spec fn spec_nodejs_default_globs() -> Seq<Seq<char>> {
    seq![
        "package.json"@,
        "package-lock.json"@,
        "yarn.lock"@,
        "pnpm-lock.yaml"@,
        "bun.lockb"@,
        "src/**/*.ts"@,
        "src/**/*.tsx"@,
        "src/**/*.js"@,
        "src/**/*.jsx"@,
    ]
}

pub open spec fn asset_views(v: Seq<AssetPair>) -> Seq<(Seq<char>, Seq<char>)> {
    v.map_values(|a: AssetPair| (a.src@, a.dst@))
}

impl NodejsGenerator {
    /// The build requirements to add, given the names the project's build
    /// dependencies already hold.
    pub fn build_requirements(&self, config: &NodejsBackendConfig, existing: &Vec<String>) -> (r:
        Vec<String>)
        ensures
            string_views(r@) == spec_nodejs_build_requirements(
                config@.package_manager,
                string_views(existing@),
            ),
    {
        let mut r: Vec<String> = Vec::new();
        if !contains_string(existing, "nodejs") {
            push_lit(&mut r, "nodejs");
        }
        let pm = chars_of(config.package_manager.as_str());
        if !chars_eq_str(pm.as_slice(), "npm") && !contains_string(
            existing,
            config.package_manager.as_str(),
        ) {
            push_lit(&mut r, config.package_manager.as_str());
        }
        assert(string_views(r@) =~= spec_nodejs_build_requirements(
            config@.package_manager,
            string_views(existing@),
        ));
        r
    }

    /// The `source:dest` asset pairs of the configuration.
    pub fn extra_assets(&self, config: &NodejsBackendConfig) -> (r: Vec<AssetPair>)
        ensures
            asset_views(r@) == config@.extra_assets.map_values(|s: Seq<char>| spec_asset_pair(s)),
    {
        let mut r: Vec<AssetPair> = Vec::new();
        let mut i: usize = 0;
        while i < config.extra_assets.len()
            invariant
                i <= config.extra_assets.len(),
                asset_views(r@) == config@.extra_assets.take(i as int).map_values(
                    |s: Seq<char>| spec_asset_pair(s),
                ),
            decreases config.extra_assets.len() - i,
        {
            let ghost before = asset_views(r@);
            let a = parse_asset_pair(config.extra_assets[i].as_str());
            r.push(a);
            assert(asset_views(r@) =~= before.push(spec_asset_pair(config@.extra_assets[i as int])));
            i = i + 1;
            assert(config@.extra_assets.take(i as int).map_values(|s: Seq<char>| spec_asset_pair(s))
                =~= before.push(spec_asset_pair(config@.extra_assets[i - 1])));
        }
        assert(config@.extra_assets.take(config.extra_assets.len() as int) =~= config@.extra_assets);
        r
    }

    /// The build script's parameters for a source directory.
    pub fn build_script_context(
        &self,
        config: &NodejsBackendConfig,
        source_dir: String,
        is_bash: bool,
    ) -> (r: BuildScriptContext)
        ensures
            r.source_dir == source_dir,
            r.package_manager@ == config@.package_manager,
            string_views(r.extra_install_args@) == config@.extra_install_args,
            r.build_script.deep_view() == config@.build_script,
            string_views(r.extra_build_args@) == config@.extra_build_args,
            r.build_output_dir.deep_view() == config@.build_output_dir,
            asset_views(r.extra_assets@) == config@.extra_assets.map_values(
                |s: Seq<char>| spec_asset_pair(s),
            ),
            r.server_entry.deep_view() == config@.server_entry,
            r.is_bash == is_bash,
    {
        BuildScriptContext {
            source_dir,
            package_manager: config.package_manager.clone(),
            extra_install_args: clone_strings(&config.extra_install_args),
            build_script: clone_opt_string(&config.build_script),
            extra_build_args: clone_strings(&config.extra_build_args),
            build_output_dir: clone_opt_string(&config.build_output_dir),
            extra_assets: self.extra_assets(config),
            server_entry: clone_opt_string(&config.server_entry),
            is_bash,
        }
    }

    /// The globs whose change triggers a rebuild: the manifest, the lock
    /// files, the sources and the configured extras, as a sorted set.
    pub fn extract_input_globs_from_build(&self, config: &NodejsBackendConfig) -> (r: Vec<String>)
        ensures
            strictly_sorted(string_views(r@)),
            string_views(r@).to_set() == (spec_nodejs_default_globs()
                + config@.extra_input_globs).to_set(),
    {
        let mut all: Vec<String> = Vec::new();
        push_lit(&mut all, "package.json");
        push_lit(&mut all, "package-lock.json");
        push_lit(&mut all, "yarn.lock");
        push_lit(&mut all, "pnpm-lock.yaml");
        push_lit(&mut all, "bun.lockb");
        push_lit(&mut all, "src/**/*.ts");
        push_lit(&mut all, "src/**/*.tsx");
        push_lit(&mut all, "src/**/*.js");
        push_lit(&mut all, "src/**/*.jsx");
        append_strings(&mut all, &config.extra_input_globs);
        assert(string_views(all@) =~= spec_nodejs_default_globs() + config@.extra_input_globs);
        sorted_unique(&all)
    }
}

/// The build requirements added: `nodejs` unless the project lists it,
/// and the package manager when it is not `npm` (which comes with Node.js)
/// unless the project lists it; nothing else.
pub proof fn lemma_nodejs_build_requirements(package_manager: Seq<char>, existing: Seq<Seq<char>>)
    ensures
        ({
            let r = spec_nodejs_build_requirements(package_manager, existing);
            &&& r.contains("nodejs"@) <==> !existing.contains("nodejs"@)
            &&& package_manager != "npm"@ ==> (r.contains(package_manager) <==> !existing.contains(
                package_manager,
            ))
            &&& forall|x: Seq<char>|
                #![trigger r.contains(x)]
                r.contains(x) ==> x == "nodejs"@ || (x == package_manager && package_manager
                    != "npm"@)
        }),
{
    let a: Seq<Seq<char>> = if existing.contains("nodejs"@) {
        Seq::empty()
    } else {
        seq!["nodejs"@]
    };
    let b: Seq<Seq<char>> = if package_manager != "npm"@ && !existing.contains(package_manager) {
        seq![package_manager]
    } else {
        Seq::empty()
    };
    lemma_concat_contains(a, b);
    if !existing.contains("nodejs"@) {
        assert(a[0] == "nodejs"@);
    }
    if package_manager != "npm"@ && !existing.contains(package_manager) {
        assert(b[0] == package_manager);
    }
}

} // verus!
