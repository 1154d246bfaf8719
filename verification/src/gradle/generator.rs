//! What the Gradle backend puts into a recipe: build requirements, the
//! build script's parameters and input globs.
use vstd::prelude::*;

use crate::common::{lemma_concat_contains, append_strings, clone_strings, contains_string, push_lit};
use crate::gradle::config::GradleBackendConfig;
use crate::text::{sorted_unique, strictly_sorted, string_views};

verus! {

/// The recipe generator of the Gradle backend.
#[derive(Default, Clone)]
pub struct GradleGenerator {}

/// The parameters of the Gradle build script.
pub struct BuildScriptContext {
    pub source_dir: String,
    pub tasks: Vec<String>,
    pub extra_args: Vec<String>,
    pub use_wrapper: bool,
    pub is_bash: bool,
}

/// Build requirements: a JDK, and a system gradle when the wrapper is not
/// used; each only if the project does not already list it.
pub open spec fn spec_gradle_build_requirements(use_wrapper: bool, existing: Seq<Seq<char>>) -> Seq<
    Seq<char>,
> {
    (if existing.contains("openjdk"@) {
        Seq::empty()
    } else {
        seq!["openjdk"@]
    }) + (if !use_wrapper && !existing.contains("gradle"@) {
        seq!["gradle"@]
    } else {
        Seq::empty()
    })
}

pub open spec fn spec_gradle_default_globs() -> Seq<Seq<char>> {
    seq![
        "**/*.gradle"@,
        "**/*.gradle.kts"@,
        "settings.gradle"@,
        "settings.gradle.kts"@,
        "gradle/wrapper/gradle-wrapper.properties"@,
        "src/**/*.java"@,
        "src/**/*.kt"@,
        "src/**/*.scala"@,
    ]
}

impl GradleGenerator {
    /// The build requirements to add, given the names the project's build
    /// dependencies already hold.
    pub fn build_requirements(&self, config: &GradleBackendConfig, existing: &Vec<String>) -> (r:
        Vec<String>)
        ensures
            string_views(r@) == spec_gradle_build_requirements(
                config.use_wrapper,
                string_views(existing@),
            ),
    {
        let mut r: Vec<String> = Vec::new();
        if !contains_string(existing, "openjdk") {
            push_lit(&mut r, "openjdk");
        }
        if !config.use_wrapper && !contains_string(existing, "gradle") {
            push_lit(&mut r, "gradle");
        }
        assert(string_views(r@) =~= spec_gradle_build_requirements(
            config.use_wrapper,
            string_views(existing@),
        ));
        r
    }

    /// The build script's parameters for a source directory.
    pub fn build_script_context(
        &self,
        config: &GradleBackendConfig,
        source_dir: String,
        is_bash: bool,
    ) -> (r: BuildScriptContext)
        ensures
            r.source_dir == source_dir,
            string_views(r.tasks@) == config@.tasks,
            string_views(r.extra_args@) == config@.extra_args,
            r.use_wrapper == config.use_wrapper,
            r.is_bash == is_bash,
    {
        BuildScriptContext {
            source_dir,
            tasks: clone_strings(&config.tasks),
            extra_args: clone_strings(&config.extra_args),
            use_wrapper: config.use_wrapper,
            is_bash,
        }
    }

    /// The globs whose change triggers a rebuild: the Gradle build files,
    /// the wrapper properties, JVM sources and the configured extras, as a
    /// sorted set.
    pub fn extract_input_globs_from_build(&self, config: &GradleBackendConfig) -> (r: Vec<String>)
        ensures
            strictly_sorted(string_views(r@)),
            string_views(r@).to_set() == (spec_gradle_default_globs()
                + config@.extra_input_globs).to_set(),
    {
        let mut all: Vec<String> = Vec::new();
        push_lit(&mut all, "**/*.gradle");
        push_lit(&mut all, "**/*.gradle.kts");
        push_lit(&mut all, "settings.gradle");
        push_lit(&mut all, "settings.gradle.kts");
        push_lit(&mut all, "gradle/wrapper/gradle-wrapper.properties");
        push_lit(&mut all, "src/**/*.java");
        push_lit(&mut all, "src/**/*.kt");
        push_lit(&mut all, "src/**/*.scala");
        append_strings(&mut all, &config.extra_input_globs);
        assert(string_views(all@) =~= spec_gradle_default_globs() + config@.extra_input_globs);
        sorted_unique(&all)
    }
}

/// The build requirements added: `openjdk` unless the project lists it,
/// and `gradle` when the wrapper is not used, unless the project lists it;
/// nothing else.
pub proof fn lemma_gradle_build_requirements(use_wrapper: bool, existing: Seq<Seq<char>>)
    ensures
        ({
            let r = spec_gradle_build_requirements(use_wrapper, existing);
            &&& r.contains("openjdk"@) <==> !existing.contains("openjdk"@)
            &&& r.contains("gradle"@) <==> !use_wrapper && !existing.contains("gradle"@)
            &&& forall|x: Seq<char>|
                #![trigger r.contains(x)]
                r.contains(x) ==> x == "openjdk"@ || x == "gradle"@
        }),
{
    reveal_strlit("openjdk");
    reveal_strlit("gradle");
    let a: Seq<Seq<char>> = if existing.contains("openjdk"@) {
        Seq::empty()
    } else {
        seq!["openjdk"@]
    };
    let b: Seq<Seq<char>> = if !use_wrapper && !existing.contains("gradle"@) {
        seq!["gradle"@]
    } else {
        Seq::empty()
    };
    lemma_concat_contains(a, b);
    assert("openjdk"@.len() != "gradle"@.len());
    if !existing.contains("openjdk"@) {
        assert(a[0] == "openjdk"@);
    }
    if !use_wrapper && !existing.contains("gradle"@) {
        assert(b[0] == "gradle"@);
    }
}

} // verus!
