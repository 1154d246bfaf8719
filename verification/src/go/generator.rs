//! What the Go backend puts into a recipe: compilers, extra build
//! requirements, the build script's parameters, input globs and variant
//! defaults.
use vstd::prelude::*;

use crate::common::{
    lemma_concat_contains, append_strings, clone_strings, compiler_default_variants, contains_string, push_lit,
    spec_compiler_default_variants, variant_entry_views,
};
use crate::go::config::GoBackendConfig;
use crate::text::{sorted_unique, strictly_sorted, string_views};

verus! {

/// The recipe generator of the Go backend.
#[derive(Default, Clone)]
pub struct GoGenerator {}

/// The parameters of the Go build script.
pub struct BuildScriptContext {
    /// The location of the source
    pub source_dir: String,
    /// Linker flags passed via `-ldflags`
    pub linker_flags: Vec<String>,
    /// Any additional args to pass to `go install`
    pub extra_args: Vec<String>,
    /// Whether to collect licenses
    pub collect_licenses: bool,
    /// Whether the build runs under bash (otherwise cmd.exe).
    pub is_bash: bool,
}

/// The Go compiler: `go-cgo` with CGO, `go-nocgo` without.
pub open spec fn spec_go_compiler(cgo_enabled: bool) -> Seq<char> {
    if cgo_enabled {
        "go-cgo"@
    } else {
        "go-nocgo"@
    }
}

/// The compilers of a Go build: the Go compiler, then any configured ones,
/// then, with CGO, the C compiler `c` unless it is configured already.
pub open spec fn spec_go_compilers(cgo_enabled: bool, extra: Option<Seq<Seq<char>>>) -> Seq<
    Seq<char>,
> {
    let configured = match extra {
        Some(e) => e,
        None => Seq::empty(),
    };
    seq![spec_go_compiler(cgo_enabled)] + configured + if cgo_enabled && !configured.contains(
        "c"@,
    ) {
        seq!["c"@]
    } else {
        Seq::empty()
    }
}

pub open spec fn spec_go_default_globs() -> Seq<Seq<char>> {
    seq!["**/*.go"@, "go.mod"@, "go.sum"@]
}

impl GoGenerator {
    /// The compilers to add to the build requirements.
    pub fn compilers(&self, config: &GoBackendConfig) -> (r: Vec<String>)
        ensures
            string_views(r@) == spec_go_compilers(config@.cgo_enabled, config@.compilers),
    {
        let mut r: Vec<String> = Vec::new();
        if config.cgo_enabled {
            push_lit(&mut r, "go-cgo");
        } else {
            push_lit(&mut r, "go-nocgo");
        }
        let has_c = match &config.compilers {
            Some(extra) => {
                append_strings(&mut r, extra);
                contains_string(extra, "c")
            },
            None => false,
        };
        if config.cgo_enabled && !has_c {
            push_lit(&mut r, "c");
        }
        assert(string_views(r@) =~= spec_go_compilers(config@.cgo_enabled, config@.compilers));
        r
    }

    /// Build requirements besides the compilers: `go-licenses` when licenses
    /// are collected.
    pub fn extra_build_requirements(&self, config: &GoBackendConfig) -> (r: Vec<String>)
        ensures
            string_views(r@) == (if config.collect_licenses {
                seq!["go-licenses"@]
            } else {
                Seq::<Seq<char>>::empty()
            }),
    {
        let mut r: Vec<String> = Vec::new();
        if config.collect_licenses {
            push_lit(&mut r, "go-licenses");
        }
        assert(string_views(r@) =~= (if config.collect_licenses {
            seq!["go-licenses"@]
        } else {
            Seq::<Seq<char>>::empty()
        }));
        r
    }

    /// The build script's parameters for a source directory. The
    /// configuration has no linker-flags setting, so no `-ldflags` are
    /// passed: the list is always empty.
    pub fn build_script_context(
        &self,
        config: &GoBackendConfig,
        source_dir: String,
        is_bash: bool,
    ) -> (r: BuildScriptContext)
        ensures
            r.source_dir == source_dir,
            r.linker_flags@.len() == 0,
            string_views(r.extra_args@) == config@.extra_args,
            r.collect_licenses == config.collect_licenses,
            r.is_bash == is_bash,
    {
        BuildScriptContext {
            source_dir,
            linker_flags: Vec::new(),
            extra_args: clone_strings(&config.extra_args),
            collect_licenses: config.collect_licenses,
            is_bash,
        }
    }

    /// The globs whose change triggers a rebuild: Go sources, `go.mod`,
    /// `go.sum` and the configured extras, as a sorted set.
    pub fn extract_input_globs_from_build(&self, config: &GoBackendConfig) -> (r: Vec<String>)
        ensures
            strictly_sorted(string_views(r@)),
            string_views(r@).to_set() == (spec_go_default_globs() + config@.extra_input_globs).to_set(),
    {
        let mut all: Vec<String> = Vec::new();
        push_lit(&mut all, "**/*.go");
        push_lit(&mut all, "go.mod");
        push_lit(&mut all, "go.sum");
        append_strings(&mut all, &config.extra_input_globs);
        assert(string_views(all@) =~= spec_go_default_globs() + config@.extra_input_globs);
        sorted_unique(&all)
    }

    /// Variant defaults for a host platform.
    pub fn default_variants(&self, host_is_windows: bool) -> (r: Vec<(String, Vec<String>)>)
        ensures
            variant_entry_views(r@) == spec_compiler_default_variants(host_is_windows),
    {
        compiler_default_variants(host_is_windows)
    }
}

/// The compilers of a Go build: first the Go compiler (`go-cgo` with CGO,
/// `go-nocgo` without), then every configured compiler; with CGO the C
/// compiler `c` is always among them; nothing else is added.
pub proof fn lemma_go_compilers(cgo_enabled: bool, extra: Option<Seq<Seq<char>>>)
    ensures
        ({
            let r = spec_go_compilers(cgo_enabled, extra);
            let configured = match extra {
                Some(e) => e,
                None => Seq::<Seq<char>>::empty(),
            };
            &&& r[0] == (if cgo_enabled {
                "go-cgo"@
            } else {
                "go-nocgo"@
            })
            &&& r.subrange(1, 1 + configured.len() as int) == configured
            &&& cgo_enabled ==> r.contains("c"@)
            &&& forall|x: Seq<char>|
                #![trigger r.contains(x)]
                r.contains(x) ==> x == r[0] || configured.contains(x) || (cgo_enabled && x == "c"@)
        }),
{
    let configured = match extra {
        Some(e) => e,
        None => Seq::<Seq<char>>::empty(),
    };
    let head = seq![spec_go_compiler(cgo_enabled)];
    let tail: Seq<Seq<char>> = if cgo_enabled && !configured.contains("c"@) {
        seq!["c"@]
    } else {
        Seq::empty()
    };
    let r = spec_go_compilers(cgo_enabled, extra);
    assert(r =~= head + (configured + tail));
    assert(r.subrange(1, 1 + configured.len() as int) =~= configured);
    lemma_concat_contains(configured, tail);
    lemma_concat_contains(head, configured + tail);
    if cgo_enabled && !configured.contains("c"@) {
        assert(tail[0] == "c"@);
    }
    assert forall|x: Seq<char>| #![trigger head.contains(x)] head.contains(x) ==> x == r[0] by {
        if head.contains(x) {
            let i = choose|i: int| 0 <= i < head.len() && head[i] == x;
        }
    }
}

} // verus!
