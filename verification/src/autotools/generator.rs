//! What the Autotools backend puts into a recipe: compilers, build tools,
//! the build script's parameters, input globs and variant defaults.
use vstd::prelude::*;

use crate::common::{
    append_strings, clone_strings, compiler_default_variants, lemma_missing_from_members, missing_from, push_lit,
    push_missing, spec_compiler_default_variants, variant_entry_views,
};
use crate::text::{sorted_unique, strictly_sorted, string_views};

verus! {

/// The recipe generator of the Autotools backend.
#[derive(Default, Clone)]
pub struct AutotoolsGenerator {}

/// The shell the build script is written for.
#[derive(Debug, Clone, Copy, PartialEq, Eq, Structural)]
pub enum BuildPlatform {
    Windows,
    Unix,
}

/// The parameters of the Autotools build script.
pub struct BuildScriptContext {
    pub build_platform: BuildPlatform,
    pub source_dir: String,
    pub extra_configure_args: Vec<String>,
    pub extra_make_args: Vec<String>,
    pub autoreconf: bool,
}

/// The tools every build needs, then those `autoreconf` needs.
pub open spec fn spec_autotools_tools(autoreconf: bool) -> Seq<Seq<char>> {
    seq!["make"@, "pkg-config"@] + if autoreconf {
        seq!["autoconf"@, "automake"@, "libtool"@]
    } else {
        Seq::empty()
    }
}

/// The MSYS2 package of a tool (`m2-<tool>`), as conda-forge uses on Windows.
pub open spec fn spec_m2(tool: Seq<char>) -> Seq<char> {
    "m2-"@ + tool
}

/// Build tools to add, given the names the project's build dependencies
/// already hold: on Windows the MSYS2 packages of the tools and `m2-bash`,
/// elsewhere the tools themselves; each only if not already listed.
pub open spec fn spec_autotools_build_tools(
    autoreconf: bool,
    host_is_windows: bool,
    existing: Seq<Seq<char>>,
) -> Seq<Seq<char>> {
    if host_is_windows {
        missing_from(spec_autotools_tools(autoreconf).map_values(|t: Seq<char>| spec_m2(t)), existing)
            + if existing.contains("m2-bash"@) {
            Seq::empty()
        } else {
            seq!["m2-bash"@]
        }
    } else {
        missing_from(spec_autotools_tools(autoreconf), existing)
    }
}

pub open spec fn spec_autotools_default_globs() -> Seq<Seq<char>> {
    seq![
        "**/*.{c,cc,cxx,cpp,h,hpp,hxx}"@,
        "**/configure.ac"@,
        "**/configure.in"@,
        "**/Makefile.am"@,
        "**/Makefile.in"@,
        "**/aclocal.m4"@,
        "**/configure"@,
    ]
}

impl AutotoolsGenerator {
    /// The configured compilers, `["cxx"]` when none are.
    pub fn compilers(&self, configured: &Option<Vec<String>>) -> (r: Vec<String>)
        ensures
            string_views(r@) == match configured {
                Some(c) => string_views(c@),
                None => seq!["cxx"@],
            },
    {
        match configured {
            Some(c) => clone_strings(c),
            None => {
                let mut r: Vec<String> = Vec::new();
                push_lit(&mut r, "cxx");
                assert(string_views(r@) =~= seq!["cxx"@]);
                r
            },
        }
    }

    /// The build tools to add to the build requirements.
    pub fn build_tools(&self, autoreconf: bool, host_is_windows: bool, existing: &Vec<String>) -> (r:
        Vec<String>)
        ensures
            string_views(r@) == spec_autotools_build_tools(
                autoreconf,
                host_is_windows,
                string_views(existing@),
            ),
    {
        let mut tools: Vec<String> = Vec::new();
        push_lit(&mut tools, "make");
        push_lit(&mut tools, "pkg-config");
        if autoreconf {
            push_lit(&mut tools, "autoconf");
            push_lit(&mut tools, "automake");
            push_lit(&mut tools, "libtool");
        }
        assert(string_views(tools@) =~= spec_autotools_tools(autoreconf));
        let mut r: Vec<String> = Vec::new();
        if host_is_windows {
            let mut m2: Vec<String> = Vec::new();
            let mut i: usize = 0;
            while i < tools.len()
                invariant
                    i <= tools.len(),
                    string_views(m2@) == string_views(tools@).take(i as int).map_values(
                        |t: Seq<char>| spec_m2(t),
                    ),
                decreases tools.len() - i,
            {
                let ghost before = string_views(m2@);
                let mut name = String::from_str("m2-");
                name.append(tools[i].as_str());
                m2.push(name);
                assert(string_views(m2@) =~= before.push(spec_m2(tools@[i as int]@)));
                i = i + 1;
                assert(string_views(tools@).take(i as int).map_values(|t: Seq<char>| spec_m2(t))
                    =~= before.push(spec_m2(tools@[i - 1]@)));
            }
            assert(string_views(tools@).take(tools.len() as int) =~= string_views(tools@));
            push_missing(&mut r, &m2, existing);
            // Also need m2-bash to drive the build.
            let mut bash: Vec<String> = Vec::new();
            push_lit(&mut bash, "m2-bash");
            assert(string_views(bash@) =~= seq!["m2-bash"@]);
            push_missing(&mut r, &bash, existing);
            assert(missing_from(string_views(bash@), string_views(existing@)) =~= (
            if string_views(existing@).contains("m2-bash"@) {
                Seq::empty()
            } else {
                seq!["m2-bash"@]
            })) by {
                assert(string_views(bash@).drop_last() =~= Seq::<Seq<char>>::empty());
                assert(missing_from(Seq::<Seq<char>>::empty(), string_views(existing@)) =~= Seq::<
                    Seq<char>,
                >::empty());
            }
        } else {
            push_missing(&mut r, &tools, existing);
        }
        assert(string_views(r@) =~= spec_autotools_build_tools(
            autoreconf,
            host_is_windows,
            string_views(existing@),
        ));
        r
    }

    /// The build script's parameters for a source directory.
    pub fn build_script_context(
        &self,
        build_on_windows: bool,
        source_dir: String,
        extra_configure_args: &Vec<String>,
        extra_make_args: &Vec<String>,
        autoreconf: bool,
    ) -> (r: BuildScriptContext)
        ensures
            r.build_platform == (if build_on_windows {
                BuildPlatform::Windows
            } else {
                BuildPlatform::Unix
            }),
            r.source_dir == source_dir,
            string_views(r.extra_configure_args@) == string_views(extra_configure_args@),
            string_views(r.extra_make_args@) == string_views(extra_make_args@),
            r.autoreconf == autoreconf,
    {
        BuildScriptContext {
            build_platform: if build_on_windows {
                BuildPlatform::Windows
            } else {
                BuildPlatform::Unix
            },
            source_dir,
            extra_configure_args: clone_strings(extra_configure_args),
            extra_make_args: clone_strings(extra_make_args),
            autoreconf,
        }
    }

    /// The globs whose change triggers a rebuild: C/C++ sources, the
    /// Autotools inputs and the configured extras, as a sorted set.
    pub fn extract_input_globs_from_build(&self, extra_input_globs: &Vec<String>) -> (r: Vec<
        String,
    >)
        ensures
            strictly_sorted(string_views(r@)),
            string_views(r@).to_set() == (spec_autotools_default_globs() + string_views(
                extra_input_globs@,
            )).to_set(),
    {
        let mut all: Vec<String> = Vec::new();
        push_lit(&mut all, "**/*.{c,cc,cxx,cpp,h,hpp,hxx}");
        push_lit(&mut all, "**/configure.ac");
        push_lit(&mut all, "**/configure.in");
        push_lit(&mut all, "**/Makefile.am");
        push_lit(&mut all, "**/Makefile.in");
        push_lit(&mut all, "**/aclocal.m4");
        push_lit(&mut all, "**/configure");
        append_strings(&mut all, extra_input_globs);
        assert(string_views(all@) =~= spec_autotools_default_globs() + string_views(
            extra_input_globs@,
        ));
        sorted_unique(&all)
    }

    /// Variant defaults for a host platform.
    pub fn default_variants(&self, host_is_windows: bool) -> (r: Vec<(String, Vec<String>)>)
        ensures
            variant_entry_views(r@) == spec_compiler_default_variants(host_is_windows),
    {
        compiler_default_variants(host_is_windows)
    }
}

/// The package a build tool comes in: its MSYS2 package on Windows, the
/// tool itself elsewhere.
pub open spec fn tool_package(tool: Seq<char>, host_is_windows: bool) -> Seq<char> {
    if host_is_windows {
        "m2-"@ + tool
    } else {
        tool
    }
}

/// The build tools added: `make` and `pkg-config`, and with `autoreconf`
/// also `autoconf`, `automake` and `libtool`, each as its MSYS2 package on
/// Windows, each only when the project does not list that package already;
/// on Windows also `m2-bash` unless listed. Nothing else is added, and the
/// autoreconf tools are not added without `autoreconf`.
pub proof fn lemma_autotools_build_tools(autoreconf: bool, host_is_windows: bool, existing: Seq<Seq<char>>)
    ensures
        ({
            let r = spec_autotools_build_tools(autoreconf, host_is_windows, existing);
            let w = host_is_windows;
            &&& r.contains(tool_package("make"@, w)) <==> !existing.contains(tool_package("make"@, w))
            &&& r.contains(tool_package("pkg-config"@, w)) <==> !existing.contains(
                tool_package("pkg-config"@, w),
            )
            &&& r.contains(tool_package("autoconf"@, w)) <==> autoreconf && !existing.contains(
                tool_package("autoconf"@, w),
            )
            &&& r.contains(tool_package("automake"@, w)) <==> autoreconf && !existing.contains(
                tool_package("automake"@, w),
            )
            &&& r.contains(tool_package("libtool"@, w)) <==> autoreconf && !existing.contains(
                tool_package("libtool"@, w),
            )
            &&& w ==> (r.contains("m2-bash"@) <==> !existing.contains("m2-bash"@))
            &&& forall|x: Seq<char>|
                #![trigger r.contains(x)]
                r.contains(x) ==> {
                    ||| x == tool_package("make"@, w)
                    ||| x == tool_package("pkg-config"@, w)
                    ||| x == tool_package("autoconf"@, w)
                    ||| x == tool_package("automake"@, w)
                    ||| x == tool_package("libtool"@, w)
                    ||| (w && x == "m2-bash"@)
                }
        }),
{
    reveal_strlit("make");
    reveal_strlit("pkg-config");
    reveal_strlit("autoconf");
    reveal_strlit("automake");
    reveal_strlit("libtool");
    reveal_strlit("m2-");
    reveal_strlit("m2-bash");
    let w = host_is_windows;
    let mk = tool_package("make"@, w);
    let pc = tool_package("pkg-config"@, w);
    let ac = tool_package("autoconf"@, w);
    let am = tool_package("automake"@, w);
    let lt = tool_package("libtool"@, w);
    let wanted = if w {
        spec_autotools_tools(autoreconf).map_values(|t: Seq<char>| spec_m2(t))
    } else {
        spec_autotools_tools(autoreconf)
    };
    let explicit = if autoreconf {
        seq![mk, pc, ac, am, lt]
    } else {
        seq![mk, pc]
    };
    assert(wanted =~= explicit);
    lemma_missing_from_members(wanted, existing);
    // The five packages and `m2-bash` are pairwise distinct.
    assert(mk != pc && mk != ac && mk != am && mk != lt) by {
        assert(mk.len() != pc.len() && mk.len() != lt.len());
        assert(mk.len() != ac.len() && mk.len() != am.len());
    }
    assert(pc != ac && pc != am && pc != lt) by {
        assert(pc.len() != lt.len());
        assert(pc.len() != ac.len() && pc.len() != am.len());
    }
    assert(ac != am) by {
        assert(ac[ac.len() - 4] != am[am.len() - 4]);
    }
    assert(ac != lt && am != lt) by {
        assert(ac.len() != lt.len() && am.len() != lt.len());
    }
    if w {
        assert(mk != "m2-bash"@) by {
            assert(mk[3] != "m2-bash"@[3]);
        }
        assert(pc.len() != "m2-bash"@.len() && ac.len() != "m2-bash"@.len());
        assert(am.len() != "m2-bash"@.len() && lt.len() != "m2-bash"@.len());
    }
    let m = missing_from(wanted, existing);
    assert(explicit.contains(mk) && explicit.contains(pc)) by {
        assert(explicit[0] == mk && explicit[1] == pc);
    }
    if autoreconf {
        assert(explicit[2] == ac && explicit[3] == am && explicit[4] == lt);
    }
    let r = spec_autotools_build_tools(autoreconf, w, existing);
    let tail = if w && !existing.contains("m2-bash"@) {
        seq!["m2-bash"@]
    } else {
        Seq::<Seq<char>>::empty()
    };
    assert(r =~= m + tail);
    assert forall|x: Seq<char>| #![trigger r.contains(x)] r.contains(x) <==> (m.contains(x) || tail.contains(x)) by {
        if r.contains(x) {
            let i = choose|i: int| 0 <= i < r.len() && r[i] == x;
            if i < m.len() {
                assert(m[i] == x);
            } else {
                assert(tail[i - m.len()] == x);
            }
        }
        if m.contains(x) {
            let i = choose|i: int| 0 <= i < m.len() && m[i] == x;
            assert(r[i] == x);
        }
        if tail.contains(x) {
            let i = choose|i: int| 0 <= i < tail.len() && tail[i] == x;
            assert(r[m.len() + i] == x);
        }
    }
    if w && !existing.contains("m2-bash"@) {
        assert(tail[0] == "m2-bash"@);
    }
}

} // verus!
