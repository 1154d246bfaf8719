//! The decisions of the HF-kernel backend's two procedures.
//!
//! `conda_outputs` emits one output per compatible Hub variant, each with its
//! own `pytorch` / `__cuda` / `__cuda_arch` specs, so that the solver picks
//! the satisfiable one. `conda_build_v1` repackages the chosen variant. The
//! caller performs the Hub requests and file work between the steps here.
use vstd::prelude::*;

use crate::common::{clone_opt_strings, clone_strings, opt_string_views};
use crate::hf_kernel::config::HfKernelConfig;
use crate::hf_kernel::mapping::{cuda_arch_floor, spec_min_capability, CondaRecord, MapOptions};
use crate::hf_kernel::outputs::{build_all_records, spec_records, spec_skipped, record_views, skipped_views, Skipped};
use crate::text::{chars_eq, chars_of, string_views};

verus! {

/// Where the variant list and the capabilities come from.
pub enum InputsPlan {
    /// The configuration lists the variants: use them (and its capabilities,
    /// or none) at the requested revision, without asking the Hub.
    Fixed { variants: Vec<String>, cuda_capabilities: Vec<String>, rev: String },
    /// Ask the Hub: pin the revision to a commit, list `build/` there, and
    /// read `build.toml` unless the configuration gives the capabilities.
    FromHub { rev: String, cuda_capabilities: Option<Vec<String>> },
}

/// What `conda_outputs` settles before the variants are known.
pub struct OutputsStart {
    pub name: String,
    pub version: String,
    pub inputs: InputsPlan,
}

pub open spec fn spec_output_name(
    package_name: Option<Seq<char>>,
    model_name: Option<Seq<char>>,
) -> Option<Seq<char>> {
    match package_name {
        Some(n) => Some(n),
        None => model_name,
    }
}

/// Settle the package name (the configured one, else the project's), the
/// version (the project's, else `0.0.0`), the revision (`main` when unset)
/// and where the variants come from.
pub fn start_conda_outputs(
    config: &HfKernelConfig,
    model_name: Option<String>,
    model_version: Option<String>,
) -> (r: Result<OutputsStart, String>)
    ensures
        spec_output_name(config.package_name.deep_view(), model_name.deep_view()) is None <==> r is Err,
        r matches Err(m) ==> m@ == "package name unknown; set `package-name` in config"@,
        r matches Ok(s) ==> {
            &&& Some(s.name@) == spec_output_name(config.package_name.deep_view(), model_name.deep_view())
            &&& s.version@ == match model_version {
                Some(v) => v@,
                None => "0.0.0"@,
            }
            &&& match config.variants {
                Some(vs) => s.inputs matches InputsPlan::Fixed { variants, cuda_capabilities, rev }
                    && string_views(variants@) == string_views(vs@)
                    && string_views(cuda_capabilities@) == match config.cuda_capabilities {
                        Some(c) => string_views(c@),
                        None => Seq::empty(),
                    }
                    && rev@ == match config.rev {
                        Some(r) => r@,
                        None => "main"@,
                    },
                None => s.inputs matches InputsPlan::FromHub { rev, cuda_capabilities }
                    && opt_string_views(cuda_capabilities) == opt_string_views(config.cuda_capabilities)
                    && rev@ == match config.rev {
                        Some(r) => r@,
                        None => "main"@,
                    },
            }
        },
{
    let name = match &config.package_name {
        Some(n) => n.clone(),
        None => match model_name {
            Some(n) => n,
            None => {
                return Err(String::from_str("package name unknown; set `package-name` in config"));
            },
        },
    };
    let version = match model_version {
        Some(v) => v,
        None => String::from_str("0.0.0"),
    };
    let rev = match &config.rev {
        Some(r) => r.clone(),
        None => String::from_str("main"),
    };
    let inputs = match &config.variants {
        Some(variants) => {
            let caps = match &config.cuda_capabilities {
                Some(c) => clone_strings(c),
                None => {
                    let e: Vec<String> = Vec::new();
                    assert(string_views(e@) =~= Seq::empty());
                    e
                },
            };
            InputsPlan::Fixed { variants: clone_strings(variants), cuda_capabilities: caps, rev }
        },
        None => InputsPlan::FromHub { rev, cuda_capabilities: clone_opt_strings(&config.cuda_capabilities) },
    };
    Ok(OutputsStart { name, version, inputs })
}

/// One output of `conda_outputs`, before its specs are parsed.
pub struct OutputPlan {
    pub build: String,
    pub build_number: u64,
    /// Run dependencies, as matchspec strings.
    pub depends: Vec<String>,
    /// Run constraints, as matchspec strings.
    pub constraints: Vec<String>,
    /// The Hub variant this output repackages.
    pub variant: String,
    /// The commit the variant is taken from.
    pub sha: String,
}

/// The run constraints of an output: the record's, then the repository's
/// `__cuda_arch` floor when it has one.
pub open spec fn spec_output_constraints(
    constrains: Seq<Seq<char>>,
    arch_floor: Option<Seq<char>>,
) -> Seq<Seq<char>> {
    match arch_floor {
        Some(f) => constrains.push("__cuda_arch >="@ + f),
        None => constrains,
    }
}

/// An output keeps every run constraint of its record, in order, and adds
/// one `__cuda_arch >=` entry for the repository's floor exactly when there
/// is a floor.
pub proof fn lemma_output_constraints_keep_record(
    constrains: Seq<Seq<char>>,
    arch_floor: Option<Seq<char>>,
)
    ensures
        ({
            let c = spec_output_constraints(constrains, arch_floor);
            &&& c.take(constrains.len() as int) == constrains
            &&& c.len() == constrains.len() + (if arch_floor is Some {
                1int
            } else {
                0int
            })
            &&& arch_floor matches Some(f) ==> c.last() == "__cuda_arch >="@ + f
        }),
{
    let c = spec_output_constraints(constrains, arch_floor);
    assert(c.take(constrains.len() as int) =~= constrains);
}

/// The output of one record.
pub fn output_plan(r: &CondaRecord, arch_floor: &Option<String>, sha: &str) -> (o: OutputPlan)
    ensures
        o.build@ == r.build@,
        o.build_number == r.build_number,
        string_views(o.depends@) == r@.depends,
        string_views(o.constraints@) == spec_output_constraints(r@.constrains, arch_floor.deep_view()),
        o.variant@ == r.variant@,
        o.sha@ == sha@,
{
    let mut constraints = clone_strings(&r.constrains);
    match arch_floor {
        Some(f) => {
            let ghost before = string_views(constraints@);
            let mut c = String::from_str("__cuda_arch >=");
            c.append(f.as_str());
            constraints.push(c);
            assert(string_views(constraints@) =~= before.push("__cuda_arch >="@ + f@));
        },
        None => {},
    }
    OutputPlan {
        build: r.build.clone(),
        build_number: r.build_number,
        depends: clone_strings(&r.depends),
        constraints,
        variant: r.variant.clone(),
        sha: sha.to_string(),
    }
}

pub open spec fn records_on(records: Seq<crate::hf_kernel::mapping::CondaRecordView>, host: Seq<char>) -> Seq<crate::hf_kernel::mapping::CondaRecordView>
    decreases records.len(),
{
    if records.len() == 0 {
        Seq::empty()
    } else {
        let prev = records_on(records.drop_last(), host);
        if records.last().subdir == host {
            prev.push(records.last())
        } else {
            prev
        }
    }
}

/// Host filtering keeps exactly the records built for the host, in order:
/// the kept records are the records whose subdir is the host's (as `filter`
/// keeps them), so every kept record has the host's subdir and every record
/// with the host's subdir is kept.
pub proof fn lemma_records_on_keeps_host(
    records: Seq<crate::hf_kernel::mapping::CondaRecordView>,
    host: Seq<char>,
)
    ensures
        records_on(records, host) == records.filter(
            |r: crate::hf_kernel::mapping::CondaRecordView| r.subdir == host,
        ),
        forall|i: int|
            0 <= i < records_on(records, host).len() ==> (#[trigger] records_on(records, host)[i]).subdir
                == host,
        forall|i: int|
            0 <= i < records.len() && (#[trigger] records[i]).subdir == host ==> records_on(
                records,
                host,
            ).contains(records[i]),
        forall|i: int|
            0 <= i < records_on(records, host).len() ==> records.contains(
                #[trigger] records_on(records, host)[i],
            ),
    decreases records.len(),
{
    let pred = |r: crate::hf_kernel::mapping::CondaRecordView| r.subdir == host;
    let out = records_on(records, host);
    if records.len() > 0 {
        let prev = records.drop_last();
        lemma_records_on_keeps_host(prev, host);
        prev.lemma_filter_push(records.last(), pred);
        assert(prev.push(records.last()) =~= records);
        let po = records_on(prev, host);
        assert forall|i: int| 0 <= i < out.len() implies records.contains(#[trigger] out[i]) by {
            if i < po.len() {
                assert(out[i] == po[i]);
                let j = choose|j: int| 0 <= j < prev.len() && prev[j] == po[i];
                assert(records[j] == prev[j]);
            } else {
                assert(out[i] == records[records.len() - 1]);
            }
        }
    } else {
        reveal(Seq::filter);
    }
    assert forall|i: int| 0 <= i < out.len() implies (#[trigger] out[i]).subdir == host by {
        records.lemma_filter_pred(pred, i);
    }
    assert forall|i: int| 0 <= i < records.len() && (#[trigger] records[i]).subdir == host implies out.contains(
        records[i],
    ) by {
        records.lemma_filter_contains(pred, i);
    }
}

/// The records whose subdir is the host's, in order (`conda_outputs` is per
/// host platform).
pub fn records_for_host(records: Vec<CondaRecord>, host: &str) -> (r: Vec<CondaRecord>)
    ensures
        record_views(r@) == records_on(record_views(records@), host@),
{
    let hc = chars_of(host);
    let ghost all = record_views(records@);
    let mut out: Vec<CondaRecord> = Vec::new();
    let n = records.len();
    let mut rest = records;
    let mut taken: usize = 0;
    let ghost total = rest@.len();
    assert(rest@ =~= records@.subrange(0, total as int));
    while rest.len() > 0
        invariant
            hc@ == host@,
            taken + rest@.len() == total,
            total == all.len(),
            total == records@.len(),
            records@.len() == n,
            all == record_views(records@),
            rest@ == records@.subrange(taken as int, total as int),
            record_views(out@) == records_on(all.take(taken as int), host@),
        decreases rest.len(),
    {
        let rec = rest.remove(0);
        assert(rec == records@[taken as int]);
        assert(all.take(taken + 1).drop_last() =~= all.take(taken as int));
        assert(all.take(taken + 1).last() == rec@);
        let sc = chars_of(rec.subdir.as_str());
        if chars_eq(sc.as_slice(), hc.as_slice()) {
            let ghost before = record_views(out@);
            out.push(rec);
            assert(record_views(out@) =~= before.push(all[taken as int]));
        }
        taken = taken + 1;
        assert(rest@ =~= records@.subrange(taken as int, total as int));
    }
    assert(all.take(total as int) =~= all);
    out
}

/// Map every variant and keep the host's records: the outputs (one per
/// kept record, with the repository's `__cuda_arch` floor), and the skipped
/// variants with their reasons.
pub fn finish_conda_outputs(
    start: &OutputsStart,
    require_cxx11: bool,
    variant_names: &Vec<String>,
    cuda_capabilities: &Vec<String>,
    resolved_rev: &str,
    host: &str,
) -> (r: (Vec<OutputPlan>, Vec<Skipped>))
    ensures
        ({
            let opts = crate::hf_kernel::mapping::MapOptionsView {
                package_name: start.name@,
                version: start.version@,
                build_number: 0,
                cuda_capabilities: string_views(cuda_capabilities@),
                require_cxx11,
            };
            let kept = records_on(spec_records(string_views(variant_names@), opts), host@);
            &&& skipped_views(r.1@) == spec_skipped(string_views(variant_names@), opts)
            &&& r.0@.len() == kept.len()
            &&& forall|i: int| 0 <= i < kept.len() ==> {
                &&& #[trigger] r.0@[i].build@ == kept[i].build
                &&& r.0@[i].build_number == kept[i].build_number
                &&& string_views(r.0@[i].depends@) == kept[i].depends
                &&& string_views(r.0@[i].constraints@) == spec_output_constraints(
                    kept[i].constrains,
                    spec_min_capability(string_views(cuda_capabilities@)),
                )
                &&& r.0@[i].variant@ == kept[i].variant
                &&& r.0@[i].sha@ == resolved_rev@
            }
        }),
{
    let opts = MapOptions {
        package_name: start.name.clone(),
        version: start.version.clone(),
        build_number: 0,
        cuda_capabilities: clone_strings(cuda_capabilities),
        require_cxx11,
    };
    let (records, skipped) = build_all_records(variant_names.as_slice(), &opts);
    let kept = records_for_host(records, host);
    let arch_floor = cuda_arch_floor(cuda_capabilities.as_slice());
    let mut outputs: Vec<OutputPlan> = Vec::new();
    let mut i: usize = 0;
    while i < kept.len()
        invariant
            i <= kept.len(),
            outputs@.len() == i,
            arch_floor.deep_view() == spec_min_capability(string_views(cuda_capabilities@)),
            forall|k: int| 0 <= k < i ==> {
                &&& #[trigger] outputs@[k].build@ == kept@[k]@.build
                &&& outputs@[k].build_number == kept@[k]@.build_number
                &&& string_views(outputs@[k].depends@) == kept@[k]@.depends
                &&& string_views(outputs@[k].constraints@) == spec_output_constraints(
                    kept@[k]@.constrains,
                    spec_min_capability(string_views(cuda_capabilities@)),
                )
                &&& outputs@[k].variant@ == kept@[k]@.variant
                &&& outputs@[k].sha@ == resolved_rev@
            },
        decreases kept.len() - i,
    {
        let o = output_plan(&kept[i], &arch_floor, resolved_rev);
        let ghost prev = outputs@;
        outputs.push(o);
        assert forall|k: int| 0 <= k < i + 1 implies {
            &&& #[trigger] outputs@[k].build@ == kept@[k]@.build
            &&& outputs@[k].build_number == kept@[k]@.build_number
            &&& string_views(outputs@[k].depends@) == kept@[k]@.depends
            &&& string_views(outputs@[k].constraints@) == spec_output_constraints(
                kept@[k]@.constrains,
                spec_min_capability(string_views(cuda_capabilities@)),
            )
            &&& outputs@[k].variant@ == kept@[k]@.variant
            &&& outputs@[k].sha@ == resolved_rev@
        } by {
            if k < i {
                assert(outputs@[k] == prev[k]);
            }
        }
        i = i + 1;
    }
    proof {
        let kv = record_views(kept@);
        assert forall|k: int| 0 <= k < kv.len() implies #[trigger] kv[k] == kept@[k]@ by {}
    }
    (outputs, skipped)
}

/// What `conda_build_v1` needs from the output it builds.
pub struct BuildInputs {
    pub variant: String,
    pub sha: String,
    pub version: String,
    pub build: String,
}

/// The variant and commit markers of the output (which must be present),
/// its version (`0.0.0` when unset) and its build string (empty when unset).
pub fn build_inputs(
    variant: Option<String>,
    sha: Option<String>,
    version: Option<String>,
    build: Option<String>,
) -> (r: Result<BuildInputs, String>)
    ensures
        variant is None ==> (r matches Err(m) && m@ == "output is missing the hf_kernel_variant marker"@),
        variant is Some && sha is None ==> (r matches Err(m) && m@
            == "output is missing the hf_kernel_sha marker"@),
        variant is Some && sha is Some ==> (r matches Ok(b) && {
            &&& b.variant@ == variant->0@
            &&& b.sha@ == sha->0@
            &&& b.version@ == match version {
                Some(v) => v@,
                None => "0.0.0"@,
            }
            &&& b.build@ == match build {
                Some(v) => v@,
                None => Seq::<char>::empty(),
            }
        }),
{
    let variant = match variant {
        Some(v) => v,
        None => {
            return Err(String::from_str("output is missing the hf_kernel_variant marker"));
        },
    };
    let sha = match sha {
        Some(s) => s,
        None => {
            return Err(String::from_str("output is missing the hf_kernel_sha marker"));
        },
    };
    let version = match version {
        Some(v) => v,
        None => String::from_str("0.0.0"),
    };
    let build = match build {
        Some(b) => b,
        None => String::new(),
    };
    Ok(BuildInputs { variant, sha, version, build })
}

/// The file stem of the written package: `<name>-<version>-<build>`.
pub fn conda_file_stem(name: &str, version: &str, build: &str) -> (r: String)
    ensures
        r@ == name@ + "-"@ + version@ + "-"@ + build@,
{
    let mut s = name.to_string();
    s.append("-");
    s.append(version);
    s.append("-");
    s.append(build);
    s
}

/// Where a variant file goes inside the package: under `site-packages/`.
pub fn package_path(relative: &str) -> (r: String)
    ensures
        r@ == "site-packages/"@ + relative@,
{
    let mut s = String::from_str("site-packages/");
    s.append(relative);
    s
}

/// The error for a variant without files.
pub fn no_files_message(variant: &str, repo: &str, sha: &str) -> (r: String)
    ensures
        r@ == "no files under build/"@ + variant@ + " in "@ + repo@ + "@"@ + sha@,
{
    let mut s = String::from_str("no files under build/");
    s.append(variant);
    s.append(" in ");
    s.append(repo);
    s.append("@");
    s.append(sha);
    s
}

} // verus!
