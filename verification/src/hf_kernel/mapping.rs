//! Map a Hugging Face kernel [`Variant`] onto conda metadata.
//!
//! Nothing is compiled: each prebuilt Hub variant is described as a conda
//! package so that the solver selects the right one.
//!
//! | HF variant axis        | conda expression                          |
//! |------------------------|-------------------------------------------|
//! | `torch26`              | `depends: pytorch 2.6.*`                  |
//! | `cxx98` / `cxx11`      | filter (conda-forge is cxx11-ABI only)    |
//! | `cu118`                | `constrains: __cuda >=11.8` + cuda-version|
//! | `x86_64` / `linux`     | `subdir: linux-64`                        |
//! | compute capabilities   | `constrains: __cuda_arch >=<min>`         |
use vstd::prelude::*;

use crate::hf_kernel::variant::{
    compute_token, lemma_parsed_shape, parsed_shape, spec_parse_variant, variant_parts, ComputeKind, ParseErrorView, Variant, VariantView,
};
use crate::text::{
    all_digits, is_ascii_digit, lemma_join_split,
    chars_eq_str, chars_of, decimal, decimal_chars, find, find_char, lemma_find_char_spec,
    parse_u32, push_chars, remove_char, slice_chars, spec_parse_u32,
    string_views, without_char,
};

verus! {

#[derive(Debug, PartialEq, Eq)]
pub enum UnsupportedVariant {
    Cxx98(String),
    NoSubdir { arch: String, os: String },
}

pub enum UnsupportedVariantView {
    Cxx98(Seq<char>),
    NoSubdir { arch: Seq<char>, os: Seq<char> },
}

impl View for UnsupportedVariant {
    type V = UnsupportedVariantView;

    open spec fn view(&self) -> UnsupportedVariantView {
        match self {
            UnsupportedVariant::Cxx98(r) => UnsupportedVariantView::Cxx98(r@),
            UnsupportedVariant::NoSubdir { arch, os } => UnsupportedVariantView::NoSubdir {
                arch: arch@,
                os: os@,
            },
        }
    }
}

impl UnsupportedVariantView {
    pub open spec fn message(self) -> Seq<char> {
        match self {
            UnsupportedVariantView::Cxx98(r) => r
                + ": cxx98 ABI is incompatible with conda-forge (cxx11)"@,
            UnsupportedVariantView::NoSubdir { arch, os } => "no conda subdir for "@ + arch + "-"@
                + os,
        }
    }
}

impl UnsupportedVariant {
    /// The error's message, as its `Display` would print it.
    pub fn to_string(&self) -> (s: String)
        ensures
            s@ == self@.message(),
    {
        match self {
            UnsupportedVariant::Cxx98(r) => {
                let mut s = r.clone();
                s.append(": cxx98 ABI is incompatible with conda-forge (cxx11)");
                s
            },
            UnsupportedVariant::NoSubdir { arch, os } => {
                let mut s = String::from_str("no conda subdir for ");
                s.append(arch.as_str());
                s.append("-");
                s.append(os.as_str());
                s
            },
        }
    }
}

/// SDK-neutral description of one output package.
#[derive(Debug, Clone, PartialEq, Eq)]
pub struct CondaRecord {
    pub name: String,
    pub version: String,
    pub build: String,
    pub build_number: u64,
    pub subdir: String,
    pub depends: Vec<String>,
    pub constrains: Vec<String>,
    /// carried through for provenance / the build phase
    pub variant: String,
    /// e.g. `pytorch 2.6.*`
    pub torch_pin: String,
    /// e.g. `11.8`; None for cpu/metal.
    pub cuda_floor: Option<String>,
}

pub struct CondaRecordView {
    pub name: Seq<char>,
    pub version: Seq<char>,
    pub build: Seq<char>,
    pub build_number: u64,
    pub subdir: Seq<char>,
    pub depends: Seq<Seq<char>>,
    pub constrains: Seq<Seq<char>>,
    pub variant: Seq<char>,
    pub torch_pin: Seq<char>,
    pub cuda_floor: Option<Seq<char>>,
}

impl View for CondaRecord {
    type V = CondaRecordView;

    open spec fn view(&self) -> CondaRecordView {
        CondaRecordView {
            name: self.name@,
            version: self.version@,
            build: self.build@,
            build_number: self.build_number,
            subdir: self.subdir@,
            depends: string_views(self.depends@),
            constrains: string_views(self.constrains@),
            variant: self.variant@,
            torch_pin: self.torch_pin@,
            cuda_floor: self.cuda_floor.deep_view(),
        }
    }
}

/// Options controlling how variants are mapped.
#[derive(Debug, Clone)]
pub struct MapOptions {
    pub package_name: String,
    pub version: String,
    pub build_number: u64,
    /// `cuda-capabilities` from the kernel's `build.toml`; empty = "all supported".
    pub cuda_capabilities: Vec<String>,
    pub require_cxx11: bool,
}

pub struct MapOptionsView {
    pub package_name: Seq<char>,
    pub version: Seq<char>,
    pub build_number: u64,
    pub cuda_capabilities: Seq<Seq<char>>,
    pub require_cxx11: bool,
}

impl View for MapOptions {
    type V = MapOptionsView;

    open spec fn view(&self) -> MapOptionsView {
        MapOptionsView {
            package_name: self.package_name@,
            version: self.version@,
            build_number: self.build_number,
            cuda_capabilities: string_views(self.cuda_capabilities@),
            require_cxx11: self.require_cxx11,
        }
    }
}

// ---------------------------------------------------------------------------
// Specifications
// ---------------------------------------------------------------------------
/// The conda subdir of an (arch, os) pair.
pub open spec fn spec_subdir(arch: Seq<char>, os: Seq<char>) -> Option<Seq<char>> {
    if arch == "x86_64"@ && os == "linux"@ {
        Some("linux-64"@)
    } else if arch == "aarch64"@ && os == "linux"@ {
        Some("linux-aarch64"@)
    } else if arch == "x86_64"@ && os == "windows"@ {
        Some("win-64"@)
    } else if arch == "aarch64"@ && os == "darwin"@ {
        Some("osx-arm64"@)
    } else if arch == "x86_64"@ && os == "darwin"@ {
        Some("osx-64"@)
    } else {
        None
    }
}

/// HF framework tag -> conda package name.
pub open spec fn spec_framework_package(framework: Seq<char>) -> Seq<char> {
    if framework == "torch"@ {
        "pytorch"@
    } else {
        framework
    }
}

/// Human-readable, per-variant build string (the subdir carries arch/os).
pub open spec fn spec_build_string(v: VariantView) -> Seq<char> {
    let fw = v.framework + remove_char(v.framework_version, '.');
    let compute = match v.compute_version {
        Some(cv) => v.compute_kind.spec_name() + remove_char(cv, '.'),
        None => v.compute_kind.spec_name(),
    };
    if v.spec_has_abi_tag() {
        fw + "_"@ + v.cxx_abi + "_"@ + compute
    } else {
        fw + "_"@ + compute
    }
}

pub open spec fn parsed_or_zero(s: Seq<char>) -> nat {
    match spec_parse_u32(s) {
        Some(v) => v as nat,
        None => 0,
    }
}

/// `8.6` -> (8, 6): split at the first dot (a missing minor counts as 0);
/// a part that is not a `u32` counts as 0.
pub open spec fn spec_cap_key(cap: Seq<char>) -> (nat, nat) {
    match find_char(cap, '.') {
        Some(i) => (parsed_or_zero(cap.take(i)), parsed_or_zero(cap.skip(i + 1))),
        None => (parsed_or_zero(cap), parsed_or_zero("0"@)),
    }
}

pub open spec fn key_lt(a: (nat, nat), b: (nat, nat)) -> bool {
    a.0 < b.0 || (a.0 == b.0 && a.1 < b.1)
}

pub open spec fn key_le(a: (nat, nat), b: (nat, nat)) -> bool {
    !key_lt(b, a)
}

/// The least key of a non-empty list of capabilities.
pub open spec fn spec_min_key(caps: Seq<Seq<char>>) -> (nat, nat)
    decreases caps.len(),
{
    if caps.len() <= 1 {
        spec_cap_key(caps[0])
    } else {
        let m = spec_min_key(caps.drop_last());
        let k = spec_cap_key(caps.last());
        if key_lt(k, m) {
            k
        } else {
            m
        }
    }
}

/// Lowest capability in the list, normalized to `major.minor`.
pub open spec fn spec_min_capability(caps: Seq<Seq<char>>) -> Option<Seq<char>> {
    if caps.len() == 0 {
        None
    } else {
        let m = spec_min_key(caps);
        Some(decimal(m.0) + "."@ + decimal(m.1))
    }
}

/// The run constraints of a variant.
pub open spec fn spec_constrains(v: VariantView, caps: Seq<Seq<char>>) -> Seq<Seq<char>> {
    match v.compute_kind {
        ComputeKind::Cuda => {
            let cv = v.compute_version->0;
            let base = seq!["__cuda >="@ + cv, "cuda-version >="@ + cv];
            if caps.len() > 0 {
                base.push("__cuda_arch >="@ + spec_min_capability(caps)->0)
            } else {
                base
            }
        },
        ComputeKind::Rocm => seq!["__hip >="@ + v.compute_version->0],
        _ => Seq::empty(),
    }
}

/// The record of a variant, or why it has none.
pub open spec fn spec_map_variant(v: VariantView, o: MapOptionsView) -> Result<
    CondaRecordView,
    UnsupportedVariantView,
> {
    if o.require_cxx11 && v.spec_is_cxx98() {
        Err(UnsupportedVariantView::Cxx98(v.raw))
    } else {
        match spec_subdir(v.arch, v.os) {
            None => Err(UnsupportedVariantView::NoSubdir { arch: v.arch, os: v.os }),
            Some(subdir) => {
                let torch_pin = spec_framework_package(v.framework) + " "@ + v.framework_version
                    + ".*"@;
                Ok(
                    CondaRecordView {
                        name: o.package_name,
                        version: o.version,
                        build: spec_build_string(v),
                        build_number: o.build_number,
                        subdir,
                        depends: seq![torch_pin],
                        constrains: spec_constrains(v, o.cuda_capabilities),
                        variant: v.raw,
                        torch_pin,
                        cuda_floor: if v.compute_kind == ComputeKind::Cuda {
                            v.compute_version
                        } else {
                            None
                        },
                    },
                )
            },
        }
    }
}

// ---------------------------------------------------------------------------
// Executable code
// ---------------------------------------------------------------------------
pub fn subdir_for(variant: &Variant) -> (r: Result<&'static str, UnsupportedVariant>)
    ensures
        r matches Ok(s) ==> spec_subdir(variant@.arch, variant@.os) == Some(s@),
        r matches Err(e) ==> spec_subdir(variant@.arch, variant@.os) is None && e@
            == (UnsupportedVariantView::NoSubdir { arch: variant@.arch, os: variant@.os }),
{
    let arch = chars_of(variant.arch.as_str());
    let os = chars_of(variant.os.as_str());
    let a = arch.as_slice();
    let o = os.as_slice();
    if chars_eq_str(a, "x86_64") && chars_eq_str(o, "linux") {
        Ok("linux-64")
    } else if chars_eq_str(a, "aarch64") && chars_eq_str(o, "linux") {
        Ok("linux-aarch64")
    } else if chars_eq_str(a, "x86_64") && chars_eq_str(o, "windows") {
        Ok("win-64")
    } else if chars_eq_str(a, "aarch64") && chars_eq_str(o, "darwin") {
        Ok("osx-arm64")
    } else if chars_eq_str(a, "x86_64") && chars_eq_str(o, "darwin") {
        Ok("osx-64")
    } else {
        Err(UnsupportedVariant::NoSubdir { arch: variant.arch.clone(), os: variant.os.clone() })
    }
}

/// Turn one build variant into a [`CondaRecord`].
pub fn map_variant(variant: &Variant, opts: &MapOptions) -> (r: Result<CondaRecord, UnsupportedVariant>)
    requires
        !(opts.require_cxx11 && variant@.spec_is_cxx98()) && spec_subdir(variant@.arch, variant@.os) is Some
            ==> variant@.has_toolkit_version(),
    ensures
        r matches Ok(rec) ==> spec_map_variant(variant@, opts@) == Ok::<
            CondaRecordView,
            UnsupportedVariantView,
        >(rec@),
        r matches Err(e) ==> spec_map_variant(variant@, opts@) == Err::<
            CondaRecordView,
            UnsupportedVariantView,
        >(e@),
{
    // Drop only the pre-C++11 ABI; Windows/metal variants carry no ABI tag.
    if opts.require_cxx11 && variant.is_cxx98() {
        return Err(UnsupportedVariant::Cxx98(variant.raw.clone()));
    }
    let subdir = match subdir_for(variant) {
        Ok(s) => s.to_string(),
        Err(e) => {
            return Err(e);
        },
    };

    // --- framework (torch) -------------------------------------------------
    let mut torch_pin = conda_framework_name(variant.framework.as_str());
    torch_pin.append(" ");
    torch_pin.append(variant.framework_version.as_str());
    torch_pin.append(".*");
    let mut depends: Vec<String> = Vec::new();
    depends.push(torch_pin.clone());

    // --- compute backend ---------------------------------------------------
    let mut constrains: Vec<String> = Vec::new();
    let mut cuda_floor: Option<String> = None;
    match variant.compute_kind {
        ComputeKind::Cuda => {
            let v = variant.compute_version.as_ref().unwrap();
            cuda_floor = Some(v.clone());
            let mut c1 = String::from_str("__cuda >=");
            c1.append(v.as_str());
            constrains.push(c1);
            let mut c2 = String::from_str("cuda-version >=");
            c2.append(v.as_str());
            constrains.push(c2);
        },
        ComputeKind::Rocm => {
            let v = variant.compute_version.as_ref().unwrap();
            let mut c = String::from_str("__hip >=");
            c.append(v.as_str());
            constrains.push(c);
        },
        ComputeKind::Cpu | ComputeKind::Metal => {},
    }

    // --- compute capability -> __cuda_arch ---------------------------------
    if variant.compute_kind == ComputeKind::Cuda && opts.cuda_capabilities.len() > 0 {
        if let Some(floor) = min_capability(opts.cuda_capabilities.as_slice()) {
            let mut c = String::from_str("__cuda_arch >=");
            c.append(floor.as_str());
            constrains.push(c);
        }
    }
    let ghost torch_pin_view = torch_pin@;
    let rec = CondaRecord {
        name: opts.package_name.clone(),
        version: opts.version.clone(),
        build: build_string(variant),
        build_number: opts.build_number,
        subdir,
        depends,
        constrains,
        variant: variant.raw.clone(),
        torch_pin,
        cuda_floor,
    };
    assert(rec@.depends =~= seq![torch_pin_view]);
    assert(rec@.constrains =~= spec_constrains(variant@, opts@.cuda_capabilities));
    Ok(rec)
}

/// HF framework tag -> conda package name.
fn conda_framework_name(framework: &str) -> (r: String)
    ensures
        r@ == spec_framework_package(framework@),
{
    let f = chars_of(framework);
    if chars_eq_str(f.as_slice(), "torch") {
        String::from_str("pytorch")
    } else {
        framework.to_string()
    }
}

/// Human-readable, unique-per-variant build string (subdir carries arch/os).
pub fn build_string(variant: &Variant) -> (s: String)
    ensures
        s@ == spec_build_string(variant@),
{
    let mut fw = variant.framework.clone();
    let fv = chars_of(variant.framework_version.as_str());
    let fv_digits = without_char(fv.as_slice(), '.');
    push_chars(&mut fw, fv_digits.as_slice());
    let mut compute = String::from_str(variant.compute_kind.as_str());
    match &variant.compute_version {
        Some(v) => {
            let vc = chars_of(v.as_str());
            let vd = without_char(vc.as_slice(), '.');
            push_chars(&mut compute, vd.as_slice());
        },
        None => {},
    }
    // Omit the ABI segment when the variant carried none (Windows/metal).
    if variant.has_abi_tag() {
        fw.append("_");
        fw.append(variant.cxx_abi.as_str());
        fw.append("_");
        fw.append(compute.as_str());
    } else {
        fw.append("_");
        fw.append(compute.as_str());
    }
    fw
}

fn parse_or_zero(s: &[char]) -> (r: u32)
    ensures
        r as nat == parsed_or_zero(s@),
{
    match parse_u32(s) {
        Some(v) => v,
        None => 0,
    }
}

fn cap_key(cap: &str) -> (k: (u32, u32))
    ensures
        (k.0 as nat, k.1 as nat) == spec_cap_key(cap@),
{
    let c = chars_of(cap);
    match find(c.as_slice(), '.') {
        Some(i) => {
            proof {
                lemma_find_char_spec(c@, '.');
            }
            let major = slice_chars(c.as_slice(), 0, i);
            let minor = slice_chars(c.as_slice(), i + 1, c.len());
            assert(major@ =~= c@.take(i as int));
            assert(minor@ =~= c@.skip(i + 1));
            (parse_or_zero(major.as_slice()), parse_or_zero(minor.as_slice()))
        },
        None => {
            let zero = chars_of("0");
            (parse_or_zero(c.as_slice()), parse_or_zero(zero.as_slice()))
        },
    }
}

/// The `__cuda_arch` floor for a repo: the lowest capability its fatbins list
/// (constant across variants). `None` when unspecified ("all capabilities").
pub fn cuda_arch_floor(caps: &[String]) -> (r: Option<String>)
    ensures
        r.deep_view() == spec_min_capability(string_views(caps@)),
{
    min_capability(caps)
}

/// Lowest capability in the list, normalized to `major.minor`.
fn min_capability(caps: &[String]) -> (r: Option<String>)
    ensures
        r.deep_view() == spec_min_capability(string_views(caps@)),
{
    if caps.len() == 0 {
        return None;
    }
    let ghost views = string_views(caps@);
    let mut best = cap_key(caps[0].as_str());
    let mut i: usize = 1;
    assert(views.take(1).drop_last().len() == 0);
    while i < caps.len()
        invariant
            1 <= i <= caps.len(),
            views == string_views(caps@),
            (best.0 as nat, best.1 as nat) == spec_min_key(views.take(i as int)),
        decreases caps.len() - i,
    {
        let k = cap_key(caps[i].as_str());
        assert(views.take(i + 1).drop_last() =~= views.take(i as int));
        assert(views.take(i + 1).last() == caps@[i as int]@);
        if k.0 < best.0 || (k.0 == best.0 && k.1 < best.1) {
            best = k;
        }
        i = i + 1;
    }
    assert(views.take(caps.len() as int) =~= views);
    let mut s = String::new();
    let maj = decimal_chars(best.0 as u64);
    push_chars(&mut s, maj.as_slice());
    s.append(".");
    let min = decimal_chars(best.1 as u64);
    push_chars(&mut s, min.as_slice());
    Some(s)
}

/// Distinct variants on one subdir get distinct build strings: two variant
/// names that parse, map to the same subdir and give the same build string
/// are the same name.
pub proof fn lemma_build_string_unique(n1: Seq<char>, n2: Seq<char>, v1: VariantView, v2: VariantView)
    requires
        spec_parse_variant(n1) == Ok::<VariantView, ParseErrorView>(v1),
        spec_parse_variant(n2) == Ok::<VariantView, ParseErrorView>(v2),
        spec_subdir(v1.arch, v1.os) is Some,
        spec_subdir(v1.arch, v1.os) == spec_subdir(v2.arch, v2.os),
        spec_build_string(v1) == spec_build_string(v2),
    ensures
        n1 == n2,
{
    lemma_subdir_one_to_one(v1.arch, v1.os, v2.arch, v2.os);
    lemma_parsed_shape(n1);
    lemma_parsed_shape(n2);
    lemma_shaped_build_string_unique(v1, v2);
    assert(compute_token(v1) == compute_token(v2));
    assert(variant_parts(v1) == variant_parts(v2));
    lemma_join_split(n1, '-');
    lemma_join_split(n2, '-');
}

/// Each subdir comes from one arch and os only.
proof fn lemma_subdir_one_to_one(a1: Seq<char>, o1: Seq<char>, a2: Seq<char>, o2: Seq<char>)
    requires
        spec_subdir(a1, o1) is Some,
        spec_subdir(a1, o1) == spec_subdir(a2, o2),
    ensures
        a1 == a2,
        o1 == o2,
{
    reveal_strlit("linux-64");
    reveal_strlit("linux-aarch64");
    reveal_strlit("win-64");
    reveal_strlit("osx-arm64");
    reveal_strlit("osx-64");
    assert("linux-64"@.len() == 8);
    assert("linux-aarch64"@.len() == 13);
    assert("win-64"@.len() == 6);
    assert("osx-arm64"@.len() == 9);
    assert("osx-64"@.len() == 6);
    assert("win-64"@[0] != "osx-64"@[0]);
}

proof fn lemma_shaped_build_string_unique(v1: VariantView, v2: VariantView)
    requires
        parsed_shape(v1),
        parsed_shape(v2),
        spec_build_string(v1) == spec_build_string(v2),
    ensures
        v1.framework == v2.framework,
        v1.framework_version == v2.framework_version,
        v1.cxx_abi == v2.cxx_abi,
        v1.compute_kind == v2.compute_kind,
        v1.compute_version == v2.compute_version,
{
    let d1 = remove_char(v1.framework_version, '.');
    let d2 = remove_char(v2.framework_version, '.');
    let t1 = build_tail(v1);
    let t2 = build_tail(v2);
    lemma_build_string_parts(v1);
    lemma_build_string_parts(v2);
    lemma_split_at_digit_run(spec_build_string(v1), v1.framework, d1, t1, v2.framework, d2, t2);
    lemma_tail_unique(v1, v2);
}

proof fn lemma_build_string_parts(v: VariantView)
    ensures
        spec_build_string(v) == v.framework + (remove_char(v.framework_version, '.') + (seq!['_']
            + build_tail(v))),
{
    reveal_strlit("_");
    assert(spec_build_string(v) =~= v.framework + (remove_char(v.framework_version, '.') + (
    seq!['_'] + build_tail(v))));
}

/// A text made of a digit-free name, a run of digits and an underscore
/// splits in one way only.
proof fn lemma_split_at_digit_run(
    b: Seq<char>,
    f1: Seq<char>,
    d1: Seq<char>,
    t1: Seq<char>,
    f2: Seq<char>,
    d2: Seq<char>,
    t2: Seq<char>,
)
    requires
        b == f1 + (d1 + (seq!['_'] + t1)),
        b == f2 + (d2 + (seq!['_'] + t2)),
        forall|i: int| 0 <= i < f1.len() ==> !is_ascii_digit(#[trigger] f1[i]),
        forall|i: int| 0 <= i < f2.len() ==> !is_ascii_digit(#[trigger] f2[i]),
        d1.len() > 0,
        d2.len() > 0,
        all_digits(d1),
        all_digits(d2),
    ensures
        f1 == f2,
        d1 == d2,
        t1 == t2,
{
    if f1.len() < f2.len() {
        assert(b[f1.len() as int] == d1[0]);
        assert(b[f1.len() as int] == f2[f1.len() as int]);
        assert(false);
    }
    if f2.len() < f1.len() {
        assert(b[f2.len() as int] == d2[0]);
        assert(b[f2.len() as int] == f1[f2.len() as int]);
        assert(false);
    }
    assert(f1 =~= b.take(f1.len() as int));
    assert(f2 =~= b.take(f2.len() as int));
    let x = b.skip(f1.len() as int);
    assert(x =~= d1 + (seq!['_'] + t1));
    assert(x =~= d2 + (seq!['_'] + t2));
    if d1.len() < d2.len() {
        assert(x[d1.len() as int] == '_');
        assert(x[d1.len() as int] == d2[d1.len() as int]);
        assert(false);
    }
    if d2.len() < d1.len() {
        assert(x[d2.len() as int] == '_');
        assert(x[d2.len() as int] == d1[d2.len() as int]);
        assert(false);
    }
    assert(d1 =~= x.take(d1.len() as int));
    assert(d2 =~= x.take(d2.len() as int));
    assert(t1 =~= x.skip(d1.len() + 1int));
    assert(t2 =~= x.skip(d2.len() + 1int));
}

proof fn lemma_tail_unique(v1: VariantView, v2: VariantView)
    requires
        parsed_shape(v1),
        parsed_shape(v2),
        build_tail(v1) == build_tail(v2),
    ensures
        v1.cxx_abi == v2.cxx_abi,
        v1.compute_kind == v2.compute_kind,
        v1.compute_version == v2.compute_version,
{
    reveal_strlit("_");
    reveal_strlit("none");
    reveal_strlit("cxx98");
    reveal_strlit("cxx11");
    let t = build_tail(v1);
    let c1 = build_compute(v1);
    let c2 = build_compute(v2);
    lemma_build_compute_second(v1);
    lemma_build_compute_second(v2);
    if v1.spec_has_abi_tag() {
        assert(t =~= v1.cxx_abi + (seq!['_'] + c1));
        assert(t[1] == 'x');
    } else {
        assert(t == c1);
    }
    if v2.spec_has_abi_tag() {
        assert(t =~= v2.cxx_abi + (seq!['_'] + c2));
        assert(t[1] == 'x');
    } else {
        assert(t == c2);
    }
    if v1.spec_has_abi_tag() {
        assert(v1.cxx_abi =~= t.take(5));
        assert(v2.cxx_abi =~= t.take(5));
        assert(c1 =~= t.skip(6));
        assert(c2 =~= t.skip(6));
    }
    lemma_compute_unique(v1, v2);
}

proof fn lemma_compute_unique(v1: VariantView, v2: VariantView)
    requires
        parsed_shape(v1),
        parsed_shape(v2),
        build_compute(v1) == build_compute(v2),
    ensures
        v1.compute_kind == v2.compute_kind,
        v1.compute_version == v2.compute_version,
{
    let c = build_compute(v1);
    lemma_build_compute_second(v1);
    lemma_build_compute_second(v2);
    assert(v1.compute_kind == v2.compute_kind);
    let k = v1.compute_kind.spec_name();
    if v1.compute_version is Some {
        let r1 = remove_char(v1.compute_version->0, '.');
        let r2 = remove_char(v2.compute_version->0, '.');
        assert(c =~= k + r1);
        assert(c =~= k + r2);
        assert(r1 =~= c.skip(k.len() as int));
        assert(r2 =~= c.skip(k.len() as int));
    }
}

/// The compute part of a build string: the backend name, then the toolkit
/// version's digits.
spec fn build_compute(v: VariantView) -> Seq<char> {
    match v.compute_version {
        Some(cv) => v.compute_kind.spec_name() + remove_char(cv, '.'),
        None => v.compute_kind.spec_name(),
    }
}

/// What follows the framework part and its underscore in a build string.
spec fn build_tail(v: VariantView) -> Seq<char> {
    if v.spec_has_abi_tag() {
        v.cxx_abi + "_"@ + build_compute(v)
    } else {
        build_compute(v)
    }
}

proof fn lemma_build_compute_second(v: VariantView)
    ensures
        build_compute(v).len() >= 3,
        build_compute(v)[1] != 'x',
        build_compute(v)[0] == 'c' && build_compute(v)[1] == 'p' <==> v.compute_kind == ComputeKind::Cpu,
        build_compute(v)[0] == 'c' && build_compute(v)[1] == 'u' <==> v.compute_kind == ComputeKind::Cuda,
        build_compute(v)[0] == 'm' <==> v.compute_kind == ComputeKind::Metal,
        build_compute(v)[0] == 'r' <==> v.compute_kind == ComputeKind::Rocm,
{
    reveal_strlit("cpu");
    reveal_strlit("cuda");
    reveal_strlit("rocm");
    reveal_strlit("metal");
    let k = v.compute_kind.spec_name();
    assert(build_compute(v)[0] == k[0] && build_compute(v)[1] == k[1]);
}

/// What mapping a variant gives. It fails exactly for a cxx98 variant when
/// cxx11 is required (that check first) and for an arch and os without a
/// subdir. A record carries the options' name, version and build number,
/// the variant's subdir, a pin of the framework package to the variant's
/// framework minor, and its build string. A CUDA variant with toolkit `cv`
/// is constrained by `__cuda >=cv` and `cuda-version >=cv` whatever the
/// capabilities, plus `__cuda_arch >=` the lowest capability exactly when
/// some are listed; a ROCm one by `__hip >=cv` alone; cpu and metal by
/// nothing. Only CUDA records carry a toolkit floor.
pub proof fn lemma_map_variant_record(v: VariantView, o: MapOptionsView)
    ensures
        spec_map_variant(v, o) is Ok <==> !(o.require_cxx11 && v.spec_is_cxx98()) && spec_subdir(
            v.arch,
            v.os,
        ) is Some,
        o.require_cxx11 && v.spec_is_cxx98() ==> spec_map_variant(v, o) == Err::<
            CondaRecordView,
            UnsupportedVariantView,
        >(UnsupportedVariantView::Cxx98(v.raw)),
        !(o.require_cxx11 && v.spec_is_cxx98()) && spec_subdir(v.arch, v.os) is None
            ==> spec_map_variant(v, o) == Err::<CondaRecordView, UnsupportedVariantView>(
            UnsupportedVariantView::NoSubdir { arch: v.arch, os: v.os },
        ),
        spec_map_variant(v, o) matches Ok(r) ==> {
            &&& Some(r.subdir) == spec_subdir(v.arch, v.os)
            &&& r.name == o.package_name
            &&& r.version == o.version
            &&& r.build_number == o.build_number
            &&& r.variant == v.raw
            &&& r.build == spec_build_string(v)
            &&& r.torch_pin == spec_framework_package(v.framework) + " "@ + v.framework_version + ".*"@
            &&& r.depends == seq![r.torch_pin]
            &&& (v.compute_kind == ComputeKind::Cuda && v.compute_version is Some) ==> {
                let cv = v.compute_version->0;
                &&& r.constrains.contains("__cuda >="@ + cv)
                &&& r.constrains.contains("cuda-version >="@ + cv)
                &&& r.constrains.len() == (if o.cuda_capabilities.len() > 0 {
                    3int
                } else {
                    2int
                })
                &&& o.cuda_capabilities.len() > 0 ==> r.constrains.contains(
                    "__cuda_arch >="@ + spec_min_capability(o.cuda_capabilities)->0,
                )
                &&& r.cuda_floor == Some(cv)
            }
            &&& (v.compute_kind == ComputeKind::Rocm && v.compute_version is Some) ==> {
                &&& r.constrains == seq!["__hip >="@ + v.compute_version->0]
                &&& r.cuda_floor is None
            }
            &&& (v.compute_kind == ComputeKind::Cpu || v.compute_kind == ComputeKind::Metal) ==> {
                &&& r.constrains.len() == 0
                &&& r.cuda_floor is None
            }
        },
{
    if spec_map_variant(v, o) is Ok {
        let r = spec_map_variant(v, o)->Ok_0;
        if v.compute_kind == ComputeKind::Cuda && v.compute_version is Some {
            let cv = v.compute_version->0;
            assert(r.constrains[0] == "__cuda >="@ + cv);
            assert(r.constrains[1] == "cuda-version >="@ + cv);
            if o.cuda_capabilities.len() > 0 {
                assert(r.constrains[2] == "__cuda_arch >="@ + spec_min_capability(
                    o.cuda_capabilities,
                )->0);
            }
        }
    }
}

/// The `__cuda_arch` floor depends only on which capabilities are listed,
/// not on their order or repeats; there is one exactly when some capability
/// is listed.
pub proof fn lemma_min_capability_order_free(caps: Seq<Seq<char>>, other: Seq<Seq<char>>)
    requires
        caps.to_set() == other.to_set(),
    ensures
        spec_min_capability(caps) == spec_min_capability(other),
        spec_min_capability(caps) is None <==> caps.len() == 0,
{
    if caps.len() > 0 {
        assert(caps.to_set().contains(caps[0]));
        assert(other.contains(caps[0]));
    }
    if other.len() > 0 {
        assert(other.to_set().contains(other[0]));
        assert(caps.contains(other[0]));
    }
    if caps.len() > 0 && other.len() > 0 {
        lemma_min_key_is_least(caps);
        lemma_min_key_is_least(other);
        let i = choose|i: int| 0 <= i < caps.len() && spec_cap_key(caps[i]) == spec_min_key(caps);
        let j = choose|j: int| 0 <= j < other.len() && spec_cap_key(other[j]) == spec_min_key(other);
        assert(caps.to_set().contains(caps[i]));
        assert(other.contains(caps[i]));
        let i2 = choose|k: int| 0 <= k < other.len() && other[k] == caps[i];
        assert(key_le(spec_min_key(other), spec_cap_key(other[i2])));
        assert(other.to_set().contains(other[j]));
        assert(caps.contains(other[j]));
        let j2 = choose|k: int| 0 <= k < caps.len() && caps[k] == other[j];
        assert(key_le(spec_min_key(caps), spec_cap_key(caps[j2])));
    }
}

/// The `__cuda_arch` floor is the lowest capability listed: its key orders
/// at or below the key of every listed capability, and some listed
/// capability has it.
pub proof fn lemma_min_key_is_least(caps: Seq<Seq<char>>)
    requires
        caps.len() > 0,
    ensures
        forall|i: int| 0 <= i < caps.len() ==> key_le(spec_min_key(caps), #[trigger] spec_cap_key(caps[i])),
        exists|i: int| 0 <= i < caps.len() && spec_cap_key(caps[i]) == spec_min_key(caps),
    decreases caps.len(),
{
    if caps.len() == 1 {
        assert(spec_cap_key(caps[0]) == spec_min_key(caps));
    } else {
        let prev = caps.drop_last();
        lemma_min_key_is_least(prev);
        let m = spec_min_key(prev);
        let k = spec_cap_key(caps.last());
        assert forall|i: int| 0 <= i < caps.len() implies key_le(
            spec_min_key(caps),
            #[trigger] spec_cap_key(caps[i]),
        ) by {
            if i < caps.len() - 1 {
                assert(caps[i] == prev[i]);
                assert(key_le(m, spec_cap_key(prev[i])));
            }
        }
        if key_lt(k, m) {
            assert(spec_cap_key(caps[caps.len() - 1]) == spec_min_key(caps));
        } else {
            let j = choose|j: int| 0 <= j < prev.len() && spec_cap_key(prev[j]) == m;
            assert(caps[j] == prev[j]);
        }
    }
}

} // verus!
