//! Parsing of Hugging Face kernel *build variants*.
//!
//! A kernel repository on the Hub contains a `build/` directory whose
//! sub-directories are named following the template
//! `<framework><version>-cxx<abiver>-<computebackend>-<arch>-<os>`,
//! for example `torch26-cxx98-cu118-x86_64-linux`. Windows and metal
//! variants drop the `cxx*` field (`torch210-cu128-x86_64-windows`).
use vstd::prelude::*;

use crate::text::{
    all_digits, lemma_remove_char_absent, lemma_remove_char_concat, remove_char, chars_eq_str, chars_of, decimal, decimal_chars, has_prefix, is_ascii_digit, parse_u32,
    push_chars, slice_chars, spec_parse_u32, split_chars, split_on, starts_with, string_from_chars,
    char_vec_views,
};

verus! {

#[derive(Debug, Clone, Copy, PartialEq, Eq, Structural)]
pub enum ComputeKind {
    Cuda,
    Rocm,
    Cpu,
    Metal,
}

impl ComputeKind {
    pub open spec fn spec_name(self) -> Seq<char> {
        match self {
            ComputeKind::Cuda => "cuda"@,
            ComputeKind::Rocm => "rocm"@,
            ComputeKind::Cpu => "cpu"@,
            ComputeKind::Metal => "metal"@,
        }
    }

    /// The lower-case name of the backend (`cuda`, `rocm`, `cpu`, `metal`).
    pub fn as_str(self) -> (s: &'static str)
        ensures
            s@ == self.spec_name(),
    {
        match self {
            ComputeKind::Cuda => "cuda",
            ComputeKind::Rocm => "rocm",
            ComputeKind::Cpu => "cpu",
            ComputeKind::Metal => "metal",
        }
    }
}

/// C++ ABI tag when a variant omits one (Windows / metal have no libstdc++
/// ABI split, so their directory names drop the `cxx*` field).
pub const ABI_NONE: &'static str = "none";

#[derive(Debug, Clone, PartialEq, Eq)]
pub struct Variant {
    pub raw: String,
    pub framework: String,
    pub framework_version: String,
    pub cxx_abi: String,
    pub compute_kind: ComputeKind,
    pub compute_version: Option<String>,
    pub arch: String,
    pub os: String,
}

/// A [`Variant`] with every string taken as its characters.
pub struct VariantView {
    pub raw: Seq<char>,
    pub framework: Seq<char>,
    pub framework_version: Seq<char>,
    pub cxx_abi: Seq<char>,
    pub compute_kind: ComputeKind,
    pub compute_version: Option<Seq<char>>,
    pub arch: Seq<char>,
    pub os: Seq<char>,
}

impl View for Variant {
    type V = VariantView;

    open spec fn view(&self) -> VariantView {
        VariantView {
            raw: self.raw@,
            framework: self.framework@,
            framework_version: self.framework_version@,
            cxx_abi: self.cxx_abi@,
            compute_kind: self.compute_kind,
            compute_version: self.compute_version.deep_view(),
            arch: self.arch@,
            os: self.os@,
        }
    }
}

impl VariantView {
    /// CUDA and ROCm variants carry a toolkit version; cpu and metal do not.
    pub open spec fn wf(self) -> bool {
        (self.compute_kind == ComputeKind::Cuda || self.compute_kind == ComputeKind::Rocm)
            <==> self.compute_version is Some
    }

    /// CUDA and ROCm variants carry a toolkit version (what mapping needs;
    /// a cpu or metal variant may carry one too).
    pub open spec fn has_toolkit_version(self) -> bool {
        (self.compute_kind == ComputeKind::Cuda || self.compute_kind == ComputeKind::Rocm)
            ==> self.compute_version is Some
    }

    pub open spec fn spec_is_cxx98(self) -> bool {
        self.cxx_abi == "cxx98"@
    }

    pub open spec fn spec_has_abi_tag(self) -> bool {
        self.cxx_abi != ABI_NONE@
    }
}

impl Variant {
    /// The old pre-C++11 ABI, incompatible with conda-forge's cxx11 stack.
    pub fn is_cxx98(&self) -> (r: bool)
        ensures
            r == self@.spec_is_cxx98(),
    {
        let abi = chars_of(self.cxx_abi.as_str());
        chars_eq_str(abi.as_slice(), "cxx98")
    }

    /// Whether the directory name carried a `cxx*` ABI tag at all.
    pub fn has_abi_tag(&self) -> (r: bool)
        ensures
            r == self@.spec_has_abi_tag(),
    {
        let abi = chars_of(self.cxx_abi.as_str());
        !chars_eq_str(abi.as_slice(), ABI_NONE)
    }
}

#[derive(Debug, PartialEq, Eq)]
pub enum ParseError {
    FieldCount(String, usize),
    Framework(String, String),
    Abi(String, String),
    Compute(String, String),
}

pub enum ParseErrorView {
    FieldCount(Seq<char>, nat),
    Framework(Seq<char>, Seq<char>),
    Abi(Seq<char>, Seq<char>),
    Compute(Seq<char>, Seq<char>),
}

impl View for ParseError {
    type V = ParseErrorView;

    open spec fn view(&self) -> ParseErrorView {
        match self {
            ParseError::FieldCount(n, c) => ParseErrorView::FieldCount(n@, *c as nat),
            ParseError::Framework(n, f) => ParseErrorView::Framework(n@, f@),
            ParseError::Abi(n, a) => ParseErrorView::Abi(n@, a@),
            ParseError::Compute(n, c) => ParseErrorView::Compute(n@, c@),
        }
    }
}

/// What `{:?}` prints for a string: the text in double quotes with
/// characters escaped as `str::escape_debug` escapes them.
pub uninterp spec fn debug_quoted(s: Seq<char>) -> Seq<char>;

/// `format!("{s:?}")`: the quoted, escaped form of a string.
#[verifier::external_body]
pub fn debug_quote(s: &str) -> (r: String)
    ensures
        r@ == debug_quoted(s@),
{
    format!("{s:?}")
}

impl ParseErrorView {
    /// The error's message.
    pub open spec fn message(self) -> Seq<char> {
        match self {
            ParseErrorView::FieldCount(n, c) => "variant "@ + debug_quoted(n)
                + ": expected 4 or 5 dash-separated fields, got "@ + decimal(c),
            ParseErrorView::Framework(n, f) => "variant "@ + debug_quoted(n)
                + ": cannot parse framework "@ + debug_quoted(f),
            ParseErrorView::Abi(n, a) => "variant "@ + debug_quoted(n) + ": unknown C++ ABI tag "@
                + debug_quoted(a),
            ParseErrorView::Compute(n, c) => "variant "@ + debug_quoted(n)
                + ": cannot parse compute backend "@ + debug_quoted(c),
        }
    }
}

impl ParseError {
    /// The error's message, as its `Display` would print it.
    pub fn to_string(&self) -> (s: String)
        ensures
            s@ == self@.message(),
    {
        let mut s = String::from_str("variant ");
        match self {
            ParseError::FieldCount(n, c) => {
                s.append(debug_quote(n.as_str()).as_str());
                s.append(": expected 4 or 5 dash-separated fields, got ");
                let d = decimal_chars(*c as u64);
                push_chars(&mut s, d.as_slice());
            },
            ParseError::Framework(n, f) => {
                s.append(debug_quote(n.as_str()).as_str());
                s.append(": cannot parse framework ");
                s.append(debug_quote(f.as_str()).as_str());
            },
            ParseError::Abi(n, a) => {
                s.append(debug_quote(n.as_str()).as_str());
                s.append(": unknown C++ ABI tag ");
                s.append(debug_quote(a.as_str()).as_str());
            },
            ParseError::Compute(n, c) => {
                s.append(debug_quote(n.as_str()).as_str());
                s.append(": cannot parse compute backend ");
                s.append(debug_quote(c.as_str()).as_str());
            },
        }
        s
    }
}

// ---------------------------------------------------------------------------
// The grammar of a variant name
// ---------------------------------------------------------------------------
/// Index of the first ASCII digit of `s`.
pub open spec fn first_digit(s: Seq<char>) -> Option<int>
    decreases s.len(),
{
    if s.len() == 0 {
        None
    } else if is_ascii_digit(s[0]) {
        Some(0)
    } else {
        match first_digit(s.drop_first()) {
            Some(i) => Some(i + 1),
            None => None,
        }
    }
}

/// `torch26` -> (`torch`, `2.6`): a non-empty name, then at least two
/// digits; the first digit is the major version, the rest the minor.
pub open spec fn spec_parse_framework(token: Seq<char>) -> Option<(Seq<char>, Seq<char>)> {
    match first_digit(token) {
        None => None,
        Some(k) => {
            let name = token.take(k);
            let digits = token.skip(k);
            if name.len() == 0 || digits.len() < 2 || !all_digits(digits) {
                None
            } else {
                Some((name, seq![digits[0], '.'] + digits.skip(1)))
            }
        },
    }
}

/// `118` -> `11.8`: at least two digits, the last one is the minor; the
/// digits stay as written, and the major must denote a `u32`.
pub open spec fn spec_split_version(digits: Seq<char>) -> Option<Seq<char>> {
    if digits.len() < 2 || !all_digits(digits) || spec_parse_u32(digits.drop_last()) is None {
        None
    } else {
        Some(digits.drop_last() + seq!['.', digits.last()])
    }
}

/// `cu118` -> (Cuda, `11.8`); `rocm62` -> (Rocm, `6.2`); `cpu` and `metal`
/// carry no version.
pub open spec fn spec_parse_compute(token: Seq<char>) -> Option<(ComputeKind, Option<Seq<char>>)> {
    if token == "cpu"@ {
        Some((ComputeKind::Cpu, None))
    } else if token == "metal"@ {
        Some((ComputeKind::Metal, None))
    } else if has_prefix(token, "cu"@) {
        match spec_split_version(token.skip("cu"@.len() as int)) {
            Some(v) => Some((ComputeKind::Cuda, Some(v))),
            None => None,
        }
    } else if has_prefix(token, "rocm"@) {
        match spec_split_version(token.skip("rocm"@.len() as int)) {
            Some(v) => Some((ComputeKind::Rocm, Some(v))),
            None => None,
        }
    } else {
        None
    }
}

/// The ABI tag accepted in the second field of a five-field name.
pub open spec fn spec_abi(abi: Option<Seq<char>>) -> Option<Seq<char>> {
    match abi {
        None => Some(ABI_NONE@),
        Some(a) => if a == "cxx98"@ || a == "cxx11"@ {
            Some(a)
        } else {
            None
        },
    }
}

/// The meaning of a build-variant directory name.
pub open spec fn spec_parse_variant(name: Seq<char>) -> Result<VariantView, ParseErrorView> {
    let parts = split_on(name, '-');
    let n = parts.len();
    if n != 5 && n != 4 {
        Err(ParseErrorView::FieldCount(name, n))
    } else {
        let fw_raw = parts[0];
        let abi_raw = if n == 5 {
            Some(parts[1])
        } else {
            None
        };
        let compute_raw = parts[n - 3];
        match spec_parse_framework(fw_raw) {
            None => Err(ParseErrorView::Framework(name, fw_raw)),
            Some((framework, framework_version)) => match spec_abi(abi_raw) {
                None => Err(ParseErrorView::Abi(name, abi_raw->0)),
                Some(cxx_abi) => match spec_parse_compute(compute_raw) {
                    None => Err(ParseErrorView::Compute(name, compute_raw)),
                    Some((compute_kind, compute_version)) => Ok(
                        VariantView {
                            raw: name,
                            framework,
                            framework_version,
                            cxx_abi,
                            compute_kind,
                            compute_version,
                            arch: parts[n - 2],
                            os: parts[n - 1],
                        },
                    ),
                },
            },
        }
    }
}

proof fn lemma_first_digit_at(s: Seq<char>, i: int)
    requires
        0 <= i < s.len(),
        is_ascii_digit(s[i]),
        forall|k: int| 0 <= k < i ==> !is_ascii_digit(#[trigger] s[k]),
    ensures
        first_digit(s) == Some(i),
    decreases i,
{
    if i > 0 {
        assert forall|k: int| 0 <= k < i - 1 implies !is_ascii_digit(#[trigger] s.drop_first()[k]) by {
            assert(s.drop_first()[k] == s[k + 1]);
        }
        lemma_first_digit_at(s.drop_first(), i - 1);
    }
}

proof fn lemma_first_digit_none(s: Seq<char>)
    requires
        forall|k: int| 0 <= k < s.len() ==> !is_ascii_digit(#[trigger] s[k]),
    ensures
        first_digit(s) is None,
    decreases s.len(),
{
    if s.len() > 0 {
        assert forall|k: int| 0 <= k < s.len() - 1 implies !is_ascii_digit(
            #[trigger] s.drop_first()[k],
        ) by {
            assert(s.drop_first()[k] == s[k + 1]);
        }
        lemma_first_digit_none(s.drop_first());
    }
}

proof fn lemma_first_digit_found(s: Seq<char>)
    ensures
        first_digit(s) matches Some(k) ==> {
            &&& 0 <= k < s.len()
            &&& is_ascii_digit(s[k])
            &&& forall|j: int| 0 <= j < k ==> !is_ascii_digit(#[trigger] s[j])
        },
    decreases s.len(),
{
    if s.len() > 0 && !is_ascii_digit(s[0]) {
        lemma_first_digit_found(s.drop_first());
        if let Some(k) = first_digit(s) {
            assert forall|j: int| 0 <= j < k implies !is_ascii_digit(#[trigger] s[j]) by {
                if j > 0 {
                    assert(s[j] == s.drop_first()[j - 1]);
                }
            }
        }
    }
}

/// The shape of a parsed variant: a framework name without digits; a
/// framework version that is its digits with a dot after the first; one of
/// the three ABI tags; and, for CUDA and ROCm only, a toolkit version that
/// is its digits with a dot before the last.
pub open spec fn parsed_shape(v: VariantView) -> bool {
    let d = remove_char(v.framework_version, '.');
    &&& v.framework.len() > 0
    &&& forall|i: int| 0 <= i < v.framework.len() ==> !is_ascii_digit(#[trigger] v.framework[i])
    &&& d.len() >= 2
    &&& all_digits(d)
    &&& v.framework_version == seq![d[0], '.'] + d.skip(1)
    &&& (v.cxx_abi == ABI_NONE@ || v.cxx_abi == "cxx98"@ || v.cxx_abi == "cxx11"@)
    &&& v.wf()
    &&& match v.compute_version {
        None => true,
        Some(cv) => {
            let r = remove_char(cv, '.');
            &&& r.len() >= 2
            &&& all_digits(r)
            &&& cv == r.drop_last() + seq!['.', r.last()]
        },
    }
}

proof fn lemma_digits_keep_dots_out(s: Seq<char>)
    requires
        all_digits(s),
    ensures
        remove_char(s, '.') == s,
{
    assert forall|i: int| 0 <= i < s.len() implies s[i] != '.' by {
        assert(is_ascii_digit(s[i]));
    }
    lemma_remove_char_absent(s, '.');
}

proof fn lemma_split_version_shape(digits: Seq<char>)
    requires
        spec_split_version(digits) is Some,
    ensures
        remove_char(spec_split_version(digits)->0, '.') == digits,
        ({
            let cv = spec_split_version(digits)->0;
            let r = remove_char(cv, '.');
            &&& r.len() >= 2
            &&& all_digits(r)
            &&& cv == r.drop_last() + seq!['.', r.last()]
        }),
{
    let m = digits.drop_last();
    let last = digits.last();
    assert(all_digits(m));
    assert(is_ascii_digit(digits[digits.len() - 1]));
    let cv = m + seq!['.', last];
    assert(cv =~= m + (seq!['.'] + seq![last]));
    lemma_remove_char_concat(m, seq!['.'] + seq![last], '.');
    lemma_remove_char_concat(seq!['.'], seq![last], '.');
    lemma_digits_keep_dots_out(m);
    lemma_digits_keep_dots_out(seq![last]);
    assert(remove_char(seq!['.'], '.') =~= Seq::<char>::empty()) by {
        reveal_with_fuel(remove_char, 2);
        assert(seq!['.'].drop_last() =~= Seq::<char>::empty());
    }
    let r = remove_char(cv, '.');
    assert(r =~= m.push(last));
    assert(r =~= digits);
    assert(r.drop_last() =~= m);
}

/// The compute field of a variant name: `cpu`, `metal`, or `cu` / `rocm`
/// followed by the toolkit version's digits.
pub open spec fn compute_token(v: VariantView) -> Seq<char> {
    let digits = match v.compute_version {
        Some(cv) => remove_char(cv, '.'),
        None => Seq::empty(),
    };
    match v.compute_kind {
        ComputeKind::Cpu => "cpu"@,
        ComputeKind::Metal => "metal"@,
        ComputeKind::Cuda => "cu"@ + digits,
        ComputeKind::Rocm => "rocm"@ + digits,
    }
}

/// The dash-separated fields of the name a variant is written as.
pub open spec fn variant_parts(v: VariantView) -> Seq<Seq<char>> {
    seq![v.framework + remove_char(v.framework_version, '.')] + (if v.spec_has_abi_tag() {
        seq![v.cxx_abi]
    } else {
        Seq::empty()
    }) + seq![compute_token(v), v.arch, v.os]
}

/// Every variant that parses has the shape [`parsed_shape`] describes.
pub proof fn lemma_parsed_shape(name: Seq<char>)
    requires
        spec_parse_variant(name) is Ok,
    ensures
        parsed_shape(spec_parse_variant(name)->Ok_0),
        split_on(name, '-') == variant_parts(spec_parse_variant(name)->Ok_0),
{
    let parts = split_on(name, '-');
    let n = parts.len();
    let fw_raw = parts[0];
    let k = first_digit(fw_raw)->0;
    lemma_first_digit_found(fw_raw);
    let digits = fw_raw.skip(k);
    let v = spec_parse_variant(name)->Ok_0;
    assert(v.framework == fw_raw.take(k));
    assert forall|i: int| 0 <= i < v.framework.len() implies !is_ascii_digit(
        #[trigger] v.framework[i],
    ) by {
        assert(v.framework[i] == fw_raw[i]);
    }
    let fv = seq![digits[0], '.'] + digits.skip(1);
    assert(v.framework_version == fv);
    assert(fv =~= seq![digits[0]] + (seq!['.'] + digits.skip(1)));
    lemma_remove_char_concat(seq![digits[0]], seq!['.'] + digits.skip(1), '.');
    lemma_remove_char_concat(seq!['.'], digits.skip(1), '.');
    assert(is_ascii_digit(digits[0]));
    assert(all_digits(seq![digits[0]]));
    assert forall|i: int| 0 <= i < digits.skip(1).len() implies is_ascii_digit(
        #[trigger] digits.skip(1)[i],
    ) by {
        assert(digits.skip(1)[i] == digits[i + 1]);
    }
    lemma_digits_keep_dots_out(seq![digits[0]]);
    lemma_digits_keep_dots_out(digits.skip(1));
    assert(remove_char(seq!['.'], '.') =~= Seq::<char>::empty()) by {
        reveal_with_fuel(remove_char, 2);
        assert(seq!['.'].drop_last() =~= Seq::<char>::empty());
    }
    let d = remove_char(fv, '.');
    assert(d =~= digits);
    assert(fv =~= seq![d[0], '.'] + d.skip(1));
    let compute_raw = parts[n - 3];
    if compute_raw != "cpu"@ && compute_raw != "metal"@ {
        if has_prefix(compute_raw, "cu"@) {
            lemma_split_version_shape(compute_raw.skip("cu"@.len() as int));
            assert(compute_raw =~= "cu"@ + compute_raw.skip("cu"@.len() as int));
        } else {
            lemma_split_version_shape(compute_raw.skip("rocm"@.len() as int));
            assert(compute_raw =~= "rocm"@ + compute_raw.skip("rocm"@.len() as int));
        }
    }
    assert(compute_token(v) == compute_raw);
    assert(fw_raw =~= v.framework + d);
    reveal_strlit("none");
    reveal_strlit("cxx98");
    reveal_strlit("cxx11");
    if n == 5 {
        assert(v.cxx_abi == parts[1]);
        assert(v.spec_has_abi_tag());
        assert(parts =~= variant_parts(v));
    } else {
        assert(!v.spec_has_abi_tag());
        assert(parts =~= variant_parts(v));
    }
}

/// Whether every character of `v` is an ASCII digit.
fn chars_all_digits(v: &[char]) -> (r: bool)
    ensures
        r == all_digits(v@),
{
    let mut i: usize = 0;
    while i < v.len()
        invariant
            i <= v.len(),
            forall|k: int| 0 <= k < i ==> is_ascii_digit(#[trigger] v@[k]),
        decreases v.len() - i,
    {
        if !(v[i] >= '0' && v[i] <= '9') {
            assert(!is_ascii_digit(v@[i as int]));
            return false;
        }
        i = i + 1;
    }
    true
}

fn parse_framework(token: &[char]) -> (r: Option<(String, String)>)
    ensures
        r matches Some((n, v)) ==> spec_parse_framework(token@) == Some((n@, v@)),
        r is None ==> spec_parse_framework(token@) is None,
{
    let mut k: usize = 0;
    while k < token.len()
        invariant
            k <= token.len(),
            forall|j: int| 0 <= j < k ==> !is_ascii_digit(#[trigger] token@[j]),
        ensures
            k <= token.len(),
            forall|j: int| 0 <= j < k ==> !is_ascii_digit(#[trigger] token@[j]),
            k < token.len() ==> is_ascii_digit(token@[k as int]),
        decreases token.len() - k,
    {
        if token[k] >= '0' && token[k] <= '9' {
            break;
        }
        k = k + 1;
    }
    if k == token.len() {
        proof {
            lemma_first_digit_none(token@);
        }
        return None;
    }
    proof {
        lemma_first_digit_at(token@, k as int);
    }
    let name = slice_chars(token, 0, k);
    let digits = slice_chars(token, k, token.len());
    assert(name@ =~= token@.take(k as int));
    assert(digits@ =~= token@.skip(k as int));
    if name.len() == 0 || digits.len() < 2 || !chars_all_digits(digits.as_slice()) {
        return None;
    }
    let mut version: Vec<char> = Vec::new();
    version.push(digits[0]);
    version.push('.');
    let rest = slice_chars(digits.as_slice(), 1, digits.len());
    let mut i: usize = 0;
    while i < rest.len()
        invariant
            i <= rest.len(),
            digits.len() >= 2,
            version@ == seq![digits@[0], '.'] + rest@.take(i as int),
        decreases rest.len() - i,
    {
        version.push(rest[i]);
        i = i + 1;
        assert(version@ =~= seq![digits@[0], '.'] + rest@.take(i as int));
    }
    assert(rest@.take(rest.len() as int) =~= digits@.skip(1));
    Some((string_from_chars(name.as_slice()), string_from_chars(version.as_slice())))
}

fn split_version(digits: &[char]) -> (r: Option<Vec<char>>)
    ensures
        r matches Some(v) ==> spec_split_version(digits@) == Some(v@),
        r is None ==> spec_split_version(digits@) is None,
{
    if digits.len() < 2 || !chars_all_digits(digits) {
        return None;
    }
    let major = slice_chars(digits, 0, digits.len() - 1);
    assert(major@ =~= digits@.drop_last());
    match parse_u32(major.as_slice()) {
        None => None,
        Some(_) => {
            let mut v = major;
            v.push('.');
            v.push(digits[digits.len() - 1]);
            assert(v@ =~= digits@.drop_last() + seq!['.', digits@.last()]);
            Some(v)
        },
    }
}

fn parse_compute(token: &[char]) -> (r: Option<(ComputeKind, Option<String>)>)
    ensures
        r matches Some((k, v)) ==> spec_parse_compute(token@) == Some((k, v.deep_view())),
        r is None ==> spec_parse_compute(token@) is None,
{
    if chars_eq_str(token, "cpu") {
        return Some((ComputeKind::Cpu, None));
    }
    if chars_eq_str(token, "metal") {
        return Some((ComputeKind::Metal, None));
    }
    let cu = chars_of("cu");
    if starts_with(token, cu.as_slice()) {
        let rest = slice_chars(token, cu.len(), token.len());
        assert(rest@ =~= token@.skip("cu"@.len() as int));
        return match split_version(rest.as_slice()) {
            Some(v) => Some((ComputeKind::Cuda, Some(string_from_chars(v.as_slice())))),
            None => None,
        };
    }
    let rocm = chars_of("rocm");
    if starts_with(token, rocm.as_slice()) {
        let rest = slice_chars(token, rocm.len(), token.len());
        assert(rest@ =~= token@.skip("rocm"@.len() as int));
        return match split_version(rest.as_slice()) {
            Some(v) => Some((ComputeKind::Rocm, Some(string_from_chars(v.as_slice())))),
            None => None,
        };
    }
    None
}

/// Parse a build-variant directory name into a [`Variant`].
///
/// Accepts the 5-field linux form (`torch26-cxx11-cu118-x86_64-linux`) and
/// the 4-field form used by Windows/metal, which omits the `cxx*` ABI tag.
/// Anything else is an error, so the backend skips it rather than emit a
/// broken record.
pub fn parse_variant(name: &str) -> (r: Result<Variant, ParseError>)
    ensures
        r matches Ok(v) ==> spec_parse_variant(name@) == Ok::<VariantView, ParseErrorView>(v@),
        r matches Err(e) ==> spec_parse_variant(name@) == Err::<VariantView, ParseErrorView>(e@),
        r matches Ok(v) ==> v@.wf(),
{
    let chars = chars_of(name);
    let parts = split_chars(chars.as_slice(), '-');
    let ghost sp = split_on(name@, '-');
    assert(char_vec_views(parts@) == sp);
    let n = parts.len();
    assert(sp.len() == n);
    if n != 5 && n != 4 {
        return Err(ParseError::FieldCount(name.to_string(), n));
    }
    assert(parts@[0]@ == sp[0]);
    assert(parts@[n - 3]@ == sp[n - 3]);
    assert(parts@[n - 2]@ == sp[n - 2]);
    assert(parts@[n - 1]@ == sp[n - 1]);
    let fw = parse_framework(parts[0].as_slice());
    let (framework, framework_version) = match fw {
        Some(p) => p,
        None => {
            return Err(
                ParseError::Framework(name.to_string(), string_from_chars(parts[0].as_slice())),
            );
        },
    };
    let cxx_abi = if n == 5 {
        assert(parts@[1]@ == sp[1]);
        if chars_eq_str(parts[1].as_slice(), "cxx98") || chars_eq_str(parts[1].as_slice(), "cxx11") {
            string_from_chars(parts[1].as_slice())
        } else {
            return Err(ParseError::Abi(name.to_string(), string_from_chars(parts[1].as_slice())));
        }
    } else {
        String::from_str(ABI_NONE)
    };
    let (compute_kind, compute_version) = match parse_compute(parts[n - 3].as_slice()) {
        Some(c) => c,
        None => {
            return Err(
                ParseError::Compute(name.to_string(), string_from_chars(parts[n - 3].as_slice())),
            );
        },
    };
    Ok(
        Variant {
            raw: name.to_string(),
            framework,
            framework_version,
            cxx_abi,
            compute_kind,
            compute_version,
            arch: string_from_chars(parts[n - 2].as_slice()),
            os: string_from_chars(parts[n - 1].as_slice()),
        },
    )
}

} // verus!
