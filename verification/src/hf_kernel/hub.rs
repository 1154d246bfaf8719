//! What the backend computes around its Hugging Face Hub requests: the
//! request URLs, the variant directories and files of a repository tree,
//! the commit of a revision, and the CUDA capabilities of `build.toml`.
//! The requests themselves are made by the caller.
use vstd::prelude::*;

use crate::text::{
    chars_eq_str, chars_of, has_prefix, slice_chars, sorted_unique, split_chars, split_on,
    starts_with, strictly_sorted, string_from_chars, string_views, char_vec_views,
};

verus! {

/// The Hub's address.
pub const BASE: &'static str = "https://huggingface.co";

/// Where a revision's commit is looked up.
pub fn revision_url(repo: &str, rev: &str) -> (r: String)
    ensures
        r@ == BASE@ + "/api/models/"@ + repo@ + "/revision/"@ + rev@,
{
    let mut s = String::from_str(BASE);
    s.append("/api/models/");
    s.append(repo);
    s.append("/revision/");
    s.append(rev);
    s
}

/// Where the recursive file tree at a revision is listed.
pub fn tree_url(repo: &str, rev: &str) -> (r: String)
    ensures
        r@ == BASE@ + "/api/models/"@ + repo@ + "/tree/"@ + rev@ + "?recursive=true"@,
{
    let mut s = String::from_str(BASE);
    s.append("/api/models/");
    s.append(repo);
    s.append("/tree/");
    s.append(rev);
    s.append("?recursive=true");
    s
}

/// Where a repository file (by its full path) is downloaded from.
pub fn resolve_url(repo: &str, rev: &str, hub_path: &str) -> (r: String)
    ensures
        r@ == BASE@ + "/"@ + repo@ + "/resolve/"@ + rev@ + "/"@ + hub_path@,
{
    let mut s = String::from_str(BASE);
    s.append("/");
    s.append(repo);
    s.append("/resolve/");
    s.append(rev);
    s.append("/");
    s.append(hub_path);
    s
}

/// The commit of a revision, from the `sha` of the revision response.
pub fn revision_sha(sha: Option<String>, repo: &str, rev: &str) -> (r: Result<String, String>)
    ensures
        sha is Some ==> (r matches Ok(s) && s@ == sha->0@),
        sha is None ==> (r matches Err(m) && m@ == "no sha in revision response for "@ + repo@
            + "@"@ + rev@),
{
    match sha {
        Some(s) => Ok(s),
        None => {
            let mut m = String::from_str("no sha in revision response for ");
            m.append(repo);
            m.append("@");
            m.append(rev);
            Err(m)
        },
    }
}

// ---------------------------------------------------------------------------
// Variant directories and files of a tree listing
// ---------------------------------------------------------------------------
/// The directory under `build/` that a path lies in.
pub open spec fn spec_build_dir(path: Seq<char>) -> Option<Seq<char>> {
    let parts = split_on(path, '/');
    if parts.len() >= 2 && parts[0] == "build"@ {
        Some(parts[1])
    } else {
        None
    }
}

/// The `build/` directories of the listed paths, in listing order.
pub open spec fn spec_build_dirs(paths: Seq<Option<Seq<char>>>) -> Seq<Seq<char>>
    decreases paths.len(),
{
    if paths.len() == 0 {
        Seq::empty()
    } else {
        let prev = spec_build_dirs(paths.drop_last());
        match paths.last() {
            Some(p) => match spec_build_dir(p) {
                Some(d) => prev.push(d),
                None => prev,
            },
            None => prev,
        }
    }
}

pub open spec fn opt_views(v: Seq<Option<String>>) -> Seq<Option<Seq<char>>> {
    v.map_values(|o: Option<String>| o.deep_view())
}

/// The variant directory names under `build/`, from the `path` of each tree
/// entry (`None` where an entry has no string path); sorted, without repeats.
pub fn list_variants_from_paths(paths: &Vec<Option<String>>) -> (r: Vec<String>)
    ensures
        strictly_sorted(string_views(r@)),
        string_views(r@).to_set() == spec_build_dirs(opt_views(paths@)).to_set(),
{
    let ghost views = opt_views(paths@);
    let mut names: Vec<String> = Vec::new();
    let mut i: usize = 0;
    while i < paths.len()
        invariant
            i <= paths.len(),
            views == opt_views(paths@),
            string_views(names@) == spec_build_dirs(views.take(i as int)),
        decreases paths.len() - i,
    {
        assert(views.take(i + 1).drop_last() =~= views.take(i as int));
        assert(views.take(i + 1).last() == paths@[i as int].deep_view());
        match &paths[i] {
            Some(p) => {
                let c = chars_of(p.as_str());
                let parts = split_chars(c.as_slice(), '/');
                assert(char_vec_views(parts@)[0] == parts@[0]@);
                if parts.len() >= 2 && chars_eq_str(parts[0].as_slice(), "build") {
                    assert(char_vec_views(parts@)[1] == parts@[1]@);
                    let ghost before = string_views(names@);
                    names.push(string_from_chars(parts[1].as_slice()));
                    assert(string_views(names@) =~= before.push(parts@[1]@));
                }
            },
            None => {},
        }
        i = i + 1;
    }
    assert(views.take(paths.len() as int) =~= views);
    sorted_unique(&names)
}

/// The prefix of a variant's files: `build/<variant>/`.
pub open spec fn spec_variant_prefix(variant: Seq<char>) -> Seq<char> {
    "build/"@ + variant + "/"@
}

/// A tree entry that is a file under `build/<variant>/`, as (hub path,
/// path relative to the variant directory).
pub open spec fn spec_variant_file(
    entry_type: Option<Seq<char>>,
    path: Option<Seq<char>>,
    variant: Seq<char>,
) -> Option<(Seq<char>, Seq<char>)> {
    let prefix = spec_variant_prefix(variant);
    if entry_type == Some("file"@) && path is Some && has_prefix(path->0, prefix) {
        Some((path->0, path->0.skip(prefix.len() as int)))
    } else {
        None
    }
}

pub open spec fn spec_variant_files(
    entries: Seq<(Option<Seq<char>>, Option<Seq<char>>)>,
    variant: Seq<char>,
) -> Seq<(Seq<char>, Seq<char>)>
    decreases entries.len(),
{
    if entries.len() == 0 {
        Seq::empty()
    } else {
        let prev = spec_variant_files(entries.drop_last(), variant);
        match spec_variant_file(entries.last().0, entries.last().1, variant) {
            Some(f) => prev.push(f),
            None => prev,
        }
    }
}

pub open spec fn entry_views(v: Seq<(Option<String>, Option<String>)>) -> Seq<
    (Option<Seq<char>>, Option<Seq<char>>),
> {
    v.map_values(|e: (Option<String>, Option<String>)| (e.0.deep_view(), e.1.deep_view()))
}

pub open spec fn pair_views(v: Seq<(String, String)>) -> Seq<(Seq<char>, Seq<char>)> {
    v.map_values(|p: (String, String)| (p.0@, p.1@))
}

/// The files under `build/<variant>/`, from the (`type`, `path`) of each
/// tree entry, as `(hub_path, relative_path)` where `relative_path` drops the
/// `build/<variant>/` prefix (the path inside site-packages); listing order.
pub fn list_variant_files_from_entries(
    entries: &Vec<(Option<String>, Option<String>)>,
    variant: &str,
) -> (r: Vec<(String, String)>)
    ensures
        pair_views(r@) == spec_variant_files(entry_views(entries@), variant@),
{
    let ghost views = entry_views(entries@);
    let mut prefix = String::from_str("build/");
    prefix.append(variant);
    prefix.append("/");
    let pc = chars_of(prefix.as_str());
    let mut files: Vec<(String, String)> = Vec::new();
    let mut i: usize = 0;
    while i < entries.len()
        invariant
            i <= entries.len(),
            views == entry_views(entries@),
            pc@ == spec_variant_prefix(variant@),
            pair_views(files@) == spec_variant_files(views.take(i as int), variant@),
        decreases entries.len() - i,
    {
        assert(views.take(i + 1).drop_last() =~= views.take(i as int));
        assert(views.take(i + 1).last() == (
            entries@[i as int].0.deep_view(),
            entries@[i as int].1.deep_view(),
        ));
        let (ty, path) = &entries[i];
        let is_file = match ty {
            Some(t) => {
                let tc = chars_of(t.as_str());
                chars_eq_str(tc.as_slice(), "file")
            },
            None => false,
        };
        if is_file {
            match path {
                Some(p) => {
                    let c = chars_of(p.as_str());
                    if starts_with(c.as_slice(), pc.as_slice()) {
                        let rel = slice_chars(c.as_slice(), pc.len(), c.len());
                        assert(rel@ =~= p@.skip(pc@.len() as int));
                        let ghost before = pair_views(files@);
                        files.push((p.clone(), string_from_chars(rel.as_slice())));
                        assert(pair_views(files@) =~= before.push((p@, rel@)));
                    }
                },
                None => {},
            }
        }
        i = i + 1;
    }
    assert(views.take(entries.len() as int) =~= views);
    files
}

// ---------------------------------------------------------------------------
// CUDA capabilities declared in build.toml
// ---------------------------------------------------------------------------
/// A TOML document as far as the backend reads it: strings, floats (held as
/// the text `{}` prints for them), arrays and tables; everything else is
/// `Other`.
pub enum TomlValue {
    Str(String),
    Float(String),
    Array(Vec<TomlValue>),
    Table(Vec<(String, TomlValue)>),
    Other,
}

#[verifier::external_type_specification]
#[verifier::external_body]
pub struct ExTomlValue(toml::Value);

/// The tree of a TOML document, when the text is one.
pub uninterp spec fn toml_document(text: Seq<char>) -> Option<TomlValue>;

/// `toml::from_str::<toml::Value>`, converted arm by arm into a
/// [`TomlValue`]; on failure, the parser's message.
#[verifier::external_body]
pub fn parse_toml(text: &str) -> (r: Result<TomlValue, String>)
    ensures
        r matches Ok(doc) ==> toml_document(text@) == Some(doc),
        r is Err ==> toml_document(text@) is None,
{
    match toml::from_str::<toml::Value>(text) {
        Ok(v) => Ok(toml_value_of(v)),
        Err(e) => Err(e.to_string()),
    }
}

/// The [`TomlValue`] of a `toml::Value`, one arm per variant.
#[verifier::external_body]
fn toml_value_of(v: toml::Value) -> TomlValue {
    match v {
        toml::Value::String(s) => TomlValue::Str(s),
        toml::Value::Float(f) => TomlValue::Float(format!("{f}")),
        toml::Value::Array(a) => TomlValue::Array(a.into_iter().map(toml_value_of).collect()),
        toml::Value::Table(t) => TomlValue::Table(
            t.into_iter().map(|(k, v)| (k, toml_value_of(v))).collect(),
        ),
        _ => TomlValue::Other,
    }
}

/// The value stored under `key` in a table's entries.
pub open spec fn spec_table_get(entries: Seq<(String, TomlValue)>, key: Seq<char>) -> Option<
    TomlValue,
>
    decreases entries.len(),
{
    if entries.len() == 0 {
        None
    } else if entries[0].0@ == key {
        Some(entries[0].1)
    } else {
        spec_table_get(entries.drop_first(), key)
    }
}

/// The value under `key` when `v` is a table.
pub open spec fn spec_get(v: TomlValue, key: Seq<char>) -> Option<TomlValue> {
    match v {
        TomlValue::Table(entries) => spec_table_get(entries@, key),
        _ => None,
    }
}

/// A capability item: a string as written, a float as `{}` prints it.
pub open spec fn spec_cap_item(v: TomlValue) -> Option<Seq<char>> {
    match v {
        TomlValue::Str(s) => Some(s@),
        TomlValue::Float(f) => Some(f@),
        _ => None,
    }
}

pub open spec fn spec_cap_items(items: Seq<TomlValue>) -> Seq<Seq<char>>
    decreases items.len(),
{
    if items.len() == 0 {
        Seq::empty()
    } else {
        let prev = spec_cap_items(items.drop_last());
        match spec_cap_item(items.last()) {
            Some(c) => prev.push(c),
            None => prev,
        }
    }
}

/// The `cuda-capabilities` of one `[kernel.*]` table.
pub open spec fn spec_kernel_caps(kernel: TomlValue) -> Seq<Seq<char>> {
    match spec_get(kernel, "cuda-capabilities"@) {
        Some(TomlValue::Array(items)) => spec_cap_items(items@),
        _ => Seq::empty(),
    }
}

pub open spec fn spec_kernels_caps(kernels: Seq<(String, TomlValue)>) -> Seq<Seq<char>>
    decreases kernels.len(),
{
    if kernels.len() == 0 {
        Seq::empty()
    } else {
        spec_kernels_caps(kernels.drop_last()) + spec_kernel_caps(kernels.last().1)
    }
}

/// Every capability listed under `[kernel.*].cuda-capabilities`.
pub open spec fn spec_document_caps(doc: TomlValue) -> Seq<Seq<char>> {
    match spec_get(doc, "kernel"@) {
        Some(TomlValue::Table(kernels)) => spec_kernels_caps(kernels@),
        _ => Seq::empty(),
    }
}

fn table_get<'a>(entries: &'a Vec<(String, TomlValue)>, key: &str) -> (r: Option<&'a TomlValue>)
    ensures
        r matches Some(v) ==> spec_table_get(entries@, key@) == Some(*v),
        r is None ==> spec_table_get(entries@, key@) is None,
{
    let kc = chars_of(key);
    let mut i: usize = 0;
    assert(entries@.skip(0) =~= entries@);
    while i < entries.len()
        invariant
            i <= entries.len(),
            kc@ == key@,
            spec_table_get(entries@, key@) == spec_table_get(entries@.skip(i as int), key@),
        decreases entries.len() - i,
    {
        assert(entries@.skip(i as int)[0] == entries@[i as int]);
        let c = chars_of(entries[i].0.as_str());
        if crate::text::chars_eq(c.as_slice(), kc.as_slice()) {
            return Some(&entries[i].1);
        }
        assert(entries@.skip(i as int).drop_first() =~= entries@.skip(i + 1));
        i = i + 1;
    }
    None
}

fn get<'a>(v: &'a TomlValue, key: &str) -> (r: Option<&'a TomlValue>)
    ensures
        r matches Some(x) ==> spec_get(*v, key@) == Some(*x),
        r is None ==> spec_get(*v, key@) is None,
{
    match v {
        TomlValue::Table(entries) => table_get(entries, key),
        _ => None,
    }
}

fn push_cap_items(out: &mut Vec<String>, items: &Vec<TomlValue>)
    ensures
        string_views(final(out)@) == string_views(old(out)@) + spec_cap_items(items@),
{
    let ghost start = string_views(out@);
    let mut i: usize = 0;
    while i < items.len()
        invariant
            i <= items.len(),
            string_views(out@) == start + spec_cap_items(items@.take(i as int)),
        decreases items.len() - i,
    {
        assert(items@.take(i + 1).drop_last() =~= items@.take(i as int));
        let ghost before = string_views(out@);
        match &items[i] {
            TomlValue::Str(s) => {
                out.push(s.clone());
                assert(string_views(out@) =~= before.push(s@));
            },
            TomlValue::Float(f) => {
                out.push(f.clone());
                assert(string_views(out@) =~= before.push(f@));
            },
            _ => {},
        }
        i = i + 1;
    }
    assert(items@.take(items.len() as int) =~= items@);
}

/// The CUDA capabilities a `build.toml` document lists (the union over
/// `[kernel.*].cuda-capabilities`), sorted and without repeats.
pub fn document_cuda_capabilities(doc: &TomlValue) -> (r: Vec<String>)
    ensures
        strictly_sorted(string_views(r@)),
        string_views(r@).to_set() == spec_document_caps(*doc).to_set(),
{
    let mut caps: Vec<String> = Vec::new();
    match get(doc, "kernel") {
        Some(TomlValue::Table(kernels)) => {
            let mut i: usize = 0;
            while i < kernels.len()
                invariant
                    i <= kernels.len(),
                    string_views(caps@) == spec_kernels_caps(kernels@.take(i as int)),
                decreases kernels.len() - i,
            {
                assert(kernels@.take(i + 1).drop_last() =~= kernels@.take(i as int));
                match get(&kernels[i].1, "cuda-capabilities") {
                    Some(TomlValue::Array(items)) => push_cap_items(&mut caps, items),
                    _ => {},
                }
                i = i + 1;
            }
            assert(kernels@.take(kernels.len() as int) =~= kernels@);
        },
        _ => {
            assert(string_views(caps@) =~= Seq::<Seq<char>>::empty());
        },
    }
    sorted_unique(&caps)
}

/// The CUDA capabilities of the text of `build.toml`, or the parser's
/// message when the text is not TOML.
pub fn cuda_capabilities_from_build_toml(text: &str) -> (r: Result<Vec<String>, String>)
    ensures
        r matches Ok(caps) ==> (toml_document(text@) matches Some(doc) && strictly_sorted(
            string_views(caps@),
        ) && string_views(caps@).to_set() == spec_document_caps(doc).to_set()),
        r is Err <==> toml_document(text@) is None,
{
    match parse_toml(text) {
        Ok(doc) => Ok(document_cuda_capabilities(&doc)),
        Err(e) => Err(e),
    }
}

} // verus!
