//! Package metadata read from a Node.js project's `package.json`.
//!
//! The provider keeps what was read; reading and decoding `package.json` is
//! left to the caller, which hands the decoded fields to
//! [`NodejsMetadataProvider::load_package_json`] whenever
//! [`NodejsMetadataProvider::needs_package_json`] says they are wanted.
use vstd::prelude::*;

use rattler_conda_types::{ParseVersionError, Version};
use std::path::PathBuf;

use crate::common::path_clone;
use crate::text::{
    chars_of, find, find_char, has_prefix, has_suffix, lemma_strip_all_prefix_count, lemma_strip_all_suffix_count, repeat, lemma_strip_all_prefix_done,
    lemma_strip_all_suffix_done, slice_chars, string_from_chars, strip_all_prefix,
    strip_all_suffix, trim_end_matches, trim_start_matches,
};

verus! {

#[verifier::external_type_specification]
#[verifier::external_body]
pub struct ExVersion(Version);

#[verifier::external_type_specification]
#[verifier::external_body]
pub struct ExParseVersionError(ParseVersionError);

/// The conda version that `s` denotes under rattler's version grammar, or
/// `None` where the grammar rejects `s`.
pub uninterp spec fn conda_version_of(s: Seq<char>) -> Option<Version>;

/// `Version::from_str`: the conda version that `s` denotes, or why it is not
/// one. The error value itself is not stated.
#[verifier::external_body]
fn parse_conda_version(s: &str) -> (r: Result<Version, ParseVersionError>)
    ensures
        r matches Ok(v) ==> conda_version_of(s@) == Some(v),
        r is Err ==> conda_version_of(s@) is None,
{
    s.parse::<Version>()
}

/// Why `package.json` yields no version.
pub enum MetadataError {
    ParseVersion(ParseVersionError),
}

/// The `repository` field of `package.json`.
#[derive(Debug, Clone, PartialEq, Eq)]
pub enum Repository {
    /// `"repository": "https://..."`
    Text(String),
    /// `"repository": { "url": ... }`, holding the url when it is a string.
    Object(Option<String>),
    /// Any other JSON value.
    Other,
}

/// The fields of `package.json` that metadata is taken from.
#[derive(Debug, Clone, PartialEq, Eq)]
pub struct PackageJson {
    pub name: Option<String>,
    pub version: Option<String>,
    pub repository: Option<Repository>,
}

/// Strip an npm scope: `@scope/package` -> `package`.
pub open spec fn spec_strip_npm_scope(name: Seq<char>) -> Seq<char> {
    if has_prefix(name, "@"@) {
        let stripped = name.skip(1);
        match find_char(stripped, '/') {
            Some(i) => stripped.skip(i + 1),
            None => name,
        }
    } else {
        name
    }
}

/// A repository URL without any leading `git+` and trailing `.git`.
pub open spec fn spec_normalize_repo_url(url: Seq<char>) -> Seq<char> {
    strip_all_suffix(strip_all_prefix(url, "git+"@), ".git"@)
}

/// Strip npm scope prefix: "@scope/package" -> "package".
pub fn strip_npm_scope(name: &str) -> (r: String)
    ensures
        r@ == spec_strip_npm_scope(name@),
{
    let c = chars_of(name);
    proof {
        reveal_strlit("@");
    }
    if c.len() > 0 && c[0] == '@' {
        let stripped = slice_chars(c.as_slice(), 1, c.len());
        assert(stripped@ =~= name@.skip(1));
        assert(has_prefix(name@, "@"@)) by {
            assert(name@.take(1) =~= "@"@);
        }
        match find(stripped.as_slice(), '/') {
            Some(i) => {
                proof {
                    crate::text::lemma_find_char_spec(stripped@, '/');
                }
                let tail = slice_chars(stripped.as_slice(), i + 1, stripped.len());
                assert(tail@ =~= stripped@.skip(i + 1));
                return string_from_chars(tail.as_slice());
            },
            None => {},
        }
    } else {
        assert(!has_prefix(name@, "@"@)) by {
            if has_prefix(name@, "@"@) {
                assert(name@.take(1)[0] == '@');
            }
        }
    }
    name.to_string()
}

/// Normalize a repository URL: strip `git+` prefix and `.git` suffix.
pub fn normalize_repo_url(url: &str) -> (r: String)
    ensures
        r@ == spec_normalize_repo_url(url@),
{
    let c = chars_of(url);
    let git_plus = chars_of("git+");
    let dot_git = chars_of(".git");
    let a = trim_start_matches(c.as_slice(), git_plus.as_slice());
    let b = trim_end_matches(a.as_slice(), dot_git.as_slice());
    string_from_chars(b.as_slice())
}

pub open spec fn spec_repository_url(r: Repository) -> Option<Seq<char>> {
    match r {
        Repository::Text(s) => Some(spec_normalize_repo_url(s@)),
        Repository::Object(Some(u)) => Some(spec_normalize_repo_url(u@)),
        _ => None,
    }
}

/// Reads metadata from a `package.json` file.
pub struct NodejsMetadataProvider {
    manifest_root: PathBuf,
    metadata: Option<PackageJson>,
}

impl NodejsMetadataProvider {
    pub closed spec fn spec_manifest_root(&self) -> PathBuf {
        self.manifest_root
    }

    /// The `package.json` fields taken in so far, if any.
    pub closed spec fn spec_metadata(&self) -> Option<PackageJson> {
        self.metadata
    }

    pub fn new(manifest_root: PathBuf) -> (r: Self)
        ensures
            r.spec_manifest_root() == manifest_root,
            r.spec_metadata() is None,
    {
        NodejsMetadataProvider { manifest_root, metadata: None }
    }

    /// The directory that holds `package.json`.
    pub fn manifest_root(&self) -> (r: PathBuf)
        ensures
            r == self.spec_manifest_root(),
    {
        path_clone(&self.manifest_root)
    }

    /// Whether `package.json` should be read: it has not been yet.
    pub fn needs_package_json(&self) -> (r: bool)
        ensures
            r == self.spec_metadata() is None,
    {
        self.metadata.is_none()
    }

    /// Take in the fields of `package.json` (once; later calls change nothing).
    pub fn load_package_json(&mut self, pkg: PackageJson)
        ensures
            final(self).spec_manifest_root() == old(self).spec_manifest_root(),
            final(self).spec_metadata() == (match old(self).spec_metadata() {
                Some(m) => Some(m),
                None => Some(pkg),
            }),
    {
        if self.metadata.is_none() {
            self.metadata = Some(pkg);
        }
    }

    /// Returns the input globs that affect metadata.
    pub fn input_globs(&self) -> (r: Vec<String>)
        ensures
            r@.len() == 1,
            r@[0]@ == "package.json"@,
    {
        let mut v: Vec<String> = Vec::new();
        v.push(String::from_str("package.json"));
        v
    }

    /// The package name, without its npm scope.
    pub fn name(&self) -> (r: Option<String>)
        ensures
            r.deep_view() == (match self.spec_metadata() {
                Some(PackageJson { name: Some(n), .. }) => Some(spec_strip_npm_scope(n@)),
                _ => None,
            }),
    {
        match &self.metadata {
            Some(m) => match &m.name {
                Some(n) => Some(strip_npm_scope(n.as_str())),
                None => None,
            },
            None => None,
        }
    }

    /// The version text, when present and not empty.
    pub open spec fn spec_version_text(&self) -> Option<Seq<char>> {
        match self.spec_metadata() {
            Some(PackageJson { version: Some(v), .. }) => if v@.len() > 0 {
                Some(v@)
            } else {
                None
            },
            _ => None,
        }
    }

    /// The package version, parsed as a conda version.
    pub fn version(&self) -> (r: Result<Option<Version>, MetadataError>)
        ensures
            self.spec_version_text() is None ==> r matches Ok(None),
            self.spec_version_text() matches Some(t) ==> match conda_version_of(t) {
                Some(v) => r matches Ok(Some(w)) && w == v,
                None => r is Err,
            },
    {
        let text = match &self.metadata {
            Some(m) => match &m.version {
                Some(v) => v,
                None => {
                    return Ok(None);
                },
            },
            None => {
                return Ok(None);
            },
        };
        let c = chars_of(text.as_str());
        if c.len() == 0 {
            return Ok(None);
        }
        match parse_conda_version(text.as_str()) {
            Ok(v) => Ok(Some(v)),
            Err(e) => Err(MetadataError::ParseVersion(e)),
        }
    }

    /// The repository URL, normalized.
    pub fn repository(&self) -> (r: Option<String>)
        ensures
            r.deep_view() == (match self.spec_metadata() {
                Some(PackageJson { repository: Some(rep), .. }) => spec_repository_url(rep),
                _ => None,
            }),
    {
        match &self.metadata {
            Some(m) => match &m.repository {
                Some(Repository::Text(s)) => Some(normalize_repo_url(s.as_str())),
                Some(Repository::Object(Some(u))) => Some(normalize_repo_url(u.as_str())),
                _ => None,
            },
            None => None,
        }
    }
}

/// Normalizing a repository URL twice gives what normalizing it once gives.
pub proof fn lemma_normalize_repo_url_idempotent(url: Seq<char>)
    ensures
        spec_normalize_repo_url(spec_normalize_repo_url(url)) == spec_normalize_repo_url(url),
{
    reveal_strlit("git+");
    reveal_strlit(".git");
    let a = strip_all_prefix(url, "git+"@);
    let b = strip_all_suffix(a, ".git"@);
    lemma_strip_all_prefix_done(url, "git+"@);
    lemma_strip_all_suffix_done(a, ".git"@);
    if has_prefix(b, "git+"@) {
        assert(a.take(4) =~= b.take(4));
        assert(has_prefix(a, "git+"@));
    }
    assert(strip_all_prefix(b, "git+"@) == b);
    assert(strip_all_suffix(b, ".git"@) == b);
}

/// `r` is what normalizing the written URL `w` may give: it neither starts
/// with `git+` nor ends in `.git`, and `w` is `r` with copies of `git+`
/// before it and copies of `.git` after it.
pub open spec fn normalized_from(w: Seq<char>, r: Seq<char>) -> bool {
    &&& !has_prefix(r, "git+"@)
    &&& !has_suffix(r, ".git"@)
    &&& exists|a: nat, b: nat| w == repeat("git+"@, a) + r + repeat(".git"@, b)
}

/// Normalizing a repository URL removes its leading `git+`s and trailing
/// `.git`s and nothing else.
pub proof fn lemma_normalize_repo_url_strips(url: Seq<char>)
    ensures
        normalized_from(url, spec_normalize_repo_url(url)),
{
    reveal_strlit("git+");
    reveal_strlit(".git");
    let a = strip_all_prefix(url, "git+"@);
    let b = strip_all_suffix(a, ".git"@);
    let n1 = lemma_strip_all_prefix_count(url, "git+"@);
    let n2 = lemma_strip_all_suffix_count(a, ".git"@);
    lemma_strip_all_prefix_done(url, "git+"@);
    lemma_strip_all_suffix_done(a, ".git"@);
    if has_prefix(b, "git+"@) {
        assert(a.take(4) =~= b.take(4));
        assert(has_prefix(a, "git+"@));
    }
    assert(url =~= repeat("git+"@, n1) + b + repeat(".git"@, n2));
}

/// The repository URL of `package.json` is normalized whichever form the
/// field takes: for a string and for an object's `url` alike it is the
/// written URL with its leading `git+`s and trailing `.git`s removed (so it
/// never ends in `.git`); any other form gives none.
pub proof fn lemma_repository_url_normalized(rep: Repository)
    ensures
        match rep {
            Repository::Text(s) => spec_repository_url(rep) matches Some(r) && normalized_from(s@, r),
            Repository::Object(Some(u)) => spec_repository_url(rep) matches Some(r) && normalized_from(
                u@,
                r,
            ),
            _ => spec_repository_url(rep) is None,
        },
{
    match rep {
        Repository::Text(s) => lemma_normalize_repo_url_strips(s@),
        Repository::Object(Some(u)) => lemma_normalize_repo_url_strips(u@),
        _ => {},
    }
}

/// An npm scope is dropped: a name `@scope/rest` gives `rest` (the text
/// after the first `/`); any other name is kept as it is.
pub proof fn lemma_strip_npm_scope(name: Seq<char>)
    ensures
        (name.len() > 0 && name[0] == '@' && name.skip(1).contains('/')) ==> exists|i: int|
            1 <= i < name.len() && name[i] == '/' && (forall|j: int| 1 <= j < i ==> name[j] != '/')
                && spec_strip_npm_scope(name) == name.skip(i + 1),
        !(name.len() > 0 && name[0] == '@' && name.skip(1).contains('/')) ==> spec_strip_npm_scope(
            name,
        ) == name,
{
    reveal_strlit("@");
    let stripped = name.skip(1);
    if name.len() > 0 {
        assert(has_prefix(name, "@"@) <==> name[0] == '@') by {
            if name[0] == '@' {
                assert(name.take(1) =~= "@"@);
            }
            if has_prefix(name, "@"@) {
                assert(name.take(1)[0] == name[0]);
            }
        }
    }
    crate::text::lemma_find_char_spec(stripped, '/');
    if name.len() > 0 && name[0] == '@' {
        if stripped.contains('/') {
            let k = choose|k: int| 0 <= k < stripped.len() && stripped[k] == '/';
            assert(find_char(stripped, '/') is Some);
            let i = find_char(stripped, '/')->0;
            assert(name[i + 1] == '/');
            assert(stripped.skip(i + 1) =~= name.skip(i + 2));
            assert forall|j: int| 1 <= j < i + 1 implies name[j] != '/' by {
                assert(name[j] == stripped[j - 1]);
            }
        } else {
            assert(find_char(stripped, '/') is None) by {
                if find_char(stripped, '/') is Some {
                    let i = find_char(stripped, '/')->0;
                    assert(stripped[i] == '/');
                }
            }
        }
    }
}

} // verus!
