//! Package metadata read from a Go module's `go.mod`.
//!
//! The provider keeps what was parsed; reading `go.mod` from disk is left to
//! the caller, which hands the file's text to [`GoMetadataProvider::load_go_mod`]
//! whenever [`GoMetadataProvider::needs_go_mod`] says it is wanted.
use vstd::prelude::*;

use std::path::PathBuf;

use crate::common::path_clone;
use crate::text::{
    chars_of, find, find_char, has_prefix, has_suffix, lemma_rfind_char_spec, rfind,
    rfind_char, slice_chars,
    split_chars, split_on, starts_with, string_from_chars, trim, trim_chars, char_vec_views,
};

verus! {

/// Why `go.mod` yields no metadata.
#[derive(Debug, Clone, PartialEq, Eq)]
pub enum MetadataError {
    Parse(String),
}

impl MetadataError {
    pub open spec fn message(self) -> Seq<char> {
        match self {
            MetadataError::Parse(m) => "failed to parse go.mod: "@ + m@,
        }
    }

    /// The error's message.
    pub fn to_string(&self) -> (s: String)
        ensures
            s@ == self.message(),
    {
        match self {
            MetadataError::Parse(m) => {
                let mut s = String::from_str("failed to parse go.mod: ");
                s.append(m.as_str());
                s
            },
        }
    }
}

/// Parsed metadata from a go.mod file.
#[derive(Debug, Clone, PartialEq, Eq)]
pub struct GoModMetadata {
    /// The module path (e.g. "github.com/user/project").
    pub module: String,
}

/// The module path a line declares: the line, trimmed, starts with
/// `module`, and what follows, trimmed, is not empty.
pub open spec fn line_module(line: Seq<char>) -> Option<Seq<char>> {
    let t = trim(line);
    if has_prefix(t, "module"@) {
        let rest = trim(t.skip("module"@.len() as int));
        if rest.len() > 0 {
            Some(rest)
        } else {
            None
        }
    } else {
        None
    }
}

/// The module path declared by the last `module` line.
pub open spec fn last_module(lines: Seq<Seq<char>>) -> Option<Seq<char>>
    decreases lines.len(),
{
    if lines.len() == 0 {
        None
    } else {
        match line_module(lines.last()) {
            Some(m) => Some(m),
            None => last_module(lines.drop_last()),
        }
    }
}

/// What `go.mod` declares as the module path. Lines are split at `\n`; the
/// `\r` of a `\r\n` ending is whitespace that trimming removes.
pub open spec fn spec_go_mod_module(content: Seq<char>) -> Option<Seq<char>> {
    last_module(split_on(content, '\n'))
}

/// Parse a go.mod file: the module path of its last `module` directive.
pub fn parse_go_mod(content: &str) -> (r: Result<GoModMetadata, MetadataError>)
    ensures
        r matches Ok(m) ==> spec_go_mod_module(content@) == Some(m.module@),
        r matches Err(e) ==> spec_go_mod_module(content@) is None && e.message()
            == "failed to parse go.mod: no module directive found"@,
{
    let chars = chars_of(content);
    let lines = split_chars(chars.as_slice(), '\n');
    let ghost views = split_on(content@, '\n');
    let keyword = chars_of("module");
    let mut module: Option<Vec<char>> = None;
    let mut i: usize = 0;
    while i < lines.len()
        invariant
            i <= lines.len(),
            char_vec_views(lines@) == views,
            keyword@ == "module"@,
            module matches Some(m) ==> last_module(views.take(i as int)) == Some(m@),
            module is None ==> last_module(views.take(i as int)) is None,
        decreases lines.len() - i,
    {
        assert(views.take(i + 1).drop_last() =~= views.take(i as int));
        assert(views.take(i + 1).last() == lines@[i as int]@);
        let line = trim_chars(lines[i].as_slice());
        if starts_with(line.as_slice(), keyword.as_slice()) {
            let after = slice_chars(line.as_slice(), keyword.len(), line.len());
            assert(after@ =~= line@.skip("module"@.len() as int));
            let rest = trim_chars(after.as_slice());
            if rest.len() > 0 {
                module = Some(rest);
            }
        }
        i = i + 1;
    }
    assert(views.take(lines.len() as int) =~= views);
    match module {
        Some(m) => Ok(GoModMetadata { module: string_from_chars(m.as_slice()) }),
        None => {
            let e = MetadataError::Parse(String::from_str("no module directive found"));
            proof {
                reveal_strlit("failed to parse go.mod: ");
                reveal_strlit("no module directive found");
                reveal_strlit("failed to parse go.mod: no module directive found");
            }
            assert(e.message() =~= "failed to parse go.mod: no module directive found"@);
            Err(e)
        },
    }
}

/// The last segment of a module path: `github.com/user/project` -> `project`.
pub open spec fn spec_module_short_name(path: Seq<char>) -> Seq<char> {
    match rfind_char(path, '/') {
        Some(i) => path.skip(i + 1),
        None => path,
    }
}

/// Extract the short name from a Go module path.
/// e.g., "github.com/user/project" -> "project"
pub fn module_short_name(path: &str) -> (r: String)
    ensures
        r@ == spec_module_short_name(path@),
{
    let c = chars_of(path);
    match rfind(c.as_slice(), '/') {
        Some(i) => {
            let tail = slice_chars(c.as_slice(), i + 1, c.len());
            assert(tail@ =~= c@.skip(i + 1));
            string_from_chars(tail.as_slice())
        },
        None => path.to_string(),
    }
}

/// The repository of a module path: a path that looks like `host/path`
/// (it holds both a `.` and a `/`) becomes an https URL.
pub open spec fn spec_module_repository(module: Seq<char>) -> Seq<char> {
    if find_char(module, '.') is Some && find_char(module, '/') is Some {
        "https://"@ + module
    } else {
        module
    }
}

pub fn module_repository(module: &str) -> (r: String)
    ensures
        r@ == spec_module_repository(module@),
{
    let c = chars_of(module);
    if find(c.as_slice(), '.').is_some() && find(c.as_slice(), '/').is_some() {
        let mut s = String::from_str("https://");
        s.append(module);
        s
    } else {
        module.to_string()
    }
}

/// Reads metadata from a go.mod file.
pub struct GoMetadataProvider {
    manifest_root: PathBuf,
    metadata: Option<GoModMetadata>,
    ignore_go_mod: bool,
}

impl GoMetadataProvider {
    pub closed spec fn spec_manifest_root(&self) -> PathBuf {
        self.manifest_root
    }

    /// The module path read so far, if any.
    pub closed spec fn spec_module(&self) -> Option<Seq<char>> {
        match self.metadata {
            Some(m) => Some(m.module@),
            None => None,
        }
    }

    pub closed spec fn spec_ignore_go_mod(&self) -> bool {
        self.ignore_go_mod
    }

    pub fn new(manifest_root: PathBuf, ignore_go_mod: bool) -> (r: Self)
        ensures
            r.spec_manifest_root() == manifest_root,
            r.spec_module() is None,
            r.spec_ignore_go_mod() == ignore_go_mod,
    {
        GoMetadataProvider { manifest_root, metadata: None, ignore_go_mod }
    }

    /// The directory that holds `go.mod`.
    pub fn manifest_root(&self) -> (r: PathBuf)
        ensures
            r == self.spec_manifest_root(),
    {
        path_clone(&self.manifest_root)
    }

    /// Whether `go.mod` should be read: it is not ignored and not read yet.
    pub fn needs_go_mod(&self) -> (r: bool)
        ensures
            r == (!self.spec_ignore_go_mod() && self.spec_module() is None),
    {
        !self.ignore_go_mod && self.metadata.is_none()
    }

    /// Take in the text of `go.mod` (when it is wanted).
    pub fn load_go_mod(&mut self, content: &str) -> (r: Result<(), MetadataError>)
        ensures
            final(self).spec_manifest_root() == old(self).spec_manifest_root(),
            final(self).spec_ignore_go_mod() == old(self).spec_ignore_go_mod(),
            !old(self).spec_ignore_go_mod() && old(self).spec_module() is None ==> {
                &&& final(self).spec_module() == spec_go_mod_module(content@)
                &&& (r is Err <==> spec_go_mod_module(content@) is None)
            },
            old(self).spec_ignore_go_mod() || old(self).spec_module() is Some ==> {
                &&& final(self).spec_module() == old(self).spec_module()
                &&& r is Ok
            },
    {
        if self.ignore_go_mod || self.metadata.is_some() {
            return Ok(());
        }
        match parse_go_mod(content) {
            Ok(m) => {
                self.metadata = Some(m);
                Ok(())
            },
            Err(e) => Err(e),
        }
    }

    /// Returns input globs for files that affect metadata.
    pub fn input_globs(&self) -> (r: Vec<String>)
        ensures
            self.spec_ignore_go_mod() ==> r@.len() == 0,
            !self.spec_ignore_go_mod() ==> r@.len() == 1 && r@[0]@ == "go.mod"@,
    {
        if self.ignore_go_mod {
            return Vec::new();
        }
        let mut v: Vec<String> = Vec::new();
        v.push(String::from_str("go.mod"));
        v
    }

    /// The package name: the last segment of the module path.
    pub fn name(&self) -> (r: Option<String>)
        ensures
            r.deep_view() == (if self.spec_ignore_go_mod() {
                None
            } else {
                match self.spec_module() {
                    Some(m) => Some(spec_module_short_name(m)),
                    None => None,
                }
            }),
    {
        if self.ignore_go_mod {
            return None;
        }
        match &self.metadata {
            Some(m) => Some(module_short_name(m.module.as_str())),
            None => None,
        }
    }

    /// The repository URL derived from the module path.
    pub fn repository(&self) -> (r: Option<String>)
        ensures
            r.deep_view() == (if self.spec_ignore_go_mod() {
                None
            } else {
                match self.spec_module() {
                    Some(m) => Some(spec_module_repository(m)),
                    None => None,
                }
            }),
    {
        if self.ignore_go_mod {
            return None;
        }
        match &self.metadata {
            Some(m) => Some(module_repository(m.module.as_str())),
            None => None,
        }
    }
}

/// The short name is the last segment of the module path: it holds no `/`
/// and the path ends with it.
pub proof fn lemma_short_name_is_last_segment(path: Seq<char>)
    ensures
        !spec_module_short_name(path).contains('/'),
        has_suffix(path, spec_module_short_name(path)),
{
    lemma_rfind_char_spec(path, '/');
    let r = spec_module_short_name(path);
    match rfind_char(path, '/') {
        Some(i) => {
            assert forall|k: int| 0 <= k < r.len() implies r[k] != '/' by {
                assert(r[k] == path[i + 1 + k]);
            }
            assert(path.skip(path.len() - r.len()) =~= r);
        },
        None => {
            assert(path.skip(0) =~= path);
        },
    }
}

} // verus!
