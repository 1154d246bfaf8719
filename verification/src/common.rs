//! Pieces shared by every backend's configuration: the ordered environment
//! map, the (deprecated) debug directory, the error a target-specific merge
//! can raise, and the override rules a merge applies field by field.
use vstd::prelude::*;

use indexmap::IndexMap;
use std::hash::RandomState;
use std::path::PathBuf;

use crate::text::string_views;

verus! {

#[verifier::external_type_specification]
#[verifier::external_body]
#[verifier::reject_recursive_types(K)]
#[verifier::reject_recursive_types(V)]
#[verifier::reject_recursive_types(S)]
pub struct ExIndexMap<K, V, S>(IndexMap<K, V, S>);

#[verifier::external_type_specification]
#[verifier::external_body]
pub struct ExPathBuf(PathBuf);

/// The environment of a build script: variable names and values.
pub type EnvMap = IndexMap<String, String, RandomState>;

/// The entries of an environment map in their order.
pub uninterp spec fn env_entries(m: EnvMap) -> Seq<(Seq<char>, Seq<char>)>;

/// Position of `k` among the keys of `e`.
pub open spec fn key_index(e: Seq<(Seq<char>, Seq<char>)>, k: Seq<char>) -> Option<int>
    decreases e.len(),
{
    if e.len() == 0 {
        None
    } else if e.last().0 == k {
        Some(e.len() - 1)
    } else {
        key_index(e.drop_last(), k)
    }
}

/// No key occurs twice.
pub open spec fn keys_distinct(e: Seq<(Seq<char>, Seq<char>)>) -> bool {
    forall|i: int, j: int| 0 <= i < j < e.len() ==> #[trigger] e[i].0 != #[trigger] e[j].0
}

/// `IndexMap::insert`: an existing key keeps its place and takes the new
/// value; a new key goes last.
pub open spec fn env_insert_spec(e: Seq<(Seq<char>, Seq<char>)>, k: Seq<char>, v: Seq<char>) -> Seq<
    (Seq<char>, Seq<char>),
> {
    match key_index(e, k) {
        Some(i) => e.update(i, (k, v)),
        None => e.push((k, v)),
    }
}

/// `IndexMap::extend`: the entries of `other` inserted one by one, in order.
pub open spec fn env_extend_spec(
    e: Seq<(Seq<char>, Seq<char>)>,
    other: Seq<(Seq<char>, Seq<char>)>,
) -> Seq<(Seq<char>, Seq<char>)>
    decreases other.len(),
{
    if other.len() == 0 {
        e
    } else {
        let prev = env_extend_spec(e, other.drop_last());
        env_insert_spec(prev, other.last().0, other.last().1)
    }
}

/// `IndexMap::new`.
#[verifier::external_body]
pub fn env_new() -> (m: EnvMap)
    ensures
        env_entries(m) == Seq::<(Seq<char>, Seq<char>)>::empty(),
{
    IndexMap::new()
}

/// `IndexMap::clone`: the same entries in the same order.
#[verifier::external_body]
pub fn env_clone(m: &EnvMap) -> (r: EnvMap)
    ensures
        env_entries(r) == env_entries(*m),
{
    m.clone()
}

/// `IndexMap::extend`, which inserts every entry of `other` in order.
#[verifier::external_body]
pub fn env_extend(m: &mut EnvMap, other: EnvMap)
    ensures
        env_entries(*final(m)) == env_extend_spec(env_entries(*old(m)), env_entries(other)),
{
    m.extend(other);
}

/// The entries of `m`, in order (`IndexMap::iter`, each pair cloned). The
/// keys of an `IndexMap` are distinct.
#[verifier::external_body]
pub fn env_to_vec(m: &EnvMap) -> (r: Vec<(String, String)>)
    ensures
        r@.map_values(|p: (String, String)| (p.0@, p.1@)) == env_entries(*m),
        keys_distinct(r@.map_values(|p: (String, String)| (p.0@, p.1@))),
{
    m.iter().map(|(k, v)| (k.clone(), v.clone())).collect()
}

/// `PathBuf::clone`.
#[verifier::external_body]
pub fn path_clone(p: &PathBuf) -> (r: PathBuf)
    ensures
        r == *p,
{
    p.clone()
}

pub fn opt_path_clone(p: &Option<PathBuf>) -> (r: Option<PathBuf>)
    ensures
        r == *p,
{
    match p {
        Some(x) => Some(path_clone(x)),
        None => None,
    }
}

/// What merging a target-specific configuration into the base one can fail
/// with.
#[derive(Debug, Clone, Copy, PartialEq, Eq, Structural)]
pub enum ConfigError {
    /// The target configuration sets `debug_dir`.
    TargetDebugDir,
}

impl ConfigError {
    pub open spec fn message(self) -> Seq<char> {
        "`debug_dir` cannot have a target specific value"@
    }

    /// The error's message.
    pub fn to_string(&self) -> (s: String)
        ensures
            s@ == self.message(),
    {
        String::from_str("`debug_dir` cannot have a target specific value")
    }
}

// ---------------------------------------------------------------------------
// Override rules
// ---------------------------------------------------------------------------
/// A list from the target replaces the base one unless it is empty.
pub open spec fn override_list(base: Seq<Seq<char>>, target: Seq<Seq<char>>) -> Seq<Seq<char>> {
    if target.len() == 0 {
        base
    } else {
        target
    }
}

/// A value set in the target replaces the base one.
pub open spec fn override_opt<T>(base: Option<T>, target: Option<T>) -> Option<T> {
    match target {
        Some(t) => Some(t),
        None => base,
    }
}

pub fn clone_strings(v: &Vec<String>) -> (r: Vec<String>)
    ensures
        string_views(r@) == string_views(v@),
{
    let mut r: Vec<String> = Vec::new();
    let mut i: usize = 0;
    while i < v.len()
        invariant
            i <= v.len(),
            string_views(r@) == string_views(v@).take(i as int),
        decreases v.len() - i,
    {
        let c = v[i].clone();
        assert(c@ == v@[i as int]@);
        let ghost before = string_views(r@);
        r.push(c);
        assert(string_views(r@) =~= before.push(c@));
        assert(before.push(c@) =~= string_views(v@).take(i + 1));
        i = i + 1;
    }
    assert(string_views(v@).take(v.len() as int) =~= string_views(v@));
    r
}

pub fn clone_opt_string(o: &Option<String>) -> (r: Option<String>)
    ensures
        r.deep_view() == o.deep_view(),
{
    match o {
        Some(s) => Some(s.clone()),
        None => None,
    }
}

pub fn clone_opt_strings(o: &Option<Vec<String>>) -> (r: Option<Vec<String>>)
    ensures
        opt_string_views(r) == opt_string_views(*o),
{
    match o {
        Some(v) => Some(clone_strings(v)),
        None => None,
    }
}

pub open spec fn opt_string_views(o: Option<Vec<String>>) -> Option<Seq<Seq<char>>> {
    match o {
        Some(v) => Some(string_views(v@)),
        None => None,
    }
}

/// Whether `v` is the one-element list `[lit]`.
pub fn is_single(v: &Vec<String>, lit: &str) -> (r: bool)
    ensures
        r == (string_views(v@) == seq![lit@]),
{
    if v.len() != 1 {
        assert(string_views(v@).len() != seq![lit@].len());
        return false;
    }
    let c = crate::text::chars_of(v[0].as_str());
    let r = crate::text::chars_eq_str(c.as_slice(), lit);
    if r {
        assert(string_views(v@) =~= seq![lit@]);
    } else {
        assert(string_views(v@)[0] != seq![lit@][0]);
    }
    r
}

/// A list holding just `lit`.
pub fn single(lit: &str) -> (r: Vec<String>)
    ensures
        string_views(r@) == seq![lit@],
{
    let mut r: Vec<String> = Vec::new();
    r.push(lit.to_string());
    assert(string_views(r@) =~= seq![lit@]);
    r
}

/// Append `s` to a list of strings.
pub fn push_lit(v: &mut Vec<String>, s: &str)
    ensures
        string_views(final(v)@) == string_views(old(v)@).push(s@),
{
    let ghost before = string_views(v@);
    v.push(s.to_string());
    assert(string_views(v@) =~= before.push(s@));
}

/// Append the strings of `w` to `v`.
pub fn append_strings(v: &mut Vec<String>, w: &Vec<String>)
    ensures
        string_views(final(v)@) == string_views(old(v)@) + string_views(w@),
{
    let ghost start = string_views(v@);
    let mut i: usize = 0;
    while i < w.len()
        invariant
            i <= w.len(),
            string_views(v@) == start + string_views(w@).take(i as int),
        decreases w.len() - i,
    {
        let ghost before = string_views(v@);
        let c = w[i].clone();
        v.push(c);
        assert(string_views(v@) =~= before.push(w@[i as int]@));
        i = i + 1;
        assert(start + string_views(w@).take(i as int) =~= before.push(w@[i - 1]@));
    }
    assert(string_views(w@).take(w.len() as int) =~= string_views(w@));
}

/// Whether `s` is one of the strings of `v`.
pub fn contains_string(v: &Vec<String>, s: &str) -> (r: bool)
    ensures
        r == string_views(v@).contains(s@),
{
    let sc = crate::text::chars_of(s);
    let mut i: usize = 0;
    while i < v.len()
        invariant
            i <= v.len(),
            sc@ == s@,
            forall|k: int| 0 <= k < i ==> v@[k]@ != s@,
        decreases v.len() - i,
    {
        let c = crate::text::chars_of(v[i].as_str());
        if crate::text::chars_eq(c.as_slice(), sc.as_slice()) {
            assert(string_views(v@)[i as int] == s@);
            return true;
        }
        i = i + 1;
    }
    assert forall|k: int| 0 <= k < string_views(v@).len() implies string_views(v@)[k] != s@ by {
        assert(string_views(v@)[k] == v@[k]@);
    }
    false
}

pub open spec fn variant_entry_views(v: Seq<(String, Vec<String>)>) -> Seq<(Seq<char>, Seq<Seq<char>>)> {
    v.map_values(|e: (String, Vec<String>)| (e.0@, string_views(e.1@)))
}

/// The variant defaults of the compiled-language backends: on Windows both
/// the C and the C++ compiler are `vs2022`; elsewhere nothing is preset.
/// Entries come in key order.
pub open spec fn spec_compiler_default_variants(host_is_windows: bool) -> Seq<
    (Seq<char>, Seq<Seq<char>>),
> {
    if host_is_windows {
        seq![("c_compiler"@, seq!["vs2022"@]), ("cxx_compiler"@, seq!["vs2022"@])]
    } else {
        Seq::empty()
    }
}

pub fn compiler_default_variants(host_is_windows: bool) -> (r: Vec<(String, Vec<String>)>)
    ensures
        variant_entry_views(r@) == spec_compiler_default_variants(host_is_windows),
{
    let mut r: Vec<(String, Vec<String>)> = Vec::new();
    if host_is_windows {
        r.push((String::from_str("c_compiler"), single("vs2022")));
        r.push((String::from_str("cxx_compiler"), single("vs2022")));
    }
    assert(variant_entry_views(r@) =~= spec_compiler_default_variants(host_is_windows));
    r
}

/// The names of `wanted` that `existing` does not hold, in order.
pub open spec fn missing_from(wanted: Seq<Seq<char>>, existing: Seq<Seq<char>>) -> Seq<Seq<char>>
    decreases wanted.len(),
{
    if wanted.len() == 0 {
        Seq::empty()
    } else {
        let prev = missing_from(wanted.drop_last(), existing);
        if existing.contains(wanted.last()) {
            prev
        } else {
            prev.push(wanted.last())
        }
    }
}

/// Append to `out` each name of `wanted` that `existing` does not hold.
pub fn push_missing(out: &mut Vec<String>, wanted: &Vec<String>, existing: &Vec<String>)
    ensures
        string_views(final(out)@) == string_views(old(out)@) + missing_from(
            string_views(wanted@),
            string_views(existing@),
        ),
{
    let ghost start = string_views(out@);
    let ghost w = string_views(wanted@);
    let mut i: usize = 0;
    while i < wanted.len()
        invariant
            i <= wanted.len(),
            w == string_views(wanted@),
            string_views(out@) == start + missing_from(w.take(i as int), string_views(existing@)),
        decreases wanted.len() - i,
    {
        assert(w.take(i + 1).drop_last() =~= w.take(i as int));
        assert(w.take(i + 1).last() == wanted@[i as int]@);
        if !contains_string(existing, wanted[i].as_str()) {
            let ghost before = string_views(out@);
            out.push(wanted[i].clone());
            assert(string_views(out@) =~= before.push(wanted@[i as int]@));
        }
        i = i + 1;
    }
    assert(w.take(wanted.len() as int) =~= w);
}

/// [`override_list`] on vectors of strings.
pub fn pick_list(base: &Vec<String>, target: &Vec<String>) -> (r: Vec<String>)
    ensures
        string_views(r@) == override_list(string_views(base@), string_views(target@)),
{
    if target.len() == 0 {
        clone_strings(base)
    } else {
        clone_strings(target)
    }
}

/// [`override_opt`] on optional strings.
pub fn pick_opt_string(base: &Option<String>, target: &Option<String>) -> (r: Option<String>)
    ensures
        r.deep_view() == override_opt(base.deep_view(), target.deep_view()),
{
    match target {
        Some(t) => Some(t.clone()),
        None => clone_opt_string(base),
    }
}

/// [`override_opt`] on optional lists of strings.
pub fn pick_opt_strings(base: &Option<Vec<String>>, target: &Option<Vec<String>>) -> (r: Option<
    Vec<String>,
>)
    ensures
        opt_string_views(r) == override_opt(opt_string_views(*base), opt_string_views(*target)),
{
    match target {
        Some(t) => Some(clone_strings(t)),
        None => clone_opt_strings(base),
    }
}

/// The environment of a merged configuration: the base entries, then the
/// target's entries inserted over them.
pub fn merge_env(base: &EnvMap, target: &EnvMap) -> (r: EnvMap)
    ensures
        env_entries(r) == env_extend_spec(env_entries(*base), env_entries(*target)),
{
    let mut merged = env_clone(base);
    env_extend(&mut merged, env_clone(target));
    merged
}

// ---------------------------------------------------------------------------
// Laws of the environment merge
// ---------------------------------------------------------------------------
proof fn lemma_key_index_some(e: Seq<(Seq<char>, Seq<char>)>, i: int)
    requires
        keys_distinct(e),
        0 <= i < e.len(),
    ensures
        key_index(e, e[i].0) == Some(i),
    decreases e.len(),
{
    if i < e.len() - 1 {
        assert(e.last().0 != e[i].0);
        assert(e.drop_last()[i] == e[i]);
        lemma_key_index_some(e.drop_last(), i);
    }
}

/// Merging an environment with itself changes nothing, when its keys are
/// distinct (as an `IndexMap`'s are).
pub proof fn lemma_env_extend_self(e: Seq<(Seq<char>, Seq<char>)>, other: Seq<(Seq<char>, Seq<char>)>)
    requires
        keys_distinct(e),
        other.len() <= e.len(),
        other == e.take(other.len() as int),
    ensures
        env_extend_spec(e, other) == e,
    decreases other.len(),
{
    if other.len() > 0 {
        let n = other.len() - 1;
        assert(other.drop_last() =~= e.take(n));
        lemma_env_extend_self(e, other.drop_last());
        lemma_key_index_some(e, n);
        assert(other.last() == e[n]);
        assert(e.update(n, (e[n].0, e[n].1)) =~= e);
    }
}

/// The value of `k` in an environment.
pub open spec fn env_lookup(e: Seq<(Seq<char>, Seq<char>)>, k: Seq<char>) -> Option<Seq<char>> {
    match key_index(e, k) {
        Some(i) => Some(e[i].1),
        None => None,
    }
}

proof fn lemma_key_index_bounds(e: Seq<(Seq<char>, Seq<char>)>, k: Seq<char>)
    ensures
        key_index(e, k) matches Some(i) ==> 0 <= i < e.len() && e[i].0 == k,
    decreases e.len(),
{
    if e.len() > 0 && e.last().0 != k {
        lemma_key_index_bounds(e.drop_last(), k);
    }
}

proof fn lemma_key_index_update(e: Seq<(Seq<char>, Seq<char>)>, i: int, k: Seq<char>, v: Seq<char>, k2: Seq<char>)
    requires
        0 <= i < e.len(),
        e[i].0 == k,
    ensures
        key_index(e.update(i, (k, v)), k2) == key_index(e, k2),
    decreases e.len(),
{
    let u = e.update(i, (k, v));
    if i < e.len() - 1 {
        assert(u.drop_last() =~= e.drop_last().update(i, (k, v)));
        lemma_key_index_update(e.drop_last(), i, k, v, k2);
    } else {
        assert(u.drop_last() =~= e.drop_last());
    }
}

/// After an insert, the inserted key holds the new value and every other key
/// keeps its value.
pub proof fn lemma_env_insert_lookup(
    e: Seq<(Seq<char>, Seq<char>)>,
    k: Seq<char>,
    v: Seq<char>,
    k2: Seq<char>,
)
    ensures
        env_lookup(env_insert_spec(e, k, v), k2) == if k2 == k {
            Some(v)
        } else {
            env_lookup(e, k2)
        },
{
    lemma_key_index_bounds(e, k);
    lemma_key_index_bounds(e, k2);
    match key_index(e, k) {
        Some(i) => {
            lemma_key_index_update(e, i, k, v, k2);
            lemma_key_index_bounds(e.update(i, (k, v)), k2);
            if k2 == k {
                assert(key_index(e, k2) == Some(i));
            } else {
                match key_index(e, k2) {
                    Some(j) => {
                        assert(j != i);
                    },
                    None => {},
                }
            }
        },
        None => {
            assert(e.push((k, v)).drop_last() =~= e);
        },
    }
}

/// Merging environments: a key the target sets takes the target's value
/// (its last one); any other key keeps the base value.
pub proof fn lemma_env_extend_lookup(
    e: Seq<(Seq<char>, Seq<char>)>,
    other: Seq<(Seq<char>, Seq<char>)>,
    k: Seq<char>,
)
    ensures
        env_lookup(env_extend_spec(e, other), k) == match env_lookup(other, k) {
            Some(v) => Some(v),
            None => env_lookup(e, k),
        },
    decreases other.len(),
{
    if other.len() > 0 {
        let prev = other.drop_last();
        lemma_env_extend_lookup(e, prev, k);
        lemma_env_insert_lookup(env_extend_spec(e, prev), other.last().0, other.last().1, k);
        lemma_key_index_bounds(other, k);
        lemma_key_index_bounds(prev, k);
        if other.last().0 != k {
            match key_index(prev, k) {
                Some(j) => {
                    assert(other[j] == prev[j]);
                },
                None => {},
            }
        }
    }
}

/// Extending by an empty environment changes nothing.
pub proof fn lemma_env_extend_empty(e: Seq<(Seq<char>, Seq<char>)>)
    ensures
        env_extend_spec(e, Seq::empty()) == e,
{
}

/// The merged value of an optional setting takes the target's value when
/// the target sets one, and the base's otherwise.
pub open spec fn takes_target_opt<T>(merged: Option<T>, base: Option<T>, target: Option<T>) -> bool {
    &&& target matches Some(t) ==> merged == Some(t)
    &&& target is None ==> merged == base
}

/// The merged value of a list setting is the target's list when it is not
/// empty, and the base's otherwise.
pub open spec fn takes_target_list(
    merged: Seq<Seq<char>>,
    base: Seq<Seq<char>>,
    target: Seq<Seq<char>>,
) -> bool {
    &&& target.len() > 0 ==> merged == target
    &&& target.len() == 0 ==> merged == base
}

/// In the merged environment every variable the target sets has the
/// target's value, and every other variable the base's.
pub open spec fn takes_target_env(
    merged: Seq<(Seq<char>, Seq<char>)>,
    base: Seq<(Seq<char>, Seq<char>)>,
    target: Seq<(Seq<char>, Seq<char>)>,
) -> bool {
    forall|k: Seq<char>|
        #![trigger env_lookup(merged, k)]
        env_lookup(merged, k) == match env_lookup(target, k) {
            Some(v) => Some(v),
            None => env_lookup(base, k),
        }
}

/// Combining two environments lets the target's variables win.
pub proof fn lemma_env_extend_takes_target(
    base: Seq<(Seq<char>, Seq<char>)>,
    target: Seq<(Seq<char>, Seq<char>)>,
)
    ensures
        takes_target_env(env_extend_spec(base, target), base, target),
{
    assert forall|k: Seq<char>|
        #![trigger env_lookup(env_extend_spec(base, target), k)]
        env_lookup(env_extend_spec(base, target), k) == match env_lookup(target, k) {
            Some(v) => Some(v),
            None => env_lookup(base, k),
        } by {
        lemma_env_extend_lookup(base, target, k);
    }
}

/// What is missing from a list: exactly the wanted names that the list does
/// not hold.
pub proof fn lemma_missing_from_members(wanted: Seq<Seq<char>>, existing: Seq<Seq<char>>)
    ensures
        forall|x: Seq<char>|
            #![trigger missing_from(wanted, existing).contains(x)]
            missing_from(wanted, existing).contains(x) <==> (wanted.contains(x) && !existing.contains(
                x,
            )),
    decreases wanted.len(),
{
    if wanted.len() > 0 {
        let prev = wanted.drop_last();
        lemma_missing_from_members(prev, existing);
        assert forall|x: Seq<char>|
            #![trigger missing_from(wanted, existing).contains(x)]
            missing_from(wanted, existing).contains(x) <==> (wanted.contains(x) && !existing.contains(
                x,
            )) by {
            let m = missing_from(prev, existing);
            if wanted.contains(x) {
                let i = choose|i: int| 0 <= i < wanted.len() && wanted[i] == x;
                if i < wanted.len() - 1 {
                    assert(prev[i] == x);
                    assert(prev.contains(x));
                }
            }
            if prev.contains(x) {
                let i = choose|i: int| 0 <= i < prev.len() && prev[i] == x;
                assert(wanted[i] == x);
            }
            if !existing.contains(wanted.last()) {
                assert(m.push(wanted.last()).contains(x) <==> (m.contains(x) || x == wanted.last())) by {
                    if m.push(wanted.last()).contains(x) {
                        let j = choose|j: int| 0 <= j < m.len() + 1 && m.push(wanted.last())[j] == x;
                        if j < m.len() {
                            assert(m[j] == x);
                        }
                    }
                    if m.contains(x) {
                        let j = choose|j: int| 0 <= j < m.len() && m[j] == x;
                        assert(m.push(wanted.last())[j] == x);
                    }
                    if x == wanted.last() {
                        assert(m.push(wanted.last())[m.len() as int] == x);
                    }
                }
            }
            if x == wanted.last() {
                assert(wanted[wanted.len() - 1] == x);
            }
        }
    }
}

/// A joined list holds what either part holds.
pub proof fn lemma_concat_contains(a: Seq<Seq<char>>, b: Seq<Seq<char>>)
    ensures
        forall|x: Seq<char>|
            #![trigger (a + b).contains(x)]
            (a + b).contains(x) <==> (a.contains(x) || b.contains(x)),
{
    assert forall|x: Seq<char>| #![trigger (a + b).contains(x)] (a + b).contains(x) <==> (a.contains(x) || b.contains(x)) by {
        if (a + b).contains(x) {
            let i = choose|i: int| 0 <= i < (a + b).len() && (a + b)[i] == x;
            if i < a.len() {
                assert(a[i] == x);
            } else {
                assert(b[i - a.len()] == x);
            }
        }
        if a.contains(x) {
            let i = choose|i: int| 0 <= i < a.len() && a[i] == x;
            assert((a + b)[i] == x);
        }
        if b.contains(x) {
            let i = choose|i: int| 0 <= i < b.len() && b[i] == x;
            assert((a + b)[a.len() + i] == x);
        }
    }
}

} // verus!
