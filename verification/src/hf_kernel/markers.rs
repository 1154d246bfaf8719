//! The variant entries by which an output of the HF-kernel backend names
//! the Hub tree it repackages, and the lookup by which the build finds them.
use vstd::prelude::*;

use crate::hf_kernel::backend::OutputPlan;
use crate::hf_kernel::hub::pair_views;
use crate::text::{chars_eq, chars_of};

verus! {

/// The key under which an output carries the Hub variant it repackages.
pub const VARIANT_MARKER: &'static str = "hf_kernel_variant";

/// The key under which an output carries the commit it is taken from.
pub const SHA_MARKER: &'static str = "hf_kernel_sha";

/// The variant entries of an output: exactly the variant and commit markers.
pub open spec fn spec_output_markers(variant: Seq<char>, sha: Seq<char>) -> Seq<(Seq<char>, Seq<char>)> {
    seq![(VARIANT_MARKER@, variant), (SHA_MARKER@, sha)]
}

/// The value of the first entry with the given key.
pub open spec fn spec_marker_lookup(entries: Seq<(Seq<char>, Seq<char>)>, key: Seq<char>) -> Option<
    Seq<char>,
>
    decreases entries.len(),
{
    if entries.len() == 0 {
        None
    } else if entries[0].0 == key {
        Some(entries[0].1)
    } else {
        spec_marker_lookup(entries.drop_first(), key)
    }
}

/// The variant entries an output carries, so that the build finds the Hub
/// tree again: the variant and the commit, under their marker keys.
pub fn output_markers(plan: &OutputPlan) -> (r: Vec<(String, String)>)
    ensures
        pair_views(r@) == spec_output_markers(plan.variant@, plan.sha@),
{
    let mut r: Vec<(String, String)> = Vec::new();
    r.push((VARIANT_MARKER.to_string(), plan.variant.clone()));
    r.push((SHA_MARKER.to_string(), plan.sha.clone()));
    assert(pair_views(r@) =~= spec_output_markers(plan.variant@, plan.sha@));
    r
}

/// The value of the first entry with the given key, if any.
pub fn marker_lookup(entries: &Vec<(String, String)>, key: &str) -> (r: Option<String>)
    ensures
        r.deep_view() == spec_marker_lookup(pair_views(entries@), key@),
{
    let kc = chars_of(key);
    let ghost views = pair_views(entries@);
    let mut i: usize = 0;
    assert(views.skip(0) =~= views);
    while i < entries.len()
        invariant
            i <= entries.len(),
            views == pair_views(entries@),
            kc@ == key@,
            spec_marker_lookup(views, key@) == spec_marker_lookup(views.skip(i as int), key@),
        decreases entries.len() - i,
    {
        assert(views.skip(i as int)[0] == views[i as int]);
        assert(views.skip(i as int).drop_first() =~= views.skip(i + 1));
        let ec = chars_of(entries[i].0.as_str());
        if chars_eq(ec.as_slice(), kc.as_slice()) {
            return Some(entries[i].1.clone());
        }
        i = i + 1;
    }
    None
}

/// What an output carries is what the build reads back: looking up the
/// marker keys in an output's variant entries gives its variant and commit.
pub proof fn lemma_markers_round_trip(variant: Seq<char>, sha: Seq<char>)
    ensures
        spec_marker_lookup(spec_output_markers(variant, sha), VARIANT_MARKER@) == Some(variant),
        spec_marker_lookup(spec_output_markers(variant, sha), SHA_MARKER@) == Some(sha),
        spec_output_markers(variant, sha).len() == 2,
{
    reveal_strlit("hf_kernel_variant");
    reveal_strlit("hf_kernel_sha");
    reveal_with_fuel(spec_marker_lookup, 3);
    let m = spec_output_markers(variant, sha);
    assert(m.drop_first() =~= seq![(SHA_MARKER@, sha)]);
    assert(VARIANT_MARKER@[10] != SHA_MARKER@[10]);
}

} // verus!
