//! Enumerate *all* build variants of a kernel as conda output records.
//!
//! The solver, not the backend, decides which variant is "best" for a host:
//! every compatible variant is handed over (each with its `__cuda` /
//! `__cuda_arch` / `pytorch` constraints). Variants that cannot be expressed
//! (malformed, cxx98, or an OS/arch with no conda subdir) are dropped with a
//! reason.
use vstd::prelude::*;

use crate::hf_kernel::mapping::{
    map_variant, spec_map_variant, CondaRecord, CondaRecordView, MapOptions, MapOptionsView,
};
use crate::hf_kernel::mapping::spec_subdir;
use crate::hf_kernel::variant::{parse_variant, spec_parse_variant};
use crate::text::string_views;

verus! {

#[derive(Debug, Clone, PartialEq, Eq)]
pub struct Skipped {
    pub variant: String,
    pub reason: String,
}

pub struct SkippedView {
    pub variant: Seq<char>,
    pub reason: Seq<char>,
}

impl View for Skipped {
    type V = SkippedView;

    open spec fn view(&self) -> SkippedView {
        SkippedView { variant: self.variant@, reason: self.reason@ }
    }
}

/// What becomes of one variant name: its record, or the reason it is skipped.
pub open spec fn spec_outcome(name: Seq<char>, o: MapOptionsView) -> Result<
    CondaRecordView,
    Seq<char>,
> {
    match spec_parse_variant(name) {
        Err(e) => Err(e.message()),
        Ok(v) => match spec_map_variant(v, o) {
            Ok(r) => Ok(r),
            Err(e) => Err(e.message()),
        },
    }
}

/// The records of the names that map, in order.
pub open spec fn spec_records(names: Seq<Seq<char>>, o: MapOptionsView) -> Seq<CondaRecordView>
    decreases names.len(),
{
    if names.len() == 0 {
        Seq::empty()
    } else {
        let prev = spec_records(names.drop_last(), o);
        match spec_outcome(names.last(), o) {
            Ok(r) => prev.push(r),
            Err(_) => prev,
        }
    }
}

/// The names that do not map, with their reasons, in order.
pub open spec fn spec_skipped(names: Seq<Seq<char>>, o: MapOptionsView) -> Seq<SkippedView>
    decreases names.len(),
{
    if names.len() == 0 {
        Seq::empty()
    } else {
        let prev = spec_skipped(names.drop_last(), o);
        match spec_outcome(names.last(), o) {
            Ok(_) => prev,
            Err(reason) => prev.push(SkippedView { variant: names.last(), reason }),
        }
    }
}

pub open spec fn record_views(v: Seq<CondaRecord>) -> Seq<CondaRecordView> {
    v.map_values(|r: CondaRecord| r@)
}

pub open spec fn skipped_views(v: Seq<Skipped>) -> Seq<SkippedView> {
    v.map_values(|s: Skipped| s@)
}

/// Return `(records, skipped)` for every variant directory of a kernel.
pub fn build_all_records(variant_names: &[String], opts: &MapOptions) -> (r: (
    Vec<CondaRecord>,
    Vec<Skipped>,
))
    ensures
        record_views(r.0@) == spec_records(string_views(variant_names@), opts@),
        skipped_views(r.1@) == spec_skipped(string_views(variant_names@), opts@),
{
    let ghost names = string_views(variant_names@);
    let mut records: Vec<CondaRecord> = Vec::new();
    let mut skipped: Vec<Skipped> = Vec::new();
    let mut i: usize = 0;
    while i < variant_names.len()
        invariant
            i <= variant_names.len(),
            names == string_views(variant_names@),
            record_views(records@) == spec_records(names.take(i as int), opts@),
            skipped_views(skipped@) == spec_skipped(names.take(i as int), opts@),
        decreases variant_names.len() - i,
    {
        let name = &variant_names[i];
        assert(names.take(i + 1).drop_last() =~= names.take(i as int));
        assert(names.take(i + 1).last() == name@);
        match parse_variant(name.as_str()) {
            Err(e) => {
                let s = Skipped { variant: name.clone(), reason: e.to_string() };
                skipped.push(s);
                assert(skipped_views(skipped@) =~= spec_skipped(names.take(i + 1), opts@));
                assert(record_views(records@) =~= spec_records(names.take(i + 1), opts@));
            },
            Ok(variant) => match map_variant(&variant, opts) {
                Ok(rec) => {
                    records.push(rec);
                    assert(skipped_views(skipped@) =~= spec_skipped(names.take(i + 1), opts@));
                    assert(record_views(records@) =~= spec_records(names.take(i + 1), opts@));
                },
                Err(e) => {
                    let s = Skipped { variant: name.clone(), reason: e.to_string() };
                    skipped.push(s);
                    assert(skipped_views(skipped@) =~= spec_skipped(names.take(i + 1), opts@));
                    assert(record_views(records@) =~= spec_records(names.take(i + 1), opts@));
                },
            },
        }
        i = i + 1;
    }
    assert(names.take(variant_names.len() as int) =~= names);
    (records, skipped)
}

/// Mapping two name lists one after the other gives the records and the
/// skipped names of the joined list; no names give nothing.
pub proof fn lemma_records_concat(a: Seq<Seq<char>>, b: Seq<Seq<char>>, o: MapOptionsView)
    ensures
        spec_records(a + b, o) == spec_records(a, o) + spec_records(b, o),
        spec_skipped(a + b, o) == spec_skipped(a, o) + spec_skipped(b, o),
        spec_records(Seq::empty(), o) == Seq::<CondaRecordView>::empty(),
        spec_skipped(Seq::empty(), o) == Seq::<SkippedView>::empty(),
    decreases b.len(),
{
    if b.len() == 0 {
        assert(a + b =~= a);
        assert(spec_records(a, o) + spec_records(b, o) =~= spec_records(a, o));
        assert(spec_skipped(a, o) + spec_skipped(b, o) =~= spec_skipped(a, o));
    } else {
        lemma_records_concat(a, b.drop_last(), o);
        assert((a + b).drop_last() =~= a + b.drop_last());
        assert((a + b).last() == b.last());
        let ra = spec_records(a, o);
        let rb = spec_records(b.drop_last(), o);
        let sa = spec_skipped(a, o);
        let sb = spec_skipped(b.drop_last(), o);
        match spec_outcome(b.last(), o) {
            Ok(r) => {
                assert((ra + rb).push(r) =~= ra + rb.push(r));
            },
            Err(reason) => {
                let e = SkippedView { variant: b.last(), reason };
                assert((sa + sb).push(e) =~= sa + sb.push(e));
            },
        }
    }
}

/// Every variant name ends up either as a record or as a skipped entry:
/// together they account for all names.
pub proof fn lemma_records_partition(names: Seq<Seq<char>>, o: MapOptionsView)
    ensures
        spec_records(names, o).len() + spec_skipped(names, o).len() == names.len(),
    decreases names.len(),
{
    if names.len() > 0 {
        lemma_records_partition(names.drop_last(), o);
    }
}

/// Each record repackages a variant whose name parses, maps to that very
/// record, has a conda subdir, and (when `require_cxx11` is set) is not of
/// the cxx98 ABI; each skipped entry names a variant that does not map.
pub proof fn lemma_records_are_mapped_variants(names: Seq<Seq<char>>, o: MapOptionsView)
    ensures
        forall|i: int| 0 <= i < spec_records(names, o).len() ==> {
            let r = #[trigger] spec_records(names, o)[i];
            &&& names.contains(r.variant)
            &&& spec_parse_variant(r.variant) matches Ok(v) && {
                &&& spec_subdir(v.arch, v.os) == Some(r.subdir)
                &&& (o.require_cxx11 ==> !v.spec_is_cxx98())
                &&& spec_outcome(r.variant, o) == Ok::<CondaRecordView, Seq<char>>(r)
            }
        },
        forall|i: int| 0 <= i < spec_skipped(names, o).len() ==> {
            let s = #[trigger] spec_skipped(names, o)[i];
            &&& names.contains(s.variant)
            &&& spec_outcome(s.variant, o) == Err::<CondaRecordView, Seq<char>>(s.reason)
        },
    decreases names.len(),
{
    if names.len() > 0 {
        let prev = names.drop_last();
        lemma_records_are_mapped_variants(prev, o);
        let recs = spec_records(names, o);
        let skips = spec_skipped(names, o);
        assert forall|i: int| 0 <= i < recs.len() implies {
            let r = #[trigger] recs[i];
            &&& names.contains(r.variant)
            &&& spec_parse_variant(r.variant) matches Ok(v) && {
                &&& spec_subdir(v.arch, v.os) == Some(r.subdir)
                &&& (o.require_cxx11 ==> !v.spec_is_cxx98())
                &&& spec_outcome(r.variant, o) == Ok::<CondaRecordView, Seq<char>>(r)
            }
        } by {
            if i < spec_records(prev, o).len() {
                let r = recs[i];
                assert(r == spec_records(prev, o)[i]);
                let k = choose|k: int| 0 <= k < prev.len() && prev[k] == r.variant;
                assert(names[k] == r.variant);
            } else {
                assert(names[names.len() - 1] == names.last());
            }
        }
        assert forall|i: int| 0 <= i < skips.len() implies {
            let s = #[trigger] skips[i];
            &&& names.contains(s.variant)
            &&& spec_outcome(s.variant, o) == Err::<CondaRecordView, Seq<char>>(s.reason)
        } by {
            if i < spec_skipped(prev, o).len() {
                let s = skips[i];
                assert(s == spec_skipped(prev, o)[i]);
                let k = choose|k: int| 0 <= k < prev.len() && prev[k] == s.variant;
                assert(names[k] == s.variant);
            } else {
                assert(names[names.len() - 1] == names.last());
            }
        }
    }
}

} // verus!
