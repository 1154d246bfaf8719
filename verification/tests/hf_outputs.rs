use pixi_experimental_backends::hf_kernel::mapping::MapOptions;
use pixi_experimental_backends::hf_kernel::outputs::build_all_records;
use std::collections::BTreeSet;

fn opts() -> MapOptions {
    MapOptions {
        package_name: "flash-attn".into(),
        version: "2.7.0".into(),
        build_number: 0,
        cuda_capabilities: vec![],
        require_cxx11: true,
    }
}

#[test]
fn enumerates_and_skips() {
    let variants: Vec<String> = [
        "torch26-cxx98-cu118-x86_64-linux",  // skipped: cxx98
        "torch26-cxx11-cu118-x86_64-linux",  // ok
        "torch27-cxx11-cu126-aarch64-linux", // ok
        "torch27-cxx11-cu126-riscv64-linux", // skipped: no subdir
        "totally-broken",                    // skipped: malformed
    ]
    .iter()
    .map(|s| s.to_string())
    .collect();

    let (records, skipped) = build_all_records(&variants, &opts());

    let got: BTreeSet<_> = records.iter().map(|r| r.variant.as_str()).collect();
    assert_eq!(
        got,
        BTreeSet::from(["torch26-cxx11-cu118-x86_64-linux", "torch27-cxx11-cu126-aarch64-linux"])
    );
    assert_eq!(skipped.len(), 3);

    let subdirs: BTreeSet<_> = records.iter().map(|r| r.subdir.as_str()).collect();
    assert_eq!(subdirs, BTreeSet::from(["linux-64", "linux-aarch64"]));
}

#[test]
fn skipped_entries_carry_their_reasons_in_order() {
    let variants: Vec<String> = vec![
        "torch26-cxx98-cu118-x86_64-linux".into(),
        "torch27-cxx11-cu126-riscv64-linux".into(),
        "totally-broken".into(),
    ];
    let (records, skipped) = build_all_records(&variants, &opts());
    assert!(records.is_empty());
    assert_eq!(skipped[0].variant, "torch26-cxx98-cu118-x86_64-linux");
    assert_eq!(
        skipped[0].reason,
        "torch26-cxx98-cu118-x86_64-linux: cxx98 ABI is incompatible with conda-forge (cxx11)"
    );
    assert_eq!(skipped[1].reason, "no conda subdir for riscv64-linux");
    assert_eq!(
        skipped[2].reason,
        "variant \"totally-broken\": expected 4 or 5 dash-separated fields, got 2"
    );
}

#[test]
fn every_name_is_recorded_or_skipped() {
    let variants: Vec<String> = vec![
        "torch26-cxx11-cu118-x86_64-linux".into(),
        "bad".into(),
        "torch26-cxx11-cu118-x86_64-linux".into(),
        "torch26-cxx98-cu118-x86_64-linux".into(),
    ];
    let (records, skipped) = build_all_records(&variants, &opts());
    assert_eq!(records.len() + skipped.len(), variants.len());
    assert_eq!(records.len(), 2);
    let (records, skipped) = build_all_records(&[], &opts());
    assert!(records.is_empty() && skipped.is_empty());
}
