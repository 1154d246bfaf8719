use pixi_experimental_backends::hf_kernel::variant::{ComputeKind, Variant};
use pixi_experimental_backends::hf_kernel::mapping::{
    build_string, cuda_arch_floor, map_variant, subdir_for, MapOptions, UnsupportedVariant,
};
use pixi_experimental_backends::hf_kernel::variant::parse_variant;

fn opts() -> MapOptions {
    MapOptions {
        package_name: "flash-attn".into(),
        version: "2.7.0".into(),
        build_number: 0,
        cuda_capabilities: vec![],
        require_cxx11: true,
    }
}

#[test]
fn cuda_sets_virtual_package_constraints() {
    let v = parse_variant("torch26-cxx11-cu118-x86_64-linux").unwrap();
    let rec = map_variant(&v, &opts()).unwrap();
    assert_eq!(rec.subdir, "linux-64");
    assert!(rec.depends.contains(&"pytorch 2.6.*".to_string()));
    assert_eq!(rec.torch_pin, "pytorch 2.6.*");
    assert_eq!(rec.cuda_floor.as_deref(), Some("11.8"));
    assert!(rec.constrains.contains(&"__cuda >=11.8".to_string()));
    assert_eq!(rec.build, "torch26_cxx11_cuda118");
}

#[test]
fn cuda_arch_floor_from_capabilities() {
    let v = parse_variant("torch26-cxx11-cu124-x86_64-linux").unwrap();
    let mut o = opts();
    o.cuda_capabilities = vec!["9.0".into(), "8.0".into(), "8.6".into()];
    let rec = map_variant(&v, &o).unwrap();
    assert!(rec.constrains.contains(&"__cuda_arch >=8.0".to_string()));
}

#[test]
fn cxx98_rejected() {
    let v = parse_variant("torch26-cxx98-cu118-x86_64-linux").unwrap();
    assert_eq!(
        map_variant(&v, &opts()),
        Err(UnsupportedVariant::Cxx98("torch26-cxx98-cu118-x86_64-linux".into()))
    );
}

#[test]
fn cxx98_kept_when_not_required() {
    let v = parse_variant("torch26-cxx98-cu118-x86_64-linux").unwrap();
    let mut o = opts();
    o.require_cxx11 = false;
    let rec = map_variant(&v, &o).unwrap();
    assert_eq!(rec.build, "torch26_cxx98_cuda118");
}

#[test]
fn full_record_of_a_cuda_variant() {
    let v = parse_variant("torch27-cxx11-cu126-aarch64-linux").unwrap();
    let mut o = opts();
    o.cuda_capabilities = vec!["9.0".into(), "8.0".into()];
    o.build_number = 3;
    let rec = map_variant(&v, &o).unwrap();
    assert_eq!(rec.name, "flash-attn");
    assert_eq!(rec.version, "2.7.0");
    assert_eq!(rec.build_number, 3);
    assert_eq!(rec.subdir, "linux-aarch64");
    assert_eq!(rec.depends, vec!["pytorch 2.7.*".to_string()]);
    assert_eq!(
        rec.constrains,
        vec![
            "__cuda >=12.6".to_string(),
            "cuda-version >=12.6".to_string(),
            "__cuda_arch >=8.0".to_string()
        ]
    );
    assert_eq!(rec.variant, "torch27-cxx11-cu126-aarch64-linux");
}

#[test]
fn rocm_metal_and_cpu_records() {
    let rec = map_variant(&parse_variant("torch26-cxx11-rocm62-x86_64-linux").unwrap(), &opts()).unwrap();
    assert_eq!(rec.constrains, vec!["__hip >=6.2".to_string()]);
    assert_eq!(rec.cuda_floor, None);
    assert_eq!(rec.build, "torch26_cxx11_rocm62");

    let rec = map_variant(&parse_variant("torch210-metal-aarch64-darwin").unwrap(), &opts()).unwrap();
    assert!(rec.constrains.is_empty());
    assert_eq!(rec.subdir, "osx-arm64");
    assert_eq!(rec.build, "torch210_metal");

    let mut o = opts();
    o.cuda_capabilities = vec!["8.0".into()];
    let rec = map_variant(&parse_variant("torch210-cpu-x86_64-darwin").unwrap(), &o).unwrap();
    assert!(rec.constrains.is_empty());
    assert_eq!(rec.subdir, "osx-64");
    assert_eq!(rec.build, "torch210_cpu");

    let rec = map_variant(&parse_variant("torch210-cu128-x86_64-windows").unwrap(), &opts()).unwrap();
    assert_eq!(rec.subdir, "win-64");
    assert_eq!(rec.build, "torch210_cuda128");
}

#[test]
fn other_frameworks_keep_their_name() {
    let rec = map_variant(&parse_variant("jax04-cxx11-cu118-x86_64-linux").unwrap(), &opts()).unwrap();
    assert_eq!(rec.torch_pin, "jax 0.4.*");
}

#[test]
fn unknown_platform_has_no_subdir() {
    let v = parse_variant("torch27-cxx11-cu126-riscv64-linux").unwrap();
    let e = map_variant(&v, &opts()).unwrap_err();
    assert_eq!(
        e,
        UnsupportedVariant::NoSubdir { arch: "riscv64".into(), os: "linux".into() }
    );
    assert_eq!(e.to_string(), "no conda subdir for riscv64-linux");
    assert!(subdir_for(&v).is_err());
    let e = UnsupportedVariant::Cxx98("x".into());
    assert_eq!(e.to_string(), "x: cxx98 ABI is incompatible with conda-forge (cxx11)");
}

#[test]
fn arch_floor_is_the_lowest_capability() {
    assert_eq!(cuda_arch_floor(&[]), None);
    let caps: Vec<String> = vec!["9.0".into(), "8.6".into(), "8.0".into()];
    assert_eq!(cuda_arch_floor(&caps), Some("8.0".to_string()));
    // minor parts compare as numbers; a missing minor is 0; junk counts as 0
    let caps: Vec<String> = vec!["8.10".into(), "8.9".into()];
    assert_eq!(cuda_arch_floor(&caps), Some("8.9".to_string()));
    let caps: Vec<String> = vec!["10".into(), "9.5".into()];
    assert_eq!(cuda_arch_floor(&caps), Some("9.5".to_string()));
    let caps: Vec<String> = vec!["9.0".into(), "x.y".into()];
    assert_eq!(cuda_arch_floor(&caps), Some("0.0".to_string()));
    let caps: Vec<String> = vec!["+07.5".into()];
    assert_eq!(cuda_arch_floor(&caps), Some("7.5".to_string()));
}

#[test]
fn build_strings_differ_between_variants_of_one_platform() {
    let mut o = opts();
    o.require_cxx11 = false;
    let names = [
        "torch26-cxx98-cu118-x86_64-linux",
        "torch26-cxx11-cu118-x86_64-linux",
        "torch26-cxx11-cu126-x86_64-linux",
        "torch26-cxx11-rocm62-x86_64-linux",
        "torch27-cxx11-cu118-x86_64-linux",
        "torch210-cxx11-cpu-x86_64-linux",
        "torch210-cpu-x86_64-linux",
    ];
    let builds: Vec<String> = names
        .iter()
        .map(|n| map_variant(&parse_variant(n).unwrap(), &o).unwrap().build)
        .collect();
    for i in 0..builds.len() {
        for j in 0..builds.len() {
            if i != j {
                assert_ne!(builds[i], builds[j]);
            }
        }
    }
    assert_eq!(builds[5], "torch210_cxx11_cpu");
    assert_eq!(builds[6], "torch210_cpu");
}

#[test]
fn toolkit_digits_are_kept_as_written() {
    let a = parse_variant("torch26-cxx11-cu0118-x86_64-linux").unwrap();
    let b = parse_variant("torch26-cxx11-cu118-x86_64-linux").unwrap();
    assert_eq!(a.compute_version.as_deref(), Some("011.8"));
    assert_eq!(b.compute_version.as_deref(), Some("11.8"));
    let ra = map_variant(&a, &opts()).unwrap();
    let rb = map_variant(&b, &opts()).unwrap();
    assert_eq!(ra.build, "torch26_cxx11_cuda0118");
    assert_eq!(rb.build, "torch26_cxx11_cuda118");
    assert_ne!(ra.build, rb.build);
}

#[test]
fn cpu_variant_with_a_version_still_maps() {
    let v = Variant {
        raw: "torch26-cxx11-cpu-x86_64-linux".into(),
        framework: "torch".into(),
        framework_version: "2.6".into(),
        cxx_abi: "cxx11".into(),
        compute_kind: ComputeKind::Cpu,
        compute_version: Some("11.8".into()),
        arch: "x86_64".into(),
        os: "linux".into(),
    };
    let rec = map_variant(&v, &opts()).unwrap();
    assert_eq!(rec.build, "torch26_cxx11_cpu118");
    assert!(rec.constrains.is_empty());
    assert_eq!(rec.cuda_floor, None);
}

#[test]
fn build_strings_of_examples() {
    let b = |n: &str| build_string(&parse_variant(n).unwrap());
    assert_eq!(b("torch26-cxx11-cu118-x86_64-linux"), "torch26_cxx11_cuda118");
    assert_eq!(b("torch210-cu128-x86_64-windows"), "torch210_cuda128");
    assert_eq!(b("torch210-metal-aarch64-darwin"), "torch210_metal");
}
