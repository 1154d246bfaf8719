use pixi_experimental_backends::hf_kernel::identity::{output_identity, output_version};
use pixi_experimental_backends::hf_kernel::backend::OutputPlan;
use pixi_experimental_backends::hf_kernel::markers::{
        marker_lookup, output_markers, SHA_MARKER, VARIANT_MARKER,
    };
use pixi_experimental_backends::hf_kernel::matchspec::split_matchspec;
use pixi_experimental_backends::hf_kernel::backend::{
    build_inputs, conda_file_stem, finish_conda_outputs, no_files_message, package_path,
    start_conda_outputs, InputsPlan,
};
use pixi_experimental_backends::hf_kernel::config::{default_true, HfKernelConfig};
use std::collections::BTreeSet;

fn config() -> HfKernelConfig {
    HfKernelConfig {
        repo: "kernels-community/flash-attn".into(),
        rev: Some("main".into()),
        package_name: Some("flash-attn".into()),
        require_cxx11: true,
        variants: Some(vec![
            "torch26-cxx11-cu118-x86_64-linux".into(),  // ok
            "torch27-cxx11-cu126-x86_64-linux".into(),  // ok
            "torch26-cxx98-cu118-x86_64-linux".into(),  // dropped: cxx98
            "torch27-cxx11-cu126-aarch64-linux".into(), // dropped: not linux-64
        ]),
        cuda_capabilities: Some(vec!["9.0".into(), "8.0".into()]),
        debug_dir: None,
    }
}

fn constraint_name(spec: &str) -> String {
    spec.split(' ').next().unwrap().to_string()
}

#[test]
fn emits_one_output_per_compatible_variant_with_solver_constraints() {
    let cfg = config();
    let start = start_conda_outputs(&cfg, Some("flash-attn".into()), None).unwrap();
    let (variants, caps, rev) = match &start.inputs {
        InputsPlan::Fixed { variants, cuda_capabilities, rev } => {
            (variants.clone(), cuda_capabilities.clone(), rev.clone())
        }
        InputsPlan::FromHub { .. } => panic!("variants are configured"),
    };
    let (outputs, skipped) = finish_conda_outputs(&start, cfg.require_cxx11, &variants, &caps, &rev, "linux-64");
    assert_eq!(skipped.len(), 1);

    // cxx98 and the aarch64 variant are filtered out for linux-64.
    let builds: BTreeSet<_> = outputs.iter().map(|o| o.build.clone()).collect();
    assert_eq!(
        builds,
        BTreeSet::from(["torch26_cxx11_cuda118".to_string(), "torch27_cxx11_cuda126".to_string()])
    );

    let o = outputs.iter().find(|o| o.build == "torch26_cxx11_cuda118").unwrap();
    assert_eq!(start.name, "flash-attn");

    // Run dependency: pytorch pinned to the variant's torch minor.
    let dep_names: BTreeSet<_> = o.depends.iter().map(|d| constraint_name(d)).collect();
    assert!(dep_names.contains("pytorch"));

    // The solver-selection constraints: __cuda floor, cuda-version, __cuda_arch floor.
    let con_names: BTreeSet<_> = o.constraints.iter().map(|c| constraint_name(c)).collect();
    assert!(con_names.contains("__cuda"), "constraints: {con_names:?}");
    assert!(con_names.contains("cuda-version"));
    assert!(con_names.contains("__cuda_arch"));
    assert_eq!(o.variant, "torch26-cxx11-cu118-x86_64-linux");
    assert_eq!(o.sha, "main");
}

#[test]
fn outputs_carry_the_arch_floor_on_every_record() {
    let mut cfg = config();
    cfg.variants = Some(vec!["torch26-cxx11-rocm62-x86_64-linux".into()]);
    let start = start_conda_outputs(&cfg, None, Some("1.2.3".into())).unwrap();
    assert_eq!(start.version, "1.2.3");
    let caps: Vec<String> = vec!["9.0".into(), "8.0".into()];
    let variants = cfg.variants.clone().unwrap();
    let (outputs, _) = finish_conda_outputs(&start, true, &variants, &caps, "abc", "linux-64");
    assert_eq!(
        outputs[0].constraints,
        vec!["__hip >=6.2".to_string(), "__cuda_arch >=8.0".to_string()]
    );
    assert_eq!(outputs[0].depends, vec!["pytorch 2.6.*".to_string()]);
    assert_eq!(outputs[0].build_number, 0);
}

#[test]
fn start_picks_name_version_and_inputs() {
    let mut cfg = config();
    cfg.package_name = None;
    assert_eq!(
        start_conda_outputs(&cfg, None, None).err(),
        Some("package name unknown; set `package-name` in config".to_string())
    );
    let s = start_conda_outputs(&cfg, Some("from-model".into()), None).unwrap();
    assert_eq!(s.name, "from-model");
    assert_eq!(s.version, "0.0.0");

    cfg.variants = None;
    cfg.rev = None;
    cfg.cuda_capabilities = None;
    let s = start_conda_outputs(&cfg, Some("m".into()), None).unwrap();
    match s.inputs {
        InputsPlan::FromHub { rev, cuda_capabilities } => {
            assert_eq!(rev, "main");
            assert_eq!(cuda_capabilities, None);
        }
        InputsPlan::Fixed { .. } => panic!("no variants are configured"),
    }
    assert!(default_true());
}

#[test]
fn build_inputs_need_the_markers() {
    assert_eq!(
        build_inputs(None, Some("s".into()), None, None).err(),
        Some("output is missing the hf_kernel_variant marker".to_string())
    );
    assert_eq!(
        build_inputs(Some("v".into()), None, None, None).err(),
        Some("output is missing the hf_kernel_sha marker".to_string())
    );
    let b = build_inputs(Some("v".into()), Some("s".into()), None, None).unwrap();
    assert_eq!((b.variant.as_str(), b.sha.as_str(), b.version.as_str(), b.build.as_str()), ("v", "s", "0.0.0", ""));
    assert_eq!(conda_file_stem("activation", "0.0.1", "torch_test"), "activation-0.0.1-torch_test");
    assert_eq!(package_path("pkg/a.py"), "site-packages/pkg/a.py");
    assert_eq!(no_files_message("v", "org/k", "abc"), "no files under build/v in org/k@abc");
}

#[test]
fn output_markers_are_read_back_by_the_build() {
    let plan = OutputPlan {
        build: "torch26_cxx11_cuda118".into(),
        build_number: 0,
        depends: vec![],
        constraints: vec![],
        variant: "torch26-cxx11-cu118-x86_64-linux".into(),
        sha: "abc123".into(),
    };
    let markers = output_markers(&plan);
    assert_eq!(
        markers,
        vec![
            ("hf_kernel_variant".to_string(), "torch26-cxx11-cu118-x86_64-linux".to_string()),
            ("hf_kernel_sha".to_string(), "abc123".to_string()),
        ]
    );
    assert_eq!(marker_lookup(&markers, VARIANT_MARKER).as_deref(), Some("torch26-cxx11-cu118-x86_64-linux"));
    assert_eq!(marker_lookup(&markers, SHA_MARKER).as_deref(), Some("abc123"));
    assert_eq!(marker_lookup(&markers, "other"), None);
}

#[test]
fn matchspec_names_are_split_off() {
    let (name, rest) = split_matchspec("__cuda >=11.8").unwrap();
    assert_eq!(name, "__cuda");
    assert_eq!(rest.version.map(|v| v.to_string()).as_deref(), Some(">=11.8"));
    assert_eq!(split_matchspec("pytorch 2.6.*").unwrap().0, "pytorch");
    assert!(split_matchspec("py*").is_err());
}

#[test]
fn output_names_and_versions_are_checked() {
    let (name, version) = output_identity("flash-attn", "2.7.0").unwrap();
    assert_eq!(name.as_normalized(), "flash-attn");
    assert_eq!(version.to_string(), "2.7.0");
    assert!(output_identity("flash attn", "2.7.0").is_err());
    assert!(output_identity("flash-attn", "2..7").is_err());
    assert_eq!(output_version("0.0.1").unwrap().to_string(), "0.0.1");
    assert!(output_version("").is_err());
}
