use pixi_experimental_backends::hf_kernel::hub::{
    cuda_capabilities_from_build_toml, list_variant_files_from_entries, list_variants_from_paths,
    resolve_url, revision_sha, revision_url, tree_url,
};

#[test]
fn hub_urls() {
    assert_eq!(
        revision_url("kernels-community/activation", "main"),
        "https://huggingface.co/api/models/kernels-community/activation/revision/main"
    );
    assert_eq!(
        tree_url("org/k", "abc"),
        "https://huggingface.co/api/models/org/k/tree/abc?recursive=true"
    );
    assert_eq!(
        resolve_url("org/k", "abc", "build.toml"),
        "https://huggingface.co/org/k/resolve/abc/build.toml"
    );
}

#[test]
fn revision_sha_needs_a_sha() {
    assert_eq!(revision_sha(Some("f00d".into()), "org/k", "main"), Ok("f00d".to_string()));
    assert_eq!(
        revision_sha(None, "org/k", "main"),
        Err("no sha in revision response for org/k@main".to_string())
    );
}

#[test]
fn variants_are_the_directories_under_build() {
    let paths: Vec<Option<String>> = vec![
        Some("build/torch27-cxx11-cu126-x86_64-linux/activation/__init__.py".into()),
        Some("README.md".into()),
        Some("build/torch26-cxx11-cu118-x86_64-linux/activation/_ops.py".into()),
        Some("build/torch27-cxx11-cu126-x86_64-linux/activation/_ops.py".into()),
        None,
        Some("build".into()),
        Some("torch-ext/build/x".into()),
    ];
    assert_eq!(
        list_variants_from_paths(&paths),
        vec![
            "torch26-cxx11-cu118-x86_64-linux".to_string(),
            "torch27-cxx11-cu126-x86_64-linux".to_string()
        ]
    );
}

#[test]
fn variant_files_drop_the_variant_prefix() {
    let entries: Vec<(Option<String>, Option<String>)> = vec![
        (Some("directory".into()), Some("build/v1/pkg".into())),
        (Some("file".into()), Some("build/v1/pkg/__init__.py".into())),
        (Some("file".into()), Some("build/v10/pkg/x.py".into())),
        (Some("file".into()), Some("build/v1/_ops.so".into())),
        (None, Some("build/v1/y".into())),
        (Some("file".into()), None),
    ];
    assert_eq!(
        list_variant_files_from_entries(&entries, "v1"),
        vec![
            ("build/v1/pkg/__init__.py".to_string(), "pkg/__init__.py".to_string()),
            ("build/v1/_ops.so".to_string(), "_ops.so".to_string()),
        ]
    );
}

#[test]
fn capabilities_from_build_toml() {
    let text = r#"
[general]
name = "activation"

[kernel.activation]
cuda-capabilities = ["9.0", "8.0", "8.6"]
src = ["a.cu"]

[kernel.other]
cuda-capabilities = ["8.0", 7.5, 3]
"#;
    assert_eq!(
        cuda_capabilities_from_build_toml(text).unwrap(),
        vec!["7.5".to_string(), "8.0".to_string(), "8.6".to_string(), "9.0".to_string()]
    );
    assert_eq!(cuda_capabilities_from_build_toml("[general]\nname = 1\n").unwrap(), Vec::<String>::new());
    assert_eq!(cuda_capabilities_from_build_toml("").unwrap(), Vec::<String>::new());
    assert!(cuda_capabilities_from_build_toml("[kernel\n").is_err());
}
