use pixi_experimental_backends::hf_kernel::variant::{parse_variant, ComputeKind, ParseError, ABI_NONE};

#[test]
fn parses_cuda_variant() {
    let v = parse_variant("torch26-cxx98-cu118-x86_64-linux").unwrap();
    assert_eq!(v.framework, "torch");
    assert_eq!(v.framework_version, "2.6");
    assert_eq!(v.cxx_abi, "cxx98");
    assert_eq!(v.compute_kind, ComputeKind::Cuda);
    assert_eq!(v.compute_version.as_deref(), Some("11.8"));
    assert_eq!(v.arch, "x86_64");
    assert_eq!(v.os, "linux");
}

#[test]
fn parses_cuda12_aarch64() {
    let v = parse_variant("torch27-cxx11-cu126-aarch64-linux").unwrap();
    assert_eq!(v.compute_version.as_deref(), Some("12.6"));
    assert_eq!(v.cxx_abi, "cxx11");
}

#[test]
fn parses_rocm() {
    let v = parse_variant("torch26-cxx11-rocm62-x86_64-linux").unwrap();
    assert_eq!(v.compute_kind, ComputeKind::Rocm);
    assert_eq!(v.compute_version.as_deref(), Some("6.2"));
}

#[test]
fn parses_windows_variant_without_abi_tag() {
    let v = parse_variant("torch210-cu128-x86_64-windows").unwrap();
    assert_eq!(v.framework_version, "2.10"); // torch 2.10
    assert_eq!(v.cxx_abi, ABI_NONE);
    assert!(!v.has_abi_tag());
    assert_eq!(v.compute_kind, ComputeKind::Cuda);
    assert_eq!(v.compute_version.as_deref(), Some("12.8"));
    assert_eq!(v.os, "windows");
}

#[test]
fn parses_metal_variant() {
    let v = parse_variant("torch210-metal-aarch64-darwin").unwrap();
    assert_eq!(v.compute_kind, ComputeKind::Metal);
    assert_eq!(v.cxx_abi, ABI_NONE);
    assert_eq!(v.os, "darwin");
}

#[test]
fn rejects_malformed() {
    // wrong field count, bad ABI tag, unparseable compute backend
    for bad in [
        "junk",
        "a-b-c-d-e-f",
        "torch26-cxxBAD-cu118-x86_64-linux",
        "torch26-cxx11-nope-x86_64-linux",
    ] {
        assert!(parse_variant(bad).is_err(), "should reject {bad:?}");
    }
}

#[test]
fn each_error_variant_has_its_input() {
    assert_eq!(
        parse_variant("junk"),
        Err(ParseError::FieldCount("junk".to_string(), 1))
    );
    assert_eq!(
        parse_variant("a-b-c-d-e-f"),
        Err(ParseError::FieldCount("a-b-c-d-e-f".to_string(), 6))
    );
    assert_eq!(
        parse_variant("torch-cxx11-cu118-x86_64-linux"),
        Err(ParseError::Framework(
            "torch-cxx11-cu118-x86_64-linux".to_string(),
            "torch".to_string()
        ))
    );
    assert_eq!(
        parse_variant("26-cxx11-cu118-x86_64-linux"),
        Err(ParseError::Framework("26-cxx11-cu118-x86_64-linux".to_string(), "26".to_string()))
    );
    assert_eq!(
        parse_variant("torch2-cxx11-cu118-x86_64-linux"),
        Err(ParseError::Framework("torch2-cxx11-cu118-x86_64-linux".to_string(), "torch2".to_string()))
    );
    assert_eq!(
        parse_variant("torch2a-cxx11-cu118-x86_64-linux"),
        Err(ParseError::Framework("torch2a-cxx11-cu118-x86_64-linux".to_string(), "torch2a".to_string()))
    );
    assert_eq!(
        parse_variant("torch26-cxxBAD-cu118-x86_64-linux"),
        Err(ParseError::Abi("torch26-cxxBAD-cu118-x86_64-linux".to_string(), "cxxBAD".to_string()))
    );
    assert_eq!(
        parse_variant("torch26-cxx11-nope-x86_64-linux"),
        Err(ParseError::Compute("torch26-cxx11-nope-x86_64-linux".to_string(), "nope".to_string()))
    );
    assert_eq!(
        parse_variant("torch26-cxx11-cu1-x86_64-linux"),
        Err(ParseError::Compute("torch26-cxx11-cu1-x86_64-linux".to_string(), "cu1".to_string()))
    );
    assert_eq!(
        parse_variant("torch26-cxx11-cu99999999999-x86_64-linux"),
        Err(ParseError::Compute(
            "torch26-cxx11-cu99999999999-x86_64-linux".to_string(),
            "cu99999999999".to_string()
        ))
    );
}

#[test]
fn error_messages_quote_their_input() {
    let e = parse_variant("junk").unwrap_err();
    assert_eq!(
        e.to_string(),
        "variant \"junk\": expected 4 or 5 dash-separated fields, got 1"
    );
    let e = parse_variant("torch26-cxxBAD-cu118-x86_64-linux").unwrap_err();
    assert_eq!(
        e.to_string(),
        "variant \"torch26-cxxBAD-cu118-x86_64-linux\": unknown C++ ABI tag \"cxxBAD\""
    );
    let e = parse_variant("x-cxx11-cu118-x86_64-linux").unwrap_err();
    assert_eq!(
        e.to_string(),
        "variant \"x-cxx11-cu118-x86_64-linux\": cannot parse framework \"x\""
    );
    let e = parse_variant("torch26-cxx11-nope-x86_64-linux").unwrap_err();
    assert_eq!(
        e.to_string(),
        "variant \"torch26-cxx11-nope-x86_64-linux\": cannot parse compute backend \"nope\""
    );
    // the quoting escapes like `{:?}` does
    let e = parse_variant("a\"b").unwrap_err();
    assert_eq!(e.to_string(), "variant \"a\\\"b\": expected 4 or 5 dash-separated fields, got 1");
}

#[test]
fn versions_keep_their_digits_as_written() {
    let v = parse_variant("torch26-cxx11-cu0118-x86_64-linux").unwrap();
    assert_eq!(v.compute_version.as_deref(), Some("011.8"));
    assert!(parse_variant("torch26-cxx11-cu999999999999-x86_64-linux").is_err());
    let v = parse_variant("torch206-cpu-x86_64-linux").unwrap();
    assert_eq!(v.framework_version, "2.06");
    assert_eq!(v.compute_kind, ComputeKind::Cpu);
    assert_eq!(v.compute_version, None);
    assert_eq!(v.raw, "torch206-cpu-x86_64-linux");
}

#[test]
fn compute_kind_names() {
    assert_eq!(ComputeKind::Cuda.as_str(), "cuda");
    assert_eq!(ComputeKind::Rocm.as_str(), "rocm");
    assert_eq!(ComputeKind::Cpu.as_str(), "cpu");
    assert_eq!(ComputeKind::Metal.as_str(), "metal");
}

#[test]
fn cxx98_detection() {
    assert!(parse_variant("torch26-cxx98-cu118-x86_64-linux").unwrap().is_cxx98());
    assert!(!parse_variant("torch26-cxx11-cu118-x86_64-linux").unwrap().is_cxx98());
    assert!(parse_variant("torch26-cxx11-cu118-x86_64-linux").unwrap().has_abi_tag());
}
