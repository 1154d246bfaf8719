use pixi_experimental_backends::go::metadata::{
    module_short_name, parse_go_mod, GoMetadataProvider, MetadataError,
};
use std::path::PathBuf;

#[test]
fn test_parse_go_mod_basic() {
    let content = "module github.com/user/myproject\n\ngo 1.21\n";
    let metadata = parse_go_mod(content).unwrap();
    assert_eq!(metadata.module, "github.com/user/myproject");
}

#[test]
fn test_module_short_name() {
    assert_eq!(module_short_name("github.com/user/project"), "project");
    assert_eq!(module_short_name("simple"), "simple");
    assert_eq!(module_short_name("example.com/deep/nested/pkg"), "pkg");
}

#[test]
fn metadata_test_input_globs() {
    let provider = GoMetadataProvider::new(PathBuf::from("."), false);
    assert_eq!(provider.input_globs(), vec!["go.mod".to_string()]);
}

#[test]
fn test_input_globs_ignored() {
    let provider = GoMetadataProvider::new(PathBuf::from("."), true);
    assert!(provider.input_globs().is_empty());
}

fn provider_with(go_mod: &str, ignore: bool) -> GoMetadataProvider {
    let mut provider = GoMetadataProvider::new(PathBuf::from("."), ignore);
    if provider.needs_go_mod() {
        provider.load_go_mod(go_mod).unwrap();
    }
    provider
}

#[test]
fn test_go_metadata_provider_name() {
    let go_mod = "module github.com/user/my-tool\n\ngo 1.22\n";
    let provider = provider_with(go_mod, false);
    assert_eq!(provider.name(), Some("my-tool".to_string()));
}

#[test]
fn test_go_metadata_provider_repository() {
    let go_mod = "module github.com/user/my-tool\n\ngo 1.22\n";
    let provider = provider_with(go_mod, false);
    assert_eq!(provider.repository(), Some("https://github.com/user/my-tool".to_string()));
}

#[test]
fn test_go_metadata_provider_ignore() {
    let go_mod = "module github.com/user/my-tool\n\ngo 1.22\n";
    let mut provider = provider_with(go_mod, true);
    assert!(!provider.needs_go_mod());
    provider.load_go_mod(go_mod).unwrap();
    assert_eq!(provider.name(), None);
    assert_eq!(provider.repository(), None);
}

#[test]
fn test_go_metadata_provider_missing_go_mod() {
    // no go.mod: nothing is loaded
    let provider = GoMetadataProvider::new(PathBuf::from("."), false);
    assert_eq!(provider.name(), None);
}

#[test]
fn parse_go_mod_edge_cases() {
    assert_eq!(
        parse_go_mod("go 1.21\n"),
        Err(MetadataError::Parse("no module directive found".to_string()))
    );
    assert_eq!(
        parse_go_mod("").unwrap_err().to_string(),
        "failed to parse go.mod: no module directive found"
    );
    // the last directive wins, surrounding whitespace and CRLF are ignored
    let m = parse_go_mod("module a/b\r\n  module   c/d  \r\nmodule\n").unwrap();
    assert_eq!(m.module, "c/d");
    // a bare `module` keyword declares nothing
    assert!(parse_go_mod("module   \n").is_err());
}

#[test]
fn repository_of_a_plain_module_name() {
    let provider = provider_with("module mytool\n", false);
    assert_eq!(provider.repository(), Some("mytool".to_string()));
    assert_eq!(provider.name(), Some("mytool".to_string()));
    assert!(!provider.needs_go_mod());
}

#[test]
fn a_failed_parse_leaves_the_provider_unloaded() {
    let mut provider = GoMetadataProvider::new(PathBuf::from("."), false);
    assert!(provider.load_go_mod("go 1.21\n").is_err());
    assert!(provider.needs_go_mod());
    assert_eq!(provider.manifest_root(), PathBuf::from("."));
}
