use pixi_experimental_backends::nodejs::metadata::{
    normalize_repo_url, strip_npm_scope, NodejsMetadataProvider, PackageJson, Repository,
};
use std::path::PathBuf;

fn pkg(name: &str, version: &str, repository: Option<Repository>) -> PackageJson {
    PackageJson { name: Some(name.into()), version: Some(version.into()), repository }
}

fn provider(p: PackageJson) -> NodejsMetadataProvider {
    let mut provider = NodejsMetadataProvider::new(PathBuf::from("."));
    assert!(provider.needs_package_json());
    provider.load_package_json(p);
    provider
}

#[test]
fn test_name_plain() {
    // {"name": "my-app", "version": "1.0.0"}
    let p = provider(pkg("my-app", "1.0.0", None));
    assert_eq!(p.name(), Some("my-app".to_string()));
}

#[test]
fn test_name_strips_scope() {
    // {"name": "@my-org/my-app", "version": "1.0.0"}
    let p = provider(pkg("@my-org/my-app", "1.0.0", None));
    assert_eq!(p.name(), Some("my-app".to_string()));
}

#[test]
fn test_version_parsed() {
    // {"name": "app", "version": "2.3.4"}
    let p = provider(pkg("app", "2.3.4", None));
    assert_eq!(
        p.version().ok().unwrap().map(|v| v.to_string()),
        Some("2.3.4".to_string())
    );
}

#[test]
fn test_repository_string() {
    let p = provider(pkg("app", "1.0.0", Some(Repository::Text("https://github.com/user/app".into()))));
    assert_eq!(p.repository(), Some("https://github.com/user/app".to_string()));
}

#[test]
fn test_repository_object_with_git_prefix() {
    // "repository": {"type": "git", "url": "git+https://github.com/user/app.git"}
    let p = provider(pkg(
        "app",
        "1.0.0",
        Some(Repository::Object(Some("git+https://github.com/user/app.git".into()))),
    ));
    assert_eq!(p.repository(), Some("https://github.com/user/app".to_string()));
}

#[test]
fn test_missing_package_json() {
    let p = NodejsMetadataProvider::new(PathBuf::from("."));
    assert_eq!(p.name(), None);
    assert!(matches!(p.version(), Ok(None)));
}

#[test]
fn test_input_globs() {
    let p = NodejsMetadataProvider::new(PathBuf::from("."));
    assert_eq!(p.input_globs(), vec!["package.json"]);
}

#[test]
fn empty_or_bad_versions() {
    let p = provider(pkg("app", "", None));
    assert!(matches!(p.version(), Ok(None)));
    let p = provider(pkg("app", "1.0.0 with spaces!!", None));
    assert!(p.version().is_err());
    let p = provider(PackageJson { name: None, version: None, repository: Some(Repository::Other) });
    assert_eq!(p.name(), None);
    assert_eq!(p.repository(), None);
    assert!(matches!(p.version(), Ok(None)));
}

#[test]
fn a_second_load_changes_nothing() {
    let mut p = provider(pkg("first", "1.0.0", None));
    p.load_package_json(pkg("second", "2.0.0", None));
    assert_eq!(p.name(), Some("first".to_string()));
    assert!(!p.needs_package_json());
}

#[test]
fn scope_and_url_normalization() {
    assert_eq!(strip_npm_scope("@scope"), "@scope");
    assert_eq!(strip_npm_scope("@a/b/c"), "b/c");
    assert_eq!(strip_npm_scope("plain"), "plain");
    assert_eq!(normalize_repo_url("git+git+https://h/x.git.git"), "https://h/x");
    assert_eq!(normalize_repo_url("https://h/x"), "https://h/x");
    assert_eq!(normalize_repo_url("git+.git"), "");
}
