use indexmap::IndexMap;
use pixi_experimental_backends::nodejs::build_script::parse_asset_pair;
use pixi_experimental_backends::nodejs::config::{default_package_manager, NodejsBackendConfig};
use pixi_experimental_backends::nodejs::generator::NodejsGenerator;
use std::path::PathBuf;

#[test]
fn test_merge_target_overrides_package_manager() {
    let base = NodejsBackendConfig {
        package_manager: "npm".to_string(),
        ..Default::default()
    };
    let target = NodejsBackendConfig {
        package_manager: "pnpm".to_string(),
        ..Default::default()
    };
    let merged = base.merge_with_target_config(&target).unwrap();
    assert_eq!(merged.package_manager, "pnpm");
}

#[test]
fn test_merge_keeps_base_package_manager_when_target_is_default() {
    let base = NodejsBackendConfig {
        package_manager: "yarn".to_string(),
        ..Default::default()
    };
    let target = NodejsBackendConfig {
        package_manager: "npm".to_string(), // default
        ..Default::default()
    };
    let merged = base.merge_with_target_config(&target).unwrap();
    assert_eq!(merged.package_manager, "yarn");
}

#[test]
fn test_merge_env_vars_are_combined() {
    let base = NodejsBackendConfig {
        env: IndexMap::from([("BASE_VAR".to_string(), "base".to_string())]),
        ..Default::default()
    };
    let target = NodejsBackendConfig {
        env: IndexMap::from([("TARGET_VAR".to_string(), "target".to_string())]),
        ..Default::default()
    };
    let merged = base.merge_with_target_config(&target).unwrap();
    assert_eq!(merged.env.get("BASE_VAR"), Some(&"base".to_string()));
    assert_eq!(merged.env.get("TARGET_VAR"), Some(&"target".to_string()));
}

#[test]
fn test_merge_target_debug_dir_errors() {
    let base = NodejsBackendConfig::default();
    let target = NodejsBackendConfig {
        debug_dir: Some(PathBuf::from("/target/debug")),
        ..Default::default()
    };
    assert!(base.merge_with_target_config(&target).is_err());
}

#[test]
fn merge_takes_set_target_options() {
    let base = NodejsBackendConfig {
        build_script: Some("build".into()),
        server_entry: Some("a.js".into()),
        extra_assets: vec!["x:y".into()],
        ..Default::default()
    };
    let target = NodejsBackendConfig {
        server_entry: Some("b.js".into()),
        build_output_dir: Some("dist".into()),
        ..Default::default()
    };
    let merged = base.merge_with_target_config(&target).unwrap();
    assert_eq!(merged.build_script.as_deref(), Some("build"));
    assert_eq!(merged.server_entry.as_deref(), Some("b.js"));
    assert_eq!(merged.build_output_dir.as_deref(), Some("dist"));
    assert_eq!(merged.extra_assets, vec!["x:y".to_string()]);
    assert_eq!(default_package_manager(), "npm");
}

#[test]
fn test_input_globs_include_lockfiles() {
    let config = NodejsBackendConfig::default();
    let globs = NodejsGenerator::default().extract_input_globs_from_build(&config);

    assert!(globs.contains(&"package.json".to_string()));
    assert!(globs.contains(&"package-lock.json".to_string()));
    assert!(globs.contains(&"yarn.lock".to_string()));
    assert!(globs.contains(&"pnpm-lock.yaml".to_string()));
}

#[test]
fn test_input_globs_include_extra() {
    let config = NodejsBackendConfig {
        extra_input_globs: vec!["config/**/*.json".to_string()],
        ..Default::default()
    };
    let globs = NodejsGenerator::default().extract_input_globs_from_build(&config);
    assert!(globs.contains(&"config/**/*.json".to_string()));
}

#[test]
fn build_requirements_skip_what_the_project_lists() {
    let g = NodejsGenerator::default();
    let npm = NodejsBackendConfig::default();
    assert_eq!(g.build_requirements(&npm, &vec![]), vec!["nodejs".to_string()]);
    assert!(g.build_requirements(&npm, &vec!["nodejs".to_string()]).is_empty());
    let pnpm = NodejsBackendConfig { package_manager: "pnpm".into(), ..Default::default() };
    assert_eq!(g.build_requirements(&pnpm, &vec![]), vec!["nodejs", "pnpm"]);
    assert_eq!(g.build_requirements(&pnpm, &vec!["pnpm".to_string()]), vec!["nodejs"]);
}

#[test]
fn asset_pairs_split_at_the_first_colon() {
    let a = parse_asset_pair(".next/static:.next/static");
    assert_eq!((a.src.as_str(), a.dst.as_str()), (".next/static", ".next/static"));
    let a = parse_asset_pair("public");
    assert_eq!((a.src.as_str(), a.dst.as_str()), ("public", "public"));
    let a = parse_asset_pair("a:b:c");
    assert_eq!((a.src.as_str(), a.dst.as_str()), ("a", "b:c"));
    let config = NodejsBackendConfig {
        extra_assets: vec!["public:www".into()],
        server_entry: Some("server.js".into()),
        ..Default::default()
    };
    let ctx = NodejsGenerator::default().build_script_context(&config, "/src".into(), false);
    assert_eq!(ctx.extra_assets.len(), 1);
    assert_eq!(ctx.extra_assets[0].dst, "www");
    assert_eq!(ctx.server_entry.as_deref(), Some("server.js"));
    assert_eq!(ctx.package_manager, "npm");
    assert!(!ctx.is_bash);
}
