use indexmap::IndexMap;
use pixi_experimental_backends::common::ConfigError;
use pixi_experimental_backends::go::config::GoBackendConfig;
use pixi_experimental_backends::go::generator::GoGenerator;
use std::path::PathBuf;

#[test]
fn test_merge_with_target_config() {
    let base_config = GoBackendConfig {
        cgo_enabled: false,
        collect_licenses: false,
        extra_args: vec!["--base-arg".to_string()],
        env: IndexMap::from([("BASE_VAR".to_string(), "base_value".to_string())]),
        debug_dir: Some(PathBuf::from("/base/debug")),
        extra_input_globs: vec!["*.base".to_string()],
        compilers: Some(vec!["c".to_string()]),
    };

    let target_config = GoBackendConfig {
        cgo_enabled: true,
        collect_licenses: true,
        extra_args: vec!["--target-arg".to_string()],
        env: IndexMap::from([("TARGET_VAR".to_string(), "target_value".to_string())]),
        debug_dir: None,
        extra_input_globs: vec!["*.target".to_string()],
        compilers: Some(vec!["c".to_string(), "cxx".to_string()]),
    };

    let merged = base_config.merge_with_target_config(&target_config).unwrap();

    assert!(merged.cgo_enabled);
    assert!(merged.collect_licenses);
    assert_eq!(merged.extra_args, vec!["--target-arg".to_string()]);
    assert_eq!(merged.env.get("BASE_VAR"), Some(&"base_value".to_string()));
    assert_eq!(merged.env.get("TARGET_VAR"), Some(&"target_value".to_string()));
    assert_eq!(merged.extra_input_globs, vec!["*.target".to_string()]);
    assert_eq!(merged.compilers, Some(vec!["c".to_string(), "cxx".to_string()]));
}

#[test]
fn test_merge_target_debug_dir_error() {
    let base_config = GoBackendConfig {
        debug_dir: Some(PathBuf::from("/base/debug")),
        ..Default::default()
    };

    let target_config = GoBackendConfig {
        debug_dir: Some(PathBuf::from("/target/debug")),
        ..Default::default()
    };

    let result = base_config.merge_with_target_config(&target_config);
    assert!(result.is_err());
    assert_eq!(
        result.err().unwrap().to_string(),
        "`debug_dir` cannot have a target specific value"
    );
}

#[test]
fn merging_a_default_target_keeps_the_base() {
    let base = GoBackendConfig {
        cgo_enabled: true,
        extra_args: vec!["-v".into()],
        env: IndexMap::from([("A".to_string(), "1".to_string()), ("B".to_string(), "2".to_string())]),
        debug_dir: Some(PathBuf::from("/d")),
        compilers: Some(vec!["c".into()]),
        ..Default::default()
    };
    let merged = base.merge_with_target_config(&GoBackendConfig::default()).unwrap();
    assert!(merged.cgo_enabled && !merged.collect_licenses);
    assert_eq!(merged.extra_args, base.extra_args);
    assert_eq!(merged.env, base.env);
    assert_eq!(merged.debug_dir, base.debug_dir);
    assert_eq!(merged.compilers, base.compilers);
}

#[test]
fn target_env_values_win_and_keep_their_place() {
    let base = GoBackendConfig {
        env: IndexMap::from([("A".to_string(), "1".to_string()), ("B".to_string(), "2".to_string())]),
        ..Default::default()
    };
    let target = GoBackendConfig {
        env: IndexMap::from([("C".to_string(), "3".to_string()), ("A".to_string(), "9".to_string())]),
        ..Default::default()
    };
    let merged = base.merge_with_target_config(&target).unwrap();
    let entries: Vec<(String, String)> = merged.env.into_iter().collect();
    assert_eq!(
        entries,
        vec![
            ("A".to_string(), "9".to_string()),
            ("B".to_string(), "2".to_string()),
            ("C".to_string(), "3".to_string())
        ]
    );
    assert_eq!(ConfigError::TargetDebugDir, ConfigError::TargetDebugDir);
}

#[test]
fn test_input_globs_includes_extra_globs() {
    let config = GoBackendConfig {
        extra_input_globs: vec!["custom/*.txt".to_string()],
        ..Default::default()
    };
    let globs = GoGenerator::default().extract_input_globs_from_build(&config);
    assert!(globs.contains(&"custom/*.txt".to_string()));
    assert!(globs.contains(&"**/*.go".to_string()));
    assert!(globs.contains(&"go.mod".to_string()));
    assert!(globs.contains(&"go.sum".to_string()));
}

#[test]
fn input_globs_are_a_sorted_set() {
    let config = GoBackendConfig {
        extra_input_globs: vec!["go.mod".to_string(), "a/*.c".to_string(), "a/*.c".to_string()],
        ..Default::default()
    };
    let globs = GoGenerator::default().extract_input_globs_from_build(&config);
    assert_eq!(globs, vec!["**/*.go", "a/*.c", "go.mod", "go.sum"]);
}

#[test]
fn go_compilers_and_requirements() {
    let g = GoGenerator::default();
    let mut config = GoBackendConfig::default();
    assert_eq!(g.compilers(&config), vec!["go-nocgo".to_string()]);
    assert!(g.extra_build_requirements(&config).is_empty());
    config.cgo_enabled = true;
    config.collect_licenses = true;
    config.compilers = Some(vec!["c".into(), "cxx".into()]);
    assert_eq!(g.compilers(&config), vec!["go-cgo", "c", "cxx"]);
    assert_eq!(g.extra_build_requirements(&config), vec!["go-licenses".to_string()]);
    config.extra_args = vec!["-x".into()];
    let ctx = g.build_script_context(&config, "/src".into(), true);
    assert_eq!(ctx.source_dir, "/src");
    assert_eq!(ctx.extra_args, vec!["-x".to_string()]);
    assert!(ctx.collect_licenses && ctx.is_bash && ctx.linker_flags.is_empty());
    assert!(g.default_variants(false).is_empty());
    assert_eq!(
        g.default_variants(true),
        vec![
            ("c_compiler".to_string(), vec!["vs2022".to_string()]),
            ("cxx_compiler".to_string(), vec!["vs2022".to_string()])
        ]
    );
}

#[test]
fn cgo_adds_a_c_compiler() {
    let g = GoGenerator::default();
    let mut config = GoBackendConfig { cgo_enabled: true, ..Default::default() };
    assert_eq!(g.compilers(&config), vec!["go-cgo", "c"]);
    config.compilers = Some(vec!["cxx".into()]);
    assert_eq!(g.compilers(&config), vec!["go-cgo", "cxx", "c"]);
    config.cgo_enabled = false;
    assert_eq!(g.compilers(&config), vec!["go-nocgo", "cxx"]);
}
