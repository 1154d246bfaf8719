use pixi_experimental_backends::autotools::config::AutotoolsBackendConfig;
use indexmap::IndexMap;
use pixi_experimental_backends::autotools::generator::{AutotoolsGenerator, BuildPlatform};
use pixi_experimental_backends::bazel::config::{default_targets, BazelBackendConfig};
use pixi_experimental_backends::bazel::generator::BazelGenerator;
use pixi_experimental_backends::gradle::config::{default_tasks, default_true, GradleBackendConfig};
use pixi_experimental_backends::gradle::generator::GradleGenerator;
use pixi_experimental_backends::make::config::MakeBackendConfig;
use std::path::PathBuf;

#[test]
fn bazel_targets_default_and_override() {
    assert_eq!(default_targets(), vec!["//...".to_string()]);
    let base = BazelBackendConfig { targets: vec!["//app:main".into()], ..Default::default() };
    let merged = base.merge_with_target_config(&BazelBackendConfig::default()).unwrap();
    assert_eq!(merged.targets, vec!["//app:main".to_string()]);
    let target = BazelBackendConfig { targets: vec!["//other".into()], ..Default::default() };
    let merged = base.merge_with_target_config(&target).unwrap();
    assert_eq!(merged.targets, vec!["//other".to_string()]);
    let bad = BazelBackendConfig { debug_dir: Some(PathBuf::from("/x")), ..Default::default() };
    assert!(base.merge_with_target_config(&bad).is_err());
}

#[test]
fn bazel_input_globs_keep_their_order() {
    let config = BazelBackendConfig { extra_input_globs: vec!["x.txt".into()], ..Default::default() };
    let globs = BazelGenerator::default().extract_input_globs_from_build(&config);
    assert_eq!(globs.len(), 13);
    assert_eq!(globs[0], "BUILD");
    assert_eq!(globs[11], ".bazelversion");
    assert_eq!(globs[12], "x.txt");
    assert_eq!(BazelGenerator::default().build_requirements(&vec![]), vec!["bazel".to_string()]);
    assert_eq!(
        BazelGenerator::default().build_requirements(&vec!["cmake".to_string()]),
        vec!["bazel".to_string()]
    );
    assert!(BazelGenerator::default().build_requirements(&vec!["bazel".to_string()]).is_empty());
    let ctx = BazelGenerator::default().build_script_context(&config, "/s".into(), true);
    assert_eq!(ctx.targets, vec!["//...".to_string()]);
}

#[test]
fn gradle_merge_rules() {
    assert_eq!(default_tasks(), vec!["installDist".to_string()]);
    assert!(default_true());
    let base = GradleBackendConfig { tasks: vec!["build".into()], use_wrapper: false, ..Default::default() };
    let merged = base.merge_with_target_config(&GradleBackendConfig::default()).unwrap();
    assert_eq!(merged.tasks, vec!["build".to_string()]);
    // the target always decides whether the wrapper is used
    assert!(merged.use_wrapper);
    let env_target = GradleBackendConfig {
        env: IndexMap::from([("K".to_string(), "v".to_string())]),
        use_wrapper: false,
        ..Default::default()
    };
    let merged = base.merge_with_target_config(&env_target).unwrap();
    assert!(!merged.use_wrapper);
    assert_eq!(merged.env.get("K"), Some(&"v".to_string()));
}

#[test]
fn gradle_requirements_and_globs() {
    let g = GradleGenerator::default();
    let wrapper = GradleBackendConfig::default();
    assert_eq!(g.build_requirements(&wrapper, &vec![]), vec!["openjdk".to_string()]);
    let system = GradleBackendConfig { use_wrapper: false, ..Default::default() };
    assert_eq!(g.build_requirements(&system, &vec![]), vec!["openjdk", "gradle"]);
    assert_eq!(g.build_requirements(&system, &vec!["openjdk".to_string(), "gradle".to_string()]), Vec::<String>::new());
    let globs = g.extract_input_globs_from_build(&wrapper);
    assert_eq!(globs.len(), 8);
    assert_eq!(globs[0], "**/*.gradle");
}

#[test]
fn make_merge_rules() {
    let base = MakeBackendConfig { extra_make_args: vec!["-j4".into()], compilers: Some(vec!["c".into()]), ..Default::default() };
    let target = MakeBackendConfig { compilers: Some(vec!["cxx".into()]), extra_install_args: vec!["DESTDIR=x".into()], ..Default::default() };
    let merged = base.merge_with_target_config(&target).unwrap();
    assert_eq!(merged.extra_make_args, vec!["-j4".to_string()]);
    assert_eq!(merged.extra_install_args, vec!["DESTDIR=x".to_string()]);
    assert_eq!(merged.compilers, Some(vec!["cxx".to_string()]));
}

#[test]
fn autotools_tools_per_platform() {
    let g = AutotoolsGenerator::default();
    assert_eq!(g.compilers(&None), vec!["cxx".to_string()]);
    assert_eq!(g.compilers(&Some(vec!["c".into()])), vec!["c".to_string()]);
    assert_eq!(g.build_tools(false, false, &vec![]), vec!["make", "pkg-config"]);
    assert_eq!(
        g.build_tools(true, false, &vec!["make".to_string()]),
        vec!["pkg-config", "autoconf", "automake", "libtool"]
    );
    assert_eq!(g.build_tools(false, true, &vec![]), vec!["m2-make", "m2-pkg-config", "m2-bash"]);
    assert_eq!(
        g.build_tools(false, true, &vec!["m2-bash".to_string(), "m2-make".to_string()]),
        vec!["m2-pkg-config"]
    );
    let ctx = g.build_script_context(true, "/s".into(), &vec!["--x".into()], &vec![], true);
    assert_eq!(ctx.build_platform, BuildPlatform::Windows);
    assert!(ctx.autoreconf);
    let globs = g.extract_input_globs_from_build(&vec!["extra".into()]);
    assert_eq!(globs.len(), 8);
    assert!(globs.contains(&"extra".to_string()));
    assert_eq!(g.default_variants(true).len(), 2);
}

#[test]
fn autotools_merge_with_target_config() {
    let mut base = AutotoolsBackendConfig::default();
    base.extra_configure_args = vec!["--disable-docs".into()];
    base.compilers = Some(vec!["c".into()]);
    base.env.insert("A".into(), "1".into());
    let mut target = AutotoolsBackendConfig::default();
    target.autoreconf = true;
    target.extra_make_args = vec!["-j2".into()];
    target.env.insert("A".into(), "2".into());
    target.env.insert("B".into(), "3".into());
    let merged = base.merge_with_target_config(&target).unwrap();
    assert!(merged.autoreconf);
    assert_eq!(merged.extra_configure_args, vec!["--disable-docs".to_string()]);
    assert_eq!(merged.extra_make_args, vec!["-j2".to_string()]);
    assert_eq!(merged.compilers, Some(vec!["c".to_string()]));
    let env: Vec<(String, String)> = merged.env.into_iter().collect();
    assert_eq!(env, vec![("A".to_string(), "2".to_string()), ("B".to_string(), "3".to_string())]);

    let mut bad = AutotoolsBackendConfig::default();
    bad.debug_dir = Some(std::path::PathBuf::from("/tmp"));
    let err = base.merge_with_target_config(&bad).err().unwrap();
    assert_eq!(err.to_string(), "`debug_dir` cannot have a target specific value");
}
