use bob_the_builder::cargo_toml::package::{parse_toml, Build, BuildSettings};
use bob_the_builder::contract::build_contract;
use bob_the_builder::ext::{compress_file, stream_or_error, CompressError};
use bob_the_builder::features::FeatureSet;
use bob_the_builder::pkg_build::{
    default_wasm_path, perform_build, wasm_path, Action, ParsedPackage, OUTPUT_DIR,
};
use bob_the_builder::plan::{plan_builds, BuildPlan, CopyStep};
use bob_the_builder::BuildError;

fn named(name: &str, features: Option<Vec<&str>>, default_features: Option<bool>) -> Build {
    Build {
        name: name.to_string(),
        settings: BuildSettings {
            features: features
                .map(|names| FeatureSet::from_vec(names.iter().map(|n| n.to_string()).collect())),
            default_features,
        },
    }
}

fn strings(items: &[&str]) -> Vec<String> {
    items.iter().map(|s| s.to_string()).collect()
}

#[test]
fn fingerprint_ignores_feature_order_and_repeats() {
    let a = named("a", Some(vec!["x", "y"]), None);
    let b = named("b", Some(vec!["y", "x", "x"]), Some(true));
    assert!(a.settings.fingerprint().same(&b.settings.fingerprint()));
    assert_eq!(a.settings.fingerprint(), b.settings.fingerprint());
}

#[test]
fn fingerprint_tells_settings_apart() {
    let base = named("a", Some(vec!["x"]), None);
    let more = named("b", Some(vec!["x", "y"]), None);
    let off = named("c", Some(vec!["x"]), Some(false));
    assert!(!base.settings.fingerprint().same(&more.settings.fingerprint()));
    assert!(!base.settings.fingerprint().same(&off.settings.fingerprint()));
}

#[test]
fn unset_settings_have_the_standard_fingerprint() {
    let unset = Build::default();
    let empty = named("boring", Some(vec![]), None);
    let explicit = named("plain", Some(vec![]), Some(true));
    assert!(unset.settings.fingerprint().same(&empty.settings.fingerprint()));
    assert!(unset.settings.fingerprint().same(&explicit.settings.fingerprint()));
    assert!(unset.settings.fingerprint().features.is_empty());
    assert!(unset.settings.fingerprint().default_features);
    let off = named("off", Some(vec![]), Some(false));
    assert!(!unset.settings.fingerprint().same(&off.settings.fingerprint()));
}

#[test]
fn standard_build_is_added_once_and_last() {
    let builds = vec![named("debug", Some(vec!["debug"]), None)];
    let plan = plan_builds(&builds, true);
    assert_eq!(plan.compiles.len(), 2);
    assert_eq!(plan.compiles[0], named("debug", Some(vec!["debug"]), None));
    assert_eq!(plan.compiles[1], Build::default());
    assert_eq!(
        plan.compiles.iter().filter(|b| b.name.is_empty()).count(),
        1
    );
    assert!(plan.copies.is_empty());
}

#[test]
fn package_without_builds_and_standard_build_has_an_empty_plan() {
    let plan = plan_builds(&vec![], false);
    assert_eq!(
        plan,
        BuildPlan {
            compiles: vec![],
            copies: vec![]
        }
    );
    let package = ParsedPackage {
        name: "p".to_string(),
        standard_build: false,
        builds: vec![],
    };
    assert!(package.build(".").is_empty());
}

#[test]
fn package_without_builds_compiles_the_standard_build() {
    let plan = plan_builds(&vec![], true);
    assert_eq!(plan.compiles, vec![Build::default()]);
    assert!(plan.copies.is_empty());
}

#[test]
fn declared_build_with_standard_settings_replaces_the_standard_build() {
    let text = r#"
        [package]
        name = "p"

        [package.metadata.optimizer]
        builds = [
            { name = "optimized", features = ["a", "b"] },
            { name = "debug", features = ["debug"] },
            { name = "boring", features = [] },
        ]
    "#;
    let package = parse_toml(text).unwrap();
    assert!(package.standard_build);
    let boring = &package.builds[2];
    assert!(boring
        .settings
        .fingerprint()
        .same(&Build::default().settings.fingerprint()));
    assert!(!package.builds[0]
        .settings
        .fingerprint()
        .same(&package.builds[1].settings.fingerprint()));
    let plan = package.plan();
    let names: Vec<&str> = plan.compiles.iter().map(|b| b.name.as_str()).collect();
    assert_eq!(names, vec!["optimized", "debug", "boring"]);
    assert!(plan.copies.is_empty());
}

#[test]
fn same_features_in_another_order_are_copied() {
    let builds = vec![
        named("a", Some(vec!["x", "y"]), None),
        named("b", Some(vec!["y", "x"]), None),
    ];
    let plan = plan_builds(&builds, false);
    assert_eq!(plan.compiles, vec![named("a", Some(vec!["x", "y"]), None)]);
    assert_eq!(
        plan.copies,
        vec![CopyStep {
            name: "b".to_string(),
            source: "a".to_string()
        }]
    );
    let package = ParsedPackage {
        name: "pkg".to_string(),
        standard_build: false,
        builds,
    };
    let steps = package.build("contracts/pkg");
    assert_eq!(steps.len(), 3);
    assert!(matches!(steps[0], Action::Compile { .. }));
    assert_eq!(
        steps[1],
        Action::Rename {
            from: "/target/wasm32-unknown-unknown/release/pkg.wasm".to_string(),
            to: "/target/wasm32-unknown-unknown/release/pkg-a.wasm".to_string(),
        }
    );
    assert_eq!(
        steps[2],
        Action::Copy {
            from: "/target/wasm32-unknown-unknown/release/pkg-a.wasm".to_string(),
            to: "/target/wasm32-unknown-unknown/release/pkg-b.wasm".to_string(),
        }
    );
    assert_eq!(
        steps.iter().filter(|s| matches!(s, Action::Compile { .. })).count(),
        1
    );
}

#[test]
fn copies_take_the_first_build_of_their_fingerprint() {
    let builds = vec![
        named("one", Some(vec!["x"]), None),
        named("two", Some(vec!["y"]), None),
        named("three", Some(vec!["x"]), Some(true)),
        named("four", Some(vec!["y"]), None),
        named("five", Some(vec!["x"]), None),
        named("six", None, None),
    ];
    let plan = plan_builds(&builds, true);
    let names: Vec<&str> = plan.compiles.iter().map(|b| b.name.as_str()).collect();
    assert_eq!(names, vec!["one", "two", "six"]);
    let copies: Vec<(&str, &str)> = plan
        .copies
        .iter()
        .map(|c| (c.name.as_str(), c.source.as_str()))
        .collect();
    assert_eq!(
        copies,
        vec![("three", "one"), ("four", "two"), ("five", "one")]
    );
    assert_eq!(plan.compiles.len() + plan.copies.len(), builds.len());
}

#[test]
fn named_build_is_moved_and_standard_build_stays() {
    let foo = named("foo", Some(vec!["f"]), None);
    let steps = foo.build("dir", "name");
    assert_eq!(steps.len(), 2);
    assert_eq!(
        steps[1],
        Action::Rename {
            from: format!("{}/name.wasm", OUTPUT_DIR),
            to: format!("{}/name-foo.wasm", OUTPUT_DIR),
        }
    );
    let standard = Build::default();
    let steps = standard.build("dir", "name");
    assert_eq!(steps.len(), 1);
    assert!(matches!(steps[0], Action::Compile { .. }));
}

#[test]
fn compile_arguments_are_exact() {
    let build = named("v", Some(vec!["zeta", "alpha", "mid"]), Some(false));
    let steps = perform_build("some/dir", "pkg", &build);
    assert_eq!(
        steps[0],
        Action::Compile {
            directory: "some/dir".to_string(),
            arguments: strings(&[
                "build",
                "--release",
                "--lib",
                "--target-dir=/target",
                "--target=wasm32-unknown-unknown",
                "--locked",
                "--features=alpha,mid,zeta",
                "--no-default-features",
            ]),
        }
    );
    let plain = perform_build("d", "pkg", &Build::default());
    assert_eq!(
        plain,
        vec![Action::Compile {
            directory: "d".to_string(),
            arguments: strings(&[
                "build",
                "--release",
                "--lib",
                "--target-dir=/target",
                "--target=wasm32-unknown-unknown",
                "--locked",
                "--features=",
            ]),
        }]
    );
    let on = perform_build("d", "pkg", &named("", Some(vec!["one"]), Some(true)));
    match &on[0] {
        Action::Compile { arguments, .. } => {
            assert_eq!(arguments.last().unwrap(), "--features=one");
        }
        _ => panic!("a compile comes first"),
    }
}

#[test]
fn artifact_paths_are_exact() {
    assert_eq!(OUTPUT_DIR, "/target/wasm32-unknown-unknown/release");
    assert_eq!(
        default_wasm_path("my_contract"),
        "/target/wasm32-unknown-unknown/release/my_contract.wasm"
    );
    assert_eq!(
        wasm_path("my_contract", "debug"),
        "/target/wasm32-unknown-unknown/release/my_contract-debug.wasm"
    );
    assert_eq!(wasm_path("my_contract", ""), default_wasm_path("my_contract"));
}

#[test]
fn manifest_text_gives_the_whole_script() {
    let text = r#"
        [package]
        name = "my-contract"

        [package.metadata.optimizer]
        builds = [
            { name = "x", features = ["b", "a"] },
            { name = "y", features = ["a", "b"] },
        ]
    "#;
    let steps = build_contract("contracts/my-contract", text).unwrap();
    let out = "/target/wasm32-unknown-unknown/release";
    assert_eq!(steps.len(), 4);
    match &steps[0] {
        Action::Compile { directory, arguments } => {
            assert_eq!(directory, "contracts/my-contract");
            assert_eq!(arguments[6], "--features=a,b");
            assert_eq!(arguments.len(), 7);
        }
        _ => panic!("a compile comes first"),
    }
    assert_eq!(
        steps[1],
        Action::Rename {
            from: format!("{}/my_contract.wasm", out),
            to: format!("{}/my_contract-x.wasm", out),
        }
    );
    match &steps[2] {
        Action::Compile { arguments, .. } => assert_eq!(arguments[6], "--features="),
        _ => panic!("the standard build is compiled last"),
    }
    assert_eq!(
        steps[3],
        Action::Copy {
            from: format!("{}/my_contract-x.wasm", out),
            to: format!("{}/my_contract-y.wasm", out),
        }
    );
    assert!(build_contract(".", "[package]").is_err());
}

#[test]
fn failed_steps_end_the_run() {
    let compile = Action::Compile {
        directory: "d".to_string(),
        arguments: vec![],
    };
    let rename = Action::Rename {
        from: "a".to_string(),
        to: "b".to_string(),
    };
    let copy = Action::Copy {
        from: "c".to_string(),
        to: "d".to_string(),
    };
    assert_eq!(compile.check(true), Ok(()));
    assert_eq!(rename.check(true), Ok(()));
    assert_eq!(copy.check(true), Ok(()));
    assert_eq!(
        compile.check(false),
        Err(BuildError::Compile {
            directory: "d".to_string()
        })
    );
    assert_eq!(
        rename.check(false),
        Err(BuildError::ArtifactIo {
            path: "a".to_string()
        })
    );
    assert_eq!(
        copy.check(false),
        Err(BuildError::ArtifactIo {
            path: "c".to_string()
        })
    );
}

#[test]
fn compressed_bytes_expand_to_the_input() {
    let input: Vec<u8> = "the quick brown fox jumps over the lazy dog. "
        .repeat(40)
        .into_bytes();
    let compressed = compress_file(&input).unwrap();
    assert_ne!(compressed, input);
    assert!(compressed.len() < input.len());
    let mut expanded = Vec::new();
    let mut stream = &compressed[..];
    brotli::BrotliDecompress(&mut stream, &mut expanded).unwrap();
    assert_eq!(expanded, input);
    assert_eq!(compress_file(&input).unwrap(), compressed);
}

#[test]
fn empty_input_compresses_to_a_stream() {
    let compressed = compress_file(&[]).unwrap();
    assert!(!compressed.is_empty());
    let mut expanded = Vec::new();
    let mut stream = &compressed[..];
    brotli::BrotliDecompress(&mut stream, &mut expanded).unwrap();
    assert!(expanded.is_empty());
}

#[test]
fn encoder_outcome_decides_the_result() {
    assert_eq!(stream_or_error(Some(vec![1, 2, 3])), Ok(vec![1, 2, 3]));
    assert_eq!(stream_or_error(Some(vec![])), Ok(vec![]));
    assert_eq!(stream_or_error(None), Err(CompressError));
}
