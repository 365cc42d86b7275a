use bob_the_builder::cargo_toml::package::{parse_toml, parse_toml_at, Build, BuildSettings};
use bob_the_builder::cargo_toml::workspace::{is_workspace, parse_cargo_toml, IsWorkspace};
use bob_the_builder::document::{parse_document, Key, ManifestSyntaxError, Node};
use bob_the_builder::features::FeatureSet;
use bob_the_builder::pkg_build::ParsedPackage;

#[test]
fn is_workspace_works() {
    let is = is_workspace(
        r#"
            title = 'TOML Example'

            [workspace]
            "#,
    )
    .unwrap();
    assert_eq!(is, IsWorkspace::NoMembers);
    let is = is_workspace(
        r#"
            title = 'TOML Example'

            [workspace]
            members = []
            "#,
    )
    .unwrap();
    assert_eq!(is, IsWorkspace::NoMembers);

    let is = is_workspace(
        r#"
            title = 'TOML Example'
            "#,
    )
    .unwrap();
    assert_eq!(is, IsWorkspace::No);

    let is = is_workspace(
        r#"
            title = 'TOML Example'

            [workspace]
            members = ["contracts/*"]
            "#,
    )
    .unwrap();
    assert_eq!(
        is,
        IsWorkspace::Yes {
            members: vec!["contracts/*".to_string()]
        }
    );
}

#[test]
fn parse_default_toml_works() {
    let toml = r#"
            [package]
            name = "my-contract"
            "#;

    let parsed = parse_toml(toml).unwrap();

    assert_eq!(
        parsed,
        ParsedPackage {
            name: "my_contract".to_string(),
            standard_build: true,
            builds: vec![]
        }
    );
}

#[test]
fn parse_toml_works() {
    let toml = r#"
            [package]
            name = "my-contract"

            [package.metadata.optimizer]
            standard-build = false
            builds = [
                { name = "optimized", features = ["opt1", "opt2"], default-features = true },
                { name = "debug", features = ["debug"] },
                { name = "boring", features = [], default-features = false },
            ]
            "#;

    let parsed = parse_toml(toml).unwrap();

    assert_eq!(
        parsed,
        ParsedPackage {
            name: "my_contract".to_string(),
            standard_build: false,
            builds: vec![
                Build {
                    name: "optimized".to_string(),
                    settings: BuildSettings {
                        features: Some(FeatureSet::from_vec(vec![
                            "opt1".to_string(),
                            "opt2".to_string()
                        ])),
                        default_features: Some(true)
                    }
                },
                Build {
                    name: "debug".to_string(),
                    settings: BuildSettings {
                        features: Some(FeatureSet::from_vec(vec!["debug".to_string()])),
                        default_features: None,
                    }
                },
                Build {
                    name: "boring".to_string(),
                    settings: BuildSettings {
                        features: Some(FeatureSet::new()),
                        default_features: Some(false)
                    }
                }
            ]
        }
    );
}

#[test]
fn text_that_is_no_toml_is_a_syntax_error() {
    assert!(matches!(
        is_workspace("[workspace"),
        Err(ManifestSyntaxError::Syntax(_))
    ));
    assert!(matches!(
        parse_toml("name = "),
        Err(ManifestSyntaxError::Syntax(_))
    ));
    assert!(matches!(
        parse_document("a = 1\na = 2"),
        Err(ManifestSyntaxError::Syntax(_))
    ));
}

#[test]
fn document_is_read_as_a_tree() {
    let document = parse_document(
        "title = 'x'\ncount = 3\nflag = true\nlist = [1, 'a']\n[section]\nkey = 'value'\n",
    )
    .unwrap();
    assert_eq!(
        document.get("title"),
        Some(&Node::Text("x".to_string()))
    );
    assert_eq!(document.get("count"), Some(&Node::Integer(3)));
    assert_eq!(document.get("flag"), Some(&Node::Boolean(true)));
    assert_eq!(
        document.get("list"),
        Some(&Node::Array(vec![
            Node::Integer(1),
            Node::Text("a".to_string())
        ]))
    );
    assert_eq!(
        document.get("section").unwrap().get("key"),
        Some(&Node::Text("value".to_string()))
    );
    assert_eq!(document.get("missing"), None);
    assert_eq!(document.get("title").unwrap().get("key"), None);
}

#[test]
fn floats_and_dates_are_kept() {
    let document = parse_document("half = 0.5\nday = 1979-05-27\n").unwrap();
    assert_eq!(
        document.get("half"),
        Some(&Node::Float(0.5f64.to_bits()))
    );
    assert_eq!(
        document.get("day"),
        Some(&Node::Datetime("1979-05-27".to_string()))
    );
}

#[test]
fn workspace_of_the_wrong_type_is_malformed() {
    assert_eq!(
        is_workspace("workspace = 5"),
        Err(ManifestSyntaxError::Malformed(Key::Workspace))
    );
    assert_eq!(
        is_workspace("[workspace]\nmembers = 'contracts/*'"),
        Err(ManifestSyntaxError::Malformed(Key::Members))
    );
    assert_eq!(
        is_workspace("[workspace]\nmembers = ['a', 1]"),
        Err(ManifestSyntaxError::Malformed(Key::Members))
    );
}

#[test]
fn strict_workspace_needs_its_members() {
    let manifest = parse_cargo_toml("[workspace]\nmembers = ['contracts/*', 'packages/*']").unwrap();
    assert_eq!(
        manifest.workspace.members,
        Some(vec!["contracts/*".to_string(), "packages/*".to_string()])
    );
    assert_eq!(
        parse_cargo_toml("[workspace]\nmembers = []").unwrap().workspace.members,
        Some(vec![])
    );
    assert_eq!(
        parse_cargo_toml("title = 'x'"),
        Err(ManifestSyntaxError::Malformed(Key::Workspace))
    );
    assert_eq!(
        parse_cargo_toml("[workspace]"),
        Err(ManifestSyntaxError::Malformed(Key::Members))
    );
}

#[test]
fn package_section_is_required() {
    assert_eq!(
        parse_toml("title = 'x'"),
        Err(ManifestSyntaxError::Malformed(Key::Package))
    );
    assert_eq!(
        parse_toml("package = 1"),
        Err(ManifestSyntaxError::Malformed(Key::Package))
    );
    assert_eq!(
        parse_toml("[package]\nversion = '1'"),
        Err(ManifestSyntaxError::Malformed(Key::Name))
    );
    assert_eq!(
        parse_toml("[package]\nname = 7"),
        Err(ManifestSyntaxError::Malformed(Key::Name))
    );
}

#[test]
fn malformed_build_matrix_is_rejected() {
    let head = "[package]\nname = 'p'\n";
    let parse = |rest: &str| parse_toml(&format!("{}{}", head, rest));
    assert_eq!(
        parse("metadata = 1"),
        Err(ManifestSyntaxError::Malformed(Key::Metadata))
    );
    assert_eq!(
        parse("[package.metadata]\noptimizer = 'x'"),
        Err(ManifestSyntaxError::Malformed(Key::Optimizer))
    );
    assert_eq!(
        parse("[package.metadata.optimizer]\nstandard-build = 'no'"),
        Err(ManifestSyntaxError::Malformed(Key::StandardBuild))
    );
    assert_eq!(
        parse("[package.metadata.optimizer]\nbuilds = 3"),
        Err(ManifestSyntaxError::Malformed(Key::Builds))
    );
    assert_eq!(
        parse("[package.metadata.optimizer]\nbuilds = ['a']"),
        Err(ManifestSyntaxError::Malformed(Key::Builds))
    );
    assert_eq!(
        parse("[package.metadata.optimizer]\nbuilds = [{ features = ['a'] }]"),
        Err(ManifestSyntaxError::Malformed(Key::BuildName))
    );
    assert_eq!(
        parse("[package.metadata.optimizer]\nbuilds = [{ name = '' }]"),
        Err(ManifestSyntaxError::Malformed(Key::BuildName))
    );
    assert_eq!(
        parse("[package.metadata.optimizer]\nbuilds = [{ name = 'a', features = 'x' }]"),
        Err(ManifestSyntaxError::Malformed(Key::Features))
    );
    assert_eq!(
        parse("[package.metadata.optimizer]\nbuilds = [{ name = 'a', features = [1] }]"),
        Err(ManifestSyntaxError::Malformed(Key::Features))
    );
    assert_eq!(
        parse("[package.metadata.optimizer]\nbuilds = [{ name = 'a', default-features = 1 }]"),
        Err(ManifestSyntaxError::Malformed(Key::DefaultFeatures))
    );
}

#[test]
fn first_malformed_build_decides_the_error() {
    let text = "[package]\nname = 'p'\n[package.metadata.optimizer]\nbuilds = [{ name = 'a' }, { name = 'b', features = 1 }, { name = '' }]";
    assert_eq!(
        parse_toml(text),
        Err(ManifestSyntaxError::Malformed(Key::Features))
    );
}

#[test]
fn metadata_without_optimizer_gives_the_defaults() {
    let parsed = parse_toml("[package]\nname = 'a-b-c'\n[package.metadata]\nother = 1").unwrap();
    assert_eq!(parsed.name, "a_b_c");
    assert!(parsed.standard_build);
    assert!(parsed.builds.is_empty());
}

#[test]
fn features_are_read_as_a_set() {
    let text = "[package]\nname = 'p'\n[package.metadata.optimizer]\nbuilds = [{ name = 'a', features = ['y', 'x', 'y'] }]";
    let parsed = parse_toml(text).unwrap();
    let features = parsed.builds[0].settings.features.clone().unwrap();
    assert_eq!(features.to_vec(), vec!["x".to_string(), "y".to_string()]);
    assert_eq!(
        features,
        FeatureSet::from_vec(vec!["x".to_string(), "y".to_string()])
    );
}

#[test]
fn missing_build_list_differs_from_an_empty_one() {
    assert_eq!(
        parse_toml_at("[package]\nname = 'a-b'"),
        Ok(("a_b".to_string(), None))
    );
    assert_eq!(
        parse_toml_at("[package]\nname = 'a-b'\n[package.metadata.optimizer]\nbuilds = []"),
        Ok(("a_b".to_string(), Some(vec![])))
    );
    let found = parse_toml_at(
        "[package]\nname = 'a-b'\n[package.metadata.optimizer]\nbuilds = [{ name = 'x' }]",
    )
    .unwrap();
    assert_eq!(
        found.1,
        Some(vec![Build {
            name: "x".to_string(),
            settings: BuildSettings::default()
        }])
    );
    assert_eq!(
        parse_toml_at("name = 'p'"),
        Err(ManifestSyntaxError::Malformed(Key::Package))
    );
}
