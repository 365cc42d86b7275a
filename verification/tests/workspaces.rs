use bob_the_builder::cargo_toml::package::Build;
use bob_the_builder::features::FeatureSet;
use bob_the_builder::text::{join, place, same_text, starts_with, Place};
use bob_the_builder::{
    build, build_workspace, is_cargo_project, BuildError, Expansion, GlobMatch, MemberExpansion,
    Targets, CARGO_PATH, PACKAGE_PREFIX, RUSTFLAGS,
};

fn dir(path: &str) -> GlobMatch {
    GlobMatch {
        path: path.to_string(),
        is_dir: true,
    }
}

fn file(path: &str) -> GlobMatch {
    GlobMatch {
        path: path.to_string(),
        is_dir: false,
    }
}

fn member(pattern: &str, matches: Vec<GlobMatch>) -> MemberExpansion {
    MemberExpansion {
        pattern: pattern.to_string(),
        outcome: Expansion::Matches(matches),
    }
}

#[test]
fn constants_are_those_of_the_toolchain() {
    assert_eq!(CARGO_PATH, "cargo");
    assert_eq!(PACKAGE_PREFIX, "contracts/");
    assert_eq!(RUSTFLAGS, "-C link-arg=-s");
}

#[test]
fn only_directories_are_projects() {
    assert!(is_cargo_project(&dir("contracts/a")));
    assert!(!is_cargo_project(&file("contracts/a")));
}

#[test]
fn targets_are_sorted_deduplicated_and_filtered() {
    let expansions = vec![
        member(
            "contracts/*",
            vec![
                dir("contracts/zeta"),
                file("contracts/README.md"),
                dir("contracts/alpha"),
            ],
        ),
        member("packages/*", vec![dir("packages/shared")]),
        member("contracts/a*", vec![dir("contracts/alpha")]),
    ];
    assert_eq!(
        build_workspace(&expansions, PACKAGE_PREFIX),
        Ok(vec![
            "contracts/alpha".to_string(),
            "contracts/zeta".to_string()
        ])
    );
}

#[test]
fn targets_do_not_depend_on_declaration_order() {
    let one = vec![
        member("contracts/b*", vec![dir("contracts/b1"), dir("contracts/b2")]),
        member("contracts/*", vec![dir("contracts/a"), dir("contracts/b1"), dir("contracts/b2")]),
    ];
    let other = vec![
        member("contracts/*", vec![dir("contracts/b2"), dir("contracts/b1"), dir("contracts/a")]),
        member("contracts/b*", vec![dir("contracts/b2"), dir("contracts/b1")]),
    ];
    let first = build_workspace(&one, PACKAGE_PREFIX).unwrap();
    let second = build_workspace(&other, PACKAGE_PREFIX).unwrap();
    assert_eq!(first, second);
    assert_eq!(first, vec!["contracts/a", "contracts/b1", "contracts/b2"]);
    let again = vec![member("*", first.iter().map(|p| dir(p)).collect())];
    assert_eq!(build_workspace(&again, PACKAGE_PREFIX).unwrap(), first);
}

#[test]
fn prefix_is_a_prefix_of_the_characters() {
    let expansions = vec![member(
        "*",
        vec![dir("contracts"), dir("contractsx/a"), dir("contracts/a"), dir("x/contracts/a")],
    )];
    assert_eq!(
        build_workspace(&expansions, "contracts/").unwrap(),
        vec!["contracts/a"]
    );
    assert_eq!(
        build_workspace(&expansions, "").unwrap(),
        vec!["contracts", "contracts/a", "contractsx/a", "x/contracts/a"]
    );
}

#[test]
fn order_is_by_code_point() {
    let expansions = vec![member(
        "*",
        vec![dir("c/b"), dir("c/a-b"), dir("c/a/b"), dir("c/B"), dir("c/a"), dir("c/é")],
    )];
    assert_eq!(
        build_workspace(&expansions, "c/").unwrap(),
        vec!["c/B", "c/a", "c/a-b", "c/a/b", "c/b", "c/é"]
    );
}

#[test]
fn no_members_give_no_targets() {
    assert_eq!(build_workspace(&vec![], PACKAGE_PREFIX), Ok(vec![]));
    assert_eq!(
        build_workspace(&vec![member("contracts/*", vec![])], PACKAGE_PREFIX),
        Ok(vec![])
    );
}

#[test]
fn first_failed_pattern_ends_the_resolution() {
    let expansions = vec![
        member("contracts/*", vec![dir("contracts/a")]),
        MemberExpansion {
            pattern: "a**".to_string(),
            outcome: Expansion::Failed,
        },
        MemberExpansion {
            pattern: "[".to_string(),
            outcome: Expansion::Failed,
        },
    ];
    assert_eq!(
        build_workspace(&expansions, PACKAGE_PREFIX),
        Err(BuildError::GlobExpansion {
            pattern: "a**".to_string()
        })
    );
}

#[test]
fn root_manifest_decides_what_is_built() {
    assert_eq!(
        build("[workspace]\nmembers = ['contracts/*']"),
        Ok(Targets::Workspace {
            members: vec!["contracts/*".to_string()]
        })
    );
    assert_eq!(build("[workspace]\nmembers = []"), Ok(Targets::Nothing));
    assert_eq!(build("[workspace]"), Ok(Targets::Nothing));
    match build("[package]\nname = 'solo-one'").unwrap() {
        Targets::Package(package) => {
            assert_eq!(package.name, "solo_one");
            assert!(package.standard_build);
            assert_eq!(package.plan().compiles, vec![Build::default()]);
        }
        _ => panic!("a single package"),
    }
    assert!(build("title = 'x'").is_err());
    assert!(build("[workspace").is_err());
    assert_eq!(
        build("[workspace]\nmembers = []\n[package]\nname = 'p'"),
        Ok(Targets::Nothing)
    );
}

#[test]
fn strings_compare_by_their_characters() {
    assert_eq!(place("a", "b"), Place::Before);
    assert_eq!(place("b", "a"), Place::After);
    assert_eq!(place("abc", "abc"), Place::Same);
    assert_eq!(place("ab", "abc"), Place::Before);
    assert_eq!(place("abc", "ab"), Place::After);
    assert_eq!(place("", ""), Place::Same);
    assert_eq!(place("", "a"), Place::Before);
    assert_eq!(place("Z", "a"), Place::Before);
    assert_eq!(place("é", "z"), Place::After);
    assert!(same_text("héllo", "héllo"));
    assert!(!same_text("hello", "hellp"));
    assert!(starts_with("contracts/a", "contracts/"));
    assert!(starts_with("abc", ""));
    assert!(starts_with("abc", "abc"));
    assert!(!starts_with("ab", "abc"));
    assert!(!starts_with("xbc", "ab"));
}

#[test]
fn join_puts_the_separator_between() {
    let none: Vec<String> = vec![];
    assert_eq!(join(&none, ","), "");
    assert_eq!(join(&vec!["a".to_string()], ","), "a");
    assert_eq!(
        join(&vec!["a".to_string(), "b".to_string(), "c".to_string()], ", "),
        "a, b, c"
    );
}

#[test]
fn feature_sets_behave_as_sets() {
    let mut set = FeatureSet::new();
    assert!(set.is_empty());
    assert_eq!(set.len(), 0);
    assert!(set.insert("b".to_string()));
    assert!(set.insert("a".to_string()));
    assert!(!set.insert("b".to_string()));
    assert_eq!(set.len(), 2);
    assert!(!set.is_empty());
    assert!(set.contains("a"));
    assert!(!set.contains("c"));
    assert_eq!(set.to_vec(), vec!["a", "b"]);
    let other = FeatureSet::from_vec(vec!["b".to_string(), "a".to_string(), "a".to_string()]);
    assert!(set.same(&other));
    assert_eq!(set, other);
    assert_eq!(set.clone(), other);
    let bigger = FeatureSet::from_vec(vec!["a".to_string(), "b".to_string(), "c".to_string()]);
    assert!(!set.same(&bigger));
}
