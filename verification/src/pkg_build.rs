//! A package with its declared builds, and what building it takes.

use crate::cargo_toml::package::{build_views, Build, BuildSettingsView, BuildView};
use crate::plan::{plan_builds, planned, BuildPlan, CopyView};
use crate::sorted::{ascending_listing, lemma_listing_of};
use crate::text::{join, joined, texts};
use vstd::prelude::*;

verus! {

/// The directory to which the toolchain writes its artifacts.
pub const OUTPUT_DIR: &'static str = "/target/wasm32-unknown-unknown/release";

/// The path of the artifact of the standard build:
/// `<output_dir>/<wasm_name>.wasm`.
pub open spec fn default_path(wasm_name: Seq<char>) -> Seq<char> {
    OUTPUT_DIR@ + "/"@ + wasm_name + ".wasm"@
}

/// The path of the artifact of a build:
/// `<output_dir>/<wasm_name>-<build_name>.wasm`, and that of the standard
/// build for a build without a name.
pub open spec fn variant_path(wasm_name: Seq<char>, build_name: Seq<char>) -> Seq<char> {
    if build_name.len() == 0 {
        default_path(wasm_name)
    } else {
        OUTPUT_DIR@ + "/"@ + wasm_name + "-"@ + build_name + ".wasm"@
    }
}

/// Returns the default wasm path name formatted as
/// `<output_dir>/<wasm_name>.wasm`.
pub fn default_wasm_path(wasm_name: &str) -> (path: String)
    ensures
        path@ == default_path(wasm_name@),
{
    let mut path = String::from_str(OUTPUT_DIR);
    path.append("/");
    path.append(wasm_name);
    path.append(".wasm");
    path
}

/// Returns path name formatted as
/// `<output_dir>/<wasm_name>-<build_name>.wasm`.
pub fn wasm_path(wasm_name: &str, build_name: &str) -> (path: String)
    ensures
        path@ == variant_path(wasm_name@, build_name@),
{
    if build_name.unicode_len() == 0 {
        default_wasm_path(wasm_name)
    } else {
        let mut path = String::from_str(OUTPUT_DIR);
        path.append("/");
        path.append(wasm_name);
        path.append("-");
        path.append(build_name);
        path.append(".wasm");
        path
    }
}

/// One step of building a package, for the caller to carry out.
#[derive(Debug, PartialEq, Eq)]
pub enum Action {
    /// Run the toolchain in `directory` with `arguments`, and wait for it.
    /// It leaves its artifact at the path of the standard build.
    Compile { directory: String, arguments: Vec<String> },
    /// Move the file `from` to `to`.
    Rename { from: String, to: String },
    /// Copy the file `from` to `to`, leaving `from` in its place.
    Copy { from: String, to: String },
}

/// A step as mathematical values.
pub enum ActionView {
    Compile { directory: Seq<char>, arguments: Seq<Seq<char>> },
    Rename { from: Seq<char>, to: Seq<char> },
    Copy { from: Seq<char>, to: Seq<char> },
}

impl View for Action {
    type V = ActionView;

    open spec fn view(&self) -> ActionView {
        match self {
            Action::Compile { directory, arguments } => ActionView::Compile {
                directory: directory@,
                arguments: texts(arguments@),
            },
            Action::Rename { from, to } => ActionView::Rename { from: from@, to: to@ },
            Action::Copy { from, to } => ActionView::Copy { from: from@, to: to@ },
        }
    }
}

/// The views of a list of steps.
pub open spec fn action_views(actions: Seq<Action>) -> Seq<ActionView> {
    Seq::new(actions.len(), |i: int| actions[i]@)
}

/// The arguments with which the toolchain compiles a build: a release
/// build of the library for the fixed target with locked dependencies,
/// the enabled features in ascending order with commas between them, and
/// the switch that turns the default features off where the settings say
/// so.
pub open spec fn compile_arguments(settings: BuildSettingsView) -> Seq<Seq<char>> {
    seq![
        "build"@,
        "--release"@,
        "--lib"@,
        "--target-dir=/target"@,
        "--target=wasm32-unknown-unknown"@,
        "--locked"@,
        "--features="@ + joined(ascending_listing(settings.feature_names()), ","@),
    ] + (if settings.default_features == Some(false) {
        seq!["--no-default-features"@]
    } else {
        Seq::empty()
    })
}

/// The steps that make the artifact of one build: the toolchain compiles
/// in `directory`, and the artifact of a build with a name is moved from
/// the path of the standard build to its own.
pub open spec fn build_steps(
    directory: Seq<char>,
    wasm_name: Seq<char>,
    build: BuildView,
) -> Seq<ActionView> {
    seq![ActionView::Compile { directory, arguments: compile_arguments(build.settings) }] + (
    if build.name.len() > 0 {
        seq![
            ActionView::Rename {
                from: default_path(wasm_name),
                to: variant_path(wasm_name, build.name),
            },
        ]
    } else {
        Seq::empty()
    })
}

/// Builds the steps that make the artifact of `build` for the package
/// `wasm_name`, compiled in the directory `contract`.
pub fn perform_build(contract: &str, wasm_name: &str, build: &Build) -> (steps: Vec<Action>)
    ensures
        action_views(steps@) == build_steps(contract@, wasm_name@, build@),
{
    let features = match &build.settings.features {
        Some(set) => set.to_vec(),
        None => {
            let none: Vec<String> = Vec::new();
            proof {
                lemma_listing_of(Seq::<Seq<char>>::empty());
                assert(Seq::<Seq<char>>::empty().to_set() =~= Set::<Seq<char>>::empty());
                assert(texts(none@) =~= Seq::<Seq<char>>::empty());
            }
            none
        },
    };
    let mut features_argument = String::from_str("--features=");
    features_argument.append(join(&features, ",").as_str());
    let mut arguments: Vec<String> = Vec::new();
    arguments.push(String::from_str("build"));
    arguments.push(String::from_str("--release"));
    arguments.push(String::from_str("--lib"));
    arguments.push(String::from_str("--target-dir=/target"));
    arguments.push(String::from_str("--target=wasm32-unknown-unknown"));
    arguments.push(String::from_str("--locked"));
    arguments.push(features_argument);
    if let Some(false) = build.settings.default_features {
        arguments.push(String::from_str("--no-default-features"));
    }
    proof {
        assert(texts(arguments@) =~= compile_arguments(build@.settings));
    }
    let mut steps: Vec<Action> = Vec::new();
    steps.push(Action::Compile { directory: String::from_str(contract), arguments });
    if build.name.as_str().unicode_len() > 0 {
        steps.push(
            Action::Rename {
                from: default_wasm_path(wasm_name),
                to: wasm_path(wasm_name, build.name.as_str()),
            },
        );
    }
    proof {
        assert(action_views(steps@) =~= build_steps(contract@, wasm_name@, build@));
    }
    steps
}

impl Build {
    /// Builds the steps that make the artifact of this build for the
    /// package `package_name`, compiled in the directory `contract`.
    pub fn build(&self, contract: &str, package_name: &str) -> (steps: Vec<Action>)
        ensures
            action_views(steps@) == build_steps(contract@, package_name@, self@),
    {
        perform_build(contract, package_name, self)
    }
}

/// A package as mathematical values.
pub struct ParsedPackageView {
    pub name: Seq<char>,
    pub standard_build: bool,
    pub builds: Seq<BuildView>,
}

/// A package as its manifest describes it.
#[derive(Debug, PartialEq, Eq)]
pub struct ParsedPackage {
    /// The name of the package as it stands in the names of its artifacts.
    pub name: String,
    /// Whether the standard build is made beside the declared builds.
    pub standard_build: bool,
    /// Builds that are created on top of the standard build.
    pub builds: Vec<Build>,
}

impl View for ParsedPackage {
    type V = ParsedPackageView;

    open spec fn view(&self) -> ParsedPackageView {
        ParsedPackageView {
            name: self.name@,
            standard_build: self.standard_build,
            builds: build_views(self.builds@),
        }
    }
}

/// The steps that compile the builds of `compiles`, one build after the
/// other.
pub open spec fn compile_steps(
    directory: Seq<char>,
    wasm_name: Seq<char>,
    compiles: Seq<BuildView>,
) -> Seq<ActionView>
    decreases compiles.len(),
{
    if compiles.len() == 0 {
        Seq::empty()
    } else {
        compile_steps(directory, wasm_name, compiles.drop_last()) + build_steps(
            directory,
            wasm_name,
            compiles.last(),
        )
    }
}

/// The steps that make the copies: each copies the artifact of its source
/// to the path of the build that takes it.
pub open spec fn copy_steps(wasm_name: Seq<char>, copies: Seq<CopyView>) -> Seq<ActionView> {
    Seq::new(
        copies.len(),
        |i: int|
            ActionView::Copy {
                from: variant_path(wasm_name, copies[i].source),
                to: variant_path(wasm_name, copies[i].name),
            },
    )
}

/// The steps that build a package in `directory`: its plan's compiles in
/// order, each followed by the move of its artifact, and after them the
/// copies, whose sources then all lie at their own paths.
pub open spec fn package_steps(directory: Seq<char>, package: ParsedPackageView) -> Seq<
    ActionView,
> {
    compile_steps(directory, package.name, planned(package.builds, package.standard_build).compiles)
        + copy_steps(package.name, planned(package.builds, package.standard_build).copies)
}

impl ParsedPackage {
    /// The plan of the package's builds.
    pub fn plan(&self) -> (plan: BuildPlan)
        ensures
            plan@ == planned(self@.builds, self@.standard_build),
    {
        plan_builds(&self.builds, self.standard_build)
    }

    /// Builds the steps that make all the artifacts of the package,
    /// compiled in the directory `path`: one compile for each fingerprint
    /// among the declared builds and the standard build, and a copy for
    /// each further build with a fingerprint that is compiled already.
    pub fn build(self, path: &str) -> (steps: Vec<Action>)
        ensures
            action_views(steps@) == package_steps(path@, self@),
    {
        let plan = self.plan();
        let ghost compiles = build_views(plan.compiles@);
        let mut steps: Vec<Action> = Vec::new();
        let mut i: usize = 0;
        proof {
            assert(compiles.take(0) =~= Seq::<BuildView>::empty());
            assert(action_views(steps@) =~= compile_steps(path@, self.name@, compiles.take(0)));
        }
        while i < plan.compiles.len()
            invariant
                i <= plan.compiles.len(),
                compiles == build_views(plan.compiles@),
                action_views(steps@) == compile_steps(path@, self.name@, compiles.take(i as int)),
            decreases plan.compiles.len() - i,
        {
            let ghost before = action_views(steps@);
            let mut more = plan.compiles[i].build(path, self.name.as_str());
            let ghost added = action_views(more@);
            proof {
                assert(compiles.take(i as int + 1).drop_last() =~= compiles.take(i as int));
                assert(compiles.take(i as int + 1).last() == plan.compiles@[i as int]@);
            }
            steps.append(&mut more);
            proof {
                assert(action_views(steps@) =~= before + added);
            }
            i += 1;
        }
        proof {
            assert(compiles.take(plan.compiles.len() as int) =~= compiles);
        }
        let ghost compiled_steps = action_views(steps@);
        let mut j: usize = 0;
        while j < plan.copies.len()
            invariant
                j <= plan.copies.len(),
                steps@.len() == compiled_steps.len() + j,
                forall|k: int|
                    0 <= k < compiled_steps.len() ==> (#[trigger] steps@[k])@ == compiled_steps[k],
                forall|k: int|
                    0 <= k < j ==> (#[trigger] steps@[compiled_steps.len() + k])@
                        == (ActionView::Copy {
                        from: variant_path(self.name@, plan.copies@[k].source@),
                        to: variant_path(self.name@, plan.copies@[k].name@),
                    }),
            decreases plan.copies.len() - j,
        {
            let copy = &plan.copies[j];
            steps.push(
                Action::Copy {
                    from: wasm_path(self.name.as_str(), copy.source.as_str()),
                    to: wasm_path(self.name.as_str(), copy.name.as_str()),
                },
            );
            j += 1;
        }
        proof {
            let all = compiled_steps + copy_steps(self.name@, plan@.copies);
            assert(action_views(steps@).len() == all.len());
            assert forall|k: int| 0 <= k < all.len() implies action_views(steps@)[k] == all[k] by {
                if k >= compiled_steps.len() {
                    let c = k - compiled_steps.len();
                    assert(steps@[compiled_steps.len() + c]@ == (ActionView::Copy {
                        from: variant_path(self.name@, plan.copies@[c].source@),
                        to: variant_path(self.name@, plan.copies@[c].name@),
                    }));
                    assert(plan@.copies[c] == plan.copies@[c]@);
                } else {
                    assert(steps@[k]@ == compiled_steps[k]);
                }
            }
            assert(action_views(steps@) =~= all);
        }
        steps
    }
}

} // verus!
