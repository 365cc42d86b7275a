//! Build orchestration for packages that are compiled into several named
//! variants, each defined by a set of enabled features. The crate decides
//! what is to be built and in which steps; running the toolchain and
//! touching files is left to the caller.

pub mod artifacts;
pub mod cargo_toml;
pub mod contract;
pub mod document;
pub mod ext;
pub mod features;
pub mod pkg_build;
pub mod plan;
pub mod sorted;
pub mod text;

use crate::cargo_toml::package::{package_from, parsed_package, read_package};
use crate::cargo_toml::workspace::{
    read_workspace, state_of, workspace_of, IsWorkspace, IsWorkspaceView,
};
use crate::document::{parse_document, parsed_toml, ManifestSyntaxError};
use crate::pkg_build::{ParsedPackage, ParsedPackageView};
use crate::sorted::{ascending_listing, insert_ascending, lemma_listing_of, strictly_ascending};
use crate::text::{is_prefix, starts_with, texts};
use vstd::prelude::*;

verus! {

/// The program that compiles a package.
pub const CARGO_PATH: &'static str = "cargo";

/// The flags that the compiler gets through the `RUSTFLAGS` variable of
/// the toolchain's environment: the linker strips the artifact.
pub const RUSTFLAGS: &'static str = "-C link-arg=-s";

/// The prefix of the directories that are built: members of a workspace
/// outside of it belong to the workspace but are no targets.
pub const PACKAGE_PREFIX: &'static str = "contracts/";

/// What a member pattern matched: a path, and whether it is a directory.
#[derive(Debug, PartialEq, Eq)]
pub struct GlobMatch {
    pub path: String,
    pub is_dir: bool,
}

/// Checks if the given match is a package directory. This filters the
/// matches of a workspace member like `contracts/*` to exclude things
/// like non-directories.
pub fn is_cargo_project(path: &GlobMatch) -> (r: bool)
    ensures
        r == path.is_dir,
{
    path.is_dir
}

/// What came of expanding one member pattern.
#[derive(Debug, PartialEq, Eq)]
pub enum Expansion {
    /// The matches of the pattern.
    Matches(Vec<GlobMatch>),
    /// The pattern is malformed, or a path could not be read.
    Failed,
}

/// A member pattern of a workspace with what came of expanding it.
#[derive(Debug, PartialEq, Eq)]
pub struct MemberExpansion {
    pub pattern: String,
    pub outcome: Expansion,
}

/// Why a run of the orchestrator ends early. Every error ends the run.
#[derive(Debug, PartialEq, Eq)]
pub enum BuildError {
    /// A member pattern could not be expanded.
    GlobExpansion { pattern: String },
    /// The toolchain did not end with success in this directory.
    Compile { directory: String },
    /// A file that should be there is not, or could not be moved or
    /// copied.
    ArtifactIo { path: String },
}

/// The directories among `matches` that lie under `prefix`.
pub open spec fn directories_under(matches: Seq<GlobMatch>, prefix: Seq<char>) -> Set<Seq<char>> {
    Set::new(
        |path: Seq<char>|
            exists|j: int|
                0 <= j < matches.len() && (#[trigger] matches[j]).is_dir && matches[j].path@ == path
                    && is_prefix(prefix, path),
    )
}

/// The targets of a workspace: the directories under `prefix` that some
/// member pattern matched.
pub open spec fn targets(expansions: Seq<MemberExpansion>, prefix: Seq<char>) -> Set<Seq<char>> {
    Set::new(
        |path: Seq<char>|
            exists|i: int|
                0 <= i < expansions.len() && (#[trigger] expansions[i]).outcome is Matches
                    && directories_under(expansions[i].outcome->Matches_0@, prefix).contains(path),
    )
}

/// Member `i` is the first whose expansion failed.
pub open spec fn first_failed(expansions: Seq<MemberExpansion>, i: int) -> bool {
    &&& 0 <= i < expansions.len()
    &&& expansions[i].outcome is Failed
    &&& forall|k: int| 0 <= k < i ==> !((#[trigger] expansions[k]).outcome is Failed)
}

/// Resolves the targets of a workspace from the expansions of its member
/// patterns: the matched directories under `prefix`, each once, in
/// ascending lexicographic order. The first member whose expansion failed
/// ends the resolution with its pattern.
pub fn build_workspace(expansions: &Vec<MemberExpansion>, prefix: &str) -> (res: Result<
    Vec<String>,
    BuildError,
>)
    ensures
        match res {
            Ok(list) => {
                &&& forall|i: int|
                    0 <= i < expansions.len() ==> !((#[trigger] expansions[i]).outcome is Failed)
                &&& strictly_ascending(texts(list@))
                &&& texts(list@).to_set() == targets(expansions@, prefix@)
                &&& texts(list@) == ascending_listing(targets(expansions@, prefix@))
            },
            Err(error) => error is GlobExpansion && exists|i: int|
                first_failed(expansions@, i) && error->pattern@ == (
                #[trigger] expansions[i]).pattern@,
        },
{
    let mut k: usize = 0;
    while k < expansions.len()
        invariant
            k <= expansions.len(),
            forall|i: int| 0 <= i < k ==> !((#[trigger] expansions[i]).outcome is Failed),
        decreases expansions.len() - k,
    {
        if let Expansion::Failed = expansions[k].outcome {
            proof {
                assert(first_failed(expansions@, k as int));
            }
            return Err(BuildError::GlobExpansion { pattern: expansions[k].pattern.clone() });
        }
        k += 1;
    }
    let mut list: Vec<String> = Vec::new();
    let mut i: usize = 0;
    proof {
        assert(texts(list@) =~= Seq::<Seq<char>>::empty());
        assert(texts(list@).to_set() =~= targets(expansions@.take(0), prefix@));
    }
    while i < expansions.len()
        invariant
            i <= expansions.len(),
            forall|n: int| 0 <= n < expansions.len() ==> !((#[trigger] expansions[n]).outcome is Failed),
            strictly_ascending(texts(list@)),
            texts(list@).to_set() == targets(expansions@.take(i as int), prefix@),
        decreases expansions.len() - i,
    {
        let ghost done = targets(expansions@.take(i as int), prefix@);
        match &expansions[i].outcome {
            Expansion::Matches(matches) => {
                let mut j: usize = 0;
                proof {
                    assert(directories_under(matches@.take(0), prefix@) =~= Set::<Seq<char>>::empty());
                    assert(done.union(Set::<Seq<char>>::empty()) =~= done);
                }
                while j < matches.len()
                    invariant
                        j <= matches.len(),
                        strictly_ascending(texts(list@)),
                        texts(list@).to_set() == done.union(
                            directories_under(matches@.take(j as int), prefix@),
                        ),
                    decreases matches.len() - j,
                {
                    let ghost before = directories_under(matches@.take(j as int), prefix@);
                    let ghost after = directories_under(matches@.take(j as int + 1), prefix@);
                    let found = &matches[j];
                    proof {
                        let head = matches@.take(j as int);
                        let next = matches@.take(j as int + 1);
                        assert(forall|n: int| 0 <= n < j ==> head[n] == next[n]);
                        assert(next[j as int] == matches@[j as int]);
                        let adds = found.is_dir && is_prefix(prefix@, found.path@);
                        assert forall|p: Seq<char>| after.contains(p) == (before.contains(p) || (
                        adds && p == found.path@)) by {
                            if before.contains(p) {
                                let n = choose|n: int|
                                    0 <= n < head.len() && (#[trigger] head[n]).is_dir
                                        && head[n].path@ == p && is_prefix(prefix@, p);
                                assert(next[n].is_dir && next[n].path@ == p);
                            }
                            if adds && p == found.path@ {
                                assert(next[j as int].is_dir && next[j as int].path@ == p);
                            }
                            if after.contains(p) {
                                let n = choose|n: int|
                                    0 <= n < next.len() && (#[trigger] next[n]).is_dir
                                        && next[n].path@ == p && is_prefix(prefix@, p);
                                if n < j {
                                    assert(head[n].is_dir && head[n].path@ == p);
                                }
                            }
                        }
                        if adds {
                            assert(after =~= before.insert(found.path@));
                            assert(done.union(after) =~= done.union(before).insert(found.path@));
                        } else {
                            assert(after =~= before);
                        }
                    }
                    if is_cargo_project(found) && starts_with(found.path.as_str(), prefix) {
                        insert_ascending(&mut list, found.path.clone());
                    }
                    j += 1;
                }
                proof {
                    assert(matches@.take(matches.len() as int) =~= matches@);
                    lemma_targets_step(expansions@, i as int, prefix@);
                }
            },
            Expansion::Failed => {
                proof {
                    assert(expansions[i as int].outcome is Failed);
                }
            },
        }
        i += 1;
    }
    proof {
        assert(expansions@.take(expansions.len() as int) =~= expansions@);
        lemma_listing_of(texts(list@));
    }
    Ok(list)
}

/// The targets of the first `i + 1` members are those of the first `i`
/// with the directories that member `i` matched.
proof fn lemma_targets_step(expansions: Seq<MemberExpansion>, i: int, prefix: Seq<char>)
    requires
        0 <= i < expansions.len(),
        expansions[i].outcome is Matches,
    ensures
        targets(expansions.take(i + 1), prefix) == targets(expansions.take(i), prefix).union(
            directories_under(expansions[i].outcome->Matches_0@, prefix),
        ),
{
    let head = expansions.take(i);
    let next = expansions.take(i + 1);
    let more = directories_under(expansions[i].outcome->Matches_0@, prefix);
    assert(forall|n: int| 0 <= n < i ==> head[n] == next[n]);
    assert(next[i] == expansions[i]);
    assert forall|p: Seq<char>| targets(next, prefix).contains(p) == (targets(
        head,
        prefix,
    ).contains(p) || more.contains(p)) by {
        if targets(head, prefix).contains(p) {
            let n = choose|n: int|
                0 <= n < head.len() && (#[trigger] head[n]).outcome is Matches && directories_under(
                    head[n].outcome->Matches_0@,
                    prefix,
                ).contains(p);
            assert(next[n].outcome is Matches);
        }
        if more.contains(p) {
            assert(next[i].outcome is Matches);
        }
        if targets(next, prefix).contains(p) {
            let n = choose|n: int|
                0 <= n < next.len() && (#[trigger] next[n]).outcome is Matches && directories_under(
                    next[n].outcome->Matches_0@,
                    prefix,
                ).contains(p);
            if n < i {
                assert(head[n].outcome is Matches);
            }
        }
    }
    assert(targets(next, prefix) =~= targets(head, prefix).union(more));
}

/// The targets do not depend on the order of the member patterns.
pub proof fn lemma_targets_ignore_order(
    a: Seq<MemberExpansion>,
    b: Seq<MemberExpansion>,
    prefix: Seq<char>,
)
    ensures
        targets(a + b, prefix) == targets(b + a, prefix),
        ascending_listing(targets(a + b, prefix)) == ascending_listing(targets(b + a, prefix)),
{
    lemma_targets_of_both(a, b, prefix);
    lemma_targets_of_both(b, a, prefix);
    assert(targets(a, prefix).union(targets(b, prefix)) =~= targets(b, prefix).union(
        targets(a, prefix),
    ));
}

/// Member patterns that match the same directories again add nothing.
pub proof fn lemma_targets_ignore_repeats(a: Seq<MemberExpansion>, prefix: Seq<char>)
    ensures
        targets(a + a, prefix) == targets(a, prefix),
{
    lemma_targets_of_both(a, a, prefix);
    assert(targets(a, prefix).union(targets(a, prefix)) =~= targets(a, prefix));
}

/// The targets of two lists of members together are the targets of the
/// one and those of the other.
pub proof fn lemma_targets_of_both(
    a: Seq<MemberExpansion>,
    b: Seq<MemberExpansion>,
    prefix: Seq<char>,
)
    ensures
        targets(a + b, prefix) == targets(a, prefix).union(targets(b, prefix)),
{
    let both = a + b;
    assert forall|p: Seq<char>| targets(both, prefix).contains(p) == (targets(a, prefix).contains(
        p,
    ) || targets(b, prefix).contains(p)) by {
        if targets(a, prefix).contains(p) {
            let n = choose|n: int|
                0 <= n < a.len() && (#[trigger] a[n]).outcome is Matches && directories_under(
                    a[n].outcome->Matches_0@,
                    prefix,
                ).contains(p);
            assert(both[n] == a[n]);
            assert(both[n].outcome is Matches);
        }
        if targets(b, prefix).contains(p) {
            let n = choose|n: int|
                0 <= n < b.len() && (#[trigger] b[n]).outcome is Matches && directories_under(
                    b[n].outcome->Matches_0@,
                    prefix,
                ).contains(p);
            assert(both[a.len() + n] == b[n]);
            assert(both[a.len() + n].outcome is Matches);
        }
        if targets(both, prefix).contains(p) {
            let n = choose|n: int|
                0 <= n < both.len() && (#[trigger] both[n]).outcome is Matches
                    && directories_under(both[n].outcome->Matches_0@, prefix).contains(p);
            if n < a.len() {
                assert(a[n] == both[n]);
                assert(a[n].outcome is Matches);
            } else {
                assert(b[n - a.len()] == both[n]);
                assert(b[n - a.len()].outcome is Matches);
            }
        }
    }
    assert(targets(both, prefix) =~= targets(a, prefix).union(targets(b, prefix)));
}

/// Resolving is idempotent: a resolved list, matched again as directories
/// by one member pattern, resolves to itself.
pub proof fn lemma_resolution_idempotent(
    resolved: Seq<Seq<char>>,
    again: Seq<MemberExpansion>,
    prefix: Seq<char>,
)
    requires
        strictly_ascending(resolved),
        forall|i: int| 0 <= i < resolved.len() ==> is_prefix(prefix, #[trigger] resolved[i]),
        again.len() == 1,
        again[0].outcome is Matches,
        again[0].outcome->Matches_0@.len() == resolved.len(),
        forall|i: int|
            0 <= i < resolved.len() ==> (#[trigger] again[0].outcome->Matches_0@[i]).is_dir
                && again[0].outcome->Matches_0@[i].path@ == resolved[i],
    ensures
        ascending_listing(targets(again, prefix)) == resolved,
{
    let matches = again[0].outcome->Matches_0@;
    assert forall|p: Seq<char>| targets(again, prefix).contains(p) == resolved.to_set().contains(
        p,
    ) by {
        if resolved.contains(p) {
            let i = choose|i: int| 0 <= i < resolved.len() && resolved[i] == p;
            assert(matches[i].is_dir && matches[i].path@ == p);
            assert(directories_under(matches, prefix).contains(p));
            assert(again[0].outcome is Matches);
        }
        if targets(again, prefix).contains(p) {
            let n = choose|n: int|
                0 <= n < again.len() && (#[trigger] again[n]).outcome is Matches
                    && directories_under(again[n].outcome->Matches_0@, prefix).contains(p);
            let j = choose|j: int|
                0 <= j < matches.len() && (#[trigger] matches[j]).is_dir && matches[j].path@ == p
                    && is_prefix(prefix, p);
            assert(resolved[j] == p);
        }
    }
    assert(targets(again, prefix) =~= resolved.to_set());
    lemma_listing_of(resolved);
}

/// What is to be built for a root manifest.
#[derive(Debug, PartialEq, Eq)]
pub enum Targets {
    /// The manifest is that of a single package, which is built where the
    /// manifest lies.
    Package(ParsedPackage),
    /// The manifest declares a workspace without members: nothing is
    /// built, and that is no error.
    Nothing,
    /// The manifest declares a workspace: its member patterns are to be
    /// expanded, and the package of each target directory built.
    Workspace { members: Vec<String> },
}

/// What is to be built, as mathematical values.
pub enum TargetsView {
    Package(ParsedPackageView),
    Nothing,
    Workspace { members: Seq<Seq<char>> },
}

impl View for Targets {
    type V = TargetsView;

    open spec fn view(&self) -> TargetsView {
        match self {
            Targets::Package(package) => TargetsView::Package(package@),
            Targets::Nothing => TargetsView::Nothing,
            Targets::Workspace { members } => TargetsView::Workspace { members: texts(members@) },
        }
    }
}

/// What `build` returns for a text that the TOML parser reads as
/// `document`: the members of a workspace that has any, nothing for a
/// workspace without members, and otherwise the package that the same
/// document describes.
pub open spec fn targets_of(document: crate::document::Node) -> Result<
    TargetsView,
    crate::document::Key,
> {
    match workspace_of(document) {
        Err(key) => Err(key),
        Ok(IsWorkspaceView::Yes { members }) => Ok(TargetsView::Workspace { members }),
        Ok(IsWorkspaceView::NoMembers) => Ok(TargetsView::Nothing),
        Ok(IsWorkspaceView::No) => match parsed_package(document) {
            Ok(package) => Ok(TargetsView::Package(package)),
            Err(key) => Err(key),
        },
    }
}

/// Tells from the text of the root manifest what is to be built.
pub fn build(file: &str) -> (res: Result<Targets, ManifestSyntaxError>)
    ensures
        match parsed_toml(file@) {
            None => res matches Err(error) && error is Syntax,
            Some(document) => match targets_of(document) {
                Ok(view) => res matches Ok(found) && found@ == view,
                Err(key) => res == Err::<Targets, _>(ManifestSyntaxError::Malformed(key)),
            },
        },
{
    let document = match parse_document(file) {
        Ok(document) => document,
        Err(error) => {
            return Err(error);
        },
    };
    let manifest = match read_workspace(&document) {
        Ok(manifest) => manifest,
        Err(error) => {
            return Err(error);
        },
    };
    match state_of(manifest) {
        IsWorkspace::Yes { members } => Ok(Targets::Workspace { members }),
        IsWorkspace::NoMembers => Ok(Targets::Nothing),
        IsWorkspace::No => match read_package(&document) {
            Ok(manifest) => Ok(Targets::Package(package_from(manifest))),
            Err(error) => Err(error),
        },
    }
}

} // verus!
